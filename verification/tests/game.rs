use coupled_explorers::camera::{CamDraw, Camera, RectDraw};
use coupled_explorers::colour::Colour;
use coupled_explorers::game::{Game, Players, BAR_WIDTH, HEAVY_JUMP, QUICK_JUMP, SWITCH_TIME};
use coupled_explorers::geometry::{Rect, Vec2};
use coupled_explorers::input::Input;
use coupled_explorers::level::{Level, Props, SpawnDescriptor, DEFAULT_WEIGHT};
use coupled_explorers::physics::{Phys, PhysRect};
use coupled_explorers::player::{Player, BRAKING};
use coupled_explorers::sprite::{GameObject, Texture, TextureDraw};
use coupled_explorers::world::{DownObs, GravObs, Nested, Obstacle, StaticObs};

const QUICK: Texture = Texture { id: 1, width: 8, height: 12 };
const HEAVY: Texture = Texture { id: 2, width: 16, height: 24 };

fn entry(rect: Rect) -> SpawnDescriptor {
    SpawnDescriptor { rect, is_static: false, fall: false, push: false, nested: false, weight: None }
}

fn first_level() -> Level {
    let ground = SpawnDescriptor { is_static: true, ..entry(Rect::new(0, 500_000, 1_000_400, 20_900)) };
    let crate_ = SpawnDescriptor { push: true, weight: Some(25), ..entry(Rect::new(300_500, 400_000, 10_000, 10_000)) };
    let ledge = SpawnDescriptor { fall: true, ..entry(Rect::new(600_000, 300_000, 30_000, 5_000)) };
    let roof = SpawnDescriptor { nested: true, ..entry(Rect::new(10_000, 100_999, 201_000, 10_000)) };
    let all = SpawnDescriptor {
        is_static: true,
        fall: true,
        push: true,
        nested: true,
        ..entry(Rect::new(900_000, 0, 5_000, 5_000))
    };
    Level {
        rect: Rect::new(0, 0, 1_000_000, 600_000),
        spawns: vec![ground, crate_, ledge, roof, all],
        player_spawn: Some(Vec2::new(100_000, 476_000)),
        layers: vec![GameObject::new_from_tex(Texture { id: 9, width: 1000, height: 600 })],
    }
}

fn second_level() -> Level {
    Level { rect: Rect::new(0, 0, 500_000, 300_000), spawns: Vec::new(), player_spawn: None, layers: Vec::new() }
}

fn game() -> Game {
    Game::new(QUICK, HEAVY, vec![first_level(), second_level()])
}

fn camera() -> Camera {
    Camera::new(Rect::new(0, 0, 240_000, 160_000), Vec2::new(480_000, 320_000))
}

fn player() -> Player {
    Player::new(HEAVY, Vec2::new(400_000, 500_000), HEAVY_JUMP, 2_000, Vec2::new(100_000, 800_000), 2_000)
}

#[test]
fn a_new_player_rests_on_its_texture() {
    let p = player();
    assert_eq!(p.go, GameObject::new_from_tex(HEAVY));
    let mut pr = PhysRect::new(Rect::new(0, 0, 16_000, 24_000), Vec2::new(100_000, 800_000));
    pr.weight = 2_000;
    assert_eq!(p.pr, pr);
    assert_eq!(p.acc, Vec2::new(400_000, 500_000));
    assert_eq!(p.jump, -160_000);
    assert_eq!(p.frict, 2_000);
    assert!(!p.jumped());
}

#[test]
fn an_idle_player_brakes_and_falls() {
    let mut p = player();
    p.pr.v = Vec2::new(3_000, 7_000);
    p.update(&16, &Input::new());
    assert_eq!(BRAKING, 10_000);
    assert_eq!(p.pr.a, Vec2::new(-30_000, 500_000));
    assert_eq!(p.pr.v, Vec2::new(3_000, 7_000));
    assert!(!p.jumped());
    assert_eq!(p.go.tex_rect.w, 16_000);
}

#[test]
fn steering_turns_the_texture_and_stops_a_player_that_turns() {
    let mut p = player();
    p.pr.v.x = 3_000;
    let left = Input { left: true, ..Input::new() };
    let right = Input { right: true, ..Input::new() };
    p.update(&16, &left);
    assert_eq!(p.pr.a.x, -400_000);
    assert_eq!(p.pr.v.x, 0);
    assert_eq!(p.go.tex_rect.w, -16_000);
    p.pr.v.x = -3_000;
    p.update(&16, &left);
    assert_eq!(p.pr.v.x, -3_000);
    p.update(&16, &right);
    assert_eq!(p.pr.a.x, 400_000);
    assert_eq!(p.pr.v.x, 0);
    assert_eq!(p.go.tex_rect.w, 24_000);
    p.pr.v.x = 5_000;
    p.update(&16, &right);
    assert_eq!(p.pr.v.x, 5_000);
}

#[test]
fn steering_both_ways_brakes() {
    let mut p = player();
    p.pr.v.x = 3_000;
    p.go.tex_rect.w = -16_000;
    p.update(&16, &Input { left: true, right: true, ..Input::new() });
    assert_eq!(p.pr.v.x, 0);
    assert_eq!(p.pr.a.x, 0);
    assert_eq!(p.go.tex_rect.w, 24_000);
}

#[test]
fn a_player_jumps_only_from_a_standing_position() {
    let jump = Input { a: true, ..Input::new() };
    let mut p = player();
    p.update(&16, &jump);
    assert!(!p.jumped());
    assert_eq!(p.pr.v.y, 0);
    assert_eq!(p.pr.a.y, 500_000);
    p.pr.y_collision = true;
    p.update(&16, &jump);
    assert!(p.jumped());
    assert_eq!(p.pr.v.y, -160_000);
    assert_eq!(p.pr.a.y, 0);
}

#[test]
fn releasing_the_jump_while_rising_scales_gravity() {
    let mut p = player();
    p.pr.v.y = -1;
    p.update(&16, &Input::new());
    assert_eq!(p.pr.a.y, 1_000_000);
    p.update(&16, &Input { a: true, ..Input::new() });
    assert_eq!(p.pr.a.y, 500_000);
    p.pr.v.y = 0;
    p.update(&16, &Input::new());
    assert_eq!(p.pr.a.y, 500_000);
}

#[test]
fn the_drawn_object_follows_the_body_on_whole_units() {
    let mut p = player();
    p.pr.rect = Rect::new(1_500, -2_499, 16_000, 24_000);
    p.post_physics();
    assert_eq!(p.go.rect, Rect::new(2_000, -2_000, 16_000, 24_000));
    p.place(Vec2::new(7_700, 8_200));
    assert_eq!(p.pr.s, Vec2::new(7_700, 8_200));
    assert_eq!(p.pr.prev_s, Vec2::new(7_700, 8_200));
    assert_eq!(p.pr.rect, Rect::new(7_700, 8_200, 16_000, 24_000));
    assert_eq!(p.pr.v, Vec2::new(0, 0));
    assert_eq!(p.go.rect, Rect::new(8_000, 8_000, 16_000, 24_000));
    let mut cam = camera();
    p.draw(&mut cam);
    assert_eq!(
        cam.drain_draws(),
        vec![CamDraw::Tex(TextureDraw::new(
            HEAVY,
            Rect::new(16_000, 16_000, 32_000, 48_000),
            Rect::new(0, 0, 16_000, 24_000),
            Colour::white()
        ))]
    );
}

#[test]
fn a_level_spawns_what_its_entries_ask_for() {
    let mut objects: Vec<Obstacle> = Vec::new();
    let mut nested: Vec<Nested> = Vec::new();
    first_level().spawn(&mut objects, &mut nested);
    assert_eq!(DEFAULT_WEIGHT, 10);
    assert_eq!(
        objects,
        vec![
            Obstacle::Static(StaticObs::new(Rect::new(0, 500_000, 1_000_000, 20_000))),
            Obstacle::Grav(GravObs::new(Rect::new(300_000, 400_000, 10_000, 10_000), 2_500)),
            Obstacle::Down(DownObs::new(Rect::new(600_000, 300_000, 30_000, 5_000))),
            Obstacle::Static(StaticObs::new(Rect::new(900_000, 0, 5_000, 5_000))),
            Obstacle::Down(DownObs::new(Rect::new(900_000, 0, 5_000, 5_000))),
            Obstacle::Grav(GravObs::new(Rect::new(900_000, 0, 5_000, 5_000), 1_000)),
        ]
    );
    assert_eq!(
        nested,
        vec![
            Nested::new(Rect::new(10_000, 100_000, 201_000, 10_000)),
            Nested::new(Rect::new(900_000, 0, 5_000, 5_000)),
        ]
    );
    first_level().spawn(&mut objects, &mut nested);
    assert_eq!(objects.len(), 12);
    assert_eq!(nested.len(), 4);
}

#[test]
fn a_level_draws_its_layers() {
    let mut cam = camera();
    cam.set_offset(Vec2::new(10_000, 0));
    first_level().draw(&mut cam);
    assert_eq!(
        cam.drain_draws(),
        vec![CamDraw::Tex(TextureDraw::new(
            Texture { id: 9, width: 1000, height: 600 },
            Rect::new(-20_000, 0, 2_000_000, 1_200_000),
            Rect::new(0, 0, 1_000_000, 600_000),
            Colour::white()
        ))]
    );
}

#[test]
fn a_new_game_sets_up_the_first_level() {
    let g = game();
    assert_eq!(g.m, 0);
    assert_eq!(g.p, Players::Heavy);
    assert_eq!(g.finished_count, 0);
    assert_eq!(g.switch_time, 0);
    assert!(g.map_loaded);
    assert!(g.cam_returned);
    assert!(!g.game_complete());
    assert_eq!(g.jumped(), None);
    assert_eq!(g.player_spawn, Vec2::new(100_000, 476_000));
    assert_eq!(g.objects.len(), 6);
    assert_eq!(g.nested.len(), 2);
    assert_eq!(g.prev_input, Input::new());
    let mut quick =
        Player::new(QUICK, Vec2::new(500_000, 550_000), QUICK_JUMP, 3_000, Vec2::new(150_000, 800_000), 2_000);
    quick.place(Vec2::new(100_000, 476_000));
    assert_eq!(g.quick, quick);
    assert_eq!(QUICK_JUMP, -240_000);
    let mut heavy = player();
    heavy.place(Vec2::new(100_000, 476_000));
    assert_eq!(g.heavy, heavy);
}

#[test]
fn nothing_moves_while_the_camera_is_on_its_way() {
    let mut g = game();
    g.cam_returned = false;
    let (objects, heavy) = (g.objects.clone(), g.heavy);
    g.update(&16, &Input { left: true, restart: true, ..Input::new() });
    assert_eq!(g.objects, objects);
    assert_eq!(g.heavy, heavy);
    assert_eq!(g.switch_time, 0);
    assert_eq!(g.prev_input, Input::new());
}

#[test]
fn an_update_moves_the_player_in_control() {
    let mut g = game();
    let quick = g.quick;
    let input = Input { right: true, ..Input::new() };
    g.update(&16, &input);
    assert_eq!(g.quick, quick);
    assert_eq!(g.heavy.pr.v, Vec2::new(6_400, 0));
    assert_eq!(g.heavy.pr.s, Vec2::new(100_102, 475_928));
    assert!(g.heavy.pr.y_collision);
    assert_eq!(g.heavy.go.rect, Rect::new(100_000, 476_000, 16_000, 24_000));
    assert_eq!(g.switch_time, 16);
    assert_eq!(g.prev_input, input);
    assert_eq!(g.objects[1].pr_im().v.y, 1_600);
    assert_eq!(g.objects.len(), 6);
}

#[test]
fn the_player_lands_on_the_ground() {
    let mut g = game();
    let mut frames: i32 = 0;
    while frames < 200 {
        g.update(&16, &Input::new());
        g.switch_time = 0;
        frames += 1;
    }
    assert!(g.heavy.pr.y_collision);
    assert_eq!(g.heavy.pr.v.y, 0);
    assert!(g.heavy.pr.rect.y + 24_000 <= 500_000);
    assert!(g.heavy.pr.rect.y + 24_000 > 499_000);
    assert_eq!(g.jumped(), None);
    g.update(&16, &Input { a: true, ..Input::new() });
    assert_eq!(g.jumped(), Some(Players::Heavy));
    assert!(g.heavy.pr.v.y < 0);
}

#[test]
fn control_changes_when_the_time_is_up() {
    let mut g = game();
    assert_eq!(SWITCH_TIME, 10_000);
    g.switch_time = 9_990;
    g.update(&10, &Input::new());
    assert_eq!(g.p, Players::Heavy);
    assert_eq!(g.switch_time, 10_000);
    g.cam_returned = true;
    g.update(&1, &Input::new());
    assert_eq!(g.p, Players::Quick);
    assert_eq!(g.switch_time, 0);
    assert!(g.map_loaded);
    assert!(!g.cam_returned);
}

#[test]
fn the_change_key_changes_the_player_when_it_comes_on() {
    let mut g = game();
    let key = Input { debug_1: true, ..Input::new() };
    g.update(&16, &key);
    assert_eq!(g.p, Players::Quick);
    assert!(!g.cam_returned);
    assert_eq!(g.prev_input, Input::new());
    g.cam_returned = true;
    g.prev_input = key;
    g.update(&16, &key);
    assert_eq!(g.p, Players::Quick);
    g.finished_count = 1;
    g.prev_input = Input::new();
    g.update(&16, &key);
    assert_eq!(g.p, Players::Quick);
}

#[test]
fn the_skip_key_goes_through_the_levels() {
    let mut g = game();
    let key = Input { debug_2: true, ..Input::new() };
    g.update(&16, &key);
    assert_eq!(g.m, 1);
    assert!(g.objects.is_empty());
    assert!(g.nested.is_empty());
    assert!(!g.game_complete());
    assert_eq!(g.player_spawn, Vec2::new(100_000, 476_000));
    assert_eq!(g.prev_input, key);
    g.prev_input = Input::new();
    g.update(&16, &key);
    assert_eq!(g.m, 1);
    assert!(g.game_complete());
}

#[test]
fn the_back_key_goes_back_a_level() {
    let mut g = game();
    g.m = 1;
    g.objects.clear();
    g.update(&16, &Input { debug_3: true, ..Input::new() });
    assert_eq!(g.m, 0);
    assert_eq!(g.objects.len(), 6);
    assert!(g.map_loaded);
    assert!(!g.cam_returned);
    g.update(&16, &Input { debug_3: true, ..Input::new() });
    assert_eq!(g.m, 0);
}

#[test]
fn restart_sets_the_level_up_again() {
    let mut g = game();
    g.objects.clear();
    g.p = Players::Quick;
    g.finished_count = 1;
    g.update(&16, &Input { restart: true, ..Input::new() });
    assert_eq!(g.objects.len(), 6);
    assert_eq!(g.p, Players::Heavy);
    assert_eq!(g.finished_count, 0);
    assert_eq!(g.switch_time, 16);
}

#[test]
fn obstacles_that_fall_out_of_the_level_are_removed() {
    let mut g = game();
    let gone = Obstacle::Grav(GravObs::new(Rect::new(0, 610_100, 40_000, 10_000), 1_000));
    let stays = Obstacle::Static(StaticObs::new(Rect::new(0, 610_000, 40_000, 10_000)));
    g.objects.insert(2, gone);
    g.objects.push(stays);
    g.update(&16, &Input::new());
    assert_eq!(g.objects.len(), 7);
    assert_eq!(g.objects[6].pr_im().rect, Rect::new(0, 610_000, 40_000, 10_000));
    assert_eq!(g.objects[2].pr_im().rect.x, 600_000);
}

#[test]
fn a_player_that_falls_out_starts_the_level_again() {
    let mut g = game();
    g.heavy.place(Vec2::new(100_000, 700_000));
    g.quick.place(Vec2::new(5_000, 5_000));
    g.objects.clear();
    g.update(&16, &Input::new());
    assert_eq!(g.objects.len(), 6);
    assert_eq!(g.heavy.pr.s, Vec2::new(100_000, 476_000));
    assert_eq!(g.quick.pr.s, Vec2::new(100_000, 476_000));
    assert!(g.map_loaded);
    assert!(!g.cam_returned);
    assert_eq!(g.switch_time, 0);
}

#[test]
fn the_level_is_left_when_both_players_are_out() {
    let mut g = game();
    g.heavy.place(Vec2::new(1_020_000, 0));
    g.update(&16, &Input::new());
    assert_eq!(g.finished_count, 1);
    assert_eq!(g.p, Players::Quick);
    assert_eq!(g.m, 0);
    g.cam_returned = true;
    g.quick.place(Vec2::new(1_020_000, 0));
    g.update(&16, &Input::new());
    assert_eq!(g.m, 1);
    assert_eq!(g.finished_count, 0);
    assert_eq!(g.p, Players::Heavy);
    assert!(!g.map_loaded);
    assert!(g.cam_returned);
    assert!(!g.game_complete());
    g.heavy.place(Vec2::new(520_000, 0));
    g.update(&16, &Input::new());
    assert_eq!(g.finished_count, 1);
    g.cam_returned = true;
    g.quick.place(Vec2::new(520_000, 0));
    g.update(&16, &Input::new());
    assert!(g.game_complete());
    assert_eq!(g.m, 1);
}

#[test]
fn a_frame_is_drawn_from_back_to_front() {
    let mut g = game();
    g.map_loaded = false;
    let mut cam = camera();
    g.draw(&mut cam);
    assert!(g.cam_returned);
    assert_eq!(cam.target, Vec2::new(0, 408_000));
    assert_eq!(cam.get_offset(), Vec2::new(0, 408_000));
    let draws = cam.drain_draws();
    assert_eq!(draws.len(), 1 + 6 + 2 + 2 + 2);
    assert_eq!(
        draws[0],
        CamDraw::Tex(TextureDraw::new(
            Texture { id: 9, width: 1000, height: 600 },
            Rect::new(0, -816_000, 2_000_000, 1_200_000),
            Rect::new(0, 0, 1_000_000, 600_000),
            Colour::white()
        ))
    );
    assert_eq!(
        draws[1],
        CamDraw::Rect(RectDraw { rect: Rect::new(0, 184_000, 2_000_000, 40_000), colour: Colour::new(30, 50, 30, 255) })
    );
    assert_eq!(
        draws[2],
        CamDraw::Rect(RectDraw {
            rect: Rect::new(600_000, -16_000, 20_000, 20_000),
            colour: Colour::new(50, 30, 30, 255)
        })
    );
    assert_eq!(
        draws[7],
        CamDraw::Rect(RectDraw {
            rect: Rect::new(20_000, -616_000, 402_000, 20_000),
            colour: Colour::new(91, 88, 24, 255)
        })
    );
    assert_eq!(
        draws[9],
        CamDraw::Tex(TextureDraw::new(
            QUICK,
            Rect::new(200_000, 136_000, 16_000, 24_000),
            Rect::new(0, 0, 8_000, 12_000),
            Colour::new(0, 255, 255, 170)
        ))
    );
    assert_eq!(
        draws[10],
        CamDraw::Tex(TextureDraw::new(
            HEAVY,
            Rect::new(200_000, 136_000, 32_000, 48_000),
            Rect::new(0, 0, 16_000, 24_000),
            Colour::new(255, 255, 255, 255)
        ))
    );
    assert_eq!(
        draws[11],
        CamDraw::Rect(RectDraw { rect: Rect::new(0, 308_000, 480_000, 20_000), colour: Colour::new(100, 100, 100, 170) })
    );
    assert_eq!(
        draws[12],
        CamDraw::Rect(RectDraw { rect: Rect::new(0, 308_000, 480_000, 20_000), colour: Colour::new(0, 0, 0, 190) })
    );
    assert_eq!(BAR_WIDTH, 240_000);
}

#[test]
fn the_bar_shrinks_with_the_time_in_control() {
    let mut g = game();
    g.map_loaded = false;
    g.switch_time = 2_500;
    let mut cam = camera();
    g.draw(&mut cam);
    let draws = cam.drain_draws();
    assert_eq!(
        draws[12],
        CamDraw::Rect(RectDraw { rect: Rect::new(0, 308_000, 360_000, 20_000), colour: Colour::new(0, 0, 0, 190) })
    );
}

#[test]
fn a_new_level_sends_the_camera_on_its_way() {
    let mut g = game();
    let mut cam = camera();
    g.draw(&mut cam);
    assert!(!g.map_loaded);
    assert!(!g.cam_returned);
    assert_eq!(cam.target, Vec2::new(0, 408_000));
    assert_eq!(cam.get_offset(), Vec2::new(0, 0));
    cam.drain_draws();
    cam.update(&16);
    assert!(!cam.done());
    g.draw(&mut cam);
    assert!(!g.cam_returned);
    assert_eq!(cam.get_offset(), Vec2::new(0, 39_000));
    let mut frames: i32 = 0;
    while !cam.done() {
        cam.update(&16);
        frames += 1;
        assert!(frames < 10_000);
    }
    g.draw(&mut cam);
    assert!(g.cam_returned);
    assert_eq!(cam.get_offset(), Vec2::new(0, 408_000));
}

#[test]
fn only_the_player_in_control_is_drawn_once_one_has_left() {
    let mut g = game();
    g.map_loaded = false;
    g.finished_count = 1;
    g.p = Players::Quick;
    g.quick.go.colour = Colour::new(0, 255, 255, 170);
    let mut cam = camera();
    g.draw(&mut cam);
    let draws = cam.drain_draws();
    assert_eq!(draws.len(), 1 + 6 + 2 + 1);
    assert_eq!(
        draws[9],
        CamDraw::Tex(TextureDraw::new(
            QUICK,
            Rect::new(200_000, 148_000, 16_000, 24_000),
            Rect::new(0, 0, 8_000, 12_000),
            Colour::new(255, 255, 255, 255)
        ))
    );
    assert_eq!(g.quick.go.colour, Colour::new(255, 255, 255, 255));
}

#[test]
fn a_game_is_playable_while_its_level_exists() {
    let mut g = game();
    assert!(g.playable());
    g.m = 1;
    assert!(g.playable());
    g.m = 2;
    assert!(!g.playable());
}

#[test]
fn an_entry_takes_its_kinds_from_the_object_or_its_group() {
    let none = Props { is_static: false, fall: false, push: false, nested: false, weight: None };
    let rect = Rect::new(1_000, 2_000, 3_000, 4_000);
    assert_eq!(SpawnDescriptor::from_props(rect, &none, &none), entry(rect));
    let object = Props { push: true, weight: Some(25), ..none };
    let group = Props { is_static: true, nested: true, weight: Some(70), ..none };
    assert_eq!(
        SpawnDescriptor::from_props(rect, &object, &group),
        SpawnDescriptor { rect, is_static: true, fall: false, push: true, nested: true, weight: Some(25) }
    );
    assert_eq!(
        SpawnDescriptor::from_props(rect, &none, &Props { fall: true, weight: Some(70), ..none }),
        SpawnDescriptor { rect, is_static: false, fall: true, push: false, nested: false, weight: None }
    );
}
