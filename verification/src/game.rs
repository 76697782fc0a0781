//! The game: two players that take turns in a level full of obstacles and
//! terrain, and the levels that follow one another.

use vstd::prelude::*;
use crate::camera::{fill_of, static_fill_of, CamDraw, Camera};
use crate::colour::Colour;
use crate::geometry::{Rect, Vec2};
use crate::input::Input;
use crate::level::{spawned_objects, spawned_terrain, Level};
use crate::physics::{Phys, PhysRect};
use crate::player::Player;
use crate::scalar::{diff, prod, ratio, sum, fx_add, fx_div, fx_mul, fx_sub, SCALE};
use crate::scene::{phys_update, Scene};
use crate::sprite::{GameObject, Texture};
use crate::world::{Nested, Obstacle};

verus! {

/// How long a player is in control before the other takes over.
pub const SWITCH_TIME: i32 = 10_000;

/// Vertical velocity of the quick player's jump.
pub const QUICK_JUMP: i32 = -240_000;

/// Vertical velocity of the heavy player's jump.
pub const HEAVY_JUMP: i32 = -160_000;

/// Width of the bar that shows the time left.
pub const BAR_WIDTH: i32 = 240_000;

#[derive(PartialEq, Eq, Structural, Hash, Clone, Copy, Debug)]
pub enum Players {
    Quick,
    Heavy,
}

pub struct Game {
    pub quick: Player,
    pub heavy: Player,
    pub maps: Vec<Level>,
    /// The level that is played.
    pub m: usize,
    /// The player that is in control.
    pub p: Players,
    /// How many players have left the level by its right edge.
    pub finished_count: u8,
    pub player_spawn: Vec2,
    pub objects: Vec<Obstacle>,
    pub nested: Vec<Nested>,
    pub prev_input: Input,
    /// The camera has yet to be sent to the player in control.
    pub map_loaded: bool,
    /// The camera is with the player in control.
    pub cam_returned: bool,
    /// How long the player in control has been in control.
    pub switch_time: i32,
    /// The last level has been left.
    pub level_complete: bool,
}

/// A game as values.
pub struct GameView {
    pub quick: Player,
    pub heavy: Player,
    pub maps: Seq<Level>,
    pub m: int,
    pub p: Players,
    pub finished_count: int,
    pub player_spawn: Vec2,
    pub objects: Seq<Obstacle>,
    pub nested: Seq<Nested>,
    pub prev_input: Input,
    pub map_loaded: bool,
    pub cam_returned: bool,
    pub switch_time: int,
    pub level_complete: bool,
}

impl View for Game {
    type V = GameView;

    open spec fn view(&self) -> GameView {
        GameView {
            quick: self.quick,
            heavy: self.heavy,
            maps: self.maps@,
            m: self.m as int,
            p: self.p,
            finished_count: self.finished_count as int,
            player_spawn: self.player_spawn,
            objects: self.objects@,
            nested: self.nested@,
            prev_input: self.prev_input,
            map_loaded: self.map_loaded,
            cam_returned: self.cam_returned,
            switch_time: self.switch_time as int,
            level_complete: self.level_complete,
        }
    }
}

/// The obstacles that have not fallen out of a level of height `height`: an
/// obstacle is gone once its top is more than its own height below the
/// level's.
pub open spec fn surviving(objs: Seq<Obstacle>, height: int) -> Seq<Obstacle>
    decreases objs.len(),
{
    if objs.len() == 0 {
        Seq::empty()
    } else {
        let before = surviving(objs.drop_last(), height);
        if objs.last().body().rect.y > height + objs.last().body().rect.h {
            before
        } else {
            before.push(objs.last())
        }
    }
}

/// A player drawn in full if it is in control, and dimmed if it is not.
pub open spec fn tinted(pl: Player, active: bool) -> Player {
    Player {
        go: GameObject {
            colour: Colour { r: if active { 255u8 } else { 0u8 }, a: if active { 255u8 } else { 170u8 }, ..pl.go.colour },
            ..pl.go
        },
        ..pl
    }
}

/// The rectangle of the bar that shows the time left, in view coordinates.
pub open spec fn bar() -> Rect {
    Rect { x: 0, y: 154_000, w: BAR_WIDTH, h: 10_000 }
}

impl GameView {
    /// There is a level, and the level that is played is one of them.
    pub open spec fn wf(self) -> bool {
        0 <= self.m < self.maps.len() && 0 <= self.finished_count <= u8::MAX
    }

    /// The level that is played.
    pub open spec fn level(self) -> Level {
        self.maps[self.m]
    }

    /// The player in control.
    pub open spec fn active(self) -> Player {
        match self.p {
            Players::Quick => self.quick,
            Players::Heavy => self.heavy,
        }
    }

    /// The game with `pl` in the place of the player in control.
    pub open spec fn with_active(self, pl: Player) -> GameView {
        match self.p {
            Players::Quick => GameView { quick: pl, ..self },
            Players::Heavy => GameView { heavy: pl, ..self },
        }
    }

    /// The game after the level that is played is set up: its obstacles and
    /// terrain replace what was there, both players stand at rest where the
    /// level has them start, the heavy one in control.
    #[verifier::opaque]
    pub open spec fn loaded(self) -> GameView {
        let spawn = match self.level().player_spawn {
            Some(v) => v,
            None => self.player_spawn,
        };
        GameView {
            map_loaded: true,
            cam_returned: false,
            p: Players::Heavy,
            switch_time: 0,
            finished_count: 0,
            objects: spawned_objects(self.level().spawns@),
            nested: spawned_terrain(self.level().spawns@),
            player_spawn: spawn,
            quick: self.quick.placed(spawn),
            heavy: self.heavy.placed(spawn),
            ..self
        }
    }

    /// The game after control goes to the other player, which it does only
    /// while no player has left the level.
    #[verifier::opaque]
    pub open spec fn swapped(self) -> GameView {
        if self.finished_count > 0 {
            self
        } else {
            GameView {
                cam_returned: false,
                map_loaded: true,
                p: match self.p {
                    Players::Heavy => Players::Quick,
                    Players::Quick => Players::Heavy,
                },
                ..self
            }
        }
    }

    /// The game after the level is left: the next one is set up, or the game
    /// is complete if there is none.
    #[verifier::opaque]
    pub open spec fn advanced(self) -> GameView {
        let next = if self.m < self.maps.len() - 1 {
            GameView { m: self.m + 1, ..self }.loaded()
        } else {
            GameView { level_complete: true, ..self }
        };
        GameView { map_loaded: false, cam_returned: true, ..next }
    }

    /// The game with the level started again if the player in control has
    /// fallen out of it: if its top is more than its own height below the
    /// level's.
    pub open spec fn caught(self) -> GameView {
        if self.active().pr.rect.y > self.level().rect.h + self.active().pr.rect.h {
            self.loaded()
        } else {
            self
        }
    }

    /// The game after a player in control that has left the level by the
    /// right edge is counted as finished: the other takes over, and when
    /// both have finished the level is left. The count stops at the largest
    /// value that it can hold.
    pub open spec fn passed(self) -> GameView {
        if self.active().pr.rect.x > self.level().rect.w + self.active().pr.rect.w {
            let s1 = self.swapped();
            let s2 = GameView {
                finished_count: if s1.finished_count < u8::MAX { s1.finished_count + 1 } else { s1.finished_count },
                ..s1
            };
            if s2.finished_count == 2 {
                s2.advanced()
            } else {
                s2
            }
        } else {
            self
        }
    }

    /// The game after what has left the level is dealt with: obstacles
    /// that have fallen out are gone, then a player that has fallen out
    /// starts the level again, then one that has left it is counted.
    #[verifier::opaque]
    pub open spec fn swept(self) -> GameView {
        GameView { objects: surviving(self.objects, self.level().rect.h as int), ..self }.caught().passed()
    }

    /// The game after the intents that come on with `input` are followed:
    /// changing the player, skipping the level, going back one level.
    #[verifier::opaque]
    pub open spec fn switched(self, input: Input) -> GameView {
        let s1 = if input.debug_1 && !self.prev_input.debug_1 {
            self.swapped()
        } else {
            self
        };
        let s2 = if input.debug_2 && !self.prev_input.debug_2 {
            s1.advanced()
        } else {
            s1
        };
        if input.debug_3 && !self.prev_input.debug_3 {
            GameView { m: if s2.m == 0 { 0 } else { s2.m - 1 }, ..s2 }.loaded()
        } else {
            s2
        }
    }

    /// The game after the time in control is counted on by `time`, and
    /// control changes when it is used up.
    #[verifier::opaque]
    pub open spec fn timed(self, time: int) -> GameView {
        let t = sum(self.switch_time, time);
        if t > SWITCH_TIME {
            GameView { switch_time: 0, ..self }.swapped()
        } else {
            GameView { switch_time: t, ..self }
        }
    }

    /// The game after the player in control is steered and everything has
    /// moved for one frame.
    #[verifier::opaque]
    pub open spec fn simulated(self, time: int, input: Input) -> GameView {
        let scene = Scene { objs: self.objects, player: self.active().steered(input), nested: self.nested }.frame(
            time,
        );
        GameView { objects: scene.objs, nested: scene.nested, ..self.with_active(scene.player) }
    }

    /// The game after one update. While the camera is on its way to the
    /// player in control, nothing moves.
    #[verifier::opaque]
    pub open spec fn updated(self, time: int, input: Input) -> GameView {
        let s1 = self.switched(input);
        if !s1.cam_returned {
            s1
        } else {
            let s2 = if input.restart && !self.prev_input.restart {
                s1.loaded()
            } else {
                s1
            };
            GameView { prev_input: input, ..s2.timed(time).simulated(time, input).swept() }
        }
    }

    /// The point that the camera is to show: the middle of the player in
    /// control.
    pub open spec fn focus(self) -> Vec2 {
        self.active().pr.rect.round_pos_spec().centre_spec()
    }

    /// The camera after it is pointed. In a newly set up level, or after a
    /// change of player, it is sent on its way to the player in control; once
    /// it has arrived, it stays with that player.
    #[verifier::opaque]
    pub open spec fn aimed(self, cam: Camera) -> Camera {
        let centred = cam.centred_on(self.focus(), self.level().rect);
        if self.map_loaded {
            Camera { target: centred, ..cam }
        } else if cam.done || self.cam_returned {
            Camera { target: centred, rect: Rect { x: centred.x, y: centred.y, ..cam.rect }, ..cam }
        } else {
            cam
        }
    }

    /// The game after the camera is pointed: a camera that is sent on its
    /// way is on its way, and one that has arrived stays.
    pub open spec fn pointed(self, cam_done: bool) -> GameView {
        if self.map_loaded {
            GameView { map_loaded: false, cam_returned: false, ..self }
        } else if cam_done || self.cam_returned {
            GameView { cam_returned: true, ..self }
        } else {
            self
        }
    }

    /// The game with its players tinted. While no player has left the
    /// level, the one in control is drawn in full and the other dimmed. After
    /// that the one in control is drawn in full once the camera is with it.
    pub open spec fn coloured(self) -> GameView {
        if self.finished_count == 0 {
            GameView {
                quick: tinted(self.quick, self.p == Players::Quick),
                heavy: tinted(self.heavy, self.p == Players::Heavy),
                ..self
            }
        } else if self.cam_returned {
            self.with_active(tinted(self.active(), true))
        } else {
            self
        }
    }

    /// The game after it is drawn with a camera that has arrived or not.
    #[verifier::opaque]
    pub open spec fn shown(self, cam_done: bool) -> GameView {
        self.pointed(cam_done).coloured()
    }

    /// The commands that fill the obstacles, each on whole units.
    pub open spec fn obstacle_fills(self, cam: &Camera) -> Seq<CamDraw> {
        self.objects.map_values(|o: Obstacle| fill_of(o.body().rect.round_pos_spec(), o.body().colour, cam))
    }

    /// The commands that fill the terrain.
    pub open spec fn terrain_fills(self, cam: &Camera) -> Seq<CamDraw> {
        self.nested.map_values(|n: Nested| fill_of(n.pr.rect, n.pr.colour, cam))
    }

    /// The commands that draw the players: both while no player has left
    /// the level, then only the one in control.
    pub open spec fn player_sprites(self, cam: &Camera) -> Seq<CamDraw> {
        if self.finished_count == 0 {
            seq![self.quick.sprite(cam), self.heavy.sprite(cam)]
        } else {
            seq![self.active().sprite(cam)]
        }
    }

    /// The commands that draw the bar of the time left, while no player has
    /// left the level: its ground, and over it the part that is left.
    pub open spec fn bar_fills(self, cam: &Camera) -> Seq<CamDraw> {
        if self.finished_count == 0 {
            let left = diff(SCALE as int, ratio(self.switch_time, SWITCH_TIME as int));
            seq![
                static_fill_of(bar(), Colour { r: 100, g: 100, b: 100, a: 170 }, cam),
                static_fill_of(
                    Rect { w: prod(BAR_WIDTH as int, left) as i32, ..bar() },
                    Colour { r: 0, g: 0, b: 0, a: 190 },
                    cam,
                ),
            ]
        } else {
            Seq::empty()
        }
    }

    /// The draw commands of a frame, from back to front: the level, the
    /// obstacles, the terrain, the players, the bar.
    #[verifier::opaque]
    pub open spec fn commands(self, cam: &Camera) -> Seq<CamDraw> {
        self.level().backdrop(cam) + self.obstacle_fills(cam) + self.terrain_fills(cam) + self.player_sprites(cam)
            + self.bar_fills(cam)
    }
}

impl Game {
    /// A new game on the first of `maps`.
    pub fn new(quick: Texture, heavy: Texture, maps: Vec<Level>) -> (g: Game)
        requires
            maps@.len() > 0,
        ensures
            g@.wf(),
            g@ == (GameView { cam_returned: true, ..Game::blank(quick, heavy, maps@).loaded() }),
    {
        let mut g = Game {
            quick: Player::new(
                quick,
                Vec2::new(500_000, 550_000),
                QUICK_JUMP,
                3000,
                Vec2::new(150_000, 800_000),
                2000,
            ),
            heavy: Player::new(
                heavy,
                Vec2::new(400_000, 500_000),
                HEAVY_JUMP,
                2000,
                Vec2::new(100_000, 800_000),
                2000,
            ),
            maps,
            objects: Vec::new(),
            p: Players::Heavy,
            m: 0,
            prev_input: Input::new(),
            nested: Vec::new(),
            player_spawn: Vec2::new(0, 0),
            finished_count: 0,
            map_loaded: false,
            cam_returned: true,
            switch_time: 0,
            level_complete: false,
        };
        g.load_map();
        g.cam_returned = true;
        g
    }

    /// The game before its first level is set up.
    pub open spec fn blank(quick: Texture, heavy: Texture, maps: Seq<Level>) -> GameView {
        GameView {
            quick: Player::fresh(
                quick,
                Vec2 { x: 500_000, y: 550_000 },
                QUICK_JUMP,
                3000,
                Vec2 { x: 150_000, y: 800_000 },
                2000,
            ),
            heavy: Player::fresh(
                heavy,
                Vec2 { x: 400_000, y: 500_000 },
                HEAVY_JUMP,
                2000,
                Vec2 { x: 100_000, y: 800_000 },
                2000,
            ),
            maps,
            m: 0,
            p: Players::Heavy,
            finished_count: 0,
            player_spawn: Vec2 { x: 0, y: 0 },
            objects: Seq::empty(),
            nested: Seq::empty(),
            prev_input: Input::idle(),
            map_loaded: false,
            cam_returned: true,
            switch_time: 0,
            level_complete: false,
        }
    }

    /// Which player jumped in the last update, if the one in control did.
    pub fn jumped(&self) -> (who: Option<Players>)
        ensures
            who == (if self@.active().jumped { Some(self.p) } else { None }),
    {
        let jumped = match self.p {
            Players::Quick => self.quick.jumped(),
            Players::Heavy => self.heavy.jumped(),
        };
        if jumped {
            Some(self.p)
        } else {
            None
        }
    }

    /// Whether there is a level to play: the game can be updated and drawn.
    pub fn playable(&self) -> (ok: bool)
        ensures
            ok == self@.wf(),
    {
        self.m < self.maps.len()
    }

    /// Whether the last level has been left.
    pub fn game_complete(&self) -> (complete: bool)
        ensures
            complete == self.level_complete,
    {
        self.level_complete
    }

    /// Advances the game by one frame of length `time`.
    pub fn update(&mut self, time: &i32, input: &Input)
        requires
            old(self)@.wf(),
        ensures
            final(self)@.wf(),
            final(self)@ == old(self)@.updated(*time as int, *input),
    {
        proof {
            reveal(GameView::updated);
        }
        let restart: bool = input.restart && !self.prev_input.restart;
        self.switch(input);
        if !self.cam_returned {
            return ;
        }
        if restart {
            self.load_map();
        }
        self.tick(time);
        self.simulate(time, input);
        self.check_destroyed();
        let ghost s1 = self@;
        self.prev_input = *input;
        assert(self@ == (GameView { prev_input: *input, ..s1 }));
    }

    /// Points the camera and adds the draw commands of the frame.
    pub fn draw(&mut self, cam: &mut Camera)
        requires
            old(self)@.wf(),
        ensures
            final(self)@.wf(),
            final(self)@ == old(self)@.shown(old(cam).done),
            final(cam).same_view(&old(self)@.aimed(*old(cam))),
            final(cam).draws@ == old(cam).draws@ + final(self)@.commands(&old(self)@.aimed(*old(cam))),
    {
        let ghost before = cam.draws@;
        let ghost seen = self@.aimed(*cam);
        proof {
            reveal(GameView::shown);
        }
        self.aim(cam);
        self.tint();
        let ghost aimed = *cam;
        self.maps[self.m].draw(cam);
        assert(self@.level().backdrop(&aimed) =~= self@.level().backdrop(&seen));
        self.draw_objects(cam, Ghost(seen));
        self.draw_terrain(cam, Ghost(seen));
        self.draw_players(cam, Ghost(seen));
        self.draw_bar(cam, Ghost(seen));
        proof {
            reveal(GameView::commands);
        }
        assert(cam.draws@ =~= before + self@.commands(&seen));
    }

    /// Follows the intents that come on with `input`.
    fn switch(&mut self, input: &Input)
        requires
            old(self)@.wf(),
        ensures
            final(self)@.wf(),
            final(self)@ == old(self)@.switched(*input),
    {
        proof {
            reveal(GameView::switched);
        }
        let change: bool = input.debug_1 && !self.prev_input.debug_1;
        let skip: bool = input.debug_2 && !self.prev_input.debug_2;
        let back: bool = input.debug_3 && !self.prev_input.debug_3;
        if change {
            self.swap_player();
        }
        if skip {
            self.next_lvl();
        }
        if back {
            let ghost s2 = self@;
            self.m = if self.m == 0 { 0 } else { self.m - 1 };
            assert(self@ == (GameView { m: if s2.m == 0 { 0 } else { s2.m - 1 }, ..s2 }));
            self.load_map();
        }
    }

    /// Counts the time in control on.
    fn tick(&mut self, time: &i32)
        requires
            old(self)@.wf(),
        ensures
            final(self)@.wf(),
            final(self)@ == old(self)@.timed(*time as int),
    {
        proof {
            reveal(GameView::timed);
        }
        let ghost s0 = self@;
        self.switch_time = fx_add(self.switch_time, *time);
        if self.switch_time > SWITCH_TIME {
            self.switch_time = 0;
            assert(self@ == (GameView { switch_time: 0, ..s0 }));
            self.swap_player();
        } else {
            assert(self@ == (GameView { switch_time: sum(s0.switch_time, *time as int), ..s0 }));
        }
    }

    /// Steers the player in control and moves everything for one frame.
    fn simulate(&mut self, time: &i32, input: &Input)
        requires
            old(self)@.wf(),
        ensures
            final(self)@.wf(),
            final(self)@ == old(self)@.simulated(*time as int, *input),
    {
        proof {
            reveal(GameView::simulated);
        }
        let ghost s0 = self@;
        let mut pl: Player = self.active_player();
        pl.update(time, input);
        phys_update(&mut self.objects, time, &mut pl, &mut self.nested);
        assert(self@ == (GameView { objects: self.objects@, nested: self.nested@, ..s0 }));
        self.set_active_player(pl);
    }

    /// Points the camera at the player in control.
    fn aim(&mut self, cam: &mut Camera)
        requires
            old(self)@.wf(),
        ensures
            final(self)@.wf(),
            final(self)@ == old(self)@.pointed(old(cam).done),
            final(cam).same_view(&old(self)@.aimed(*old(cam))),
            final(cam).draws@ == old(cam).draws@,
    {
        proof {
            reveal(GameView::aimed);
        }
        let ghost s0 = self@;
        let focus: Vec2 = self.active_player().pr.get_pixel_correct_rect().centre();
        if self.map_loaded {
            cam.target_centre_pos(focus, self.maps[self.m].rect);
            self.map_loaded = false;
            self.cam_returned = false;
            assert(self@ == (GameView { map_loaded: false, cam_returned: false, ..s0 }));
        } else {
            if cam.done() || self.cam_returned {
                cam.centre_on_pos(focus, self.maps[self.m].rect);
                self.cam_returned = true;
                assert(self@ == (GameView { cam_returned: true, ..s0 }));
            }
        }
    }

    /// Tints the players by who is in control.
    fn tint(&mut self)
        requires
            old(self)@.wf(),
        ensures
            final(self)@.wf(),
            final(self)@ == old(self)@.coloured(),
    {
        let ghost s0 = self@;
        if self.finished_count == 0 {
            let quick_active = self.p == Players::Quick;
            let mut quick: Player = self.quick;
            quick.go.colour.r = if quick_active { 255 } else { 0 };
            quick.go.colour.a = if quick_active { 255 } else { 170 };
            assert(quick == tinted(s0.quick, quick_active));
            let mut heavy: Player = self.heavy;
            heavy.go.colour.r = if quick_active { 0 } else { 255 };
            heavy.go.colour.a = if quick_active { 170 } else { 255 };
            assert(heavy == tinted(s0.heavy, !quick_active));
            self.quick = quick;
            self.heavy = heavy;
            assert(self@ == (GameView { quick, heavy, ..s0 }));
        } else {
            if self.cam_returned {
                let mut pl: Player = self.active_player();
                pl.go.colour.a = 255;
                pl.go.colour.r = 255;
                assert(pl == tinted(s0.active(), true));
                self.set_active_player(pl);
            }
        }
    }

    fn draw_players(&self, cam: &mut Camera, Ghost(seen): Ghost<Camera>)
        requires
            old(cam).same_view(&seen),
        ensures
            final(cam).same_view(&seen),
            final(cam).draws@ == old(cam).draws@ + self@.player_sprites(&seen),
    {
        let ghost before = cam.draws@;
        if self.finished_count == 0 {
            self.quick.draw(cam);
            self.heavy.draw(cam);
        } else {
            self.active_player().draw(cam);
        }
        assert(cam.draws@ =~= before + self@.player_sprites(&seen));
    }

    fn draw_bar(&self, cam: &mut Camera, Ghost(seen): Ghost<Camera>)
        requires
            old(cam).same_view(&seen),
        ensures
            final(cam).same_view(&seen),
            final(cam).draws@ == old(cam).draws@ + self@.bar_fills(&seen),
    {
        let ghost before = cam.draws@;
        if self.finished_count == 0 {
            cam.draw_rect_static(Rect::new(0, 154_000, BAR_WIDTH, 10_000), Colour::new(100, 100, 100, 170));
            cam.draw_rect_static(
                Rect::new(
                    0,
                    154_000,
                    fx_mul(BAR_WIDTH, fx_sub(SCALE, fx_div(self.switch_time, SWITCH_TIME))),
                    10_000,
                ),
                Colour::new(0, 0, 0, 190),
            );
        }
        assert(cam.draws@ =~= before + self@.bar_fills(&seen));
    }

    fn draw_objects(&self, cam: &mut Camera, Ghost(seen): Ghost<Camera>)
        requires
            old(cam).same_view(&seen),
        ensures
            final(cam).same_view(&seen),
            final(cam).draws@ == old(cam).draws@ + self@.obstacle_fills(&seen),
    {
        let ghost before = cam.draws@;
        let mut i: usize = 0;
        while i < self.objects.len()
            invariant
                0 <= i <= self.objects@.len(),
                cam.same_view(&seen),
                cam.draws@ == before + self@.obstacle_fills(&seen).take(i as int),
            decreases self.objects.len() - i,
        {
            let body: PhysRect = *self.objects[i].pr_im();
            cam.draw_rect(body.get_pixel_correct_rect(), body.colour);
            i = i + 1;
            assert(cam.draws@ =~= before + self@.obstacle_fills(&seen).take(i as int));
        }
        assert(self@.obstacle_fills(&seen).take(i as int) =~= self@.obstacle_fills(&seen));
    }

    fn draw_terrain(&self, cam: &mut Camera, Ghost(seen): Ghost<Camera>)
        requires
            old(cam).same_view(&seen),
        ensures
            final(cam).same_view(&seen),
            final(cam).draws@ == old(cam).draws@ + self@.terrain_fills(&seen),
    {
        let ghost before = cam.draws@;
        let mut i: usize = 0;
        while i < self.nested.len()
            invariant
                0 <= i <= self.nested@.len(),
                cam.same_view(&seen),
                cam.draws@ == before + self@.terrain_fills(&seen).take(i as int),
            decreases self.nested.len() - i,
        {
            let body: PhysRect = self.nested[i].pr;
            cam.draw_rect(body.rect, body.colour);
            i = i + 1;
            assert(cam.draws@ =~= before + self@.terrain_fills(&seen).take(i as int));
        }
        assert(self@.terrain_fills(&seen).take(i as int) =~= self@.terrain_fills(&seen));
    }

    fn active_player(&self) -> (pl: Player)
        ensures
            pl == self@.active(),
    {
        match self.p {
            Players::Quick => self.quick,
            Players::Heavy => self.heavy,
        }
    }

    fn set_active_player(&mut self, pl: Player)
        ensures
            final(self)@ == old(self)@.with_active(pl),
    {
        match self.p {
            Players::Quick => {
                self.quick = pl;
            },
            Players::Heavy => {
                self.heavy = pl;
            },
        }
    }

    fn next_lvl(&mut self)
        requires
            old(self)@.wf(),
        ensures
            final(self)@.wf(),
            final(self)@ == old(self)@.advanced(),
    {
        proof {
            reveal(GameView::advanced);
        }
        let ghost s0 = self@;
        if self.m < self.maps.len() - 1 {
            self.m = self.m + 1;
            assert(self@ == (GameView { m: s0.m + 1, ..s0 }));
            self.load_map();
        } else {
            self.level_complete = true;
            assert(self@ == (GameView { level_complete: true, ..s0 }));
        }
        let ghost s1 = self@;
        self.map_loaded = false;
        self.cam_returned = true;
        assert(self@ == (GameView { map_loaded: false, cam_returned: true, ..s1 }));
    }

    fn load_map(&mut self)
        requires
            old(self)@.wf(),
        ensures
            final(self)@.wf(),
            final(self)@ == old(self)@.loaded(),
    {
        proof {
            reveal(GameView::loaded);
        }
        let ghost s0 = self@;
        self.map_loaded = true;
        self.cam_returned = false;
        self.p = Players::Heavy;
        self.switch_time = 0;
        self.finished_count = 0;
        self.nested.clear();
        self.objects.clear();
        self.maps[self.m].spawn(&mut self.objects, &mut self.nested);
        assert(self.objects@ =~= spawned_objects(s0.level().spawns@));
        assert(self.nested@ =~= spawned_terrain(s0.level().spawns@));
        match self.maps[self.m].player_spawn {
            Some(v) => {
                self.player_spawn = v;
            },
            None => {},
        }
        self.quick.place(self.player_spawn);
        self.heavy.place(self.player_spawn);
        assert(self@ == (GameView {
            map_loaded: true,
            cam_returned: false,
            p: Players::Heavy,
            switch_time: 0,
            finished_count: 0,
            objects: spawned_objects(s0.level().spawns@),
            nested: spawned_terrain(s0.level().spawns@),
            player_spawn: self.player_spawn,
            quick: s0.quick.placed(self.player_spawn),
            heavy: s0.heavy.placed(self.player_spawn),
            ..s0
        }));
    }

    fn swap_player(&mut self)
        requires
            old(self)@.wf(),
        ensures
            final(self)@.wf(),
            final(self)@ == old(self)@.swapped(),
    {
        proof {
            reveal(GameView::swapped);
        }
        if self.finished_count > 0 {
            return ;
        }
        let ghost s0 = self@;
        self.cam_returned = false;
        self.map_loaded = true;
        self.p = match self.p {
            Players::Heavy => Players::Quick,
            Players::Quick => Players::Heavy,
        };
        assert(self@ == (GameView {
            cam_returned: false,
            map_loaded: true,
            p: match s0.p {
                Players::Heavy => Players::Quick,
                Players::Quick => Players::Heavy,
            },
            ..s0
        }));
    }

    /// Removes the obstacles that have fallen out of the level.
    fn remove_fallen(&mut self)
        requires
            old(self)@.wf(),
        ensures
            final(self)@ == (GameView {
                objects: surviving(old(self)@.objects, old(self)@.level().rect.h as int),
                ..old(self)@
            }),
    {
        let height: i32 = self.maps[self.m].rect.h;
        let ghost all = self.objects@;
        let mut kept: Vec<Obstacle> = Vec::new();
        let mut i: usize = 0;
        while i < self.objects.len()
            invariant
                self.objects@ == all,
                0 <= i <= all.len(),
                kept@ == surviving(all.take(i as int), height as int),
            decreases self.objects.len() - i,
        {
            let o: Obstacle = self.objects[i];
            let rect: Rect = o.pr_im().rect;
            proof {
                assert(all.take(i + 1).drop_last() =~= all.take(i as int));
                assert(all.take(i + 1).last() == o);
            }
            if !(rect.y as i64 > height as i64 + rect.h as i64) {
                kept.push(o);
            }
            i = i + 1;
        }
        assert(all.take(i as int) =~= all);
        self.objects = kept;
    }

    /// Starts the level again if the player in control has fallen out.
    fn restart_if_fallen(&mut self)
        requires
            old(self)@.wf(),
        ensures
            final(self)@.wf(),
            final(self)@ == old(self)@.caught(),
    {
        let bounds: Rect = self.maps[self.m].rect;
        let active: Rect = self.active_player().pr.rect;
        if active.y as i64 > bounds.h as i64 + active.h as i64 {
            self.load_map();
        }
    }

    /// Counts the player in control as finished if it has left the level
    /// by the right edge.
    fn finish_if_out(&mut self)
        requires
            old(self)@.wf(),
        ensures
            final(self)@.wf(),
            final(self)@ == old(self)@.passed(),
    {
        let bounds: Rect = self.maps[self.m].rect;
        let active: Rect = self.active_player().pr.rect;
        if active.x as i64 > bounds.w as i64 + active.w as i64 {
            self.swap_player();
            let ghost s1 = self@;
            if self.finished_count < u8::MAX {
                self.finished_count = self.finished_count + 1;
            }
            assert(self@ == (GameView {
                finished_count: if s1.finished_count < u8::MAX { s1.finished_count + 1 } else { s1.finished_count },
                ..s1
            }));
            if self.finished_count == 2 {
                self.next_lvl();
            }
        }
    }

    fn check_destroyed(&mut self)
        requires
            old(self)@.wf(),
        ensures
            final(self)@.wf(),
            final(self)@ == old(self)@.swept(),
    {
        proof {
            reveal(GameView::swept);
        }
        self.remove_fallen();
        self.restart_if_fallen();
        self.finish_if_out();
    }
}

} // verus!
