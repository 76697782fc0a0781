//! One frame of the simulation over everything that moves: the obstacles,
//! the controlled player and the terrain.

use vstd::prelude::*;
use crate::physics::{collision_update, lemma_step_limits_velocity, meet, Phys, PhysRect};
use crate::scalar::magnitude;
use crate::player::Player;
use crate::world::{Nested, Obstacle};

verus! {

/// Everything that moves, as values.
pub struct Scene {
    pub objs: Seq<Obstacle>,
    pub player: Player,
    pub nested: Seq<Nested>,
}

/// The obstacles after the `i`-th and the `j`-th have met.
pub open spec fn pair_met(objs: Seq<Obstacle>, i: int, j: int) -> Seq<Obstacle> {
    let (a, b) = meet(objs[i], objs[j]);
    objs.update(i, a).update(j, b)
}

/// The obstacles after the `i`-th has met the `j`-th and each one behind
/// it, in order.
pub open spec fn row_met(objs: Seq<Obstacle>, i: int, j: int) -> Seq<Obstacle>
    decreases objs.len() - j,
{
    if 0 <= i < j < objs.len() {
        row_met(pair_met(objs, i, j), i, j + 1)
    } else {
        objs
    }
}

/// The obstacles after each from the `i`-th on has met each one behind it:
/// every pair once, in the order of the first and then of the second.
pub open spec fn all_met(objs: Seq<Obstacle>, i: int) -> Seq<Obstacle>
    decreases objs.len() - i,
    via all_met_decreases
{
    if 0 <= i < objs.len() - 1 {
        all_met(row_met(objs, i, i + 1), i + 1)
    } else {
        objs
    }
}

#[via_fn]
proof fn all_met_decreases(objs: Seq<Obstacle>, i: int) {
    if 0 <= i < objs.len() - 1 {
        lemma_row_met_len(objs, i, i + 1);
    }
}

/// Meeting changes no count.
pub proof fn lemma_row_met_len(objs: Seq<Obstacle>, i: int, j: int)
    ensures
        row_met(objs, i, j).len() == objs.len(),
    decreases objs.len() - j,
{
    if 0 <= i < j < objs.len() {
        lemma_row_met_len(pair_met(objs, i, j), i, j + 1);
    }
}

/// The bodies from the `k`-th on and the player after each of them has met
/// the player, in order.
pub open spec fn player_met<T: Phys>(items: Seq<T>, p: Player, k: int) -> (Seq<T>, Player)
    decreases items.len() - k,
{
    if 0 <= k < items.len() {
        let (o, q) = meet(items[k], p);
        player_met(items.update(k, o), q, k + 1)
    } else {
        (items, p)
    }
}

/// The struck segments' fragments, in the order of the segments.
pub open spec fn broken_debris(nested: Seq<Nested>) -> Seq<Obstacle>
    decreases nested.len(),
{
    if nested.len() == 0 {
        Seq::empty()
    } else {
        let before = broken_debris(nested.drop_last());
        match nested.last().col {
            Some(col) => before + Nested::debris(nested.last().pr.rect, col),
            None => before,
        }
    }
}

/// What is left of the struck segments, in the order of the segments.
pub open spec fn broken_rests(nested: Seq<Nested>) -> Seq<Nested>
    decreases nested.len(),
{
    if nested.len() == 0 {
        Seq::empty()
    } else {
        let before = broken_rests(nested.drop_last());
        match nested.last().col {
            Some(col) => before + Nested::rests(nested.last().pr.rect, col),
            None => before,
        }
    }
}

/// The segments that were not struck, in order.
pub open spec fn unbroken(nested: Seq<Nested>) -> Seq<Nested>
    decreases nested.len(),
{
    if nested.len() == 0 {
        Seq::empty()
    } else {
        let before = unbroken(nested.drop_last());
        if nested.last().col.is_none() {
            before.push(nested.last())
        } else {
            before
        }
    }
}

impl Scene {
    /// Every body after its hook before the physics.
    pub open spec fn prepared(self) -> Scene {
        Scene {
            objs: self.objs.map_values(|o: Obstacle| o.prepared()),
            player: self.player.prepared(),
            nested: self.nested.map_values(|n: Nested| n.prepared()),
        }
    }

    /// Every body after the horizontal integration.
    pub open spec fn moved_x(self, dt: int) -> Scene {
        Scene {
            objs: self.objs.map_values(|o: Obstacle| o.with_body(o.body().stepped_x(dt))),
            player: self.player.with_body(self.player.body().stepped_x(dt)),
            nested: self.nested.map_values(|n: Nested| n.with_body(n.body().stepped_x(dt))),
        }
    }

    /// Every body after the vertical integration.
    pub open spec fn moved_y(self, dt: int) -> Scene {
        Scene {
            objs: self.objs.map_values(|o: Obstacle| o.with_body(o.body().stepped_y(dt))),
            player: self.player.with_body(self.player.body().stepped_y(dt)),
            nested: self.nested.map_values(|n: Nested| n.with_body(n.body().stepped_y(dt))),
        }
    }

    /// The scene after a collision pass: every pair of obstacles meets,
    /// then every obstacle meets the player, then every segment of terrain
    /// meets the player. Terrain meets neither obstacles nor terrain.
    #[verifier::opaque]
    pub open spec fn collided(self) -> Scene {
        let objs = all_met(self.objs, 0);
        let (objs, player) = player_met(objs, self.player, 0);
        let (nested, player) = player_met(self.nested, player, 0);
        Scene { objs, player, nested }
    }

    /// Every body after its hook behind the physics.
    pub open spec fn finished(self) -> Scene {
        Scene {
            objs: self.objs.map_values(|o: Obstacle| o.finished()),
            player: self.player.finished(),
            nested: self.nested.map_values(|n: Nested| n.finished()),
        }
    }

    /// The scene after every struck segment is broken: its fragments join
    /// the obstacles, and what is left of it takes its place behind the
    /// segments that were not struck.
    #[verifier::opaque]
    pub open spec fn fractured(self) -> Scene {
        Scene {
            objs: self.objs + broken_debris(self.nested),
            player: self.player,
            nested: unbroken(self.nested) + broken_rests(self.nested),
        }
    }

    /// The scene after one frame of length `dt`.
    #[verifier::opaque]
    pub open spec fn frame(self, dt: int) -> Scene {
        self.prepared().moved_x(dt).collided().moved_y(dt).collided().finished().fractured()
    }
}

fn prepare_all<T: Phys + Copy>(items: &mut Vec<T>)
    ensures
        final(items)@ == old(items)@.map_values(|o: T| o.prepared()),
{
    let ghost before = items@;
    let mut i: usize = 0;
    while i < items.len()
        invariant
            items@.len() == before.len(),
            0 <= i <= items@.len(),
            forall|k: int| 0 <= k < i ==> items@[k] == before[k].prepared(),
            forall|k: int| i <= k < items@.len() ==> items@[k] == before[k],
        decreases items.len() - i,
    {
        let mut o: T = items[i];
        o.pre_physics();
        items.set(i, o);
        i = i + 1;
    }
    assert(items@ =~= before.map_values(|o: T| o.prepared()));
}

fn move_all_x<T: Phys + Copy>(items: &mut Vec<T>, time: &i32)
    ensures
        final(items)@ == old(items)@.map_values(|o: T| o.with_body(o.body().stepped_x(*time as int))),
{
    let ghost before = items@;
    let mut i: usize = 0;
    while i < items.len()
        invariant
            items@.len() == before.len(),
            0 <= i <= items@.len(),
            forall|k: int| 0 <= k < i ==> items@[k] == before[k].with_body(before[k].body().stepped_x(*time as int)),
            forall|k: int| i <= k < items@.len() ==> items@[k] == before[k],
        decreases items.len() - i,
    {
        let mut o: T = items[i];
        o.phys_x(time);
        items.set(i, o);
        i = i + 1;
    }
    assert(items@ =~= before.map_values(|o: T| o.with_body(o.body().stepped_x(*time as int))));
}

fn move_all_y<T: Phys + Copy>(items: &mut Vec<T>, time: &i32)
    ensures
        final(items)@ == old(items)@.map_values(|o: T| o.with_body(o.body().stepped_y(*time as int))),
{
    let ghost before = items@;
    let mut i: usize = 0;
    while i < items.len()
        invariant
            items@.len() == before.len(),
            0 <= i <= items@.len(),
            forall|k: int| 0 <= k < i ==> items@[k] == before[k].with_body(before[k].body().stepped_y(*time as int)),
            forall|k: int| i <= k < items@.len() ==> items@[k] == before[k],
        decreases items.len() - i,
    {
        let mut o: T = items[i];
        o.phys_y(time);
        items.set(i, o);
        i = i + 1;
    }
    assert(items@ =~= before.map_values(|o: T| o.with_body(o.body().stepped_y(*time as int))));
}

fn finish_all<T: Phys + Copy>(items: &mut Vec<T>)
    ensures
        final(items)@ == old(items)@.map_values(|o: T| o.finished()),
{
    let ghost before = items@;
    let mut i: usize = 0;
    while i < items.len()
        invariant
            items@.len() == before.len(),
            0 <= i <= items@.len(),
            forall|k: int| 0 <= k < i ==> items@[k] == before[k].finished(),
            forall|k: int| i <= k < items@.len() ==> items@[k] == before[k],
        decreases items.len() - i,
    {
        let mut o: T = items[i];
        o.post_physics();
        items.set(i, o);
        i = i + 1;
    }
    assert(items@ =~= before.map_values(|o: T| o.finished()));
}

/// Lets each body meet the player, in order.
fn meet_player<T: Phys + Copy>(items: &mut Vec<T>, p: &mut Player)
    ensures
        (final(items)@, *final(p)) == player_met(old(items)@, *old(p), 0),
{
    let ghost goal = player_met(items@, *p, 0);
    let mut i: usize = 0;
    while i < items.len()
        invariant
            0 <= i <= items@.len(),
            player_met(items@, *p, i as int) == goal,
        decreases items.len() - i,
    {
        let mut o: T = items[i];
        collision_update(&mut o, p);
        items.set(i, o);
        i = i + 1;
    }
}

/// Lets every pair of obstacles meet once.
pub fn collision_checks(objs: &mut Vec<Obstacle>)
    ensures
        final(objs)@ == all_met(old(objs)@, 0),
{
    if objs.len() == 0 {
        return ;
    }
    let ghost goal = all_met(objs@, 0);
    let n: usize = objs.len();
    let mut i: usize = 0;
    while i < n - 1
        invariant
            n == objs@.len(),
            n > 0,
            0 <= i <= n - 1,
            all_met(objs@, i as int) == goal,
        decreases n - i,
    {
        let ghost row_goal = row_met(objs@, i as int, i + 1);
        let mut j: usize = i + 1;
        while j < n
            invariant
                n == objs@.len(),
                i < j <= n,
                row_met(objs@, i as int, j as int) == row_goal,
            decreases n - j,
        {
            let mut a: Obstacle = objs[i];
            let mut b: Obstacle = objs[j];
            collision_update(&mut a, &mut b);
            objs.set(i, a);
            objs.set(j, b);
            j = j + 1;
        }
        i = i + 1;
    }
}

/// One collision pass.
pub fn coll(objs: &mut Vec<Obstacle>, p: &mut Player, nested: &mut Vec<Nested>)
    ensures
        (Scene { objs: final(objs)@, player: *final(p), nested: final(nested)@ }) == (Scene {
            objs: old(objs)@,
            player: *old(p),
            nested: old(nested)@,
        }).collided(),
{
    proof {
        reveal(Scene::collided);
    }
    collision_checks(objs);
    meet_player(objs, p);
    meet_player(nested, p);
}

/// Breaks every struck segment.
fn fracture(objs: &mut Vec<Obstacle>, nested: &mut Vec<Nested>)
    ensures
        final(objs)@ == old(objs)@ + broken_debris(old(nested)@),
        final(nested)@ == unbroken(old(nested)@) + broken_rests(old(nested)@),
{
    let ghost objs_before = objs@;
    let ghost all = nested@;
    let mut kept: Vec<Nested> = Vec::new();
    let mut spawned: Vec<Nested> = Vec::new();
    let mut i: usize = 0;
    while i < nested.len()
        invariant
            nested@ == all,
            0 <= i <= all.len(),
            objs@ == objs_before + broken_debris(all.take(i as int)),
            kept@ == unbroken(all.take(i as int)),
            spawned@ == broken_rests(all.take(i as int)),
        decreases nested.len() - i,
    {
        let segment: Nested = nested[i];
        proof {
            assert(all.take(i + 1).drop_last() =~= all.take(i as int));
            assert(all.take(i + 1).last() == segment);
        }
        if segment.had_col() {
            Nested::add(segment, objs, &mut spawned);
            assert(objs@ =~= objs_before + broken_debris(all.take(i + 1)));
        } else {
            kept.push(segment);
        }
        i = i + 1;
    }
    assert(all.take(i as int) =~= all);
    kept.append(&mut spawned);
    *nested = kept;
}

/// Runs one frame of length `time`: the hooks before the physics, the
/// horizontal integration and a collision pass, the vertical integration
/// and a collision pass, the hooks behind the physics, and the breaking of
/// struck terrain.
pub fn phys_update(objs: &mut Vec<Obstacle>, time: &i32, p: &mut Player, nested: &mut Vec<Nested>)
    ensures
        (Scene { objs: final(objs)@, player: *final(p), nested: final(nested)@ }) == (Scene {
            objs: old(objs)@,
            player: *old(p),
            nested: old(nested)@,
        }).frame(*time as int),
{
    proof {
        reveal(Scene::frame);
        reveal(Scene::fractured);
    }
    prepare_all(objs);
    prepare_all(nested);
    p.pre_physics();

    move_all_x(objs, time);
    move_all_x(nested, time);
    p.phys_x(time);

    coll(objs, p, nested);

    move_all_y(objs, time);
    move_all_y(nested, time);
    p.phys_y(time);

    coll(objs, p, nested);

    finish_all(objs);
    finish_all(nested);
    p.post_physics();

    fracture(objs, nested);
}

/// Whether a body's velocity is within its maxima. The vertical velocity is
/// counted only if `vertical` is set. The horizontal velocity is not counted
/// once a horizontal collision has changed it: an exchange of momentum may
/// leave a body faster than its maximum until its next integration.
pub open spec fn limited_body(b: PhysRect, vertical: bool) -> bool {
    &&& (b.max_v.x > 0 && !b.x_collision) ==> magnitude(b.v.x as int) <= b.max_v.x
    &&& (vertical && b.max_v.y > 0) ==> magnitude(b.v.y as int) <= b.max_v.y
}

/// Whether every one of some bodies is within its maxima.
pub open spec fn all_limited<T: Phys>(items: Seq<T>, vertical: bool) -> bool {
    forall|i: int| 0 <= i < items.len() ==> limited_body((#[trigger] items[i]).body(), vertical)
}

/// A horizontal integration step leaves the horizontal velocity within
/// its maximum.
proof fn lemma_stepped_x_limited(b: PhysRect, dt: int)
    ensures
        limited_body(b.stepped_x(dt), false),
{
    lemma_step_limits_velocity(b, dt);
}

/// A vertical integration step leaves the vertical velocity within its
/// maximum, and the horizontal velocity as it was.
proof fn lemma_stepped_y_limited(b: PhysRect, dt: int)
    requires
        limited_body(b, false),
    ensures
        limited_body(b.stepped_y(dt), true),
{
    lemma_step_limits_velocity(b, dt);
}

/// The resolution of an overlap takes no body out of its maxima.
proof fn lemma_collided_limited(b: PhysRect, other: PhysRect, vertical: bool)
    requires
        limited_body(b, vertical),
    ensures
        limited_body(b.collided(other), vertical),
{
}

/// No collision takes an obstacle out of its maxima.
proof fn lemma_obstacle_struck_limited(o: Obstacle, other: PhysRect, vertical: bool)
    requires
        limited_body(o.body(), vertical),
    ensures
        limited_body(o.struck(other).body(), vertical),
{
    lemma_collided_limited(o.body(), other, vertical);
}

/// No collision takes terrain out of its maxima.
proof fn lemma_nested_struck_limited(n: Nested, other: PhysRect, vertical: bool)
    requires
        limited_body(n.body(), vertical),
    ensures
        limited_body(n.struck(other).body(), vertical),
{
}

/// No collision takes the player out of its maxima.
proof fn lemma_player_struck_limited(p: Player, other: PhysRect, vertical: bool)
    requires
        limited_body(p.body(), vertical),
    ensures
        limited_body(p.struck(other).body(), vertical),
{
    lemma_collided_limited(p.body(), other, vertical);
}

/// A row of meetings takes no obstacle out of its maxima.
proof fn lemma_row_met_limited(objs: Seq<Obstacle>, i: int, j: int, vertical: bool)
    requires
        all_limited(objs, vertical),
    ensures
        all_limited(row_met(objs, i, j), vertical),
        row_met(objs, i, j).len() == objs.len(),
    decreases objs.len() - j,
{
    if 0 <= i < j < objs.len() {
        let next = pair_met(objs, i, j);
        lemma_obstacle_struck_limited(objs[i], objs[j].body(), vertical);
        lemma_obstacle_struck_limited(objs[j], objs[i].body(), vertical);
        assert(all_limited(next, vertical)) by {
            assert forall|k: int| 0 <= k < next.len() implies limited_body(
                (#[trigger] next[k]).body(),
                vertical,
            ) by {
                if k != i && k != j {
                    assert(next[k] == objs[k]);
                }
            }
        }
        lemma_row_met_limited(next, i, j + 1, vertical);
    }
}

/// The meetings of all pairs take no obstacle out of its maxima.
proof fn lemma_all_met_limited(objs: Seq<Obstacle>, i: int, vertical: bool)
    requires
        all_limited(objs, vertical),
    ensures
        all_limited(all_met(objs, i), vertical),
        all_met(objs, i).len() == objs.len(),
    decreases objs.len() - i,
{
    if 0 <= i < objs.len() - 1 {
        lemma_row_met_limited(objs, i, i + 1, vertical);
        lemma_all_met_limited(row_met(objs, i, i + 1), i + 1, vertical);
    }
}

/// The meetings with the player take neither the bodies nor the player out
/// of their maxima, if no collision takes such a body out of them.
proof fn lemma_player_met_limited<T: Phys>(items: Seq<T>, p: Player, k: int, vertical: bool)
    requires
        all_limited(items, vertical),
        limited_body(p.body(), vertical),
        forall|t: T, o: PhysRect|
            limited_body(t.body(), vertical) ==> limited_body((#[trigger] t.struck(o)).body(), vertical),
    ensures
        all_limited(player_met(items, p, k).0, vertical),
        limited_body(player_met(items, p, k).1.body(), vertical),
        player_met(items, p, k).0.len() == items.len(),
    decreases items.len() - k,
{
    if 0 <= k < items.len() {
        let (o, q) = meet(items[k], p);
        let next = items.update(k, o);
        lemma_player_struck_limited(p, items[k].body(), vertical);
        assert(limited_body(items[k].struck(p.body()).body(), vertical));
        assert(all_limited(next, vertical)) by {
            assert forall|n: int| 0 <= n < next.len() implies limited_body(
                (#[trigger] next[n]).body(),
                vertical,
            ) by {
                if n != k {
                    assert(next[n] == items[n]);
                }
            }
        }
        lemma_player_met_limited(next, q, k + 1, vertical);
    }
}

/// A collision pass takes nothing out of its maxima.
proof fn lemma_collided_scene_limited(scene: Scene, vertical: bool)
    requires
        all_limited(scene.objs, vertical),
        all_limited(scene.nested, vertical),
        limited_body(scene.player.body(), vertical),
    ensures
        all_limited(scene.collided().objs, vertical),
        all_limited(scene.collided().nested, vertical),
        limited_body(scene.collided().player.body(), vertical),
{
    reveal(Scene::collided);
    lemma_all_met_limited(scene.objs, 0, vertical);
    let objs = all_met(scene.objs, 0);
    assert forall|t: Obstacle, o: PhysRect| limited_body(t.body(), vertical) implies limited_body(
        (#[trigger] t.struck(o)).body(),
        vertical,
    ) by {
        lemma_obstacle_struck_limited(t, o, vertical);
    }
    lemma_player_met_limited(objs, scene.player, 0, vertical);
    let player = player_met(objs, scene.player, 0).1;
    assert forall|t: Nested, o: PhysRect| limited_body(t.body(), vertical) implies limited_body(
        (#[trigger] t.struck(o)).body(),
        vertical,
    ) by {
        lemma_nested_struck_limited(t, o, vertical);
    }
    lemma_player_met_limited(scene.nested, player, 0, vertical);
}

/// Fragments of broken terrain start at rest.
proof fn lemma_debris_limited(nested: Seq<Nested>)
    ensures
        all_limited(broken_debris(nested), true),
    decreases nested.len(),
{
    if nested.len() > 0 {
        lemma_debris_limited(nested.drop_last());
    }
}

/// What is left of broken terrain starts at rest.
proof fn lemma_rests_limited(nested: Seq<Nested>)
    ensures
        all_limited(broken_rests(nested), true),
    decreases nested.len(),
{
    if nested.len() > 0 {
        lemma_rests_limited(nested.drop_last());
    }
}

/// The segments that were not struck are as they were.
proof fn lemma_unbroken_limited(nested: Seq<Nested>)
    requires
        all_limited(nested, true),
    ensures
        all_limited(unbroken(nested), true),
    decreases nested.len(),
{
    if nested.len() > 0 {
        assert(all_limited(nested.drop_last(), true)) by {
            assert forall|i: int| 0 <= i < nested.drop_last().len() implies limited_body(
                (#[trigger] nested.drop_last()[i]).body(),
                true,
            ) by {
                assert(nested.drop_last()[i] == nested[i]);
            }
        }
        lemma_unbroken_limited(nested.drop_last());
    }
}

/// After a frame every velocity is within the maximum of its body, where
/// that is positive: the vertical velocity of every body, and the horizontal
/// velocity of every body that had no horizontal collision in the frame.
pub proof fn lemma_frame_limits_velocity(scene: Scene, dt: int)
    ensures
        all_limited(scene.frame(dt).objs, true),
        all_limited(scene.frame(dt).nested, true),
        limited_body(scene.frame(dt).player.body(), true),
{
    reveal(Scene::frame);
    reveal(Scene::fractured);
    let s1 = scene.prepared().moved_x(dt);
    assert(all_limited(s1.objs, false)) by {
        assert forall|i: int| 0 <= i < s1.objs.len() implies limited_body((#[trigger] s1.objs[i]).body(), false) by {
            lemma_stepped_x_limited(scene.prepared().objs[i].body(), dt);
        }
    }
    assert(all_limited(s1.nested, false)) by {
        assert forall|i: int| 0 <= i < s1.nested.len() implies limited_body(
            (#[trigger] s1.nested[i]).body(),
            false,
        ) by {
            lemma_stepped_x_limited(scene.prepared().nested[i].body(), dt);
        }
    }
    lemma_stepped_x_limited(scene.prepared().player.body(), dt);
    lemma_collided_scene_limited(s1, false);
    let s2 = s1.collided();
    let s3 = s2.moved_y(dt);
    assert(all_limited(s3.objs, true)) by {
        assert forall|i: int| 0 <= i < s3.objs.len() implies limited_body((#[trigger] s3.objs[i]).body(), true) by {
            lemma_stepped_y_limited(s2.objs[i].body(), dt);
        }
    }
    assert(all_limited(s3.nested, true)) by {
        assert forall|i: int| 0 <= i < s3.nested.len() implies limited_body(
            (#[trigger] s3.nested[i]).body(),
            true,
        ) by {
            lemma_stepped_y_limited(s2.nested[i].body(), dt);
        }
    }
    lemma_stepped_y_limited(s2.player.body(), dt);
    lemma_collided_scene_limited(s3, true);
    let s5 = s3.collided().finished();
    assert(all_limited(s5.objs, true)) by {
        assert forall|i: int| 0 <= i < s5.objs.len() implies limited_body((#[trigger] s5.objs[i]).body(), true) by {
            assert(s5.objs[i].body() == s3.collided().objs[i].body());
        }
    }
    assert(all_limited(s5.nested, true)) by {
        assert forall|i: int| 0 <= i < s5.nested.len() implies limited_body(
            (#[trigger] s5.nested[i]).body(),
            true,
        ) by {
            assert(s5.nested[i].body() == s3.collided().nested[i].body());
        }
    }
    lemma_debris_limited(s5.nested);
    lemma_rests_limited(s5.nested);
    lemma_unbroken_limited(s5.nested);
    assert(scene.frame(dt) == s5.fractured());
}

} // verus!
