//! Level data: the bounds of a level, what it is drawn from, and what spawns
//! in it.

use vstd::prelude::*;
use crate::camera::{sprite_of, CamDraw, Camera};
use crate::geometry::{Rect, Vec2};
use crate::scalar::{clamp, narrow};
use crate::sprite::GameObject;
use crate::world::{DownObs, GravObs, Nested, Obstacle, StaticObs};

verus! {

/// Weight of a pushable obstacle for which the level gives none, in tenths
/// of a unit.
pub const DEFAULT_WEIGHT: i32 = 10;

/// Raw value of a tenth of a unit.
pub const TENTH: i32 = 100;

/// One entry of a level: a rectangle, and what is to be made of it.
#[derive(Clone, Copy, PartialEq, Eq, Structural, Debug)]
pub struct SpawnDescriptor {
    pub rect: Rect,
    /// An obstacle that never moves.
    pub is_static: bool,
    /// A platform that gives way.
    pub fall: bool,
    /// An obstacle that falls and can be pushed.
    pub push: bool,
    /// Terrain that breaks.
    pub nested: bool,
    /// Weight of the pushable obstacle, in tenths of a unit.
    pub weight: Option<i32>,
}

/// What a property bag of a level says of an object, or of a group of
/// objects.
#[derive(Clone, Copy, PartialEq, Eq, Structural, Debug)]
pub struct Props {
    pub is_static: bool,
    pub fall: bool,
    pub push: bool,
    pub nested: bool,
    /// Weight in tenths of a unit, where the bag gives one that can be read.
    pub weight: Option<i32>,
}

pub struct Level {
    /// The bounds of the level.
    pub rect: Rect,
    pub spawns: Vec<SpawnDescriptor>,
    /// Where the players start, if the level says so.
    pub player_spawn: Option<Vec2>,
    /// What the level is drawn from, the farthest layer first.
    pub layers: Vec<GameObject>,
}

impl SpawnDescriptor {
    /// The entry for an object on `rect`, from its own property bag and
    /// that of its group: a kind is asked for if either bag asks for it, and
    /// the weight is the object's own.
    pub open spec fn described(rect: Rect, object: Props, group: Props) -> SpawnDescriptor {
        SpawnDescriptor {
            rect,
            is_static: object.is_static || group.is_static,
            fall: object.fall || group.fall,
            push: object.push || group.push,
            nested: object.nested || group.nested,
            weight: object.weight,
        }
    }

    /// The entry for an object on `rect` with the given property bags.
    pub fn from_props(rect: Rect, object: &Props, group: &Props) -> (d: SpawnDescriptor)
        ensures
            d == SpawnDescriptor::described(rect, *object, *group),
    {
        SpawnDescriptor {
            rect,
            is_static: object.is_static || group.is_static,
            fall: object.fall || group.fall,
            push: object.push || group.push,
            nested: object.nested || group.nested,
            weight: object.weight,
        }
    }

    /// The weight of the pushable obstacle as a raw value.
    pub open spec fn raw_weight(self) -> int {
        clamp(
            (match self.weight {
                Some(w) => w,
                None => DEFAULT_WEIGHT,
            }) * TENTH,
        )
    }

    /// The obstacles that the entry stands for: a static one, a platform
    /// that gives way and a pushable one, each if asked for, on the
    /// rectangle rounded down to whole units.
    pub open spec fn obstacles(self) -> Seq<Obstacle> {
        let r = self.rect.floor_spec();
        let fixed = if self.is_static {
            seq![Obstacle::Static(StaticObs::fresh(r))]
        } else {
            Seq::<Obstacle>::empty()
        };
        let falling = if self.fall {
            fixed.push(Obstacle::Down(DownObs::fresh(r)))
        } else {
            fixed
        };
        if self.push {
            falling.push(Obstacle::Grav(GravObs::fresh(r, self.raw_weight() as i32)))
        } else {
            falling
        }
    }

    /// The terrain that the entry stands for.
    pub open spec fn terrain(self) -> Seq<Nested> {
        if self.nested {
            seq![Nested::fresh(self.rect.floor_spec())]
        } else {
            Seq::<Nested>::empty()
        }
    }
}

/// The obstacles of a list of entries, in the order of the entries.
pub open spec fn spawned_objects(spawns: Seq<SpawnDescriptor>) -> Seq<Obstacle>
    decreases spawns.len(),
{
    if spawns.len() == 0 {
        Seq::empty()
    } else {
        spawned_objects(spawns.drop_last()) + spawns.last().obstacles()
    }
}

/// The terrain of a list of entries, in the order of the entries.
pub open spec fn spawned_terrain(spawns: Seq<SpawnDescriptor>) -> Seq<Nested>
    decreases spawns.len(),
{
    if spawns.len() == 0 {
        Seq::empty()
    } else {
        spawned_terrain(spawns.drop_last()) + spawns.last().terrain()
    }
}

impl Level {
    /// The commands that draw the level's layers.
    pub open spec fn backdrop(&self, cam: &Camera) -> Seq<CamDraw> {
        self.layers@.map_values(|go: GameObject| sprite_of(go, cam))
    }

    /// Adds what the level spawns to the obstacles and to the terrain.
    pub fn spawn(&self, objects: &mut Vec<Obstacle>, nested: &mut Vec<Nested>)
        ensures
            final(objects)@ == old(objects)@ + spawned_objects(self.spawns@),
            final(nested)@ == old(nested)@ + spawned_terrain(self.spawns@),
    {
        let ghost objects_before = objects@;
        let ghost nested_before = nested@;
        let mut i: usize = 0;
        while i < self.spawns.len()
            invariant
                0 <= i <= self.spawns@.len(),
                objects@ == objects_before + spawned_objects(self.spawns@.take(i as int)),
                nested@ == nested_before + spawned_terrain(self.spawns@.take(i as int)),
            decreases self.spawns.len() - i,
        {
            let d: SpawnDescriptor = self.spawns[i];
            let r: Rect = d.rect.floor();
            proof {
                assert(self.spawns@.take(i + 1).drop_last() =~= self.spawns@.take(i as int));
                assert(self.spawns@.take(i + 1).last() == d);
            }
            if d.nested {
                nested.push(Nested::new(r));
            }
            if d.is_static {
                objects.push(Obstacle::Static(StaticObs::new(r)));
            }
            if d.fall {
                objects.push(Obstacle::Down(DownObs::new(r)));
            }
            if d.push {
                let tenths: i32 = match d.weight {
                    Some(w) => w,
                    None => DEFAULT_WEIGHT,
                };
                assert(-0x8000_0000 * 100 <= tenths * 100 <= 0x8000_0000 * 100);
                objects.push(Obstacle::Grav(GravObs::new(r, narrow(tenths as i128 * TENTH as i128))));
            }
            i = i + 1;
            assert(objects@ =~= objects_before + spawned_objects(self.spawns@.take(i as int)));
            assert(nested@ =~= nested_before + spawned_terrain(self.spawns@.take(i as int)));
        }
        assert(self.spawns@.take(i as int) =~= self.spawns@);
    }

    /// Adds the commands that draw the level's layers.
    pub fn draw(&self, cam: &mut Camera)
        ensures
            final(cam).draws@ == old(cam).draws@ + self.backdrop(old(cam)),
            final(cam).same_view(old(cam)),
    {
        let ghost before = cam.draws@;
        let ghost seen = *cam;
        let mut i: usize = 0;
        while i < self.layers.len()
            invariant
                0 <= i <= self.layers@.len(),
                cam.same_view(&seen),
                cam.draws@ == before + self.backdrop(&seen).take(i as int),
            decreases self.layers.len() - i,
        {
            cam.draw(&self.layers[i]);
            i = i + 1;
            assert(cam.draws@ =~= before + self.backdrop(&seen).take(i as int));
        }
        assert(self.backdrop(&seen).take(i as int) =~= self.backdrop(&seen));
    }
}

} // verus!
