//! World-wide resources: configuration and frame bookkeeping.

use vstd::prelude::*;
use crate::anim::AnimationName;
use crate::anim::Animations;
use crate::entity::InsertableObject;
use crate::math::COORD_LIMIT;

verus! {

/// The window's inner size in pixels, kept for the renderer and input.
#[derive(Clone, Copy, PartialEq, Eq, Debug)]
pub struct WindowSize(pub (u32, u32));

/// Ticks elapsed since the last update.
#[derive(Clone, Copy, PartialEq, Eq, Structural, Debug)]
pub struct UpdateTime(pub i64);

/// The owned configuration object, built once at startup from the loaded
/// data and passed by reference into every system that needs it; there is
/// no ambient global state.
pub struct Conf {
    pub fps: usize,
    pub physic_max_timestep: i64,
    pub physic_min_timestep: i64,
    pub zoom: i64,
    /// Prototypes by name, as level data and spawners reference them.
    pub insertables: Vec<(String, InsertableObject)>,
    pub player_radius: i64,
    pub player_linear_damping: i64,
    pub player_angular_damping: i64,
    /// Folds angular offsets exactly; without it the historical formula
    /// is reproduced, which scales the remainder by the half turn.
    pub exact_aim_angle: bool,
}

/// `r` is the first prototype declared under `name`.
pub open spec fn conf_first_match(
    insertables: Seq<(String, InsertableObject)>,
    name: Seq<char>,
    r: int,
) -> bool {
    &&& 0 <= r < insertables.len()
    &&& insertables[r].0@ == name
    &&& forall|k: int| 0 <= k < r ==> (#[trigger] insertables[k]).0@ != name
}

/// Whether a prototype name resolves in the configuration.
pub open spec fn conf_resolves(
    insertables: Seq<(String, InsertableObject)>,
    name: Seq<char>,
) -> bool {
    exists|k: int| 0 <= k < insertables.len() && (#[trigger] insertables[k]).0@ == name
}

impl Conf {
    /// Every declared prototype is sound, its tuning in range, and its
    /// idle animation resolves: checked by the loader once, relied on by
    /// the spawners every frame.
    pub open spec fn wf(self, animations: Animations) -> bool {
        &&& forall|k: int| 0 <= k < self.insertables@.len() ==> {
            let o = (#[trigger] self.insertables@[k]).1;
            o.wf() && animations.has_spec(o.specie_spec(), AnimationName::Idle)
        }
        &&& -COORD_LIMIT <= self.player_linear_damping <= COORD_LIMIT
        &&& -COORD_LIMIT <= self.player_angular_damping <= COORD_LIMIT
        &&& 0 <= self.player_radius <= COORD_LIMIT
    }

    /// Looks a prototype up by name: the first declared match.
    pub fn lookup(&self, name: &String) -> (r: Option<InsertableObject>)
        ensures
            match r {
                Some(o) => exists|k: int| #[trigger] conf_first_match(
                    self.insertables@,
                    name@,
                    k,
                ) && o == self.insertables@[k].1,
                None => !conf_resolves(self.insertables@, name@),
            },
    {
        let n = self.insertables.len();
        let mut k: usize = 0;
        while k < n
            invariant
                k <= n,
                n == self.insertables@.len(),
                forall|k2: int| 0 <= k2 < k ==> (#[trigger] self.insertables@[k2]).0@ != name@,
            decreases n - k,
        {
            if self.insertables[k].0 == *name {
                proof {
                    assert(conf_first_match(self.insertables@, name@, k as int));
                }
                return Some(self.insertables[k].1);
            }
            k = k + 1;
        }
        None
    }
}

} // verus!
