//! Component values attached to entities.
//!
//! Every tuning value a component carries is validated at load time and
//! only read afterwards; the systems in the other modules state what they
//! require of them.

use vstd::prelude::*;
use crate::clamp::ClampFunction;
use crate::math::COORD_LIMIT;
use crate::math::Vec2;
use crate::store::Entity;

verus! {

/// Marker of player-controlled entities: the targets every behavior and
/// spawner measures against.
#[derive(Clone, Copy, PartialEq, Eq, Structural, Debug)]
pub struct Player;

/// Angle a player aims at, in fixed-point radians.
#[derive(Clone, Copy, PartialEq, Eq, Structural, Debug)]
pub struct Aim(pub i64);

/// Melee and ranged weapon state of a player.
#[derive(Clone, Copy, PartialEq, Eq, Structural, Debug)]
pub struct SwordRifle {
    pub sword_mode: bool,
    pub attack: bool,
    pub sword_damage: usize,
    pub sword_reload_time: i64,
    pub sword_reloading: i64,
    pub sword_length: i64,
    pub sword_range: i64,
    pub rifle_damage: usize,
    pub rifle_reload_time: i64,
    pub rifle_reloading: i64,
}

/// Damage dealt to what this entity touches.
#[derive(Clone, Copy, PartialEq, Eq, Structural, Debug)]
pub struct ContactDamage(pub usize);

/// The entity is destroyed by any contact.
#[derive(Clone, Copy, PartialEq, Eq, Structural, Debug)]
pub struct DeadOnContact;

/// Hit points; the entity is destroyed when they reach zero.
#[derive(Clone, Copy, PartialEq, Eq, Structural, Debug)]
pub struct Life(pub usize);

/// Entities currently in contact with this one, as the physics engine
/// reported them.
#[derive(Clone, PartialEq, Eq, Debug)]
pub struct Contactor(pub Vec<Entity>);

/// Moves the entity along a closed path of points at constant speed.
#[derive(Clone, PartialEq, Eq, Debug)]
pub struct PositionInPath {
    pub velocity: i64,
    pub current_point: usize,
    pub current_advancement: i64,
    pub points: Vec<Vec2>,
    /// Distance from each point to the next, the last wrapping around.
    pub distances: Vec<i64>,
}

impl PositionInPath {
    /// Installs a closed path: keeps the points and fixes the distance
    /// from each point to the next, the last wrapping around to the
    /// first.
    pub fn set(&mut self, path: Vec<Vec2>)
        requires
            path@.len() > 0,
            forall|i: int| 0 <= i < path@.len() ==> (#[trigger] path@[i]).wf(),
        ensures
            final(self).points == path,
            final(self).velocity == old(self).velocity,
            final(self).current_point == old(self).current_point,
            final(self).current_advancement == old(self).current_advancement,
            final(self).distances@.len() == path@.len(),
            forall|i: int| 0 <= i < path@.len() ==> {
                let next = if i + 1 < path@.len() {
                    path@[i + 1]
                } else {
                    path@[0]
                };
                crate::math::is_norm_of(
                    next.x - path@[i].x,
                    next.y - path@[i].y,
                    #[trigger] final(self).distances@[i] as int,
                )
            },
    {
        let n = path.len();
        let mut distances: Vec<i64> = Vec::new();
        let mut i: usize = 0;
        while i < n
            invariant
                i <= n,
                n == path@.len() > 0,
                forall|k: int| 0 <= k < n ==> (#[trigger] path@[k]).wf(),
                distances@.len() == i,
                forall|k: int| 0 <= k < i ==> {
                    let next = if k + 1 < path@.len() {
                        path@[k + 1]
                    } else {
                        path@[0]
                    };
                    crate::math::is_norm_of(
                        next.x - path@[k].x,
                        next.y - path@[k].y,
                        #[trigger] distances@[k] as int,
                    )
                },
            decreases n - i,
        {
            let next = if i + 1 < n {
                path[i + 1]
            } else {
                path[0]
            };
            let d = next.minus(path[i]);
            distances.push(d.norm());
            i = i + 1;
        }
        self.points = path;
        self.distances = distances;
    }
}

/// Velocity written from player input: a unit-square direction scaled by
/// a configured speed.
#[derive(Clone, Copy, PartialEq, Eq, Structural, Debug)]
pub struct VelocityControl {
    pub velocity: i64,
    pub direction: Vec2,
}

/// World-unit distance under which a chase counts as arrived, so the
/// velocity snaps to zero instead of jittering.
pub const VELOCITY_TO_PLAYER_DISTANCE_TO_GOAL: i64 = 100;

/// Chase the closest player in sight, or the last position one was seen
/// at.
#[derive(Clone, Copy, PartialEq, Eq, Structural, Debug)]
pub struct VelocityToPlayerMemory {
    /// Index into the entity's activators.
    pub activator: usize,
    pub last_closest_in_sight: Option<Vec2>,
    pub velocity: i64,
    /// Without memory this is equivalent to going to the player in sight.
    pub memory: bool,
}

impl VelocityToPlayerMemory {
    /// The value `new` returns.
    pub open spec fn new_spec(velocity: i64, memory: bool) -> VelocityToPlayerMemory {
        VelocityToPlayerMemory {
            activator: 0,
            last_closest_in_sight: None,
            velocity,
            memory,
        }
    }

    pub fn new(velocity: i64, memory: bool) -> (r: VelocityToPlayerMemory)
        ensures
            r == VelocityToPlayerMemory::new_spec(velocity, memory),
    {
        VelocityToPlayerMemory { activator: 0, last_closest_in_sight: None, velocity, memory }
    }
}

/// Wander in random directions, or toward the closest player in sight,
/// with a probability shaped by distance and aim curves.
#[derive(Clone, Copy, PartialEq, Eq, Structural, Debug)]
pub struct VelocityToPlayerRandom {
    /// Index into the entity's activators.
    pub activator: usize,
    /// If set, a random direction of this norm is added.
    pub random_weighted: Option<i64>,
    /// Clamp of the probability by the distance to the player.
    pub dist_proba_clamp: ClampFunction,
    /// Clamp of the probability by the player's angular offset.
    pub aim_proba_clamp: ClampFunction,
    pub velocity: i64,
    pub toward_player: bool,
    pub current_direction: Vec2,
}

/// Orbit the nearest player: velocity toward the player plus a
/// perpendicular component whose sign flips on activation or contact.
#[derive(Clone, Copy, PartialEq, Eq, Structural, Debug)]
pub struct VelocityToPlayerCircle {
    /// Index into the entity's activators.
    pub activator: usize,
    pub circle_velocity: i64,
    pub direct_velocity: i64,
    /// Mean and spread of the orbit-flip timing distribution.
    pub shift_time_mean: i64,
    pub shift_time_spread: i64,
    pub next_shift: i64,
    pub dir_shift: bool,
}

/// Flocking member: cohesion toward its group, weighted by a response
/// curve; runs independently of activation.
#[derive(Clone, Copy, PartialEq, Eq, Structural, Debug)]
pub struct Boid {
    /// Flock identifier; only boids of one flock see each other.
    pub id: usize,
    pub clamp: ClampFunction,
    pub velocity: i64,
    pub weight: i64,
}

/// Multiplies the entity's velocity by a curve of the distance to the
/// nearest player.
#[derive(Clone, Copy, PartialEq, Eq, Structural, Debug)]
pub struct VelocityDistanceDamping(pub ClampFunction);

/// Multiplies the entity's velocity by a curve of the nearest player's
/// angular offset.
#[derive(Clone, Copy, PartialEq, Eq, Structural, Debug)]
pub struct VelocityAimDamping(pub ClampFunction);

/// Divides the entity's force damping by a curve of the nearest player's
/// angular offset.
#[derive(Clone, Copy, PartialEq, Eq, Structural, Debug)]
pub struct PlayersAimDamping(pub ClampFunction);

/// Divides the entity's force damping by a curve of the distance to the
/// nearest player.
#[derive(Clone, Copy, PartialEq, Eq, Structural, Debug)]
pub struct PlayersDistanceDamping(pub ClampFunction);

/// Attracts the entity toward every player with a force falling off by a
/// power of the distance.
#[derive(Clone, Copy, PartialEq, Eq, Structural, Debug)]
pub struct GravityToPlayers {
    pub force: i64,
    pub powi: i32,
}

/// Force written from player input, applied by the step-force generator.
#[derive(Clone, Copy, PartialEq, Eq, Structural, Debug)]
pub struct ControlForce(pub Vec2);

/// Velocity and spin attenuation the step-force generator applies.
#[derive(Clone, Copy, PartialEq, Eq, Structural, Debug)]
pub struct Damping {
    pub linear: i64,
    pub angular: i64,
}

/// Debug overlay: circles of these radii around the entity.
#[derive(Clone, PartialEq, Eq, Debug)]
pub struct DebugCircles(pub Vec<i64>);

/// Debug overlay: rays of these lengths from the entity.
#[derive(Clone, PartialEq, Eq, Debug)]
pub struct DebugRays(pub Vec<i64>);

/// Debug overlay: color index the entity is drawn with.
#[derive(Clone, Copy, PartialEq, Eq, Structural, Debug)]
pub struct DebugColor(pub usize);

/// A marker of the immovable level geometry.
#[derive(Clone, Copy, PartialEq, Eq, Structural, Debug)]
pub struct Ground;

/// Bounds every behavior system needs of its tuning values.
pub open spec fn speed_wf(v: i64) -> bool {
    0 <= v <= COORD_LIMIT
}

} // verus!
