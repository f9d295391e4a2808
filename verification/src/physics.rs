//! The bridge into the rigid-body physics engine.
//!
//! The engine itself is an external collaborator: it owns collision
//! shapes and integration.  The bridge mirrors what the simulation core
//! reads and writes of it — body positions, velocities and statuses by
//! handle, a reverse handle-to-entity map for contact and ray resolution,
//! and per-step force generators — and it selects among reported ray
//! intersections with a fixed integer precision, so that ties resolve the
//! same way on every machine.

use vstd::prelude::*;
use crate::CMP_PRECISION;
use crate::math::COORD_LIMIT;
use crate::math::SCALE;
use crate::math::Isometry2;
use crate::math::Vec2;
use crate::math::div_trunc;
use crate::math::mul_div_trunc;
use crate::store::Entity;
use crate::store::Storage;

verus! {

/// Collision group of a body; ray queries are filtered by a whitelist of
/// these.
#[derive(Clone, Copy, PartialEq, Eq, Structural, Debug)]
pub enum Group {
    Player,
    Wall,
    Monster,
}

/// How the physics engine integrates a body.
#[derive(Clone, Copy, PartialEq, Eq, Structural, Debug)]
pub enum BodyStatus {
    Static,
    Dynamic,
    Kinematic,
}

/// The state of one rigid body as the bridge mirrors it.
#[derive(Clone, Copy, PartialEq, Eq, Structural, Debug)]
pub struct Body {
    pub position: Isometry2,
    pub velocity: Vec2,
    pub angular_velocity: i64,
    pub status: BodyStatus,
}

impl Body {
    pub open spec fn wf(self) -> bool {
        self.position.translation.wf()
    }
}

/// Per-step forces one generator applies, by body handle.
#[derive(Clone, PartialEq, Eq, Debug)]
pub struct StepForcesData {
    pub forces: Vec<(usize, Vec2)>,
}

/// The bridge's mirror of the physics world: bodies by handle (handle 0
/// is the ground) and the registered force generators.
pub struct PhysicWorld {
    pub bodies: Vec<Option<Body>>,
    pub generators: Vec<StepForcesData>,
}

impl PhysicWorld {
    pub open spec fn body_at(&self, h: int) -> Option<Body> {
        if 0 <= h < self.bodies@.len() {
            self.bodies@[h]
        } else {
            None
        }
    }

    pub open spec fn has_body(&self, h: int) -> bool {
        self.body_at(h) is Some
    }

    /// A fresh world holding only the ground body at the origin.
    pub fn new() -> (r: PhysicWorld)
        ensures
            r.bodies@.len() == 1,
            r.has_body(0),
            r.generators@.len() == 0,
    {
        let ground = Body {
            position: Isometry2 { translation: Vec2 { x: 0, y: 0 }, rotation: 0 },
            velocity: Vec2 { x: 0, y: 0 },
            angular_velocity: 0,
            status: BodyStatus::Static,
        };
        let mut bodies: Vec<Option<Body>> = Vec::new();
        bodies.push(Some(ground));
        PhysicWorld { bodies, generators: Vec::new() }
    }

    /// Registers a body and hands back its fresh handle.
    pub fn add_rigid_body(&mut self, position: Isometry2, status: BodyStatus) -> (h: usize)
        requires
            old(self).bodies@.len() < usize::MAX,
        ensures
            h == old(self).bodies@.len(),
            final(self).bodies@.len() == old(self).bodies@.len() + 1,
            final(self).body_at(h as int) == Some(
                Body {
                    position,
                    velocity: Vec2 { x: 0, y: 0 },
                    angular_velocity: 0,
                    status,
                },
            ),
            forall|k: int| k != h ==> final(self).body_at(k) == old(self).body_at(k),
            final(self).generators == old(self).generators,
    {
        let h = self.bodies.len();
        self.bodies.push(Some(Body {
            position,
            velocity: Vec2 { x: 0, y: 0 },
            angular_velocity: 0,
            status,
        }));
        h
    }

    /// Position read, as the engine exposes it.
    pub fn position(&self, h: usize) -> (r: Isometry2)
        requires
            self.has_body(h as int),
        ensures
            r == self.body_at(h as int).unwrap().position,
    {
        self.bodies[h].as_ref().unwrap().position
    }

    /// Unregisters a body; the handle is never reused.
    pub fn remove_body(&mut self, h: usize)
        ensures
            final(self).body_at(h as int) is None,
            forall|k: int| k != h ==> final(self).body_at(k) == old(self).body_at(k),
            final(self).bodies@.len() == old(self).bodies@.len(),
            final(self).generators == old(self).generators,
    {
        if h < self.bodies.len() {
            self.bodies.set(h, None);
        }
    }

    /// Velocity write, as the engine exposes it.
    pub fn set_velocity(&mut self, h: usize, linear: Vec2, angular: i64)
        requires
            old(self).has_body(h as int),
        ensures
            final(self).bodies@.len() == old(self).bodies@.len(),
            final(self).body_at(h as int) == Some(
                Body {
                    velocity: linear,
                    angular_velocity: angular,
                    ..old(self).body_at(h as int).unwrap()
                },
            ),
            forall|k: int| k != h ==> final(self).body_at(k) == old(self).body_at(k),
            final(self).generators == old(self).generators,
    {
        let body = self.bodies[h].as_mut().unwrap();
        body.velocity = linear;
        body.angular_velocity = angular;
    }
}

/// Component tying an entity to its body handle in the physics engine.
/// Created once on entity insertion, destroyed exactly once with the
/// entity, never shared between two live entities.
#[derive(Clone, Copy, PartialEq, Eq, Structural, Debug)]
pub struct RigidBody(pub usize);

impl RigidBody {
    /// Creates the body, the forward component and the reverse map entry
    /// in one step, so the two indexes never disagree.
    pub fn safe_insert(
        entity: Entity,
        position: Isometry2,
        status: BodyStatus,
        bodies_handle: &mut Storage<RigidBody>,
        physic_world: &mut PhysicWorld,
        bodies_map: &mut BodiesMap,
    ) -> (r: RigidBody)
        requires
            old(physic_world).bodies@.len() < usize::MAX,
            entity.index < usize::MAX,
        ensures
            r.0 == old(physic_world).bodies@.len(),
            final(physic_world).body_at(r.0 as int) == Some(
                Body {
                    position,
                    velocity: Vec2 { x: 0, y: 0 },
                    angular_velocity: 0,
                    status,
                },
            ),
            forall|k: int| k != r.0 ==> final(physic_world).body_at(k) == old(
                physic_world,
            ).body_at(k),
            final(physic_world).bodies@.len() == old(physic_world).bodies@.len() + 1,
            final(physic_world).generators == old(physic_world).generators,
            final(bodies_handle).at(entity.index as int) == Some(r),
            forall|j: int| j != entity.index ==> final(bodies_handle).at(j) == old(
                bodies_handle,
            ).at(j),
            final(bodies_map).entity_at(r.0 as int) == Some(entity),
            forall|k: int| k != r.0 ==> final(bodies_map).entity_at(k) == old(
                bodies_map,
            ).entity_at(k),
    {
        let h = physic_world.add_rigid_body(position, status);
        bodies_map.insert(h, entity);
        bodies_handle.insert(entity.index, RigidBody(h));
        RigidBody(h)
    }

    /// The mirrored body this handle points at.  The body exists for
    /// every handle the store hands out; a missing one is a programmer
    /// defect the frame loop stops on.
    pub fn get<'a>(&self, physic_world: &'a PhysicWorld) -> (r: &'a Body)
        requires
            physic_world.has_body(self.0 as int),
        ensures
            *r == physic_world.body_at(self.0 as int).unwrap(),
    {
        self.bodies_ref(physic_world)
    }

    fn bodies_ref<'a>(&self, physic_world: &'a PhysicWorld) -> (r: &'a Body)
        requires
            physic_world.has_body(self.0 as int),
        ensures
            *r == physic_world.body_at(self.0 as int).unwrap(),
    {
        physic_world.bodies[self.0].as_ref().unwrap()
    }
}

/// Reverse map from a body handle to the entity owning it.
pub struct BodiesMap(pub Vec<Option<Entity>>);

impl BodiesMap {
    pub open spec fn entity_at(&self, h: int) -> Option<Entity> {
        if 0 <= h < self.0@.len() {
            self.0@[h]
        } else {
            None
        }
    }

    /// A fresh map holding only the ground body's owner.
    pub fn new(ground: Entity) -> (r: BodiesMap)
        ensures
            r.entity_at(0) == Some(ground),
            forall|h: int| h != 0 ==> r.entity_at(h) is None,
    {
        let mut v: Vec<Option<Entity>> = Vec::new();
        v.push(Some(ground));
        BodiesMap(v)
    }

    /// Associates a handle with the entity owning it.
    pub fn insert(&mut self, h: usize, entity: Entity)
        requires
            h < usize::MAX,
        ensures
            final(self).entity_at(h as int) == Some(entity),
            forall|k: int| k != h ==> final(self).entity_at(k) == old(self).entity_at(k),
    {
        while self.0.len() <= h
            invariant
                h < usize::MAX,
                forall|k: int| #![auto] self.entity_at(k) == old(self).entity_at(k),
            decreases h + 1 - self.0.len(),
        {
            self.0.push(None);
        }
        self.0.set(h, Some(entity));
    }

    /// Forgets a handle's owner.
    pub fn remove(&mut self, h: usize)
        ensures
            final(self).entity_at(h as int) is None,
            forall|k: int| k != h ==> final(self).entity_at(k) == old(self).entity_at(k),
    {
        if h < self.0.len() {
            self.0.set(h, None);
        }
    }

    /// The entity owning a handle, if the handle is known.
    pub fn get(&self, h: usize) -> (r: Option<&Entity>)
        ensures
            match r {
                Some(e) => self.entity_at(h as int) == Some(*e),
                None => self.entity_at(h as int) is None,
            },
    {
        if h < self.0.len() {
            self.0[h].as_ref()
        } else {
            None
        }
    }
}

/// Handle of one force generator registered in the physics world.
pub struct StepForces(pub usize);

impl StepForces {
    /// Registers a fresh, empty force generator and keeps its handle.
    pub fn new(world: &mut PhysicWorld) -> (r: StepForces)
        ensures
            r.0 == old(world).generators@.len(),
            final(world).generators@.len() == old(world).generators@.len() + 1,
            final(world).generators@[r.0 as int].forces@.len() == 0,
            forall|k: int| 0 <= k < old(world).generators@.len()
                ==> final(world).generators@[k] == old(world).generators@[k],
            final(world).bodies == old(world).bodies,
    {
        let handle = world.generators.len();
        world.generators.push(StepForcesData { forces: Vec::new() });
        StepForces(handle)
    }

    /// The force generator this handle points at.
    pub fn get<'a>(&self, world: &'a PhysicWorld) -> (r: &'a StepForcesData)
        requires
            self.0 < world.generators@.len(),
        ensures
            *r == world.generators@[self.0 as int],
    {
        &world.generators[self.0]
    }

    /// Mutable access to the force generator this handle points at.
    pub fn get_mut<'a>(&self, world: &'a mut PhysicWorld) -> (r: &'a mut StepForcesData)
        requires
            self.0 < old(world).generators@.len(),
        ensures
            *r == old(world).generators@[self.0 as int],
            final(world).generators@ == old(world).generators@.update(
                self.0 as int,
                *final(r),
            ),
            final(world).bodies == old(world).bodies,
    {
        &mut world.generators[self.0]
    }
}

/// Only velocities changed between two physics states: same bodies, same
/// positions, same statuses, same force generators.
pub open spec fn only_velocities_written(pre: PhysicWorld, post: PhysicWorld) -> bool {
    &&& post.bodies@.len() == pre.bodies@.len()
    &&& post.generators == pre.generators
    &&& forall|h: int| match (pre.body_at(h), #[trigger] post.body_at(h)) {
        (Some(b0), Some(b1)) => b1.position == b0.position && b1.status == b0.status,
        (None, None) => true,
        _ => false,
    }
}

/// Every mirrored body sits inside the world's coordinate range.
pub open spec fn bodies_wf(phys: PhysicWorld) -> bool {
    forall|h: int| (#[trigger] phys.body_at(h)) matches Some(b) ==> b.wf()
}

/// One ray intersection as the collision engine reports it: the body hit
/// and the time of impact along the ray, in fixed-point units.
#[derive(Clone, Copy, PartialEq, Eq, Structural, Debug)]
pub struct RayHit {
    pub body: usize,
    pub toi: i64,
}

/// The integer key that compares times of impact at fixed precision.
pub open spec fn toi_key_spec(toi: int) -> int {
    div_trunc(toi * CMP_PRECISION, SCALE as int)
}

/// Scales a time of impact (or any fixed-point distance) to its
/// comparison key.
pub fn toi_key(toi: i64) -> (r: i64)
    requires
        -4 * COORD_LIMIT <= toi <= 4 * COORD_LIMIT,
    ensures
        r == toi_key_spec(toi as int),
{
    assert(-0x4000_0000_0000_0000 <= toi * CMP_PRECISION <= 0x4000_0000_0000_0000)
        by (nonlinear_arith)
        requires
            -4 * COORD_LIMIT <= toi <= 4 * COORD_LIMIT,
    ;
    mul_div_trunc(toi, CMP_PRECISION, SCALE)
}

/// Picks the reported intersection with the smallest scaled integer key;
/// among equal keys the first encountered wins, so the choice is
/// deterministic for a deterministic report order.
pub fn closest_hit(hits: &Vec<RayHit>) -> (r: Option<usize>)
    requires
        forall|k: int| 0 <= k < hits@.len() ==> -COORD_LIMIT <= (#[trigger] hits@[k]).toi <= COORD_LIMIT,
    ensures
        match r {
            Some(i) => {
                &&& i < hits@.len()
                &&& forall|k: int| 0 <= k < hits@.len()
                    ==> toi_key_spec(hits@[i as int].toi as int)
                        <= toi_key_spec((#[trigger] hits@[k]).toi as int)
                &&& forall|k: int| 0 <= k < i
                    ==> toi_key_spec((#[trigger] hits@[k]).toi as int)
                        > toi_key_spec(hits@[i as int].toi as int)
            },
            None => hits@.len() == 0,
        },
{
    let n = hits.len();
    if n == 0 {
        return None;
    }
    let mut best: usize = 0;
    let mut best_key: i64 = toi_key(hits[0].toi);
    let mut k: usize = 1;
    while k < n
        invariant
            n == hits@.len(),
            best < k <= n,
            forall|k2: int| 0 <= k2 < hits@.len()
                ==> -COORD_LIMIT <= (#[trigger] hits@[k2]).toi <= COORD_LIMIT,
            best_key == toi_key_spec(hits@[best as int].toi as int),
            forall|k2: int| 0 <= k2 < k
                ==> best_key <= toi_key_spec((#[trigger] hits@[k2]).toi as int),
            forall|k2: int| 0 <= k2 < best
                ==> toi_key_spec((#[trigger] hits@[k2]).toi as int) > best_key,
        decreases n - k,
    {
        let key = toi_key(hits[k].toi);
        if key < best_key {
            best = k;
            best_key = key;
        }
        k = k + 1;
    }
    Some(best)
}

} // verus!
