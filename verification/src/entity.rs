//! Entity prototypes: the closed set of insertable object kinds that
//! spawners and the loader instantiate.

use vstd::prelude::*;
use crate::anim::AnimationName;
use crate::anim::AnimationSpecie;
use crate::anim::AnimationState;
use crate::anim::fresh_animation_state;
use crate::anim::Animations;
use crate::clamp::ClampFunction;
use crate::component::Aim;
use crate::component::ContactDamage;
use crate::component::Contactor;
use crate::component::ControlForce;
use crate::component::Damping;
use crate::component::DeadOnContact;
use crate::component::DebugCircles;
use crate::component::DebugColor;
use crate::component::GravityToPlayers;
use crate::component::Life;
use crate::component::VelocityToPlayerMemory;
use crate::math::COORD_LIMIT;
use crate::math::SCALE;
use crate::math::Isometry2;
use crate::math::Vec2;
use crate::math::div_trunc;
use crate::math::mul_div_trunc;
use crate::math::lemma_div_trunc_bounds;
use crate::physics::BodiesMap;
use crate::physics::BodyStatus;
use crate::physics::PhysicWorld;
use crate::physics::RigidBody;
use crate::store::Entity;
use crate::world::ENTITY_LIMIT;
use crate::world::World;

verus! {

/// Where a prototype is instantiated: the isometry, the path the entity
/// may follow, and the unit facing vector of the isometry where the
/// loader computed one (orientation trigonometry stays outside the
/// simulation core).
#[derive(Clone, PartialEq, Eq, Debug)]
pub struct InsertPosition {
    pub position: Isometry2,
    pub path: Option<Vec<Vec2>>,
    pub facing: Option<Vec2>,
}

impl From<Isometry2> for InsertPosition {
    /// A bare isometry carries no path and no computed facing.
    fn from(isometry: Isometry2) -> (r: InsertPosition) {
        InsertPosition { position: isometry, path: None, facing: None }
    }
}

impl vstd::std_specs::convert::FromSpecImpl<Isometry2> for InsertPosition {
    open spec fn obeys_from_spec() -> bool {
        true
    }

    open spec fn from_spec(isometry: Isometry2) -> InsertPosition {
        InsertPosition { position: isometry, path: None, facing: None }
    }
}

impl InsertPosition {
    pub open spec fn wf(self) -> bool {
        &&& self.position.translation.wf()
        &&& match self.facing {
            Some(f) => -SCALE <= f.x <= SCALE && -SCALE <= f.y <= SCALE,
            None => true,
        }
    }
}

/// A kinematic chaser that dies on contact and damages what it touches.
#[derive(Clone, Copy, PartialEq, Eq, Structural, Debug)]
pub struct Charger {
    pub animation_specie: AnimationSpecie,
    pub radius: i64,
    pub velocity: i64,
    pub damage: usize,
}

/// A dynamic body attracted toward the players, damaging on contact.
#[derive(Clone, Copy, PartialEq, Eq, Structural, Debug)]
pub struct GravityBomb {
    pub animation_specie: AnimationSpecie,
    pub damage: usize,
    pub force: i64,
    pub powi: i32,
    pub players_aim_damping: Option<ClampFunction>,
    pub radius: i64,
    pub dead_on_contact: bool,
    /// Place the body one radius along the insert position's facing.
    pub insert_shift: bool,
}

/// The player avatar.
#[derive(Clone, Copy, PartialEq, Eq, Structural, Debug)]
pub struct Player;

/// The closed set of prototypes a level or a spawner can instantiate;
/// adding a kind is a compile-time-checked edit.
#[derive(Clone, Copy, PartialEq, Eq, Structural, Debug)]
pub enum InsertableObject {
    Charger(Charger),
    GravityBomb(GravityBomb),
    Player(Player),
}

impl InsertableObject {
    /// The animation specie the prototype will look up at insertion.
    pub open spec fn specie_spec(self) -> AnimationSpecie {
        match self {
            InsertableObject::Charger(c) => c.animation_specie,
            InsertableObject::GravityBomb(b) => b.animation_specie,
            InsertableObject::Player(_) => AnimationSpecie::Character,
        }
    }

    pub open spec fn wf(self) -> bool {
        match self {
            InsertableObject::Charger(c) => 0 <= c.radius <= COORD_LIMIT,
            InsertableObject::GravityBomb(b) => 0 <= b.radius <= COORD_LIMIT,
            InsertableObject::Player(_) => true,
        }
    }
}

/// What every insertion guarantees: a fresh live entity whose slot is the
/// only one touched, a fresh body registered for it, and the two physics
/// indexes agreeing on it.
pub open spec fn inserted(
    pre_world: World,
    post_world: World,
    pre_phys: PhysicWorld,
    post_phys: PhysicWorld,
    pre_map: BodiesMap,
    post_map: BodiesMap,
    e: Entity,
) -> bool {
    &&& post_world.wf()
    &&& post_world.alive_spec(e)
    &&& !pre_world.alive_spec(e)
    &&& World::frame_except(pre_world, post_world, e.index as int)
    &&& forall|e2: Entity| e2.index != e.index
        ==> post_world.alive_spec(e2) == pre_world.alive_spec(e2)
    &&& forall|e2: Entity| e2.index == e.index && e2 != e ==> !post_world.alive_spec(e2)
    &&& forall|e2: Entity| e2.index == e.index ==> !pre_world.alive_spec(e2)
    &&& forall|i: int| 0 <= i < pre_world.gens@.len()
        ==> #[trigger] post_world.gens@[i] == pre_world.gens@[i]
    &&& forall|i: int| pre_world.gens@.len() <= i < post_world.gens@.len()
        ==> #[trigger] post_world.gens@[i] == 0
    &&& pre_world.gens@.len() <= post_world.gens@.len() <= pre_world.gens@.len() + 1
    &&& post_phys.bodies@.len() == pre_phys.bodies@.len() + 1
    &&& forall|h: int| h != pre_phys.bodies@.len() ==> post_phys.body_at(h) == pre_phys.body_at(h)
    &&& post_phys.generators == pre_phys.generators
    &&& post_world.rigid_body.at(e.index as int) == Some(
        RigidBody(pre_phys.bodies@.len() as usize),
    )
    &&& post_map.entity_at(pre_phys.bodies@.len() as int) == Some(e)
    &&& forall|h: int| h != pre_phys.bodies@.len() ==> post_map.entity_at(h) == pre_map.entity_at(h)
}

/// Where a gravity bomb's body lands: one radius along the insert
/// facing when the shift is asked for and a facing was computed,
/// otherwise the insert position itself.
pub open spec fn bomb_position(position: InsertPosition, radius: int, insert_shift: bool) -> Isometry2 {
    match position.facing {
        Some(f) => if insert_shift {
            Isometry2 {
                translation: Vec2 {
                    x: (position.position.translation.x + div_trunc(radius * f.x, SCALE as int)) as i64,
                    y: (position.position.translation.y + div_trunc(radius * f.y, SCALE as int)) as i64,
                },
                rotation: position.position.rotation,
            }
        } else {
            position.position
        },
        None => position.position,
    }
}

/// Conditions every insertion asks of its surroundings.
pub open spec fn insert_ready(
    world: World,
    phys: PhysicWorld,
    animations: Animations,
    specie: AnimationSpecie,
) -> bool {
    &&& world.wf()
    &&& world.gens@.len() < ENTITY_LIMIT
    &&& phys.bodies@.len() < usize::MAX
    &&& animations.wf()
    &&& animations.has_spec(specie, AnimationName::Idle)
}

impl Charger {
    /// Creates a charger: a kinematic chaser with memory that damages on
    /// contact and dies of it.
    pub fn insert(
        &self,
        position: InsertPosition,
        world: &mut World,
        physic_world: &mut PhysicWorld,
        bodies_map: &mut BodiesMap,
        animations: &Animations,
    ) -> (e: Entity)
        requires
            insert_ready(*old(world), *old(physic_world), *animations, self.animation_specie),
        ensures
            inserted(
                *old(world),
                *final(world),
                *old(physic_world),
                *final(physic_world),
                *old(bodies_map),
                *final(bodies_map),
                e,
            ),
            final(world).vtp_memory.at(e.index as int) == Some(
                VelocityToPlayerMemory::new_spec(self.velocity, true),
            ),
            final(world).contact_damage.at(e.index as int) == Some(ContactDamage(self.damage)),
            final(world).dead_on_contact.at(e.index as int) == Some(DeadOnContact),
            final(world).life.at(e.index as int) == Some(Life(1)),
            final(world).debug_color.at(e.index as int) == Some(DebugColor(5)),
            final(world).animation_state.at(e.index as int) matches Some(st)
                && fresh_animation_state(st, self.animation_specie, AnimationName::Idle, *animations),
            final(physic_world).body_at(
                old(physic_world).bodies@.len() as int,
            ).unwrap().position == position.position,
            final(physic_world).body_at(
                old(physic_world).bodies@.len() as int,
            ).unwrap().status == BodyStatus::Kinematic,
    {
        let e = world.create_entity();
        let state = AnimationState::new(self.animation_specie, AnimationName::Idle, animations);
        world.animation_state.insert(e.index, state);
        world.vtp_memory.insert(e.index, VelocityToPlayerMemory::new(self.velocity, true));
        world.contact_damage.insert(e.index, ContactDamage(self.damage));
        world.dead_on_contact.insert(e.index, DeadOnContact);
        world.life.insert(e.index, Life(1));
        world.debug_color.insert(e.index, DebugColor(5));
        RigidBody::safe_insert(
            e,
            position.position,
            BodyStatus::Kinematic,
            &mut world.rigid_body,
            physic_world,
            bodies_map,
        );
        e
    }
}

impl GravityBomb {
    /// Creates a gravity bomb: a dynamic body pulled toward the players,
    /// damaging on contact, optionally dying of it, optionally placed one
    /// radius along the insert facing.
    pub fn insert(
        &self,
        position: InsertPosition,
        world: &mut World,
        physic_world: &mut PhysicWorld,
        bodies_map: &mut BodiesMap,
        animations: &Animations,
    ) -> (e: Entity)
        requires
            insert_ready(*old(world), *old(physic_world), *animations, self.animation_specie),
            position.wf(),
            0 <= self.radius <= COORD_LIMIT,
        ensures
            inserted(
                *old(world),
                *final(world),
                *old(physic_world),
                *final(physic_world),
                *old(bodies_map),
                *final(bodies_map),
                e,
            ),
            final(world).life.at(e.index as int) == Some(Life(1)),
            final(world).contact_damage.at(e.index as int) == Some(ContactDamage(self.damage)),
            final(world).gravity_to_players.at(e.index as int) == Some(
                GravityToPlayers { force: self.force, powi: self.powi },
            ),
            final(world).dead_on_contact.at(e.index as int) == if self.dead_on_contact {
                Some(DeadOnContact)
            } else {
                None
            },
            final(world).players_aim_damping.at(e.index as int) == match self.players_aim_damping {
                Some(c) => Some(crate::component::PlayersAimDamping(c)),
                None => None,
            },
            final(world).animation_state.at(e.index as int) matches Some(st)
                && fresh_animation_state(st, self.animation_specie, AnimationName::Idle, *animations),
            final(world).contactor.at(e.index as int) is Some,
            final(physic_world).body_at(
                old(physic_world).bodies@.len() as int,
            ).unwrap().status == BodyStatus::Dynamic,
            final(physic_world).body_at(
                old(physic_world).bodies@.len() as int,
            ).unwrap().position == bomb_position(position, self.radius as int, self.insert_shift),
    {
        let e = world.create_entity();
        let state = AnimationState::new(self.animation_specie, AnimationName::Idle, animations);
        world.animation_state.insert(e.index, state);
        world.life.insert(e.index, Life(1));
        world.contact_damage.insert(e.index, ContactDamage(self.damage));
        world.gravity_to_players.insert(
            e.index,
            GravityToPlayers { force: self.force, powi: self.powi },
        );
        world.contactor.insert(e.index, Contactor(Vec::new()));
        world.debug_color.insert(e.index, DebugColor(2));
        if self.dead_on_contact {
            world.dead_on_contact.insert(e.index, DeadOnContact);
        }
        match &self.players_aim_damping {
            Some(players_aim_damping) => {
                world.players_aim_damping.insert(
                    e.index,
                    crate::component::PlayersAimDamping(*players_aim_damping),
                );
                let mut circles: Vec<i64> = Vec::new();
                circles.push(players_aim_damping.min_t);
                circles.push(players_aim_damping.max_t);
                world.debug_circles.insert(e.index, DebugCircles(circles));
            },
            None => {},
        }
        let mut iso = position.position;
        match &position.facing {
            Some(f) => {
                if self.insert_shift {
                    proof {
                        lemma_div_trunc_bounds(self.radius as int * f.x as int, SCALE as int);
                        lemma_div_trunc_bounds(self.radius as int * f.y as int, SCALE as int);
                    }
                    assert(-0x4000_0000_0000_0000 <= self.radius * f.x <= 0x4000_0000_0000_0000
                        && -0x4000_0000_0000_0000 <= self.radius * f.y <= 0x4000_0000_0000_0000
                        && -(COORD_LIMIT as int) * SCALE <= self.radius * f.x
                        && self.radius * f.x <= (COORD_LIMIT as int) * SCALE
                        && -(COORD_LIMIT as int) * SCALE <= self.radius * f.y
                        && self.radius * f.y <= (COORD_LIMIT as int) * SCALE) by (nonlinear_arith)
                        requires
                            0 <= self.radius <= COORD_LIMIT,
                            -SCALE <= f.x <= SCALE,
                            -SCALE <= f.y <= SCALE,
                    ;
                    let dx = mul_div_trunc(self.radius, f.x, SCALE);
                    let dy = mul_div_trunc(self.radius, f.y, SCALE);
                    iso = Isometry2 {
                        translation: Vec2 {
                            x: iso.translation.x + dx,
                            y: iso.translation.y + dy,
                        },
                        rotation: iso.rotation,
                    };
                }
            },
            None => {},
        }
        RigidBody::safe_insert(
            e,
            iso,
            BodyStatus::Dynamic,
            &mut world.rigid_body,
            physic_world,
            bodies_map,
        );
        e
    }
}

impl Player {
    /// Creates the player avatar: controllable, damped, aimed along the
    /// insert orientation.
    pub fn insert(
        &self,
        position: InsertPosition,
        world: &mut World,
        physic_world: &mut PhysicWorld,
        bodies_map: &mut BodiesMap,
        animations: &Animations,
        linear_damping: i64,
        angular_damping: i64,
    ) -> (e: Entity)
        requires
            insert_ready(
                *old(world),
                *old(physic_world),
                *animations,
                AnimationSpecie::Character,
            ),
        ensures
            inserted(
                *old(world),
                *final(world),
                *old(physic_world),
                *final(physic_world),
                *old(bodies_map),
                *final(bodies_map),
                e,
            ),
            final(world).player.at(e.index as int) == Some(crate::component::Player),
            final(world).aim.at(e.index as int) == Some(Aim(position.position.rotation)),
            final(world).life.at(e.index as int) == Some(Life(1)),
            final(world).control_force.at(e.index as int) == Some(
                ControlForce(Vec2 { x: 0, y: 0 }),
            ),
            final(world).damping.at(e.index as int) == Some(
                Damping { linear: linear_damping, angular: angular_damping },
            ),
            final(world).animation_state.at(e.index as int) matches Some(st)
                && fresh_animation_state(st, AnimationSpecie::Character, AnimationName::Idle, *animations),
            final(physic_world).body_at(
                old(physic_world).bodies@.len() as int,
            ).unwrap().position == position.position,
    {
        let e = world.create_entity();
        let state = AnimationState::new(AnimationSpecie::Character, AnimationName::Idle, animations);
        world.animation_state.insert(e.index, state);
        world.player.insert(e.index, crate::component::Player);
        world.aim.insert(e.index, Aim(position.position.rotation));
        world.life.insert(e.index, Life(1));
        world.control_force.insert(e.index, ControlForce(Vec2 { x: 0, y: 0 }));
        world.damping.insert(
            e.index,
            Damping { linear: linear_damping, angular: angular_damping },
        );
        RigidBody::safe_insert(
            e,
            position.position,
            BodyStatus::Dynamic,
            &mut world.rigid_body,
            physic_world,
            bodies_map,
        );
        e
    }
}

impl InsertableObject {
    /// Instantiates the prototype: the one dispatch point over the closed
    /// set of kinds.
    pub fn insert(
        &self,
        position: InsertPosition,
        world: &mut World,
        physic_world: &mut PhysicWorld,
        bodies_map: &mut BodiesMap,
        animations: &Animations,
        player_linear_damping: i64,
        player_angular_damping: i64,
    ) -> (e: Entity)
        requires
            insert_ready(*old(world), *old(physic_world), *animations, self.specie_spec()),
            position.wf(),
            self.wf(),
        ensures
            inserted(
                *old(world),
                *final(world),
                *old(physic_world),
                *final(physic_world),
                *old(bodies_map),
                *final(bodies_map),
                e,
            ),
    {
        match self {
            InsertableObject::Charger(c) => c.insert(
                position,
                world,
                physic_world,
                bodies_map,
                animations,
            ),
            InsertableObject::GravityBomb(b) => b.insert(
                position,
                world,
                physic_world,
                bodies_map,
                animations,
            ),
            InsertableObject::Player(p) => p.insert(
                position,
                world,
                physic_world,
                bodies_map,
                animations,
                player_linear_damping,
                player_angular_damping,
            ),
        }
    }
}

} // verus!
