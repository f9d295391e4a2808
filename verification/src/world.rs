//! The world: entity allocation, one storage per component type, and the
//! command buffer of deferred creations and destructions.
//!
//! Systems iterate the storages during a step; entity creation and
//! destruction requested meanwhile are buffered as commands and applied
//! at one well-defined point (`maintain`) after the step's systems
//! finish, so iteration never observes a half-created or half-destroyed
//! entity.

use vstd::prelude::*;
use crate::anim::AnimationState;
use crate::component::Aim;
use crate::component::Boid;
use crate::component::ContactDamage;
use crate::component::Contactor;
use crate::component::ControlForce;
use crate::component::Damping;
use crate::component::DeadOnContact;
use crate::component::DebugCircles;
use crate::component::DebugColor;
use crate::component::DebugRays;
use crate::component::GravityToPlayers;
use crate::component::Ground;
use crate::component::Life;
use crate::component::Player;
use crate::component::PlayersAimDamping;
use crate::component::PlayersDistanceDamping;
use crate::component::PositionInPath;
use crate::component::SwordRifle;
use crate::component::VelocityAimDamping;
use crate::component::VelocityControl;
use crate::component::VelocityDistanceDamping;
use crate::component::VelocityToPlayerCircle;
use crate::component::VelocityToPlayerMemory;
use crate::component::VelocityToPlayerRandom;
use crate::anim::AnimationName;
use crate::anim::Animations;
use crate::entity::InsertPosition;
use crate::entity::InsertableObject;
use crate::physics::BodiesMap;
use crate::physics::PhysicWorld;
use crate::physics::RigidBody;
use crate::store::Entity;
use crate::store::Storage;
use crate::tempo::Activators;

verus! {

/// Most entities a world may allocate.
pub const ENTITY_LIMIT: usize = 0x100_0000;

/// A deferred world mutation, collected during a step and applied at the
/// deferred-apply point.
pub enum Command {
    /// Destroy the entity if it is still alive when applied.
    Destroy(Entity),
    /// Instantiate a prototype at a position.
    Spawn { object: InsertableObject, position: InsertPosition },
}

/// The entity store: allocator, component storages and command buffer.
pub struct World {
    /// Generation stamp of each index slot.
    pub gens: Vec<u64>,
    /// Whether each index slot currently holds a live entity.
    pub alive: Vec<bool>,
    /// Freed index slots, ready for reuse under a fresh generation.
    pub free: Vec<usize>,
    pub player: Storage<Player>,
    pub aim: Storage<Aim>,
    pub sword_rifle: Storage<SwordRifle>,
    pub activators: Storage<Activators>,
    pub life: Storage<Life>,
    pub contact_damage: Storage<ContactDamage>,
    pub dead_on_contact: Storage<DeadOnContact>,
    pub contactor: Storage<Contactor>,
    pub rigid_body: Storage<RigidBody>,
    pub ground: Storage<Ground>,
    pub animation_state: Storage<AnimationState>,
    pub position_in_path: Storage<PositionInPath>,
    pub velocity_control: Storage<VelocityControl>,
    pub vtp_memory: Storage<VelocityToPlayerMemory>,
    pub vtp_random: Storage<VelocityToPlayerRandom>,
    pub vtp_circle: Storage<VelocityToPlayerCircle>,
    pub boid: Storage<Boid>,
    pub velocity_aim_damping: Storage<VelocityAimDamping>,
    pub velocity_distance_damping: Storage<VelocityDistanceDamping>,
    pub players_aim_damping: Storage<PlayersAimDamping>,
    pub players_distance_damping: Storage<PlayersDistanceDamping>,
    pub gravity_to_players: Storage<GravityToPlayers>,
    pub control_force: Storage<ControlForce>,
    pub damping: Storage<Damping>,
    pub unique_spawner: Storage<crate::spawner::UniqueSpawner>,
    pub turret_spawner: Storage<crate::spawner::TurretSpawner>,
    pub chaman_spawner: Storage<crate::spawner::ChamanSpawner>,
    pub debug_circles: Storage<DebugCircles>,
    pub debug_rays: Storage<DebugRays>,
    pub debug_color: Storage<DebugColor>,
}

impl World {
    /// Allocation bookkeeping is consistent: slots agree, freed slots are
    /// real, dead and distinct.
    pub open spec fn wf(self) -> bool {
        &&& self.gens@.len() == self.alive@.len()
        &&& self.gens@.len() <= ENTITY_LIMIT
        &&& forall|i: int| 0 <= i < self.free@.len()
            ==> (#[trigger] self.free@[i]) < self.gens@.len() && !self.alive@[self.free@[i] as int]
        &&& forall|i: int, j: int| 0 <= i < j < self.free@.len()
            ==> self.free@[i] != self.free@[j]
    }

    /// Whether `e` names a live entity: its slot is live and its
    /// generation stamp is current.
    pub open spec fn alive_spec(self, e: Entity) -> bool {
        &&& e.index < self.gens@.len()
        &&& self.alive@[e.index as int]
        &&& self.gens@[e.index as int] == e.generation
    }

    /// No component is attached at index slot `i`.
    pub open spec fn clean_at(self, i: int) -> bool {
        &&& self.player.at(i) is None
        &&& self.aim.at(i) is None
        &&& self.sword_rifle.at(i) is None
        &&& self.activators.at(i) is None
        &&& self.life.at(i) is None
        &&& self.contact_damage.at(i) is None
        &&& self.dead_on_contact.at(i) is None
        &&& self.contactor.at(i) is None
        &&& self.rigid_body.at(i) is None
        &&& self.ground.at(i) is None
        &&& self.animation_state.at(i) is None
        &&& self.position_in_path.at(i) is None
        &&& self.velocity_control.at(i) is None
        &&& self.vtp_memory.at(i) is None
        &&& self.vtp_random.at(i) is None
        &&& self.vtp_circle.at(i) is None
        &&& self.boid.at(i) is None
        &&& self.velocity_aim_damping.at(i) is None
        &&& self.velocity_distance_damping.at(i) is None
        &&& self.players_aim_damping.at(i) is None
        &&& self.players_distance_damping.at(i) is None
        &&& self.gravity_to_players.at(i) is None
        &&& self.control_force.at(i) is None
        &&& self.damping.at(i) is None
        &&& self.unique_spawner.at(i) is None
        &&& self.turret_spawner.at(i) is None
        &&& self.chaman_spawner.at(i) is None
        &&& self.debug_circles.at(i) is None
        &&& self.debug_rays.at(i) is None
        &&& self.debug_color.at(i) is None
    }

    /// Every component storage agrees with `pre` everywhere but at index
    /// slot `i`.
    pub open spec fn frame_except(pre: World, post: World, i: int) -> bool {
        forall|j: int| j != i ==> {
            &&& post.player.at(j) == pre.player.at(j)
            &&& post.aim.at(j) == pre.aim.at(j)
            &&& post.sword_rifle.at(j) == pre.sword_rifle.at(j)
            &&& post.activators.at(j) == pre.activators.at(j)
            &&& post.life.at(j) == pre.life.at(j)
            &&& post.contact_damage.at(j) == pre.contact_damage.at(j)
            &&& post.dead_on_contact.at(j) == pre.dead_on_contact.at(j)
            &&& post.contactor.at(j) == pre.contactor.at(j)
            &&& post.rigid_body.at(j) == pre.rigid_body.at(j)
            &&& post.ground.at(j) == pre.ground.at(j)
            &&& post.animation_state.at(j) == pre.animation_state.at(j)
            &&& post.position_in_path.at(j) == pre.position_in_path.at(j)
            &&& post.velocity_control.at(j) == pre.velocity_control.at(j)
            &&& post.vtp_memory.at(j) == pre.vtp_memory.at(j)
            &&& post.vtp_random.at(j) == pre.vtp_random.at(j)
            &&& post.vtp_circle.at(j) == pre.vtp_circle.at(j)
            &&& post.boid.at(j) == pre.boid.at(j)
            &&& post.velocity_aim_damping.at(j) == pre.velocity_aim_damping.at(j)
            &&& post.velocity_distance_damping.at(j) == pre.velocity_distance_damping.at(j)
            &&& post.players_aim_damping.at(j) == pre.players_aim_damping.at(j)
            &&& post.players_distance_damping.at(j) == pre.players_distance_damping.at(j)
            &&& post.gravity_to_players.at(j) == pre.gravity_to_players.at(j)
            &&& post.control_force.at(j) == pre.control_force.at(j)
            &&& post.damping.at(j) == pre.damping.at(j)
            &&& post.unique_spawner.at(j) == pre.unique_spawner.at(j)
            &&& post.turret_spawner.at(j) == pre.turret_spawner.at(j)
            &&& post.chaman_spawner.at(j) == pre.chaman_spawner.at(j)
            &&& post.debug_circles.at(j) == pre.debug_circles.at(j)
            &&& post.debug_rays.at(j) == pre.debug_rays.at(j)
            &&& post.debug_color.at(j) == pre.debug_color.at(j)
        }
    }

    /// An empty world: no entities, no components, no pending commands.
    pub fn new() -> (r: World)
        ensures
            r.wf(),
            r.gens@.len() == 0,
            forall|i: int| r.clean_at(i),
            forall|e: Entity| !r.alive_spec(e),
    {
        World {
            gens: Vec::new(),
            alive: Vec::new(),
            free: Vec::new(),
            player: Storage::new(),
            aim: Storage::new(),
            sword_rifle: Storage::new(),
            activators: Storage::new(),
            life: Storage::new(),
            contact_damage: Storage::new(),
            dead_on_contact: Storage::new(),
            contactor: Storage::new(),
            rigid_body: Storage::new(),
            ground: Storage::new(),
            animation_state: Storage::new(),
            position_in_path: Storage::new(),
            velocity_control: Storage::new(),
            vtp_memory: Storage::new(),
            vtp_random: Storage::new(),
            vtp_circle: Storage::new(),
            boid: Storage::new(),
            velocity_aim_damping: Storage::new(),
            velocity_distance_damping: Storage::new(),
            players_aim_damping: Storage::new(),
            players_distance_damping: Storage::new(),
            gravity_to_players: Storage::new(),
            control_force: Storage::new(),
            damping: Storage::new(),
            unique_spawner: Storage::new(),
            turret_spawner: Storage::new(),
            chaman_spawner: Storage::new(),
            debug_circles: Storage::new(),
            debug_rays: Storage::new(),
            debug_color: Storage::new(),
        }
    }

    /// Whether `e` names a live entity.
    pub fn is_alive(&self, e: Entity) -> (r: bool)
        requires
            self.wf(),
        ensures
            r == self.alive_spec(e),
    {
        e.index < self.gens.len() && self.alive[e.index] && self.gens[e.index] == e.generation
    }

    /// Detaches every component at index slot `idx`.
    fn clear_slot(&mut self, idx: usize)
        ensures
            final(self).clean_at(idx as int),
            World::frame_except(*old(self), *final(self), idx as int),
            final(self).gens == old(self).gens,
            final(self).alive == old(self).alive,
            final(self).free == old(self).free,
    {
        self.player.remove(idx);
        self.aim.remove(idx);
        self.sword_rifle.remove(idx);
        self.activators.remove(idx);
        self.life.remove(idx);
        self.contact_damage.remove(idx);
        self.dead_on_contact.remove(idx);
        self.contactor.remove(idx);
        self.rigid_body.remove(idx);
        self.ground.remove(idx);
        self.animation_state.remove(idx);
        self.position_in_path.remove(idx);
        self.velocity_control.remove(idx);
        self.vtp_memory.remove(idx);
        self.vtp_random.remove(idx);
        self.vtp_circle.remove(idx);
        self.boid.remove(idx);
        self.velocity_aim_damping.remove(idx);
        self.velocity_distance_damping.remove(idx);
        self.players_aim_damping.remove(idx);
        self.players_distance_damping.remove(idx);
        self.gravity_to_players.remove(idx);
        self.control_force.remove(idx);
        self.damping.remove(idx);
        self.unique_spawner.remove(idx);
        self.turret_spawner.remove(idx);
        self.chaman_spawner.remove(idx);
        self.debug_circles.remove(idx);
        self.debug_rays.remove(idx);
        self.debug_color.remove(idx);
    }

    /// Allocates a live entity: a freed slot under its fresh generation,
    /// or a new slot.  The new entity carries no components.
    pub fn create_entity(&mut self) -> (e: Entity)
        requires
            old(self).wf(),
            old(self).gens@.len() < ENTITY_LIMIT,
        ensures
            final(self).wf(),
            final(self).alive_spec(e),
            !old(self).alive_spec(e),
            e.index < final(self).gens@.len(),
            final(self).clean_at(e.index as int),
            World::frame_except(*old(self), *final(self), e.index as int),
            forall|e2: Entity| e2.index != e.index
                ==> final(self).alive_spec(e2) == old(self).alive_spec(e2),
            forall|e2: Entity| e2.index == e.index && e2.generation != e.generation
                ==> !final(self).alive_spec(e2),
            forall|e2: Entity| e2.index == e.index ==> !old(self).alive_spec(e2),
            old(self).gens@.len() <= final(self).gens@.len() <= old(self).gens@.len() + 1,
            forall|i: int| 0 <= i < old(self).gens@.len()
                ==> #[trigger] final(self).gens@[i] == old(self).gens@[i],
            forall|i: int| old(self).gens@.len() <= i < final(self).gens@.len()
                ==> #[trigger] final(self).gens@[i] == 0,
    {
        let popped = self.free.pop();
        let e = match popped {
            Some(idx) => {
                self.alive.set(idx, true);
                Entity { index: idx, generation: self.gens[idx] }
            },
            None => {
                let idx = self.gens.len();
                self.gens.push(0);
                self.alive.push(true);
                assert(forall|i: int| 0 <= i < self.free@.len()
                    ==> (#[trigger] self.free@[i]) < idx);
                Entity { index: idx, generation: 0 }
            },
        };
        self.clear_slot(e.index);
        e
    }

    /// Destroys a live entity: frees its slot under a bumped generation,
    /// detaches its components, and unregisters its body from both
    /// physics indexes.
    fn destroy_entity(
        &mut self,
        e: Entity,
        physic_world: &mut PhysicWorld,
        bodies_map: &mut BodiesMap,
    )
        requires
            old(self).wf(),
            old(self).alive_spec(e),
            old(self).gens@[e.index as int] < u64::MAX,
        ensures
            final(self).wf(),
            forall|e2: Entity| e2.index == e.index ==> !final(self).alive_spec(e2),
            forall|e2: Entity| e2.index != e.index
                ==> final(self).alive_spec(e2) == old(self).alive_spec(e2),
            final(self).clean_at(e.index as int),
            World::frame_except(*old(self), *final(self), e.index as int),
            final(self).gens@.len() == old(self).gens@.len(),
            final(self).gens@ == old(self).gens@.update(
                e.index as int,
                (old(self).gens@[e.index as int] + 1) as u64,
            ),
            final(physic_world).bodies@.len() == old(physic_world).bodies@.len(),
            final(physic_world).generators == old(physic_world).generators,
            match old(self).rigid_body.at(e.index as int) {
                Some(rb) => {
                    &&& final(physic_world).body_at(rb.0 as int) is None
                    &&& forall|h: int| h != rb.0
                        ==> final(physic_world).body_at(h) == old(physic_world).body_at(h)
                    &&& final(bodies_map).entity_at(rb.0 as int) is None
                    &&& forall|h: int| h != rb.0
                        ==> final(bodies_map).entity_at(h) == old(bodies_map).entity_at(h)
                },
                None => *final(physic_world) == *old(physic_world) && *final(bodies_map) == *old(
                    bodies_map,
                ),
            },
    {
        let idx = e.index;
        let body = self.rigid_body.get(idx);
        match body {
            Some(rb) => {
                let h = rb.0;
                physic_world.remove_body(h);
                bodies_map.remove(h);
            },
            None => {},
        }
        self.alive.set(idx, false);
        let g = self.gens[idx];
        self.gens.set(idx, g + 1);
        self.free.push(idx);
        self.clear_slot(idx);
        proof {
            assert forall|i: int, j: int| 0 <= i < j < self.free@.len()
                implies self.free@[i] != self.free@[j] by {
                if j == self.free@.len() - 1 {
                    assert(old(self).alive@[old(self).free@[i] as int] == false);
                }
            }
        }
    }

}

/// Whether a destruction of `e` is queued.
pub open spec fn destroy_queued(cmds: Seq<Command>, e: Entity) -> bool {
    exists|i: int| 0 <= i < cmds.len() && ((#[trigger] cmds[i]) matches Command::Destroy(e2)
        && e2 == e)
}

/// A queued destruction stays queued when the buffer is extended.
pub proof fn lemma_destroy_queued_extend(pre: Seq<Command>, post: Seq<Command>, e: Entity)
    requires
        post.len() >= pre.len(),
        post.subrange(0, pre.len() as int) == pre,
        destroy_queued(pre, e),
    ensures
        destroy_queued(post, e),
{
    let i = choose|i: int| 0 <= i < pre.len() && ((#[trigger] pre[i])
        matches Command::Destroy(e2) && e2 == e);
    assert(post.subrange(0, pre.len() as int)[i] == pre[i]);
    assert(post[i] == pre[i]);
    assert(destroy_queued(post, e));
}

/// A queued destruction sits at the front or in the rest of the queue.
proof fn lemma_destroy_queued_split(cmds: Seq<Command>, e: Entity)
    requires
        cmds.len() > 0,
    ensures
        destroy_queued(cmds, e) <==> {
            ||| (cmds.first() matches Command::Destroy(e2) && e2 == e)
            ||| destroy_queued(cmds.drop_first(), e)
        },
{
    if destroy_queued(cmds, e) {
        let i = choose|i: int| 0 <= i < cmds.len() && ((#[trigger] cmds[i])
            matches Command::Destroy(e2) && e2 == e);
        if i > 0 {
            assert(cmds.drop_first()[i - 1] == cmds[i]);
            assert(destroy_queued(cmds.drop_first(), e));
        }
    }
    if cmds.first() matches Command::Destroy(e2) && e2 == e {
        assert(cmds[0] matches Command::Destroy(e3) && e3 == e);
        assert(destroy_queued(cmds, e));
    }
    if destroy_queued(cmds.drop_first(), e) {
        let i = choose|i: int| 0 <= i < cmds.drop_first().len() && ((#[trigger] cmds.drop_first()[i])
            matches Command::Destroy(e2) && e2 == e);
        assert(cmds[i + 1] == cmds.drop_first()[i]);
        assert(destroy_queued(cmds, e));
    }
}

/// How many spawns are queued.
pub open spec fn spawn_count(cmds: Seq<Command>) -> int
    decreases cmds.len(),
{
    if cmds.len() == 0 {
        0
    } else {
        (match cmds.first() {
            Command::Spawn { .. } => 1int,
            Command::Destroy(_) => 0int,
        }) + spawn_count(cmds.drop_first())
    }
}

/// A queued command can be applied: a spawn's prototype is sound and its
/// idle animation resolves; validated at load, never re-checked.
pub open spec fn cmd_ok(cmd: Command, animations: Animations) -> bool {
    match cmd {
        Command::Destroy(_) => true,
        Command::Spawn { object, position } => {
            &&& object.wf()
            &&& position.wf()
            &&& animations.has_spec(object.specie_spec(), AnimationName::Idle)
        },
    }
}

impl World {
    /// The deferred-apply point: drains the command buffer in queue
    /// order.  Every queued destruction of a live entity is applied;
    /// every queued spawn creates exactly one fresh entity; live entities
    /// that nothing destroyed stay live.
    pub fn maintain(
        &mut self,
        commands: &mut Vec<Command>,
        physic_world: &mut PhysicWorld,
        bodies_map: &mut BodiesMap,
        animations: &Animations,
        player_linear_damping: i64,
        player_angular_damping: i64,
    ) -> (spawned: Vec<Entity>)
        requires
            old(self).wf(),
            animations.wf(),
            old(self).gens@.len() + old(commands)@.len() <= ENTITY_LIMIT,
            old(physic_world).bodies@.len() + old(commands)@.len() < usize::MAX,
            forall|i: int| 0 <= i < old(commands)@.len()
                ==> cmd_ok(#[trigger] old(commands)@[i], *animations),
            forall|i: int| 0 <= i < old(commands)@.len()
                ==> ((#[trigger] old(commands)@[i]) matches Command::Destroy(e)
                    ==> old(self).alive_spec(e)),
            forall|i: int| 0 <= i < old(self).gens@.len()
                ==> (#[trigger] old(self).gens@[i]) < u64::MAX,
        ensures
            final(self).wf(),
            final(commands)@.len() == 0,
            spawned@.len() == spawn_count(old(commands)@),
            forall|k: int| 0 <= k < spawned@.len() ==> final(self).alive_spec(
                #[trigger] spawned@[k],
            ) && !old(self).alive_spec(spawned@[k]),
            forall|e: Entity| old(self).alive_spec(e) && destroy_queued(old(commands)@, e)
                ==> !final(self).alive_spec(e),
            forall|e: Entity| old(self).alive_spec(e) && !destroy_queued(old(commands)@, e)
                ==> final(self).alive_spec(e),
            // each slot's generation moves at most one step, so the
            // machine bound can be re-established for the next frame
            old(self).gens@.len() <= final(self).gens@.len(),
            forall|i: int| 0 <= i < final(self).gens@.len()
                ==> #[trigger] final(self).gens@[i] <= (if i < old(self).gens@.len() {
                    old(self).gens@[i] + 1
                } else {
                    1
                }),
    {
        let ghost cmds0 = old(commands)@;
        let mut spawned: Vec<Entity> = Vec::new();
        while commands.len() > 0
            invariant
                self.wf(),
                animations.wf(),
                cmds0.len() >= commands@.len(),
                commands@ == cmds0.subrange(
                    cmds0.len() - commands@.len(),
                    cmds0.len() as int,
                ),
                self.gens@.len() + commands@.len() <= ENTITY_LIMIT,
                old(self).gens@.len() <= self.gens@.len(),
                forall|i: int| 0 <= i < old(self).gens@.len()
                    ==> (#[trigger] old(self).gens@[i]) < u64::MAX,
                physic_world.bodies@.len() + commands@.len() < usize::MAX,
                spawned@.len() + spawn_count(commands@) == spawn_count(cmds0),
                forall|k: int| 0 <= k < spawned@.len() ==> self.alive_spec(
                    #[trigger] spawned@[k],
                ) && !old(self).alive_spec(spawned@[k]),
                forall|e: Entity| old(self).alive_spec(e) && destroy_queued(cmds0, e)
                    && !destroy_queued(commands@, e) ==> !self.alive_spec(e),
                forall|e: Entity| old(self).alive_spec(e) && !destroy_queued(cmds0, e)
                    ==> self.alive_spec(e),
                forall|e: Entity| old(self).alive_spec(e) && self.alive_spec(e)
                    ==> e.index < old(self).gens@.len()
                        && self.gens@[e.index as int] == old(self).gens@[e.index as int],
                forall|e: Entity| old(self).alive_spec(e) && !self.alive_spec(e)
                    ==> self.gens@[e.index as int] > e.generation,
                forall|i: int| 0 <= i < self.gens@.len()
                    ==> #[trigger] self.gens@[i] <= (if i < old(self).gens@.len() {
                        old(self).gens@[i] + 1
                    } else {
                        1
                    }),
                forall|i: int| 0 <= i < commands@.len()
                    ==> cmd_ok(#[trigger] commands@[i], *animations),
                forall|i: int| 0 <= i < commands@.len()
                    ==> ((#[trigger] commands@[i]) matches Command::Destroy(e)
                        ==> old(self).alive_spec(e)),
            decreases commands@.len(),
        {
            let ghost pre_cmds = commands@;
            let cmd = commands.remove(0);
            proof {
                assert(pre_cmds.drop_first() =~= commands@);
                assert(commands@ =~= cmds0.subrange(
                    cmds0.len() - commands@.len(),
                    cmds0.len() as int,
                ));
                assert(cmd == pre_cmds.first());
            }
            match cmd {
                Command::Destroy(e) => {
                    let ghost pre = *self;
                    let live = self.is_alive(e);
                    if live {
                        proof {
                            assert(pre_cmds[0] matches Command::Destroy(e2) && e2 == e);
                            assert(old(self).alive_spec(e));
                            assert(self.alive_spec(e));
                            assert(e.index < old(self).gens@.len()
                                && self.gens@[e.index as int] == old(self).gens@[e.index as int]);
                            assert(old(self).gens@[e.index as int] < u64::MAX);
                        }
                        self.destroy_entity(e, physic_world, bodies_map);
                    }
                    proof {
                        assert forall|k: int| 0 <= k < spawned@.len()
                            implies self.alive_spec(#[trigger] spawned@[k]) by {
                            let s = spawned@[k];
                            assert(pre.alive_spec(s));
                            if live && s.index == e.index {
                                assert(s.generation == pre.gens@[s.index as int]);
                                assert(e.generation == pre.gens@[e.index as int]);
                                assert(s == e);
                                assert(false);
                            }
                        }
                        assert forall|e2: Entity| old(self).alive_spec(e2)
                            && destroy_queued(cmds0, e2)
                            && !destroy_queued(commands@, e2)
                            implies !self.alive_spec(e2) by {
                            lemma_destroy_queued_split(pre_cmds, e2);
                            if destroy_queued(cmds0, e2) && !destroy_queued(pre_cmds, e2) {
                                // handled before this step: already dead, stays dead
                                assert(!pre.alive_spec(e2));
                                if self.alive_spec(e2) {
                                    assert(e2.index != e.index);
                                    assert(pre.alive_spec(e2));
                                }
                            } else if e2 == e {
                                if live {
                                    assert(!self.alive_spec(e2));
                                } else {
                                    assert(!pre.alive_spec(e2));
                                    assert(!self.alive_spec(e2));
                                }
                            }
                        }
                        assert forall|e2: Entity| old(self).alive_spec(e2)
                            && !destroy_queued(cmds0, e2) implies self.alive_spec(e2) by {
                            assert(pre.alive_spec(e2));
                            if live && e2.index == e.index {
                                assert(e2.generation == pre.gens@[e2.index as int]);
                                assert(e.generation == pre.gens@[e.index as int]);
                                assert(e2 == e);
                                lemma_destroy_queued_split(pre_cmds, e2);
                                assert(destroy_queued(pre_cmds, e2));
                                assert(destroy_queued(cmds0, e2));
                                assert(false);
                            }
                        }
                        assert forall|e2: Entity| old(self).alive_spec(e2)
                            && !self.alive_spec(e2)
                            implies self.gens@[e2.index as int] > e2.generation by {
                            if pre.alive_spec(e2) {
                                // destroyed just now: the slot generation was bumped
                                assert(live && e2.index == e.index);
                                assert(e2.generation == pre.gens@[e2.index as int]);
                            } else {
                                assert(pre.gens@[e2.index as int] > e2.generation);
                                if live && e2.index == e.index {
                                    assert(self.gens@[e2.index as int]
                                        == pre.gens@[e2.index as int] + 1);
                                }
                            }
                        }
                    }
                },
                Command::Spawn { object, position } => {
                    let ghost pre = *self;
                    let e = object.insert(
                        position,
                        self,
                        physic_world,
                        bodies_map,
                        animations,
                        player_linear_damping,
                        player_angular_damping,
                    );
                    spawned.push(e);
                    proof {
                        // the fresh entity is no entity the caller ever saw:
                        // its slot's generation moved past every old stamp
                        if old(self).alive_spec(e) {
                            assert(!pre.alive_spec(e));
                            assert(pre.gens@[e.index as int] > e.generation);
                            assert(e.index < old(self).gens@.len());
                            assert(self.gens@[e.index as int] == pre.gens@[e.index as int]);
                            assert(self.alive_spec(e));
                            assert(self.gens@[e.index as int] == e.generation);
                            assert(false);
                        }
                        assert(!old(self).alive_spec(e));
                        assert forall|k: int| 0 <= k < spawned@.len()
                            implies self.alive_spec(#[trigger] spawned@[k])
                                && !old(self).alive_spec(spawned@[k]) by {
                            let s = spawned@[k];
                            if k < spawned@.len() - 1 {
                                assert(pre.alive_spec(s));
                                assert(s.index != e.index);
                            }
                        }
                        assert forall|e2: Entity| old(self).alive_spec(e2)
                            && destroy_queued(cmds0, e2)
                            && !destroy_queued(commands@, e2)
                            implies !self.alive_spec(e2) by {
                            lemma_destroy_queued_split(pre_cmds, e2);
                            assert(!destroy_queued(pre_cmds, e2));
                            assert(!pre.alive_spec(e2));
                            if self.alive_spec(e2) {
                                assert(e2.index == e.index || pre.alive_spec(e2));
                                assert(e2.index == e.index);
                                if e2 != e {
                                    assert(!self.alive_spec(e2));
                                }
                                assert(e2 == e);
                                assert(false);
                            }
                        }
                        assert forall|e2: Entity| old(self).alive_spec(e2)
                            && !destroy_queued(cmds0, e2) implies self.alive_spec(e2) by {
                            assert(pre.alive_spec(e2));
                            assert(e2.index != e.index);
                        }
                        assert forall|e2: Entity| old(self).alive_spec(e2)
                            && !self.alive_spec(e2)
                            implies self.gens@[e2.index as int] > e2.generation by {
                            if pre.alive_spec(e2) {
                                assert(e2.index != e.index);
                                assert(self.alive_spec(e2));
                                assert(false);
                            }
                            assert(pre.gens@[e2.index as int] > e2.generation);
                            assert(e2.index < pre.gens@.len());
                        }
                    }
                },
            }
        }
        proof {
            assert(commands@ =~= Seq::<Command>::empty());
        }
        spawned
    }
}

} // verus!
