//! Spawner components and the systems that create entities on
//! activation.
//!
//! All three spawner kinds share one algorithm: on the gating activator's
//! rising edge, compute a spawn probability from the optional distance
//! and aim curves, draw uniformly, check line of sight where the kind
//! asks for it, and queue the creation.  Creation is queued, never
//! applied mid-iteration: the store is being read by other systems this
//! frame.

use vstd::prelude::*;
use crate::behavior::min_key_at;
use crate::behavior::owner_is_player;
use crate::clamp::ClampFunction;
use crate::component::Player;
use crate::math::COORD_LIMIT;
use crate::math::SCALE;
use crate::math::Vec2;
use crate::math::angular_distance;
use crate::physics::BodiesMap;
use crate::physics::PhysicWorld;
use crate::physics::RayHit;
use crate::physics::RigidBody;
use crate::physics::bodies_wf;
use crate::physics::closest_hit;
use crate::rng::draw_below;
use crate::store::Entity;
use crate::store::Storage;
use crate::math::Isometry2;
use crate::math::TWO_PI_FX;
use crate::math::mul_div_trunc;
use crate::tempo::Tempos;
use crate::world::Command;
use crate::world::World;
use crate::world::destroy_queued;

verus! {

/// Spawns one entity on activation when a player is in unobstructed
/// sight, then destroys itself atomically with the spawn.
#[derive(Clone, PartialEq, Eq, Debug)]
pub struct UniqueSpawner {
    /// Index into the entity's activators.
    pub activator: usize,
    /// Name of the prototype to instantiate, resolved in configuration.
    pub spawn: String,
    /// Clamp of the probability by the distance to the player.
    pub dist_proba_clamp: Option<ClampFunction>,
    /// Clamp of the probability by the player's angular offset.
    pub aim_proba_clamp: Option<ClampFunction>,
}

/// One rotating barrel of a turret: fires along a rotating aim on its
/// activator's pulses.
#[derive(Clone, PartialEq, Eq, Debug)]
pub struct TurretPart {
    /// Index into the entity's activators.
    pub activator: usize,
    /// Activator gating the rotation steps, if the rotation is gated.
    pub rotation_activator: Option<usize>,
    /// Name of the prototype to instantiate, resolved in configuration.
    pub spawn: String,
    /// Beats for one full turn of the aim.
    pub rotation_time: usize,
    pub clockwise: bool,
    /// Beat offset the barrel starts its turn at.
    pub start_time: isize,
    /// How far along the aim the spawn is placed, in fixed-point units.
    pub shoot_distance: i64,
}

/// A turret: several independently timed rotating barrels.
#[derive(Clone, PartialEq, Eq, Debug)]
pub struct TurretSpawner(pub Vec<TurretPart>);

/// Spawns a fixed count of entities and keeps handles to them for later
/// bookkeeping.
#[derive(Clone, PartialEq, Eq, Debug)]
pub struct ChamanSpawner {
    /// Index into the entity's activators.
    pub activator: usize,
    /// Name of the prototype to instantiate, resolved in configuration.
    pub spawn: String,
    pub number_of_spawn: usize,
    /// Entities spawned so far, as far as they are still alive.
    pub spawned: Vec<Entity>,
}

/// One player as a spawner measures it this frame: its position and aim,
/// the angle of the line from the player to the measuring entity — the
/// collaborator that owns trigonometry supplies it — and the
/// interferences of a sight ray from the entity toward the player.
#[derive(Clone, PartialEq, Eq, Debug)]
pub struct TargetInfo {
    pub position: Vec2,
    /// The player's aim angle, fixed-point radians.
    pub aim: i64,
    /// Angle of the vector from the player to the measuring entity.
    pub angle_from_player: i64,
    /// Sight-ray interferences, wall-and-player whitelist.
    pub hits: Vec<RayHit>,
}

/// Per-entity target measurements for this frame.
#[derive(Clone, PartialEq, Eq, Debug)]
pub struct Targets(pub Vec<TargetInfo>);

/// The target data stays inside the fixed-point ranges and its hits name
/// known, mirrored bodies.
pub open spec fn targets_wf(t: Targets, bodies_map: BodiesMap, phys: PhysicWorld) -> bool {
    forall|k: int| 0 <= k < t.0@.len() ==> {
        let ti = #[trigger] t.0@[k];
        &&& ti.position.wf()
        &&& -COORD_LIMIT <= ti.aim <= COORD_LIMIT
        &&& -COORD_LIMIT <= ti.angle_from_player <= COORD_LIMIT
        &&& -COORD_LIMIT <= ti.aim - ti.angle_from_player <= COORD_LIMIT
        &&& forall|j: int| 0 <= j < ti.hits@.len() ==> {
            let h = #[trigger] ti.hits@[j];
            &&& -COORD_LIMIT <= h.toi <= COORD_LIMIT
            &&& bodies_map.entity_at(h.body as int) is Some
            &&& phys.has_body(h.body as int)
        }
    }
}

/// Target `k`'s sight ray reaches a player: the selected interference is
/// a player's body.
pub open spec fn target_sees_player(
    targets: Targets,
    k: int,
    players: Storage<Player>,
    bodies_map: BodiesMap,
) -> bool {
    &&& 0 <= k < targets.0@.len()
    &&& exists|i: int| #[trigger] min_key_at(targets.0@[k].hits@, i)
        && owner_is_player(targets.0@[k].hits@[i], players, bodies_map)
}

/// A unique spawner is certain to trigger: its activator is up, it leaves the
/// probability at one (no curves), some target is in unobstructed sight,
/// and its prototype resolves.
pub open spec fn must_trigger(
    world: World,
    idx: int,
    targets: Storage<Targets>,
    players: Storage<Player>,
    bodies_map: BodiesMap,
    conf: crate::resource::Conf,
) -> bool {
    &&& world.unique_spawner.at(idx) matches Some(s) && {
        &&& s.dist_proba_clamp is None
        &&& s.aim_proba_clamp is None
        &&& crate::resource::conf_resolves(conf.insertables@, s.spawn@)
        &&& world.activators.at(idx) matches Some(acts) && s.activator < acts.0@.len()
            && acts.0@[s.activator as int].activated
        &&& world.rigid_body.at(idx) is Some
        &&& targets.at(idx) matches Some(t) && exists|k: int| target_sees_player(
            t,
            k,
            players,
            bodies_map,
        )
    }
}

/// `c0` and `c1` are the replace pair of one triggered unique spawner:
/// the destruction of the live, activated, sighted spawner at index slot
/// `idx`, and the spawn of its first-matching prototype at its body's
/// isometry.
pub open spec fn trigger_pair(
    world: World,
    phys: PhysicWorld,
    targets: Storage<Targets>,
    players: Storage<Player>,
    bodies_map: BodiesMap,
    conf: crate::resource::Conf,
    idx: int,
    c0: Command,
    c1: Command,
) -> bool {
    &&& 0 <= idx < world.gens@.len() && world.alive@[idx]
    &&& c0 == Command::Destroy(Entity { index: idx as usize, generation: world.gens@[idx] })
    &&& world.unique_spawner.at(idx) matches Some(s) && {
        &&& world.activators.at(idx) matches Some(acts) && s.activator < acts.0@.len()
            && acts.0@[s.activator as int].activated
        &&& targets.at(idx) matches Some(t) && exists|k: int| target_sees_player(
            t,
            k,
            players,
            bodies_map,
        )
        &&& world.rigid_body.at(idx) matches Some(rb) && exists|kk: int| {
            &&& #[trigger] crate::resource::conf_first_match(conf.insertables@, s.spawn@, kk)
            &&& c1 == Command::Spawn {
                object: conf.insertables@[kk].1,
                position: crate::entity::InsertPosition {
                    position: phys.body_at(rb.0 as int).unwrap().position,
                    path: None,
                    facing: None,
                },
            }
        }
    }
}

/// Position `j` of `cmds` starts the replace pair of some spawner.
pub open spec fn pair_at(
    world: World,
    phys: PhysicWorld,
    targets: Storage<Targets>,
    players: Storage<Player>,
    bodies_map: BodiesMap,
    conf: crate::resource::Conf,
    cmds: Seq<Command>,
    j: int,
) -> bool {
    &&& j + 1 < cmds.len()
    &&& exists|idx: int| #[trigger] trigger_pair(
        world,
        phys,
        targets,
        players,
        bodies_map,
        conf,
        idx,
        cmds[j],
        cmds[j + 1],
    )
}

/// The commands appended after `base` are destroy-spawn replace pairs.
pub open spec fn pairs_ok(
    world: World,
    phys: PhysicWorld,
    targets: Storage<Targets>,
    players: Storage<Player>,
    bodies_map: BodiesMap,
    conf: crate::resource::Conf,
    base: int,
    cmds: Seq<Command>,
) -> bool {
    &&& (cmds.len() - base) % 2 == 0
    &&& forall|j: int| base <= j < cmds.len() && (j - base) % 2 == 0
        ==> #[trigger] pair_at(world, phys, targets, players, bodies_map, conf, cmds, j)
}

/// The destroys appended after `base` name spawners below index slot `i`.
pub open spec fn pairs_below(base: int, cmds: Seq<Command>, i: int) -> bool {
    forall|j: int|
        #![trigger cmds[j]]
        base <= j < cmds.len() && (j - base) % 2 == 0 ==> (cmds[j]
            matches Command::Destroy(ed) && ed.index < i)
}

/// The destroys appended after `base` name strictly increasing spawner
/// slots: no spawner triggers twice.
pub open spec fn pairs_ordered(base: int, cmds: Seq<Command>) -> bool {
    forall|j1: int, j2: int| base <= j1 < j2 < cmds.len() && (j1 - base) % 2 == 0
        && (j2 - base) % 2 == 0 ==> ((#[trigger] cmds[j1]) matches Command::Destroy(e1)
        && (#[trigger] cmds[j2]) matches Command::Destroy(e2) && e1.index < e2.index)
}

/// Every destroy queued beyond `pre` names a live spawner whose
/// activator is up.
pub open spec fn destroys_named(pre: Seq<Command>, cmds: Seq<Command>, world: World) -> bool {
    forall|e: Entity| destroy_queued(cmds, e) && !destroy_queued(pre, e) ==> {
        &&& world.alive_spec(e)
        &&& world.unique_spawner.at(e.index as int) matches Some(s)
        &&& world.activators.at(e.index as int) matches Some(acts) && s.activator
            < acts.0@.len() && acts.0@[s.activator as int].activated
    }
}

/// One spawner's append step keeps every new destroy named after a live,
/// activated spawner.
proof fn lemma_destroys_stay_named(
    world: World,
    pre0: Seq<Command>,
    pre: Seq<Command>,
    post: Seq<Command>,
    e: Entity,
)
    requires
        destroys_named(pre0, pre, world),
        forall|e2: Entity| destroy_queued(post, e2) && !destroy_queued(pre, e2) ==> e2 == e,
        world.alive_spec(e),
        world.unique_spawner.at(e.index as int) is Some,
        world.unique_spawner.at(e.index as int) matches Some(s)
            && world.activators.at(e.index as int) matches Some(acts) && s.activator
            < acts.0@.len() && acts.0@[s.activator as int].activated,
    ensures
        destroys_named(pre0, post, world),
{
    assert forall|e2: Entity| destroy_queued(post, e2) && !destroy_queued(pre0, e2) implies {
        &&& world.alive_spec(e2)
        &&& world.unique_spawner.at(e2.index as int) matches Some(s)
        &&& world.activators.at(e2.index as int) matches Some(acts) && s.activator
            < acts.0@.len() && acts.0@[s.activator as int].activated
    } by {
        if destroy_queued(pre, e2) {
        } else {
            assert(e2 == e);
        }
    }
}

/// Appending one spawner's replace pair keeps the appended region a
/// sequence of ordered replace pairs.
proof fn lemma_pairs_extend(
    world: World,
    phys: PhysicWorld,
    targets: Storage<Targets>,
    players: Storage<Player>,
    bodies_map: BodiesMap,
    conf: crate::resource::Conf,
    base: int,
    pre: Seq<Command>,
    post: Seq<Command>,
    i: int,
)
    requires
        0 <= base <= pre.len(),
        post.len() == pre.len() || post.len() == pre.len() + 2,
        post.subrange(0, pre.len() as int) == pre,
        pairs_ok(world, phys, targets, players, bodies_map, conf, base, pre),
        pairs_below(base, pre, i),
        pairs_ordered(base, pre),
        post.len() > pre.len() ==> trigger_pair(
            world,
            phys,
            targets,
            players,
            bodies_map,
            conf,
            i,
            post[pre.len() as int],
            post[pre.len() + 1 as int],
        ),
        post.len() > pre.len() ==> (post[pre.len() as int] matches Command::Destroy(ed)
            && ed.index == i),
    ensures
        pairs_ok(world, phys, targets, players, bodies_map, conf, base, post),
        pairs_below(base, post, i + 1),
        pairs_ordered(base, post),
{
    assert forall|j: int| base <= j < post.len() && (j - base) % 2 == 0 implies #[trigger] pair_at(
        world,
        phys,
        targets,
        players,
        bodies_map,
        conf,
        post,
        j,
    ) by {
        if j < pre.len() {
            assert(pair_at(world, phys, targets, players, bodies_map, conf, pre, j));
            assert(post[j] == pre[j]);
            assert(j + 1 < pre.len());
            assert(post[j + 1] == pre[j + 1]);
            let idx = choose|idx: int| #[trigger] trigger_pair(
                world,
                phys,
                targets,
                players,
                bodies_map,
                conf,
                idx,
                pre[j],
                pre[j + 1],
            );
            assert(trigger_pair(
                world,
                phys,
                targets,
                players,
                bodies_map,
                conf,
                idx,
                post[j],
                post[j + 1],
            ));
        } else {
            assert(j == pre.len());
            assert(post.len() == pre.len() + 2);
            assert(trigger_pair(
                world,
                phys,
                targets,
                players,
                bodies_map,
                conf,
                i,
                post[j],
                post[j + 1],
            ));
        }
    }
    assert forall|j: int|
        #![trigger post[j]]
        base <= j < post.len() && (j - base) % 2 == 0 implies (post[j]
            matches Command::Destroy(ed) && ed.index < i + 1) by {
        if j < pre.len() {
            assert(post[j] == pre[j]);
        } else {
            assert(j == pre.len());
        }
    }
    assert forall|j1: int, j2: int|
        base <= j1 < j2 < post.len() && (j1 - base) % 2 == 0 && (j2 - base) % 2 == 0
        implies ((#[trigger] post[j1]) matches Command::Destroy(e1) && (#[trigger] post[j2])
            matches Command::Destroy(e2) && e1.index < e2.index) by {
        if j2 < pre.len() {
            assert(post[j1] == pre[j1]);
            assert(post[j2] == pre[j2]);
        } else {
            assert(j2 == pre.len());
            assert(post[j1] == pre[j1]);
        }
    }
}

/// Creates one entity on activation when a player is in unobstructed
/// sight, destroying the spawner atomically with the spawn.
pub struct UniqueSpawnerSystem;

impl UniqueSpawnerSystem {
    /// One frame of the unique spawners.  On the gating activator's
    /// pulse, for each measured target: the spawn probability starts at
    /// one and is shaped by the optional distance and aim curves; a
    /// uniform draw decides; the sight ray must reach the target's
    /// player.  The first triggering target queues the spawner's
    /// destruction and the spawn of its prototype — atomically, at the
    /// deferred-apply point — and ends the spawner's turn, so a dying
    /// spawner never double-triggers.
    #[verifier::rlimit(100)]
    #[verifier::spinoff_prover]
    pub fn run(
        world: &World,
        targets: &Storage<Targets>,
        bodies_map: &BodiesMap,
        physic_world: &PhysicWorld,
        conf: &crate::resource::Conf,
        commands: &mut Vec<Command>,
    )
        requires
            world.wf(),
            bodies_wf(*physic_world),
            forall|i: int| (#[trigger] world.rigid_body.at(i)) matches Some(rb)
                ==> physic_world.has_body(rb.0 as int),
            forall|i: int| (#[trigger] targets.at(i)) matches Some(t)
                ==> targets_wf(t, *bodies_map, *physic_world),
            forall|i: int| (#[trigger] world.unique_spawner.at(i)) matches Some(s) ==> {
                &&& (s.dist_proba_clamp matches Some(c) ==> c.wf() && 0 <= c.lo() && c.hi()
                    <= SCALE)
                &&& (s.aim_proba_clamp matches Some(c) ==> c.wf() && 0 <= c.lo() && c.hi()
                    <= SCALE)
                &&& (world.activators.at(i) matches Some(acts) ==> s.activator < acts.0@.len())
            },
        ensures
            // the step only appends deferred commands
            final(commands)@.len() >= old(commands)@.len(),
            final(commands)@.subrange(0, old(commands)@.len() as int) == old(commands)@,
            // success owed: a spawner certain to trigger is queued for
            // destruction
            forall|idx: int| must_trigger(
                *world,
                idx,
                *targets,
                world.player,
                *bodies_map,
                *conf,
            ) && world.alive@[idx] && 0 <= idx < world.gens@.len() ==> destroy_queued(
                final(commands)@,
                Entity { index: idx as usize, generation: world.gens@[idx] },
            ),
            // no spurious destruction: every new destroy names a live
            // gated spawner
            destroys_named(old(commands)@, final(commands)@, *world),
            // replace semantics: the appended commands are destroy-spawn
            // pairs, each the atomic replacement of one triggered
            // spawner, and no spawner triggers twice
            pairs_ok(
                *world,
                *physic_world,
                *targets,
                world.player,
                *bodies_map,
                *conf,
                old(commands)@.len() as int,
                final(commands)@,
            ),
            pairs_ordered(old(commands)@.len() as int, final(commands)@),
    {
        let n = world.unique_spawner.data.len();
        let mut i: usize = 0;
        while i < n
            invariant
                i <= n,
                n == world.unique_spawner.data@.len(),
                world.wf(),
                bodies_wf(*physic_world),
                forall|k: int| (#[trigger] world.rigid_body.at(k)) matches Some(rb)
                    ==> physic_world.has_body(rb.0 as int),
                forall|k: int| (#[trigger] targets.at(k)) matches Some(t)
                    ==> targets_wf(t, *bodies_map, *physic_world),
                forall|k: int| (#[trigger] world.unique_spawner.at(k)) matches Some(s) ==> {
                    &&& (s.dist_proba_clamp matches Some(c) ==> c.wf() && 0 <= c.lo() && c.hi()
                        <= SCALE)
                    &&& (s.aim_proba_clamp matches Some(c) ==> c.wf() && 0 <= c.lo() && c.hi()
                        <= SCALE)
                    &&& (world.activators.at(k) matches Some(acts) ==> s.activator
                        < acts.0@.len())
                },
                commands@.len() >= old(commands)@.len(),
                commands@.subrange(0, old(commands)@.len() as int) == old(commands)@,
                forall|idx: int| must_trigger(
                    *world,
                    idx,
                    *targets,
                    world.player,
                    *bodies_map,
                    *conf,
                ) && world.alive@[idx] && 0 <= idx < world.gens@.len() && idx < i
                    ==> destroy_queued(
                    commands@,
                    Entity { index: idx as usize, generation: world.gens@[idx] },
                ),
                destroys_named(old(commands)@, commands@, *world),
                pairs_ok(
                    *world,
                    *physic_world,
                    *targets,
                    world.player,
                    *bodies_map,
                    *conf,
                    old(commands)@.len() as int,
                    commands@,
                ),
                pairs_below(old(commands)@.len() as int, commands@, i as int),
                pairs_ordered(old(commands)@.len() as int, commands@),
            decreases n - i,
        {
            let step_ready = world.unique_spawner.contains(i) && world.rigid_body.contains(i)
                && world.activators.contains(i) && i < world.gens.len() && world.alive[i]
                && targets.contains(i);
            if step_ready {
                let s = match world.unique_spawner.get(i) {
                    Some(s) => s,
                    None => vstd::pervasive::unreached(),
                };
                let rb = match world.rigid_body.get(i) {
                    Some(rb) => *rb,
                    None => vstd::pervasive::unreached(),
                };
                let acts = match world.activators.get(i) {
                    Some(acts) => acts,
                    None => vstd::pervasive::unreached(),
                };
                let t = match targets.get(i) {
                    Some(t) => t,
                    None => vstd::pervasive::unreached(),
                };
                let gate = acts.0[s.activator].activated;
                if gate {
                    let ghost pre_call = commands@;
                    let position = physic_world.position(rb.0);
                    let e = Entity { index: i, generation: world.gens[i] };
                    Self::try_targets(
                        s,
                        t,
                        position,
                        e,
                        world,
                        bodies_map,
                        physic_world,
                        conf,
                        commands,
                    );
                    proof {
                        assert(commands@.subrange(0, old(commands)@.len() as int)
                            =~= pre_call.subrange(0, old(commands)@.len() as int));
                        assert forall|idx: int| must_trigger(
                            *world,
                            idx,
                            *targets,
                            world.player,
                            *bodies_map,
                            *conf,
                        ) && world.alive@[idx] && 0 <= idx < world.gens@.len() && idx < i + 1
                            implies destroy_queued(
                            commands@,
                            Entity { index: idx as usize, generation: world.gens@[idx] },
                        ) by {
                            if idx < i as int {
                                crate::world::lemma_destroy_queued_extend(
                                    pre_call,
                                    commands@,
                                    Entity { index: idx as usize, generation: world.gens@[idx] },
                                );
                            }
                        }
                        assert(world.unique_spawner.at(i as int) == Some(*s));
                        assert(world.activators.at(i as int) == Some(*acts));
                        lemma_destroys_stay_named(
                            *world,
                            old(commands)@,
                            pre_call,
                            commands@,
                            e,
                        );
                        // the appended commands stay destroy-spawn pairs,
                        // ordered by spawner index
                        assert(commands@.subrange(0, pre_call.len() as int) =~= pre_call);
                        if commands@.len() > pre_call.len() {
                            assert(targets.at(i as int) == Some(*t));
                            assert(world.unique_spawner.at(i as int) == Some(*s));
                            assert(world.activators.at(i as int) == Some(*acts));
                            assert(world.rigid_body.at(i as int) == Some(rb));
                            assert(physic_world.body_at(rb.0 as int).unwrap().position
                                == position);
                            assert(trigger_pair(
                                *world,
                                *physic_world,
                                *targets,
                                world.player,
                                *bodies_map,
                                *conf,
                                i as int,
                                commands@[pre_call.len() as int],
                                commands@[pre_call.len() + 1 as int],
                            ));
                        }
                        lemma_pairs_extend(
                            *world,
                            *physic_world,
                            *targets,
                            world.player,
                            *bodies_map,
                            *conf,
                            old(commands)@.len() as int,
                            pre_call,
                            commands@,
                            i as int,
                        );
                    }
                }
            }
            i = i + 1;
        }
    }

    /// Runs one gated spawner over its measured targets, queueing on the
    /// first trigger.
    fn try_targets(
        s: &UniqueSpawner,
        t: &Targets,
        position: crate::math::Isometry2,
        e: Entity,
        world: &World,
        bodies_map: &BodiesMap,
        physic_world: &PhysicWorld,
        conf: &crate::resource::Conf,
        commands: &mut Vec<Command>,
    )
        requires
            world.wf(),
            bodies_wf(*physic_world),
            targets_wf(*t, *bodies_map, *physic_world),
            position.translation.wf(),
            s.dist_proba_clamp matches Some(c) ==> c.wf() && 0 <= c.lo() && c.hi() <= SCALE,
            s.aim_proba_clamp matches Some(c) ==> c.wf() && 0 <= c.lo() && c.hi() <= SCALE,
            world.alive_spec(e),
            world.unique_spawner.at(e.index as int) is Some,
            world.activators.at(e.index as int) matches Some(acts)
                && world.unique_spawner.at(e.index as int) matches Some(s2)
                && s2.activator < acts.0@.len() && acts.0@[s2.activator as int].activated,
        ensures
            final(commands)@.len() >= old(commands)@.len(),
            final(commands)@.subrange(0, old(commands)@.len() as int) == old(commands)@,
            // certain trigger: no curves, a target in sight, a resolved name
            s.dist_proba_clamp is None && s.aim_proba_clamp is None
                && crate::resource::conf_resolves(conf.insertables@, s.spawn@)
                && (exists|k: int| target_sees_player(*t, k, world.player, *bodies_map))
                ==> destroy_queued(final(commands)@, e),
            // every new destroy names this spawner
            forall|e2: Entity| destroy_queued(final(commands)@, e2) && !destroy_queued(
                old(commands)@,
                e2,
            ) ==> e2 == e,
            // nothing, or exactly the spawner's replace pair, is appended
            final(commands)@.len() == old(commands)@.len() || final(commands)@.len() == old(
                commands,
            )@.len() + 2,
            final(commands)@.len() > old(commands)@.len() ==> {
                &&& final(commands)@[old(commands)@.len() as int] == Command::Destroy(e)
                &&& (exists|k: int| target_sees_player(*t, k, world.player, *bodies_map))
                &&& exists|kk: int| {
                    &&& #[trigger] crate::resource::conf_first_match(
                        conf.insertables@,
                        s.spawn@,
                        kk,
                    )
                    &&& final(commands)@[old(commands)@.len() + 1 as int] == Command::Spawn {
                        object: conf.insertables@[kk].1,
                        position: crate::entity::InsertPosition {
                            position,
                            path: None,
                            facing: None,
                        },
                    }
                }
            },
    {
        let n_targets = t.0.len();
        let mut k: usize = 0;
        while k < n_targets
            invariant
                k <= n_targets,
                n_targets == t.0@.len(),
                world.wf(),
                bodies_wf(*physic_world),
                targets_wf(*t, *bodies_map, *physic_world),
                position.translation.wf(),
                s.dist_proba_clamp matches Some(c) ==> c.wf() && 0 <= c.lo() && c.hi() <= SCALE,
                s.aim_proba_clamp matches Some(c) ==> c.wf() && 0 <= c.lo() && c.hi() <= SCALE,
                commands@ == old(commands)@,
                forall|k2: int| 0 <= k2 < k && s.dist_proba_clamp is None
                    && s.aim_proba_clamp is None
                    && crate::resource::conf_resolves(conf.insertables@, s.spawn@)
                    ==> !target_sees_player(*t, k2, world.player, *bodies_map),
            decreases n_targets - k,
        {
            let target = &t.0[k];
            let mut proba: i64 = SCALE;
            match &s.dist_proba_clamp {
                Some(c) => {
                    let d = target.position.minus(position.translation);
                    let dist = d.norm();
                    let bounded = if dist > COORD_LIMIT {
                        COORD_LIMIT
                    } else {
                        dist
                    };
                    let f = c.compute(bounded);
                    proba = crate::math::mul_div_trunc(proba, f, SCALE);
                    proof {
                        crate::math::lemma_div_trunc_bounds(
                            SCALE as int * f as int,
                            SCALE as int,
                        );
                    }
                },
                None => {},
            }
            match &s.aim_proba_clamp {
                Some(c) => {
                    let offset = angular_distance(
                        target.angle_from_player - target.aim,
                        conf.exact_aim_angle,
                    );
                    let f = c.compute(offset);
                    proof {
                        crate::math::lemma_div_trunc_bounds(
                            proba as int * f as int,
                            SCALE as int,
                        );
                        assert(-0x4000_0000_0000_0000 <= proba * f <= 0x4000_0000_0000_0000)
                            by (nonlinear_arith)
                            requires
                                -2 * SCALE <= proba <= 2 * SCALE,
                                -COORD_LIMIT <= f <= COORD_LIMIT,
                        ;
                    }
                    proba = crate::math::mul_div_trunc(proba, f, SCALE);
                },
                None => {},
            }
            let draw = draw_below(SCALE as u64) as i64;
            proof {
                if s.dist_proba_clamp is None && s.aim_proba_clamp is None {
                    assert(proba == SCALE);
                }
            }
            if draw <= proba {
                let found = closest_hit(&target.hits);
                match found {
                    Some(hi) => {
                        let hit = target.hits[hi];
                        let owner = match bodies_map.get(hit.body) {
                            Some(o) => *o,
                            None => vstd::pervasive::unreached(),
                        };
                        if world.player.contains(owner.index) {
                            proof {
                                assert(min_key_at(t.0@[k as int].hits@, hi as int));
                                assert(target_sees_player(*t, k as int, world.player, *bodies_map));
                            }
                            let object = match conf.lookup(&s.spawn) {
                                Some(o) => o,
                                None => {
                                    // a dangling prototype name: load-time
                                    // validation failed upstream; skip
                                    return ;
                                },
                            };
                            commands.push(Command::Destroy(e));
                            commands.push(Command::Spawn {
                                object,
                                position: crate::entity::InsertPosition {
                                    position,
                                    path: None,
                                    facing: None,
                                },
                            });
                            proof {
                                let ghost pos = old(commands)@.len() as int;
                                assert(commands@[pos] == Command::Destroy(e));
                                assert(destroy_queued(commands@, e));
                                assert(commands@.subrange(0, pos) =~= old(commands)@);
                                assert forall|e2: Entity| destroy_queued(commands@, e2)
                                    && !destroy_queued(old(commands)@, e2) implies e2 == e by {
                                    let j = choose|j: int| 0 <= j < commands@.len()
                                        && ((#[trigger] commands@[j])
                                        matches Command::Destroy(e3) && e3 == e2);
                                    if j < pos {
                                        assert(commands@[j] == old(commands)@[j]);
                                        assert(destroy_queued(old(commands)@, e2));
                                    }
                                }
                            }
                            return ;
                        } else {
                            proof {
                                assert forall|i2: int| !(#[trigger] min_key_at(
                                    t.0@[k as int].hits@,
                                    i2,
                                ) && owner_is_player(
                                    t.0@[k as int].hits@[i2],
                                    world.player,
                                    *bodies_map,
                                )) by {
                                    if min_key_at(t.0@[k as int].hits@, i2) {
                                        crate::behavior::lemma_min_key_unique(
                                            t.0@[k as int].hits@,
                                            hi as int,
                                            i2,
                                        );
                                    }
                                }
                                assert(!target_sees_player(
                                    *t,
                                    k as int,
                                    world.player,
                                    *bodies_map,
                                ));
                            }
                        }
                    },
                    None => {
                        proof {
                            assert(t.0@[k as int].hits@.len() == 0);
                            assert(!target_sees_player(*t, k as int, world.player, *bodies_map));
                        }
                    },
                }
            }
            k = k + 1;
        }
    }
}

/// No destruction is queued among the appended commands.
pub open spec fn only_spawns_appended(pre: Seq<Command>, post: Seq<Command>) -> bool {
    &&& post.len() >= pre.len()
    &&& post.subrange(0, pre.len() as int) == pre
    &&& forall|e: Entity| destroy_queued(post, e) ==> destroy_queued(pre, e)
}

/// Barrel `p` of the turret at index slot `i` is certain to fire: every
/// component is in place, its activator is up and its prototype resolves.
pub open spec fn turret_part_fires(
    world: World,
    conf: crate::resource::Conf,
    i: int,
    p: int,
) -> bool {
    world.turret_spawner.at(i) matches Some(ts) && 0 <= p < ts.0@.len() && {
        &&& world.rigid_body.at(i) is Some
        &&& world.activators.at(i) matches Some(acts) && ts.0@[p].activator < acts.0@.len()
            && acts.0@[ts.0@[p].activator as int].activated
        &&& crate::resource::conf_resolves(conf.insertables@, ts.0@[p].spawn@)
    }
}

/// Some turret barrel below index slot `upto` is certain to fire.
pub open spec fn turret_must_fire_upto(
    world: World,
    conf: crate::resource::Conf,
    upto: int,
) -> bool {
    exists|i: int, p: int| i < upto && #[trigger] turret_part_fires(world, conf, i, p)
}

/// Some turret barrel is certain to fire.
pub open spec fn turret_must_fire(world: World, conf: crate::resource::Conf) -> bool {
    exists|i: int, p: int| #[trigger] turret_part_fires(world, conf, i, p)
}

/// The chaman spawner at index slot `i` is certain to spawn: every
/// component is in place, its activator is up, its count is not reached
/// and its prototype resolves.
pub open spec fn chaman_spawns_at(world: World, conf: crate::resource::Conf, i: int) -> bool {
    world.chaman_spawner.at(i) matches Some(cs) && {
        &&& world.rigid_body.at(i) is Some
        &&& world.activators.at(i) matches Some(acts) && cs.activator < acts.0@.len()
            && acts.0@[cs.activator as int].activated
        &&& cs.spawned@.len() < cs.number_of_spawn
        &&& crate::resource::conf_resolves(conf.insertables@, cs.spawn@)
    }
}

/// Some chaman spawner below index slot `upto` is certain to spawn.
pub open spec fn chaman_must_spawn_upto(
    world: World,
    conf: crate::resource::Conf,
    upto: int,
) -> bool {
    exists|i: int| i < upto && #[trigger] chaman_spawns_at(world, conf, i)
}

/// Some chaman spawner is certain to spawn.
pub open spec fn chaman_must_spawn(world: World, conf: crate::resource::Conf) -> bool {
    exists|i: int| #[trigger] chaman_spawns_at(world, conf, i)
}

/// The barrel's aim for a pulse count: one rotation step per beat, a
/// full turn every `rotation_time` beats, negated for a clockwise
/// barrel.
pub open spec fn turret_angle(
    beat: int,
    start_time: int,
    rotation_time: int,
    clockwise: bool,
) -> int {
    let steps = beat + start_time;
    let phase = if steps >= 0 {
        steps % rotation_time
    } else {
        -((-steps) % rotation_time)
    };
    let raw = crate::math::div_trunc(phase * TWO_PI_FX, rotation_time);
    if clockwise {
        -raw
    } else {
        raw
    }
}

/// The beat count that drives a barrel's rotation: its rotation
/// activator's tempo, or a standing aim without one.
pub open spec fn turret_beat(part: TurretPart, acts: crate::tempo::Activators, tempos: Tempos) -> int {
    match part.rotation_activator {
        Some(ra) => tempos.0@[acts.0@[ra as int].tempo as int].beat as int,
        None => 0,
    }
}

/// `c` is the spawn of barrel `p` of the gated turret at index slot `i`:
/// its first-matching prototype, at the turret's position, oriented along
/// the barrel's rotating aim.
pub open spec fn turret_spawn_cmd(
    world: World,
    tempos: Tempos,
    phys: PhysicWorld,
    conf: crate::resource::Conf,
    i: int,
    p: int,
    c: Command,
) -> bool {
    world.turret_spawner.at(i) matches Some(ts) && 0 <= p < ts.0@.len() && {
        let part = ts.0@[p];
        world.activators.at(i) matches Some(acts) && {
            &&& part.activator < acts.0@.len() && acts.0@[part.activator as int].activated
            &&& world.rigid_body.at(i) matches Some(rb) && exists|kk: int| {
                &&& #[trigger] crate::resource::conf_first_match(
                    conf.insertables@,
                    part.spawn@,
                    kk,
                )
                &&& c == Command::Spawn {
                    object: conf.insertables@[kk].1,
                    position: crate::entity::InsertPosition {
                        position: Isometry2 {
                            translation: phys.body_at(
                                rb.0 as int,
                            ).unwrap().position.translation,
                            rotation: turret_angle(
                                turret_beat(part, acts, tempos),
                                part.start_time as int,
                                part.rotation_time as int,
                                part.clockwise,
                            ) as i64,
                        },
                        path: None,
                        facing: None,
                    },
                }
            }
        }
    }
}

/// Position `j` of `cmds` is some gated barrel's spawn.
pub open spec fn turret_cmd_at(
    world: World,
    tempos: Tempos,
    phys: PhysicWorld,
    conf: crate::resource::Conf,
    cmds: Seq<Command>,
    j: int,
) -> bool {
    exists|i: int, p: int| #[trigger] turret_spawn_cmd(world, tempos, phys, conf, i, p, cmds[j])
}

/// Appending one barrel's spawn keeps every appended command a gated
/// barrel's spawn.
proof fn lemma_turret_cmds_extend(
    world: World,
    tempos: Tempos,
    phys: PhysicWorld,
    conf: crate::resource::Conf,
    base: int,
    pre: Seq<Command>,
    post: Seq<Command>,
)
    requires
        0 <= base <= pre.len(),
        post.len() == pre.len() + 1,
        post.subrange(0, pre.len() as int) == pre,
        forall|j: int| base <= j < pre.len() ==> #[trigger] turret_cmd_at(
            world,
            tempos,
            phys,
            conf,
            pre,
            j,
        ),
        turret_cmd_at(world, tempos, phys, conf, post, pre.len() as int),
    ensures
        forall|j: int| base <= j < post.len() ==> #[trigger] turret_cmd_at(
            world,
            tempos,
            phys,
            conf,
            post,
            j,
        ),
{
    assert forall|j: int| base <= j < post.len() implies #[trigger] turret_cmd_at(
        world,
        tempos,
        phys,
        conf,
        post,
        j,
    ) by {
        if j < pre.len() {
            assert(turret_cmd_at(world, tempos, phys, conf, pre, j));
            let (i, p) = choose|i: int, p: int| #[trigger] turret_spawn_cmd(
                world,
                tempos,
                phys,
                conf,
                i,
                p,
                pre[j],
            );
            assert(post[j] == pre[j]);
            assert(turret_spawn_cmd(world, tempos, phys, conf, i, p, post[j]));
        }
    }
}

/// Fires prototypes along a rotating aim on each barrel's activation
/// pulses.
pub struct TurretSpawnerSystem;

impl TurretSpawnerSystem {
    /// One frame of the turrets: each gated barrel queues one spawn at
    /// the turret's position, oriented along its rotating aim.  The aim
    /// advances one step per beat of the rotation activator's tempo, a
    /// full turn every `rotation_time` beats, clockwise or not.
    pub fn run(
        world: &World,
        tempos: &Tempos,
        physic_world: &PhysicWorld,
        conf: &crate::resource::Conf,
        commands: &mut Vec<Command>,
    )
        requires
            world.wf(),
            tempos.wf(),
            forall|i: int| (#[trigger] world.rigid_body.at(i)) matches Some(rb)
                ==> physic_world.has_body(rb.0 as int),
            forall|i: int| (#[trigger] world.turret_spawner.at(i)) matches Some(ts) ==> {
                forall|p: int| 0 <= p < ts.0@.len() ==> {
                    let part = #[trigger] ts.0@[p];
                    &&& 0 < part.rotation_time < 0x1000_0000
                    &&& -0x1000_0000 < part.start_time < 0x1000_0000
                    &&& (world.activators.at(i) matches Some(acts) ==> {
                        &&& part.activator < acts.0@.len()
                        &&& (part.rotation_activator matches Some(ra) ==> ra < acts.0@.len()
                            && acts.0@[ra as int].tempo < tempos.0@.len())
                    })
                }
            },
        ensures
            only_spawns_appended(old(commands)@, final(commands)@),
            // success owed: a barrel certain to fire leaves a longer queue
            turret_must_fire(*world, *conf) ==> final(commands)@.len() > old(commands)@.len(),
            // every appended command is some gated barrel's spawn: its
            // prototype, at the turret's position, along the rotating aim
            forall|j: int| old(commands)@.len() <= j < final(commands)@.len()
                ==> #[trigger] turret_cmd_at(
                *world,
                *tempos,
                *physic_world,
                *conf,
                final(commands)@,
                j,
            ),
    {
        proof {
            assert(commands@.subrange(0, commands@.len() as int) =~= commands@);
        }
        let n = world.turret_spawner.data.len();
        let mut i: usize = 0;
        while i < n
            invariant
                i <= n,
                n == world.turret_spawner.data@.len(),
                world.wf(),
                tempos.wf(),
                forall|k: int| (#[trigger] world.rigid_body.at(k)) matches Some(rb)
                    ==> physic_world.has_body(rb.0 as int),
                forall|k: int| (#[trigger] world.turret_spawner.at(k)) matches Some(ts) ==> {
                    forall|p: int| 0 <= p < ts.0@.len() ==> {
                        let part = #[trigger] ts.0@[p];
                        &&& 0 < part.rotation_time < 0x1000_0000
                        &&& -0x1000_0000 < part.start_time < 0x1000_0000
                        &&& (world.activators.at(k) matches Some(acts) ==> {
                            &&& part.activator < acts.0@.len()
                            &&& (part.rotation_activator matches Some(ra) ==> ra < acts.0@.len()
                                && acts.0@[ra as int].tempo < tempos.0@.len())
                        })
                    }
                },
                only_spawns_appended(old(commands)@, commands@),
                turret_must_fire_upto(*world, *conf, i as int) ==> commands@.len() > old(
                    commands,
                )@.len(),
                forall|j: int| old(commands)@.len() <= j < commands@.len()
                    ==> #[trigger] turret_cmd_at(
                    *world,
                    *tempos,
                    *physic_world,
                    *conf,
                    commands@,
                    j,
                ),
            decreases n - i,
        {
            if world.turret_spawner.contains(i) && world.rigid_body.contains(i)
                && world.activators.contains(i) {
                let ts = match world.turret_spawner.get(i) {
                    Some(ts) => ts,
                    None => vstd::pervasive::unreached(),
                };
                let rb = match world.rigid_body.get(i) {
                    Some(rb) => *rb,
                    None => vstd::pervasive::unreached(),
                };
                let acts = match world.activators.get(i) {
                    Some(acts) => acts,
                    None => vstd::pervasive::unreached(),
                };
                let position = physic_world.position(rb.0).translation;
                proof {
                    assert(world.turret_spawner.at(i as int) == Some(*ts));
                    assert(world.activators.at(i as int) == Some(*acts));
                    assert forall|p2: int| 0 <= p2 < ts.0@.len() implies {
                        let part = #[trigger] ts.0@[p2];
                        &&& 0 < part.rotation_time < 0x1000_0000
                        &&& -0x1000_0000 < part.start_time < 0x1000_0000
                        &&& part.activator < acts.0@.len()
                        &&& (part.rotation_activator matches Some(ra) ==> ra < acts.0@.len()
                            && acts.0@[ra as int].tempo < tempos.0@.len())
                    } by {
                        assert((world.turret_spawner.at(i as int)) matches Some(ts2)
                            && ts2 == *ts);
                    }
                }
                let n_parts = ts.0.len();
                let mut p: usize = 0;
                while p < n_parts
                    invariant
                        p <= n_parts,
                        n_parts == ts.0@.len(),
                        tempos.wf(),
                        world.turret_spawner.at(i as int) == Some(*ts),
                        world.activators.at(i as int) == Some(*acts),
                        world.rigid_body.at(i as int) == Some(rb),
                        physic_world.body_at(rb.0 as int) matches Some(b)
                            && b.position.translation == position,
                        forall|p2: int| 0 <= p2 < ts.0@.len() ==> {
                            let part = #[trigger] ts.0@[p2];
                            &&& 0 < part.rotation_time < 0x1000_0000
                            &&& -0x1000_0000 < part.start_time < 0x1000_0000
                            &&& part.activator < acts.0@.len()
                            &&& (part.rotation_activator matches Some(ra) ==> ra < acts.0@.len()
                                && acts.0@[ra as int].tempo < tempos.0@.len())
                        },
                        only_spawns_appended(old(commands)@, commands@),
                        turret_must_fire_upto(*world, *conf, i as int) ==> commands@.len()
                            > old(commands)@.len(),
                        forall|p2: int| 0 <= p2 < p && #[trigger] turret_part_fires(
                            *world,
                            *conf,
                            i as int,
                            p2,
                        ) ==> commands@.len() > old(commands)@.len(),
                        forall|j: int| old(commands)@.len() <= j < commands@.len()
                            ==> #[trigger] turret_cmd_at(
                            *world,
                            *tempos,
                            *physic_world,
                            *conf,
                            commands@,
                            j,
                        ),
                    decreases n_parts - p,
                {
                    let part = &ts.0[p];
                    let gate = acts.0[part.activator].activated;
                    if gate {
                        // the barrel's aim: one rotation step per beat of
                        // the rotation tempo, a full turn per
                        // rotation_time beats
                        let beat: usize = match part.rotation_activator {
                            Some(ra) => {
                                let t = tempos.0[acts.0[ra].tempo];
                                proof {
                                    assert(t.wf());
                                    assert(t.beat <= t.beat * t.time) by (nonlinear_arith)
                                        requires
                                            t.time >= 1,
                                            t.beat >= 0,
                                    ;
                                }
                                t.beat
                            },
                            None => 0,
                        };
                        let steps: i64 = (beat as i64) + (part.start_time as i64);
                        let turn: i64 = part.rotation_time as i64;
                        let phase: i64 = if steps >= 0 {
                            steps % turn
                        } else {
                            -((-steps) % turn)
                        };
                        assert(-0x4000_0000_0000_0000 <= phase * TWO_PI_FX
                            <= 0x4000_0000_0000_0000 && turn > 0) by (nonlinear_arith)
                            requires
                                -0x1000_0000 < phase < 0x1000_0000,
                                0 < turn,
                        ;
                        let angle_raw: i64 = mul_div_trunc(phase, TWO_PI_FX, turn);
                        let angle: i64 = if part.clockwise {
                            -angle_raw
                        } else {
                            angle_raw
                        };
                        match conf.lookup(&part.spawn) {
                            Some(object) => {
                                let ghost pre = commands@;
                                commands.push(Command::Spawn {
                                    object,
                                    position: crate::entity::InsertPosition {
                                        position: Isometry2 { translation: position, rotation: angle },
                                        path: None,
                                        facing: None,
                                    },
                                });
                                proof {
                                    assert(commands@.subrange(0, old(commands)@.len() as int)
                                        =~= pre.subrange(0, old(commands)@.len() as int));
                                    assert(commands@.subrange(0, pre.len() as int) =~= pre);
                                    assert forall|e: Entity| destroy_queued(commands@, e)
                                        implies destroy_queued(pre, e) by {
                                        let j = choose|j: int| 0 <= j < commands@.len()
                                            && ((#[trigger] commands@[j])
                                            matches Command::Destroy(e2) && e2 == e);
                                        assert(j < pre.len());
                                        assert(commands@[j] == pre[j]);
                                    }
                                    // the appended command is this
                                    // barrel's spawn, content and all
                                    assert(beat as int == turret_beat(
                                        ts.0@[p as int],
                                        *acts,
                                        *tempos,
                                    ));
                                    assert(angle as int == turret_angle(
                                        beat as int,
                                        part.start_time as int,
                                        part.rotation_time as int,
                                        part.clockwise,
                                    ));
                                    assert(turret_spawn_cmd(
                                        *world,
                                        *tempos,
                                        *physic_world,
                                        *conf,
                                        i as int,
                                        p as int,
                                        commands@[pre.len() as int],
                                    ));
                                    assert(turret_cmd_at(
                                        *world,
                                        *tempos,
                                        *physic_world,
                                        *conf,
                                        commands@,
                                        pre.len() as int,
                                    ));
                                    lemma_turret_cmds_extend(
                                        *world,
                                        *tempos,
                                        *physic_world,
                                        *conf,
                                        old(commands)@.len() as int,
                                        pre,
                                        commands@,
                                    );
                                }
                            },
                            None => {},
                        }
                    }
                    p = p + 1;
                }
                proof {
                    assert forall|i2: int, p2: int| i2 < i + 1 && #[trigger] turret_part_fires(
                        *world,
                        *conf,
                        i2,
                        p2,
                    ) implies commands@.len() > old(commands)@.len() by {
                        if i2 == i as int {
                            assert(turret_part_fires(*world, *conf, i2, p2));
                        } else {
                            assert(turret_must_fire_upto(*world, *conf, i as int));
                        }
                    }
                }
            } else {
                proof {
                    assert forall|i2: int, p2: int| i2 < i + 1 && #[trigger] turret_part_fires(
                        *world,
                        *conf,
                        i2,
                        p2,
                    ) implies commands@.len() > old(commands)@.len() by {
                        if i2 == i as int {
                            assert(world.turret_spawner.at(i2) is Some
                                && world.rigid_body.at(i2) is Some
                                && world.activators.at(i2) is Some);
                            assert(false);
                        } else {
                            assert(turret_must_fire_upto(*world, *conf, i as int));
                        }
                    }
                }
            }
            i = i + 1;
        }
        proof {
            if turret_must_fire(*world, *conf) {
                let (i2, p2) = choose|i2: int, p2: int| #[trigger] turret_part_fires(
                    *world,
                    *conf,
                    i2,
                    p2,
                );
                assert(0 <= i2 < n);
                assert(turret_must_fire_upto(*world, *conf, n as int));
            }
        }
    }
}

/// `c` is the spawn of the gated, under-count chaman spawner at index
/// slot `i`: its first-matching prototype, at the spawner's isometry.
pub open spec fn chaman_spawn_cmd(
    world: World,
    phys: PhysicWorld,
    conf: crate::resource::Conf,
    i: int,
    c: Command,
) -> bool {
    world.chaman_spawner.at(i) matches Some(cs) && {
        &&& world.activators.at(i) matches Some(acts) && cs.activator < acts.0@.len()
            && acts.0@[cs.activator as int].activated
        &&& cs.spawned@.len() < cs.number_of_spawn
        &&& world.rigid_body.at(i) matches Some(rb) && exists|kk: int| {
            &&& #[trigger] crate::resource::conf_first_match(conf.insertables@, cs.spawn@, kk)
            &&& c == Command::Spawn {
                object: conf.insertables@[kk].1,
                position: crate::entity::InsertPosition {
                    position: phys.body_at(rb.0 as int).unwrap().position,
                    path: None,
                    facing: None,
                },
            }
        }
    }
}

/// Position `j` of `cmds` is some gated chaman spawner's spawn.
pub open spec fn chaman_cmd_at(
    world: World,
    phys: PhysicWorld,
    conf: crate::resource::Conf,
    cmds: Seq<Command>,
    j: int,
) -> bool {
    exists|i: int| #[trigger] chaman_spawn_cmd(world, phys, conf, i, cmds[j])
}

/// Appending one spawner's spawn keeps every appended command a gated
/// spawner's spawn.
proof fn lemma_chaman_cmds_extend(
    world: World,
    phys: PhysicWorld,
    conf: crate::resource::Conf,
    base: int,
    pre: Seq<Command>,
    post: Seq<Command>,
)
    requires
        0 <= base <= pre.len(),
        post.len() == pre.len() + 1,
        post.subrange(0, pre.len() as int) == pre,
        forall|j: int| base <= j < pre.len() ==> #[trigger] chaman_cmd_at(
            world,
            phys,
            conf,
            pre,
            j,
        ),
        chaman_cmd_at(world, phys, conf, post, pre.len() as int),
    ensures
        forall|j: int| base <= j < post.len() ==> #[trigger] chaman_cmd_at(
            world,
            phys,
            conf,
            post,
            j,
        ),
{
    assert forall|j: int| base <= j < post.len() implies #[trigger] chaman_cmd_at(
        world,
        phys,
        conf,
        post,
        j,
    ) by {
        if j < pre.len() {
            assert(chaman_cmd_at(world, phys, conf, pre, j));
            let i = choose|i: int| #[trigger] chaman_spawn_cmd(world, phys, conf, i, pre[j]);
            assert(post[j] == pre[j]);
            assert(chaman_spawn_cmd(world, phys, conf, i, post[j]));
        }
    }
}

/// Spawns a fixed count of entities per spawner and leaves the handles to
/// be recorded at the deferred-apply point.
pub struct ChamanSpawnerSystem;

impl ChamanSpawnerSystem {
    /// One frame of the chaman spawners: each gated spawner that has not
    /// reached its fixed count queues one spawn at its own position.
    pub fn run(
        world: &World,
        physic_world: &PhysicWorld,
        conf: &crate::resource::Conf,
        commands: &mut Vec<Command>,
    )
        requires
            world.wf(),
            forall|i: int| (#[trigger] world.rigid_body.at(i)) matches Some(rb)
                ==> physic_world.has_body(rb.0 as int),
            forall|i: int| (#[trigger] world.chaman_spawner.at(i)) matches Some(cs)
                ==> (world.activators.at(i) matches Some(acts)
                    ==> cs.activator < acts.0@.len()),
        ensures
            only_spawns_appended(old(commands)@, final(commands)@),
            // success owed: a spawner certain to spawn leaves a longer queue
            chaman_must_spawn(*world, *conf) ==> final(commands)@.len() > old(commands)@.len(),
            // every appended command is some gated spawner's spawn: its
            // prototype, at the spawner's position
            forall|j: int| old(commands)@.len() <= j < final(commands)@.len()
                ==> #[trigger] chaman_cmd_at(
                *world,
                *physic_world,
                *conf,
                final(commands)@,
                j,
            ),
    {
        proof {
            assert(commands@.subrange(0, commands@.len() as int) =~= commands@);
        }
        let n = world.chaman_spawner.data.len();
        let mut i: usize = 0;
        while i < n
            invariant
                i <= n,
                n == world.chaman_spawner.data@.len(),
                world.wf(),
                forall|k: int| (#[trigger] world.rigid_body.at(k)) matches Some(rb)
                    ==> physic_world.has_body(rb.0 as int),
                forall|k: int| (#[trigger] world.chaman_spawner.at(k)) matches Some(cs)
                    ==> (world.activators.at(k) matches Some(acts)
                        ==> cs.activator < acts.0@.len()),
                only_spawns_appended(old(commands)@, commands@),
                chaman_must_spawn_upto(*world, *conf, i as int) ==> commands@.len() > old(
                    commands,
                )@.len(),
                forall|j: int| old(commands)@.len() <= j < commands@.len()
                    ==> #[trigger] chaman_cmd_at(
                    *world,
                    *physic_world,
                    *conf,
                    commands@,
                    j,
                ),
            decreases n - i,
        {
            if world.chaman_spawner.contains(i) && world.rigid_body.contains(i)
                && world.activators.contains(i) {
                let cs = match world.chaman_spawner.get(i) {
                    Some(cs) => cs,
                    None => vstd::pervasive::unreached(),
                };
                let rb = match world.rigid_body.get(i) {
                    Some(rb) => *rb,
                    None => vstd::pervasive::unreached(),
                };
                let acts = match world.activators.get(i) {
                    Some(acts) => acts,
                    None => vstd::pervasive::unreached(),
                };
                let gate = acts.0[cs.activator].activated;
                if gate && cs.spawned.len() < cs.number_of_spawn {
                    match conf.lookup(&cs.spawn) {
                        Some(object) => {
                            let ghost pre = commands@;
                            let position = physic_world.position(rb.0);
                            commands.push(Command::Spawn {
                                object,
                                position: crate::entity::InsertPosition {
                                    position,
                                    path: None,
                                    facing: None,
                                },
                            });
                            proof {
                                assert(commands@.subrange(0, old(commands)@.len() as int)
                                    =~= pre.subrange(0, old(commands)@.len() as int));
                                assert(commands@.subrange(0, pre.len() as int) =~= pre);
                                assert forall|e: Entity| destroy_queued(commands@, e)
                                    implies destroy_queued(pre, e) by {
                                    let j = choose|j: int| 0 <= j < commands@.len()
                                        && ((#[trigger] commands@[j])
                                        matches Command::Destroy(e2) && e2 == e);
                                    assert(j < pre.len());
                                    assert(commands@[j] == pre[j]);
                                }
                                // the appended command is this spawner's
                                // spawn, content and all
                                assert(world.chaman_spawner.at(i as int) == Some(*cs));
                                assert(world.activators.at(i as int) == Some(*acts));
                                assert(world.rigid_body.at(i as int) == Some(rb));
                                assert(chaman_spawn_cmd(
                                    *world,
                                    *physic_world,
                                    *conf,
                                    i as int,
                                    commands@[pre.len() as int],
                                ));
                                assert(chaman_cmd_at(
                                    *world,
                                    *physic_world,
                                    *conf,
                                    commands@,
                                    pre.len() as int,
                                ));
                                lemma_chaman_cmds_extend(
                                    *world,
                                    *physic_world,
                                    *conf,
                                    old(commands)@.len() as int,
                                    pre,
                                    commands@,
                                );
                            }
                        },
                        None => {},
                    }
                }
            }
            proof {
                assert forall|i2: int| i2 < i + 1 && #[trigger] chaman_spawns_at(
                    *world,
                    *conf,
                    i2,
                ) implies commands@.len() > old(commands)@.len() by {
                    if i2 < i as int {
                        assert(chaman_must_spawn_upto(*world, *conf, i as int));
                    }
                }
            }
            i = i + 1;
        }
        proof {
            if chaman_must_spawn(*world, *conf) {
                let i2 = choose|i2: int| #[trigger] chaman_spawns_at(*world, *conf, i2);
                assert(0 <= i2 < n);
                assert(chaman_must_spawn_upto(*world, *conf, n as int));
            }
        }
    }

    /// Records a spawned entity's handle with its spawner, once the
    /// deferred-apply point has created it.
    pub fn record(chamans: &mut Storage<ChamanSpawner>, idx: usize, e: Entity)
        requires
            idx < usize::MAX,
        ensures
            match old(chamans).at(idx as int) {
                Some(cs) => final(chamans).at(idx as int) matches Some(cs2) && {
                    &&& cs2.spawned@ == cs.spawned@.push(e)
                    &&& cs2.activator == cs.activator
                    &&& cs2.spawn == cs.spawn
                    &&& cs2.number_of_spawn == cs.number_of_spawn
                },
                None => final(chamans).at(idx as int) is None,
            },
            forall|j: int| j != idx ==> final(chamans).at(j) == old(chamans).at(j),
    {
        let taken = chamans.take(idx);
        match taken {
            Some(mut cs) => {
                cs.spawned.push(e);
                chamans.insert(idx, cs);
            },
            None => {},
        }
    }
}

} // verus!
