//! Movement controllers: each computes a desired velocity for its entity
//! from the players' current positions and the entity's own state, and
//! commits it to the physics bridge.
//!
//! Absence of a live target is never an error: controllers degrade to
//! zero velocity or continued memory.

use vstd::prelude::*;
use crate::component::Contactor;
use crate::component::Player;
use crate::component::VelocityControl;
use crate::component::VelocityToPlayerCircle;
use crate::component::VelocityToPlayerMemory;
use crate::component::VELOCITY_TO_PLAYER_DISTANCE_TO_GOAL;
use crate::component::speed_wf;
use crate::math::COORD_LIMIT;
use crate::math::SCALE;
use crate::math::Vec2;
use crate::math::angular_distance;
use crate::math::div_trunc;
use crate::math::lemma_div_trunc_bounds;
use crate::math::lemma_norm_dominates_coords;
use crate::math::mul_div_trunc;
use crate::physics::BodiesMap;
use crate::physics::PhysicWorld;
use crate::physics::RayHit;
use crate::physics::RigidBody;
use crate::physics::bodies_wf;
use crate::physics::closest_hit;
use crate::physics::only_velocities_written;
use crate::physics::toi_key;
use crate::physics::toi_key_spec;
use crate::store::Storage;
use crate::tempo::Activators;

verus! {

/// What an AI entity saw this frame: for each target, the interferences
/// of a ray cast from the entity toward that target, filtered to the
/// wall-and-player collision whitelist.  The collision engine reports
/// them; the systems select among them deterministically.
#[derive(Clone, PartialEq, Eq, Debug)]
pub struct Sight(pub Vec<Vec<RayHit>>);

/// The body a hit struck belongs to a player entity.
pub open spec fn owner_is_player(
    h: RayHit,
    players: Storage<Player>,
    bodies_map: BodiesMap,
) -> bool {
    match bodies_map.entity_at(h.body as int) {
        Some(e) => players.at(e.index as int) is Some,
        None => false,
    }
}

/// `i` is the interference the tie-break selects on one line: smallest
/// scaled key, first among equals.
pub open spec fn min_key_at(hits: Seq<RayHit>, i: int) -> bool {
    &&& 0 <= i < hits.len()
    &&& forall|k: int| 0 <= k < hits.len()
        ==> toi_key_spec(hits[i].toi as int) <= toi_key_spec((#[trigger] hits[k]).toi as int)
    &&& forall|k: int| 0 <= k < i
        ==> toi_key_spec((#[trigger] hits[k]).toi as int) > toi_key_spec(hits[i].toi as int)
}

/// Two selected interferences of one line are the same.
pub proof fn lemma_min_key_unique(hits: Seq<RayHit>, i: int, i2: int)
    requires
        min_key_at(hits, i),
        min_key_at(hits, i2),
    ensures
        i == i2,
{
    if i < i2 {
        assert(toi_key_spec(hits[i].toi as int) > toi_key_spec(hits[i2].toi as int));
        assert(toi_key_spec(hits[i2].toi as int) >= toi_key_spec(hits[i].toi as int));
    }
    if i2 < i {
        assert(toi_key_spec(hits[i2].toi as int) > toi_key_spec(hits[i].toi as int));
        assert(toi_key_spec(hits[i].toi as int) >= toi_key_spec(hits[i2].toi as int));
    }
}

/// Line `k`'s selected interference `i` struck a player.
pub open spec fn candidate(
    lines: Seq<Vec<RayHit>>,
    k: int,
    i: int,
    players: Storage<Player>,
    bodies_map: BodiesMap,
) -> bool {
    &&& 0 <= k < lines.len()
    &&& min_key_at(lines[k]@, i)
    &&& owner_is_player(lines[k]@[i], players, bodies_map)
}

/// Some line's selected interference struck a player.
pub open spec fn player_seen(
    lines: Seq<Vec<RayHit>>,
    players: Storage<Player>,
    bodies_map: BodiesMap,
) -> bool {
    exists|k: int, i: int| candidate(lines, k, i, players, bodies_map)
}

/// Reported hits stay in range, their owners are known, their bodies are
/// mirrored: the collision engine only reports real bodies.
pub open spec fn sight_wf(s: Sight, bodies_map: BodiesMap, phys: PhysicWorld) -> bool {
    forall|k: int, j: int| 0 <= k < s.0@.len() && 0 <= j < s.0@[k]@.len() ==> {
        let h = #[trigger] s.0@[k]@[j];
        &&& -COORD_LIMIT <= h.toi <= COORD_LIMIT
        &&& bodies_map.entity_at(h.body as int) is Some
        &&& phys.has_body(h.body as int)
    }
}

/// The candidate of one sight line: the selected interference's key and
/// the struck body's position, where that interference struck a player.
fn line_candidate(
    hits: &Vec<RayHit>,
    players: &Storage<Player>,
    bodies_map: &BodiesMap,
    phys: &PhysicWorld,
) -> (r: Option<(i64, Vec2)>)
    requires
        forall|j: int| 0 <= j < hits@.len() ==> {
            let h = #[trigger] hits@[j];
            &&& -COORD_LIMIT <= h.toi <= COORD_LIMIT
            &&& bodies_map.entity_at(h.body as int) is Some
            &&& phys.has_body(h.body as int)
        },
    ensures
        match r {
            Some((key, pos)) => exists|i: int| {
                &&& #[trigger] min_key_at(hits@, i)
                &&& owner_is_player(hits@[i], *players, *bodies_map)
                &&& key == toi_key_spec(hits@[i].toi as int)
                &&& pos == phys.body_at(hits@[i].body as int).unwrap().position.translation
            },
            None => forall|i: int| !(#[trigger] min_key_at(hits@, i)
                && owner_is_player(hits@[i], *players, *bodies_map)),
        },
{
    let found = closest_hit(hits);
    match found {
        Some(i) => {
            let hit = hits[i];
            assert(min_key_at(hits@, i as int));
            let owner = bodies_map.get(hit.body);
            let is_player = match owner {
                Some(e) => players.contains(e.index),
                None => false,
            };
            if is_player {
                let key = toi_key(hit.toi);
                let pos = phys.position(hit.body);
                Some((key, pos.translation))
            } else {
                proof {
                    assert forall|i2: int| !(#[trigger] min_key_at(hits@, i2)
                        && owner_is_player(hits@[i2], *players, *bodies_map)) by {
                        if min_key_at(hits@, i2) {
                            lemma_min_key_unique(hits@, i as int, i2);
                        }
                    }
                }
                None
            }
        },
        None => {
            assert(hits@.len() == 0);
            None
        },
    }
}

/// Position of the closest player's body along the entity's sight lines:
/// the smallest scaled time-of-impact wins, the first line among equals.
/// `None` when no line sees a player, which is not an error.
pub fn closest_in_sight(
    sight: &Sight,
    players: &Storage<Player>,
    bodies_map: &BodiesMap,
    phys: &PhysicWorld,
) -> (r: Option<Vec2>)
    requires
        sight_wf(*sight, *bodies_map, *phys),
    ensures
        match r {
            Some(p) => exists|k: int, i: int| {
                &&& #[trigger] candidate(sight.0@, k, i, *players, *bodies_map)
                &&& p == phys.body_at(
                    sight.0@[k]@[i].body as int,
                ).unwrap().position.translation
                &&& forall|k2: int, i2: int|
                    #[trigger] candidate(sight.0@, k2, i2, *players, *bodies_map)
                        ==> toi_key_spec(sight.0@[k2]@[i2].toi as int)
                            >= toi_key_spec(sight.0@[k]@[i].toi as int)
                &&& forall|k2: int, i2: int|
                    #[trigger] candidate(sight.0@, k2, i2, *players, *bodies_map) && k2 < k
                        ==> toi_key_spec(sight.0@[k2]@[i2].toi as int)
                            > toi_key_spec(sight.0@[k]@[i].toi as int)
            },
            None => !player_seen(sight.0@, *players, *bodies_map),
        },
{
    let n = sight.0.len();
    let mut best: Option<Vec2> = None;
    let mut best_key: i64 = 0;
    let ghost mut bk: int = 0;
    let ghost mut bi: int = 0;
    let mut k: usize = 0;
    while k < n
        invariant
            k <= n,
            n == sight.0@.len(),
            sight_wf(*sight, *bodies_map, *phys),
            match best {
                Some(p) => {
                    &&& candidate(sight.0@, bk, bi, *players, *bodies_map)
                    &&& bk < k
                    &&& p == phys.body_at(
                        sight.0@[bk]@[bi].body as int,
                    ).unwrap().position.translation
                    &&& best_key == toi_key_spec(sight.0@[bk]@[bi].toi as int)
                    &&& forall|k2: int, i2: int|
                        #[trigger] candidate(sight.0@, k2, i2, *players, *bodies_map) && k2 < k
                            ==> toi_key_spec(sight.0@[k2]@[i2].toi as int) >= best_key
                    &&& forall|k2: int, i2: int|
                        #[trigger] candidate(sight.0@, k2, i2, *players, *bodies_map) && k2 < bk
                            ==> toi_key_spec(sight.0@[k2]@[i2].toi as int) > best_key
                },
                None => forall|k2: int, i2: int| 0 <= k2 < k
                    ==> !candidate(sight.0@, k2, i2, *players, *bodies_map),
            },
        decreases n - k,
    {
        let cand = line_candidate(&sight.0[k], players, bodies_map, phys);
        proof {
            match cand {
                Some((key, pos)) => {
                    let i = choose|i: int| {
                        &&& #[trigger] min_key_at(sight.0@[k as int]@, i)
                        &&& owner_is_player(sight.0@[k as int]@[i], *players, *bodies_map)
                        &&& key == toi_key_spec(sight.0@[k as int]@[i].toi as int)
                        &&& pos == phys.body_at(
                            sight.0@[k as int]@[i].body as int,
                        ).unwrap().position.translation
                    };
                    assert(candidate(sight.0@, k as int, i, *players, *bodies_map));
                },
                None => {},
            }
        }
        match cand {
            Some((key, pos)) => {
                let ghost i = choose|i: int| {
                    &&& #[trigger] min_key_at(sight.0@[k as int]@, i)
                    &&& owner_is_player(sight.0@[k as int]@[i], *players, *bodies_map)
                    &&& key == toi_key_spec(sight.0@[k as int]@[i].toi as int)
                    &&& pos == phys.body_at(
                        sight.0@[k as int]@[i].body as int,
                    ).unwrap().position.translation
                };
                let better = match best {
                    Some(_) => key < best_key,
                    None => true,
                };
                if better {
                    proof {
                        bk = k as int;
                        bi = i;
                    }
                    best = Some(pos);
                    best_key = key;
                }
                proof {
                    assert forall|k2: int, i2: int|
                        #[trigger] candidate(sight.0@, k2, i2, *players, *bodies_map)
                            && k2 < k + 1
                            implies toi_key_spec(sight.0@[k2]@[i2].toi as int) >= best_key by {
                        if k2 == k as int {
                            lemma_min_key_unique(sight.0@[k2]@, i, i2);
                        }
                    }
                    assert forall|k2: int, i2: int|
                        #[trigger] candidate(sight.0@, k2, i2, *players, *bodies_map) && k2 < bk
                            implies toi_key_spec(sight.0@[k2]@[i2].toi as int) > best_key by {
                    }
                }
            },
            None => {
                proof {
                    assert forall|i2: int|
                        !candidate(sight.0@, k as int, i2, *players, *bodies_map) by {}
                }
            },
        }
        k = k + 1;
    }
    best
}

/// What the chase remembers after one activation: a sighted player
/// replaces the memory; without sight, memory keeps the previous
/// position, memoryless controllers clear it; without activation nothing
/// changes.
pub open spec fn sight_update(
    m: VelocityToPlayerMemory,
    activated: bool,
    closest: Option<Vec2>,
) -> Option<Vec2> {
    if !activated {
        m.last_closest_in_sight
    } else if closest is Some {
        closest
    } else if m.memory {
        m.last_closest_in_sight
    } else {
        None
    }
}

/// How one memory-chase step relates the new controller state and the
/// committed velocity to the old state: the velocity points at the
/// remembered position scaled to the configured speed, it is exactly zero
/// once within the goal distance, and reaching the goal clears the
/// memory.
pub open spec fn memory_outcome(
    pre: VelocityToPlayerMemory,
    post: VelocityToPlayerMemory,
    vel: Vec2,
    activated: bool,
    closest: Option<Vec2>,
    position: Vec2,
) -> bool {
    &&& post.velocity == pre.velocity
    &&& post.memory == pre.memory
    &&& post.activator == pre.activator
    &&& match sight_update(pre, activated, closest) {
        None => vel == (Vec2 { x: 0, y: 0 }) && post.last_closest_in_sight is None,
        Some(t) => {
            let dx = t.x - position.x;
            let dy = t.y - position.y;
            forall|n: int| #[trigger] crate::math::is_norm_of(dx, dy, n) ==> {
                if n <= VELOCITY_TO_PLAYER_DISTANCE_TO_GOAL {
                    // arrived: exactly zero velocity, memory cleared
                    vel == (Vec2 { x: 0, y: 0 }) && post.last_closest_in_sight is None
                } else {
                    &&& vel.x == div_trunc(dx * pre.velocity, n)
                    &&& vel.y == div_trunc(dy * pre.velocity, n)
                    &&& post.last_closest_in_sight == Some(t)
                }
            }
        },
    }
}

/// One memory-chase step for one entity.
///
/// Once a target is lost from sight with memory on, the remembered
/// position persists unchanged until a player is sighted again or the
/// goal distance is reached, at which point the velocity is exactly zero.
pub fn memory_step(
    m: &mut VelocityToPlayerMemory,
    activated: bool,
    closest: Option<Vec2>,
    position: Vec2,
) -> (vel: Vec2)
    requires
        speed_wf(old(m).velocity),
        position.wf(),
        closest matches Some(c) ==> c.wf(),
        old(m).last_closest_in_sight matches Some(t) ==> t.wf(),
    ensures
        memory_outcome(*old(m), *final(m), vel, activated, closest, position),
        final(m).last_closest_in_sight matches Some(t) ==> t.wf(),
        -COORD_LIMIT <= vel.x <= COORD_LIMIT && -COORD_LIMIT <= vel.y <= COORD_LIMIT,
{
    if activated {
        if closest.is_some() {
            m.last_closest_in_sight = closest;
        } else if !m.memory {
            m.last_closest_in_sight = None;
        }
    }
    let target = m.last_closest_in_sight;
    proof {
        assert(target == sight_update(*old(m), activated, closest));
    }
    match target {
        None => Vec2 { x: 0, y: 0 },
        Some(t) => {
            let d = t.minus(position);
            let n = d.norm();
            proof {
                assert(crate::math::is_norm_of(
                    t.x - position.x,
                    t.y - position.y,
                    n as int,
                ));
                assert forall|n2: int| #[trigger] crate::math::is_norm_of(
                    t.x - position.x,
                    t.y - position.y,
                    n2,
                ) implies n2 == n by {
                    crate::math::lemma_norm_of_unique(
                        t.x - position.x,
                        t.y - position.y,
                        n as int,
                        n2,
                    );
                }
            }
            if n <= VELOCITY_TO_PLAYER_DISTANCE_TO_GOAL {
                m.last_closest_in_sight = None;
                Vec2 { x: 0, y: 0 }
            } else {
                let v: i64 = m.velocity;
                proof {
                    lemma_norm_dominates_coords(d, n as int);
                    assert(-0x4000_0000_0000_0000 <= d.x * v
                        <= 0x4000_0000_0000_0000 && -0x4000_0000_0000_0000 <= d.y * v
                        <= 0x4000_0000_0000_0000) by (nonlinear_arith)
                        requires
                            -2 * COORD_LIMIT <= d.x <= 2 * COORD_LIMIT,
                            -2 * COORD_LIMIT <= d.y <= 2 * COORD_LIMIT,
                            0 <= v <= COORD_LIMIT,
                    ;
                    lemma_div_trunc_bounds(d.x as int * v as int, n as int);
                    lemma_div_trunc_bounds(d.y as int * v as int, n as int);
                    assert(d.x * v <= n * COORD_LIMIT && -(n as int) * COORD_LIMIT
                        <= d.x * v) by (nonlinear_arith)
                        requires
                            -(n as int) <= d.x <= n,
                            0 <= v <= COORD_LIMIT,
                            n >= 0,
                    ;
                    assert(d.y * v <= n * COORD_LIMIT && -(n as int) * COORD_LIMIT
                        <= d.y * v) by (nonlinear_arith)
                        requires
                            -(n as int) <= d.y <= n,
                            0 <= v <= COORD_LIMIT,
                            n >= 0,
                    ;
                    crate::math::lemma_div_trunc_ordered(
                        d.x as int * v as int,
                        n as int * COORD_LIMIT as int,
                        n as int,
                    );
                    crate::math::lemma_div_trunc_ordered(
                        -(n as int) * COORD_LIMIT as int,
                        d.x as int * v as int,
                        n as int,
                    );
                    crate::math::lemma_div_trunc_ordered(
                        d.y as int * v as int,
                        n as int * COORD_LIMIT as int,
                        n as int,
                    );
                    crate::math::lemma_div_trunc_ordered(
                        -(n as int) * COORD_LIMIT as int,
                        d.y as int * v as int,
                        n as int,
                    );
                    vstd::arithmetic::div_mod::lemma_div_by_multiple(COORD_LIMIT as int, n as int);
                    vstd::arithmetic::mul::lemma_mul_is_commutative(n as int, COORD_LIMIT as int);
                    vstd::arithmetic::mul::lemma_mul_unary_negation(n as int, COORD_LIMIT as int);
                }
                let vx = mul_div_trunc(d.x, m.velocity, n);
                let vy = mul_div_trunc(d.y, m.velocity, n);
                Vec2 { x: vx, y: vy }
            }
        },
    }
}

/// `closest` is a correct reading of the entity's sight lines: absent
/// when no line sees a player, otherwise some seen player body's
/// position.
pub open spec fn sight_result(
    s: Option<Sight>,
    closest: Option<Vec2>,
    players: Storage<Player>,
    bodies_map: BodiesMap,
    phys: PhysicWorld,
) -> bool {
    match s {
        None => closest is None,
        Some(sight) => match closest {
            None => !player_seen(sight.0@, players, bodies_map),
            Some(p) => exists|k: int, i: int| {
                &&& #[trigger] candidate(sight.0@, k, i, players, bodies_map)
                &&& p == phys.body_at(sight.0@[k]@[i].body as int).unwrap().position.translation
            },
        },
    }
}

/// A sight reading stays correct across velocity writes: they move no
/// body.
proof fn lemma_sight_result_stable(
    s: Option<Sight>,
    closest: Option<Vec2>,
    players: Storage<Player>,
    bodies_map: BodiesMap,
    pre: PhysicWorld,
    post: PhysicWorld,
)
    requires
        only_velocities_written(pre, post),
        sight_result(s, closest, players, bodies_map, post),
        s matches Some(sight) ==> sight_wf(sight, bodies_map, post),
    ensures
        sight_result(s, closest, players, bodies_map, pre),
{
    match s {
        Some(sight) => match closest {
            Some(p) => {
                let (k, i) = choose|k: int, i: int| {
                    &&& #[trigger] candidate(sight.0@, k, i, players, bodies_map)
                    &&& p == post.body_at(
                        sight.0@[k]@[i].body as int,
                    ).unwrap().position.translation
                };
                assert(post.body_at(sight.0@[k]@[i].body as int) is Some);
                assert(pre.body_at(sight.0@[k]@[i].body as int).unwrap().position
                    == post.body_at(sight.0@[k]@[i].body as int).unwrap().position);
            },
            None => {},
        },
        None => {},
    }
}

/// Inputs the memory chase relies on every frame: valid activator
/// indexes, a mirrored body behind every handle, distinct handles,
/// well-formed sights and in-range tuning values — all load-time or
/// bridge invariants.
pub open spec fn memory_inputs_ok(
    vtpms: Storage<VelocityToPlayerMemory>,
    activators: Storage<Activators>,
    rigid_bodies: Storage<RigidBody>,
    sights: Storage<Sight>,
    bodies_map: BodiesMap,
    phys: PhysicWorld,
) -> bool {
    &&& bodies_wf(phys)
    &&& forall|i: int| (#[trigger] vtpms.at(i)) matches Some(m) ==> {
        &&& speed_wf(m.velocity)
        &&& (m.last_closest_in_sight matches Some(t) ==> t.wf())
        &&& (activators.at(i) matches Some(acts) ==> m.activator < acts.0@.len())
    }
    &&& forall|i: int| (#[trigger] rigid_bodies.at(i)) matches Some(rb)
        ==> phys.has_body(rb.0 as int)
    &&& forall|i: int, j: int| i != j
        ==> match (#[trigger] rigid_bodies.at(i), #[trigger] rigid_bodies.at(j)) {
            (Some(a), Some(b)) => a.0 != b.0,
            _ => true,
        }
    &&& forall|i: int| (#[trigger] sights.at(i)) matches Some(s)
        ==> sight_wf(s, bodies_map, phys)
}

/// What one processed entity looks like afterwards: its controller state
/// stepped under some correct sight reading, and its body's velocity set
/// to the step's command.
pub open spec fn memory_entity_done(
    m_pre: VelocityToPlayerMemory,
    m_post: Option<VelocityToPlayerMemory>,
    gate: bool,
    s: Option<Sight>,
    position: Vec2,
    players: Storage<Player>,
    bodies_map: BodiesMap,
    pre_phys: PhysicWorld,
    vel_written: Vec2,
) -> bool {
    exists|closest: Option<Vec2>| {
        &&& #[trigger] sight_result(s, closest, players, bodies_map, pre_phys)
        &&& m_post matches Some(m2) && memory_outcome(
            m_pre,
            m2,
            vel_written,
            gate,
            closest,
            position,
        )
    }
}

/// Scales the vector `(dx, dy)` to speed `v` by its floor length `n`.
fn scale_by(dx: i64, dy: i64, v: i64, n: i64) -> (r: Vec2)
    requires
        -2 * COORD_LIMIT <= dx <= 2 * COORD_LIMIT,
        -2 * COORD_LIMIT <= dy <= 2 * COORD_LIMIT,
        crate::math::is_norm_of(dx as int, dy as int, n as int),
        n >= 1,
        speed_wf(v),
    ensures
        r.x == div_trunc(dx * v, n as int),
        r.y == div_trunc(dy * v, n as int),
        -v <= r.x <= v,
        -v <= r.y <= v,
{
    proof {
        lemma_norm_dominates_coords(Vec2 { x: dx, y: dy }, n as int);
        assert(-0x4000_0000_0000_0000 <= dx * v <= 0x4000_0000_0000_0000
            && -0x4000_0000_0000_0000 <= dy * v <= 0x4000_0000_0000_0000) by (nonlinear_arith)
            requires
                -2 * COORD_LIMIT <= dx <= 2 * COORD_LIMIT,
                -2 * COORD_LIMIT <= dy <= 2 * COORD_LIMIT,
                0 <= v <= COORD_LIMIT,
        ;
        lemma_div_trunc_bounds(dx as int * v as int, n as int);
        lemma_div_trunc_bounds(dy as int * v as int, n as int);
        assert(dx * v <= n * v && -(n as int) * v <= dx * v) by (nonlinear_arith)
            requires
                -(n as int) <= dx <= n,
                0 <= v,
                n >= 0,
        ;
        assert(dy * v <= n * v && -(n as int) * v <= dy * v) by (nonlinear_arith)
            requires
                -(n as int) <= dy <= n,
                0 <= v,
                n >= 0,
        ;
        crate::math::lemma_div_trunc_ordered(
            dx as int * v as int,
            n as int * v as int,
            n as int,
        );
        crate::math::lemma_div_trunc_ordered(
            -(n as int) * v as int,
            dx as int * v as int,
            n as int,
        );
        crate::math::lemma_div_trunc_ordered(
            dy as int * v as int,
            n as int * v as int,
            n as int,
        );
        crate::math::lemma_div_trunc_ordered(
            -(n as int) * v as int,
            dy as int * v as int,
            n as int,
        );
        vstd::arithmetic::div_mod::lemma_div_by_multiple(v as int, n as int);
        vstd::arithmetic::mul::lemma_mul_is_commutative(n as int, v as int);
        vstd::arithmetic::mul::lemma_mul_unary_negation(n as int, v as int);
    }
    let vx = mul_div_trunc(dx, v, n);
    let vy = mul_div_trunc(dy, v, n);
    Vec2 { x: vx, y: vy }
}

/// The comparison key of the distance between two points, at the fixed
/// precision every selection in the core uses.
pub open spec fn dist_key(p: Vec2, from: Vec2) -> int {
    toi_key_spec(crate::math::norm_floor(p.x - from.x, p.y - from.y))
}

fn dist_key_of(p: Vec2, from: Vec2) -> (r: i64)
    requires
        p.wf(),
        from.wf(),
    ensures
        r == dist_key(p, from),
{
    let d = p.minus(from);
    let n = d.norm();
    proof {
        crate::math::lemma_norm_floor(p.x - from.x, p.y - from.y, n as int);
    }
    toi_key(n)
}

/// `p` is the mirrored position of some player's body.
pub open spec fn is_player_position(
    p: Vec2,
    players: Storage<Player>,
    rigid_bodies: Storage<RigidBody>,
    phys: PhysicWorld,
) -> bool {
    exists|idx: int| {
        &&& (#[trigger] players.at(idx)) is Some
        &&& rigid_bodies.at(idx) matches Some(rb)
        &&& phys.body_at(rb.0 as int) matches Some(b)
        &&& b.position.translation == p
    }
}

/// The players' body positions below index slot `upto`, in entity-index
/// order.
pub open spec fn player_positions_spec(
    players: Storage<Player>,
    rigid_bodies: Storage<RigidBody>,
    phys: PhysicWorld,
    upto: int,
) -> Seq<Vec2>
    decreases upto,
{
    if upto <= 0 {
        Seq::empty()
    } else {
        player_positions_spec(players, rigid_bodies, phys, upto - 1) + (match (
            players.at(upto - 1),
            rigid_bodies.at(upto - 1),
        ) {
            (Some(_), Some(rb)) => seq![phys.body_at(rb.0 as int).unwrap().position.translation],
            _ => Seq::empty(),
        })
    }
}

/// Snapshot of every player's position, in entity-index order.
pub fn players_positions(
    players: &Storage<Player>,
    rigid_bodies: &Storage<RigidBody>,
    phys: &PhysicWorld,
) -> (r: Vec<Vec2>)
    requires
        bodies_wf(*phys),
        forall|i: int| (#[trigger] rigid_bodies.at(i)) matches Some(rb)
            ==> phys.has_body(rb.0 as int),
    ensures
        r@ == player_positions_spec(
            *players,
            *rigid_bodies,
            *phys,
            players.data@.len() as int,
        ),
        forall|k: int| 0 <= k < r@.len() ==> (#[trigger] r@[k]).wf()
            && is_player_position(r@[k], *players, *rigid_bodies, *phys),
{
    let n = players.data.len();
    let mut r: Vec<Vec2> = Vec::new();
    let mut i: usize = 0;
    while i < n
        invariant
            i <= n,
            n == players.data@.len(),
            bodies_wf(*phys),
            forall|k: int| (#[trigger] rigid_bodies.at(k)) matches Some(rb)
                ==> phys.has_body(rb.0 as int),
            r@ == player_positions_spec(*players, *rigid_bodies, *phys, i as int),
            forall|k: int| 0 <= k < r@.len() ==> (#[trigger] r@[k]).wf()
                && is_player_position(r@[k], *players, *rigid_bodies, *phys),
        decreases n - i,
    {
        let ghost pre = r@;
        if players.contains(i) && rigid_bodies.contains(i) {
            let rb = match rigid_bodies.get(i) {
                Some(rb) => *rb,
                None => vstd::pervasive::unreached(),
            };
            let p = phys.position(rb.0).translation;
            proof {
                assert(phys.body_at(rb.0 as int) matches Some(b) && b.wf());
                assert(is_player_position(p, *players, *rigid_bodies, *phys));
            }
            r.push(p);
            proof {
                assert(r@ =~= player_positions_spec(
                    *players,
                    *rigid_bodies,
                    *phys,
                    i + 1 as int,
                ));
            }
        } else {
            proof {
                assert(pre + Seq::<Vec2>::empty() =~= pre);
                assert(r@ =~= player_positions_spec(
                    *players,
                    *rigid_bodies,
                    *phys,
                    i + 1 as int,
                ));
            }
        }
        i = i + 1;
    }
    r
}

/// `p` is the first element of `list` with the smallest distance key
/// from `from`.
pub open spec fn first_nearest(list: Seq<Vec2>, from: Vec2, p: Vec2) -> bool {
    exists|k: int| {
        &&& 0 <= k < list.len() && p == #[trigger] list[k]
        &&& forall|k2: int| 0 <= k2 < list.len()
            ==> dist_key(#[trigger] list[k2], from) >= dist_key(p, from)
        &&& forall|k2: int| 0 <= k2 < k ==> dist_key(#[trigger] list[k2], from) > dist_key(p, from)
    }
}

/// The list element closest to `from` under the fixed-precision key; the
/// first among equals.
pub fn nearest_position(list: &Vec<Vec2>, from: Vec2) -> (r: Option<Vec2>)
    requires
        from.wf(),
        forall|k: int| 0 <= k < list@.len() ==> (#[trigger] list@[k]).wf(),
    ensures
        match r {
            Some(p) => first_nearest(list@, from, p),
            None => list@.len() == 0,
        },
{
    let n = list.len();
    if n == 0 {
        return None;
    }
    let mut best: usize = 0;
    let mut best_key: i64 = dist_key_of(list[0], from);
    let mut k: usize = 1;
    while k < n
        invariant
            n == list@.len(),
            best < k <= n,
            from.wf(),
            forall|k2: int| 0 <= k2 < list@.len() ==> (#[trigger] list@[k2]).wf(),
            best_key == dist_key(list@[best as int], from),
            forall|k2: int| 0 <= k2 < k ==> dist_key(#[trigger] list@[k2], from) >= best_key,
            forall|k2: int| 0 <= k2 < best ==> dist_key(#[trigger] list@[k2], from) > best_key,
        decreases n - k,
    {
        let key = dist_key_of(list[k], from);
        if key < best_key {
            best = k;
            best_key = key;
        }
        k = k + 1;
    }
    Some(list[best])
}

/// Goes to the closest player in sight, or to the last position one was
/// seen at.
pub struct VelocityToPlayerMemorySystem;

impl VelocityToPlayerMemorySystem {
    /// One frame of the memory chase, over every entity holding the
    /// controller, a body and activators.  Only velocities are written to
    /// the physics world.
    pub fn run(
        players: &Storage<Player>,
        activators: &Storage<Activators>,
        rigid_bodies: &Storage<RigidBody>,
        vtpms: &mut Storage<VelocityToPlayerMemory>,
        sights: &Storage<Sight>,
        bodies_map: &BodiesMap,
        physic_world: &mut PhysicWorld,
    )
        requires
            memory_inputs_ok(
                *old(vtpms),
                *activators,
                *rigid_bodies,
                *sights,
                *bodies_map,
                *old(physic_world),
            ),
        ensures
            only_velocities_written(*old(physic_world), *final(physic_world)),
            forall|i: int| match (old(vtpms).at(i), rigid_bodies.at(i), activators.at(i)) {
                (Some(m), Some(rb), Some(acts)) => memory_entity_done(
                    m,
                    #[trigger] final(vtpms).at(i),
                    acts.0@[m.activator as int].activated,
                    sights.at(i),
                    old(physic_world).body_at(rb.0 as int).unwrap().position.translation,
                    *players,
                    *bodies_map,
                    *old(physic_world),
                    final(physic_world).body_at(rb.0 as int).unwrap().velocity,
                ),
                _ => final(vtpms).at(i) == old(vtpms).at(i),
            },
    {
        let n = vtpms.data.len();
        let mut i: usize = 0;
        while i < n
            invariant
                i <= n,
                n == vtpms.data@.len(),
                memory_inputs_ok(
                    *vtpms,
                    *activators,
                    *rigid_bodies,
                    *sights,
                    *bodies_map,
                    *physic_world,
                ),
                only_velocities_written(*old(physic_world), *physic_world),
                forall|k: int| i <= k ==> #[trigger] vtpms.at(k) == old(vtpms).at(k),
                forall|k: int| 0 <= k < i ==> match (
                    old(vtpms).at(k),
                    rigid_bodies.at(k),
                    activators.at(k),
                ) {
                    (Some(m), Some(rb), Some(acts)) => memory_entity_done(
                        m,
                        #[trigger] vtpms.at(k),
                        acts.0@[m.activator as int].activated,
                        sights.at(k),
                        old(physic_world).body_at(rb.0 as int).unwrap().position.translation,
                        *players,
                        *bodies_map,
                        *old(physic_world),
                        physic_world.body_at(rb.0 as int).unwrap().velocity,
                    ),
                    _ => vtpms.at(k) == old(vtpms).at(k),
                },
            decreases n - i,
        {
            let has_all = vtpms.contains(i) && rigid_bodies.contains(i) && activators.contains(i);
            if has_all {
                let taken = vtpms.take(i);
                let mut m = match taken {
                    Some(m) => m,
                    None => vstd::pervasive::unreached(),
                };
                let ghost m_pre = m;
                let rb = match rigid_bodies.get(i) {
                    Some(rb) => *rb,
                    None => vstd::pervasive::unreached(),
                };
                let acts = match activators.get(i) {
                    Some(acts) => acts,
                    None => vstd::pervasive::unreached(),
                };
                let gate = acts.0[m.activator].activated;
                let position = physic_world.position(rb.0).translation;
                let closest = match sights.get(i) {
                    Some(s) => closest_in_sight(s, players, bodies_map, physic_world),
                    None => None,
                };
                proof {
                    assert(sight_result(
                        sights.at(i as int),
                        closest,
                        *players,
                        *bodies_map,
                        *physic_world,
                    ));
                }
                let ghost mid = *physic_world;
                let vel = memory_step(&mut m, gate, closest, position);
                physic_world.set_velocity(rb.0, vel, 0);
                vtpms.insert(i, m);
                proof {
                    lemma_sight_result_stable(
                        sights.at(i as int),
                        closest,
                        *players,
                        *bodies_map,
                        *old(physic_world),
                        mid,
                    );
                    assert(old(physic_world).body_at(rb.0 as int).unwrap().position
                        == physic_world.body_at(rb.0 as int).unwrap().position);
                    assert(memory_entity_done(
                        m_pre,
                        vtpms.at(i as int),
                        gate,
                        sights.at(i as int),
                        old(physic_world).body_at(rb.0 as int).unwrap().position.translation,
                        *players,
                        *bodies_map,
                        *old(physic_world),
                        physic_world.body_at(rb.0 as int).unwrap().velocity,
                    ));
                }
            }
            i = i + 1;
        }
    }
}

/// The orbit direction after an activation or a contact flips it.
pub open spec fn orbit_flip(dir_shift: bool, contact: bool, gate: bool) -> bool {
    if contact || gate {
        !dir_shift
    } else {
        dir_shift
    }
}

/// The velocity the circle strafe commits toward a player at `(dx, dy)`:
/// a direct component along the line to the player plus a perpendicular
/// one whose sign the flip state sets, both scaled to the direct speed.
pub open spec fn circle_cmd(dx: int, dy: int, v: int, flipped: bool) -> Vec2 {
    let n = crate::math::norm_floor(dx, dy);
    let direct_x = div_trunc(dx * v, n);
    let direct_y = div_trunc(dy * v, n);
    let orth_x = if flipped {
        div_trunc(-dy * v, n)
    } else {
        div_trunc(dy * v, n)
    };
    let orth_y = if flipped {
        div_trunc(dx * v, n)
    } else {
        div_trunc(-dx * v, n)
    };
    Vec2 { x: (direct_x + orth_x) as i64, y: (direct_y + orth_y) as i64 }
}

/// One circle-strafe step for one entity: flips the orbit on activation
/// or contact, then orbits the nearest player.  `None` where no player
/// gives a direction, which commits nothing.
pub fn circle_step(
    c: &mut VelocityToPlayerCircle,
    contact: bool,
    gate: bool,
    nearest: Option<Vec2>,
    position: Vec2,
) -> (r: Option<Vec2>)
    requires
        speed_wf(old(c).direct_velocity),
        position.wf(),
        nearest matches Some(p) ==> p.wf(),
    ensures
        *final(c) == (VelocityToPlayerCircle {
            dir_shift: orbit_flip(old(c).dir_shift, contact, gate),
            ..*old(c)
        }),
        match nearest {
            None => r is None,
            Some(p) => {
                let dx = p.x - position.x;
                let dy = p.y - position.y;
                if crate::math::norm_floor(dx, dy) == 0 {
                    r is None
                } else {
                    r == Some(circle_cmd(dx, dy, old(c).direct_velocity as int, final(c).dir_shift))
                }
            },
        },
        r matches Some(v) ==> -2 * COORD_LIMIT <= v.x <= 2 * COORD_LIMIT && -2 * COORD_LIMIT
            <= v.y <= 2 * COORD_LIMIT,
{
    if contact || gate {
        c.dir_shift = !c.dir_shift;
    }
    match nearest {
        None => None,
        Some(p) => {
            let d = p.minus(position);
            let n = d.norm();
            proof {
                crate::math::lemma_norm_floor(p.x - position.x, p.y - position.y, n as int);
            }
            if n == 0 {
                None
            } else {
                proof {
                    assert(crate::math::is_norm_of(-d.y as int, d.x as int, n as int)
                        && crate::math::is_norm_of(d.y as int, -d.x as int, n as int))
                        by (nonlinear_arith)
                        requires
                            crate::math::is_norm_of(d.x as int, d.y as int, n as int),
                    ;
                }
                let direct = scale_by(d.x, d.y, c.direct_velocity, n);
                let orth = if c.dir_shift {
                    scale_by(-d.y, d.x, c.direct_velocity, n)
                } else {
                    scale_by(d.y, -d.x, c.direct_velocity, n)
                };
                Some(Vec2 { x: direct.x + orth.x, y: direct.y + orth.y })
            }
        },
    }
}

/// The sounds the circle strafe plays below index slot `upto`: one
/// (activator sound, entity position) pair per flipped entity, in
/// entity-index order.
pub open spec fn circle_sound_list(
    circles: Storage<VelocityToPlayerCircle>,
    rigid_bodies: Storage<RigidBody>,
    activators: Storage<Activators>,
    contactors: Storage<Contactor>,
    phys: PhysicWorld,
    upto: int,
) -> Seq<(usize, Vec2)>
    decreases upto,
{
    if upto <= 0 {
        Seq::empty()
    } else {
        circle_sound_list(circles, rigid_bodies, activators, contactors, phys, upto - 1)
            + (match (circles.at(upto - 1), rigid_bodies.at(upto - 1), activators.at(upto - 1),
            contactors.at(upto - 1)) {
            (Some(c), Some(rb), Some(acts), Some(contactor)) => if contactor.0@.len() > 0
                || acts.0@[c.activator as int].activated {
                seq![
                    (
                        acts.0@[c.activator as int].sound,
                        phys.body_at(rb.0 as int).unwrap().position.translation,
                    ),
                ]
            } else {
                Seq::empty()
            },
            _ => Seq::empty(),
        })
    }
}

/// Orbits the nearest player, flipping its turning sense on activation
/// or contact, and plays the activator's sound when it flips.
pub struct VelocityToPlayerCircleSystem;

impl VelocityToPlayerCircleSystem {
    /// One frame of the circle strafe.  Returns the sounds to play:
    /// fire-and-forget commands for the audio collaborator, one per
    /// flipped entity, in entity-index order.
    pub fn run(
        players: &Storage<Player>,
        rigid_bodies: &Storage<RigidBody>,
        activators: &Storage<Activators>,
        contactors: &Storage<Contactor>,
        circles: &mut Storage<VelocityToPlayerCircle>,
        physic_world: &mut PhysicWorld,
    ) -> (sounds: Vec<(usize, Vec2)>)
        requires
            bodies_wf(*old(physic_world)),
            forall|i: int| (#[trigger] rigid_bodies.at(i)) matches Some(rb)
                ==> old(physic_world).has_body(rb.0 as int),
            forall|i: int, j: int| i != j
                ==> match (#[trigger] rigid_bodies.at(i), #[trigger] rigid_bodies.at(j)) {
                    (Some(a), Some(b)) => a.0 != b.0,
                    _ => true,
                },
            forall|i: int| (#[trigger] old(circles).at(i)) matches Some(c) ==> {
                &&& speed_wf(c.direct_velocity)
                &&& (activators.at(i) matches Some(acts) ==> c.activator < acts.0@.len())
            },
        ensures
            only_velocities_written(*old(physic_world), *final(physic_world)),
            forall|i: int| match (old(circles).at(i), rigid_bodies.at(i), activators.at(i),
                contactors.at(i)) {
                (Some(c), Some(rb), Some(acts), Some(contactor)) => {
                    (#[trigger] final(circles).at(i)) matches Some(c2)
                        && c2 == (VelocityToPlayerCircle {
                        dir_shift: orbit_flip(
                            c.dir_shift,
                            contactor.0@.len() > 0,
                            acts.0@[c.activator as int].activated,
                        ),
                        ..c
                    })
                },
                _ => final(circles).at(i) == old(circles).at(i),
            },
            // the committed velocity orbits the first nearest player; a
            // frame without a usable direction leaves the body untouched
            forall|i: int| match (old(circles).at(i), #[trigger] rigid_bodies.at(i),
                activators.at(i), contactors.at(i)) {
                (Some(c), Some(rb), Some(acts), Some(contactor)) => {
                    let list = player_positions_spec(
                        *players,
                        *rigid_bodies,
                        *old(physic_world),
                        players.data@.len() as int,
                    );
                    let position = old(physic_world).body_at(
                        rb.0 as int,
                    ).unwrap().position.translation;
                    let flipped = orbit_flip(
                        c.dir_shift,
                        contactor.0@.len() > 0,
                        acts.0@[c.activator as int].activated,
                    );
                    if list.len() == 0 {
                        final(physic_world).body_at(rb.0 as int) == old(physic_world).body_at(
                            rb.0 as int,
                        )
                    } else {
                        exists|p: Vec2| #[trigger] first_nearest(list, position, p) && {
                            let dx = p.x - position.x;
                            let dy = p.y - position.y;
                            if crate::math::norm_floor(dx, dy) == 0 {
                                final(physic_world).body_at(rb.0 as int) == old(
                                    physic_world,
                                ).body_at(rb.0 as int)
                            } else {
                                final(physic_world).body_at(rb.0 as int) matches Some(b)
                                    && b.velocity == circle_cmd(
                                    dx,
                                    dy,
                                    c.direct_velocity as int,
                                    flipped,
                                ) && b.angular_velocity == 0
                            }
                        }
                    }
                },
                _ => true,
            },
            sounds@ == circle_sound_list(
                *old(circles),
                *rigid_bodies,
                *activators,
                *contactors,
                *old(physic_world),
                old(circles).data@.len() as int,
            ),
    {
        let mut sounds: Vec<(usize, Vec2)> = Vec::new();
        let positions = players_positions(players, rigid_bodies, physic_world);
        let n = circles.data.len();
        let mut i: usize = 0;
        while i < n
            invariant
                i <= n,
                n == circles.data@.len() == old(circles).data@.len(),
                bodies_wf(*physic_world),
                positions@ == player_positions_spec(
                    *players,
                    *rigid_bodies,
                    *old(physic_world),
                    players.data@.len() as int,
                ),
                forall|k: int| 0 <= k < positions@.len() ==> (#[trigger] positions@[k]).wf(),
                forall|k: int| (#[trigger] rigid_bodies.at(k)) matches Some(rb)
                    ==> physic_world.has_body(rb.0 as int),
                forall|k: int, j: int| k != j
                    ==> match (#[trigger] rigid_bodies.at(k), #[trigger] rigid_bodies.at(j)) {
                        (Some(a), Some(b)) => a.0 != b.0,
                        _ => true,
                    },
                forall|k: int| (#[trigger] circles.at(k)) matches Some(c) ==> {
                    &&& speed_wf(c.direct_velocity)
                    &&& (activators.at(k) matches Some(acts) ==> c.activator < acts.0@.len())
                },
                only_velocities_written(*old(physic_world), *physic_world),
                forall|k: int| i <= k ==> #[trigger] circles.at(k) == old(circles).at(k),
                forall|k: int| i <= k ==> ((#[trigger] rigid_bodies.at(k)) matches Some(rb)
                    ==> physic_world.body_at(rb.0 as int) == old(physic_world).body_at(
                    rb.0 as int,
                )),
                forall|k: int| 0 <= k < i ==> match (old(circles).at(k), rigid_bodies.at(k),
                    activators.at(k), contactors.at(k)) {
                    (Some(c), Some(rb), Some(acts), Some(contactor)) => {
                        (#[trigger] circles.at(k)) matches Some(c2)
                            && c2 == (VelocityToPlayerCircle {
                            dir_shift: orbit_flip(
                                c.dir_shift,
                                contactor.0@.len() > 0,
                                acts.0@[c.activator as int].activated,
                            ),
                            ..c
                        })
                    },
                    _ => circles.at(k) == old(circles).at(k),
                },
                forall|k: int| 0 <= k < i ==> match (old(circles).at(k),
                    #[trigger] rigid_bodies.at(k), activators.at(k), contactors.at(k)) {
                    (Some(c), Some(rb), Some(acts), Some(contactor)) => {
                        let list = player_positions_spec(
                            *players,
                            *rigid_bodies,
                            *old(physic_world),
                            players.data@.len() as int,
                        );
                        let position = old(physic_world).body_at(
                            rb.0 as int,
                        ).unwrap().position.translation;
                        let flipped = orbit_flip(
                            c.dir_shift,
                            contactor.0@.len() > 0,
                            acts.0@[c.activator as int].activated,
                        );
                        if list.len() == 0 {
                            physic_world.body_at(rb.0 as int) == old(physic_world).body_at(
                                rb.0 as int,
                            )
                        } else {
                            exists|p: Vec2| #[trigger] first_nearest(list, position, p) && {
                                let dx = p.x - position.x;
                                let dy = p.y - position.y;
                                if crate::math::norm_floor(dx, dy) == 0 {
                                    physic_world.body_at(rb.0 as int) == old(
                                        physic_world,
                                    ).body_at(rb.0 as int)
                                } else {
                                    physic_world.body_at(rb.0 as int) matches Some(b)
                                        && b.velocity == circle_cmd(
                                        dx,
                                        dy,
                                        c.direct_velocity as int,
                                        flipped,
                                    ) && b.angular_velocity == 0
                                }
                            }
                        }
                    },
                    _ => true,
                },
                sounds@ == circle_sound_list(
                    *old(circles),
                    *rigid_bodies,
                    *activators,
                    *contactors,
                    *old(physic_world),
                    i as int,
                ),
            decreases n - i,
        {
            let ghost pre_sounds = sounds@;
            let has_all = circles.contains(i) && rigid_bodies.contains(i)
                && activators.contains(i) && contactors.contains(i);
            if has_all {
                let taken = circles.take(i);
                let mut c = match taken {
                    Some(c) => c,
                    None => vstd::pervasive::unreached(),
                };
                let rb = match rigid_bodies.get(i) {
                    Some(rb) => *rb,
                    None => vstd::pervasive::unreached(),
                };
                let acts = match activators.get(i) {
                    Some(acts) => acts,
                    None => vstd::pervasive::unreached(),
                };
                let contact = match contactors.get(i) {
                    Some(contactor) => contactor.0.len() > 0,
                    None => vstd::pervasive::unreached(),
                };
                let gate = acts.0[c.activator].activated;
                let position = physic_world.position(rb.0).translation;
                proof {
                    assert(physic_world.body_at(rb.0 as int) == old(physic_world).body_at(
                        rb.0 as int,
                    ));
                }
                if contact || gate {
                    sounds.push((acts.0[c.activator].sound, position));
                }
                proof {
                    assert(physic_world.body_at(rb.0 as int) matches Some(b) && b.wf());
                    assert(sounds@ =~= circle_sound_list(
                        *old(circles),
                        *rigid_bodies,
                        *activators,
                        *contactors,
                        *old(physic_world),
                        i + 1 as int,
                    ));
                }
                let nearest = nearest_position(&positions, position);
                let vel = circle_step(&mut c, contact, gate, nearest, position);
                match vel {
                    Some(v) => {
                        physic_world.set_velocity(rb.0, v, 0);
                    },
                    None => {},
                }
                circles.insert(i, c);
            } else {
                proof {
                    assert(pre_sounds + Seq::<(usize, Vec2)>::empty() =~= pre_sounds);
                    assert(sounds@ =~= circle_sound_list(
                        *old(circles),
                        *rigid_bodies,
                        *activators,
                        *contactors,
                        *old(physic_world),
                        i + 1 as int,
                    ));
                }
            }
            i = i + 1;
        }
        sounds
    }
}

/// Writes the player-input direction, scaled to the configured speed.
pub struct VelocityControlSystem;

impl VelocityControlSystem {
    /// One frame of input-driven movement: every entity holding a
    /// velocity control and a body gets its direction, read as a
    /// `SCALE`-scaled unit vector, committed at the configured speed.
    pub fn run(
        controls: &Storage<VelocityControl>,
        rigid_bodies: &Storage<RigidBody>,
        physic_world: &mut PhysicWorld,
    )
        requires
            forall|i: int| (#[trigger] rigid_bodies.at(i)) matches Some(rb)
                ==> old(physic_world).has_body(rb.0 as int),
            forall|i: int, j: int| i != j
                ==> match (#[trigger] rigid_bodies.at(i), #[trigger] rigid_bodies.at(j)) {
                    (Some(a), Some(b)) => a.0 != b.0,
                    _ => true,
                },
            forall|i: int| (#[trigger] controls.at(i)) matches Some(c) ==> {
                &&& speed_wf(c.velocity)
                &&& -SCALE <= c.direction.x <= SCALE
                &&& -SCALE <= c.direction.y <= SCALE
            },
        ensures
            only_velocities_written(*old(physic_world), *final(physic_world)),
            forall|i: int| match (controls.at(i), #[trigger] rigid_bodies.at(i)) {
                (Some(c), Some(rb)) => final(physic_world).body_at(rb.0 as int) matches Some(b)
                    && b.velocity == (Vec2 {
                    x: div_trunc(c.direction.x * c.velocity, SCALE as int) as i64,
                    y: div_trunc(c.direction.y * c.velocity, SCALE as int) as i64,
                }),
                _ => true,
            },
    {
        let n = controls.data.len();
        let mut i: usize = 0;
        while i < n
            invariant
                i <= n,
                n == controls.data@.len(),
                forall|k: int| (#[trigger] rigid_bodies.at(k)) matches Some(rb)
                    ==> physic_world.has_body(rb.0 as int),
                forall|k: int| (#[trigger] controls.at(k)) matches Some(c) ==> {
                    &&& speed_wf(c.velocity)
                    &&& -SCALE <= c.direction.x <= SCALE
                    &&& -SCALE <= c.direction.y <= SCALE
                },
                forall|k: int, j: int| k != j
                    ==> match (#[trigger] rigid_bodies.at(k), #[trigger] rigid_bodies.at(j)) {
                        (Some(a), Some(b)) => a.0 != b.0,
                        _ => true,
                    },
                only_velocities_written(*old(physic_world), *physic_world),
                forall|k: int| 0 <= k < i ==> match (controls.at(k), #[trigger] rigid_bodies.at(
                    k,
                )) {
                    (Some(c), Some(rb)) => physic_world.body_at(rb.0 as int) matches Some(b)
                        && b.velocity == (Vec2 {
                        x: div_trunc(c.direction.x * c.velocity, SCALE as int) as i64,
                        y: div_trunc(c.direction.y * c.velocity, SCALE as int) as i64,
                    }),
                    _ => true,
                },
            decreases n - i,
        {
            if controls.contains(i) && rigid_bodies.contains(i) {
                let c = match controls.get(i) {
                    Some(c) => *c,
                    None => vstd::pervasive::unreached(),
                };
                let rb = match rigid_bodies.get(i) {
                    Some(rb) => *rb,
                    None => vstd::pervasive::unreached(),
                };
                assert(-0x4000_0000_0000_0000 <= c.direction.x * c.velocity
                    <= 0x4000_0000_0000_0000 && -0x4000_0000_0000_0000 <= c.direction.y
                    * c.velocity <= 0x4000_0000_0000_0000) by (nonlinear_arith)
                    requires
                        -SCALE <= c.direction.x <= SCALE,
                        -SCALE <= c.direction.y <= SCALE,
                        0 <= c.velocity <= COORD_LIMIT,
                ;
                let vx = mul_div_trunc(c.direction.x, c.velocity, SCALE);
                let vy = mul_div_trunc(c.direction.y, c.velocity, SCALE);
                physic_world.set_velocity(rb.0, Vec2 { x: vx, y: vy }, 0);
            }
            i = i + 1;
        }
    }
}

/// The first measured target of an entity, where one was measured.
pub open spec fn first_target(t: Option<crate::spawner::Targets>) -> Option<
    crate::spawner::TargetInfo,
> {
    match t {
        Some(targets) => if targets.0@.len() > 0 {
            Some(targets.0@[0])
        } else {
            None
        },
        None => None,
    }
}

/// A value on the unit square scaled by a weight stays on it.
proof fn lemma_scaled_bounds(a: int, w: int)
    requires
        -SCALE <= a <= SCALE,
        0 <= w <= SCALE,
    ensures
        -SCALE <= div_trunc(a * w, SCALE as int) <= SCALE,
{
    assert(-(SCALE as int) * SCALE <= a * w <= (SCALE as int) * SCALE) by (nonlinear_arith)
        requires
            -SCALE <= a <= SCALE,
            0 <= w <= SCALE,
    ;
    crate::math::lemma_div_trunc_ordered(a * w, (SCALE as int) * SCALE, SCALE as int);
    crate::math::lemma_div_trunc_ordered(-((SCALE as int) * SCALE), a * w, SCALE as int);
    vstd::arithmetic::div_mod::lemma_div_by_multiple(SCALE as int, SCALE as int);
    vstd::arithmetic::mul::lemma_mul_is_commutative(SCALE as int, SCALE as int);
    vstd::arithmetic::mul::lemma_mul_unary_negation(SCALE as int, SCALE as int);
}

/// A pair of uniform draws on the unit square.
pub open spec fn drawn_pair(rx: int, ry: int) -> bool {
    -SCALE <= rx <= SCALE && -SCALE <= ry <= SCALE
}

/// What holds of a wanderer's fresh direction for every outcome of the
/// draws: it is a unit-square draw, or — when the controller chases and a
/// measured player stands at a positive distance — the direction toward
/// that player at the scale, with the optionally weighted draw on top.
pub open spec fn random_outcome(
    pre: crate::component::VelocityToPlayerRandom,
    dir: Vec2,
    target: Option<crate::spawner::TargetInfo>,
    position: Vec2,
) -> bool {
    exists|rx: int, ry: int| {
        &&& #[trigger] drawn_pair(rx, ry)
        &&& {
            ||| dir == (Vec2 { x: rx as i64, y: ry as i64 })
            ||| (target matches Some(ti) && pre.toward_player && {
                let dx = ti.position.x - position.x;
                let dy = ti.position.y - position.y;
                let n = crate::math::norm_floor(dx, dy);
                n > 0 && {
                    let tx = div_trunc(dx * SCALE, n);
                    let ty = div_trunc(dy * SCALE, n);
                    match pre.random_weighted {
                        Some(w) => dir == (Vec2 {
                            x: (tx + div_trunc(rx * w, SCALE as int)) as i64,
                            y: (ty + div_trunc(ry * w, SCALE as int)) as i64,
                        }),
                        None => dir == (Vec2 { x: tx as i64, y: ty as i64 }),
                    }
                }
            })
        }
    }
}

/// The velocity a wanderer commits: its stored direction normalized to
/// the configured speed, or zero for a degenerate direction.
pub open spec fn wander_velocity(dir: Vec2, speed: int) -> Vec2 {
    let n = crate::math::norm_floor(dir.x as int, dir.y as int);
    if n == 0 {
        Vec2 { x: 0, y: 0 }
    } else {
        Vec2 {
            x: div_trunc(dir.x * speed, n) as i64,
            y: div_trunc(dir.y * speed, n) as i64,
        }
    }
}

/// Wanders in random directions, or toward the closest player in sight,
/// the mix shaped by distance and aim probability curves.
pub struct VelocityToPlayerRandomSystem;

impl VelocityToPlayerRandomSystem {
    /// One frame of the random wanderer.  On activation the controller
    /// picks a fresh direction — toward the first measured player when a
    /// draw against the curves' product allows it and the controller
    /// chases, otherwise a uniform unit-square draw, optionally weighted
    /// on top of the chase — and every frame the stored direction is
    /// committed at the configured speed.  Everything but the direction
    /// is preserved; only velocities are written.
    pub fn run(
        rigid_bodies: &Storage<RigidBody>,
        activators: &Storage<Activators>,
        randoms: &mut Storage<crate::component::VelocityToPlayerRandom>,
        targets: &Storage<crate::spawner::Targets>,
        physic_world: &mut PhysicWorld,
        exact_aim_angle: bool,
    )
        requires
            bodies_wf(*old(physic_world)),
            forall|i: int| (#[trigger] rigid_bodies.at(i)) matches Some(rb)
                ==> old(physic_world).has_body(rb.0 as int),
            forall|i: int, j: int| i != j
                ==> match (#[trigger] rigid_bodies.at(i), #[trigger] rigid_bodies.at(j)) {
                    (Some(a), Some(b)) => a.0 != b.0,
                    _ => true,
                },
            forall|i: int| (#[trigger] old(randoms).at(i)) matches Some(r) ==> {
                &&& speed_wf(r.velocity)
                &&& -2 * SCALE <= r.current_direction.x <= 2 * SCALE
                &&& -2 * SCALE <= r.current_direction.y <= 2 * SCALE
                &&& (r.random_weighted matches Some(w) ==> 0 <= w <= SCALE)
                &&& r.dist_proba_clamp.wf() && 0 <= r.dist_proba_clamp.lo()
                    && r.dist_proba_clamp.hi() <= SCALE
                &&& r.aim_proba_clamp.wf() && 0 <= r.aim_proba_clamp.lo()
                    && r.aim_proba_clamp.hi() <= SCALE
                &&& (activators.at(i) matches Some(acts) ==> r.activator < acts.0@.len())
            },
            forall|i: int| (#[trigger] targets.at(i)) matches Some(t) ==> {
                forall|k: int| 0 <= k < t.0@.len() ==> {
                    let ti = #[trigger] t.0@[k];
                    &&& ti.position.wf()
                    &&& -COORD_LIMIT <= ti.angle_from_player - ti.aim <= COORD_LIMIT
                }
            },
        ensures
            only_velocities_written(*old(physic_world), *final(physic_world)),
            forall|i: int| match (#[trigger] old(randoms).at(i), rigid_bodies.at(i),
                activators.at(i)) {
                (Some(r), Some(rb), Some(acts)) => final(randoms).at(i) matches Some(r2) && {
                    &&& r2.activator == r.activator
                    &&& r2.random_weighted == r.random_weighted
                    &&& r2.dist_proba_clamp == r.dist_proba_clamp
                    &&& r2.aim_proba_clamp == r.aim_proba_clamp
                    &&& r2.velocity == r.velocity
                    &&& r2.toward_player == r.toward_player
                    &&& -2 * SCALE <= r2.current_direction.x <= 2 * SCALE
                    &&& -2 * SCALE <= r2.current_direction.y <= 2 * SCALE
                    // activation replaces the direction by a drawn one;
                    // without it the direction stands
                    &&& (acts.0@[r.activator as int].activated ==> random_outcome(
                        r,
                        r2.current_direction,
                        first_target(targets.at(i)),
                        old(physic_world).body_at(rb.0 as int).unwrap().position.translation,
                    ))
                    &&& (!acts.0@[r.activator as int].activated
                        ==> r2.current_direction == r.current_direction)
                    // the committed velocity follows the stored direction
                    &&& final(physic_world).body_at(rb.0 as int) matches Some(b) && b.velocity
                        == wander_velocity(r2.current_direction, r.velocity as int)
                        && b.angular_velocity == 0
                },
                (Some(_), _, _) => final(randoms).at(i) == old(randoms).at(i),
                _ => final(randoms).at(i) == old(randoms).at(i),
            },
    {
        let n = randoms.data.len();
        let mut i: usize = 0;
        while i < n
            invariant
                i <= n,
                n == randoms.data@.len(),
                bodies_wf(*physic_world),
                forall|k: int| (#[trigger] rigid_bodies.at(k)) matches Some(rb)
                    ==> physic_world.has_body(rb.0 as int),
                forall|k: int, j: int| k != j
                    ==> match (#[trigger] rigid_bodies.at(k), #[trigger] rigid_bodies.at(j)) {
                        (Some(a), Some(b)) => a.0 != b.0,
                        _ => true,
                    },
                forall|k: int| (#[trigger] randoms.at(k)) matches Some(r) ==> {
                    &&& speed_wf(r.velocity)
                    &&& -2 * SCALE <= r.current_direction.x <= 2 * SCALE
                    &&& -2 * SCALE <= r.current_direction.y <= 2 * SCALE
                    &&& (r.random_weighted matches Some(w) ==> 0 <= w <= SCALE)
                    &&& r.dist_proba_clamp.wf() && 0 <= r.dist_proba_clamp.lo()
                        && r.dist_proba_clamp.hi() <= SCALE
                    &&& r.aim_proba_clamp.wf() && 0 <= r.aim_proba_clamp.lo()
                        && r.aim_proba_clamp.hi() <= SCALE
                    &&& (activators.at(k) matches Some(acts) ==> r.activator < acts.0@.len())
                },
                forall|k: int| (#[trigger] targets.at(k)) matches Some(t) ==> {
                    forall|k2: int| 0 <= k2 < t.0@.len() ==> {
                        let ti = #[trigger] t.0@[k2];
                        &&& ti.position.wf()
                        &&& -COORD_LIMIT <= ti.angle_from_player - ti.aim <= COORD_LIMIT
                    }
                },
                only_velocities_written(*old(physic_world), *physic_world),
                forall|k: int| i <= k ==> #[trigger] randoms.at(k) == old(randoms).at(k),
                forall|k: int| i <= k ==> ((#[trigger] rigid_bodies.at(k)) matches Some(rb)
                    ==> physic_world.body_at(rb.0 as int) == old(physic_world).body_at(
                    rb.0 as int,
                )),
                forall|k: int| 0 <= k < i ==> match (#[trigger] old(randoms).at(k),
                    rigid_bodies.at(k), activators.at(k)) {
                    (Some(r), Some(rb), Some(acts)) => randoms.at(k) matches Some(r2) && {
                        &&& r2.activator == r.activator
                        &&& r2.random_weighted == r.random_weighted
                        &&& r2.dist_proba_clamp == r.dist_proba_clamp
                        &&& r2.aim_proba_clamp == r.aim_proba_clamp
                        &&& r2.velocity == r.velocity
                        &&& r2.toward_player == r.toward_player
                        &&& -2 * SCALE <= r2.current_direction.x <= 2 * SCALE
                        &&& -2 * SCALE <= r2.current_direction.y <= 2 * SCALE
                        &&& (acts.0@[r.activator as int].activated ==> random_outcome(
                            r,
                            r2.current_direction,
                            first_target(targets.at(k)),
                            old(physic_world).body_at(rb.0 as int).unwrap().position.translation,
                        ))
                        &&& (!acts.0@[r.activator as int].activated
                            ==> r2.current_direction == r.current_direction)
                        &&& physic_world.body_at(rb.0 as int) matches Some(b) && b.velocity
                            == wander_velocity(r2.current_direction, r.velocity as int)
                            && b.angular_velocity == 0
                    },
                    (Some(_), _, _) => randoms.at(k) == old(randoms).at(k),
                    _ => randoms.at(k) == old(randoms).at(k),
                },
            decreases n - i,
        {
            if randoms.contains(i) && rigid_bodies.contains(i) && activators.contains(i) {
                let taken = randoms.take(i);
                let mut r = match taken {
                    Some(r) => r,
                    None => vstd::pervasive::unreached(),
                };
                let ghost r_pre = r;
                let rb = match rigid_bodies.get(i) {
                    Some(rb) => *rb,
                    None => vstd::pervasive::unreached(),
                };
                let acts = match activators.get(i) {
                    Some(acts) => acts,
                    None => vstd::pervasive::unreached(),
                };
                let gate = acts.0[r.activator].activated;
                let position = physic_world.position(rb.0).translation;
                proof {
                    assert(physic_world.body_at(rb.0 as int) == old(physic_world).body_at(
                        rb.0 as int,
                    ));
                    assert(physic_world.body_at(rb.0 as int) matches Some(b) && b.wf());
                }
                if gate {
                    // a fresh direction: drawn on the unit square, or
                    // toward the measured player when the curves allow
                    let rx = crate::rng::draw_below(2 * SCALE as u64 + 1) as i64 - SCALE;
                    let ry = crate::rng::draw_below(2 * SCALE as u64 + 1) as i64 - SCALE;
                    let mut dir = Vec2 { x: rx, y: ry };
                    proof {
                        assert(drawn_pair(rx as int, ry as int));
                        assert(random_outcome(
                            r_pre,
                            dir,
                            first_target(targets.at(i as int)),
                            position,
                        ));
                    }
                    match targets.get(i) {
                        Some(t) => {
                            if t.0.len() > 0 && r.toward_player {
                                let target = &t.0[0];
                                proof {
                                    assert(targets.at(i as int) matches Some(t2) && t2 == *t);
                                    assert(t.0@[0].position.wf());
                                    assert(-COORD_LIMIT <= t.0@[0].angle_from_player
                                        - t.0@[0].aim <= COORD_LIMIT);
                                }
                                let d = target.position.minus(position);
                                let dist = d.norm();
                                proof {
                                    crate::math::lemma_norm_floor(
                                        target.position.x - position.x,
                                        target.position.y - position.y,
                                        dist as int,
                                    );
                                }
                                let bounded = if dist > COORD_LIMIT {
                                    COORD_LIMIT
                                } else {
                                    dist
                                };
                                let fd = r.dist_proba_clamp.compute(bounded);
                                let offset = angular_distance(
                                    target.angle_from_player - target.aim,
                                    exact_aim_angle,
                                );
                                let fa = r.aim_proba_clamp.compute(offset);
                                proof {
                                    assert(-0x4000_0000_0000_0000 <= fd * fa
                                        <= 0x4000_0000_0000_0000) by (nonlinear_arith)
                                        requires
                                            0 <= fd <= SCALE,
                                            0 <= fa <= SCALE,
                                    ;
                                }
                                let proba = mul_div_trunc(fd, fa, SCALE);
                                let draw = crate::rng::draw_below(SCALE as u64) as i64;
                                if draw <= proba && dist > 0 {
                                    let toward = scale_by(d.x, d.y, SCALE, dist);
                                    match r.random_weighted {
                                        Some(w) => {
                                            proof {
                                                lemma_div_trunc_bounds(
                                                    rx as int * w as int,
                                                    SCALE as int,
                                                );
                                                lemma_div_trunc_bounds(
                                                    ry as int * w as int,
                                                    SCALE as int,
                                                );
                                                assert(-0x4000_0000_0000_0000 <= rx * w
                                                    <= 0x4000_0000_0000_0000
                                                    && -0x4000_0000_0000_0000 <= ry * w
                                                    <= 0x4000_0000_0000_0000)
                                                    by (nonlinear_arith)
                                                    requires
                                                        -SCALE <= rx <= SCALE,
                                                        -SCALE <= ry <= SCALE,
                                                        0 <= w <= SCALE,
                                                ;
                                            }
                                            proof {
                                                lemma_scaled_bounds(rx as int, w as int);
                                                lemma_scaled_bounds(ry as int, w as int);
                                            }
                                            let wx = mul_div_trunc(rx, w, SCALE);
                                            let wy = mul_div_trunc(ry, w, SCALE);
                                            dir = Vec2 { x: toward.x + wx, y: toward.y + wy };
                                        },
                                        None => {
                                            dir = toward;
                                        },
                                    }
                                    proof {
                                        assert(drawn_pair(rx as int, ry as int));
                                        assert(first_target(targets.at(i as int))
                                            == Some(t.0@[0]));
                                        assert(random_outcome(
                                            r_pre,
                                            dir,
                                            first_target(targets.at(i as int)),
                                            position,
                                        ));
                                    }
                                }
                            }
                        },
                        None => {},
                    }
                    proof {
                        assert(-2 * SCALE <= dir.x <= 2 * SCALE && -2 * SCALE <= dir.y
                            <= 2 * SCALE);
                    }
                    r.current_direction = dir;
                }
                // every frame: commit the stored direction at the
                // configured speed
                let d = r.current_direction;
                proof {
                    assert(-2 * SCALE <= d.x <= 2 * SCALE && -2 * SCALE <= d.y <= 2 * SCALE);
                }
                let norm = d.norm();
                proof {
                    crate::math::lemma_norm_floor(d.x as int, d.y as int, norm as int);
                }
                if norm > 0 {
                    let vel = scale_by(d.x, d.y, r.velocity, norm);
                    physic_world.set_velocity(rb.0, vel, 0);
                } else {
                    physic_world.set_velocity(rb.0, Vec2 { x: 0, y: 0 }, 0);
                }
                randoms.insert(i, r);
            }
            i = i + 1;
        }
    }
}

/// Running totals of a flock: the sum and count of the positions of the
/// members of flock `id` below index slot `upto`, the member at `me`
/// excluded.
pub open spec fn flock_sum(
    boids: Storage<crate::component::Boid>,
    rigid_bodies: Storage<RigidBody>,
    phys: PhysicWorld,
    id: int,
    me: int,
    upto: int,
) -> (int, int, int)
    decreases upto,
{
    if upto <= 0 {
        (0, 0, 0)
    } else {
        let rest = flock_sum(boids, rigid_bodies, phys, id, me, upto - 1);
        match (boids.at(upto - 1), rigid_bodies.at(upto - 1)) {
            (Some(b), Some(rb)) => if upto - 1 != me && b.id == id {
                let p = phys.body_at(rb.0 as int).unwrap().position.translation;
                (rest.0 + p.x, rest.1 + p.y, rest.2 + 1)
            } else {
                rest
            },
            _ => rest,
        }
    }
}

/// The velocity a boid with flock-mates commits: toward their centroid,
/// at its speed weighted by its response curve of the capped distance.
pub open spec fn boid_velocity(
    b: crate::component::Boid,
    sx: int,
    sy: int,
    cnt: int,
    position: Vec2,
) -> Option<Vec2> {
    let cx = div_trunc(sx, cnt);
    let cy = div_trunc(sy, cnt);
    let dx = cx - position.x;
    let dy = cy - position.y;
    let dist = crate::math::norm_floor(dx, dy);
    if dist == 0 {
        None
    } else {
        let bounded = if dist > COORD_LIMIT {
            COORD_LIMIT as int
        } else {
            dist
        };
        let speed = div_trunc(b.velocity * b.clamp.compute_spec(bounded), SCALE as int);
        Some(
            Vec2 {
                x: div_trunc(dx * speed, dist) as i64,
                y: div_trunc(dy * speed, dist) as i64,
            },
        )
    }
}

/// Combines flock contributions into one velocity, independent of
/// activation.
pub struct BoidSystem;

impl BoidSystem {
    /// One frame of flocking: every boid with a body heads for the
    /// centroid of the other members of its flock, at its configured
    /// speed weighted by its response curve of the distance.  A boid
    /// alone, or one sitting on the centroid, keeps its velocity.  Only
    /// velocities are written.
    pub fn run(
        boids: &Storage<crate::component::Boid>,
        rigid_bodies: &Storage<RigidBody>,
        physic_world: &mut PhysicWorld,
    )
        requires
            bodies_wf(*old(physic_world)),
            forall|i: int| (#[trigger] rigid_bodies.at(i)) matches Some(rb)
                ==> old(physic_world).has_body(rb.0 as int),
            forall|i: int, j: int| i != j
                ==> match (#[trigger] rigid_bodies.at(i), #[trigger] rigid_bodies.at(j)) {
                    (Some(a), Some(b)) => a.0 != b.0,
                    _ => true,
                },
            forall|i: int| (#[trigger] boids.at(i)) matches Some(b) ==> {
                &&& speed_wf(b.velocity)
                &&& b.clamp.wf() && 0 <= b.clamp.lo() && b.clamp.hi() <= SCALE
            },
            boids.data@.len() <= crate::world::ENTITY_LIMIT,
        ensures
            only_velocities_written(*old(physic_world), *final(physic_world)),
            forall|i: int| match (#[trigger] boids.at(i), rigid_bodies.at(i)) {
                (Some(b), Some(rb)) => {
                    let sums = flock_sum(
                        *boids,
                        *rigid_bodies,
                        *old(physic_world),
                        b.id as int,
                        i,
                        boids.data@.len() as int,
                    );
                    let position = old(physic_world).body_at(
                        rb.0 as int,
                    ).unwrap().position.translation;
                    if sums.2 == 0 {
                        final(physic_world).body_at(rb.0 as int) == old(physic_world).body_at(
                            rb.0 as int,
                        )
                    } else {
                        match boid_velocity(b, sums.0, sums.1, sums.2, position) {
                            Some(v) => final(physic_world).body_at(rb.0 as int)
                                matches Some(bd) && bd.velocity == v
                                && bd.angular_velocity == 0,
                            None => final(physic_world).body_at(rb.0 as int) == old(
                                physic_world,
                            ).body_at(rb.0 as int),
                        }
                    }
                },
                _ => true,
            },
    {
        let n = boids.data.len();
        let mut i: usize = 0;
        while i < n
            invariant
                i <= n,
                n == boids.data@.len() <= crate::world::ENTITY_LIMIT,
                bodies_wf(*physic_world),
                forall|k: int| (#[trigger] rigid_bodies.at(k)) matches Some(rb)
                    ==> physic_world.has_body(rb.0 as int),
                forall|k: int, j: int| k != j
                    ==> match (#[trigger] rigid_bodies.at(k), #[trigger] rigid_bodies.at(j)) {
                        (Some(a), Some(b)) => a.0 != b.0,
                        _ => true,
                    },
                forall|k: int| (#[trigger] boids.at(k)) matches Some(b) ==> {
                    &&& speed_wf(b.velocity)
                    &&& b.clamp.wf() && 0 <= b.clamp.lo() && b.clamp.hi() <= SCALE
                },
                only_velocities_written(*old(physic_world), *physic_world),
                forall|k: int| i <= k ==> ((#[trigger] rigid_bodies.at(k)) matches Some(rb)
                    ==> physic_world.body_at(rb.0 as int) == old(physic_world).body_at(
                    rb.0 as int,
                )),
                forall|k: int| 0 <= k < i ==> match (#[trigger] boids.at(k), rigid_bodies.at(
                    k,
                )) {
                    (Some(b), Some(rb)) => {
                        let sums = flock_sum(
                            *boids,
                            *rigid_bodies,
                            *old(physic_world),
                            b.id as int,
                            k,
                            boids.data@.len() as int,
                        );
                        let position = old(physic_world).body_at(
                            rb.0 as int,
                        ).unwrap().position.translation;
                        if sums.2 == 0 {
                            physic_world.body_at(rb.0 as int) == old(physic_world).body_at(
                                rb.0 as int,
                            )
                        } else {
                            match boid_velocity(b, sums.0, sums.1, sums.2, position) {
                                Some(v) => physic_world.body_at(rb.0 as int) matches Some(bd)
                                    && bd.velocity == v && bd.angular_velocity == 0,
                                None => physic_world.body_at(rb.0 as int) == old(
                                    physic_world,
                                ).body_at(rb.0 as int),
                            }
                        }
                    },
                    _ => true,
                },
            decreases n - i,
        {
            if boids.contains(i) && rigid_bodies.contains(i) {
                let b = match boids.get(i) {
                    Some(b) => *b,
                    None => vstd::pervasive::unreached(),
                };
                let rb = match rigid_bodies.get(i) {
                    Some(rb) => *rb,
                    None => vstd::pervasive::unreached(),
                };
                let position = physic_world.position(rb.0).translation;
                proof {
                    assert(physic_world.body_at(rb.0 as int) == old(physic_world).body_at(
                        rb.0 as int,
                    ));
                    assert(physic_world.body_at(rb.0 as int) matches Some(bd) && bd.wf());
                }
                // centroid of the other members of the flock
                let mut sx: i64 = 0;
                let mut sy: i64 = 0;
                let mut count: i64 = 0;
                let mut j: usize = 0;
                while j < n
                    invariant
                        j <= n,
                        n == boids.data@.len() <= crate::world::ENTITY_LIMIT,
                        bodies_wf(*physic_world),
                        forall|k: int| (#[trigger] rigid_bodies.at(k)) matches Some(rb2)
                            ==> physic_world.has_body(rb2.0 as int),
                        only_velocities_written(*old(physic_world), *physic_world),
                        0 <= count <= j,
                        -count * COORD_LIMIT <= sx <= count * COORD_LIMIT,
                        -count * COORD_LIMIT <= sy <= count * COORD_LIMIT,
                        (sx as int, sy as int, count as int) == flock_sum(
                            *boids,
                            *rigid_bodies,
                            *old(physic_world),
                            b.id as int,
                            i as int,
                            j as int,
                        ),
                    decreases n - j,
                {
                    if j != i && boids.contains(j) && rigid_bodies.contains(j) {
                        let b2 = match boids.get(j) {
                            Some(b2) => *b2,
                            None => vstd::pervasive::unreached(),
                        };
                        if b2.id == b.id {
                            let rb2 = match rigid_bodies.get(j) {
                                Some(rb2) => *rb2,
                                None => vstd::pervasive::unreached(),
                            };
                            let p = physic_world.position(rb2.0).translation;
                            proof {
                                assert(physic_world.body_at(rb2.0 as int) matches Some(bd)
                                    && old(physic_world).body_at(rb2.0 as int)
                                    matches Some(bd0) && bd.position == bd0.position
                                    && bd.wf());
                                assert((count + 1) * COORD_LIMIT == count * COORD_LIMIT
                                    + COORD_LIMIT) by (nonlinear_arith);
                            }
                            sx = sx + p.x;
                            sy = sy + p.y;
                            count = count + 1;
                        }
                    }
                    j = j + 1;
                }
                if count > 0 {
                    proof {
                        lemma_div_trunc_bounds(sx as int, count as int);
                        lemma_div_trunc_bounds(sy as int, count as int);
                        crate::math::lemma_div_trunc_ordered(
                            sx as int,
                            count as int * COORD_LIMIT as int,
                            count as int,
                        );
                        crate::math::lemma_div_trunc_ordered(
                            -(count as int) * COORD_LIMIT as int,
                            sx as int,
                            count as int,
                        );
                        crate::math::lemma_div_trunc_ordered(
                            sy as int,
                            count as int * COORD_LIMIT as int,
                            count as int,
                        );
                        crate::math::lemma_div_trunc_ordered(
                            -(count as int) * COORD_LIMIT as int,
                            sy as int,
                            count as int,
                        );
                        vstd::arithmetic::div_mod::lemma_div_by_multiple(
                            COORD_LIMIT as int,
                            count as int,
                        );
                        vstd::arithmetic::mul::lemma_mul_is_commutative(
                            count as int,
                            COORD_LIMIT as int,
                        );
                        vstd::arithmetic::mul::lemma_mul_unary_negation(
                            count as int,
                            COORD_LIMIT as int,
                        );
                    }
                    let cx = mul_div_trunc(sx, 1, count);
                    let cy = mul_div_trunc(sy, 1, count);
                    let centroid = Vec2 { x: cx, y: cy };
                    let d = centroid.minus(position);
                    let dist = d.norm();
                    proof {
                        crate::math::lemma_norm_floor(
                            cx as int - position.x,
                            cy as int - position.y,
                            dist as int,
                        );
                    }
                    if dist > 0 {
                        let bounded = if dist > COORD_LIMIT {
                            COORD_LIMIT
                        } else {
                            dist
                        };
                        let f = b.clamp.compute(bounded);
                        proof {
                            lemma_div_trunc_bounds(b.velocity as int * f as int, SCALE as int);
                            assert(-0x4000_0000_0000_0000 <= b.velocity * f
                                <= 0x4000_0000_0000_0000 && 0 <= b.velocity * f
                                <= COORD_LIMIT * SCALE) by (nonlinear_arith)
                                requires
                                    0 <= b.velocity <= COORD_LIMIT,
                                    0 <= f <= SCALE,
                            ;
                            crate::math::lemma_div_trunc_ordered(
                                b.velocity as int * f as int,
                                COORD_LIMIT as int * SCALE as int,
                                SCALE as int,
                            );
                            vstd::arithmetic::div_mod::lemma_div_by_multiple(
                                COORD_LIMIT as int,
                                SCALE as int,
                            );
                            vstd::arithmetic::mul::lemma_mul_is_commutative(
                                SCALE as int,
                                COORD_LIMIT as int,
                            );
                        }
                        let speed = mul_div_trunc(b.velocity, f, SCALE);
                        let vel = scale_by(d.x, d.y, speed, dist);
                        physic_world.set_velocity(rb.0, vel, 0);
                    }
                }
            }
            i = i + 1;
        }
    }
}

/// Reads the listener's position for the audio collaborator.
pub struct AudioSystem;

impl AudioSystem {
    /// The first player's position, in entity-index order: where the
    /// audio mixer listens from.  `None` without a live player.
    pub fn run(
        players: &Storage<Player>,
        rigid_bodies: &Storage<RigidBody>,
        physic_world: &PhysicWorld,
    ) -> (r: Option<Vec2>)
        requires
            forall|i: int| (#[trigger] rigid_bodies.at(i)) matches Some(rb)
                ==> physic_world.has_body(rb.0 as int),
        ensures
            match r {
                Some(p) => exists|i: int| {
                    &&& (#[trigger] players.at(i)) is Some
                    &&& rigid_bodies.at(i) matches Some(rb)
                    &&& physic_world.body_at(rb.0 as int).unwrap().position.translation == p
                    &&& forall|k: int| 0 <= k < i
                        ==> !((#[trigger] players.at(k)) is Some && rigid_bodies.at(k) is Some)
                },
                None => forall|k: int| 0 <= k < players.data@.len()
                    ==> !((#[trigger] players.at(k)) is Some && rigid_bodies.at(k) is Some),
            },
    {
        let n = players.data.len();
        let mut i: usize = 0;
        while i < n
            invariant
                i <= n,
                n == players.data@.len(),
                forall|k: int| (#[trigger] rigid_bodies.at(k)) matches Some(rb)
                    ==> physic_world.has_body(rb.0 as int),
                forall|k: int| 0 <= k < i
                    ==> !((#[trigger] players.at(k)) is Some && rigid_bodies.at(k) is Some),
            decreases n - i,
        {
            if players.contains(i) && rigid_bodies.contains(i) {
                let rb = match rigid_bodies.get(i) {
                    Some(rb) => *rb,
                    None => vstd::pervasive::unreached(),
                };
                let p = physic_world.position(rb.0).translation;
                proof {
                    assert(players.at(i as int) is Some);
                }
                return Some(p);
            }
            i = i + 1;
        }
        None
    }
}

} // verus!
