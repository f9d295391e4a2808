//! The damping composer: multiplies a velocity already written by exactly
//! one producer system this frame by the response curves attached to the
//! entity.
//!
//! It must run strictly after all velocity producers and strictly before
//! the physics step consumes the value.  Multiple damping components
//! compose multiplicatively: the factors are multiplied first, so their
//! order cannot matter.

use vstd::prelude::*;
use crate::component::VelocityAimDamping;
use crate::component::VelocityDistanceDamping;
use crate::math::COORD_LIMIT;
use crate::math::SCALE;
use crate::math::Vec2;
use crate::math::div_trunc;
use crate::math::angular_distance;
use crate::math::angular_distance_spec;
use crate::math::norm_floor;
use crate::spawner::TargetInfo;
use crate::math::lemma_div_trunc_bounds;
use crate::math::mul_div_trunc;
use crate::physics::PhysicWorld;
use crate::physics::RigidBody;
use crate::physics::bodies_wf;
use crate::physics::only_velocities_written;
use crate::spawner::Targets;
use crate::store::Storage;
use vstd::arithmetic::mul::lemma_mul_is_commutative;

verus! {

/// Composing two damping curves is order-independent: the factors are
/// multiplied before the one truncation, and multiplication commutes.
pub proof fn lemma_damping_commutes(f1: int, f2: int)
    ensures
        div_trunc(f1 * f2, SCALE as int) == div_trunc(f2 * f1, SCALE as int),
{
    lemma_mul_is_commutative(f1, f2);
}

/// Bounds of one composition step: factors in `[0, SCALE]` stay there.
proof fn lemma_factor_bounds(pre: int, f: int)
    requires
        0 <= pre <= SCALE,
        0 <= f <= SCALE,
    ensures
        0 <= div_trunc(pre * f, SCALE as int) <= SCALE,
{
    vstd::arithmetic::mul::lemma_mul_nonnegative(pre, f);
    vstd::arithmetic::mul::lemma_mul_inequality(pre, SCALE as int, f);
    lemma_mul_is_commutative(SCALE as int, f);
    vstd::arithmetic::mul::lemma_mul_inequality(f, SCALE as int, SCALE as int);
    vstd::arithmetic::div_mod::lemma_div_is_ordered(
        pre * f,
        SCALE as int * SCALE as int,
        SCALE as int,
    );
    vstd::arithmetic::div_mod::lemma_div_by_multiple(SCALE as int, SCALE as int);
    lemma_mul_is_commutative(SCALE as int, SCALE as int);
    vstd::arithmetic::div_mod::lemma_div_pos_is_pos(pre * f, SCALE as int);
}

/// The distance scalar a curve is evaluated against: the floor distance
/// to the measured player, capped at the coordinate range.
pub open spec fn bounded_distance(target: TargetInfo, position: Vec2) -> int {
    let n = norm_floor(target.position.x - position.x, target.position.y - position.y);
    if n > COORD_LIMIT {
        COORD_LIMIT as int
    } else {
        n
    }
}

/// The composed damping factor of an entity: the product of its curves,
/// each evaluated against its scalar, truncated once at the scale.
pub open spec fn damping_factor(
    dist: Option<VelocityDistanceDamping>,
    aim: Option<VelocityAimDamping>,
    target: TargetInfo,
    position: Vec2,
    exact_aim_angle: bool,
) -> int {
    let f1 = match dist {
        Some(c) => c.0.compute_spec(bounded_distance(target, position)),
        None => SCALE as int,
    };
    match aim {
        Some(c) => div_trunc(
            f1 * c.0.compute_spec(
                angular_distance_spec(target.angle_from_player - target.aim, exact_aim_angle),
            ),
            SCALE as int,
        ),
        None => f1,
    }
}

/// Applies every attached damping curve to the entity's written velocity.
pub struct VelocityDampingsSystem;

impl VelocityDampingsSystem {
    /// One frame of the damping composer: for every entity with a body
    /// and at least one damping curve, the velocity's magnitude is
    /// multiplied by the product of the curves, each evaluated against
    /// its scalar — the distance to the first measured player, or the
    /// angular offset from that player's aim.
    pub fn run(
        distance_damping: &Storage<VelocityDistanceDamping>,
        aim_damping: &Storage<VelocityAimDamping>,
        rigid_bodies: &Storage<RigidBody>,
        targets: &Storage<Targets>,
        physic_world: &mut PhysicWorld,
        exact_aim_angle: bool,
    )
        requires
            bodies_wf(*old(physic_world)),
            forall|i: int| (#[trigger] rigid_bodies.at(i)) matches Some(rb)
                ==> old(physic_world).has_body(rb.0 as int),
            forall|i: int| (#[trigger] distance_damping.at(i)) matches Some(c)
                ==> c.0.wf() && 0 <= c.0.lo() && c.0.hi() <= SCALE,
            forall|i: int| (#[trigger] aim_damping.at(i)) matches Some(c)
                ==> c.0.wf() && 0 <= c.0.lo() && c.0.hi() <= SCALE,
            forall|i: int| (#[trigger] targets.at(i)) matches Some(t) ==> {
                forall|k: int| 0 <= k < t.0@.len() ==> {
                    let ti = #[trigger] t.0@[k];
                    &&& ti.position.wf()
                    &&& -COORD_LIMIT <= ti.angle_from_player - ti.aim <= COORD_LIMIT
                }
            },
            forall|i: int| (#[trigger] old(physic_world).body_at(i)) matches Some(b) ==> {
                &&& -COORD_LIMIT <= b.velocity.x <= COORD_LIMIT
                &&& -COORD_LIMIT <= b.velocity.y <= COORD_LIMIT
            },
            forall|i: int, j: int| i != j
                ==> match (#[trigger] rigid_bodies.at(i), #[trigger] rigid_bodies.at(j)) {
                    (Some(a), Some(b)) => a.0 != b.0,
                    _ => true,
                },
        ensures
            only_velocities_written(*old(physic_world), *final(physic_world)),
            // each damped entity's written velocity is scaled by its
            // composed factor of the first measured player
            forall|i: int| match (#[trigger] rigid_bodies.at(i), targets.at(i)) {
                (Some(rb), Some(t)) => (t.0@.len() > 0 && (distance_damping.at(i) is Some
                    || aim_damping.at(i) is Some)) ==> {
                    let pre = old(physic_world).body_at(rb.0 as int).unwrap();
                    let f = damping_factor(
                        distance_damping.at(i),
                        aim_damping.at(i),
                        t.0@[0],
                        pre.position.translation,
                        exact_aim_angle,
                    );
                    final(physic_world).body_at(rb.0 as int) matches Some(b) && b.velocity
                        == (Vec2 {
                        x: div_trunc(pre.velocity.x * f, SCALE as int) as i64,
                        y: div_trunc(pre.velocity.y * f, SCALE as int) as i64,
                    })
                },
                _ => true,
            },
    {
        let n = rigid_bodies.data.len();
        let mut i: usize = 0;
        while i < n
            invariant
                i <= n,
                bodies_wf(*physic_world),
                forall|k: int| (#[trigger] rigid_bodies.at(k)) matches Some(rb)
                    ==> physic_world.has_body(rb.0 as int),
                forall|k: int| (#[trigger] distance_damping.at(k)) matches Some(c)
                    ==> c.0.wf() && 0 <= c.0.lo() && c.0.hi() <= SCALE,
                forall|k: int| (#[trigger] aim_damping.at(k)) matches Some(c)
                    ==> c.0.wf() && 0 <= c.0.lo() && c.0.hi() <= SCALE,
                forall|k: int| (#[trigger] targets.at(k)) matches Some(t) ==> {
                    forall|k2: int| 0 <= k2 < t.0@.len() ==> {
                        let ti = #[trigger] t.0@[k2];
                        &&& ti.position.wf()
                        &&& -COORD_LIMIT <= ti.angle_from_player - ti.aim <= COORD_LIMIT
                    }
                },
                forall|k: int| (#[trigger] physic_world.body_at(k)) matches Some(b) ==> {
                    &&& -COORD_LIMIT <= b.velocity.x <= COORD_LIMIT
                    &&& -COORD_LIMIT <= b.velocity.y <= COORD_LIMIT
                },
                only_velocities_written(*old(physic_world), *physic_world),
                forall|k: int, j: int| k != j
                    ==> match (#[trigger] rigid_bodies.at(k), #[trigger] rigid_bodies.at(j)) {
                        (Some(a), Some(b)) => a.0 != b.0,
                        _ => true,
                    },
                forall|k: int| i <= k ==> ((#[trigger] rigid_bodies.at(k)) matches Some(rb)
                    ==> physic_world.body_at(rb.0 as int) == old(physic_world).body_at(
                    rb.0 as int,
                )),
                forall|k: int| 0 <= k < i ==> match (#[trigger] rigid_bodies.at(k), targets.at(
                    k,
                )) {
                    (Some(rb), Some(t)) => (t.0@.len() > 0 && (distance_damping.at(k) is Some
                        || aim_damping.at(k) is Some)) ==> {
                        let pre = old(physic_world).body_at(rb.0 as int).unwrap();
                        let f = damping_factor(
                            distance_damping.at(k),
                            aim_damping.at(k),
                            t.0@[0],
                            pre.position.translation,
                            exact_aim_angle,
                        );
                        physic_world.body_at(rb.0 as int) matches Some(b) && b.velocity
                            == (Vec2 {
                            x: div_trunc(pre.velocity.x * f, SCALE as int) as i64,
                            y: div_trunc(pre.velocity.y * f, SCALE as int) as i64,
                        })
                    },
                    _ => true,
                },
            decreases n - i,
        {
            let has_damping = distance_damping.contains(i) || aim_damping.contains(i);
            if has_damping && rigid_bodies.contains(i) && targets.contains(i) {
                let rb = match rigid_bodies.get(i) {
                    Some(rb) => *rb,
                    None => vstd::pervasive::unreached(),
                };
                let t = match targets.get(i) {
                    Some(t) => t,
                    None => vstd::pervasive::unreached(),
                };
                if t.0.len() > 0 {
                    let target = &t.0[0];
                    proof {
                        assert(targets.at(i as int) matches Some(t2) && t2 == *t);
                        assert(t.0@[0].position.wf());
                        assert(-COORD_LIMIT <= t.0@[0].angle_from_player - t.0@[0].aim
                            <= COORD_LIMIT);
                        assert(physic_world.body_at(rb.0 as int) matches Some(b) && b.wf());
                    }
                    let body = *rb.get(physic_world);
                    let position = body.position.translation;
                    proof {
                        assert(body == old(physic_world).body_at(rb.0 as int).unwrap());
                    }
                    let mut factor: i64 = SCALE;
                    match distance_damping.get(i) {
                        Some(c) => {
                            let d = target.position.minus(position);
                            let dist = d.norm();
                            proof {
                                crate::math::lemma_norm_floor(
                                    target.position.x - position.x,
                                    target.position.y - position.y,
                                    dist as int,
                                );
                            }
                            let bounded = if dist > COORD_LIMIT {
                                COORD_LIMIT
                            } else {
                                dist
                            };
                            assert(bounded == bounded_distance(t.0@[0], position));
                            let f = c.0.compute(bounded);
                            proof {
                                lemma_factor_bounds(factor as int, f as int);
                                assert(-0x4000_0000_0000_0000 <= factor * f
                                    <= 0x4000_0000_0000_0000) by (nonlinear_arith)
                                    requires
                                        0 <= factor <= SCALE,
                                        0 <= f <= SCALE,
                                ;
                            }
                            factor = mul_div_trunc(factor, f, SCALE);
                            proof {
                                lemma_mul_is_commutative(SCALE as int, f as int);
                                vstd::arithmetic::div_mod::lemma_div_by_multiple(
                                    f as int,
                                    SCALE as int,
                                );
                                assert(factor == c.0.compute_spec(
                                    bounded_distance(t.0@[0], position),
                                ));
                            }
                        },
                        None => {},
                    }
                    match aim_damping.get(i) {
                        Some(c) => {
                            let offset = angular_distance(
                                target.angle_from_player - target.aim,
                                exact_aim_angle,
                            );
                            let f = c.0.compute(offset);
                            proof {
                                lemma_factor_bounds(factor as int, f as int);
                                assert(-0x4000_0000_0000_0000 <= factor * f
                                    <= 0x4000_0000_0000_0000) by (nonlinear_arith)
                                    requires
                                        0 <= factor <= SCALE,
                                        0 <= f <= SCALE,
                                ;
                            }
                            let ghost pre_factor = factor as int;
                            factor = mul_div_trunc(factor, f, SCALE);
                            proof {
                                if distance_damping.at(i as int) is None {
                                    lemma_mul_is_commutative(SCALE as int, f as int);
                                    vstd::arithmetic::div_mod::lemma_div_by_multiple(
                                        f as int,
                                        SCALE as int,
                                    );
                                }
                            }
                        },
                        None => {},
                    }
                    proof {
                        assert(factor == damping_factor(
                            distance_damping.at(i as int),
                            aim_damping.at(i as int),
                            t.0@[0],
                            position,
                            exact_aim_angle,
                        ));
                        lemma_div_trunc_bounds(
                            body.velocity.x as int * factor as int,
                            SCALE as int,
                        );
                        lemma_div_trunc_bounds(
                            body.velocity.y as int * factor as int,
                            SCALE as int,
                        );
                        assert(-0x4000_0000_0000_0000 <= body.velocity.x * factor
                            <= 0x4000_0000_0000_0000 && -0x4000_0000_0000_0000
                            <= body.velocity.y * factor <= 0x4000_0000_0000_0000)
                            by (nonlinear_arith)
                            requires
                                -COORD_LIMIT <= body.velocity.x <= COORD_LIMIT,
                                -COORD_LIMIT <= body.velocity.y <= COORD_LIMIT,
                                0 <= factor <= SCALE,
                        ;
                    }
                    let vx = mul_div_trunc(body.velocity.x, factor, SCALE);
                    let vy = mul_div_trunc(body.velocity.y, factor, SCALE);
                    assert(-COORD_LIMIT <= vx <= COORD_LIMIT && -COORD_LIMIT <= vy
                        <= COORD_LIMIT) by (nonlinear_arith)
                        requires
                            vx == div_trunc(body.velocity.x as int * factor as int, SCALE as int),
                            vy == div_trunc(body.velocity.y as int * factor as int, SCALE as int),
                            -COORD_LIMIT <= body.velocity.x <= COORD_LIMIT,
                            -COORD_LIMIT <= body.velocity.y <= COORD_LIMIT,
                            0 <= factor <= SCALE,
                    ;
                    physic_world.set_velocity(
                        rb.0,
                        Vec2 { x: vx, y: vy },
                        body.angular_velocity,
                    );
                    proof {
                        assert(physic_world.body_at(rb.0 as int) matches Some(b)
                            && b.velocity == (Vec2 { x: vx, y: vy }));
                    }
                }
            }
            i = i + 1;
        }
    }
}

} // verus!
