//! Contact and life resolution: damage from physical contact, death on
//! contact, and destruction of entities whose life is exhausted.
//!
//! All destructions funnel through the deferred command buffer and are
//! applied at the deferred-apply point, never mid-iteration.

use vstd::prelude::*;
use crate::component::ContactDamage;
use crate::component::DeadOnContact;
use crate::component::Life;
use crate::store::Entity;
use crate::store::Storage;
use crate::world::Command;
use crate::world::destroy_queued;

verus! {

/// The pair is live and its first entity damages what it touches.
pub open spec fn damaging_pair(
    pair: (Entity, Entity),
    gens: Seq<u64>,
    alive: Seq<bool>,
    damage: Storage<ContactDamage>,
) -> bool {
    &&& pair.0.index < gens.len() && alive[pair.0.index as int]
        && gens[pair.0.index as int] == pair.0.generation
    &&& pair.1.index < gens.len() && alive[pair.1.index as int]
        && gens[pair.1.index as int] == pair.1.generation
    &&& damage.at(pair.0.index as int) is Some
}

/// Total damage the contact pairs deal to index slot `i`.
pub open spec fn damage_sum(
    contacts: Seq<(Entity, Entity)>,
    i: int,
    gens: Seq<u64>,
    alive: Seq<bool>,
    damage: Storage<ContactDamage>,
) -> nat
    decreases contacts.len(),
{
    if contacts.len() == 0 {
        0
    } else {
        let rest = damage_sum(contacts.drop_last(), i, gens, alive, damage);
        let pair = contacts.last();
        if damaging_pair(pair, gens, alive, damage) && pair.1.index == i {
            (rest + damage.at(pair.0.index as int).unwrap().0) as nat
        } else {
            rest
        }
    }
}

/// Subtraction that stops at zero, as life totals do.
pub open spec fn sub_sat(a: nat, b: nat) -> nat {
    if a >= b {
        (a - b) as nat
    } else {
        0
    }
}

/// Applies contact damage: each live contact pair subtracts the damage of
/// its first entity from the life of its second, once per pair per frame.
pub struct ContactDamageSystem;

impl ContactDamageSystem {
    pub fn run(
        contacts: &Vec<(Entity, Entity)>,
        gens: &Vec<u64>,
        alive: &Vec<bool>,
        damage: &Storage<ContactDamage>,
        lifes: &mut Storage<Life>,
    )
        requires
            gens@.len() == alive@.len(),
        ensures
            forall|i: int| match #[trigger] old(lifes).at(i) {
                Some(l) => final(lifes).at(i) == Some(
                    Life(
                        sub_sat(
                            l.0 as nat,
                            damage_sum(contacts@, i, gens@, alive@, *damage),
                        ) as usize,
                    ),
                ),
                None => final(lifes).at(i) is None,
            },
    {
        let n = contacts.len();
        let mut c: usize = 0;
        while c < n
            invariant
                c <= n,
                n == contacts@.len(),
                gens@.len() == alive@.len(),
                forall|i: int| match #[trigger] old(lifes).at(i) {
                    Some(l) => lifes.at(i) == Some(
                        Life(
                            sub_sat(
                                l.0 as nat,
                                damage_sum(
                                    contacts@.subrange(0, c as int),
                                    i,
                                    gens@,
                                    alive@,
                                    *damage,
                                ),
                            ) as usize,
                        ),
                    ),
                    None => lifes.at(i) is None,
                },
            decreases n - c,
        {
            let pair = contacts[c];
            proof {
                assert(contacts@.subrange(0, c + 1 as int).drop_last() =~= contacts@.subrange(
                    0,
                    c as int,
                ));
                assert(contacts@.subrange(0, c + 1 as int).last() == contacts@[c as int]);
            }
            let (a, b) = pair;
            let live = a.index < gens.len() && alive[a.index] && gens[a.index] == a.generation
                && b.index < gens.len() && alive[b.index] && gens[b.index] == b.generation;
            if live {
                match damage.get(a.index) {
                    Some(d) => {
                        let dmg = d.0;
                        let taken = lifes.take(b.index);
                        match taken {
                            Some(l) => {
                                let left = if l.0 >= dmg {
                                    l.0 - dmg
                                } else {
                                    0
                                };
                                lifes.insert(b.index, Life(left));
                            },
                            None => {},
                        }
                    },
                    None => {},
                }
            }
            c = c + 1;
        }
        proof {
            assert(contacts@.subrange(0, n as int) =~= contacts@);
        }
    }
}

/// Queues the destruction of entities destroyed by any contact.
pub struct DeadOnContactSystem;

impl DeadOnContactSystem {
    /// Every live, contacted entity carrying the marker is queued for
    /// destruction; nothing else is.
    pub fn run(
        contacts: &Vec<(Entity, Entity)>,
        gens: &Vec<u64>,
        alive: &Vec<bool>,
        dead_on_contact: &Storage<DeadOnContact>,
        commands: &mut Vec<Command>,
    )
        requires
            gens@.len() == alive@.len(),
        ensures
            final(commands)@.len() >= old(commands)@.len(),
            final(commands)@.subrange(0, old(commands)@.len() as int) == old(commands)@,
            forall|c: int| 0 <= c < contacts@.len() ==> {
                let b = (#[trigger] contacts@[c]).1;
                (b.index < gens@.len() && alive@[b.index as int]
                    && gens@[b.index as int] == b.generation
                    && dead_on_contact.at(b.index as int) is Some) ==> destroy_queued(
                    final(commands)@,
                    b,
                )
            },
            forall|e: Entity| destroy_queued(final(commands)@, e) && !destroy_queued(
                old(commands)@,
                e,
            ) ==> dead_on_contact.at(e.index as int) is Some && exists|c: int|
                0 <= c < contacts@.len() && (#[trigger] contacts@[c]).1 == e,
    {
        proof {
            assert(commands@.subrange(0, commands@.len() as int) =~= commands@);
        }
        let n = contacts.len();
        let mut c: usize = 0;
        while c < n
            invariant
                c <= n,
                n == contacts@.len(),
                gens@.len() == alive@.len(),
                commands@.len() >= old(commands)@.len(),
                commands@.subrange(0, old(commands)@.len() as int) == old(commands)@,
                forall|c2: int| 0 <= c2 < c ==> {
                    let b = (#[trigger] contacts@[c2]).1;
                    (b.index < gens@.len() && alive@[b.index as int]
                        && gens@[b.index as int] == b.generation
                        && dead_on_contact.at(b.index as int) is Some) ==> destroy_queued(
                        commands@,
                        b,
                    )
                },
                forall|e: Entity| destroy_queued(commands@, e) && !destroy_queued(
                    old(commands)@,
                    e,
                ) ==> dead_on_contact.at(e.index as int) is Some && exists|c2: int|
                    0 <= c2 < contacts@.len() && (#[trigger] contacts@[c2]).1 == e,
            decreases n - c,
        {
            let pair = contacts[c];
            let b = pair.1;
            let live = b.index < gens.len() && alive[b.index] && gens[b.index] == b.generation;
            if live && dead_on_contact.contains(b.index) {
                let ghost pre = commands@;
                commands.push(Command::Destroy(b));
                proof {
                    assert(commands@[pre.len() as int] == Command::Destroy(b));
                    assert(destroy_queued(commands@, b));
                    assert(commands@.subrange(0, old(commands)@.len() as int)
                        =~= pre.subrange(0, old(commands)@.len() as int));
                    assert(commands@.subrange(0, pre.len() as int) =~= pre);
                    assert forall|e: Entity| destroy_queued(commands@, e) && !destroy_queued(
                        pre,
                        e,
                    ) implies e == b by {
                        let j = choose|j: int| 0 <= j < commands@.len()
                            && ((#[trigger] commands@[j]) matches Command::Destroy(e2)
                            && e2 == e);
                        if j < pre.len() {
                            assert(commands@[j] == pre[j]);
                        }
                    }
                    assert forall|c2: int| 0 <= c2 < c + 1 implies {
                        let b2 = (#[trigger] contacts@[c2]).1;
                        (b2.index < gens@.len() && alive@[b2.index as int]
                            && gens@[b2.index as int] == b2.generation
                            && dead_on_contact.at(b2.index as int) is Some) ==> destroy_queued(
                            commands@,
                            b2,
                        )
                    } by {
                        if c2 < c as int {
                            let b2 = contacts@[c2].1;
                            if b2.index < gens@.len() && alive@[b2.index as int]
                                && gens@[b2.index as int] == b2.generation
                                && dead_on_contact.at(b2.index as int) is Some {
                                crate::world::lemma_destroy_queued_extend(pre, commands@, b2);
                            }
                        }
                    }
                }
            }
            c = c + 1;
        }
    }
}

/// Queues the destruction of entities whose life is exhausted.
pub struct LifeSystem;

impl LifeSystem {
    /// Every live entity whose life reached zero is queued for
    /// destruction; nothing else is.
    pub fn run(
        gens: &Vec<u64>,
        alive: &Vec<bool>,
        lifes: &Storage<Life>,
        commands: &mut Vec<Command>,
    )
        requires
            gens@.len() == alive@.len(),
        ensures
            final(commands)@.len() >= old(commands)@.len(),
            final(commands)@.subrange(0, old(commands)@.len() as int) == old(commands)@,
            forall|i: int| 0 <= i < gens@.len() && alive@[i]
                && #[trigger] lifes.at(i) == Some(Life(0usize)) ==> destroy_queued(
                final(commands)@,
                Entity { index: i as usize, generation: gens@[i] },
            ),
            forall|e: Entity| destroy_queued(final(commands)@, e) && !destroy_queued(
                old(commands)@,
                e,
            ) ==> lifes.at(e.index as int) == Some(Life(0usize)),
    {
        proof {
            assert(commands@.subrange(0, commands@.len() as int) =~= commands@);
        }
        let n = gens.len();
        let mut i: usize = 0;
        while i < n
            invariant
                i <= n,
                n == gens@.len() == alive@.len(),
                commands@.len() >= old(commands)@.len(),
                commands@.subrange(0, old(commands)@.len() as int) == old(commands)@,
                forall|k: int| 0 <= k < i && alive@[k]
                    && #[trigger] lifes.at(k) == Some(Life(0usize)) ==> destroy_queued(
                    commands@,
                    Entity { index: k as usize, generation: gens@[k] },
                ),
                forall|e: Entity| destroy_queued(commands@, e) && !destroy_queued(
                    old(commands)@,
                    e,
                ) ==> lifes.at(e.index as int) == Some(Life(0usize)),
            decreases n - i,
        {
            let dead = alive[i] && match lifes.get(i) {
                Some(l) => l.0 == 0,
                None => false,
            };
            if dead {
                let ghost pre = commands@;
                let e = Entity { index: i, generation: gens[i] };
                commands.push(Command::Destroy(e));
                proof {
                    assert(commands@[pre.len() as int] == Command::Destroy(e));
                    assert(destroy_queued(commands@, e));
                    assert(commands@.subrange(0, old(commands)@.len() as int)
                        =~= pre.subrange(0, old(commands)@.len() as int));
                    assert(commands@.subrange(0, pre.len() as int) =~= pre);
                    assert forall|e2: Entity| destroy_queued(commands@, e2) && !destroy_queued(
                        pre,
                        e2,
                    ) implies e2 == e by {
                        let j = choose|j: int| 0 <= j < commands@.len()
                            && ((#[trigger] commands@[j]) matches Command::Destroy(e3)
                            && e3 == e2);
                        if j < pre.len() {
                            assert(commands@[j] == pre[j]);
                        }
                    }
                    assert forall|k: int| 0 <= k < i + 1 && alive@[k]
                        && #[trigger] lifes.at(k) == Some(Life(0usize)) implies destroy_queued(
                        commands@,
                        Entity { index: k as usize, generation: gens@[k] },
                    ) by {
                        if k < i as int {
                            crate::world::lemma_destroy_queued_extend(
                                pre,
                                commands@,
                                Entity { index: k as usize, generation: gens@[k] },
                            );
                        }
                    }
                }
            }
            i = i + 1;
        }
    }
}

} // verus!
