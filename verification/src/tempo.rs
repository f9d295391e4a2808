//! Shared clocks and the per-entity activation flags they drive.
//!
//! A `Tempo` pulses every `time` ticks; an `Activator` references a tempo
//! and flips its `activated` flag on every pulse according to a rhythmic
//! `partition`.  The clock catches up one beat at a time after a frame
//! hitch, so the partition index is never desynchronized.

use vstd::prelude::*;
use crate::math::COORD_LIMIT;
use crate::store::Storage;

verus! {

/// Latest instant the clock accepts, in fixed-point ticks.
pub const TIME_LIMIT: i64 = 0x4000_0000;

/// A process-wide clock: one beat every `time` ticks.
#[derive(Clone, Copy, PartialEq, Eq, Structural, Debug)]
pub struct Tempo {
    /// Beat period in ticks.
    pub time: i64,
    /// Instant of the next beat.
    pub next_beat_time: i64,
    /// Number of beats pulsed so far.
    pub beat: usize,
}

impl Tempo {
    /// The period is positive and the pulse count always agrees with the
    /// next pulse instant.
    pub open spec fn wf(self) -> bool {
        &&& 0 < self.time <= COORD_LIMIT
        &&& self.next_beat_time == self.beat * self.time
        &&& 0 <= self.next_beat_time <= TIME_LIMIT + COORD_LIMIT
    }

    pub fn new(time: i64) -> (r: Tempo)
        requires
            0 < time <= COORD_LIMIT,
        ensures
            r.wf(),
            r.time == time,
            r.next_beat_time == 0,
            r.beat == 0,
    {
        Tempo { time, next_beat_time: 0, beat: 0 }
    }

    /// Advance to instant `now`: pulse one beat at a time while behind,
    /// never skipping a beat, until the next pulse lies in the future.
    pub fn tick(&mut self, now: i64)
        requires
            old(self).wf(),
            0 <= now <= TIME_LIMIT,
        ensures
            final(self).wf(),
            final(self).time == old(self).time,
            final(self).next_beat_time > now,
            old(self).beat <= final(self).beat,
            // every beat that was due has pulsed, and none beyond that
            old(self).next_beat_time <= now ==> final(self).next_beat_time <= now + old(self).time,
            old(self).next_beat_time > now ==> *final(self) == *old(self),
    {
        while now >= self.next_beat_time
            invariant
                self.wf(),
                self.time == old(self).time,
                old(self).beat <= self.beat,
                0 <= now <= TIME_LIMIT,
                old(self).next_beat_time <= now ==> self.next_beat_time <= now + self.time,
                old(self).next_beat_time > now ==> *self == *old(self),
            decreases now + self.time - self.next_beat_time,
        {
            assert(self.beat <= self.beat * self.time) by (nonlinear_arith)
                requires
                    self.time >= 1,
                    self.beat >= 0,
            ;
            assert((self.beat + 1) * self.time == self.beat * self.time + self.time) by (nonlinear_arith);
            self.beat = self.beat + 1;
            self.next_beat_time = self.next_beat_time + self.time;
        }
    }
}

/// Frame-time jitter cannot desynchronize the partition index: however
/// the clock was advanced — many small steps or one catch-up over a
/// hitch — two tempos of one period showing the same next pulse instant
/// agree on the beat, so the modulo index is never skipped.
pub proof fn lemma_beat_determined_by_clock(t1: Tempo, t2: Tempo)
    requires
        t1.wf(),
        t2.wf(),
        t1.time == t2.time,
        t1.next_beat_time == t2.next_beat_time,
    ensures
        t1.beat == t2.beat,
{
    assert(t1.beat == t2.beat) by (nonlinear_arith)
        requires
            t1.time >= 1,
            t1.beat * t1.time == t2.beat * t1.time,
            t1.beat >= 0,
            t2.beat >= 0,
    ;
}

/// All tempos of the running world, looked up by index from activators.
pub struct Tempos(pub Vec<Tempo>);

impl Tempos {
    pub open spec fn wf(self) -> bool {
        forall|i: int| 0 <= i < self.0@.len() ==> #[trigger] self.0@[i].wf()
    }
}

/// Per-entity activation flag: recomputed on each clock advance as
/// `partition[beat % partition.len()]`.
#[derive(Clone, PartialEq, Eq, Debug)]
pub struct Activator {
    /// Index of the driving tempo.
    pub tempo: usize,
    /// One flag value per pulse of the tempo, cycled.
    pub partition: Vec<bool>,
    pub activated: bool,
    /// Sound played when the gated behavior fires.
    pub sound: usize,
}

impl Activator {
    /// An empty partition is a load-time validation error, never a
    /// run-time case.
    pub open spec fn wf(self, n_tempos: int) -> bool {
        &&& self.partition@.len() > 0
        &&& self.tempo < n_tempos
    }

    /// The flag value the activator must show for a pulse count.
    pub open spec fn gate(self, beat: int) -> bool {
        self.partition@[beat % (self.partition@.len() as int)]
    }
}

/// The per-entity list of activators.
#[derive(Clone, PartialEq, Eq, Debug)]
pub struct Activators(pub Vec<Activator>);

impl Activators {
    pub open spec fn wf(self, n_tempos: int) -> bool {
        forall|i: int| 0 <= i < self.0@.len() ==> (#[trigger] self.0@[i]).wf(n_tempos)
    }
}

/// Whether every activator of `acts` shows the flag value of its tempo's
/// current beat.
pub open spec fn activators_settled(acts: Activators, tempos: Seq<Tempo>) -> bool {
    forall|i: int| 0 <= i < acts.0@.len() ==> {
        let a = #[trigger] acts.0@[i];
        a.activated == a.gate(tempos[a.tempo as int].beat as int)
    }
}

/// How one storage slot looks after the clock step: tempo choice,
/// partition and sound are kept, and the flag is settled on the tempo's
/// current beat.
pub open spec fn slot_settled(
    before_slot: Option<Activators>,
    after_slot: Option<Activators>,
    tempos: Seq<Tempo>,
) -> bool {
    match (before_slot, after_slot) {
        (Some(before), Some(after)) => {
            &&& after.0@.len() == before.0@.len()
            &&& forall|i: int| 0 <= i < before.0@.len() ==> {
                let b = #[trigger] before.0@[i];
                let a = after.0@[i];
                a.tempo == b.tempo && a.partition == b.partition && a.sound == b.sound
            }
            &&& activators_settled(after, tempos)
        },
        (None, None) => true,
        _ => false,
    }
}

/// Advances every tempo to `now`, then recomputes every activator's flag
/// from its tempo's beat and its partition.
pub struct ActivatorSystem;

impl ActivatorSystem {
    /// One clock step: catch up all tempos, then settle all flags.
    pub fn run(tempos: &mut Tempos, activators: &mut Storage<Activators>, now: i64)
        requires
            old(tempos).wf(),
            0 <= now <= TIME_LIMIT,
            forall|e: int| (#[trigger] old(activators).at(e)) matches Some(acts)
                ==> acts.wf(old(tempos).0@.len() as int),
        ensures
            final(tempos).wf(),
            final(tempos).0@.len() == old(tempos).0@.len(),
            forall|i: int| 0 <= i < old(tempos).0@.len() ==> {
                &&& (#[trigger] final(tempos).0@[i]).time == old(tempos).0@[i].time
                &&& final(tempos).0@[i].next_beat_time > now
                &&& old(tempos).0@[i].beat <= final(tempos).0@[i].beat
                &&& (old(tempos).0@[i].next_beat_time > now ==> final(tempos).0@[i] == old(tempos).0@[i])
            },
            // every activator keeps its tempo and partition, and its flag
            // is the flag value of the tempo's beat after the catch-up
            forall|e: int| slot_settled(
                old(activators).at(e),
                #[trigger] final(activators).at(e),
                final(tempos).0@,
            ),
    {
        let n_tempos = tempos.0.len();
        let mut t: usize = 0;
        while t < n_tempos
            invariant
                tempos.wf(),
                n_tempos == tempos.0@.len() == old(tempos).0@.len(),
                0 <= now <= TIME_LIMIT,
                t <= n_tempos,
                forall|i: int| t <= i < n_tempos ==> old(tempos).0@[i] == #[trigger] tempos.0@[i],
                forall|i: int| 0 <= i < t ==> {
                    &&& (#[trigger] tempos.0@[i]).time == old(tempos).0@[i].time
                    &&& tempos.0@[i].next_beat_time > now
                    &&& old(tempos).0@[i].beat <= tempos.0@[i].beat
                    &&& (old(tempos).0@[i].next_beat_time > now ==> tempos.0@[i] == old(tempos).0@[i])
                },
            decreases n_tempos - t,
        {
            let mut tempo = tempos.0[t];
            tempo.tick(now);
            tempos.0.set(t, tempo);
            t = t + 1;
        }

        let n_slots = activators.data.len();
        let mut e: usize = 0;
        while e < n_slots
            invariant
                tempos.wf(),
                n_slots == activators.data@.len(),
                forall|k: int| (#[trigger] old(activators).at(k)) matches Some(acts)
                    ==> acts.wf(tempos.0@.len() as int),
                forall|k: int| e <= k ==> old(activators).at(k) == #[trigger] activators.at(k),
                forall|k: int| 0 <= k < e ==> slot_settled(
                    old(activators).at(k),
                    #[trigger] activators.at(k),
                    tempos.0@,
                ),
            decreases n_slots - e,
        {
            let taken = activators.take(e);
            if let Some(mut acts) = taken {
                let n_acts = acts.0.len();
                let ghost before = acts;
                let mut i: usize = 0;
                while i < n_acts
                    invariant
                        tempos.wf(),
                        i <= n_acts,
                        n_acts == acts.0@.len() == before.0@.len(),
                        before.wf(tempos.0@.len() as int),
                        forall|k: int| i <= k < n_acts ==> #[trigger] acts.0@[k] == before.0@[k],
                        forall|k: int| 0 <= k < i ==> {
                            let a = #[trigger] acts.0@[k];
                            let b = before.0@[k];
                            &&& a.tempo == b.tempo && a.partition == b.partition && a.sound == b.sound
                            &&& a.activated == a.gate(tempos.0@[a.tempo as int].beat as int)
                        },
                    decreases n_acts - i,
                {
                    assert(acts.0@[i as int] == before.0@[i as int]);
                    assert(before.0@[i as int].wf(tempos.0@.len() as int));
                    let tempo_idx = acts.0[i].tempo;
                    let beat = tempos.0[tempo_idx].beat;
                    let plen = acts.0[i].partition.len();
                    let gate = acts.0[i].partition[beat % plen];
                    acts.0[i].activated = gate;
                    i = i + 1;
                }
                activators.insert(e, acts);
                proof {
                    assert(activators.at(e as int) == Some(acts));
                    assert(activators_settled(acts, tempos.0@));
                    assert(slot_settled(old(activators).at(e as int), activators.at(e as int), tempos.0@));
                }
            } else {
                assert(old(activators).at(e as int) is None);
                assert(slot_settled(old(activators).at(e as int), activators.at(e as int), tempos.0@));
            }
            e = e + 1;
        }
    }
}

} // verus!
