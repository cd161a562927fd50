use vstd::prelude::*;

verus! {

/// The collective musical phase of the ensemble.
#[derive(Debug, Clone, Copy, PartialEq, Eq, Structural)]
pub enum EnsemblePhase {
    /// Low variance — tight, locked-in groove
    Groove,
    /// Moderate variance — building tension
    Tension,
    /// High variance — creative chaos
    Chaos,
    /// Very high variance — about to resolve
    Resolution,
}

/// The phase read off the three band tests of a variance reading, taken in
/// order: the first band whose upper bound the reading lies under names the
/// phase; a reading under none of them is `Resolution`.
pub open spec fn phase_of_bands(below_groove: bool, below_tension: bool, below_chaos: bool) -> EnsemblePhase {
    if below_groove {
        EnsemblePhase::Groove
    } else if below_tension {
        EnsemblePhase::Tension
    } else if below_chaos {
        EnsemblePhase::Chaos
    } else {
        EnsemblePhase::Resolution
    }
}

impl EnsemblePhase {
    /// Classify a variance reading from its three band tests: whether it lies
    /// under the groove bound (0.5), under the tension bound (2.0) and under
    /// the chaos bound (10.0). The tests are taken in that order.
    pub fn from_bands(below_groove: bool, below_tension: bool, below_chaos: bool) -> (p: EnsemblePhase)
        ensures
            p == phase_of_bands(below_groove, below_tension, below_chaos),
            (p == EnsemblePhase::Groove) == below_groove,
            (p == EnsemblePhase::Tension) == (!below_groove && below_tension),
            (p == EnsemblePhase::Chaos) == (!below_groove && !below_tension && below_chaos),
            (p == EnsemblePhase::Resolution) == (!below_groove && !below_tension && !below_chaos),
    {
        if below_groove {
            EnsemblePhase::Groove
        } else if below_tension {
            EnsemblePhase::Tension
        } else if below_chaos {
            EnsemblePhase::Chaos
        } else {
            EnsemblePhase::Resolution
        }
    }
}

/// How many variance readings the phase detector keeps.
pub const HISTORY_CAPACITY: usize = 8;

/// The history after one reading is recorded: the last 8 of the old
/// history followed by the reading.
pub open spec fn record_spec<V>(history: Seq<V>, reading: V) -> Seq<V> {
    last_n(history.push(reading), HISTORY_CAPACITY as nat)
}

/// The history after each of `readings` is recorded in turn, starting from
/// `history`.
pub open spec fn history_after<V>(history: Seq<V>, readings: Seq<V>) -> Seq<V>
    decreases readings.len(),
{
    if readings.len() == 0 {
        history
    } else {
        record_spec(history_after(history, readings.drop_last()), readings.last())
    }
}

/// The last `n` items of `s` (all of `s` when it is shorter).
pub open spec fn last_n<V>(s: Seq<V>, n: nat) -> Seq<V> {
    if s.len() <= n {
        s
    } else {
        s.subrange(s.len() - n, s.len() as int)
    }
}

/// Tracks recent tempo variance readings to infer the current ensemble phase.
///
/// The readings are of any type the caller measures variance in; the
/// detector only stores and ages them.
#[derive(Debug, Clone)]
pub struct PhaseDetector<V> {
    /// Ring buffer of the last 8 variance readings, oldest first
    pub tempo_variance_history: Vec<V>,
}

impl<V> PhaseDetector<V> {
    /// A detector whose history is within its capacity.
    pub open spec fn well_formed(&self) -> bool {
        self.tempo_variance_history@.len() <= HISTORY_CAPACITY
    }

    /// Create a new phase detector with an empty history buffer.
    pub fn new() -> (d: Self)
        ensures
            d.tempo_variance_history@ == Seq::<V>::empty(),
            d.well_formed(),
    {
        PhaseDetector { tempo_variance_history: Vec::with_capacity(HISTORY_CAPACITY) }
    }

    /// Record a new variance reading, keeping only the last 8: the oldest
    /// readings leave until there is room for the new one.
    pub fn record(&mut self, variance: V)
        ensures
            final(self).tempo_variance_history@ == record_spec(
                old(self).tempo_variance_history@,
                variance,
            ),
            final(self).well_formed(),
            final(self).tempo_variance_history@.len() == if old(
                self,
            ).tempo_variance_history@.len() < HISTORY_CAPACITY {
                old(self).tempo_variance_history@.len() + 1
            } else {
                HISTORY_CAPACITY as nat
            },
            final(self).tempo_variance_history@ == old(self).tempo_variance_history@.push(
                variance,
            ).subrange(
                old(self).tempo_variance_history@.len() + 1
                    - final(self).tempo_variance_history@.len(),
                old(self).tempo_variance_history@.len() + 1int,
            ),
    {
        let ghost h = self.tempo_variance_history@;
        while self.tempo_variance_history.len() >= HISTORY_CAPACITY
            invariant
                self.tempo_variance_history@.len() <= h.len(),
                h.len() < HISTORY_CAPACITY ==> self.tempo_variance_history@.len() == h.len(),
                h.len() >= HISTORY_CAPACITY ==> self.tempo_variance_history@.len() >= HISTORY_CAPACITY - 1,
                self.tempo_variance_history@ == h.subrange(
                    h.len() - self.tempo_variance_history@.len(),
                    h.len() as int,
                ),
            decreases self.tempo_variance_history@.len(),
        {
            self.tempo_variance_history.remove(0);
        }
        self.tempo_variance_history.push(variance);
        proof {
            let hp = h.push(variance);
            let r = self.tempo_variance_history@;
            if h.len() < HISTORY_CAPACITY {
                assert(r =~= hp);
            } else {
                assert(r =~= hp.subrange(hp.len() - HISTORY_CAPACITY, hp.len() as int));
            }
        }
    }

    /// The most recent reading, if any.
    pub fn latest(&self) -> (r: Option<&V>)
        ensures
            r == (if self.tempo_variance_history@.len() == 0 {
                None
            } else {
                Some(&self.tempo_variance_history@.last())
            }),
    {
        let n = self.tempo_variance_history.len();
        if n == 0 {
            None
        } else {
            Some(&self.tempo_variance_history[n - 1])
        }
    }
}

impl<V> PhaseDetector<V> {
    /// Derive the current phase from the most recent reading, whose three
    /// band tests `bands` performs (see `EnsemblePhase::from_bands`).
    ///
    /// With no reading yet the phase is `Groove`: the detector then reads
    /// its history as a variance of zero, which lies in the groove band.
    pub fn detect<F: Fn(&V) -> (bool, bool, bool)>(&self, bands: F) -> (p: EnsemblePhase)
        requires
            self.tempo_variance_history@.len() > 0 ==> call_requires(
                bands,
                (&self.tempo_variance_history@.last(),),
            ),
        ensures
            self.tempo_variance_history@.len() == 0 ==> p == EnsemblePhase::Groove,
            self.tempo_variance_history@.len() > 0 ==> exists|b: (bool, bool, bool)|
                call_ensures(bands, (&self.tempo_variance_history@.last(),), b) && p
                    == phase_of_bands(b.0, b.1, b.2),
    {
        match self.latest() {
            None => EnsemblePhase::Groove,
            Some(v) => {
                let b = bands(v);
                EnsemblePhase::from_bands(b.0, b.1, b.2)
            },
        }
    }
}

impl<V> Default for PhaseDetector<V> {
    fn default() -> (d: Self)
        ensures
            d.tempo_variance_history@ == Seq::<V>::empty(),
    {
        Self::new()
    }
}

/// Recording keeps the detector within its capacity, whatever the history
/// held before, and the reading just recorded is the latest one.
pub proof fn lemma_record_keeps_capacity<V>(history: Seq<V>, reading: V)
    ensures
        record_spec(history, reading).len() <= HISTORY_CAPACITY,
        record_spec(history, reading).len() == if history.len() < HISTORY_CAPACITY {
            history.len() + 1
        } else {
            HISTORY_CAPACITY as nat
        },
        record_spec(history, reading).last() == reading,
{
}

/// The last 8 of a sequence extended by one item are the last 8 of the
/// last 8 extended by that item.
proof fn lemma_last_n_push<V>(s: Seq<V>, x: V)
    ensures
        last_n(last_n(s, HISTORY_CAPACITY as nat).push(x), HISTORY_CAPACITY as nat) == last_n(
            s.push(x),
            HISTORY_CAPACITY as nat,
        ),
{
    let c = HISTORY_CAPACITY as int;
    let t = last_n(s, c as nat);
    if s.len() > c {
        assert(last_n(t.push(x), c as nat) =~= last_n(s.push(x), c as nat));
    }
}

/// Recording readings one after another leaves the last 8 of the old
/// history followed by the new readings: the detector remembers the most
/// recent readings, oldest first, and no more than 8 of them. (With no new
/// reading the history is as it was, so it needs to be within capacity.)
pub proof fn lemma_history_keeps_last<V>(history: Seq<V>, readings: Seq<V>)
    requires
        history.len() <= HISTORY_CAPACITY || readings.len() > 0,
    ensures
        history_after(history, readings) == last_n(history + readings, HISTORY_CAPACITY as nat),
    decreases readings.len(),
{
    if readings.len() > 0 {
        let prev = readings.drop_last();
        let all = history + readings;
        let all_prev = history + prev;
        assert(all_prev.push(readings.last()) =~= all);
        if prev.len() > 0 || history.len() <= HISTORY_CAPACITY {
            lemma_history_keeps_last(history, prev);
            lemma_last_n_push(all_prev, readings.last());
        } else {
            assert(prev =~= Seq::<V>::empty());
            assert(all_prev =~= history);
            lemma_last_n_push(history, readings.last());
            assert(history_after(history, prev) == history);
            assert(last_n(history.push(readings.last()), HISTORY_CAPACITY as nat) == last_n(
                last_n(history, HISTORY_CAPACITY as nat).push(readings.last()),
                HISTORY_CAPACITY as nat,
            ));
        }
    } else {
        assert(history + readings =~= history);
    }
}

/// Recording readings into a fresh detector keeps the last 8 of them, and
/// the history is never longer than 8.
pub proof fn lemma_fresh_history<V>(readings: Seq<V>)
    ensures
        history_after(Seq::<V>::empty(), readings) == last_n(readings, HISTORY_CAPACITY as nat),
        history_after(Seq::<V>::empty(), readings).len() == if readings.len() < HISTORY_CAPACITY {
            readings.len()
        } else {
            HISTORY_CAPACITY as nat
        },
{
    lemma_history_keeps_last(Seq::<V>::empty(), readings);
    assert(Seq::<V>::empty() + readings =~= readings);
}

} // verus!
