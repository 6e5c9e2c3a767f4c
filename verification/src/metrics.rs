//! Bounded histories of percentages for the live charts.
use vstd::prelude::*;
use crate::status::Snapshot;

verus! {

/// How many samples a history keeps.
pub const HISTORY_SAMPLES: usize = 80;

/// `used` as a percentage of `total`, clamped to 100; 0 for an empty total.
/// The product `used * 100` saturates at `u64::MAX`.
pub open spec fn percent_of(used: nat, total: nat) -> nat {
    if total == 0 {
        0
    } else {
        let product = if used * 100 > u64::MAX {
            u64::MAX as nat
        } else {
            used * 100
        };
        if product / total > 100 {
            100
        } else {
            product / total
        }
    }
}

/// `used` as a percentage of `total`.
pub fn percent(used: u64, total: u64) -> (r: u8)
    ensures
        r == percent_of(used as nat, total as nat),
        r <= 100,
{
    let product = if used > u64::MAX / 100 {
        u64::MAX
    } else {
        used * 100
    };
    if total == 0 {
        return 0;
    }
    let q = product / total;
    if q > 100 {
        100
    } else {
        q as u8
    }
}

/// The history after one sample: the oldest sample leaves a full history,
/// and the new one, clamped to 100, joins at the end.
pub open spec fn pushed(samples: Seq<u8>, value: u8) -> Seq<u8> {
    let kept = if samples.len() == HISTORY_SAMPLES {
        samples.drop_first()
    } else {
        samples
    };
    kept.push(if value > 100 {
        100
    } else {
        value
    })
}

/// Appends one sample to a history.
pub fn push_sample(samples: &mut Vec<u8>, value: u8)
    ensures
        final(samples)@ == pushed(old(samples)@, value),
{
    if samples.len() == HISTORY_SAMPLES {
        samples.remove(0);
    }
    samples.push(if value > 100 {
        100
    } else {
        value
    });
}

/// The history built by pushing `values`, in order, onto `start`.
pub open spec fn pushed_all(start: Seq<u8>, values: Seq<u8>) -> Seq<u8>
    decreases values.len(),
{
    if values.len() == 0 {
        start
    } else {
        pushed(pushed_all(start, values.drop_last()), values.last())
    }
}

/// A value clamped to a percentage.
pub open spec fn clamp_percent(v: u8) -> u8 {
    if v > 100 {
        100
    } else {
        v
    }
}

/// A history that starts empty holds the latest `HISTORY_SAMPLES` values
/// pushed (all of them while there are fewer), each clamped to 100, oldest first.
pub proof fn lemma_history_window(values: Seq<u8>)
    ensures
        pushed_all(seq![], values).len() == if values.len() < HISTORY_SAMPLES {
            values.len()
        } else {
            HISTORY_SAMPLES as nat
        },
        forall|i: int|
            0 <= i < pushed_all(seq![], values).len() ==> #[trigger] pushed_all(seq![], values)[i]
                == clamp_percent(values[values.len() - pushed_all(seq![], values).len() + i]),
    decreases values.len(),
{
    if values.len() > 0 {
        let prev = values.drop_last();
        lemma_history_window(prev);
        let h = pushed_all(seq![], prev);
        let h2 = pushed_all(seq![], values);
        assert(h2 == pushed(h, values.last()));
        assert forall|i: int| 0 <= i < h2.len() implies #[trigger] h2[i] == clamp_percent(
            values[values.len() - h2.len() + i],
        ) by {
            if i < h2.len() - 1 {
                if h.len() == HISTORY_SAMPLES {
                    assert(h2[i] == h[i + 1]);
                    assert(prev[prev.len() - h.len() + i + 1] == values[values.len() - h2.len()
                        + i]);
                } else {
                    assert(h2[i] == h[i]);
                    assert(prev[prev.len() - h.len() + i] == values[values.len() - h2.len() + i]);
                }
            }
        }
    }
}

/// A history never grows past `HISTORY_SAMPLES`, and every sample in it is a
/// percentage: both hold of a history before a push, and so after it.
pub proof fn lemma_history_bounded(samples: Seq<u8>, value: u8)
    requires
        samples.len() <= HISTORY_SAMPLES,
        forall|i: int| 0 <= i < samples.len() ==> #[trigger] samples[i] <= 100,
    ensures
        pushed(samples, value).len() <= HISTORY_SAMPLES,
        forall|i: int|
            0 <= i < pushed(samples, value).len() ==> #[trigger] pushed(samples, value)[i] <= 100,
{
    let p = pushed(samples, value);
    assert forall|i: int| 0 <= i < p.len() implies #[trigger] p[i] <= 100 by {
        if i < p.len() - 1 {
            if samples.len() == HISTORY_SAMPLES {
                assert(p[i] == samples[i + 1]);
            } else {
                assert(p[i] == samples[i]);
            }
        }
    }
}

/// Recent load, memory and swap percentages.
pub struct MetricHistory {
    pub load: Vec<u8>,
    pub memory: Vec<u8>,
    pub swap: Vec<u8>,
}

impl MetricHistory {
    pub fn new() -> (r: MetricHistory)
        ensures
            r.load@ == Seq::<u8>::empty(),
            r.memory@ == Seq::<u8>::empty(),
            r.swap@ == Seq::<u8>::empty(),
    {
        MetricHistory {
            load: Vec::with_capacity(HISTORY_SAMPLES),
            memory: Vec::with_capacity(HISTORY_SAMPLES),
            swap: Vec::with_capacity(HISTORY_SAMPLES),
        }
    }

    /// Records one snapshot: its load sample, the share of memory in use and
    /// the share of swap in use.
    pub fn push(&mut self, snapshot: &Snapshot)
        ensures
            final(self).load@ == pushed(old(self).load@, snapshot.machine.load_sample),
            final(self).memory@ == pushed(
                old(self).memory@,
                percent_of(
                    (if snapshot.machine.mem_total > snapshot.machine.mem_available {
                        snapshot.machine.mem_total - snapshot.machine.mem_available
                    } else {
                        0
                    }) as nat,
                    snapshot.machine.mem_total as nat,
                ) as u8,
            ),
            final(self).swap@ == pushed(
                old(self).swap@,
                percent_of(snapshot.machine.swap_used as nat, snapshot.machine.swap_total as nat)
                    as u8,
            ),
    {
        let m = &snapshot.machine;
        push_sample(&mut self.load, m.load_sample);
        push_sample(&mut self.memory, percent(m.mem_total.saturating_sub(m.mem_available), m.mem_total));
        push_sample(&mut self.swap, percent(m.swap_used, m.swap_total));
    }
}

} // verus!
