//! Fixed-capacity FIFO history buffer for one metric stream.

use vstd::prelude::*;

verus! {

/// What one push leaves behind: the sample is appended, and if the buffer
/// would then exceed its capacity, the oldest sample is dropped.
pub open spec fn pushed<T>(prior: Seq<T>, capacity: nat, sample: T) -> Seq<T> {
    if prior.len() + 1 > capacity {
        prior.push(sample).drop_first()
    } else {
        prior.push(sample)
    }
}

/// The contents after a whole sequence of pushes, applied oldest-first.
pub open spec fn pushed_all<T>(prior: Seq<T>, capacity: nat, samples: Seq<T>) -> Seq<T>
    decreases samples.len(),
{
    if samples.len() == 0 {
        prior
    } else {
        pushed_all(pushed(prior, capacity, samples.first()), capacity, samples.drop_first())
    }
}

/// A bounded, append-only buffer of samples, oldest first. Once the fixed
/// capacity is reached, each push evicts the oldest sample.
pub struct History<T> {
    samples: Vec<T>,
    capacity: usize,
}

impl<T> View for History<T> {
    type V = Seq<T>;

    closed spec fn view(&self) -> Seq<T> {
        self.samples@
    }
}

impl<T> History<T> {
    /// The capacity fixed at construction.
    pub closed spec fn cap(&self) -> nat {
        self.capacity as nat
    }

    /// The buffer never holds more samples than its capacity.
    pub open spec fn wf(&self) -> bool {
        self@.len() <= self.cap()
    }

    pub fn new(capacity: usize) -> (h: Self)
        ensures
            h@ == Seq::<T>::empty(),
            h.cap() == capacity,
            h.wf(),
    {
        History { samples: Vec::new(), capacity }
    }

    /// Appends `sample` as the newest entry; if the buffer would exceed its
    /// capacity, the oldest entry is evicted.
    pub fn push(&mut self, sample: T)
        requires
            old(self).wf(),
        ensures
            final(self)@ == pushed(old(self)@, old(self).cap(), sample),
            final(self).cap() == old(self).cap(),
            final(self).wf(),
    {
        self.samples.push(sample);
        if self.samples.len() > self.capacity {
            self.samples.remove(0);
            proof {
                assert(self.samples@ =~= old(self).samples@.push(sample).drop_first());
            }
        }
    }

    /// Read-only view of the stored samples, oldest first.
    pub fn snapshot(&self) -> (s: &Vec<T>)
        ensures
            s@ == self@,
    {
        &self.samples
    }

    pub fn len(&self) -> (n: usize)
        ensures
            n == self@.len(),
    {
        self.samples.len()
    }

    pub fn capacity(&self) -> (c: usize)
        ensures
            c == self.cap(),
    {
        self.capacity
    }
}

/// Helper for the retention law: starting from any well-formed contents, a run
/// of pushes leaves the longest suffix of `prior + samples` that fits.
proof fn lemma_pushed_all_suffix<T>(prior: Seq<T>, capacity: nat, samples: Seq<T>)
    requires
        prior.len() <= capacity,
    ensures
        ({
            let all = prior + samples;
            let kept = if all.len() <= capacity {
                all.len()
            } else {
                capacity
            };
            pushed_all(prior, capacity, samples) == all.skip(all.len() - kept)
        }),
    decreases samples.len(),
{
    let all = prior + samples;
    let kept = if all.len() <= capacity {
        all.len()
    } else {
        capacity
    };
    if samples.len() == 0 {
        assert(all =~= prior);
        assert(all.skip(all.len() - kept) =~= prior);
    } else {
        let next = pushed(prior, capacity, samples.first());
        assert(next.len() <= capacity);
        lemma_pushed_all_suffix(next, capacity, samples.drop_first());
        let rest = next + samples.drop_first();
        let kept_rest = if rest.len() <= capacity {
            rest.len()
        } else {
            capacity
        };
        assert(pushed_all(prior, capacity, samples) == rest.skip(rest.len() - kept_rest));
        if prior.len() + 1 > capacity {
            assert(rest =~= all.skip(1));
        } else {
            assert(rest =~= all);
        }
        assert(rest.skip(rest.len() - kept_rest) =~= all.skip(all.len() - kept));
    }
}

/// Retention law: after pushing a sequence of samples into an empty buffer of
/// some capacity, the buffer holds `min(samples.len(), capacity)` entries, and
/// they are exactly the most recently pushed samples, in push order.
pub proof fn lemma_history_retains_latest<T>(capacity: nat, samples: Seq<T>)
    ensures
        pushed_all(Seq::<T>::empty(), capacity, samples).len() == if samples.len() <= capacity {
            samples.len()
        } else {
            capacity
        },
        pushed_all(Seq::<T>::empty(), capacity, samples) == samples.skip(
            if samples.len() <= capacity {
                0
            } else {
                samples.len() - capacity
            },
        ),
{
    let prior = Seq::<T>::empty();
    lemma_pushed_all_suffix(prior, capacity, samples);
    assert(prior + samples =~= samples);
}

} // verus!
