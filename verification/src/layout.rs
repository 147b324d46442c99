//! Where the transducers of each device lie in the arrays that hold all of them.
//!
//! The transducers of all devices are kept in one run, device after device. The layout holds
//! the index at which each device starts, and one index more: the total.

use vstd::prelude::*;

verus! {

/// How many transducers the first `i` devices have together.
pub open spec fn spec_offset(counts: Seq<usize>, i: int) -> int
    decreases i,
{
    if i <= 0 {
        0
    } else {
        spec_offset(counts, i - 1) + counts[i - 1]
    }
}

/// The start of every device whose transducer count is in `counts`, and the total at the end.
pub open spec fn spec_offsets(counts: Seq<usize>) -> Seq<int> {
    Seq::new(counts.len() + 1, |i: int| spec_offset(counts, i))
}

/// The total never shrinks as devices are added.
pub proof fn lemma_offset_monotone(counts: Seq<usize>, i: int, j: int)
    requires
        0 <= i <= j <= counts.len(),
    ensures
        0 <= spec_offset(counts, i) <= spec_offset(counts, j),
    decreases j,
{
    if i < j {
        lemma_offset_monotone(counts, i, j - 1);
    } else if 0 < i {
        lemma_offset_monotone(counts, 0, i - 1);
        lemma_offset_monotone(counts, i - 1, i - 1);
    }
}

/// The first index of each device in the run of all transducers.
#[derive(Debug, PartialEq, Eq)]
pub struct TransducerLayout {
    offsets: Vec<usize>,
}

impl View for TransducerLayout {
    type V = Seq<int>;

    /// The start of every device, and the total at the end.
    closed spec fn view(&self) -> Seq<int> {
        Seq::new(self.offsets@.len(), |i: int| self.offsets@[i] as int)
    }
}

impl TransducerLayout {
    /// The layout starts at zero and never steps back.
    #[verifier::type_invariant]
    pub open spec fn wf(self) -> bool {
        &&& self@.len() >= 1
        &&& self@[0] == 0
        &&& forall|i: int, j: int| 0 <= i <= j < self@.len() ==> self@[i] <= self@[j]
    }

    /// The layout of no devices.
    pub fn new() -> (r: TransducerLayout)
        ensures
            r.wf(),
            r@ == seq![0int],
    {
        let mut offsets: Vec<usize> = Vec::new();
        offsets.push(0);
        let r = TransducerLayout { offsets };
        assert(r@ =~= seq![0int]);
        r
    }

    /// The layout of devices with the given transducer counts, or nothing where their total
    /// is more than this machine can index.
    pub fn from_counts(counts: &[usize]) -> (r: Option<TransducerLayout>)
        ensures
            r is Some <==> spec_offset(counts@, counts@.len() as int) <= usize::MAX,
            r matches Some(layout) ==> layout.wf() && layout@ == spec_offsets(counts@),
    {
        let mut offsets: Vec<usize> = Vec::new();
        offsets.push(0);
        let mut cursor: usize = 0;
        let mut i: usize = 0;
        while i < counts.len()
            invariant
                i <= counts@.len(),
                offsets@.len() == i + 1,
                cursor == spec_offset(counts@, i as int),
                forall|k: int| 0 <= k <= i ==> offsets@[k] == spec_offset(counts@, k),
            decreases counts@.len() - i,
        {
            let count = counts[i];
            if count > usize::MAX - cursor {
                proof {
                    lemma_offset_monotone(counts@, i + 1, counts@.len() as int);
                }
                return None;
            }
            cursor = cursor + count;
            offsets.push(cursor);
            i += 1;
        }
        proof {
            assert forall|a: int, b: int| 0 <= a <= b < offsets@.len() implies offsets@[a]
                <= offsets@[b] by {
                lemma_offset_monotone(counts@, a, b);
            }
        }
        let layout = TransducerLayout { offsets };
        assert(layout@ =~= spec_offsets(counts@));
        Some(layout)
    }

    /// How many devices the layout covers.
    pub fn num_devices(&self) -> (n: usize)
        ensures
            n == self@.len() - 1,
    {
        proof {
            use_type_invariant(self);
        }
        self.offsets.len() - 1
    }

    /// How many transducers all devices have together.
    pub fn len(&self) -> (n: usize)
        ensures
            n == self@.last(),
    {
        proof {
            use_type_invariant(self);
        }
        self.offsets[self.offsets.len() - 1]
    }

    /// The indices of the transducers of `device`: from the first of the pair up to, and
    /// not including, the second. Nothing for a device that the layout does not cover.
    pub fn range(&self, device: usize) -> (r: Option<(usize, usize)>)
        ensures
            r is Some <==> device < self@.len() - 1,
            r matches Some((start, end)) ==> {
                &&& start == self@[device as int]
                &&& end == self@[device + 1]
                &&& start <= end <= self@.last()
            },
    {
        proof {
            use_type_invariant(self);
        }
        if device < self.offsets.len() - 1 {
            proof {
                let last = self@.len() - 1;
                assert(self@[device as int] <= self@[device + 1]);
                assert(self@[device + 1] <= self@[last]);
            }
            Some((self.offsets[device], self.offsets[device + 1]))
        } else {
            None
        }
    }

    /// Forgets every device.
    pub fn clear(&mut self)
        ensures
            final(self).wf(),
            final(self)@ == seq![0int],
    {
        let mut offsets: Vec<usize> = Vec::new();
        offsets.push(0);
        self.offsets = offsets;
        assert(self@ =~= seq![0int]);
    }
}

} // verus!
