//! Dirty flags: which derived state must be recomputed before the next frame.

use vstd::prelude::*;

verus! {

/// One kind of derived state that can become stale.
#[derive(Clone, Copy, Debug, PartialEq, Eq, Structural)]
pub enum UpdateKind {
    SliceColorMap,
    SlicePos,
    SliceSize,
    Camera,
    TransState,
    TransAlpha,
    TransPos,
    Config,
}

/// The bit that stands for `kind` in the packed representation.
pub open spec fn bit_of(kind: UpdateKind) -> u32 {
    match kind {
        UpdateKind::SliceColorMap => 0x01,
        UpdateKind::SlicePos => 0x02,
        UpdateKind::SliceSize => 0x04,
        UpdateKind::Camera => 0x08,
        UpdateKind::TransState => 0x10,
        UpdateKind::TransAlpha => 0x20,
        UpdateKind::TransPos => 0x40,
        UpdateKind::Config => 0x80,
    }
}

/// The kinds whose bit is set in `bits`.
pub open spec fn kinds_of(bits: u32) -> Set<UpdateKind> {
    Set::new(|k: UpdateKind| bits & bit_of(k) != 0)
}

/// Every kind there is.
pub open spec fn every_kind() -> Set<UpdateKind> {
    Set::new(|k: UpdateKind| true)
}

/// Whether `m` is the bit of some kind.
spec fn is_kind_bit(m: u32) -> bool {
    m == 0x01 || m == 0x02 || m == 0x04 || m == 0x08 || m == 0x10 || m == 0x20 || m == 0x40 || m
        == 0x80
}

proof fn lemma_single_bit(k: UpdateKind)
    ensures
        is_kind_bit(bit_of(k)),
{
}

proof fn lemma_union_bit(a: u32, b: u32, m: u32)
    by (bit_vector)
    ensures
        ((a | b) & m != 0) == (a & m != 0 || b & m != 0),
{
}

proof fn lemma_difference_bit(a: u32, b: u32, m: u32)
    by (bit_vector)
    requires
        is_kind_bit(m),
    ensures
        ((a & !b) & m != 0) == (a & m != 0 && !(b & m != 0)),
{
}

proof fn lemma_range(a: u32, b: u32)
    by (bit_vector)
    requires
        a <= 0xFF,
        b <= 0xFF,
    ensures
        a | b <= 0xFF,
        a & !b <= 0xFF,
{
}

proof fn lemma_zero_bits(a: u32)
    by (bit_vector)
    requires
        a <= 0xFF,
    ensures
        a == 0 <==> (a & 0x01 == 0 && a & 0x02 == 0 && a & 0x04 == 0 && a & 0x08 == 0 && a & 0x10
            == 0 && a & 0x20 == 0 && a & 0x40 == 0 && a & 0x80 == 0),
{
}

proof fn lemma_subset_bits(a: u32, b: u32)
    by (bit_vector)
    requires
        b <= 0xFF,
    ensures
        (a & b == b) <==> ((b & 0x01 != 0 ==> a & 0x01 != 0) && (b & 0x02 != 0 ==> a & 0x02 != 0)
            && (b & 0x04 != 0 ==> a & 0x04 != 0) && (b & 0x08 != 0 ==> a & 0x08 != 0) && (b & 0x10
            != 0 ==> a & 0x10 != 0) && (b & 0x20 != 0 ==> a & 0x20 != 0) && (b & 0x40 != 0 ==> a
            & 0x40 != 0) && (b & 0x80 != 0 ==> a & 0x80 != 0)),
{
}

proof fn lemma_one_bit(m: u32, n: u32)
    by (bit_vector)
    requires
        is_kind_bit(m),
        is_kind_bit(n),
    ensures
        (m & n != 0) == (m == n),
{
}

proof fn lemma_all_bits()
    ensures
        kinds_of(0xFF) == every_kind(),
{
    assert forall|k: UpdateKind| #[trigger] kinds_of(0xFF).contains(k) by {
        let m = bit_of(k);
        lemma_single_bit(k);
        assert(0xFFu32 & m != 0) by (bit_vector)
            requires
                is_kind_bit(m),
        ;
    }
    assert(kinds_of(0xFF) =~= every_kind());
}

proof fn lemma_kinds_empty(a: u32)
    requires
        a <= 0xFF,
    ensures
        a == 0 <==> kinds_of(a) == Set::<UpdateKind>::empty(),
{
    lemma_zero_bits(a);
    if a == 0 {
        assert forall|k: UpdateKind| !(#[trigger] kinds_of(a).contains(k)) by {
            let m = bit_of(k);
            assert(0u32 & m == 0) by (bit_vector);
        }
        assert(kinds_of(a) =~= Set::<UpdateKind>::empty());
    }
    if kinds_of(a) == Set::<UpdateKind>::empty() {
        assert(!kinds_of(a).contains(UpdateKind::SliceColorMap));
        assert(!kinds_of(a).contains(UpdateKind::SlicePos));
        assert(!kinds_of(a).contains(UpdateKind::SliceSize));
        assert(!kinds_of(a).contains(UpdateKind::Camera));
        assert(!kinds_of(a).contains(UpdateKind::TransState));
        assert(!kinds_of(a).contains(UpdateKind::TransAlpha));
        assert(!kinds_of(a).contains(UpdateKind::TransPos));
        assert(!kinds_of(a).contains(UpdateKind::Config));
    }
}

proof fn lemma_kinds_subset(a: u32, b: u32)
    requires
        b <= 0xFF,
    ensures
        (a & b == b) <==> kinds_of(b).subset_of(kinds_of(a)),
{
    lemma_subset_bits(a, b);
    if kinds_of(b).subset_of(kinds_of(a)) {
        assert(kinds_of(b).contains(UpdateKind::SliceColorMap) ==> kinds_of(a).contains(
            UpdateKind::SliceColorMap,
        ));
        assert(kinds_of(b).contains(UpdateKind::SlicePos) ==> kinds_of(a).contains(
            UpdateKind::SlicePos,
        ));
        assert(kinds_of(b).contains(UpdateKind::SliceSize) ==> kinds_of(a).contains(
            UpdateKind::SliceSize,
        ));
        assert(kinds_of(b).contains(UpdateKind::Camera) ==> kinds_of(a).contains(
            UpdateKind::Camera,
        ));
        assert(kinds_of(b).contains(UpdateKind::TransState) ==> kinds_of(a).contains(
            UpdateKind::TransState,
        ));
        assert(kinds_of(b).contains(UpdateKind::TransAlpha) ==> kinds_of(a).contains(
            UpdateKind::TransAlpha,
        ));
        assert(kinds_of(b).contains(UpdateKind::TransPos) ==> kinds_of(a).contains(
            UpdateKind::TransPos,
        ));
        assert(kinds_of(b).contains(UpdateKind::Config) ==> kinds_of(a).contains(
            UpdateKind::Config,
        ));
    }
}

proof fn lemma_kinds_union(a: u32, b: u32)
    ensures
        kinds_of(a | b) == kinds_of(a).union(kinds_of(b)),
{
    assert forall|k: UpdateKind|
        kinds_of(a | b).contains(k) == (kinds_of(a).contains(k) || kinds_of(b).contains(k)) by {
        lemma_union_bit(a, b, bit_of(k));
    }
    assert(kinds_of(a | b) =~= kinds_of(a).union(kinds_of(b)));
}

proof fn lemma_kinds_difference(a: u32, b: u32)
    ensures
        kinds_of(a & !b) == kinds_of(a).difference(kinds_of(b)),
{
    assert forall|k: UpdateKind|
        kinds_of(a & !b).contains(k) == (kinds_of(a).contains(k) && !kinds_of(b).contains(k)) by {
        lemma_single_bit(k);
        lemma_difference_bit(a, b, bit_of(k));
    }
    assert(kinds_of(a & !b) =~= kinds_of(a).difference(kinds_of(b)));
}

proof fn lemma_kinds_single(kind: UpdateKind)
    ensures
        kinds_of(bit_of(kind)) == set![kind],
{
    assert forall|k: UpdateKind| kinds_of(bit_of(kind)).contains(k) == (k == kind) by {
        lemma_single_bit(k);
        lemma_single_bit(kind);
        lemma_one_bit(bit_of(kind), bit_of(k));
    }
    assert(kinds_of(bit_of(kind)) =~= set![kind]);
}

/// A set of dirty flags, packed into the low eight bits of a word.
#[derive(Clone, Copy, Debug, PartialEq, Eq, Structural)]
pub struct UpdateFlag(u32);

impl View for UpdateFlag {
    type V = Set<UpdateKind>;

    /// The kinds that are marked dirty.
    closed spec fn view(&self) -> Set<UpdateKind> {
        kinds_of(self.0)
    }
}

impl UpdateFlag {
    /// No bit above the eight that stand for a kind is ever set.
    #[verifier::type_invariant]
    pub closed spec fn wf(self) -> bool {
        self.0 <= 0xFF
    }

    /// The flag set that holds `kind` and nothing else.
    pub fn of(kind: UpdateKind) -> (r: UpdateFlag)
        ensures
            r.wf(),
            r@ == set![kind],
    {
        let bits: u32 = match kind {
            UpdateKind::SliceColorMap => 0x01,
            UpdateKind::SlicePos => 0x02,
            UpdateKind::SliceSize => 0x04,
            UpdateKind::Camera => 0x08,
            UpdateKind::TransState => 0x10,
            UpdateKind::TransAlpha => 0x20,
            UpdateKind::TransPos => 0x40,
            UpdateKind::Config => 0x80,
        };
        proof {
            lemma_kinds_single(kind);
        }
        UpdateFlag(bits)
    }

    /// The flag set with nothing marked.
    pub fn empty() -> (r: UpdateFlag)
        ensures
            r.wf(),
            r@ == Set::<UpdateKind>::empty(),
    {
        proof {
            lemma_kinds_empty(0);
        }
        UpdateFlag(0)
    }

    /// The flag set with every kind marked.
    pub fn all() -> (r: UpdateFlag)
        ensures
            r.wf(),
            r@ == every_kind(),
    {
        proof {
            lemma_all_bits();
        }
        UpdateFlag(0xFF)
    }

    /// Whether nothing is marked.
    pub fn is_empty(&self) -> (r: bool)
        ensures
            r <==> self@ == Set::<UpdateKind>::empty(),
    {
        proof {
            use_type_invariant(self);
            lemma_kinds_empty(self.0);
        }
        self.0 == 0
    }

    /// Whether every kind marked in `other` is marked in `self` too.
    pub fn contains(&self, other: UpdateFlag) -> (r: bool)
        ensures
            r <==> other@.subset_of(self@),
    {
        proof {
            use_type_invariant(&other);
            lemma_kinds_subset(self.0, other.0);
        }
        (self.0 & other.0) == other.0
    }

    /// Marks the kinds of `other` where `value` is true, and clears them where it is false.
    pub fn set(&mut self, other: UpdateFlag, value: bool)
        ensures
            final(self).wf(),
            final(self)@ == if value {
                old(self)@.union(other@)
            } else {
                old(self)@.difference(other@)
            },
    {
        proof {
            use_type_invariant(&*self);
            use_type_invariant(&other);
            lemma_range(self.0, other.0);
            lemma_kinds_union(self.0, other.0);
            lemma_kinds_difference(self.0, other.0);
        }
        if value {
            self.0 = self.0 | other.0;
        } else {
            self.0 = self.0 & !other.0;
        }
    }

    /// Clears the kinds of `other`.
    pub fn remove(&mut self, other: UpdateFlag)
        ensures
            final(self).wf(),
            final(self)@ == old(self)@.difference(other@),
    {
        proof {
            use_type_invariant(&*self);
            use_type_invariant(&other);
            lemma_range(self.0, other.0);
            lemma_kinds_difference(self.0, other.0);
        }
        self.0 = self.0 & !other.0;
    }
}

impl Default for UpdateFlag {
    fn default() -> (r: UpdateFlag)
        ensures
            r@ == Set::<UpdateKind>::empty(),
    {
        UpdateFlag::empty()
    }
}

} // verus!
