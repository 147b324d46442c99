//! Runs of fixed-width records: how a sequence of items lies in a byte string.

use vstd::prelude::*;

verus! {

/// The encodings of `items`, one after the other.
#[verifier::opaque]
pub open spec fn concat_records<T>(items: Seq<T>, enc: spec_fn(T) -> Seq<u8>) -> Seq<u8>
    decreases items.len(),
{
    if items.len() == 0 {
        Seq::empty()
    } else {
        concat_records(items.drop_last(), enc) + enc(items.last())
    }
}

/// The `n` items that `bytes` holds in consecutive slots of `width` bytes.
pub open spec fn split_records<T>(
    bytes: Seq<u8>,
    width: nat,
    n: nat,
    dec: spec_fn(Seq<u8>) -> T,
) -> Seq<T> {
    Seq::new(n, |i: int| dec(bytes.subrange(i * width, i * width + width)))
}

/// Every item of `items` encodes to exactly `width` bytes.
pub open spec fn fixed_width<T>(items: Seq<T>, enc: spec_fn(T) -> Seq<u8>, width: nat) -> bool {
    forall|i: int| 0 <= i < items.len() ==> (#[trigger] enc(items[i])).len() == width
}

/// A run of no records is empty.
pub proof fn lemma_concat_empty<T>(items: Seq<T>, enc: spec_fn(T) -> Seq<u8>)
    requires
        items.len() == 0,
    ensures
        concat_records(items, enc) == Seq::<u8>::empty(),
{
    reveal_with_fuel(concat_records, 1);
}

/// Appending an item appends its encoding.
pub proof fn lemma_concat_push<T>(items: Seq<T>, item: T, enc: spec_fn(T) -> Seq<u8>)
    ensures
        concat_records(items.push(item), enc) == concat_records(items, enc) + enc(item),
{
    reveal_with_fuel(concat_records, 2);
    assert(items.push(item).drop_last() =~= items);
}

/// A run of `n` records of `width` bytes is `n * width` bytes long.
pub proof fn lemma_concat_len<T>(items: Seq<T>, enc: spec_fn(T) -> Seq<u8>, width: nat)
    requires
        fixed_width(items, enc, width),
    ensures
        concat_records(items, enc).len() == items.len() * width,
    decreases items.len(),
{
    reveal_with_fuel(concat_records, 2);
    if items.len() > 0 {
        let rest = items.drop_last();
        assert forall|i: int| 0 <= i < rest.len() implies (#[trigger] enc(rest[i])).len()
            == width by {
            assert(rest[i] == items[i]);
        }
        lemma_concat_len(rest, enc, width);
        assert(enc(items[items.len() - 1]).len() == width);
        assert(items.len() * width == rest.len() * width + width) by (nonlinear_arith)
            requires
                items.len() == rest.len() + 1,
        ;
    } else {
        assert(items.len() * width == 0) by (nonlinear_arith)
            requires
                items.len() == 0,
        ;
    }
}

/// The slot `i` of a run holds the encoding of item `i`.
pub proof fn lemma_concat_slot<T>(
    items: Seq<T>,
    enc: spec_fn(T) -> Seq<u8>,
    width: nat,
    i: int,
)
    requires
        fixed_width(items, enc, width),
        0 <= i < items.len(),
    ensures
        i * width + width <= concat_records(items, enc).len(),
        concat_records(items, enc).subrange(i * width, i * width + width) == enc(items[i]),
    decreases items.len(),
{
    reveal_with_fuel(concat_records, 2);
    let rest = items.drop_last();
    assert forall|k: int| 0 <= k < rest.len() implies (#[trigger] enc(rest[k])).len() == width by {
        assert(rest[k] == items[k]);
    }
    lemma_concat_len(rest, enc, width);
    lemma_concat_len(items, enc, width);
    let last = enc(items.last());
    assert(last.len() == width) by {
        assert(enc(items[items.len() - 1]).len() == width);
    }
    let all = concat_records(items, enc);
    assert(all == concat_records(rest, enc) + last);
    if i == items.len() - 1 {
        assert(i * width == rest.len() * width);
        assert(all.subrange(i * width, i * width + width) =~= last);
    } else {
        lemma_concat_slot(rest, enc, width, i);
        assert(rest[i] == items[i]);
        assert(all.subrange(i * width, i * width + width) =~= concat_records(rest, enc).subrange(
            i * width,
            i * width + width,
        ));
    }
    assert(i * width + width <= items.len() * width) by (nonlinear_arith)
        requires
            0 <= i < items.len(),
    ;
}

/// Splitting a run gives back the items it was made of.
pub proof fn lemma_split_of_concat<T>(
    items: Seq<T>,
    enc: spec_fn(T) -> Seq<u8>,
    dec: spec_fn(Seq<u8>) -> T,
    width: nat,
)
    requires
        fixed_width(items, enc, width),
        forall|i: int| 0 <= i < items.len() ==> dec(#[trigger] enc(items[i])) == items[i],
    ensures
        split_records(concat_records(items, enc), width, items.len(), dec) == items,
{
    let bytes = concat_records(items, enc);
    let back = split_records(bytes, width, items.len(), dec);
    assert forall|i: int| 0 <= i < items.len() implies back[i] == items[i] by {
        lemma_concat_slot(items, enc, width, i);
        assert(dec(enc(items[i])) == items[i]);
    }
    assert(back =~= items);
}

/// Joining the items split from `n * width` bytes gives back those bytes.
pub proof fn lemma_concat_of_split<T>(
    bytes: Seq<u8>,
    enc: spec_fn(T) -> Seq<u8>,
    dec: spec_fn(Seq<u8>) -> T,
    width: nat,
    n: nat,
)
    requires
        bytes.len() == n * width,
        forall|s: Seq<u8>| s.len() == width ==> #[trigger] enc(dec(s)) == s,
    ensures
        concat_records(split_records(bytes, width, n, dec), enc) == bytes,
    decreases n,
{
    reveal_with_fuel(concat_records, 2);
    let items = split_records(bytes, width, n, dec);
    if n == 0 {
        assert(n * width == 0) by (nonlinear_arith)
            requires
                n == 0,
        ;
        assert(bytes =~= Seq::<u8>::empty());
    } else {
        let m = (n - 1) as nat;
        assert(n * width == m * width + width) by (nonlinear_arith)
            requires
                n == m + 1,
        ;
        let head = bytes.subrange(0, (m * width) as int);
        let tail = bytes.subrange((m * width) as int, (m * width + width) as int);
        lemma_concat_of_split(head, enc, dec, width, m);
        let rest = split_records(head, width, m, dec);
        assert forall|i: int| 0 <= i < m implies rest[i] == items.drop_last()[i] by {
            assert(i * width + width <= m * width) by (nonlinear_arith)
                requires
                    0 <= i < m,
            ;
            assert(head.subrange(i * width, i * width + width) =~= bytes.subrange(
                i * width,
                i * width + width,
            ));
        }
        assert(rest =~= items.drop_last());
        assert(items.last() == dec(tail));
        assert(enc(dec(tail)) == tail);
        assert(head + tail =~= bytes);
    }
}

} // verus!
