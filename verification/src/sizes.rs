//! Sizes in bytes: sums that cannot overflow, the number handed to a
//! progress bar, and the text shown to a person.

use vstd::prelude::*;

verus! {

/// The sum of the sizes.
pub open spec fn sum(sizes: Seq<u64>) -> nat
    decreases sizes.len(),
{
    if sizes.len() == 0 {
        0
    } else {
        sum(sizes.drop_last()) + sizes.last() as nat
    }
}

/// `n`, or the largest 64-bit number where `n` does not fit.
pub open spec fn capped(n: nat) -> u64 {
    if n <= u64::MAX {
        n as u64
    } else {
        u64::MAX
    }
}

/// `n`, or the largest `usize` where `n` does not fit.
pub open spec fn capped_usize(n: u64) -> usize {
    if n <= usize::MAX {
        n as usize
    } else {
        usize::MAX
    }
}

/// The sum of the sizes from place `from` on, capped at the largest 64-bit
/// number. From a place behind the last size the sum is zero.
pub fn sum_from(sizes: &Vec<u64>, from: usize) -> (total: u64)
    ensures
        from <= sizes.len() ==> total == capped(sum(sizes@.skip(from as int))),
        from > sizes.len() ==> total == 0,
{
    if from > sizes.len() {
        return 0;
    }
    let mut total: u64 = 0;
    let mut i: usize = from;
    assert(sizes@.subrange(from as int, from as int) =~= Seq::<u64>::empty());
    while i < sizes.len()
        invariant
            from <= i <= sizes.len(),
            total == capped(sum(sizes@.subrange(from as int, i as int))),
        decreases sizes.len() - i,
    {
        proof {
            let upto = sizes@.subrange(from as int, i + 1);
            assert(upto.drop_last() =~= sizes@.subrange(from as int, i as int));
            assert(upto.last() == sizes@[i as int]);
        }
        total = total.saturating_add(sizes[i]);
        i += 1;
    }
    assert(sizes@.subrange(from as int, i as int) =~= sizes@.skip(from as int));
    total
}

/// `n` as a `usize`, capped at the largest.
pub fn to_usize(n: u64) -> (out: usize)
    ensures
        out == capped_usize(n),
{
    if n > usize::MAX as u64 {
        usize::MAX
    } else {
        n as usize
    }
}

/// The text that humansize gives for a number of bytes in its decimal
/// format, such as `1 MB` for a million.
pub uninterp spec fn human_size(bytes: u64) -> Seq<char>;

/// Calls `format_size` of humansize with its options `DECIMAL`. Claimed: the
/// text depends on the number alone.
#[verifier::external_body]
pub(crate) fn format_size_decimal(bytes: u64) -> (text: String)
    ensures
        text@ == human_size(bytes),
{
    humansize::format_size(bytes, humansize::DECIMAL)
}

} // verus!
