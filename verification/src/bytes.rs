//! Helpers on byte strings.
use vstd::prelude::*;

verus! {

/// Whether the `length` bytes of `left` from `left_start` on equal those of
/// `right` from `right_start` on. Every pair of bytes is looked at, whether
/// or not an earlier pair differed, so that the time taken does not tell
/// where the first difference lies.
pub fn ranges_equal(
    left: &[u8],
    left_start: usize,
    right: &[u8],
    right_start: usize,
    length: usize,
) -> (equal: bool)
    requires
        left_start + length <= left.len(),
        right_start + length <= right.len(),
    ensures
        equal == (left@.subrange(left_start as int, left_start + length) == right@.subrange(
            right_start as int,
            right_start + length,
        )),
{
    let ghost left_range = left@.subrange(left_start as int, left_start + length);
    let ghost right_range = right@.subrange(right_start as int, right_start + length);
    let mut equal = true;
    let mut index: usize = 0;
    while index < length
        invariant
            index <= length,
            left_start + length <= left.len(),
            right_start + length <= right.len(),
            left_range == left@.subrange(left_start as int, left_start + length),
            right_range == right@.subrange(right_start as int, right_start + length),
            equal == (forall|i: int| 0 <= i < index ==> left_range[i] == right_range[i]),
        decreases length - index,
    {
        if left[left_start + index] != right[right_start + index] {
            equal = false;
            assert(left_range[index as int] != right_range[index as int]);
        }
        index += 1;
    }
    assert(equal == (left_range =~= right_range));
    equal
}

/// The bytes of `source` from `start` up to, not including, `end`.
pub fn copy_range(source: &[u8], start: usize, end: usize) -> (copy: Vec<u8>)
    requires
        start <= end <= source.len(),
    ensures
        copy@ == source@.subrange(start as int, end as int),
{
    let mut copy: Vec<u8> = Vec::new();
    let mut index = start;
    while index < end
        invariant
            start <= index <= end <= source.len(),
            copy@ == source@.subrange(start as int, index as int),
        decreases end - index,
    {
        copy.push(source[index]);
        index += 1;
    }
    copy
}

/// Appends the bytes of `source` to `target`.
pub fn append_bytes(target: &mut Vec<u8>, source: &[u8])
    ensures
        final(target)@ == old(target)@ + source@,
{
    let mut index: usize = 0;
    while index < source.len()
        invariant
            index <= source.len(),
            target@ == old(target)@ + source@.subrange(0, index as int),
        decreases source.len() - index,
    {
        target.push(source[index]);
        index += 1;
    }
    assert(source@.subrange(0, index as int) == source@);
}

} // verus!
