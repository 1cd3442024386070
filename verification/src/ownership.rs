//! Borrowing and slices: measuring and extending strings, summing a slice,
//! and cutting the first word out of a sentence.
use vstd::prelude::*;
use vstd::utf8::encode_utf8;
use crate::text::byte_len;

verus! {

/// The length of `s` in bytes of its UTF-8 encoding.
pub fn calculate_length(s: &String) -> (r: usize)
    ensures
        r as int == encode_utf8(s@).len(),
{
    byte_len(s.as_str())
}

/// Appends `!` to `s`.
pub fn add_exclamation(s: &mut String)
    ensures
        final(s)@ == old(s)@ + "!"@,
{
    s.append("!");
}

/// The sum of a sequence of integers.
pub open spec fn seq_sum(s: Seq<i32>) -> int
    decreases s.len(),
{
    if s.len() == 0 {
        0
    } else {
        seq_sum(s.drop_last()) + s.last()
    }
}

/// Every running total of `s`, from the left, fits in an `i32`.
pub open spec fn running_sums_fit(s: Seq<i32>) -> bool {
    forall|k: int| 0 <= k <= s.len() ==> i32::MIN <= #[trigger] seq_sum(s.take(k)) <= i32::MAX
}

/// The sum of the numbers; each running total must fit in an `i32`, as the
/// unchecked addition would overflow otherwise.
pub fn sum_slice(numbers: &[i32]) -> (r: i32)
    requires
        running_sums_fit(numbers@),
    ensures
        r == seq_sum(numbers@),
{
    let mut total: i32 = 0;
    let mut i: usize = 0;
    assert(numbers@.take(0) =~= Seq::<i32>::empty());
    while i < numbers.len()
        invariant
            i <= numbers@.len(),
            running_sums_fit(numbers@),
            total == seq_sum(numbers@.take(i as int)),
        decreases numbers@.len() - i,
    {
        assert(numbers@.take(i + 1).drop_last() =~= numbers@.take(i as int));
        assert(i32::MIN <= seq_sum(numbers@.take(i + 1)) <= i32::MAX);
        total = total + numbers[i];
        i = i + 1;
    }
    assert(numbers@.take(numbers@.len() as int) =~= numbers@);
    total
}

/// `w` is the part of `s` before its first occurrence of `c` (all of `s`
/// when `c` does not occur).
pub open spec fn prefix_before(s: Seq<char>, c: char, w: Seq<char>) -> bool {
    &&& w.len() <= s.len()
    &&& w == s.take(w.len() as int)
    &&& forall|j: int| 0 <= j < w.len() ==> s[j] != c
    &&& w.len() < s.len() ==> s[w.len() as int] == c
}

/// The position of the first `c` in `s`, or the length of `s`.
pub fn position_or_len(s: &str, c: char) -> (r: usize)
    ensures
        r <= s@.len(),
        forall|j: int| 0 <= j < r ==> s@[j] != c,
        r < s@.len() ==> s@[r as int] == c,
{
    let n = s.unicode_len();
    let mut i: usize = 0;
    while i < n
        invariant
            n == s@.len(),
            i <= n,
            forall|j: int| 0 <= j < i ==> s@[j] != c,
        decreases n - i,
    {
        if s.get_char(i) == c {
            return i;
        }
        i = i + 1;
    }
    n
}

/// The text before the first space (the whole text when there is none).
pub fn first_word(s: &str) -> (r: &str)
    ensures
        prefix_before(s@, ' ', r@),
{
    let end = position_or_len(s, ' ');
    s.substring_char(0, end)
}

} // verus!
