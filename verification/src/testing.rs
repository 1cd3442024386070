//! Functions with unit tests: integer arithmetic, palindromes and FizzBuzz.
use vstd::prelude::*;
use crate::text::{decimal, u64_to_string};

verus! {

/// Sum of two integers; the caller keeps the sum inside `i32`
/// (the unchecked `+` would overflow otherwise).
pub fn add(a: i32, b: i32) -> (r: i32)
    requires
        i32::MIN <= a + b <= i32::MAX,
    ensures
        r == a + b,
{
    a + b
}

/// Difference of two integers; the caller keeps it inside `i32`.
pub fn subtract(a: i32, b: i32) -> (r: i32)
    requires
        i32::MIN <= a - b <= i32::MAX,
    ensures
        r == a - b,
{
    a - b
}

/// `add` does not depend on the order of its arguments.
pub proof fn add_is_commutative(a: i32, b: i32)
    requires
        i32::MIN <= a + b <= i32::MAX,
    ensures
        i32::MIN <= b + a <= i32::MAX,
        a + b == b + a,
{
}

/// A string is a palindrome when it reads the same backwards, character by
/// character.
pub open spec fn palindrome(s: Seq<char>) -> bool {
    s == s.reverse()
}

/// Whether `s` reads the same forwards and backwards (by characters).
pub fn is_palindrome(s: &str) -> (r: bool)
    ensures
        r == palindrome(s@),
{
    let n = s.unicode_len();
    let mut i: usize = 0;
    while i < n
        invariant
            n == s@.len(),
            i <= n,
            forall|j: int| 0 <= j < i ==> #[trigger] s@[j] == s@[n - 1 - j],
        decreases n - i,
    {
        if s.get_char(i) != s.get_char(n - 1 - i) {
            assert(s@.reverse()[i as int] == s@[n - 1 - i]);
            return false;
        }
        i = i + 1;
    }
    assert(s@ =~= s@.reverse());
    true
}

/// The FizzBuzz word for `n`.
pub open spec fn fizzbuzz_word(n: nat) -> Seq<char> {
    if n % 3 == 0 && n % 5 == 0 {
        "FizzBuzz"@
    } else if n % 3 == 0 {
        "Fizz"@
    } else if n % 5 == 0 {
        "Buzz"@
    } else {
        decimal(n)
    }
}

/// "Fizz" for multiples of 3, "Buzz" for multiples of 5, "FizzBuzz" for
/// both, the number itself otherwise.
pub fn fizzbuzz(n: u32) -> (r: String)
    ensures
        r@ == fizzbuzz_word(n as nat),
{
    if n % 3 == 0 && n % 5 == 0 {
        String::from_str("FizzBuzz")
    } else if n % 3 == 0 {
        String::from_str("Fizz")
    } else if n % 5 == 0 {
        String::from_str("Buzz")
    } else {
        u64_to_string(n as u64)
    }
}

/// Returns `n`, which the caller must keep positive.
pub fn must_be_positive(n: i32) -> (r: i32)
    requires
        n > 0,
    ensures
        r == n,
{
    n
}

} // verus!
