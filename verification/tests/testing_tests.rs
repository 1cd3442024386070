use rust_workshop::testing::{add, fizzbuzz, is_palindrome, subtract};

#[test]
fn test_add_basic() {
    assert_eq!(add(2, 3), 5);
}

#[test]
fn test_add_negative() {
    assert_eq!(add(-1, -1), -2);
    assert_eq!(add(-5, 3), -2);
}

#[test]
fn test_add_zero() {
    assert_eq!(add(0, 0), 0);
    assert_eq!(add(42, 0), 42);
}

#[test]
fn test_subtract() {
    assert_eq!(subtract(10, 3), 7);
    assert_ne!(subtract(10, 3), 8);
}

#[test]
fn test_fizzbuzz() {
    assert_eq!(fizzbuzz(1), "1", "1 має бути просто числом");
    assert_eq!(fizzbuzz(3), "Fizz", "3 ділиться на 3");
    assert_eq!(fizzbuzz(5), "Buzz", "5 ділиться на 5");
    assert_eq!(fizzbuzz(15), "FizzBuzz", "15 ділиться на 3 і 5");
    assert_eq!(fizzbuzz(30), "FizzBuzz");
}

#[test]
fn test_fizzbuzz_range() {
    let expected = ["1", "2", "Fizz", "4", "Buzz", "Fizz", "7", "8", "Fizz", "Buzz"];
    for (i, &exp) in expected.iter().enumerate() {
        let n = (i + 1) as u32;
        assert_eq!(fizzbuzz(n), exp, "fizzbuzz({n}) failed");
    }
}

#[test]
fn test_palindrome_true() {
    assert!(is_palindrome("racecar"));
    assert!(is_palindrome("madam"));
    assert!(is_palindrome("a"));
    assert!(is_palindrome(""));
}

#[test]
fn test_palindrome_false() {
    assert!(!is_palindrome("hello"));
    assert!(!is_palindrome("rust"));
}

fn make_test_cases() -> Vec<(u32, &'static str)> {
    vec![(1, "1"), (3, "Fizz"), (5, "Buzz"), (15, "FizzBuzz")]
}

#[test]
fn test_fizzbuzz_with_helper() {
    for (input, expected) in make_test_cases() {
        assert_eq!(fizzbuzz(input), expected, "fizzbuzz({input}) should be {expected}");
    }
}

#[test]
fn test_add_commutative() {
    let pairs = [(1, 2), (0, 5), (-3, 7), (100, -100)];
    for (a, b) in pairs {
        assert_eq!(add(a, b), add(b, a), "add not commutative for ({a}, {b})");
    }
}

#[test]
fn test_fizzbuzz_all_categories_present() {
    let results: Vec<String> = (1..=15).map(fizzbuzz).collect();
    assert!(results.iter().any(|r| r == "Fizz"));
    assert!(results.iter().any(|r| r == "Buzz"));
    assert!(results.iter().any(|r| r == "FizzBuzz"));
    assert!(results.iter().any(|r| r.parse::<u32>().is_ok()));
}

#[test]
fn fizzbuzz_renders_large_numbers() {
    assert_eq!(fizzbuzz(4_294_967_291), "4294967291");
    assert_eq!(fizzbuzz(98), "98");
    assert_eq!(fizzbuzz(0), "FizzBuzz");
}

#[test]
fn palindrome_compares_characters() {
    assert!(is_palindrome("ротор"));
    assert!(!is_palindrome("ab"));
}

#[test]
fn must_be_positive_returns_its_argument() {
    assert_eq!(rust_workshop::testing::must_be_positive(7), 7);
}
