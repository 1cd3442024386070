use rust_workshop::collections::{split_words, word_counts};

#[test]
fn words_split_on_any_white_space() {
    assert_eq!(split_words("  the quick\tbrown\nfox  "), vec!["the", "quick", "brown", "fox"]);
    assert!(split_words("").is_empty());
    assert!(split_words(" \t\n ").is_empty());
    assert_eq!(split_words("привіт світ"), vec!["привіт", "світ"]);
    assert_eq!(split_words("a\u{3000}b"), vec!["a", "b"]);
}

#[test]
fn words_are_counted_most_frequent_first() {
    let counts = word_counts("the quick brown fox jumps over the lazy dog the fox");
    assert_eq!(counts[0], (String::from("the"), 3));
    assert_eq!(counts[1], (String::from("fox"), 2));
    assert_eq!(counts.len(), 8);
    let rest: Vec<&str> = counts[2..].iter().map(|(w, _)| w.as_str()).collect();
    assert_eq!(rest, vec!["quick", "brown", "jumps", "over", "lazy", "dog"]);
    assert!(counts[2..].iter().all(|(_, c)| *c == 1));
}

#[test]
fn counting_nothing_gives_nothing() {
    assert!(word_counts("").is_empty());
    assert_eq!(word_counts("a a a"), vec![(String::from("a"), 3)]);
}
