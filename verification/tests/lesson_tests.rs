use rust_workshop::auth::{get_secret, login, roles, validate_token};
use rust_workshop::closures::{
    apply_n_times, apply_twice, call_once, make_adder, make_greeter, words_to_sentence, Counter,
    Fibonacci,
};
use rust_workshop::config::{DatabaseConfig, Environment};
use rust_workshop::data_types::{describe_direction, find_first_negative, Direction};
use rust_workshop::engine::{process, validate};
use rust_workshop::generics::{
    compare_and_show, first_word as first_word_generic, largest, longest, longest_displayed,
    make_greeting, pair_to_string, trim_and_lower, Cache, Excerpt, KeyValue, Wrapper,
};
use rust_workshop::network::{connect, disconnect, dns::resolve};
use rust_workshop::ownership::{add_exclamation, calculate_length, first_word, sum_slice};
use rust_workshop::patterns::{first_and_rest, sum_pair};
use rust_workshop::services::{api, base_url, internal::do_work};
use rust_workshop::smart_pointers::List;
use rust_workshop::traits::{Config, Describable, LogLevel, Milliseconds, Server};

#[test]
fn length_counts_bytes() {
    assert_eq!(calculate_length(&String::from("hello")), 5);
    assert_eq!(calculate_length(&String::from("Привіт")), 12);
}

#[test]
fn exclamation_is_appended() {
    let mut s = String::from("hello");
    add_exclamation(&mut s);
    assert_eq!(s, "hello!");
}

#[test]
fn slices_sum() {
    assert_eq!(sum_slice(&[20, 30, 40]), 90);
    assert_eq!(sum_slice(&[10, 20, 30, 40, 50]), 150);
    assert_eq!(sum_slice(&[]), 0);
    assert_eq!(sum_slice(&[-5, 3]), -2);
}

#[test]
fn first_word_cuts_at_space() {
    assert_eq!(first_word("hello world"), "hello");
    assert_eq!(first_word("single"), "single");
    assert_eq!(first_word(""), "");
    assert_eq!(first_word(" lead"), "");
    assert_eq!(first_word_generic("привіт світ"), "привіт");
}

#[test]
fn directions_have_labels() {
    assert_eq!(describe_direction(&Direction::Up), "вгору ↑");
    assert_eq!(describe_direction(&Direction::Down), "вниз ↓");
    assert_eq!(describe_direction(&Direction::Left), "вліво ←");
    assert_eq!(describe_direction(&Direction::Right), "вправо →");
}

#[test]
fn first_negative_is_found() {
    assert_eq!(find_first_negative(&[3, 7, -2, 5, -8]), Some(-2));
    assert_eq!(find_first_negative(&[1, 2, 3]), None);
    assert_eq!(find_first_negative(&[]), None);
}

#[test]
fn server_describes_itself() {
    let s = Server { name: String::from("web-01"), cpu_cores: 8, memory_gb: 32 };
    assert_eq!(s.describe(), "web-01: 8C/32GB");
}

#[test]
fn config_defaults() {
    let c = Config::default();
    assert_eq!(c.name, "default");
    assert_eq!(c.max_connections, 100);
    assert!(!c.verbose);
    let custom = Config { name: String::from("production"), verbose: true, ..Config::default() };
    assert!(custom != c);
    assert_eq!(c.clone(), c);
}

#[test]
fn milliseconds_from_number() {
    let ms: Milliseconds = 500_u64.into();
    assert_eq!(ms, Milliseconds(500));
}

#[test]
fn log_levels_parse() {
    assert_eq!(LogLevel::parse("warning"), Ok(LogLevel::Warning));
    assert_eq!("INFO".parse::<LogLevel>(), Ok(LogLevel::Info));
    assert_eq!(LogLevel::parse("Warn"), Ok(LogLevel::Warning));
    assert_eq!(LogLevel::parse("err"), Ok(LogLevel::Error));
    assert_eq!(LogLevel::parse("debug"), Ok(LogLevel::Debug));
    assert_eq!(
        LogLevel::parse("verbose"),
        Err(String::from("unknown log level: 'verbose'"))
    );
    assert_eq!(
        LogLevel::parse("VERBOSE"),
        Err(String::from("unknown log level: 'verbose'"))
    );
    assert_eq!(LogLevel::Error.as_str(), "ERROR");
    for level in [LogLevel::Debug, LogLevel::Info, LogLevel::Warning, LogLevel::Error] {
        assert_eq!(LogLevel::parse(level.as_str()), Ok(level));
    }
}

#[test]
fn network_messages() {
    assert_eq!(connect("localhost:8080"), "Connected to localhost:8080");
    assert_eq!(disconnect(), "Disconnected");
    assert_eq!(resolve("example.com"), "192.168.1.1 (resolved example.com)");
}

#[test]
fn tokens_and_login() {
    assert!(validate_token("my-long-token"));
    assert!(!validate_token("short"));
    assert!(!validate_token("12345678"));
    assert!(validate_token("123456789"));
    assert!(validate_token("ґґґґґ"));
    assert_eq!(login("admin-token-12345"), "Welcome, admin-token-12345");
    assert_eq!(login("bob"), "Invalid credentials for bob");
    assert_eq!(get_secret(), "super-secret-key-123");
    assert!(roles::is_admin("admin"));
    assert!(!roles::is_admin("Admin"));
    assert_eq!(roles::default_role(), "viewer");
}

#[test]
fn database_config_masks_password() {
    let cfg = DatabaseConfig::new("localhost", 5432, "s3cret");
    assert_eq!(cfg.host, "localhost");
    assert_eq!(cfg.port, 5432);
    assert!(cfg.has_password());
    assert_eq!(cfg.masked_password(), "s3***");
    let none = DatabaseConfig::new("db", 1, "");
    assert!(!none.has_password());
    assert_eq!(none.masked_password(), "(none)");
    assert_eq!(DatabaseConfig::new("db", 1, "x").masked_password(), "x***");
    assert_eq!(DatabaseConfig::new("db", 1, "їжак").masked_password(), "ї***");
    let env = Environment::Production;
    assert_eq!(env, Environment::Production);
}

#[test]
fn service_paths() {
    assert_eq!(base_url(), "https://api.example.com");
    assert_eq!(api::endpoint(), "https://api.example.com/v1/data");
    assert_eq!(api::v2::endpoint(), "https://api.example.com/v2/data");
    assert_eq!(do_work(), "Working with internal helper");
    assert_eq!(process("hello"), "processed: hello");
    assert!(validate("test"));
    assert!(!validate(""));
}

#[test]
fn largest_picks_the_greatest() {
    assert_eq!(*largest(&[34, 50, 25, 100, 65]), 100);
    assert_eq!(*largest(&['a', 'z', 'm', 'b']), 'z');
    assert_eq!(*largest(&[1.5, 3.7, 2.1, 0.8]), 3.7);
    assert_eq!(*largest(&[7]), 7);
}

#[test]
fn generic_formatting() {
    assert_eq!(pair_to_string(42, "hello"), "(42, hello)");
    assert_eq!(pair_to_string(3.14, true), "(3.14, true)");
    assert_eq!(compare_and_show(10, "baseline"), "10 (compared with baseline)");
    assert_eq!(make_greeting("Rust"), "Hello, Rust!");
    let w = Wrapper::new(3.14159, "pi");
    assert_eq!(w.display(), "[pi] 3.14159");
    assert_eq!(Wrapper::new("text", "type").display(), "[type] text");
    let kv = KeyValue { key: "language", value: "Rust" };
    assert_eq!(kv.format_pair(), "language = Rust");
}

#[test]
fn lifetimes_and_slices() {
    assert_eq!(longest("long string", "xyz"), "long string");
    assert_eq!(longest("ab", "cd"), "ab");
    assert_eq!(longest("ab", "abc"), "abc");
    let novel = String::from("Call me Ishmael. Some years ago...");
    let excerpt = Excerpt::new(&novel, 1);
    assert_eq!(excerpt.page, 1);
    assert_eq!(excerpt.first_sentence(), "Call me Ishmael.");
    assert_eq!(Excerpt::new("no dot", 2).first_sentence(), "no dot");
    assert_eq!(trim_and_lower("  hello  "), "hello");
    assert_eq!(trim_and_lower("\u{3000}x y\t\n"), "x y");
    assert_eq!(trim_and_lower("   "), "");
}

#[test]
fn cache_views_a_slice() {
    let numbers = vec![10, 20, 30, 40, 50];
    let cache = Cache::new(&numbers, "numbers");
    assert_eq!(cache.summary(), "numbers: 5 items");
    assert_eq!(cache.first(), Some(&10));
    let empty: Vec<i32> = vec![];
    assert_eq!(Cache::new(&empty, "none").first(), None);
    let words = vec!["short", "much longer text", "mid"];
    assert_eq!(longest_displayed(&words), Some(String::from("much longer text")));
    assert_eq!(longest_displayed(&[12, 34, 5]), Some(String::from("34")));
    let none: [u8; 0] = [];
    assert_eq!(longest_displayed(&none), None);
}

#[test]
fn closures_compose() {
    let multiplier = 3;
    assert_eq!(apply_twice(|x| x * multiplier, 2), 18);
    let mut counter = 0;
    let results = apply_n_times(
        || {
            counter += 1;
            counter * counter
        },
        4,
    );
    assert_eq!(results, vec![1, 4, 9, 16]);
    let message = String::from("consumed!");
    assert_eq!(call_once(move || message.to_uppercase()), "CONSUMED!");
    let add5 = make_adder(5);
    assert_eq!(add5(3), 8);
    assert_eq!(make_adder(10)(3), 13);
    let greeter = make_greeter(String::from("Alice"));
    assert_eq!(greeter(), "Hello, Alice!");
    assert_eq!(greeter(), "Hello, Alice!");
}

#[test]
fn sentences_are_joined() {
    assert_eq!(words_to_sentence(vec!["Rust", "is", "fast"]), "Rust is fast");
    assert_eq!(words_to_sentence(vec![]), "");
    assert_eq!(words_to_sentence(vec!["one"]), "one");
}

#[test]
fn counter_counts_to_its_limit() {
    let mut c = Counter::new(5);
    let mut values = Vec::new();
    while let Some(v) = c.next() {
        values.push(v);
    }
    assert_eq!(values, vec![1, 2, 3, 4, 5]);
    assert_eq!(c.next(), None);
    assert_eq!(values.iter().sum::<u32>(), 15);
}

#[test]
fn fibonacci_sequence() {
    let mut f = Fibonacci::new();
    let fibs: Vec<u64> = (0..10).map(|_| f.next().unwrap()).collect();
    assert_eq!(fibs, vec![1, 1, 2, 3, 5, 8, 13, 21, 34, 55]);
    let mut g = Fibonacci::new();
    let sum: u64 = (0..8).map(|_| g.next().unwrap()).sum();
    assert_eq!(sum, 54);
}

#[test]
fn boxed_list_sums() {
    let list = List::new().prepend(3).prepend(2).prepend(1);
    assert_eq!(list.sum(), 6);
    assert_eq!(List::new().sum(), 0);
    match list {
        List::Cons(first, _) => assert_eq!(first, 1),
        List::Nil => panic!("list is empty"),
    }
}

#[test]
fn patterns_in_parameters() {
    assert_eq!(sum_pair((3, 4)), 7);
    let data = [10, 20, 30, 40];
    assert_eq!(first_and_rest(&data), Some((10, &data[1..])));
    assert_eq!(first_and_rest(&[]), None);
    assert_eq!(first_and_rest(&[5]), Some((5, &[][..])));
}

#[test]
fn masks_depend_on_the_first_two_bytes_only() {
    let a = DatabaseConfig::new("h", 1, "ab123");
    let b = DatabaseConfig::new("h", 2, "abXYZ-longer");
    assert_eq!(a.masked_password(), b.masked_password());
    let c = DatabaseConfig::new("h", 1, "жa");
    let d = DatabaseConfig::new("h", 1, "жzz");
    assert_eq!(c.masked_password(), "ж***");
    assert_eq!(c.masked_password(), d.masked_password());
    let e = DatabaseConfig::new("h", 1, "x");
    assert_eq!(e.masked_password(), "x***");
}
