use rust_workshop::oop::{
    dynamic_describe, static_describe, Animal, Cat, Cow, Dog, Draft, HttpRequestBuilder,
};
use rust_workshop::strategy::{
    stable_sort_by_key, AbsoluteSort, AscendingSort, DescendingSort, KeyOrder, SortStrategy,
    Sorter,
};

#[test]
fn animals_describe_themselves() {
    let dog = Dog { name: String::from("Рекс") };
    let cat = Cat { name: String::from("Мурка") };
    assert_eq!(dog.describe(), "Рекс каже Гав!");
    assert_eq!(static_describe(&cat), "Мурка каже Няв!");
    assert_eq!(dynamic_describe(&Cow), "Корова каже Му!");
    assert!(Cow.sound().ends_with('!'));
}

#[test]
fn posts_keep_their_text_through_review() {
    let post = Draft::new("Мій перший пост про Rust").request_review().approve();
    assert_eq!(post.content(), "Мій перший пост про Rust");
    let again = Draft::new("Чернетка").request_review().reject().request_review().approve();
    assert_eq!(again.content(), "Чернетка");
}

#[test]
fn strategies_sort() {
    let data = vec![3, -1, 4, -1, 5, -9, 2, 6];
    let mut a = data.clone();
    Sorter::new(AscendingSort).sort(&mut a);
    assert_eq!(a, vec![-9, -1, -1, 2, 3, 4, 5, 6]);
    let mut d = data.clone();
    Sorter::new(DescendingSort).sort(&mut d);
    assert_eq!(d, vec![6, 5, 4, 3, 2, -1, -1, -9]);
    let mut m = data.clone();
    Sorter::new(AbsoluteSort).sort(&mut m);
    assert_eq!(m, vec![-1, -1, 2, 3, 4, 5, 6, -9]);
    assert_eq!(AscendingSort.name(), "за зростанням");
    assert_eq!(DescendingSort.name(), "за спаданням");
    assert_eq!(AbsoluteSort.name(), "за модулем");
}

#[test]
fn absolute_sort_is_stable() {
    let mut v = vec![2, -1, 1, -2, 0, 1, -1];
    AbsoluteSort.sort(&mut v);
    assert_eq!(v, vec![0, -1, 1, 1, -1, 2, -2]);
    let mut w = vec![i32::MAX, 0, i32::MIN];
    stable_sort_by_key(&mut w, KeyOrder::Ascending);
    assert_eq!(w, vec![i32::MIN, 0, i32::MAX]);
    let mut e: Vec<i32> = vec![];
    stable_sort_by_key(&mut e, KeyOrder::Descending);
    assert!(e.is_empty());
}

#[test]
fn builder_makes_requests() {
    let request = HttpRequestBuilder::new("post", "https://api.example.com/data")
        .header("Content-Type", "application/json")
        .header("Authorization", "Bearer token123")
        .body(r#"{"key": "value"}"#)
        .timeout(3000)
        .build()
        .unwrap();
    assert_eq!(request.method(), "POST");
    assert_eq!(request.url(), "https://api.example.com/data");
    assert_eq!(
        request.headers(),
        &vec![
            (String::from("Content-Type"), String::from("application/json")),
            (String::from("Authorization"), String::from("Bearer token123")),
        ]
    );
    assert_eq!(request.body(), &Some(String::from(r#"{"key": "value"}"#)));
    assert_eq!(request.timeout_ms(), 3000);
    let get = HttpRequestBuilder::new("get", "https://api.example.com/users").build().unwrap();
    assert_eq!(get.method(), "GET");
    assert_eq!(get.timeout_ms(), 5000);
    assert_eq!(get.body(), &None);
    let err = HttpRequestBuilder::new("get", "").build();
    assert_eq!(err.err(), Some(String::from("URL не може бути порожнім")));
}
