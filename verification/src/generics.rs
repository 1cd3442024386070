//! Generic functions and types: the largest element of a slice, labelled
//! values and pairs, and borrowed views into text and slices.
use vstd::prelude::*;
use vstd::std_specs::cmp::{PartialOrdIs, PartialOrdSpec};
use vstd::string::to_string_from_display_ensures;
use crate::ownership::{position_or_len, prefix_before};
use vstd::utf8::encode_utf8;
use crate::text::{byte_len, decimal, trim, trimmed, u64_to_string};

verus! {

/// The position the left-to-right scan of `largest` settles on among the
/// first `n` elements: it moves only to an element strictly greater than
/// the one it holds.
pub open spec fn largest_position<T: PartialOrd>(s: Seq<T>, n: nat) -> int
    decreases n,
{
    if n <= 1 {
        0
    } else {
        let k = largest_position(s, (n - 1) as nat);
        if s[n - 1].is_gt(&s[k]) {
            n - 1
        } else {
            k
        }
    }
}

/// A count of elements, as a natural number.
pub open spec fn count_of(i: usize) -> nat {
    i as nat
}

/// The first of the greatest elements of a non-empty slice (the slice is
/// indexed at 0, which panics when it is empty). For types whose `>`
/// follows their `partial_cmp` the element is the one the scan settles on.
pub fn largest<T: PartialOrd>(list: &[T]) -> (r: &T)
    requires
        list@.len() > 0,
    ensures
        exists|k: int| 0 <= k < list@.len() && *r == list@[k],
        T::obeys_partial_cmp_spec() ==> *r == list@[largest_position(list@, list@.len())],
{
    let mut max: usize = 0;
    let mut i: usize = 1;
    while i < list.len()
        invariant
            1 <= i <= list@.len(),
            max < i,
            T::obeys_partial_cmp_spec() ==> max == largest_position(list@, count_of(i)),
        decreases list@.len() - i,
    {
        if &list[i] > &list[max] {
            max = i;
        }
        i = i + 1;
    }
    &list[max]
}

/// `s` is a text that `t`'s `Display` implementation can produce.
pub open spec fn shows<T: std::fmt::Display>(t: &T, s: Seq<char>) -> bool {
    exists|r: String| to_string_from_display_ensures::<T>(t, r) && r@ == s
}

/// `(a, b)`, each shown through `Display`.
pub fn pair_to_string<A: std::fmt::Display, B: std::fmt::Display>(a: A, b: B) -> (r: String)
    ensures
        exists|sa: Seq<char>, sb: Seq<char>|
            shows(&a, sa) && shows(&b, sb) && r@ == "("@ + sa + ", "@ + sb + ")"@,
{
    let sa = a.to_string();
    let sb = b.to_string();
    let mut s = String::from_str("(");
    s.append(sa.as_str());
    s.append(", ");
    s.append(sb.as_str());
    s.append(")");
    assert(shows(&a, sa@) && shows(&b, sb@));
    s
}

/// `a (compared with b)`, each shown through `Display`.
pub fn compare_and_show<T: std::fmt::Display + PartialOrd, U: std::fmt::Display>(a: T, b: U) -> (r:
    String)
    ensures
        exists|sa: Seq<char>, sb: Seq<char>|
            shows(&a, sa) && shows(&b, sb) && r@ == sa + " (compared with "@ + sb + ")"@,
{
    let sa = a.to_string();
    let sb = b.to_string();
    let mut s = sa.clone();
    s.append(" (compared with ");
    s.append(sb.as_str());
    s.append(")");
    assert(shows(&a, sa@) && shows(&b, sb@));
    s
}

/// A greeting for `name`.
pub fn make_greeting(name: &str) -> (r: String)
    ensures
        r@ == "Hello, "@ + name@ + "!"@,
{
    let mut s = String::from_str("Hello, ");
    s.append(name);
    s.append("!");
    s
}

/// A value with a label.
#[derive(Debug)]
pub struct Wrapper<T> {
    pub value: T,
    pub label: String,
}

impl<T: std::fmt::Display> Wrapper<T> {
    pub fn new(value: T, label: &str) -> (r: Self)
        ensures
            r.value == value,
            r.label@ == label@,
    {
        Self { value, label: label.to_owned() }
    }

    /// `[label] value`.
    pub fn display(&self) -> (r: String)
        ensures
            exists|sv: Seq<char>| shows(&self.value, sv) && r@ == "["@ + self.label@ + "] "@ + sv,
    {
        let sv = self.value.to_string();
        let mut s = String::from_str("[");
        s.append(self.label.as_str());
        s.append("] ");
        s.append(sv.as_str());
        assert(shows(&self.value, sv@));
        s
    }
}

/// A key paired with a value.
#[derive(Debug)]
pub struct KeyValue<K, V> {
    pub key: K,
    pub value: V,
}

impl<K: std::fmt::Display, V: std::fmt::Display> KeyValue<K, V> {
    /// `key = value`.
    pub fn format_pair(&self) -> (r: String)
        ensures
            exists|sk: Seq<char>, sv: Seq<char>|
                shows(&self.key, sk) && shows(&self.value, sv) && r@ == sk + " = "@ + sv,
    {
        let sk = self.key.to_string();
        let sv = self.value.to_string();
        let mut s = sk.clone();
        s.append(" = ");
        s.append(sv.as_str());
        assert(shows(&self.key, sk@) && shows(&self.value, sv@));
        s
    }
}

/// The outcome of a request for a `T`.
#[derive(Debug)]
pub enum Response<T> {
    Success(T),
    Error(String),
    Loading,
}

/// The longer of two texts by UTF-8 byte length; the first on a tie.
pub fn longest<'a>(x: &'a str, y: &'a str) -> (r: &'a str)
    ensures
        encode_utf8(x@).len() >= encode_utf8(y@).len() ==> r == x,
        encode_utf8(x@).len() < encode_utf8(y@).len() ==> r == y,
{
    if byte_len(x) >= byte_len(y) {
        x
    } else {
        y
    }
}

/// The text before the first space (the whole text when there is none).
pub fn first_word(s: &str) -> (r: &str)
    ensures
        prefix_before(s@, ' ', r@),
{
    let end = position_or_len(s, ' ');
    s.substring_char(0, end)
}

/// `r` is `text` up to and including its first `.`, or all of `text` when
/// it has none.
pub open spec fn sentence_of(text: Seq<char>, r: Seq<char>) -> bool {
    &&& r.len() <= text.len()
    &&& r == text.take(r.len() as int)
    &&& forall|j: int| 0 <= j < r.len() - 1 ==> text[j] != '.'
    &&& (r.len() > 0 && text[r.len() - 1] == '.') || (r.len() == text.len() && forall|j: int|
        0 <= j < text.len() ==> text[j] != '.')
}

/// A borrowed passage of a text, with the page it starts on.
#[derive(Debug)]
pub struct Excerpt<'a> {
    pub text: &'a str,
    pub page: u32,
}

impl<'a> Excerpt<'a> {
    pub fn new(text: &'a str, page: u32) -> (r: Self)
        ensures
            r.text == text,
            r.page == page,
    {
        Self { text, page }
    }

    /// The passage up to and including its first `.`, or all of it.
    pub fn first_sentence(&self) -> (r: &str)
        ensures
            sentence_of(self.text@, r@),
    {
        let end = position_or_len(self.text, '.');
        let n = self.text.unicode_len();
        let ghost w = self.text@.take(end as int);
        assert(prefix_before(self.text@, '.', w));
        if end < n {
            let r = self.text.substring_char(0, end + 1);
            assert(r@ =~= w.push('.'));
            r
        } else {
            let r = self.text.substring_char(0, end);
            assert(r@ =~= w);
            r
        }
    }
}

/// The text without leading and trailing white space.
pub fn trim_and_lower(s: &str) -> (r: &str)
    ensures
        exists|start: int, end: int| trimmed(s@, start, end) && r@ == s@.subrange(start, end),
{
    trim(s)
}

/// A named view into a slice.
#[derive(Debug)]
pub struct Cache<'a, T> {
    pub data: &'a [T],
    pub name: String,
}

impl<'a, T: std::fmt::Display> Cache<'a, T> {
    pub fn new(data: &'a [T], name: &str) -> (r: Self)
        ensures
            r.data == data,
            r.name@ == name@,
    {
        Self { data, name: name.to_owned() }
    }

    /// The first element, if any.
    pub fn first(&self) -> (r: Option<&T>)
        ensures
            self.data@.len() == 0 ==> r is None,
            self.data@.len() > 0 ==> r == Some(&self.data@[0]),
    {
        if self.data.len() == 0 {
            None
        } else {
            Some(&self.data[0])
        }
    }

    /// `name: <count> items`.
    pub fn summary(&self) -> (r: String)
        ensures
            r@ == self.name@ + ": "@ + decimal(self.data@.len()) + " items"@,
    {
        let mut s = self.name.clone();
        s.append(": ");
        s.append(u64_to_string(self.data.len() as u64).as_str());
        s.append(" items");
        s
    }
}

/// The index of the last of the longest texts (by UTF-8 bytes), as
/// `Iterator::max_by_key` picks it.
pub open spec fn last_longest(texts: Seq<Seq<char>>, n: int) -> int
    decreases n,
{
    if n <= 1 {
        0
    } else {
        let k = last_longest(texts, n - 1);
        if encode_utf8(texts[n - 1]).len() >= encode_utf8(texts[k]).len() {
            n - 1
        } else {
            k
        }
    }
}

/// The character sequences of a list of strings.
pub open spec fn text_views(texts: Seq<String>) -> Seq<Seq<char>> {
    texts.map_values(|t: String| t@)
}

/// The scan of [`last_longest`] stays among the first `n` positions.
pub proof fn lemma_last_longest_in_range(texts: Seq<Seq<char>>, n: int)
    requires
        n >= 1,
    ensures
        0 <= last_longest(texts, n) < n,
    decreases n,
{
    if n > 1 {
        lemma_last_longest_in_range(texts, n - 1);
    }
}

/// The longest text by UTF-8 byte length (the last of them on a tie).
pub fn longest_text(texts: &[String]) -> (r: Option<String>)
    ensures
        texts@.len() == 0 ==> r is None,
        texts@.len() > 0 ==> (r matches Some(s) && s@ == texts@[last_longest(
            text_views(texts@),
            texts@.len() as int,
        )]@),
{
    if texts.len() == 0 {
        return None;
    }
    let ghost views = text_views(texts@);
    let mut best: usize = 0;
    let mut i: usize = 1;
    while i < texts.len()
        invariant
            1 <= i <= texts@.len(),
            best < i,
            views == text_views(texts@),
            best == last_longest(views, i as int),
        decreases texts@.len() - i,
    {
        proof {
            lemma_last_longest_in_range(views, i as int);
        }
        if byte_len(texts[i].as_str()) >= byte_len(texts[best].as_str()) {
            best = i;
        }
        i = i + 1;
    }
    Some(texts[best].clone())
}

/// The longest of the items as `Display` shows them (by UTF-8 bytes; the
/// last of them on a tie), or `None` for no items.
pub fn longest_displayed<T: std::fmt::Display>(items: &[T]) -> (r: Option<String>)
    ensures
        items@.len() == 0 ==> r is None,
        items@.len() > 0 ==> exists|shown: Seq<Seq<char>>|
            shown.len() == items@.len() && (forall|i: int|
                0 <= i < shown.len() ==> shows(&items@[i], #[trigger] shown[i])) && (r matches Some(
                s
            ) && s@ == shown[last_longest(shown, shown.len() as int)]),
{
    let mut texts: Vec<String> = Vec::new();
    let mut i: usize = 0;
    while i < items.len()
        invariant
            i <= items@.len(),
            texts@.len() == i,
            forall|j: int| 0 <= j < i ==> shows(&items@[j], #[trigger] texts@[j]@),
        decreases items@.len() - i,
    {
        let t = items[i].to_string();
        assert(shows(&items@[i as int], t@));
        texts.push(t);
        i = i + 1;
    }
    let r = longest_text(&texts);
    proof {
        let shown = text_views(texts@);
        assert(forall|j: int| 0 <= j < shown.len() ==> shows(&items@[j], #[trigger] shown[j]));
        if items@.len() > 0 {
            lemma_last_longest_in_range(shown, shown.len() as int);
            let k = last_longest(shown, shown.len() as int);
            assert(r matches Some(s) && s@ == shown[k]);
        }
    }
    r
}

} // verus!
