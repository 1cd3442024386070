//! Counting the words of a text.
use vstd::prelude::*;
use crate::text::{is_white_space, str_eq, white_space};

verus! {

/// The words of `s`, given that the word being read so far is `cur`: the
/// maximal runs of characters that are not white space, in order, as
/// `str::split_whitespace` yields them.
pub open spec fn words_from(s: Seq<char>, cur: Seq<char>) -> Seq<Seq<char>>
    decreases s.len(),
{
    if s.len() == 0 {
        if cur.len() > 0 {
            seq![cur]
        } else {
            Seq::empty()
        }
    } else if is_white_space(s[0]) {
        (if cur.len() > 0 {
            seq![cur]
        } else {
            Seq::empty()
        }) + words_from(s.drop_first(), Seq::empty())
    } else {
        words_from(s.drop_first(), cur.push(s[0]))
    }
}

/// The words of `s`, as `str::split_whitespace` yields them.
pub open spec fn words_of(s: Seq<char>) -> Seq<Seq<char>> {
    words_from(s, Seq::empty())
}

/// The text with its white space taken out.
pub open spec fn without_white_space(s: Seq<char>) -> Seq<char>
    decreases s.len(),
{
    if s.len() == 0 {
        Seq::empty()
    } else if is_white_space(s[0]) {
        without_white_space(s.drop_first())
    } else {
        seq![s[0]] + without_white_space(s.drop_first())
    }
}

/// The words laid end to end, with nothing between them.
pub open spec fn concat(ws: Seq<Seq<char>>) -> Seq<char>
    decreases ws.len(),
{
    if ws.len() == 0 {
        Seq::empty()
    } else {
        ws[0] + concat(ws.drop_first())
    }
}

/// No character of `w` is white space.
pub open spec fn no_white_space(w: Seq<char>) -> bool {
    forall|i: int| 0 <= i < w.len() ==> !is_white_space(#[trigger] w[i])
}

proof fn lemma_concat_append(a: Seq<Seq<char>>, b: Seq<Seq<char>>)
    ensures
        concat(a + b) == concat(a) + concat(b),
    decreases a.len(),
{
    if a.len() == 0 {
        assert(a + b =~= b);
        assert(concat(a) + concat(b) =~= concat(b));
    } else {
        assert((a + b).drop_first() =~= a.drop_first() + b);
        lemma_concat_append(a.drop_first(), b);
        assert(concat(a) + concat(b) =~= a[0] + (concat(a.drop_first()) + concat(b)));
    }
}

proof fn lemma_concat_one(w: Seq<char>)
    ensures
        concat(seq![w]) == w,
{
    let one = seq![w];
    assert(one.drop_first() =~= Seq::<Seq<char>>::empty());
    assert(concat(one.drop_first()) == Seq::<char>::empty());
    assert(concat(one) == one[0] + concat(one.drop_first()));
    assert(w + Seq::<char>::empty() =~= w);
}

/// What reading `s` with the word `cur` begun gives: the words laid end to
/// end are `cur` and the text without its white space, and every word is
/// non-empty and free of white space.
proof fn lemma_words_from(s: Seq<char>, cur: Seq<char>)
    requires
        no_white_space(cur),
    ensures
        concat(words_from(s, cur)) == cur + without_white_space(s),
        forall|k: int|
            0 <= k < words_from(s, cur).len() ==> (#[trigger] words_from(s, cur)[k]).len() > 0
                && no_white_space(words_from(s, cur)[k]),
    decreases s.len(),
{
    let ws = words_from(s, cur);
    if s.len() == 0 {
        if cur.len() > 0 {
            lemma_concat_one(cur);
        } else {
            assert(cur =~= Seq::<char>::empty());
        }
        assert(cur + Seq::<char>::empty() =~= cur);
    } else {
        let rest = s.drop_first();
        if is_white_space(s[0]) {
            let head: Seq<Seq<char>> = if cur.len() > 0 {
                seq![cur]
            } else {
                Seq::empty()
            };
            lemma_words_from(rest, Seq::empty());
            lemma_concat_append(head, words_from(rest, Seq::empty()));
            if cur.len() > 0 {
                lemma_concat_one(cur);
            } else {
                assert(cur =~= Seq::<char>::empty());
            }
            assert(Seq::<char>::empty() + without_white_space(rest) =~= without_white_space(rest));
            assert forall|k: int| 0 <= k < ws.len() implies (#[trigger] ws[k]).len() > 0 && no_white_space(ws[k]) by {
                if k < head.len() {
                    assert(ws[k] == cur);
                } else {
                    assert(ws[k] == words_from(rest, Seq::empty())[k - head.len()]);
                }
            }
        } else {
            let next = cur.push(s[0]);
            assert forall|i: int| 0 <= i < next.len() implies !is_white_space(#[trigger] next[i]) by {
                if i < cur.len() {
                    assert(next[i] == cur[i]);
                }
            }
            lemma_words_from(rest, next);
            assert(next + without_white_space(rest) =~= cur + (seq![s[0]] + without_white_space(rest)));
        }
    }
}

/// Reading a stretch without white space extends the current word.
proof fn lemma_words_from_unbroken(s: Seq<char>, cur: Seq<char>)
    requires
        no_white_space(s),
        cur.len() + s.len() > 0,
    ensures
        words_from(s, cur) == seq![cur + s],
    decreases s.len(),
{
    if s.len() == 0 {
        assert(cur + s =~= cur);
    } else {
        let rest = s.drop_first();
        assert(!is_white_space(s[0]));
        assert forall|i: int| 0 <= i < rest.len() implies !is_white_space(#[trigger] rest[i]) by {
            assert(rest[i] == s[i + 1]);
        }
        lemma_words_from_unbroken(rest, cur.push(s[0]));
        assert(cur.push(s[0]) + rest =~= cur + s);
    }
}

/// Words are cut at white space and nowhere else: laid end to end they
/// give back the text without its white space, each is non-empty and free
/// of white space, and a non-empty text without white space is one word.
pub proof fn words_are_the_text_cut_at_white_space(s: Seq<char>)
    ensures
        concat(words_of(s)) == without_white_space(s),
        forall|k: int|
            0 <= k < words_of(s).len() ==> (#[trigger] words_of(s)[k]).len() > 0 && no_white_space(words_of(s)[k]),
        s.len() > 0 && no_white_space(s) ==> words_of(s) == seq![s],
{
    lemma_words_from(s, Seq::empty());
    assert(Seq::<char>::empty() + without_white_space(s) =~= without_white_space(s));
    if s.len() > 0 && no_white_space(s) {
        lemma_words_from_unbroken(s, Seq::empty());
        assert(Seq::<char>::empty() + s =~= s);
    }
}

/// The character sequences of a list of strings.
pub open spec fn views_of(v: Seq<String>) -> Seq<Seq<char>> {
    v.map_values(|x: String| x@)
}

/// The words of `s`, in order.
pub fn split_words(s: &str) -> (r: Vec<String>)
    ensures
        views_of(r@) == words_of(s@),
        concat(views_of(r@)) == without_white_space(s@),
        forall|k: int| 0 <= k < r@.len() ==> (#[trigger] r@[k])@.len() > 0 && no_white_space(r@[k]@),
{
    let n = s.unicode_len();
    let mut out: Vec<String> = Vec::new();
    let mut in_word = false;
    let mut start: usize = 0;
    let mut i: usize = 0;
    assert(s@.skip(0) =~= s@);
    while i < n
        invariant
            n == s@.len(),
            i <= n,
            start <= i,
            in_word ==> start < i,
            views_of(out@) + words_from(
                s@.skip(i as int),
                if in_word {
                    s@.subrange(start as int, i as int)
                } else {
                    Seq::empty()
                },
            ) == words_of(s@),
        decreases n - i,
    {
        let c = s.get_char(i);
        let ghost rest = s@.skip(i as int);
        let ghost cur = if in_word {
            s@.subrange(start as int, i as int)
        } else {
            Seq::<char>::empty()
        };
        assert(rest[0] == c);
        assert(rest.drop_first() =~= s@.skip(i + 1));
        if white_space(c) {
            if in_word {
                let ghost before = views_of(out@);
                let w = s.substring_char(start, i);
                out.push(w.to_string());
                assert(views_of(out@) =~= before.push(cur));
                assert(before + (seq![cur] + words_from(s@.skip(i + 1), Seq::empty())) =~= before.push(cur)
                    + words_from(s@.skip(i + 1), Seq::empty()));
                in_word = false;
            } else {
                assert(Seq::<Seq<char>>::empty() + words_from(s@.skip(i + 1), Seq::empty()) =~= words_from(
                    s@.skip(i + 1),
                    Seq::empty(),
                ));
            }
        } else {
            if !in_word {
                start = i;
                in_word = true;
            }
            assert(cur.push(c) =~= s@.subrange(start as int, i + 1));
        }
        i = i + 1;
    }
    if in_word {
        let ghost before = views_of(out@);
        let w = s.substring_char(start, n);
        out.push(w.to_string());
        assert(views_of(out@) =~= before.push(s@.subrange(start as int, n as int)));
    }
    assert(s@.skip(n as int) =~= Seq::<char>::empty());
    assert(views_of(out@) =~= views_of(out@) + Seq::<Seq<char>>::empty());
    proof {
        words_are_the_text_cut_at_white_space(s@);
    }
    assert(views_of(out@) == words_of(s@));
    assert forall|k: int| 0 <= k < out@.len() implies (#[trigger] out@[k])@.len() > 0 && no_white_space(out@[k]@) by {
        assert(views_of(out@)[k] == out@[k]@);
        assert(words_of(s@)[k] == out@[k]@);
    }
    out
}

/// How many times `w` occurs in `ws`.
pub open spec fn occurrences(ws: Seq<Seq<char>>, w: Seq<char>) -> nat
    decreases ws.len(),
{
    if ws.len() == 0 {
        0
    } else {
        occurrences(ws.drop_last(), w) + if ws.last() == w {
            1nat
        } else {
            0nat
        }
    }
}

/// A word occurs no more often than the list is long.
pub proof fn lemma_occurrences_bound(ws: Seq<Seq<char>>, w: Seq<char>)
    ensures
        occurrences(ws, w) <= ws.len(),
        occurrences(ws, w) > 0 ==> ws.contains(w),
    decreases ws.len(),
{
    if ws.len() > 0 {
        lemma_occurrences_bound(ws.drop_last(), w);
        if occurrences(ws.drop_last(), w) > 0 {
            let i = choose|i: int| 0 <= i < ws.drop_last().len() && ws.drop_last()[i] == w;
            assert(ws[i] == w);
        }
        if ws.last() == w {
            assert(ws[ws.len() - 1] == w);
        }
    }
}

/// Some string of `keys` reads `w`.
pub open spec fn among(keys: Seq<String>, w: Seq<char>) -> bool {
    exists|a: int| 0 <= a < keys.len() && keys[a]@ == w
}

/// The distinct words of `words` in order of first appearance, each with
/// its number of occurrences.
fn tally(words: &Vec<String>) -> (r: (Vec<String>, Vec<usize>))
    ensures
        r.0@.len() == r.1@.len(),
        forall|a: int, b: int| 0 <= a < b < r.0@.len() ==> (#[trigger] r.0@[a])@ != (#[trigger] r.0@[b])@,
        forall|a: int|
            0 <= a < r.0@.len() ==> views_of(words@).contains((#[trigger] r.0@[a])@) && r.1@[a]
                == occurrences(views_of(words@), r.0@[a]@),
        forall|j: int| 0 <= j < words@.len() ==> among(r.0@, #[trigger] views_of(words@)[j]),
{
    let ghost ws = views_of(words@);
    let mut keys: Vec<String> = Vec::new();
    let mut counts: Vec<usize> = Vec::new();
    let mut i: usize = 0;
    while i < words.len()
        invariant
            ws == views_of(words@),
            i <= ws.len(),
            keys@.len() == counts@.len(),
            forall|a: int, b: int| 0 <= a < b < keys@.len() ==> (#[trigger] keys@[a])@ != (#[trigger] keys@[b])@,
            forall|a: int|
                0 <= a < keys@.len() ==> ws.take(i as int).contains((#[trigger] keys@[a])@) && counts@[a]
                    == occurrences(ws.take(i as int), keys@[a]@),
            forall|j: int| 0 <= j < i ==> among(keys@, #[trigger] ws[j]),
        decreases ws.len() - i,
    {
        let ghost prefix = ws.take(i as int);
        let ghost next = ws.take(i + 1);
        let ghost old_keys = keys@;
        assert(next.drop_last() =~= prefix);
        assert(next.last() == ws[i as int]);
        let w = words[i].as_str();
        assert(w@ == ws[i as int]);
        let mut k: usize = 0;
        while k < keys.len() && !str_eq(keys[k].as_str(), w)
            invariant
                k <= keys@.len(),
                forall|a: int| 0 <= a < k ==> (#[trigger] keys@[a])@ != w@,
            decreases keys@.len() - k,
        {
            k = k + 1;
        }
        proof {
            assert forall|a: int| 0 <= a < keys@.len() implies next.contains((#[trigger] keys@[a])@) by {
                let j = choose|j: int| 0 <= j < prefix.len() && prefix[j] == keys@[a]@;
                assert(next[j] == keys@[a]@);
            }
        }
        if k < keys.len() {
            proof {
                lemma_occurrences_bound(prefix, keys@[k as int]@);
            }
            let c = counts[k];
            counts.set(k, c + 1);
            assert(keys@[k as int]@ == ws[i as int]);
        } else {
            keys.push(words[i].clone());
            counts.push(1);
            proof {
                assert(next[i as int] == w@);
                assert(occurrences(prefix, w@) == 0) by {
                    lemma_occurrences_bound(prefix, w@);
                    if prefix.contains(w@) {
                        let j = choose|j: int| 0 <= j < prefix.len() && prefix[j] == w@;
                        assert(among(old_keys, ws[j]));
                        let a = choose|a: int| 0 <= a < old_keys.len() && old_keys[a]@ == ws[j];
                        assert(old_keys[a]@ == w@);
                    }
                }
                assert(keys@[keys@.len() - 1]@ == ws[i as int]);
            }
        }
        proof {
            assert forall|j: int| 0 <= j < i + 1 implies among(keys@, #[trigger] ws[j]) by {
                if j < i {
                    assert(among(old_keys, ws[j]));
                    let a = choose|a: int| 0 <= a < old_keys.len() && old_keys[a]@ == ws[j];
                    assert(keys@[a] == old_keys[a]);
                } else if k < old_keys.len() {
                    assert(keys@[k as int]@ == ws[j]);
                } else {
                    assert(keys@[old_keys.len() as int]@ == ws[j]);
                }
            }
        }
        i = i + 1;
    }
    assert(ws.take(ws.len() as int) =~= ws);
    (keys, counts)
}

/// `e` is one of the first `m` words with its count.
pub open spec fn from_first(e: (String, usize), keys: Seq<String>, counts: Seq<usize>, m: int) -> bool {
    exists|j: int| 0 <= j < m && e.0@ == keys[j]@ && e.1 == counts[j]
}

/// Some entry of `out` is the word `w`.
pub open spec fn lists(out: Seq<(String, usize)>, w: Seq<char>) -> bool {
    exists|a: int| 0 <= a < out.len() && out[a].0@ == w
}

/// The first place in `out` whose count is below `c`, or its end.
fn insertion_point(out: &Vec<(String, usize)>, c: usize) -> (p: usize)
    ensures
        p <= out@.len(),
        forall|a: int| 0 <= a < p ==> (#[trigger] out@[a]).1 >= c,
        p < out@.len() ==> out@[p as int].1 < c,
{
    let mut p: usize = 0;
    while p < out.len() && out[p].1 >= c
        invariant
            p <= out@.len(),
            forall|a: int| 0 <= a < p ==> (#[trigger] out@[a]).1 >= c,
        decreases out@.len() - p,
    {
        p = p + 1;
    }
    p
}

/// The words with their counts, the most frequent first.
fn rank(keys: &Vec<String>, counts: &Vec<usize>) -> (r: Vec<(String, usize)>)
    requires
        keys@.len() == counts@.len(),
        forall|a: int, b: int| 0 <= a < b < keys@.len() ==> (#[trigger] keys@[a])@ != (#[trigger] keys@[b])@,
    ensures
        forall|a: int, b: int|
            0 <= a < b < r@.len() ==> (#[trigger] r@[a]).1 >= (#[trigger] r@[b]).1 && r@[a].0@ != r@[b].0@,
        forall|a: int| 0 <= a < r@.len() ==> from_first(#[trigger] r@[a], keys@, counts@, keys@.len() as int),
        forall|j: int| 0 <= j < keys@.len() ==> lists(r@, (#[trigger] keys@[j])@),
{
    let mut out: Vec<(String, usize)> = Vec::new();
    let mut m: usize = 0;
    while m < keys.len()
        invariant
            keys@.len() == counts@.len(),
            m <= keys@.len(),
            out@.len() == m,
            forall|a: int, b: int| 0 <= a < b < keys@.len() ==> (#[trigger] keys@[a])@ != (#[trigger] keys@[b])@,
            forall|a: int, b: int|
                0 <= a < b < out@.len() ==> (#[trigger] out@[a]).1 >= (#[trigger] out@[b]).1 && out@[a].0@ != out@[b].0@,
            forall|a: int| 0 <= a < out@.len() ==> from_first(#[trigger] out@[a], keys@, counts@, m as int),
            forall|j: int| 0 <= j < m ==> lists(out@, (#[trigger] keys@[j])@),
        decreases keys@.len() - m,
    {
        let c = counts[m];
        let p = insertion_point(&out, c);
        let ghost before = out@;
        let entry = (keys[m].clone(), c);
        proof {
            assert forall|a: int| 0 <= a < before.len() implies (#[trigger] before[a]).0@ != keys@[m as int]@ by {
                assert(from_first(before[a], keys@, counts@, m as int));
                let j = choose|j: int| 0 <= j < m && before[a].0@ == keys@[j]@ && before[a].1 == counts@[j];
                assert(keys@[j]@ != keys@[m as int]@);
            }
        }
        out.insert(p, entry);
        proof {
            lemma_rank_step_order(before, out@, p as int, entry);
            lemma_rank_step_sources(before, out@, p as int, entry, keys@, counts@, m as int);
            lemma_rank_step_covers(before, out@, p as int, entry, keys@, counts@, m as int);
        }
        m = m + 1;
    }
    assert(m == keys@.len());
    out
}

/// One insertion of [`rank`] keeps the list ordered by count and free of
/// repeated words.
proof fn lemma_rank_step_order(before: Seq<(String, usize)>, after: Seq<(String, usize)>, p: int, entry: (String, usize))
    requires
        0 <= p <= before.len(),
        after == before.insert(p, entry),
        forall|a: int| 0 <= a < p ==> (#[trigger] before[a]).1 >= entry.1,
        p < before.len() ==> before[p].1 < entry.1,
        forall|a: int| 0 <= a < before.len() ==> (#[trigger] before[a]).0@ != entry.0@,
        forall|a: int, b: int|
            0 <= a < b < before.len() ==> (#[trigger] before[a]).1 >= (#[trigger] before[b]).1 && before[a].0@ != before[b].0@,
    ensures
        forall|a: int, b: int|
            0 <= a < b < after.len() ==> (#[trigger] after[a]).1 >= (#[trigger] after[b]).1 && after[a].0@ != after[b].0@,
{
    assert forall|a: int, b: int|
        0 <= a < b < after.len() implies (#[trigger] after[a]).1 >= (#[trigger] after[b]).1
        && after[a].0@ != after[b].0@ by {
        if b < p {
            assert(after[a] == before[a] && after[b] == before[b]);
        } else if b == p {
            assert(after[a] == before[a] && after[b] == entry);
        } else if a < p {
            assert(after[a] == before[a] && after[b] == before[b - 1]);
        } else if a == p {
            assert(after[a] == entry && after[b] == before[b - 1]);
            if b - 1 > p {
                assert(before[p].1 >= before[b - 1].1);
            }
        } else {
            assert(after[a] == before[a - 1] && after[b] == before[b - 1]);
        }
    }
}

/// After one insertion of [`rank`], every listed word is one of the first
/// `m + 1` words with its count.
proof fn lemma_rank_step_sources(before: Seq<(String, usize)>, after: Seq<(String, usize)>, p: int, entry: (String, usize), keys: Seq<String>, counts: Seq<usize>, m: int)
    requires
        0 <= p <= before.len(),
        0 <= m < keys.len(),
        keys.len() == counts.len(),
        after == before.insert(p, entry),
        entry.0@ == keys[m]@,
        entry.1 == counts[m],
        forall|a: int| 0 <= a < before.len() ==> from_first(#[trigger] before[a], keys, counts, m),
    ensures
        forall|a: int| 0 <= a < after.len() ==> from_first(#[trigger] after[a], keys, counts, m + 1),
{
    assert forall|a: int| 0 <= a < after.len() implies from_first(#[trigger] after[a], keys, counts, m + 1) by {
        if a < p {
            assert(after[a] == before[a]);
            assert(from_first(before[a], keys, counts, m));
        } else if a == p {
            assert(after[a] == entry);
            assert(entry.0@ == keys[m]@ && entry.1 == counts[m]);
        } else {
            assert(after[a] == before[a - 1]);
            assert(from_first(before[a - 1], keys, counts, m));
        }
    }
}

/// After one insertion of [`rank`], each of the first `m + 1` words is
/// listed.
proof fn lemma_rank_step_covers(before: Seq<(String, usize)>, after: Seq<(String, usize)>, p: int, entry: (String, usize), keys: Seq<String>, counts: Seq<usize>, m: int)
    requires
        0 <= p <= before.len(),
        0 <= m < keys.len(),
        keys.len() == counts.len(),
        after == before.insert(p, entry),
        entry.0@ == keys[m]@,
        entry.1 == counts[m],
        forall|j: int| 0 <= j < m ==> lists(before, (#[trigger] keys[j])@),
    ensures
        forall|j: int| 0 <= j < m + 1 ==> lists(after, (#[trigger] keys[j])@),
{
    assert forall|j: int| 0 <= j < m + 1 implies lists(after, (#[trigger] keys[j])@) by {
        if j == m {
            assert(after[p] == entry);
        } else {
            assert(lists(before, keys[j]@));
            let a = choose|a: int| 0 <= a < before.len() && before[a].0@ == keys[j]@;
            if a < p {
                assert(after[a] == before[a]);
            } else {
                assert(after[a + 1] == before[a]);
            }
        }
    }
}

/// Each distinct word of `text` once, with the number of times it occurs,
/// the most frequent first. The order among words that occur equally often
/// is left open.
pub fn word_counts(text: &str) -> (r: Vec<(String, usize)>)
    ensures
        forall|a: int, b: int|
            0 <= a < b < r@.len() ==> (#[trigger] r@[a]).1 >= (#[trigger] r@[b]).1 && r@[a].0@ != r@[b].0@,
        forall|a: int|
            0 <= a < r@.len() ==> words_of(text@).contains((#[trigger] r@[a]).0@) && r@[a].1 == occurrences(
                words_of(text@),
                r@[a].0@,
            ),
        forall|j: int| 0 <= j < words_of(text@).len() ==> lists(r@, #[trigger] words_of(text@)[j]),
{
    let words = split_words(text);
    let (keys, counts) = tally(&words);
    let r = rank(&keys, &counts);
    proof {
        let ws = words_of(text@);
        assert forall|a: int| 0 <= a < r@.len() implies ws.contains((#[trigger] r@[a]).0@)
            && r@[a].1 == occurrences(ws, r@[a].0@) by {
            assert(from_first(r@[a], keys@, counts@, keys@.len() as int));
            let j = choose|j: int| 0 <= j < keys@.len() && r@[a].0@ == keys@[j]@ && r@[a].1 == counts@[j];
        }
        assert forall|j: int| 0 <= j < ws.len() implies lists(r@, #[trigger] ws[j]) by {
            assert(views_of(words@)[j] == ws[j]);
            assert(among(keys@, views_of(words@)[j]));
            let k = choose|k: int| 0 <= k < keys@.len() && keys@[k]@ == ws[j];
            assert(keys@[k]@ == ws[j]);
            assert(lists(r@, keys@[k]@));
            let a = choose|a: int| 0 <= a < r@.len() && r@[a].0@ == keys@[k]@;
            assert(r@[a].0@ == ws[j]);
        }
    }
    r
}

} // verus!
