//! The holdings of a portfolio: one amount per ticker symbol, kept in the
//! byte order of the symbols, which is the order in which `String`s sort.
use vstd::prelude::*;
use vstd::utf8::{encode_utf8, encode_utf8_decode_utf8};
use crate::text::{to_uppercase, uppercase};

verus! {

/// `a` and `b` agree on their first `i` bytes.
pub open spec fn agree_before(a: Seq<u8>, b: Seq<u8>, i: int) -> bool {
    forall|j: int| 0 <= j < i ==> a[j] == b[j]
}

/// `a` comes before `b`, and `i` is the first place where they differ:
/// either `a` ends there and `b` goes on, or `a` has the smaller byte there.
pub open spec fn before_at(a: Seq<u8>, b: Seq<u8>, i: int) -> bool {
    &&& 0 <= i <= a.len()
    &&& i <= b.len()
    &&& agree_before(a, b, i)
    &&& if i == a.len() {
        i < b.len()
    } else {
        i < b.len() && a[i] < b[i]
    }
}

/// Byte-wise lexicographic order, strict.
pub open spec fn bytes_before(a: Seq<u8>, b: Seq<u8>) -> bool {
    exists|i: int| before_at(a, b, i)
}

/// No sequence comes before itself.
pub proof fn lemma_bytes_before_irreflexive(a: Seq<u8>)
    ensures
        !bytes_before(a, a),
{
}

/// The byte order is transitive.
pub proof fn lemma_bytes_before_transitive(a: Seq<u8>, b: Seq<u8>, c: Seq<u8>)
    requires
        bytes_before(a, b),
        bytes_before(b, c),
    ensures
        bytes_before(a, c),
{
    let i = choose|i: int| before_at(a, b, i);
    let j = choose|j: int| before_at(b, c, j);
    if i <= j {
        assert(before_at(a, c, i));
    } else {
        assert(before_at(a, c, j));
    }
}

/// Of two sequences at most one comes before the other.
pub proof fn lemma_bytes_before_asymmetric(a: Seq<u8>, b: Seq<u8>)
    requires
        bytes_before(a, b),
    ensures
        !bytes_before(b, a),
{
    if bytes_before(b, a) {
        lemma_bytes_before_transitive(a, b, a);
        lemma_bytes_before_irreflexive(a);
    }
}

/// Where one byte sequence stands against another.
pub enum Place {
    Before,
    Same,
    After,
}

/// Compares two byte sequences lexicographically.
pub fn compare_bytes(a: &[u8], b: &[u8]) -> (r: Place)
    ensures
        r is Before <==> bytes_before(a@, b@),
        r is Same <==> a@ == b@,
        r is After <==> bytes_before(b@, a@),
{
    let mut i: usize = 0;
    while i < a.len() && i < b.len() && a[i] == b[i]
        invariant
            i <= a.len(),
            i <= b.len(),
            agree_before(a@, b@, i as int),
        decreases a.len() - i,
    {
        i = i + 1;
    }
    proof {
        lemma_bytes_before_irreflexive(a@);
        lemma_bytes_before_irreflexive(b@);
    }
    if i == a.len() && i == b.len() {
        assert(a@ =~= b@);
        Place::Same
    } else if i == a.len() || (i < b.len() && a[i] < b[i]) {
        assert(before_at(a@, b@, i as int));
        proof {
            lemma_bytes_before_asymmetric(a@, b@);
        }
        Place::Before
    } else {
        assert(before_at(b@, a@, i as int));
        proof {
            lemma_bytes_before_asymmetric(b@, a@);
        }
        Place::After
    }
}

/// Distinct character sequences have distinct encodings.
pub proof fn lemma_encoding_injective(x: Seq<char>, y: Seq<char>)
    requires
        encode_utf8(x) == encode_utf8(y),
    ensures
        x == y,
{
    encode_utf8_decode_utf8(x);
    encode_utf8_decode_utf8(y);
}

/// One holding: a ticker symbol and the amount held. The amount's type is
/// the caller's: the tracker keeps a floating-point number there.
pub struct Asset<A> {
    pub symbol: String,
    pub amount: A,
}

/// The symbols and amounts of a list of holdings, in order.
pub open spec fn entries_of<A>(assets: Seq<Asset<A>>) -> Seq<(Seq<char>, A)> {
    assets.map_values(|a: Asset<A>| (a.symbol@, a.amount))
}

/// The symbols strictly ascend in byte order (so none occurs twice).
pub open spec fn ascending<A>(s: Seq<(Seq<char>, A)>) -> bool {
    forall|i: int, j: int|
        0 <= i < j < s.len() ==> bytes_before(
            encode_utf8(#[trigger] s[i].0),
            encode_utf8(#[trigger] s[j].0),
        )
}

/// Some entry has symbol `k`.
pub open spec fn has_key<A>(s: Seq<(Seq<char>, A)>, k: Seq<char>) -> bool {
    exists|i: int| 0 <= i < s.len() && s[i].0 == k
}

/// The entries read as a map from symbol to amount.
pub open spec fn as_map<A>(s: Seq<(Seq<char>, A)>) -> Map<Seq<char>, A> {
    Map::new(
        |k: Seq<char>| has_key(s, k),
        |k: Seq<char>| s[choose|i: int| 0 <= i < s.len() && s[i].0 == k].1,
    )
}

/// In ascending entries each symbol maps to the amount beside it.
pub proof fn lemma_as_map_at<A>(s: Seq<(Seq<char>, A)>, i: int)
    requires
        ascending(s),
        0 <= i < s.len(),
    ensures
        as_map(s).contains_key(s[i].0),
        as_map(s)[s[i].0] == s[i].1,
{
    let k = s[i].0;
    assert(has_key(s, k));
    let j = choose|j: int| 0 <= j < s.len() && s[j].0 == k;
    if j != i {
        lemma_bytes_before_irreflexive(encode_utf8(k));
        if j < i {
            assert(bytes_before(encode_utf8(s[j].0), encode_utf8(s[i].0)));
        } else {
            assert(bytes_before(encode_utf8(s[i].0), encode_utf8(s[j].0)));
        }
    }
}

/// Two ascending entry lists with the same symbols at matching places and
/// the same amounts give the same map; used through the three lemmas below.
proof fn lemma_as_map_ext<A>(t: Seq<(Seq<char>, A)>, m: Map<Seq<char>, A>)
    requires
        ascending(t),
        forall|k: Seq<char>| m.contains_key(k) <==> has_key(t, k),
        forall|i: int| 0 <= i < t.len() ==> m[#[trigger] t[i].0] == t[i].1,
    ensures
        as_map(t) == m,
{
    assert forall|k: Seq<char>| #[trigger] as_map(t).contains_key(k) implies as_map(t)[k] == m[k] by {
        let i = choose|i: int| 0 <= i < t.len() && t[i].0 == k;
        lemma_as_map_at(t, i);
    }
    assert(as_map(t) =~= m);
}

/// Putting a new symbol in its place adds it to the map.
pub proof fn lemma_as_map_insert<A>(s: Seq<(Seq<char>, A)>, p: int, k: Seq<char>, v: A)
    requires
        ascending(s),
        ascending(s.insert(p, (k, v))),
        0 <= p <= s.len(),
        !has_key(s, k),
    ensures
        as_map(s.insert(p, (k, v))) == as_map(s).insert(k, v),
{
    let t = s.insert(p, (k, v));
    let m = as_map(s).insert(k, v);
    assert forall|q: Seq<char>| m.contains_key(q) <==> has_key(t, q) by {
        if q == k {
            assert(t[p].0 == k);
        }
        if has_key(s, q) {
            let i = choose|i: int| 0 <= i < s.len() && s[i].0 == q;
            if i < p {
                assert(t[i] == s[i]);
            } else {
                assert(t[i + 1] == s[i]);
            }
        }
        if has_key(t, q) {
            let j = choose|j: int| 0 <= j < t.len() && t[j].0 == q;
            if j < p {
                assert(s[j] == t[j]);
            } else if j > p {
                assert(s[j - 1] == t[j]);
            }
        }
    }
    assert forall|j: int| 0 <= j < t.len() implies m[#[trigger] t[j].0] == t[j].1 by {
        if j < p {
            assert(s[j] == t[j]);
            lemma_as_map_at(s, j);
        } else if j > p {
            assert(s[j - 1] == t[j]);
            lemma_as_map_at(s, j - 1);
        }
    }
    lemma_as_map_ext(t, m);
}

/// Replacing the amount of a held symbol changes only that symbol's amount.
pub proof fn lemma_as_map_update<A>(s: Seq<(Seq<char>, A)>, i: int, v: A)
    requires
        ascending(s),
        0 <= i < s.len(),
    ensures
        ascending(s.update(i, (s[i].0, v))),
        as_map(s.update(i, (s[i].0, v))) == as_map(s).insert(s[i].0, v),
{
    let t = s.update(i, (s[i].0, v));
    let m = as_map(s).insert(s[i].0, v);
    assert(ascending(t)) by {
        assert forall|a: int, b: int| 0 <= a < b < t.len() implies bytes_before(
            encode_utf8(#[trigger] t[a].0),
            encode_utf8(#[trigger] t[b].0),
        ) by {
            assert(t[a].0 == s[a].0 && t[b].0 == s[b].0);
        }
    }
    assert forall|q: Seq<char>| m.contains_key(q) <==> has_key(t, q) by {
        if has_key(s, q) {
            let j = choose|j: int| 0 <= j < s.len() && s[j].0 == q;
            assert(t[j].0 == q);
        }
        if has_key(t, q) {
            let j = choose|j: int| 0 <= j < t.len() && t[j].0 == q;
            assert(s[j].0 == q);
        }
    }
    assert forall|j: int| 0 <= j < t.len() implies m[#[trigger] t[j].0] == t[j].1 by {
        if j != i {
            lemma_as_map_at(s, j);
            lemma_as_map_at(s, i);
        }
    }
    lemma_as_map_ext(t, m);
}

/// Taking out an entry takes its symbol out of the map.
pub proof fn lemma_as_map_remove<A>(s: Seq<(Seq<char>, A)>, i: int)
    requires
        ascending(s),
        0 <= i < s.len(),
    ensures
        ascending(s.remove(i)),
        as_map(s.remove(i)) == as_map(s).remove(s[i].0),
{
    let t = s.remove(i);
    let m = as_map(s).remove(s[i].0);
    assert(ascending(t)) by {
        assert forall|a: int, b: int| 0 <= a < b < t.len() implies bytes_before(
            encode_utf8(#[trigger] t[a].0),
            encode_utf8(#[trigger] t[b].0),
        ) by {
            let a0 = if a < i { a } else { a + 1 };
            let b0 = if b < i { b } else { b + 1 };
            assert(t[a] == s[a0] && t[b] == s[b0]);
        }
    }
    assert forall|q: Seq<char>| m.contains_key(q) <==> has_key(t, q) by {
        if has_key(s, q) && q != s[i].0 {
            let j = choose|j: int| 0 <= j < s.len() && s[j].0 == q;
            if j < i {
                assert(t[j] == s[j]);
            } else {
                assert(t[j - 1] == s[j]);
            }
        }
        if has_key(t, q) {
            let j = choose|j: int| 0 <= j < t.len() && t[j].0 == q;
            let j0 = if j < i { j } else { j + 1 };
            assert(s[j0] == t[j]);
            lemma_as_map_at(s, j0);
            lemma_as_map_at(s, i);
            if q == s[i].0 {
                lemma_bytes_before_irreflexive(encode_utf8(q));
                assert(j0 != i);
            }
        }
    }
    assert forall|j: int| 0 <= j < t.len() implies m[#[trigger] t[j].0] == t[j].1 by {
        let j0 = if j < i { j } else { j + 1 };
        assert(s[j0] == t[j]);
        lemma_as_map_at(s, j0);
    }
    lemma_as_map_ext(t, m);
}

/// The holdings of a portfolio: one entry per symbol, the symbols in byte
/// order. Its view is the map from symbol to amount.
pub struct Portfolio<A> {
    assets: Vec<Asset<A>>,
}

impl<A> Portfolio<A> {
    #[verifier::type_invariant]
    spec fn well_ordered(self) -> bool {
        ascending(entries_of(self.assets@))
    }

    /// The entries, in byte order of their symbols.
    pub closed spec fn entries(self) -> Seq<(Seq<char>, A)> {
        entries_of(self.assets@)
    }
}

impl<A> View for Portfolio<A> {
    type V = Map<Seq<char>, A>;

    closed spec fn view(&self) -> Map<Seq<char>, A> {
        as_map(self.entries())
    }
}

/// Where a symbol's bytes stand among the entries: the first entry that
/// does not come before them, and whether that entry has the same symbol.
fn locate<A>(items: &Vec<Asset<A>>, key: &str) -> (r: (usize, bool))
    requires
        ascending(entries_of(items@)),
    ensures
        r.0 <= items@.len(),
        forall|j: int|
            0 <= j < r.0 ==> bytes_before(encode_utf8(#[trigger] items@[j].symbol@), encode_utf8(key@)),
        r.1 ==> r.0 < items@.len() && items@[r.0 as int].symbol@ == key@,
        !r.1 ==> (r.0 < items@.len() ==> bytes_before(encode_utf8(key@), encode_utf8(items@[r.0 as int].symbol@))),
{
    let kb = key.as_bytes();
    let mut i: usize = 0;
    while i < items.len()
        invariant
            i <= items@.len(),
            kb@ == encode_utf8(key@),
            forall|j: int|
                0 <= j < i ==> bytes_before(encode_utf8(#[trigger] items@[j].symbol@), encode_utf8(key@)),
        decreases items.len() - i,
    {
        let sym = items[i].symbol.as_str();
        match compare_bytes(sym.as_bytes(), kb) {
            Place::Before => {
                i = i + 1;
            },
            Place::Same => {
                proof {
                    lemma_encoding_injective(items@[i as int].symbol@, key@);
                }
                return (i, true);
            },
            Place::After => {
                return (i, false);
            },
        }
    }
    (i, false)
}

impl<A> Portfolio<A> {
    /// A portfolio that holds nothing.
    pub fn new() -> (r: Self)
        ensures
            r@ == Map::<Seq<char>, A>::empty(),
    {
        let r = Portfolio { assets: Vec::new() };
        assert(r@ =~= Map::<Seq<char>, A>::empty());
        r
    }

    /// Adds `amount` of `symbol`, which is held in upper case: a new symbol
    /// gets its own entry, a held one has its amount replaced by
    /// `merge(held, amount)`.
    pub fn add<F: Fn(A, A) -> A>(&mut self, symbol: String, amount: A, merge: F)
        requires
            forall|x: A, y: A| merge.requires((x, y)),
        ensures
            !old(self)@.contains_key(uppercase(symbol@)) ==> final(self)@ == old(self)@.insert(
                uppercase(symbol@),
                amount,
            ),
            old(self)@.contains_key(uppercase(symbol@)) ==> {
                &&& final(self)@ == old(self)@.insert(
                    uppercase(symbol@),
                    final(self)@[uppercase(symbol@)],
                )
                &&& merge.ensures(
                    (old(self)@[uppercase(symbol@)], amount),
                    final(self)@[uppercase(symbol@)],
                )
            },
    {
        proof {
            use_type_invariant(&*self);
        }
        let key = to_uppercase(symbol.as_str());
        let mut items: Vec<Asset<A>> = Vec::new();
        std::mem::swap(&mut items, &mut self.assets);
        let ghost s = entries_of(items@);
        let (i, found) = locate(&items, key.as_str());
        if found {
            let held = items.remove(i);
            let merged = merge(held.amount, amount);
            proof {
                lemma_as_map_at(s, i as int);
                lemma_as_map_update(s, i as int, merged);
            }
            items.insert(i, Asset { symbol: held.symbol, amount: merged });
            assert(entries_of(items@) =~= s.update(i as int, (s[i as int].0, merged)));
        } else {
            let ghost entry = (key@, amount);
            items.insert(i, Asset { symbol: key, amount });
            assert(entries_of(items@) =~= s.insert(i as int, entry));
            proof {
                let t = s.insert(i as int, entry);
                assert(ascending(t)) by {
                    assert forall|a: int, b: int| 0 <= a < b < t.len() implies bytes_before(
                        encode_utf8(#[trigger] t[a].0),
                        encode_utf8(#[trigger] t[b].0),
                    ) by {
                        if b < i {
                            assert(t[a] == s[a] && t[b] == s[b]);
                        } else if b == i {
                            assert(t[a] == s[a]);
                        } else if a < i {
                            assert(t[a] == s[a] && t[b] == s[b - 1]);
                            assert(bytes_before(encode_utf8(s[a].0), encode_utf8(entry.0)));
                            lemma_bytes_before_transitive(
                                encode_utf8(s[a].0),
                                encode_utf8(entry.0),
                                encode_utf8(s[i as int].0),
                            );
                            if b - 1 > i {
                                lemma_bytes_before_transitive(
                                    encode_utf8(s[a].0),
                                    encode_utf8(s[i as int].0),
                                    encode_utf8(s[b - 1].0),
                                );
                            }
                        } else if a == i {
                            assert(t[b] == s[b - 1]);
                            if b - 1 > i {
                                lemma_bytes_before_transitive(
                                    encode_utf8(entry.0),
                                    encode_utf8(s[i as int].0),
                                    encode_utf8(s[b - 1].0),
                                );
                            }
                        } else {
                            assert(t[a] == s[a - 1] && t[b] == s[b - 1]);
                        }
                    }
                }
                assert(!has_key(s, entry.0)) by {
                    if has_key(s, entry.0) {
                        let j = choose|j: int| 0 <= j < s.len() && s[j].0 == entry.0;
                        lemma_bytes_before_irreflexive(encode_utf8(entry.0));
                        if j > i {
                            lemma_bytes_before_transitive(
                                encode_utf8(entry.0),
                                encode_utf8(s[i as int].0),
                                encode_utf8(s[j].0),
                            );
                        }
                    }
                }
                lemma_as_map_insert(s, i as int, entry.0, entry.1);
            }
        }
        self.assets = items;
    }

    /// Removes the holding of `symbol` (compared in upper case); says
    /// whether there was one.
    pub fn remove(&mut self, symbol: &str) -> (r: bool)
        ensures
            r == old(self)@.contains_key(uppercase(symbol@)),
            final(self)@ == old(self)@.remove(uppercase(symbol@)),
    {
        proof {
            use_type_invariant(&*self);
        }
        let key = to_uppercase(symbol);
        let mut items: Vec<Asset<A>> = Vec::new();
        std::mem::swap(&mut items, &mut self.assets);
        let ghost s = entries_of(items@);
        let (i, found) = locate(&items, key.as_str());
        if found {
            proof {
                lemma_as_map_at(s, i as int);
                lemma_as_map_remove(s, i as int);
            }
            let _gone = items.remove(i);
            assert(entries_of(items@) =~= s.remove(i as int));
            self.assets = items;
            true
        } else {
            proof {
                if has_key(s, key@) {
                    let j = choose|j: int| 0 <= j < s.len() && s[j].0 == key@;
                    lemma_bytes_before_irreflexive(encode_utf8(key@));
                    if j > i {
                        lemma_bytes_before_transitive(
                            encode_utf8(key@),
                            encode_utf8(s[i as int].0),
                            encode_utf8(s[j].0),
                        );
                    }
                }
                assert(as_map(s).remove(key@) =~= as_map(s));
            }
            self.assets = items;
            false
        }
    }

    /// The holdings in byte order of their symbols.
    pub fn assets(&self) -> (r: Vec<&Asset<A>>)
        ensures
            r@.len() == self.entries().len(),
            forall|i: int|
                0 <= i < r@.len() ==> (#[trigger] r@[i]).symbol@ == self.entries()[i].0
                    && r@[i].amount == self.entries()[i].1,
            ascending(self.entries()),
            as_map(self.entries()) == self@,
    {
        proof {
            use_type_invariant(self);
        }
        let mut r: Vec<&Asset<A>> = Vec::new();
        let mut i: usize = 0;
        while i < self.assets.len()
            invariant
                i <= self.assets@.len(),
                r@.len() == i,
                forall|j: int| 0 <= j < i ==> #[trigger] r@[j] == self.assets@[j],
            decreases self.assets.len() - i,
        {
            r.push(&self.assets[i]);
            i = i + 1;
        }
        r
    }
}

/// Adding a symbol that the portfolio does not hold and then removing it
/// gives back the portfolio as it was.
pub proof fn add_then_remove_restores<A>(before: Map<Seq<char>, A>, symbol: Seq<char>, amount: A)
    requires
        !before.contains_key(uppercase(symbol)),
    ensures
        before.insert(uppercase(symbol), amount).remove(uppercase(symbol)) == before,
{
    assert(before.insert(uppercase(symbol), amount).remove(uppercase(symbol)) =~= before);
}

/// After a symbol is removed, removing it again finds nothing and changes
/// nothing.
pub proof fn remove_twice_is_remove_once<A>(before: Map<Seq<char>, A>, symbol: Seq<char>)
    ensures
        !before.remove(uppercase(symbol)).contains_key(uppercase(symbol)),
        before.remove(uppercase(symbol)).remove(uppercase(symbol)) == before.remove(uppercase(symbol)),
{
    assert(before.remove(uppercase(symbol)).remove(uppercase(symbol)) =~= before.remove(uppercase(symbol)));
}

/// Adding to a held symbol keeps the set of held symbols; adding a new one
/// grows it by that symbol alone.
pub proof fn add_keeps_other_holdings<A>(before: Map<Seq<char>, A>, after: Map<Seq<char>, A>, symbol: Seq<char>, other: Seq<char>)
    requires
        after == before.insert(uppercase(symbol), after[uppercase(symbol)]),
        other != uppercase(symbol),
    ensures
        after.contains_key(other) == before.contains_key(other),
        before.contains_key(other) ==> after[other] == before[other],
        after.dom() == before.dom().insert(uppercase(symbol)),
{
}

} // verus!
