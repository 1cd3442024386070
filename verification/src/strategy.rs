//! Interchangeable sorting strategies for integer lists, and a sorter that
//! runs whichever strategy it was built with.
use vstd::prelude::*;

verus! {

broadcast use vstd::seq_lib::group_seq_properties;

/// The orders the strategies sort by.
#[derive(Clone, Copy, PartialEq, Eq)]
pub enum KeyOrder {
    Ascending,
    Descending,
    Absolute,
}

/// The key under which `order` places `x`: smaller keys come first.
pub open spec fn key_of(order: KeyOrder, x: i32) -> int {
    match order {
        KeyOrder::Ascending => x as int,
        KeyOrder::Descending => -(x as int),
        KeyOrder::Absolute => if x < 0 { -(x as int) } else { x as int },
    }
}

/// The elements of `s` whose key under `order` is `k`, in their order in `s`.
pub open spec fn with_key(s: Seq<i32>, order: KeyOrder, k: int) -> Seq<i32> {
    s.filter(|x: i32| key_of(order, x) == k)
}

/// `s` lists its elements by non-decreasing key.
pub open spec fn sorted_by_key(s: Seq<i32>, order: KeyOrder) -> bool {
    forall|i: int, j: int| 0 <= i < j < s.len() ==> key_of(order, s[i]) <= key_of(order, s[j])
}

/// `after` holds the elements of `before`, and elements with equal keys keep
/// their relative order (the rearrangement is stable).
pub open spec fn stable_rearrangement(before: Seq<i32>, after: Seq<i32>, order: KeyOrder) -> bool {
    &&& after.to_multiset() == before.to_multiset()
    &&& forall|k: int| #[trigger] with_key(after, order, k) == with_key(before, order, k)
}

/// The keys are what their names say: ascending sorts by the value,
/// descending by its negation, and the absolute strategy by the magnitude,
/// which is never negative and is the value or its negation.
pub proof fn keys_are_value_negation_and_magnitude(x: i32)
    ensures
        key_of(KeyOrder::Ascending, x) == x,
        key_of(KeyOrder::Descending, x) == -x,
        key_of(KeyOrder::Absolute, x) >= 0,
        key_of(KeyOrder::Absolute, x) == x || key_of(KeyOrder::Absolute, x) == -x,
{
}

/// A list sorted by the absolute strategy has non-decreasing magnitudes:
/// each element lies between the negation and the value of the magnitude
/// of any later one.
pub proof fn absolute_sort_orders_magnitudes(s: Seq<i32>)
    requires
        sorted_by_key(s, KeyOrder::Absolute),
    ensures
        forall|i: int, j: int|
            0 <= i < j < s.len() ==> {
                let m = if s[j] < 0 { -s[j] } else { s[j] as int };
                -m <= #[trigger] s[i] <= m && m == #[trigger] key_of(KeyOrder::Absolute, s[j])
            },
{
    assert forall|i: int, j: int| 0 <= i < j < s.len() implies {
        let m = if s[j] < 0 { -s[j] } else { s[j] as int };
        -m <= #[trigger] s[i] <= m && m == #[trigger] key_of(KeyOrder::Absolute, s[j])
    } by {
        keys_are_value_negation_and_magnitude(s[i]);
        keys_are_value_negation_and_magnitude(s[j]);
        assert(key_of(KeyOrder::Absolute, s[i]) <= key_of(KeyOrder::Absolute, s[j]));
    }
}

fn key(order: KeyOrder, x: i32) -> (r: i64)
    ensures
        r == key_of(order, x),
{
    match order {
        KeyOrder::Ascending => x as i64,
        KeyOrder::Descending => -(x as i64),
        KeyOrder::Absolute => if x < 0 {
            -(x as i64)
        } else {
            x as i64
        },
    }
}

/// Exchanging two neighbours with different keys keeps the multiset and
/// every key class in order.
proof fn lemma_swap_neighbours(s: Seq<i32>, j: int, order: KeyOrder)
    requires
        0 <= j,
        j + 1 < s.len(),
        key_of(order, s[j]) != key_of(order, s[j + 1]),
    ensures
        stable_rearrangement(s, s.update(j, s[j + 1]).update(j + 1, s[j]), order),
{
    let t = s.update(j, s[j + 1]).update(j + 1, s[j]);
    let a = s.take(j);
    let b = s.skip(j + 2);
    let xy = seq![s[j], s[j + 1]];
    let yx = seq![s[j + 1], s[j]];
    assert(s =~= a + xy + b);
    assert(t =~= a + yx + b);
    vstd::seq_lib::lemma_multiset_commutative(a + xy, b);
    vstd::seq_lib::lemma_multiset_commutative(a + yx, b);
    vstd::seq_lib::lemma_multiset_commutative(a, xy);
    vstd::seq_lib::lemma_multiset_commutative(a, yx);
    vstd::seq_lib::lemma_multiset_commutative(seq![s[j]], seq![s[j + 1]]);
    vstd::seq_lib::lemma_multiset_commutative(seq![s[j + 1]], seq![s[j]]);
    assert(seq![s[j]] + seq![s[j + 1]] =~= xy);
    assert(seq![s[j + 1]] + seq![s[j]] =~= yx);
    assert(xy.to_multiset() =~= yx.to_multiset());
    assert forall|k: int| #[trigger] with_key(t, order, k) == with_key(s, order, k) by {
        let p = |x: i32| key_of(order, x) == k;
        Seq::filter_distributes_over_add(a + xy, b, p);
        Seq::filter_distributes_over_add(a + yx, b, p);
        Seq::filter_distributes_over_add(a, xy, p);
        Seq::filter_distributes_over_add(a, yx, p);
        reveal_with_fuel(Seq::filter, 3);
        assert(xy.drop_last() =~= seq![s[j]]);
        assert(yx.drop_last() =~= seq![s[j + 1]]);
        assert(seq![s[j]].drop_last() =~= Seq::<i32>::empty());
        assert(seq![s[j + 1]].drop_last() =~= Seq::<i32>::empty());
        assert(xy.filter(p) =~= yx.filter(p));
    }
}

/// Stable insertion sort of `data` by non-decreasing key.
pub fn stable_sort_by_key(data: &mut Vec<i32>, order: KeyOrder)
    ensures
        final(data)@.len() == old(data)@.len(),
        sorted_by_key(final(data)@, order),
        stable_rearrangement(old(data)@, final(data)@, order),
{
    let n = data.len();
    let ghost orig = data@;
    let mut i: usize = 1;
    if n == 0 {
        return ;
    }
    while i < n
        invariant
            1 <= i <= n,
            n == data@.len(),
            stable_rearrangement(orig, data@, order),
            forall|a: int, b: int|
                0 <= a < b < i ==> key_of(order, #[trigger] data@[a]) <= key_of(
                    order,
                    #[trigger] data@[b],
                ),
        decreases n - i,
    {
        let mut j: usize = i;
        while j > 0 && key(order, data[j - 1]) > key(order, data[j])
            invariant
                i < n,
                0 <= j <= i,
                n == data@.len(),
                stable_rearrangement(orig, data@, order),
                forall|a: int, b: int|
                    0 <= a < b <= i && a != j && b != j ==> key_of(order, #[trigger] data@[a])
                        <= key_of(order, #[trigger] data@[b]),
                forall|b: int|
                    j < b <= i ==> key_of(order, data@[j as int]) < key_of(
                        order,
                        #[trigger] data@[b],
                    ),
            decreases j,
        {
            let ghost before = data@;
            let x = data[j - 1];
            let y = data[j];
            proof {
                lemma_swap_neighbours(before, j - 1, order);
            }
            data.set(j - 1, y);
            data.set(j, x);
            assert(data@ =~= before.update(j - 1, before[j as int]).update(
                j as int,
                before[j - 1],
            ));
            j = j - 1;
        }
        i = i + 1;
    }
}

/// A way of ordering a list of integers.
pub trait SortStrategy {
    /// The key by which the strategy orders: smaller keys come first.
    spec fn order(&self) -> KeyOrder;

    /// The lists the strategy can sort without overflowing its key.
    spec fn admits(&self, data: Seq<i32>) -> bool;

    /// Sorts `data` in place, stably, by the strategy's key.
    fn sort(&self, data: &mut Vec<i32>)
        requires
            self.admits(old(data)@),
        ensures
            sorted_by_key(final(data)@, self.order()),
            stable_rearrangement(old(data)@, final(data)@, self.order()),
    ;

    /// The strategy's name, as shown to a user.
    fn name(&self) -> (r: &str);
}

/// Smallest first.
pub struct AscendingSort;

/// Largest first.
pub struct DescendingSort;

/// Smallest magnitude first; equal magnitudes keep their order.
pub struct AbsoluteSort;

impl SortStrategy for AscendingSort {
    open spec fn order(&self) -> KeyOrder {
        KeyOrder::Ascending
    }

    open spec fn admits(&self, data: Seq<i32>) -> bool {
        true
    }

    fn sort(&self, data: &mut Vec<i32>) {
        stable_sort_by_key(data, KeyOrder::Ascending);
    }

    fn name(&self) -> (r: &str)
        ensures
            r@ == "за зростанням"@,
    {
        "за зростанням"
    }
}

impl SortStrategy for DescendingSort {
    open spec fn order(&self) -> KeyOrder {
        KeyOrder::Descending
    }

    open spec fn admits(&self, data: Seq<i32>) -> bool {
        true
    }

    fn sort(&self, data: &mut Vec<i32>) {
        stable_sort_by_key(data, KeyOrder::Descending);
    }

    fn name(&self) -> (r: &str)
        ensures
            r@ == "за спаданням"@,
    {
        "за спаданням"
    }
}

impl SortStrategy for AbsoluteSort {
    open spec fn order(&self) -> KeyOrder {
        KeyOrder::Absolute
    }

    /// `i32::abs` overflows on `i32::MIN`.
    open spec fn admits(&self, data: Seq<i32>) -> bool {
        forall|i: int| 0 <= i < data.len() ==> data[i] != i32::MIN
    }

    fn sort(&self, data: &mut Vec<i32>)
        ensures
            forall|i: int, j: int|
                0 <= i < j < final(data)@.len() ==> {
                    let m = if final(data)@[j] < 0 { -final(data)@[j] } else { final(data)@[j] as int };
                    -m <= #[trigger] final(data)@[i] <= m && m == #[trigger] key_of(KeyOrder::Absolute, final(data)@[j])
                },
    {
        stable_sort_by_key(data, KeyOrder::Absolute);
        proof {
            absolute_sort_orders_magnitudes(data@);
        }
    }

    fn name(&self) -> (r: &str)
        ensures
            r@ == "за модулем"@,
    {
        "за модулем"
    }
}

/// Holds a strategy and sorts with it. The strategy is a type parameter
/// rather than a boxed trait object, so that its key and its admissible
/// inputs are known where the sorter is used.
pub struct Sorter<S: SortStrategy> {
    pub strategy: S,
}

impl<S: SortStrategy> Sorter<S> {
    pub fn new(strategy: S) -> (r: Self)
        ensures
            r.strategy == strategy,
    {
        Self { strategy }
    }

    /// Sorts `data` with the held strategy.
    pub fn sort(&self, data: &mut Vec<i32>)
        requires
            self.strategy.admits(old(data)@),
        ensures
            sorted_by_key(final(data)@, self.strategy.order()),
            stable_rearrangement(old(data)@, final(data)@, self.strategy.order()),
    {
        self.strategy.sort(data);
    }
}

} // verus!
