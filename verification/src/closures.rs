//! Closures and iterators: applying functions repeatedly, building
//! closures, joining words, and two hand-written sequences.
use vstd::prelude::*;

verus! {

/// `f(f(x))`; `f` must accept `x` and whatever it returns for `x`.
pub fn apply_twice(f: impl Fn(i32) -> i32, x: i32) -> (r: i32)
    requires
        f.requires((x,)),
        forall|y: i32| f.ensures((x,), y) ==> f.requires((y,)),
    ensures
        exists|y: i32| f.ensures((x,), y) && f.ensures((y,), r),
{
    let y = f(x);
    f(y)
}

/// The results of calling `f` `n` times, in call order: the `i`-th result
/// is one that `f` may return in the state it is in before the `i`-th call,
/// the first of those states being `f` as passed. `f` must be callable in
/// every state it can reach.
pub fn apply_n_times<F: FnMut() -> i32>(mut f: F, n: u32) -> (r: Vec<i32>)
    requires
        forall|g: F| g.requires(()),
    ensures
        r@.len() == n,
        exists|states: Seq<F>|
            #![trigger states.len()]
            states.len() == n && (n > 0 ==> states[0] == f) && forall|i: int|
                0 <= i < n ==> (#[trigger] states[i]).ensures((), r@[i]),
{
    let ghost f0 = f;
    let ghost mut states: Seq<F> = Seq::empty();
    let mut out: Vec<i32> = Vec::new();
    let mut i: u32 = 0;
    while i < n
        invariant
            i <= n,
            out@.len() == i,
            states.len() == i,
            forall|g: F| g.requires(()),
            i == 0 ==> f == f0,
            i > 0 ==> states[0] == f0,
            forall|j: int| 0 <= j < i ==> (#[trigger] states[j]).ensures((), out@[j]),
        decreases n - i,
    {
        let ghost before = f;
        let v = f();
        proof {
            states = states.push(before);
        }
        out.push(v);
        i = i + 1;
    }
    assert(states.len() == n);
    out
}

/// Calls `f` once and returns its result.
pub fn call_once(f: impl FnOnce() -> String) -> (r: String)
    requires
        f.requires(()),
    ensures
        f.ensures((), r),
{
    f()
}

/// A function that adds `n`; it accepts the `x` for which `x + n` fits in
/// an `i32`.
pub fn make_adder(n: i32) -> (r: impl Fn(i32) -> i32)
    ensures
        forall|x: i32| i32::MIN <= x + n <= i32::MAX ==> r.requires((x,)),
        forall|x: i32, y: i32| r.ensures((x,), y) ==> y == x + n,
{
    move |x: i32| -> (y: i32)
        requires
            i32::MIN <= x + n <= i32::MAX,
        ensures
            y == x + n,
        { x + n }
}

/// A function that greets `name`.
pub fn make_greeter(name: String) -> (r: impl Fn() -> String)
    ensures
        r.requires(()),
        forall|g: String| r.ensures((), g) ==> g@ == "Hello, "@ + name@ + "!"@,
{
    move || -> (g: String)
        ensures
            g@ == "Hello, "@ + name@ + "!"@,
        {
            let mut s = String::from_str("Hello, ");
            s.append(name.as_str());
            s.append("!");
            s
        }
}

/// The words joined by single spaces.
pub open spec fn joined(words: Seq<Seq<char>>) -> Seq<char>
    decreases words.len(),
{
    if words.len() == 0 {
        Seq::empty()
    } else if words.len() == 1 {
        words[0]
    } else {
        joined(words.drop_last()) + " "@ + words.last()
    }
}

/// The character sequences of a list of text slices.
pub open spec fn word_views(words: Seq<&str>) -> Seq<Seq<char>> {
    words.map_values(|w: &str| w@)
}

/// The words joined into one sentence by single spaces.
pub fn words_to_sentence(words: Vec<&str>) -> (r: String)
    ensures
        r@ == joined(word_views(words@)),
{
    let mut acc = String::new();
    let mut i: usize = 0;
    while i < words.len()
        invariant
            i <= words@.len(),
            acc@ == joined(word_views(words@).take(i as int)),
        decreases words@.len() - i,
    {
        let ghost ws = word_views(words@);
        assert(ws.take(i + 1).drop_last() =~= ws.take(i as int));
        if i > 0 {
            acc.append(" ");
        }
        acc.append(words[i]);
        assert(ws.take(i + 1).last() == words@[i as int]@);
        i = i + 1;
    }
    assert(word_views(words@).take(words@.len() as int) =~= word_views(words@));
    acc
}

/// Counts from 1 up to a limit.
pub struct Counter {
    count: u32,
    max: u32,
}

impl Counter {
    /// The number last produced (0 before the first).
    pub closed spec fn current(&self) -> u32 {
        self.count
    }

    /// The last number the counter produces.
    pub closed spec fn limit(&self) -> u32 {
        self.max
    }

    pub fn new(max: u32) -> (r: Self)
        ensures
            r.current() == 0,
            r.limit() == max,
    {
        Self { count: 0, max }
    }

    /// The next number, or `None` once the limit has been produced.
    pub fn next(&mut self) -> (r: Option<u32>)
        ensures
            final(self).limit() == old(self).limit(),
            old(self).current() < old(self).limit() ==> r == Some((old(self).current() + 1) as u32)
                && final(self).current() == old(self).current() + 1,
            old(self).current() >= old(self).limit() ==> r is None && final(self).current()
                == old(self).current(),
    {
        if self.count < self.max {
            self.count = self.count + 1;
            Some(self.count)
        } else {
            None
        }
    }
}

/// The Fibonacci numbers: 0, 1, 1, 2, 3, 5, ...
pub open spec fn fib(n: nat) -> nat
    decreases n,
{
    if n == 0 {
        0
    } else if n == 1 {
        1
    } else {
        fib((n - 2) as nat) + fib((n - 1) as nat)
    }
}

/// Produces the Fibonacci numbers from the first 1 on.
pub struct Fibonacci {
    a: u64,
    b: u64,
    produced: Ghost<nat>,
}

impl Fibonacci {
    /// How many numbers the sequence has produced.
    pub closed spec fn produced(&self) -> nat {
        self.produced@
    }

    /// The state holds the two Fibonacci numbers at the current position.
    pub closed spec fn wf(&self) -> bool {
        self.a == fib(self.produced@) && self.b == fib(self.produced@ + 1)
    }

    pub fn new() -> (r: Self)
        ensures
            r.wf(),
            r.produced() == 0,
    {
        Self { a: 0, b: 1, produced: Ghost(0) }
    }

    /// The next Fibonacci number: the `k`-th call returns `fib(k)`. The sum
    /// computed one step ahead must fit in a `u64`.
    pub fn next(&mut self) -> (r: Option<u64>)
        requires
            old(self).wf(),
            fib(old(self).produced() + 2) <= u64::MAX,
        ensures
            final(self).wf(),
            final(self).produced() == old(self).produced() + 1,
            r == Some(fib(old(self).produced() + 1) as u64),
    {
        let ghost k = self.produced@;
        assert(fib(k + 2) == fib(k) + fib(k + 1));
        let next = self.a + self.b;
        self.a = self.b;
        self.b = next;
        self.produced = Ghost(k + 1);
        Some(self.a)
    }
}

} // verus!
