//! A singly linked list of integers built from boxes.
use vstd::prelude::*;
use crate::ownership::{seq_sum, running_sums_fit};

verus! {

/// A list: an element followed by the rest, or the end.
#[derive(Debug)]
pub enum List {
    Cons(i32, Box<List>),
    Nil,
}

impl List {
    /// The elements of the list, front first.
    pub open spec fn elements(&self) -> Seq<i32>
        decreases self,
    {
        match self {
            List::Cons(v, next) => seq![*v] + next.elements(),
            List::Nil => Seq::empty(),
        }
    }

    /// The empty list.
    pub fn new() -> (r: Self)
        ensures
            r.elements() == Seq::<i32>::empty(),
    {
        List::Nil
    }

    /// The list with `value` in front.
    pub fn prepend(self, value: i32) -> (r: Self)
        ensures
            r.elements() == seq![value] + self.elements(),
    {
        List::Cons(value, Box::new(self))
    }

    /// The sum of the elements, added back to front: each partial sum
    /// from the back must fit in an `i32`.
    pub fn sum(&self) -> (r: i32)
        requires
            running_sums_fit(self.elements().reverse()),
        ensures
            r == seq_sum(self.elements()),
        decreases self,
    {
        proof {
            lemma_sum_reverse(self.elements());
        }
        match self {
            List::Cons(val, next) => {
                proof {
                    lemma_suffix_sums_fit(*val, next.elements());
                }
                let rest = next.sum();
                proof {
                    lemma_sum_front(*val, next.elements());
                    lemma_sum_reverse(next.elements());
                    assert(self.elements().reverse().take(self.elements().len() as int)
                        =~= self.elements().reverse());
                }
                *val + rest
            },
            List::Nil => 0,
        }
    }
}

/// Adding the front element last gives the same sum.
pub proof fn lemma_sum_front(v: i32, rest: Seq<i32>)
    ensures
        seq_sum(seq![v] + rest) == v + seq_sum(rest),
    decreases rest.len(),
{
    if rest.len() > 0 {
        assert((seq![v] + rest).drop_last() =~= seq![v] + rest.drop_last());
        assert((seq![v] + rest).last() == rest.last());
        lemma_sum_front(v, rest.drop_last());
        assert(seq_sum(seq![v] + rest) == seq_sum(seq![v] + rest.drop_last()) + rest.last());
    } else {
        assert(seq![v] + rest =~= seq![v]);
        assert(seq![v].drop_last() =~= Seq::<i32>::empty());
        assert(seq_sum(Seq::<i32>::empty()) == 0);
        assert(seq_sum(seq![v]) == v);
    }
}

/// The sum does not depend on the order of summation.
pub proof fn lemma_sum_reverse(s: Seq<i32>)
    ensures
        seq_sum(s.reverse()) == seq_sum(s),
    decreases s.len(),
{
    if s.len() > 0 {
        let f = s[0];
        let rest = s.drop_first();
        assert(s =~= seq![f] + rest);
        assert(s.reverse() =~= rest.reverse().push(f));
        assert(s.reverse().drop_last() =~= rest.reverse());
        lemma_sum_reverse(rest);
        lemma_sum_front(f, rest);
    }
}

/// The back-to-front partial sums of a list include those of its tail.
proof fn lemma_suffix_sums_fit(v: i32, rest: Seq<i32>)
    requires
        running_sums_fit((seq![v] + rest).reverse()),
    ensures
        running_sums_fit(rest.reverse()),
{
    let whole = (seq![v] + rest).reverse();
    assert(whole =~= rest.reverse().push(v));
    assert forall|k: int| 0 <= k <= rest.reverse().len() implies i32::MIN <= #[trigger] seq_sum(
        rest.reverse().take(k),
    ) <= i32::MAX by {
        assert(whole.take(k) =~= rest.reverse().take(k));
    }
}

} // verus!
