//! Enums and options: naming directions and finding a negative number.
use vstd::prelude::*;

verus! {

/// A direction of movement.
#[derive(Debug, Clone, Copy, PartialEq, Eq)]
pub enum Direction {
    Up,
    Down,
    Left,
    Right,
}

/// How a direction is shown to a user.
pub open spec fn direction_label(dir: Direction) -> Seq<char> {
    match dir {
        Direction::Up => "вгору ↑"@,
        Direction::Down => "вниз ↓"@,
        Direction::Left => "вліво ←"@,
        Direction::Right => "вправо →"@,
    }
}

/// The label of a direction.
pub fn describe_direction(dir: &Direction) -> (r: &'static str)
    ensures
        r@ == direction_label(*dir),
{
    match dir {
        Direction::Up => "вгору ↑",
        Direction::Down => "вниз ↓",
        Direction::Left => "вліво ←",
        Direction::Right => "вправо →",
    }
}

/// The first negative number of the slice, if there is one.
pub fn find_first_negative(numbers: &[i32]) -> (r: Option<i32>)
    ensures
        r is None <==> forall|i: int| 0 <= i < numbers@.len() ==> numbers@[i] >= 0,
        r matches Some(n) ==> exists|k: int|
            0 <= k < numbers@.len() && numbers@[k] == n && n < 0 && forall|i: int|
                0 <= i < k ==> numbers@[i] >= 0,
{
    let mut i: usize = 0;
    while i < numbers.len()
        invariant
            i <= numbers@.len(),
            forall|j: int| 0 <= j < i ==> numbers@[j] >= 0,
        decreases numbers@.len() - i,
    {
        let n = numbers[i];
        if n < 0 {
            return Some(n);
        }
        i = i + 1;
    }
    None
}

} // verus!
