use vstd::prelude::*;
use rand::Rng;

verus! {

/// Draws a number from `low` to `high`, both included, from the thread's
/// own generator: `rand::thread_rng`, then `Rng::gen_range` over
/// `low..=high`. With `low <= high` the range is not empty, which is all that
/// `gen_range` asks for, and what it returns lies in the range. Which number
/// it is depends on chance, so nothing more is claimed.
#[verifier::external_body]
pub(crate) fn random_between(low: usize, high: usize) -> (res: usize)
    requires
        low <= high,
    ensures
        low <= res <= high,
{
    let mut rng = rand::thread_rng();
    rng.gen_range(low..=high)
}

/// Three values of one type, of which a read picks one by chance.
pub struct Random<T>(pub Box<T>, pub Box<T>, pub Box<T>);

impl<T> Random<T> {
    /// Holds the three values, each in its place.
    pub fn new(val_one: T, val_two: T, val_three: T) -> (res: Self)
        ensures
            *res.0 == val_one,
            *res.1 == val_two,
            *res.2 == val_three,
    {
        Random(Box::new(val_one), Box::new(val_two), Box::new(val_three))
    }

    /// The value at `index`, counted from 0.
    pub open spec fn spec_get(&self, index: int) -> T {
        if index == 0 {
            *self.0
        } else if index == 1 {
            *self.1
        } else {
            *self.2
        }
    }

    /// The value at `index`, counted from 0.
    pub fn get(&self, index: usize) -> (res: &T)
        requires
            index <= 2,
        ensures
            *res == self.spec_get(index as int),
    {
        if index == 0 {
            &self.0
        } else if index == 1 {
            &self.1
        } else {
            &self.2
        }
    }

    /// One of the three values, picked by chance.
    pub fn get_random(&self) -> (res: &T)
        ensures
            exists|index: int| 0 <= index <= 2 && *res == self.spec_get(index),
    {
        let index = random_between(0, 2);
        self.get(index)
    }
}

} // verus!
