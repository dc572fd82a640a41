use vstd::prelude::*;
use vstd::std_specs::convert::FromSpecImpl;

verus! {

/// The number of a user.
#[derive(Clone, Debug, PartialEq, Eq, Structural)]
pub struct Id(pub u64);

impl From<u64> for Id {
    fn from(value: u64) -> (res: Self) {
        Id(value)
    }
}

impl FromSpecImpl<u64> for Id {
    open spec fn obeys_from_spec() -> bool {
        true
    }

    open spec fn from_spec(value: u64) -> Self {
        Id(value)
    }
}

} // verus!
