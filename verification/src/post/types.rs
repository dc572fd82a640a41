use vstd::prelude::*;
use vstd::std_specs::convert::FromSpecImpl;

verus! {

/// The number of a post.
#[derive(Clone, Debug, PartialEq, Eq, Structural)]
pub struct Id(pub u64);

impl From<u64> for Id {
    fn from(value: u64) -> (res: Self) {
        Id(value)
    }
}

impl FromSpecImpl<u64> for Id {
    open spec fn obeys_from_spec() -> bool {
        true
    }

    open spec fn from_spec(value: u64) -> Self {
        Id(value)
    }
}

#[derive(Clone, Debug, PartialEq)]
pub struct Title(pub String);

impl From<String> for Title {
    fn from(value: String) -> (res: Self) {
        Title(value)
    }
}

impl FromSpecImpl<String> for Title {
    open spec fn obeys_from_spec() -> bool {
        true
    }

    open spec fn from_spec(value: String) -> Self {
        Title(value)
    }
}

#[derive(Clone, Debug, PartialEq)]
pub struct Body(pub String);

impl From<String> for Body {
    fn from(value: String) -> (res: Self) {
        Body(value)
    }
}

impl FromSpecImpl<String> for Body {
    open spec fn obeys_from_spec() -> bool {
        true
    }

    open spec fn from_spec(value: String) -> Self {
        Body(value)
    }
}

} // verus!
