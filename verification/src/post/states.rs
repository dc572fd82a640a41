use vstd::prelude::*;

verus! {

/// A post that has been written and not yet sent in.
pub struct New;

/// A post that has been sent in and waits for a moderator.
pub struct Unmoderated {
    pub id: super::types::Id,
}

/// A post that a moderator has let through.
pub struct Published {
    pub id: super::types::Id,
}

/// A post that was turned down or taken back.
pub struct Deleted;

} // verus!
