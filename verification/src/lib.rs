//! A double-ended linked list for any number of threads, with its proofs, and
//! a few small companions.
//!
//! `dl_list` holds the list itself: nodes in an arena of slots, linked in both
//! directions, with a view as the sequence of its elements. `model` says over
//! plain sequences what each operation does, `laws` proves what follows for
//! runs of operations, and `concurrent` puts the list behind a lock so that it
//! can be shared.

pub mod concurrent;
pub mod dl_list;
pub mod email_string;
pub mod error;
pub mod fact;
pub mod laws;
pub mod model;
pub mod post;
pub mod random_t;
pub mod shared_stack;
pub mod user;
pub mod vending;
