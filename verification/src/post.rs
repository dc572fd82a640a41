use vstd::prelude::*;

pub mod states;
pub mod types;

verus! {

/// A post, whose type says how far it has come.
pub struct Post<State> {
    pub user_id: crate::user::types::Id,
    pub title: types::Title,
    pub body: types::Body,
    pub state: State,
}

impl Post<states::New> {
    /// A post of the user `user_id` that has not been sent in yet.
    pub fn new(user_id: crate::user::types::Id, title: types::Title, body: types::Body) -> (res:
        Self)
        ensures
            res.user_id == user_id,
            res.title == title,
            res.body == body,
    {
        Post { user_id, title, body, state: states::New }
    }

    /// Sends the post in under the number `new_id`.
    pub fn publish(self, new_id: types::Id) -> (res: Post<states::Unmoderated>)
        ensures
            res.user_id == self.user_id,
            res.title == self.title,
            res.body == self.body,
            res.state.id == new_id,
    {
        Post {
            user_id: self.user_id,
            title: self.title,
            body: self.body,
            state: states::Unmoderated { id: new_id },
        }
    }
}

impl Post<states::Unmoderated> {
    /// Lets the post through; it keeps its number.
    pub fn allow(self) -> (res: Post<states::Published>)
        ensures
            res.user_id == self.user_id,
            res.title == self.title,
            res.body == self.body,
            res.state.id == self.state.id,
    {
        Post {
            user_id: self.user_id,
            title: self.title,
            body: self.body,
            state: states::Published { id: self.state.id },
        }
    }

    /// Turns the post down.
    pub fn deny(self) -> (res: Post<states::Deleted>)
        ensures
            res.user_id == self.user_id,
            res.title == self.title,
            res.body == self.body,
    {
        Post { user_id: self.user_id, title: self.title, body: self.body, state: states::Deleted }
    }
}

impl Post<states::Published> {
    /// Takes the post back.
    pub fn delete(self) -> (res: Post<states::Deleted>)
        ensures
            res.user_id == self.user_id,
            res.title == self.title,
            res.body == self.body,
    {
        Post { user_id: self.user_id, title: self.title, body: self.body, state: states::Deleted }
    }
}

} // verus!
