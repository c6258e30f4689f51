//! Players and their bearer tokens.

use vstd::prelude::*;
use crate::config::Score;

verus! {

/// An opaque, equality-comparable bearer token identifying a player.
#[derive(Debug)]
pub struct UserToken(pub String);

impl View for UserToken {
    type V = Seq<char>;

    open spec fn view(&self) -> Seq<char> {
        self.0@
    }
}

impl Clone for UserToken {
    fn clone(&self) -> (r: UserToken)
        ensures
            r == *self,
    {
        UserToken(self.0.clone())
    }
}

impl PartialEq for UserToken {
    fn eq(&self, other: &UserToken) -> bool {
        self.0 == other.0
    }
}

impl vstd::std_specs::cmp::PartialEqSpecImpl for UserToken {
    open spec fn obeys_eq_spec() -> bool {
        true
    }

    open spec fn eq_spec(&self, other: &UserToken) -> bool {
        self.0@ == other.0@
    }
}

impl From<String> for UserToken {
    fn from(value: String) -> UserToken {
        UserToken(value)
    }
}

impl vstd::std_specs::convert::FromSpecImpl<String> for UserToken {
    open spec fn obeys_from_spec() -> bool {
        true
    }

    open spec fn from_spec(value: String) -> UserToken {
        UserToken(value)
    }
}

/// A player's mutable state: the score accumulated so far.
#[derive(Debug, Copy, Clone, PartialEq, Eq, Structural)]
pub struct User {
    pub score: Score,
}

impl Default for User {
    /// A fresh player starts with no score.
    fn default() -> (r: User)
        ensures
            r.score == 0,
    {
        User { score: 0 }
    }
}

} // verus!
