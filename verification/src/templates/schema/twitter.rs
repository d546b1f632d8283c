//! The Twitter account of the author.

use vstd::prelude::*;

verus! {

/// The Twitter account of the author.
#[derive(Clone, Debug)]
pub struct Twitter {
    pub username: String,
}

impl Twitter {
    /// The account `username`.
    pub fn new(username: String) -> (twitter: Self)
        ensures
            twitter.username == username,
    {
        Twitter { username }
    }
}

} // verus!
