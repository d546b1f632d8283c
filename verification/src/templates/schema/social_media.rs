//! A profile on a social network.

use vstd::prelude::*;

verus! {

/// A profile on a social network: the network's name and the profile's
/// address.
#[derive(Clone, Debug)]
pub struct SocialMedia {
    pub name: String,
    pub link: String,
}

impl SocialMedia {
    /// The profile at `link` on the network `name`.
    pub fn new(name: &str, link: &str) -> (profile: Self)
        ensures
            profile.name@ == name@,
            profile.link@ == link@,
    {
        SocialMedia { name: name.to_owned(), link: link.to_owned() }
    }
}

} // verus!
