//! A link of the navigation.

use vstd::prelude::*;

verus! {

/// A link of the navigation: what it shows and where it leads.
#[derive(Clone, Debug)]
pub struct NavLink {
    pub display_name: String,
    pub url: String,
}

impl NavLink {
    /// A link that shows `display_name` and leads to `url`.
    pub fn new(display_name: &str, url: &str) -> (link: Self)
        ensures
            link.display_name@ == display_name@,
            link.url@ == url@,
    {
        NavLink { display_name: display_name.to_owned(), url: url.to_owned() }
    }
}

} // verus!
