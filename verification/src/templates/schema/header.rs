//! The head of a page.

use crate::templates::schema::nav_link::NavLink;
use vstd::prelude::*;

verus! {

/// The head of a page.
#[derive(Clone, Debug)]
pub struct Header {
    pub nav_links: Vec<NavLink>,
}

impl Header {
    /// A header that carries `nav_links`.
    pub fn new(nav_links: Vec<NavLink>) -> (header: Self)
        ensures
            header.nav_links == nav_links,
    {
        Header { nav_links }
    }
}

} // verus!
