//! The foot of a page.

use crate::templates::schema::copyright::Copyright;
use vstd::prelude::*;

verus! {

/// The foot of a page.
#[derive(Clone, Debug)]
pub struct Footer {
    pub copyright: Copyright,
}

impl Footer {
    /// A footer that carries `copyright`.
    pub fn new(copyright: Copyright) -> (footer: Self)
        ensures
            footer.copyright == copyright,
    {
        Footer { copyright }
    }
}

} // verus!
