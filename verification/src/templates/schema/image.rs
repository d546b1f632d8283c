//! An image of a page.

use vstd::prelude::*;

verus! {

/// An image: its file name and the text that stands in for it.
#[derive(Clone, Debug)]
pub struct Image {
    pub name: String,
    pub alt: String,
}

impl Image {
    /// The image `name` with the text `alt`.
    pub fn new(name: &str, alt: &str) -> (image: Self)
        ensures
            image.name@ == name@,
            image.alt@ == alt@,
    {
        Image { name: name.to_owned(), alt: alt.to_owned() }
    }
}

} // verus!
