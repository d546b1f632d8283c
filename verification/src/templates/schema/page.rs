//! One page of the site.

use vstd::prelude::*;

verus! {

/// One page of the site: its name, its address, and the style sheets and
/// scripts that it loads.
#[derive(Clone, Debug)]
pub struct Page {
    pub display_name: String,
    pub url: String,
    pub style_sheets: Vec<String>,
    pub scripts: Vec<String>,
}

impl Page {
    /// The page `display_name` at `url`.
    pub fn new(
        display_name: String,
        url: String,
        style_sheets: Vec<String>,
        scripts: Vec<String>,
    ) -> (page: Self)
        ensures
            page.display_name == display_name,
            page.url == url,
            page.style_sheets == style_sheets,
            page.scripts == scripts,
    {
        Page { display_name, url, style_sheets, scripts }
    }
}

} // verus!
