//! Plain content-page metadata: the pieces of page and gallery data whose
//! values are ordinary text. Rendering and storage live outside the
//! library.

use vstd::prelude::*;
use vstd::string::StringExecFns;

verus! {

/// One image of a gallery block.
#[derive(Debug, Clone)]
pub struct GalleryImage {
    /// Where the image is served from.
    pub url: String,
    /// Alternative text.
    pub alt: String,
    /// Caption shown under the image.
    pub caption: String,
}

impl Default for GalleryImage {
    /// An empty gallery image.
    fn default() -> (r: GalleryImage)
        ensures
            r.url@ == Seq::<char>::empty(),
            r.alt@ == Seq::<char>::empty(),
            r.caption@ == Seq::<char>::empty(),
    {
        GalleryImage { url: String::new(), alt: String::new(), caption: String::new() }
    }
}

/// Metadata of a published page snapshot.
#[derive(Debug, Clone)]
pub struct PageMeta {
    /// Page title.
    pub title: String,
    /// URL slug.
    pub slug: String,
    /// Full path of the page.
    pub path: String,
    /// Title for search engines; falls back to `title` when empty.
    pub seo_title: String,
    /// Description for search engines.
    pub seo_description: String,
    /// Social-preview image.
    pub og_image_url: String,
    /// Robots directive.
    pub robots: String,
}

/// The robots directive a page gets when its snapshot names none.
pub fn default_robots() -> (r: String)
    ensures
        r@ == "index, follow"@,
{
    String::from_str("index, follow")
}

} // verus!
