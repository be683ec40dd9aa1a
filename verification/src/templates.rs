//! What the pages of the blog are filled with.

use vstd::prelude::*;

verus! {

/// The title of the blog.
pub const BLOG_TITLE: &'static str = "Asdrubalini's Blog";

/// The name that the index page greets with.
pub const BLOG_NAME: &'static str = "Asdrubalini!";

/// What is sent for a slug that the index does not have.
pub const POST_NOT_FOUND: &'static str = "404 post not found";

/// A part of a page, known by its id.
#[derive(Debug, Clone)]
pub struct Partials {
    id: String,
}

/// The values of the index page.
pub struct IndexTemplate {
    pub title: String,
    pub name: String,
}

impl IndexTemplate {
    /// The values of the index page of the blog.
    pub fn home() -> (r: IndexTemplate)
        ensures
            r.title@ == BLOG_TITLE@,
            r.name@ == BLOG_NAME@,
    {
        IndexTemplate { title: BLOG_TITLE.to_owned(), name: BLOG_NAME.to_owned() }
    }
}

} // verus!
