//! A date-ordered, slug-keyed index of blog posts written in org-mode.
//!
//! A post is made from the path and the text of one document: the slug
//! from the file name, title and date from the keywords, the body as HTML.
//! The index holds one post for each slug, sorted by date when it is built,
//! and is not changed afterwards.

pub mod date;
pub mod index;
pub mod order;
pub mod org;
pub mod path;
pub mod post;
pub mod sort;
pub mod templates;
pub mod text;

pub use date::PostDate;
pub use index::{Posts, Source};
pub use org::{Keyword, OrgDocument};
pub use post::{ParseError, Post};
pub use templates::{IndexTemplate, Partials};
