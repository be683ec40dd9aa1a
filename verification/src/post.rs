//! A post: the slug, title, date and HTML of one document.

use vstd::prelude::*;
use crate::date::{org_date_format, org_date_of, org_date_parse, org_text_of, PostDate};
use crate::org::{keyword_text, org_html_of, org_keyword_get, org_keywords_of, read_org, text_view, OrgDocument};
use crate::path::{slug, slug_of};

verus! {

/// The key of the keyword that holds the title.
pub const TITLE_KEY: &'static str = "title";

/// The key of the keyword that holds the publication date.
pub const DATE_KEY: &'static str = "date";

/// Why a document could not be made into a post.
#[derive(Debug, Clone, Copy, PartialEq, Eq, Structural)]
pub enum ParseError {
    /// The path of the document has no file name to take the slug from.
    MissingFileName,
}

/// One document of the blog.
#[derive(Debug)]
pub struct Post {
    pub slug: String,
    pub title: Option<String>,
    pub date: Option<PostDate>,
    pub inner_html: String,
}

/// A post as plain values.
pub struct PostView {
    pub slug: Seq<char>,
    pub title: Option<Seq<char>>,
    pub date: Option<PostDate>,
    pub inner_html: Seq<char>,
}

impl View for Post {
    type V = PostView;

    open spec fn view(&self) -> PostView {
        PostView {
            slug: self.slug@,
            title: text_view(self.title),
            date: self.date,
            inner_html: self.inner_html@,
        }
    }
}

/// The date that the keywords of a document give: that of the keyword
/// `date`, where there is one and its text is a date.
pub open spec fn date_of_keywords(keywords: Seq<(Seq<char>, Seq<char>)>) -> Option<PostDate> {
    match keyword_text(keywords, DATE_KEY@) {
        Some(text) => match org_date_of(text) {
            Ok(date) => Some(date),
            Err(_) => None,
        },
        None => None,
    }
}

/// The post made from a path, the keywords of the document and its HTML.
/// The slug comes from the file name of the path, the title from the
/// keyword `title`, the date from the keyword `date`. Only a path without a
/// file name gives an error.
pub open spec fn post_of(path: Seq<char>, keywords: Seq<(Seq<char>, Seq<char>)>, html: Seq<char>) -> Result<
    PostView,
    ParseError,
> {
    match slug_of(path) {
        Some(slug) => Ok(
            PostView {
                slug,
                title: keyword_text(keywords, TITLE_KEY@),
                date: date_of_keywords(keywords),
                inner_html: html,
            },
        ),
        None => Err(ParseError::MissingFileName),
    }
}

/// Whether `r` is the outcome `expected`, read by the view of the post.
pub open spec fn is_outcome(r: Result<Post, ParseError>, expected: Result<PostView, ParseError>) -> bool {
    match expected {
        Ok(view) => r matches Ok(post) && post@ == view,
        Err(e) => r == Err::<Post, ParseError>(e),
    }
}

impl Post {
    /// Makes the post of the document at `path` from what was read of it.
    pub fn from_document(path: &str, doc: OrgDocument) -> (r: Result<Post, ParseError>)
        ensures
            is_outcome(r, post_of(path@, doc.keywords_view(), doc.html@)),
            r matches Ok(post) ==> (post.date matches Some(date) ==> date.wf()),
    {
        let slug = match slug(path) {
            Some(slug) => slug,
            None => {
                return Err(ParseError::MissingFileName);
            },
        };
        let title = org_keyword_get(&doc.keywords, TITLE_KEY);
        let date = match org_keyword_get(&doc.keywords, DATE_KEY) {
            Some(text) => match org_date_parse(text.as_str()) {
                Ok(date) => Some(date),
                Err(_) => None,
            },
            None => None,
        };
        Ok(Post { slug, title, date, inner_html: doc.html })
    }

    /// Parses the document `data` found at `path` into a post. A missing
    /// title or date, or a date in another form, is no error.
    pub fn parse(path: &str, data: &str) -> (r: Result<Post, ParseError>)
        ensures
            is_outcome(r, post_of(path@, org_keywords_of(data@), org_html_of(data@))),
            r matches Ok(post) ==> (post.date matches Some(date) ==> date.wf()),
    {
        Post::from_document(path, read_org(data))
    }

    /// The date of the post in the form `<YYYY-MM-DD Weekday>`.
    pub fn org_date(&self) -> (r: Option<String>)
        ensures
            match self.date {
                Some(date) => text_view(r) == org_text_of(date),
                None => r is None,
            },
    {
        match self.date {
            Some(date) => org_date_format(date),
            None => None,
        }
    }
}

/// A document without a keyword `date` has no date, and parsing it fails
/// only for want of a file name.
pub proof fn lemma_missing_date(path: Seq<char>, keywords: Seq<(Seq<char>, Seq<char>)>, html: Seq<char>)
    requires
        forall|i: int| 0 <= i < keywords.len() ==> !crate::text::eq_ignore_case(#[trigger] keywords[i].0, DATE_KEY@),
    ensures
        post_of(path, keywords, html) matches Ok(post) ==> post.date is None,
        post_of(path, keywords, html) is Ok <==> slug_of(path) is Some,
{
    crate::org::lemma_keyword_text_present(keywords, DATE_KEY@);
}

} // verus!
