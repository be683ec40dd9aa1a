//! What is read from an org-mode document: its keywords and its HTML.

use orgize::Org;
use vstd::prelude::*;
use vstd::string::StringExecFns;
use crate::text::{eq_ignore_case, trimmed};

verus! {

/// A metadata line `#+KEY: value` of a document.
#[derive(Debug)]
pub struct Keyword {
    pub key: String,
    pub value: String,
}

impl View for Keyword {
    type V = (Seq<char>, Seq<char>);

    open spec fn view(&self) -> (Seq<char>, Seq<char>) {
        (self.key@, self.value@)
    }
}

/// A parsed document: the keywords of its first section, in the order of
/// the text, and the HTML of the whole.
#[derive(Debug)]
pub struct OrgDocument {
    pub keywords: Vec<Keyword>,
    pub html: String,
}

impl OrgDocument {
    /// The keywords as pairs of key and value.
    pub open spec fn keywords_view(&self) -> Seq<(Seq<char>, Seq<char>)> {
        keyword_views(self.keywords@)
    }
}

/// The keywords as pairs of key and value.
pub open spec fn keyword_views(keywords: Seq<Keyword>) -> Seq<(Seq<char>, Seq<char>)> {
    keywords.map_values(|kw: Keyword| kw@)
}

/// The keywords that `orgize` finds in the first section of a text, as
/// pairs of key and value, in the order of the text.
pub uninterp spec fn org_keywords_of(text: Seq<char>) -> Seq<(Seq<char>, Seq<char>)>;

/// The HTML that `orgize` writes for a text.
pub uninterp spec fn org_html_of(text: Seq<char>) -> Seq<char>;

/// Parses the text with `orgize::Org::parse`, takes each keyword that
/// `Org::keywords` hands out by its `key` and `value`, and the HTML from
/// `Org::to_html`. Both results are functions of the text.
#[verifier::external_body]
pub(crate) fn read_org(text: &str) -> (doc: OrgDocument)
    ensures
        doc.keywords_view() == org_keywords_of(text@),
        doc.html@ == org_html_of(text@),
{
    let org = Org::parse(text);
    let keywords = org.keywords().map(
        |kw| Keyword { key: kw.key().to_string(), value: kw.value().to_string() },
    ).collect();
    OrgDocument { keywords, html: org.to_html() }
}

/// The text gathered so far, with one more value: a space stands before
/// the value unless nothing has been gathered yet.
pub open spec fn join_value(gathered: Option<Seq<char>>, value: Seq<char>) -> Seq<char> {
    match gathered {
        Some(text) if text.len() > 0 => text.push(' ') + value,
        _ => value,
    }
}

/// The text of the keyword `name`: the trimmed values of the keywords whose
/// key is `name` up to the case of ASCII letters, in their order, joined by
/// single spaces. There is none where no keyword has that key.
pub open spec fn keyword_text(keywords: Seq<(Seq<char>, Seq<char>)>, name: Seq<char>) -> Option<
    Seq<char>,
>
    decreases keywords.len(),
{
    if keywords.len() == 0 {
        None
    } else {
        let before = keyword_text(keywords.drop_last(), name);
        if eq_ignore_case(keywords.last().0, name) {
            Some(join_value(before, trimmed(keywords.last().1)))
        } else {
            before
        }
    }
}

/// The text of an optional string.
pub open spec fn text_view(text: Option<String>) -> Option<Seq<char>> {
    match text {
        Some(s) => Some(s@),
        None => None,
    }
}

/// A keyword has a text exactly if some keyword of the document has its key.
pub proof fn lemma_keyword_text_present(keywords: Seq<(Seq<char>, Seq<char>)>, name: Seq<char>)
    ensures
        keyword_text(keywords, name) is Some <==> exists|i: int|
            0 <= i < keywords.len() && eq_ignore_case(#[trigger] keywords[i].0, name),
    decreases keywords.len(),
{
    if keywords.len() > 0 {
        let before = keywords.drop_last();
        lemma_keyword_text_present(before, name);
        if exists|i: int| 0 <= i < keywords.len() && eq_ignore_case(#[trigger] keywords[i].0, name) {
            let i = choose|i: int| 0 <= i < keywords.len() && eq_ignore_case(#[trigger] keywords[i].0, name);
            if i < before.len() {
                assert(eq_ignore_case(before[i].0, name));
            }
        }
    }
}

/// The text of the keyword `name` among `keywords`.
pub fn org_keyword_get(keywords: &Vec<Keyword>, name: &str) -> (r: Option<String>)
    ensures
        text_view(r) == keyword_text(keyword_views(keywords@), name@),
{
    let ghost views = keyword_views(keywords@);
    let mut gathered: Option<String> = None;
    let mut i: usize = 0;
    while i < keywords.len()
        invariant
            i <= keywords.len(),
            views == keyword_views(keywords@),
            text_view(gathered) == keyword_text(views.take(i as int), name@),
        decreases keywords.len() - i,
    {
        proof {
            assert(views.take(i + 1).drop_last() == views.take(i as int));
        }
        let keyword = &keywords[i];
        if keyword.key.as_str().eq_ignore_ascii_case(name) {
            let mut text = match gathered {
                Some(text) => text,
                None => String::new(),
            };
            if !text.as_str().is_empty() {
                text.push(' ');
            }
            text.append(keyword.value.as_str().trim());
            gathered = Some(text);
        }
        i += 1;
    }
    assert(views.take(i as int) == views);
    gathered
}

} // verus!
