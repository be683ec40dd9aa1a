//! The index of posts: one post for each slug, in the order of their entry.

use indexmap::IndexMap;
use std::sync::Arc;
use vstd::prelude::*;
use crate::date::date_le;
use crate::org::{org_html_of, org_keywords_of};
use crate::path::{is_org_file, is_org_path};
use crate::post::{post_of, ParseError, Post, PostView};
use crate::sort::{
    in_date_order, insert_position, lemma_insert_position, lemma_sorted_in_date_order, lemma_sorted_same_posts,
    post_views, sort_by_date, sorted_by_date,
};
use crate::templates::POST_NOT_FOUND;

verus! {

/// `indexmap::IndexMap`, taken as it is: what a map holds is known only by
/// what the functions below say of it.
#[verifier::external_type_specification]
#[verifier::external_body]
#[verifier::reject_recursive_types(K)]
#[verifier::reject_recursive_types(V)]
#[verifier::reject_recursive_types(S)]
pub struct ExIndexMap<K, V, S>(IndexMap<K, V, S>);

/// The entries of a map, key and post, in the order of the map.
pub uninterp spec fn index_entries(map: IndexMap<String, Post>) -> Seq<(Seq<char>, PostView)>;

/// The position of the first entry with the given key.
pub open spec fn key_position(entries: Seq<(Seq<char>, PostView)>, key: Seq<char>) -> Option<int>
    decreases entries.len(),
{
    if entries.len() == 0 {
        None
    } else {
        match key_position(entries.drop_last(), key) {
            Some(i) => Some(i),
            None => if entries.last().0 == key {
                Some(entries.len() - 1)
            } else {
                None
            },
        }
    }
}

/// The entries after `post` has been entered under `key`: where the key is
/// present its entry keeps its place and takes the post, else the entry is
/// added at the end.
pub open spec fn entries_with(entries: Seq<(Seq<char>, PostView)>, key: Seq<char>, post: PostView) -> Seq<
    (Seq<char>, PostView),
> {
    match key_position(entries, key) {
        Some(i) => entries.update(i, (key, post)),
        None => entries.push((key, post)),
    }
}

/// `IndexMap::new` makes a map without entries.
#[verifier::external_body]
fn index_new() -> (map: IndexMap<String, Post>)
    ensures
        index_entries(map) == Seq::<(Seq<char>, PostView)>::empty(),
{
    IndexMap::new()
}

/// `IndexMap::insert`: where the key is present, its entry keeps its place
/// and takes the new post, and the post that was there is returned; else the
/// entry is added at the end and nothing is returned.
#[verifier::external_body]
fn index_insert(map: &mut IndexMap<String, Post>, key: String, post: Post) -> (displaced: Option<Post>)
    ensures
        index_entries(*final(map)) == entries_with(index_entries(*old(map)), key@, post@),
        match key_position(index_entries(*old(map)), key@) {
            Some(i) => displaced matches Some(p) && p@ == index_entries(*old(map))[i].1,
            None => displaced is None,
        },
{
    map.insert(key, post)
}

/// `IndexMap::get`: the post of the entry with the given key, where there
/// is one.
#[verifier::external_body]
fn index_get<'a>(map: &'a IndexMap<String, Post>, key: &str) -> (found: Option<&'a Post>)
    ensures
        match key_position(index_entries(*map), key@) {
            Some(i) => found matches Some(p) && p@ == index_entries(*map)[i].1,
            None => found is None,
        },
{
    map.get(key)
}

/// `IndexMap::values`: the posts of the entries, in the order of the map.
#[verifier::external_body]
fn index_values<'a>(map: &'a IndexMap<String, Post>) -> (posts: Vec<&'a Post>)
    ensures
        posts@.len() == index_entries(*map).len(),
        forall|i: int| 0 <= i < posts@.len() ==> (#[trigger] posts@[i])@ == index_entries(*map)[i].1,
{
    map.values().collect()
}

/// A source document: its path and its text.
#[derive(Debug)]
pub struct Source {
    pub path: String,
    pub text: String,
}

impl View for Source {
    type V = (Seq<char>, Seq<char>);

    open spec fn view(&self) -> (Seq<char>, Seq<char>) {
        (self.path@, self.text@)
    }
}

/// The sources as pairs of path and text.
pub open spec fn source_views(sources: Seq<Source>) -> Seq<(Seq<char>, Seq<char>)> {
    sources.map_values(|source: Source| source@)
}

/// The posts of the sources, in the order of the sources. A source counts
/// where its path has the extension `org`; the others are passed over.
pub open spec fn posts_of(sources: Seq<(Seq<char>, Seq<char>)>) -> Seq<PostView>
    decreases sources.len(),
{
    if sources.len() == 0 {
        Seq::empty()
    } else {
        let before = posts_of(sources.drop_last());
        let (path, text) = sources.last();
        match post_of(path, org_keywords_of(text), org_html_of(text)) {
            Ok(post) if is_org_path(path) => before.push(post),
            _ => before,
        }
    }
}

/// The entries of the index made of `posts`, entered one after the other
/// under their slugs: a slug keeps the place of its first post and holds its
/// last.
pub open spec fn indexed(posts: Seq<PostView>) -> Seq<(Seq<char>, PostView)>
    decreases posts.len(),
{
    if posts.len() == 0 {
        Seq::empty()
    } else {
        entries_with(indexed(posts.drop_last()), posts.last().slug, posts.last())
    }
}

/// The entries of the index of the sources: their posts, sorted by date and
/// entered in that order.
pub open spec fn index_of(sources: Seq<(Seq<char>, Seq<char>)>) -> Seq<(Seq<char>, PostView)> {
    indexed(sorted_by_date(posts_of(sources)))
}

/// Each entry stands under the slug of its post, and no two entries under
/// one slug.
pub open spec fn entries_wf(entries: Seq<(Seq<char>, PostView)>) -> bool {
    &&& forall|i: int| 0 <= i < entries.len() ==> (#[trigger] entries[i]).0 == entries[i].1.slug
    &&& forall|i: int, j: int|
        0 <= i < j < entries.len() ==> (#[trigger] entries[i]).0 != (#[trigger] entries[j]).0
}

/// The posts of the entries, in their order.
pub open spec fn entry_posts(entries: Seq<(Seq<char>, PostView)>) -> Seq<PostView> {
    entries.map_values(|entry: (Seq<char>, PostView)| entry.1)
}

/// Whether no two of the posts have one slug.
pub open spec fn distinct_slugs(posts: Seq<PostView>) -> bool {
    forall|i: int, j: int| 0 <= i < j < posts.len() ==> (#[trigger] posts[i]).slug != (#[trigger] posts[j]).slug
}

/// Whether one of the posts has the slug.
pub open spec fn has_slug(posts: Seq<PostView>, slug: Seq<char>) -> bool {
    exists|i: int| 0 <= i < posts.len() && (#[trigger] posts[i]).slug == slug
}

/// The position that `key_position` gives is that of an entry with the
/// key, and the first such; it gives none only where no entry has the key.
pub proof fn lemma_key_position(entries: Seq<(Seq<char>, PostView)>, key: Seq<char>)
    ensures
        match key_position(entries, key) {
            Some(i) => 0 <= i < entries.len() && entries[i].0 == key && forall|j: int|
                0 <= j < i ==> (#[trigger] entries[j]).0 != key,
            None => forall|j: int| 0 <= j < entries.len() ==> (#[trigger] entries[j]).0 != key,
        },
    decreases entries.len(),
{
    if entries.len() > 0 {
        let front = entries.drop_last();
        lemma_key_position(front, key);
        match key_position(front, key) {
            Some(i) => {
                assert forall|j: int| 0 <= j < i implies (#[trigger] entries[j]).0 != key by {
                    assert(front[j] == entries[j]);
                }
            },
            None => {
                assert forall|j: int| 0 <= j < entries.len() - 1 implies (#[trigger] entries[j]).0 != key by {
                    assert(front[j] == entries[j]);
                }
            },
        }
    }
}

/// Where each entry stands under the slug of its post and no two entries
/// under one slug, no two of the posts have one slug.
pub proof fn lemma_entry_posts_distinct(entries: Seq<(Seq<char>, PostView)>)
    requires
        entries_wf(entries),
    ensures
        distinct_slugs(entry_posts(entries)),
{
}

/// Entering a post under its slug keeps the entries well-formed.
pub proof fn lemma_entries_with_wf(entries: Seq<(Seq<char>, PostView)>, post: PostView)
    requires
        entries_wf(entries),
    ensures
        entries_wf(entries_with(entries, post.slug, post)),
{
    lemma_key_position(entries, post.slug);
}

/// The entries made of some posts are well-formed, and each of them holds
/// one of the posts.
pub proof fn lemma_indexed_entries(posts: Seq<PostView>)
    ensures
        entries_wf(indexed(posts)),
        forall|k: int| 0 <= k < indexed(posts).len() ==> posts.contains((#[trigger] indexed(posts)[k]).1),
    decreases posts.len(),
{
    if posts.len() > 0 {
        let front = posts.drop_last();
        let last = posts.last();
        let before = indexed(front);
        let after = indexed(posts);
        lemma_indexed_entries(front);
        lemma_entries_with_wf(before, last);
        lemma_key_position(before, last.slug);
        assert forall|k: int| 0 <= k < after.len() implies posts.contains((#[trigger] after[k]).1) by {
            if after[k].1 != last {
                assert(front.contains(before[k].1));
            }
        }
    }
}

/// The index holds every slug of the posts once, and under it
/// the last of the posts with that slug.
pub proof fn lemma_last_post_wins(posts: Seq<PostView>, i: int)
    requires
        0 <= i < posts.len(),
        forall|j: int| i < j < posts.len() ==> (#[trigger] posts[j]).slug != posts[i].slug,
    ensures
        entries_wf(indexed(posts)),
        exists|k: int| 0 <= k < indexed(posts).len() && #[trigger] indexed(posts)[k] == (posts[i].slug, posts[i]),
    decreases posts.len(),
{
    let front = posts.drop_last();
    let last = posts.last();
    let before = indexed(front);
    let after = indexed(posts);
    lemma_indexed_entries(posts);
    lemma_key_position(before, last.slug);
    if i == posts.len() - 1 {
        match key_position(before, last.slug) {
            Some(k) => {
                assert(after[k] == (last.slug, last));
            },
            None => {
                assert(after[before.len() as int] == (last.slug, last));
            },
        }
    } else {
        assert forall|j: int| i < j < front.len() implies (#[trigger] front[j]).slug != front[i].slug by {}
        lemma_last_post_wins(front, i);
        let k = choose|k: int| 0 <= k < before.len() && #[trigger] before[k] == (posts[i].slug, posts[i]);
        assert(after[k] == before[k]);
    }
}

/// Whether posts of one slug are of one date.
pub open spec fn slug_fixes_date(posts: Seq<PostView>) -> bool {
    forall|i: int, j: int|
        0 <= i < posts.len() && 0 <= j < posts.len() && (#[trigger] posts[i]).slug == (#[trigger] posts[j]).slug
            ==> posts[i].date == posts[j].date
}

/// Posts in date order, entered one after the other, are listed in date
/// order, where posts of one slug are of one date.
pub proof fn lemma_indexed_in_date_order(posts: Seq<PostView>)
    requires
        in_date_order(posts),
        slug_fixes_date(posts),
    ensures
        in_date_order(entry_posts(indexed(posts))),
    decreases posts.len(),
{
    if posts.len() > 0 {
        let front = posts.drop_last();
        let last = posts.last();
        let before = indexed(front);
        let after = indexed(posts);
        assert forall|i: int| 0 <= i < front.len() implies #[trigger] front[i] == posts[i] by {}
        lemma_indexed_in_date_order(front);
        lemma_indexed_entries(front);
        lemma_key_position(before, last.slug);
        let listed = entry_posts(after);
        let listed_before = entry_posts(before);
        assert forall|k: int| 0 <= k < before.len() implies date_le(
            (#[trigger] before[k]).1.date,
            last.date,
        ) && (before[k].0 == last.slug ==> before[k].1.date == last.date) by {
            assert(front.contains(before[k].1));
        }
        assert forall|i: int, j: int| 0 <= i < j < listed.len() implies date_le(
            listed[i].date,
            listed[j].date,
        ) by {
            if j < before.len() {
                assert(date_le(listed_before[i].date, listed_before[j].date));
            }
        }
    }
}

/// The posts of an index built from sorted posts are listed in date
/// order, where posts of one slug are of one date.
pub proof fn lemma_index_in_date_order(posts: Seq<PostView>)
    requires
        slug_fixes_date(posts),
    ensures
        in_date_order(entry_posts(indexed(sorted_by_date(posts)))),
{
    let sorted = sorted_by_date(posts);
    lemma_sorted_in_date_order(posts);
    lemma_sorted_same_posts(posts);
    assert forall|i: int, j: int|
        0 <= i < sorted.len() && 0 <= j < sorted.len() && (#[trigger] sorted[i]).slug == (
        #[trigger] sorted[j]).slug implies sorted[i].date == sorted[j].date by {
        assert(sorted.contains(sorted[i]));
        assert(sorted.contains(sorted[j]));
    }
    lemma_indexed_in_date_order(sorted);
}

/// Posts with a slug each, entered one after the other, are listed as
/// they were entered.
pub proof fn lemma_indexed_distinct(posts: Seq<PostView>)
    requires
        distinct_slugs(posts),
    ensures
        entry_posts(indexed(posts)) == posts,
    decreases posts.len(),
{
    if posts.len() > 0 {
        let front = posts.drop_last();
        let last = posts.last();
        let before = indexed(front);
        assert forall|i: int| 0 <= i < front.len() implies #[trigger] front[i] == posts[i] by {}
        lemma_indexed_distinct(front);
        lemma_indexed_entries(front);
        lemma_key_position(before, last.slug);
        if key_position(before, last.slug) is Some {
            assert(front.contains(before[key_position(before, last.slug)->0].1));
        }
    }
}

/// Sorting posts with a slug each leaves them with a slug each.
pub proof fn lemma_sorted_distinct(posts: Seq<PostView>)
    requires
        distinct_slugs(posts),
    ensures
        distinct_slugs(sorted_by_date(posts)),
    decreases posts.len(),
{
    if posts.len() > 0 {
        let front = posts.drop_last();
        let last = posts.last();
        let before = sorted_by_date(front);
        let k = insert_position(before, last.date);
        let after = before.insert(k, last);
        assert forall|i: int| 0 <= i < front.len() implies #[trigger] front[i] == posts[i] by {}
        lemma_sorted_distinct(front);
        lemma_sorted_same_posts(front);
        lemma_insert_position(before, last.date);
        assert forall|m: int| 0 <= m < before.len() implies (#[trigger] before[m]).slug != last.slug by {
            assert(before.contains(before[m]));
        }
    }
}

/// Posts with a slug each are listed by the index as they are sorted: by
/// date, those without a date first, and those of one date in their order.
pub proof fn lemma_index_lists_sorted_posts(posts: Seq<PostView>)
    requires
        distinct_slugs(posts),
    ensures
        entry_posts(indexed(sorted_by_date(posts))) == sorted_by_date(posts),
        in_date_order(entry_posts(indexed(sorted_by_date(posts)))),
{
    lemma_sorted_distinct(posts);
    lemma_indexed_distinct(sorted_by_date(posts));
    lemma_sorted_in_date_order(posts);
}

/// `Arc::clone` makes another pointer to the same map.
#[verifier::external_body]
fn index_share(map: &Arc<IndexMap<String, Post>>) -> (shared: Arc<IndexMap<String, Post>>)
    ensures
        shared == *map,
{
    Arc::clone(map)
}

/// The index of posts: one post for each slug. It is made once and not
/// changed afterwards; a clone shares the posts.
pub struct Posts {
    posts: Arc<IndexMap<String, Post>>,
}

impl Clone for Posts {
    fn clone(&self) -> (r: Self)
        ensures
            r.entries() == self.entries(),
    {
        proof {
            use_type_invariant(self);
        }
        Posts { posts: index_share(&self.posts) }
    }
}

impl View for Posts {
    type V = Seq<PostView>;

    /// The posts of the index, in its order.
    open spec fn view(&self) -> Seq<PostView> {
        entry_posts(self.entries())
    }
}

impl Posts {
    /// The entries of the index, slug and post, in its order.
    pub closed spec fn entries(&self) -> Seq<(Seq<char>, PostView)> {
        index_entries(*self.posts)
    }

    #[verifier::type_invariant]
    spec fn wf(&self) -> bool {
        entries_wf(self.entries())
    }

    /// Makes the index of the posts, entered in their order.
    pub fn from_posts(posts: Vec<Post>) -> (r: Posts)
        ensures
            r.entries() == indexed(post_views(posts@)),
            entries_wf(r.entries()),
    {
        let ghost given = post_views(posts@);
        let ghost input = posts@;
        let mut map = index_new();
        for post in it: posts
            invariant
                it.seq() == input,
                given == post_views(input),
                index_entries(map) == indexed(given.take(it.index() as int)),
                entries_wf(index_entries(map)),
        {
            proof {
                let n = it.index() as int;
                assert(given.take(n + 1).drop_last() == given.take(n));
                lemma_entries_with_wf(index_entries(map), post@);
            }
            let key = post.slug.clone();
            index_insert(&mut map, key, post);
        }
        assert(given.take(input.len() as int) == given);
        Posts { posts: Arc::new(map) }
    }

    /// Reads the posts of the sources whose path has the extension `org`
    /// and sorts them by date. The other sources are passed over.
    pub fn posts_read(sources: &Vec<Source>) -> (r: Result<Vec<Post>, ParseError>)
        ensures
            r matches Ok(posts) && post_views(posts@) == sorted_by_date(posts_of(source_views(sources@))),
    {
        let ghost given = source_views(sources@);
        let mut posts: Vec<Post> = Vec::new();
        let mut i: usize = 0;
        while i < sources.len()
            invariant
                i <= sources.len(),
                given == source_views(sources@),
                post_views(posts@) == posts_of(given.take(i as int)),
            decreases sources.len() - i,
        {
            proof {
                assert(given.take(i + 1).drop_last() == given.take(i as int));
            }
            let source = &sources[i];
            if is_org_file(source.path.as_str()) {
                match Post::parse(source.path.as_str(), source.text.as_str()) {
                    Ok(post) => {
                        posts.push(post);
                    },
                    Err(e) => {
                        return Err(e);
                    },
                }
            }
            i += 1;
        }
        assert(given.take(i as int) == given);
        Ok(sort_by_date(posts))
    }

    /// Builds the index of the sources: the posts of those whose path has
    /// the extension `org`, sorted by date and entered in that order.
    pub fn new(sources: &Vec<Source>) -> (r: Result<Posts, ParseError>)
        ensures
            r matches Ok(index) && index.entries() == index_of(source_views(sources@)) && entries_wf(
                index.entries(),
            ),
    {
        match Posts::posts_read(sources) {
            Ok(posts) => Ok(Posts::from_posts(posts)),
            Err(e) => Err(e),
        }
    }

    /// The post with the given slug, if the index has one.
    pub fn get(&self, slug: &str) -> (r: Option<&Post>)
        ensures
            r is Some <==> has_slug(self@, slug@),
            r matches Some(post) ==> post@.slug == slug@ && self@.contains(post@),
            distinct_slugs(self@),
    {
        proof {
            use_type_invariant(self);
            lemma_key_position(self.entries(), slug@);
            lemma_entry_posts_distinct(self.entries());
            match key_position(self.entries(), slug@) {
                Some(i) => {
                    assert(self@[i].slug == slug@);
                },
                None => {
                    assert forall|i: int| 0 <= i < self@.len() implies (#[trigger] self@[i]).slug != slug@ by {}
                },
            }
        }
        index_get(&*self.posts, slug)
    }

    /// The page of the post with the given slug: its HTML, or the words
    /// that say that there is no such post.
    pub fn page(&self, slug: &str) -> (r: String)
        ensures
            has_slug(self@, slug@) ==> exists|i: int|
                0 <= i < self@.len() && (#[trigger] self@[i]).slug == slug@ && r@ == self@[i].inner_html,
            !has_slug(self@, slug@) ==> r@ == POST_NOT_FOUND@,
    {
        match self.get(slug) {
            Some(post) => post.inner_html.clone(),
            None => POST_NOT_FOUND.to_owned(),
        }
    }

    /// The posts of the index, in its order.
    pub fn list_ordered(&self) -> (r: Vec<&Post>)
        ensures
            r@.len() == self@.len(),
            forall|i: int| 0 <= i < r@.len() ==> (#[trigger] r@[i])@ == self@[i],
            distinct_slugs(self@),
    {
        proof {
            use_type_invariant(self);
            lemma_entry_posts_distinct(self.entries());
        }
        index_values(&*self.posts)
    }
}

} // verus!
