//! Posts in the order of their dates.

use vstd::prelude::*;
use crate::date::{date_le, is_date_le, lemma_date_le_total_order, PostDate};
use crate::post::{Post, PostView};

verus! {

/// The posts as plain values.
pub open spec fn post_views(posts: Seq<Post>) -> Seq<PostView> {
    posts.map_values(|post: Post| post@)
}

/// Whether no post stands before one of an earlier date.
pub open spec fn in_date_order(posts: Seq<PostView>) -> bool {
    forall|i: int, j: int| 0 <= i < j < posts.len() ==> date_le(posts[i].date, posts[j].date)
}

/// Where a post of the given date goes into `posts`: directly behind the
/// last post that is not of a later date, or to the front.
pub open spec fn insert_position(posts: Seq<PostView>, date: Option<PostDate>) -> int
    decreases posts.len(),
{
    if posts.len() == 0 || date_le(posts.last().date, date) {
        posts.len() as int
    } else {
        insert_position(posts.drop_last(), date)
    }
}

/// The posts sorted by date, earliest first and those without a date before
/// all others. Posts of one date keep the order in which they came.
pub open spec fn sorted_by_date(posts: Seq<PostView>) -> Seq<PostView>
    decreases posts.len(),
{
    if posts.len() == 0 {
        posts
    } else {
        let before = sorted_by_date(posts.drop_last());
        before.insert(insert_position(before, posts.last().date), posts.last())
    }
}

/// The insert position lies in the sequence; what stands at or behind it is
/// of a later date, and what stands directly before it is not.
pub proof fn lemma_insert_position(posts: Seq<PostView>, date: Option<PostDate>)
    ensures
        0 <= insert_position(posts, date) <= posts.len(),
        forall|i: int| insert_position(posts, date) <= i < posts.len() ==> !date_le(posts[i].date, date),
        insert_position(posts, date) > 0 ==> date_le(posts[insert_position(posts, date) - 1].date, date),
    decreases posts.len(),
{
    if !(posts.len() == 0 || date_le(posts.last().date, date)) {
        let front = posts.drop_last();
        lemma_insert_position(front, date);
        assert forall|i: int| insert_position(posts, date) <= i < posts.len() implies !date_le(
            posts[i].date,
            date,
        ) by {
            if i < front.len() {
                assert(front[i] == posts[i]);
            }
        }
    }
}

/// The sorted posts are in date order: of two that are listed, the one
/// listed first is not of a later date.
pub proof fn lemma_sorted_in_date_order(posts: Seq<PostView>)
    ensures
        in_date_order(sorted_by_date(posts)),
    decreases posts.len(),
{
    if posts.len() > 0 {
        let before = sorted_by_date(posts.drop_last());
        let last = posts.last();
        let k = insert_position(before, last.date);
        let after = before.insert(k, last);
        lemma_sorted_in_date_order(posts.drop_last());
        lemma_insert_position(before, last.date);
        assert forall|i: int, j: int| 0 <= i < j < after.len() implies date_le(
            after[i].date,
            after[j].date,
        ) by {
            if j == k && k > 0 {
                lemma_date_le_total_order(before[i].date, before[k - 1].date, last.date);
            } else if i == k {
                lemma_date_le_total_order(last.date, before[j - 1].date, last.date);
            }
        }
    }
}

/// Sorting neither drops nor adds a post: the sorted posts are the given
/// ones, each as often as it was given.
pub proof fn lemma_sorted_is_permutation(posts: Seq<PostView>)
    ensures
        sorted_by_date(posts).to_multiset() == posts.to_multiset(),
    decreases posts.len(),
{
    broadcast use vstd::seq_lib::group_to_multiset_ensures;

    if posts.len() > 0 {
        let before = sorted_by_date(posts.drop_last());
        let last = posts.last();
        let k = insert_position(before, last.date);
        lemma_sorted_is_permutation(posts.drop_last());
        lemma_insert_position(before, last.date);
        before.to_multiset_ensures();
        posts.drop_last().to_multiset_ensures();
        assert(posts == posts.drop_last().push(last));
        vstd::seq_lib::to_multiset_insert(before, k, last);
    }
}

/// The sorted posts are the given ones: a post is among the sorted exactly
/// if it is among the given.
pub proof fn lemma_sorted_same_posts(posts: Seq<PostView>)
    ensures
        forall|post: PostView| #[trigger] sorted_by_date(posts).contains(post) <==> posts.contains(post),
{
    broadcast use vstd::seq_lib::to_multiset_contains;

    lemma_sorted_is_permutation(posts);
    assert forall|post: PostView| #[trigger]
        sorted_by_date(posts).contains(post) <==> posts.contains(post) by {
        assert(sorted_by_date(posts).to_multiset().count(post) == posts.to_multiset().count(post));
    }
}

/// The posts of the given date, in their order.
pub open spec fn posts_of_date(posts: Seq<PostView>, date: Option<PostDate>) -> Seq<PostView> {
    posts.filter(|post: PostView| post.date == date)
}

/// Sorting is stable: the posts of one date stand in the sorted sequence
/// in the order in which they were given.
pub proof fn lemma_sorted_is_stable(posts: Seq<PostView>, date: Option<PostDate>)
    ensures
        posts_of_date(sorted_by_date(posts), date) == posts_of_date(posts, date),
    decreases posts.len(),
{
    let of_date = |post: PostView| post.date == date;
    if posts.len() > 0 {
        let front = posts.drop_last();
        let last = posts.last();
        let before = sorted_by_date(front);
        let k = insert_position(before, last.date);
        let head = before.take(k);
        let tail = before.skip(k);
        lemma_sorted_is_stable(front, date);
        lemma_insert_position(before, last.date);
        assert(before == head + tail);
        assert(posts == front.push(last));
        front.lemma_filter_push(last, of_date);
        head.lemma_filter_push(last, of_date);
        Seq::filter_distributes_over_add(head, tail, of_date);
        Seq::filter_distributes_over_add(head.push(last), tail, of_date);
        if last.date == date {
            assert forall|i: int| 0 <= i < tail.len() implies !of_date(#[trigger] tail[i]) by {
                lemma_date_le_total_order(last.date, last.date, last.date);
            }
            lemma_filter_nothing(tail, of_date);
        }
    }
}

proof fn lemma_filter_nothing(s: Seq<PostView>, pred: spec_fn(PostView) -> bool)
    requires
        forall|i: int| 0 <= i < s.len() ==> !pred(#[trigger] s[i]),
    ensures
        s.filter(pred) == Seq::<PostView>::empty(),
    decreases s.len(),
{
    reveal(Seq::filter);
    if s.len() > 0 {
        lemma_filter_nothing(s.drop_last(), pred);
    }
}

/// Sorts the posts by date, earliest first and those without a date before
/// all others; posts of one date keep their order.
pub fn sort_by_date(posts: Vec<Post>) -> (r: Vec<Post>)
    ensures
        post_views(r@) == sorted_by_date(post_views(posts@)),
{
    let ghost given = post_views(posts@);
    let ghost input = posts@;
    let mut sorted: Vec<Post> = Vec::new();
    for post in it: posts
        invariant
            it.seq() == input,
            given == post_views(input),
            post_views(sorted@) == sorted_by_date(given.take(it.index() as int)),
    {
        let ghost before = post_views(sorted@);
        let ghost n = it.index() as int;
        let mut k: usize = sorted.len();
        assert(before.take(k as int) == before);
        while k > 0 && !is_date_le(&sorted[k - 1].date, &post.date)
            invariant
                k <= sorted.len(),
                before == post_views(sorted@),
                insert_position(before, post.date) == insert_position(before.take(k as int), post.date),
            decreases k,
        {
            assert(before.take(k as int).drop_last() == before.take(k - 1));
            k -= 1;
        }
        proof {
            assert(given.take(n + 1).drop_last() == given.take(n));
        }
        sorted.insert(k, post);
    }
    assert(given.take(input.len() as int) == given);
    sorted
}

} // verus!
