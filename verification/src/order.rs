//! Equality and order of posts: both go by the date alone.

use std::cmp::Ordering;
use vstd::prelude::*;
use vstd::std_specs::cmp::{PartialEqSpec, PartialEqSpecImpl, PartialOrdSpec, PartialOrdSpecImpl};
use crate::date::{date_le, is_date_le, lemma_date_le_total_order};
use crate::post::Post;

verus! {

impl PartialEq for Post {
    /// Two posts are equal where their dates are.
    fn eq(&self, other: &Post) -> (r: bool) {
        proof {
            lemma_date_le_total_order(self.date, other.date, self.date);
        }
        is_date_le(&self.date, &other.date) && is_date_le(&other.date, &self.date)
    }
}

impl PartialEqSpecImpl for Post {
    open spec fn obeys_eq_spec() -> bool {
        true
    }

    open spec fn eq_spec(&self, other: &Post) -> bool {
        self.date == other.date
    }
}

impl Eq for Post {

}

impl PartialOrd for Post {
    /// A post is less than another where its date comes first: a post
    /// without a date before every dated one.
    fn partial_cmp(&self, other: &Post) -> (r: Option<Ordering>) {
        if !is_date_le(&self.date, &other.date) {
            Some(Ordering::Greater)
        } else if is_date_le(&other.date, &self.date) {
            Some(Ordering::Equal)
        } else {
            Some(Ordering::Less)
        }
    }
}

impl PartialOrdSpecImpl for Post {
    open spec fn obeys_partial_cmp_spec() -> bool {
        true
    }

    open spec fn partial_cmp_spec(&self, other: &Post) -> Option<Ordering> {
        if !date_le(self.date, other.date) {
            Some(Ordering::Greater)
        } else if date_le(other.date, self.date) {
            Some(Ordering::Equal)
        } else {
            Some(Ordering::Less)
        }
    }
}

/// The order of posts agrees with that of their dates, and two posts are
/// equal exactly where neither is less than the other.
pub proof fn lemma_post_order(a: Post, b: Post)
    ensures
        PartialOrdSpec::partial_cmp_spec(&a, &b) matches Some(Ordering::Less | Ordering::Equal) <==> date_le(
            a.date,
            b.date,
        ),
        PartialOrdSpec::partial_cmp_spec(&a, &b) == Some(Ordering::Equal) <==> PartialEqSpec::eq_spec(&a, &b),
{
    lemma_date_le_total_order(a.date, b.date, a.date);
}

} // verus!
