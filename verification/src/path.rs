//! Slash-separated paths: the file name, the `.org` extension and the slug.

use vstd::prelude::*;
use crate::text::{chars_of, string_of};

verus! {

/// The extension of a source document, with its dot.
pub open spec fn org_suffix() -> Seq<char> {
    seq!['.', 'o', 'r', 'g']
}

/// Where the last component of `p` begins: just behind its last `/`, or at 0.
pub open spec fn component_start(p: Seq<char>) -> int
    decreases p.len(),
{
    if p.len() == 0 || p.last() == '/' {
        p.len() as int
    } else {
        component_start(p.drop_last())
    }
}

/// The file name of a path: its final component. Empty components and `.`
/// are passed over from the end; a path that ends in `..`, or in which no
/// component is left, has no file name.
pub open spec fn file_name_of(p: Seq<char>) -> Option<Seq<char>>
    decreases p.len(),
{
    let last = p.skip(component_start(p));
    if p.len() == 0 {
        None
    } else if p.last() == '/' || last == seq!['.'] {
        file_name_of(p.drop_last())
    } else if last == seq!['.', '.'] {
        None
    } else {
        Some(last)
    }
}

/// Whether a file name has the extension `org`: it ends in `.org` and
/// something stands before that dot.
pub open spec fn has_org_extension(name: Seq<char>) -> bool {
    name.len() > 4 && name.skip(name.len() - 4) == org_suffix()
}

/// Whether the path names a source document: it has a file name, and the
/// file name has the extension `org`.
pub open spec fn is_org_path(p: Seq<char>) -> bool {
    file_name_of(p) matches Some(name) && has_org_extension(name)
}

/// Whether `.org` stands in `s` at position `i`.
pub open spec fn org_at(s: Seq<char>, i: int) -> bool {
    0 <= i && i + 4 <= s.len() && s.subrange(i, i + 4) == org_suffix()
}

/// `s` with every occurrence of `.org` taken out, found from left to right;
/// an occurrence begins where the one before it has ended.
pub open spec fn without_org(s: Seq<char>) -> Seq<char>
    decreases s.len(),
{
    if s.len() == 0 {
        s
    } else if org_at(s, 0) {
        without_org(s.skip(4))
    } else {
        seq![s[0]] + without_org(s.drop_first())
    }
}

/// The slug of a path: its file name without `.org`.
pub open spec fn slug_of(p: Seq<char>) -> Option<Seq<char>> {
    match file_name_of(p) {
        Some(name) => Some(without_org(name)),
        None => None,
    }
}

proof fn lemma_component_start_bounds(p: Seq<char>)
    ensures
        0 <= component_start(p) <= p.len(),
        component_start(p) > 0 ==> p[component_start(p) - 1] == '/',
        forall|i: int| component_start(p) <= i < p.len() ==> p[i] != '/',
    decreases p.len(),
{
    if p.len() != 0 && p.last() != '/' {
        let q = p.drop_last();
        lemma_component_start_bounds(q);
        assert forall|i: int| component_start(p) <= i < p.len() implies p[i] != '/' by {
            if i < q.len() {
                assert(q[i] == p[i]);
            }
        }
    }
}

/// A file name holds no `/`, is not empty and is neither `.` nor `..`.
pub proof fn lemma_file_name_shape(p: Seq<char>)
    ensures
        file_name_of(p) matches Some(name) ==> {
            &&& name.len() > 0
            &&& name != seq!['.']
            &&& name != seq!['.', '.']
            &&& forall|i: int| 0 <= i < name.len() ==> name[i] != '/'
        },
    decreases p.len(),
{
    lemma_component_start_bounds(p);
    let last = p.skip(component_start(p));
    if p.len() == 0 {
    } else if p.last() == '/' || last == seq!['.'] {
        lemma_file_name_shape(p.drop_last());
    } else {
    }
}

/// A name made of a stem and `.org`, where `.org` does not occur in the
/// stem, has the stem for its slug; it has the extension `org` where the
/// stem is not empty.
pub proof fn lemma_slug_of_stem(stem: Seq<char>)
    requires
        forall|i: int| !org_at(stem, i),
    ensures
        without_org(stem + org_suffix()) == stem,
        has_org_extension(stem + org_suffix()) <==> stem.len() > 0,
    decreases stem.len(),
{
    let name = stem + org_suffix();
    assert(name.skip(name.len() - 4) == org_suffix());
    if stem.len() == 0 {
        assert(without_org(name.skip(4)) == Seq::<char>::empty());
    } else {
        let rest = stem.drop_first();
        assert(!org_at(name, 0)) by {
            if org_at(name, 0) {
                let head = name.subrange(0, 4);
                if stem.len() >= 4 {
                    assert(head == stem.subrange(0, 4));
                    assert(org_at(stem, 0));
                } else {
                }
            }
        }
        assert forall|i: int| !org_at(rest, i) by {
            if org_at(rest, i) {
                assert(rest.subrange(i, i + 4) == stem.subrange(i + 1, i + 5));
                assert(org_at(stem, i + 1));
            }
        }
        lemma_slug_of_stem(rest);
        assert(name.drop_first() == rest + org_suffix());
    }
}

fn copy_range(v: &Vec<char>, from: usize, to: usize) -> (r: Vec<char>)
    requires
        from <= to <= v.len(),
    ensures
        r@ == v@.subrange(from as int, to as int),
{
    let mut out: Vec<char> = Vec::new();
    let mut i: usize = from;
    while i < to
        invariant
            from <= i <= to <= v.len(),
            out@ == v@.subrange(from as int, i as int),
        decreases to - i,
    {
        out.push(v[i]);
        i += 1;
    }
    out
}

/// The position at which the last component of the first `end` characters begins.
fn start_of_component(v: &Vec<char>, end: usize) -> (start: usize)
    requires
        end <= v.len(),
    ensures
        start == component_start(v@.take(end as int)),
        start <= end,
{
    let mut start: usize = end;
    while start > 0 && v[start - 1] != '/'
        invariant
            start <= end <= v.len(),
            component_start(v@.take(end as int)) == component_start(v@.take(start as int)),
        decreases start,
    {
        assert(v@.take(start as int).drop_last() == v@.take(start - 1));
        start -= 1;
    }
    start
}

/// The file name of the path whose characters are `v`.
pub fn file_name_chars(v: &Vec<char>) -> (r: Option<Vec<char>>)
    ensures
        r.is_some() == file_name_of(v@).is_some(),
        r matches Some(name) ==> file_name_of(v@) == Some(name@),
{
    let mut end: usize = v.len();
    assert(v@.take(end as int) == v@);
    while end > 0
        invariant
            end <= v.len(),
            file_name_of(v@) == file_name_of(v@.take(end as int)),
        decreases end,
    {
        let ghost p = v@.take(end as int);
        let start = start_of_component(v, end);
        proof {
            lemma_component_start_bounds(p);
            assert(p.drop_last() == v@.take(end - 1));
        }
        let len = end - start;
        if len == 0 || (len == 1 && v[start] == '.') {
            assert(p.last() == '/' || p.skip(start as int) == seq!['.']);
            end -= 1;
        } else if len == 2 && v[start] == '.' && v[start + 1] == '.' {
            assert(p.skip(start as int) == seq!['.', '.']);
            return None;
        } else {
            assert(p.skip(start as int) != seq!['.']) by {
                if p.skip(start as int) == seq!['.'] {
                    assert(seq!['.'][0] == '.');
                }
            }
            assert(p.skip(start as int) != seq!['.', '.']) by {
                if p.skip(start as int) == seq!['.', '.'] {
                    assert(seq!['.', '.'].len() == 2);
                }
            }
            return Some(copy_range(v, start, end));
        }
    }
    None
}

/// Whether `.org` stands in `v` at position `i`.
fn is_org_at(v: &Vec<char>, i: usize) -> (r: bool)
    requires
        i <= v.len(),
    ensures
        r == org_at(v@, i as int),
{
    if v.len() - i < 4 {
        false
    } else {
        let r = v[i] == '.' && v[i + 1] == 'o' && v[i + 2] == 'r' && v[i + 3] == 'g';
        proof {
            if r {
                assert(v@.subrange(i as int, i + 4) =~= org_suffix());
            }
        }
        r
    }
}

/// Whether the file name `name` has the extension `org`.
pub fn name_has_org_extension(name: &Vec<char>) -> (r: bool)
    ensures
        r == has_org_extension(name@),
{
    if name.len() <= 4 {
        false
    } else {
        is_org_at(name, name.len() - 4)
    }
}

/// The characters of `name` without the occurrences of `.org`.
pub fn remove_org(name: &Vec<char>) -> (r: Vec<char>)
    ensures
        r@ == without_org(name@),
{
    let mut out: Vec<char> = Vec::new();
    let mut i: usize = 0;
    assert(name@.skip(0) == name@);
    while i < name.len()
        invariant
            i <= name.len(),
            without_org(name@) == out@ + without_org(name@.skip(i as int)),
        decreases name.len() - i,
    {
        let ghost rest = name@.skip(i as int);
        if is_org_at(name, i) {
            assert(rest.subrange(0, 4) == name@.subrange(i as int, i + 4));
            assert(rest.skip(4) == name@.skip(i + 4));
            i += 4;
        } else {
            proof {
                if 4 <= rest.len() {
                    assert(rest.subrange(0, 4) == name@.subrange(i as int, i + 4));
                }
                assert(rest.drop_first() == name@.skip(i + 1));
                assert(out@.push(name@[i as int]) + without_org(name@.skip(i + 1)) == out@ + (
                seq![rest[0]] + without_org(rest.drop_first())));
            }
            out.push(name[i]);
            i += 1;
        }
    }
    out
}

/// The file name of `path`, if it has one.
pub fn file_name(path: &str) -> (r: Option<String>)
    ensures
        r.is_some() == file_name_of(path@).is_some(),
        r matches Some(name) ==> file_name_of(path@) == Some(name@),
{
    let chars = chars_of(path);
    match file_name_chars(&chars) {
        Some(name) => Some(string_of(&name)),
        None => None,
    }
}

/// Whether `path` names a source document, by its extension `org`.
pub fn is_org_file(path: &str) -> (r: bool)
    ensures
        r == is_org_path(path@),
{
    let chars = chars_of(path);
    match file_name_chars(&chars) {
        Some(name) => name_has_org_extension(&name),
        None => false,
    }
}

/// The slug of `path`: its file name with every `.org` taken out.
pub fn slug(path: &str) -> (r: Option<String>)
    ensures
        r.is_some() == slug_of(path@).is_some(),
        r matches Some(s) ==> slug_of(path@) == Some(s@),
{
    let chars = chars_of(path);
    match file_name_chars(&chars) {
        Some(name) => {
            let kept = remove_org(&name);
            Some(string_of(&kept))
        },
        None => None,
    }
}

} // verus!
