//! Normalisation of container paths to asset-style paths such as
//! `ModX/Content/Characters/Hero.uasset`.
//!
//! A path is read as its segments: the non-empty pieces between separators
//! (`/` or `\`).

use vstd::prelude::*;
use crate::text::{chars_of, eq_ignore_ascii_case, eq_ignore_ascii_case_spec, is_sep};

verus! {

/// Segments of `s`, given that the segment in progress so far is `cur`.
pub open spec fn segments_from(s: Seq<char>, cur: Seq<char>) -> Seq<Seq<char>>
    decreases s.len(),
{
    if s.len() == 0 {
        if cur.len() > 0 {
            seq![cur]
        } else {
            Seq::empty()
        }
    } else if is_sep(s[0]) {
        let rest = segments_from(s.drop_first(), Seq::empty());
        if cur.len() > 0 {
            seq![cur] + rest
        } else {
            rest
        }
    } else {
        segments_from(s.drop_first(), cur.push(s[0]))
    }
}

/// The string views of a sequence of segments.
pub open spec fn seg_views(v: Seq<String>) -> Seq<Seq<char>> {
    v.map_values(|x: String| x@)
}

/// Segments of a path, in order.
pub open spec fn segments(s: Seq<char>) -> Seq<Seq<char>> {
    segments_from(s, Seq::empty())
}

/// Segments joined by `/`.
pub open spec fn join_segments(ss: Seq<Seq<char>>) -> Seq<char>
    decreases ss.len(),
{
    if ss.len() == 0 {
        Seq::empty()
    } else if ss.len() == 1 {
        ss[0]
    } else {
        join_segments(ss.drop_last()) + "/"@ + ss.last()
    }
}

/// Whether segment `i` of `ss` is `Content`, in any ASCII case.
pub open spec fn is_content(ss: Seq<Seq<char>>, i: int) -> bool {
    eq_ignore_ascii_case_spec(ss[i], "content"@)
}

/// Whether `i` is the first position after the first at which a `Content`
/// segment stands.
pub open spec fn first_content_at(ss: Seq<Seq<char>>, i: int) -> bool {
    &&& 1 <= i < ss.len()
    &&& is_content(ss, i)
    &&& forall|j: int| 1 <= j < i ==> !#[trigger] is_content(ss, j)
}

/// The asset-style form of `path` relative to `base`: from the segment just
/// before the first `Content` segment (past the first), joined by `/`; else
/// the path relative to `base`, when `base`'s segments begin it; else its
/// file name (empty for a path with no segment).
pub open spec fn normalized(path: Seq<char>, base: Seq<char>) -> Seq<char> {
    let ss = segments(path);
    let bs = segments(base);
    if exists|i: int| first_content_at(ss, i) {
        let i = choose|i: int| first_content_at(ss, i);
        join_segments(ss.subrange(i - 1, ss.len() as int))
    } else if bs.len() <= ss.len() && ss.subrange(0, bs.len() as int) == bs {
        join_segments(ss.subrange(bs.len() as int, ss.len() as int))
    } else if ss.len() > 0 {
        ss.last()
    } else {
        Seq::empty()
    }
}

proof fn lemma_segments_step(s: Seq<char>, cur: Seq<char>)
    requires
        s.len() > 0,
    ensures
        segments_from(s, cur) == if is_sep(s[0]) {
            if cur.len() > 0 {
                seq![cur] + segments_from(s.drop_first(), Seq::empty())
            } else {
                segments_from(s.drop_first(), Seq::empty())
            }
        } else {
            segments_from(s.drop_first(), cur.push(s[0]))
        },
{
}

/// The segments of `path`, in order.
pub fn path_segments(path: &str) -> (r: Vec<String>)
    ensures
        seg_views(r@) == segments(path@),
{
    let c = chars_of(path);
    let n = c.len();
    let ghost s = path@;
    let mut out: Vec<String> = Vec::new();
    let mut start: usize = 0;
    let mut i: usize = 0;
    assert(s.subrange(0, 0) =~= Seq::<char>::empty());
    assert(s.subrange(0, n as int) =~= s);
    while i < n
        invariant
            c@ == s,
            s == path@,
            n == s.len(),
            start <= i <= n,
            segments(s) == seg_views(out@) + segments_from(s.subrange(i as int, n as int), s.subrange(start as int, i as int)),
        decreases n - i,
    {
        let ghost rest = s.subrange(i as int, n as int);
        let ghost cur = s.subrange(start as int, i as int);
        let ghost before = seg_views(out@);
        proof {
            lemma_segments_step(rest, cur);
        }
        assert(rest[0] == c@[i as int]);
        assert(rest.drop_first() =~= s.subrange(i + 1, n as int));
        if c[i] == '/' || c[i] == '\\' {
            if i > start {
                let seg = String::from_str(path.substring_char(start, i));
                out.push(seg);
                assert(seg_views(out@) =~= before + seq![cur]);
                assert(before + seq![cur] + segments_from(s.subrange(i + 1, n as int), Seq::empty())
                    =~= before + (seq![cur] + segments_from(s.subrange(i + 1, n as int), Seq::empty())));
            }
            start = i + 1;
            assert(s.subrange(start as int, i + 1) =~= Seq::<char>::empty());
        } else {
            assert(cur.push(rest[0]) =~= s.subrange(start as int, i + 1));
        }
        i = i + 1;
    }
    let ghost before = seg_views(out@);
    let ghost cur = s.subrange(start as int, n as int);
    if n > start {
        let seg = String::from_str(path.substring_char(start, n));
        out.push(seg);
        assert(seg_views(out@) =~= before + seq![cur]);
    } else {
        assert(before + Seq::<Seq<char>>::empty() =~= before);
    }
    out
}

/// Segments `ss[from..]` joined by `/`.
pub fn join_from(ss: &Vec<String>, from: usize) -> (r: String)
    requires
        from <= ss.len(),
    ensures
        r@ == join_segments(seg_views(ss@).subrange(from as int, ss.len() as int)),
{
    let ghost vs = seg_views(ss@);
    let mut r = String::new();
    let mut i: usize = from;
    assert(vs.subrange(from as int, from as int) =~= Seq::<Seq<char>>::empty());
    while i < ss.len()
        invariant
            from <= i <= ss.len(),
            vs == seg_views(ss@),
            r@ == join_segments(vs.subrange(from as int, i as int)),
        decreases ss.len() - i,
    {
        let ghost part = vs.subrange(from as int, i + 1);
        assert(part.drop_last() =~= vs.subrange(from as int, i as int));
        assert(part.last() == ss@[i as int]@);
        if i == from {
            r = ss[i].clone();
        } else {
            r = r.concat("/").concat(ss[i].as_str());
        }
        i = i + 1;
    }
    r
}

/// Index of the first `Content` segment after the first, if any.
fn find_content(ss: &Vec<String>) -> (r: Option<usize>)
    ensures
        match r {
            Some(i) => first_content_at(seg_views(ss@), i as int),
            None => forall|i: int| 1 <= i < ss.len() ==> !#[trigger] is_content(seg_views(ss@), i),
        },
{
    let ghost vs = seg_views(ss@);
    let mut i: usize = 1;
    while i < ss.len()
        invariant
            1 <= i,
            vs == seg_views(ss@),
            forall|j: int| 1 <= j < i && j < ss.len() ==> !#[trigger] is_content(vs, j),
        decreases ss.len() - i,
    {
        assert(vs[i as int] == ss@[i as int]@);
        if eq_ignore_ascii_case(ss[i].as_str(), "content") {
            return Some(i);
        }
        i = i + 1;
    }
    None
}

/// Whether `bs` is a prefix of `ss`, segment by segment.
fn segments_start_with(ss: &Vec<String>, bs: &Vec<String>) -> (r: bool)
    ensures
        r == (bs.len() <= ss.len() && seg_views(ss@).subrange(0, bs.len() as int)
            == seg_views(bs@)),
{
    let ghost vs = seg_views(ss@);
    let ghost vb = seg_views(bs@);
    if bs.len() > ss.len() {
        return false;
    }
    let mut i: usize = 0;
    while i < bs.len()
        invariant
            i <= bs.len() <= ss.len(),
            vs == seg_views(ss@),
            vb == seg_views(bs@),
            forall|j: int| 0 <= j < i ==> vs[j] == vb[j],
        decreases bs.len() - i,
    {
        if !crate::text::str_eq(ss[i].as_str(), bs[i].as_str()) {
            assert(vs.subrange(0, bs.len() as int)[i as int] != vb[i as int]);
            return false;
        }
        i = i + 1;
    }
    assert(vs.subrange(0, bs.len() as int) =~= vb);
    true
}

/// The asset-style form of `path` relative to `base_dir`. Total: every path
/// has one, and it depends on the two arguments alone.
pub fn to_asset_style_path(path: &str, base_dir: &str) -> (r: String)
    ensures
        r@ == normalized(path@, base_dir@),
{
    let ss = path_segments(path);
    let bs = path_segments(base_dir);
    let ghost vs = seg_views(ss@);
    match find_content(&ss) {
        Some(i) => {
            proof {
                let c = choose|k: int| first_content_at(vs, k);
                if c < i {
                    assert(!is_content(vs, c));
                } else if c > i {
                    assert(!is_content(vs, i as int));
                }
            }
            join_from(&ss, i - 1)
        },
        None => {
            if segments_start_with(&ss, &bs) {
                join_from(&ss, bs.len())
            } else if ss.len() > 0 {
                ss[ss.len() - 1].clone()
            } else {
                String::new()
            }
        },
    }
}

} // verus!
