//! Asset lists: which interior paths count as assets, and the sorted,
//! duplicate-free form in which asset lists are kept.

use vstd::prelude::*;
use crate::text::{chars_of, extension_of, lower_of, lowercase, str_eq};
use crate::types::AssetPath;

verus! {

/// Ordinal (code point by code point) order on strings, the order of `str`.
pub open spec fn str_lt(a: Seq<char>, b: Seq<char>) -> bool
    decreases a.len(),
{
    if a.len() == 0 {
        b.len() > 0
    } else if b.len() == 0 {
        false
    } else if a[0] != b[0] {
        a[0] < b[0]
    } else {
        str_lt(a.drop_first(), b.drop_first())
    }
}

/// No string is below itself, and of two different strings exactly one is
/// below the other.
pub proof fn lemma_str_lt_total(a: Seq<char>, b: Seq<char>)
    ensures
        !(str_lt(a, b) && str_lt(b, a)),
        a != b ==> (str_lt(a, b) || str_lt(b, a)),
        !str_lt(a, a),
    decreases a.len(),
{
    if a.len() > 0 {
        lemma_str_lt_total(a.drop_first(), a.drop_first());
    }
    if a.len() > 0 && b.len() > 0 && a[0] == b[0] {
        lemma_str_lt_total(a.drop_first(), b.drop_first());
        if a != b {
            if a.drop_first() == b.drop_first() {
                assert(a =~= seq![a[0]] + a.drop_first());
                assert(b =~= seq![b[0]] + b.drop_first());
            }
        }
    }
    if a.len() == 0 && b.len() == 0 {
        assert(a =~= b);
    }
}

/// The order is transitive.
pub proof fn lemma_str_lt_trans(a: Seq<char>, b: Seq<char>, c: Seq<char>)
    requires
        str_lt(a, b),
        str_lt(b, c),
    ensures
        str_lt(a, c),
    decreases a.len(),
{
    if a.len() > 0 && b.len() > 0 && c.len() > 0 && a[0] == b[0] && b[0] == c[0] {
        lemma_str_lt_trans(a.drop_first(), b.drop_first(), c.drop_first());
    }
}

/// Whether `s` is in strictly increasing order, so also free of duplicates.
pub open spec fn strictly_sorted(s: Seq<Seq<char>>) -> bool {
    forall|i: int, j: int| 0 <= i < j < s.len() ==> str_lt(#[trigger] s[i], #[trigger] s[j])
}

/// Whether `r` is the sorted, deduplicated form of `l`: strictly increasing
/// and holding the same strings.
pub open spec fn is_sorted_dedup_of(l: Seq<Seq<char>>, r: Seq<Seq<char>>) -> bool {
    strictly_sorted(r) && r.to_set() == l.to_set()
}

/// The views of a sequence of asset paths.
pub open spec fn asset_views(v: Seq<AssetPath>) -> Seq<Seq<char>> {
    v.map_values(|a: AssetPath| a@)
}

/// Two strictly increasing sequences with the same elements are equal.
pub proof fn lemma_sorted_unique(a: Seq<Seq<char>>, b: Seq<Seq<char>>)
    requires
        strictly_sorted(a),
        strictly_sorted(b),
        a.to_set() == b.to_set(),
    ensures
        a == b,
    decreases a.len(),
{
    if a.len() == 0 {
        if b.len() > 0 {
            assert(b.to_set().contains(b[0]));
        }
        assert(a =~= b);
    } else if b.len() == 0 {
        assert(a.to_set().contains(a[0]));
    } else {
        assert(b.to_set().contains(a[0]));
        assert(a.to_set().contains(b[0]));
        let ia = choose|i: int| 0 <= i < a.len() && a[i] == b[0];
        let ib = choose|i: int| 0 <= i < b.len() && b[i] == a[0];
        lemma_str_lt_total(a[0], a[0]);
        if ia > 0 && ib > 0 {
            assert(str_lt(a[0], a[ia]));
            assert(str_lt(b[0], b[ib]));
            lemma_str_lt_total(a[0], b[0]);
        }
        assert(a[0] == b[0]);
        let a1 = a.drop_first();
        let b1 = b.drop_first();
        assert forall|x: Seq<char>| a1.to_set().contains(x) implies b1.to_set().contains(x) by {
            let i = choose|i: int| 0 <= i < a1.len() && a1[i] == x;
            assert(a[i + 1] == x);
            assert(str_lt(a[0], x));
            assert(b.to_set().contains(x));
            let j = choose|j: int| 0 <= j < b.len() && b[j] == x;
            if j == 0 {
                lemma_str_lt_total(x, x);
            }
            assert(b1[j - 1] == x);
        }
        assert forall|x: Seq<char>| b1.to_set().contains(x) implies a1.to_set().contains(x) by {
            let i = choose|i: int| 0 <= i < b1.len() && b1[i] == x;
            assert(b[i + 1] == x);
            assert(str_lt(b[0], x));
            assert(a.to_set().contains(x));
            let j = choose|j: int| 0 <= j < a.len() && a[j] == x;
            if j == 0 {
                lemma_str_lt_total(x, x);
            }
            assert(a1[j - 1] == x);
        }
        assert(a1.to_set() =~= b1.to_set());
        lemma_sorted_unique(a1, b1);
        assert(a =~= seq![a[0]] + a1);
        assert(b =~= seq![b[0]] + b1);
    }
}

/// The sorted, deduplicated form of `l`.
pub open spec fn sorted_dedup(l: Seq<Seq<char>>) -> Seq<Seq<char>> {
    choose|r: Seq<Seq<char>>| is_sorted_dedup_of(l, r)
}

/// A sorted, deduplicated form of `l` is the one `sorted_dedup` names.
pub proof fn lemma_sorted_dedup_is(l: Seq<Seq<char>>, r: Seq<Seq<char>>)
    requires
        is_sorted_dedup_of(l, r),
    ensures
        sorted_dedup(l) == r,
        is_sorted_dedup_of(l, sorted_dedup(l)),
{
    let c = sorted_dedup(l);
    assert(is_sorted_dedup_of(l, c));
    lemma_sorted_unique(c, r);
}

/// A strictly increasing sequence that lacks `x` splits at one position into
/// the strings below `x` and those above it.
proof fn lemma_split_at(r: Seq<Seq<char>>, x: Seq<char>) -> (p: int)
    requires
        strictly_sorted(r),
        !r.contains(x),
    ensures
        0 <= p <= r.len(),
        forall|j: int| 0 <= j < p ==> str_lt(#[trigger] r[j], x),
        forall|j: int| p <= j < r.len() ==> str_lt(x, #[trigger] r[j]),
    decreases r.len(),
{
    if r.len() == 0 {
        0
    } else {
        let s = r.drop_last();
        assert(!s.contains(x)) by {
            if s.contains(x) {
                let j = choose|j: int| 0 <= j < s.len() && s[j] == x;
                assert(r[j] == x);
            }
        }
        let q = lemma_split_at(s, x);
        let last = r.len() - 1;
        lemma_str_lt_total(r[last], x);
        assert(r[last] != x);
        if str_lt(r[last], x) {
            assert forall|j: int| 0 <= j < r.len() implies str_lt(#[trigger] r[j], x) by {
                if j < last {
                    lemma_str_lt_trans(r[j], r[last], x);
                }
            }
            r.len() as int
        } else {
            assert forall|j: int| 0 <= j < q implies str_lt(#[trigger] r[j], x) by {
                assert(r[j] == s[j]);
            }
            assert forall|j: int| q <= j < r.len() implies str_lt(x, #[trigger] r[j]) by {
                if j < last {
                    assert(r[j] == s[j]);
                }
            }
            q
        }
    }
}

/// Every list has a sorted, deduplicated form.
pub proof fn lemma_sorted_dedup_exists(l: Seq<Seq<char>>)
    ensures
        is_sorted_dedup_of(l, sorted_dedup(l)),
    decreases l.len(),
{
    if l.len() == 0 {
        let e = Seq::<Seq<char>>::empty();
        assert(e.to_set() =~= l.to_set());
        assert(is_sorted_dedup_of(l, e));
    } else {
        let l0 = l.drop_last();
        let x = l.last();
        lemma_sorted_dedup_exists(l0);
        let r0 = sorted_dedup(l0);
        assert(l =~= l0.push(x));
        if r0.contains(x) {
            assert(r0.to_set() =~= l.to_set()) by {
                assert forall|y: Seq<char>| l.to_set().contains(y) implies r0.to_set().contains(y) by {
                    let k = choose|k: int| 0 <= k < l.len() && l[k] == y;
                    if k < l0.len() {
                        assert(l0[k] == y);
                        assert(l0.to_set().contains(y));
                    }
                }
                assert forall|y: Seq<char>| r0.to_set().contains(y) implies l.to_set().contains(y) by {
                    assert(l0.to_set().contains(y));
                    let k = choose|k: int| 0 <= k < l0.len() && l0[k] == y;
                    assert(l[k] == y);
                }
            }
            assert(is_sorted_dedup_of(l, r0));
        } else {
            let p = lemma_split_at(r0, x);
            let r = r0.insert(p, x);
            assert forall|a: int, b: int| 0 <= a < b < r.len() implies str_lt(#[trigger] r[a], #[trigger] r[b]) by {
                if b < p {
                } else if b == p {
                    assert(r[a] == r0[a]);
                } else if a < p {
                    assert(r[b] == r0[b - 1]);
                    assert(r[a] == r0[a]);
                } else if a == p {
                    assert(r[b] == r0[b - 1]);
                } else {
                    assert(r[a] == r0[a - 1]);
                    assert(r[b] == r0[b - 1]);
                }
            }
            assert(r.to_set() =~= l.to_set()) by {
                assert forall|y: Seq<char>| r.to_set().contains(y) implies l.to_set().contains(y) by {
                    let k = choose|k: int| 0 <= k < r.len() && r[k] == y;
                    if k == p {
                        assert(l[l.len() - 1] == y);
                    } else {
                        let m = if k < p { k } else { k - 1 };
                        assert(r0[m] == y);
                        assert(r0.to_set().contains(y));
                        assert(l0.to_set().contains(y));
                        let n = choose|n: int| 0 <= n < l0.len() && l0[n] == y;
                        assert(l[n] == y);
                    }
                }
                assert forall|y: Seq<char>| l.to_set().contains(y) implies r.to_set().contains(y) by {
                    let k = choose|k: int| 0 <= k < l.len() && l[k] == y;
                    if k == l.len() - 1 {
                        assert(r[p] == y);
                    } else {
                        assert(l0[k] == y);
                        assert(l0.to_set().contains(y));
                        assert(r0.to_set().contains(y));
                        let m = choose|m: int| 0 <= m < r0.len() && r0[m] == y;
                        if m < p {
                            assert(r[m] == y);
                        } else {
                            assert(r[m + 1] == y);
                        }
                    }
                }
            }
            assert(is_sorted_dedup_of(l, r));
        }
    }
}

/// Sorting and deduplicating is idempotent:
/// `dedup(sort(L)) == dedup(sort(dedup(sort(L))))`.
pub proof fn lemma_sort_dedup_idempotent(l: Seq<Seq<char>>)
    ensures
        sorted_dedup(sorted_dedup(l)) == sorted_dedup(l),
{
    lemma_sorted_dedup_exists(l);
    let r1 = sorted_dedup(l);
    assert(is_sorted_dedup_of(l, r1));
    assert(is_sorted_dedup_of(r1, r1));
    lemma_sorted_dedup_is(r1, r1);
}

/// Sorting and deduplicating keeps a list empty exactly when it was.
pub proof fn lemma_sorted_dedup_empty(l: Seq<Seq<char>>, r: Seq<Seq<char>>)
    requires
        is_sorted_dedup_of(l, r),
    ensures
        (r.len() == 0) == (l.len() == 0),
{
    if l.len() > 0 {
        assert(l.to_set().contains(l[0]));
        assert(r.to_set().contains(l[0]));
    }
    if r.len() > 0 {
        assert(r.to_set().contains(r[0]));
        assert(l.to_set().contains(r[0]));
    }
}

/// Whether `a` is below `b` in the order of strings.
pub fn chars_lt(a: &Vec<char>, b: &Vec<char>) -> (r: bool)
    ensures
        r == str_lt(a@, b@),
{
    let mut i: usize = 0;
    assert(a@.subrange(0, a.len() as int) =~= a@);
    assert(b@.subrange(0, b.len() as int) =~= b@);
    while i < a.len() && i < b.len()
        invariant
            i <= a.len(),
            i <= b.len(),
            str_lt(a@, b@) == str_lt(a@.subrange(i as int, a.len() as int), b@.subrange(i as int, b.len() as int)),
        decreases a.len() - i,
    {
        let ghost sa = a@.subrange(i as int, a.len() as int);
        let ghost sb = b@.subrange(i as int, b.len() as int);
        assert(sa[0] == a@[i as int]);
        assert(sb[0] == b@[i as int]);
        if a[i] != b[i] {
            return a[i] < b[i];
        }
        assert(sa.drop_first() =~= a@.subrange(i + 1, a.len() as int));
        assert(sb.drop_first() =~= b@.subrange(i + 1, b.len() as int));
        i = i + 1;
    }
    i == a.len() && i < b.len()
}

/// Sorts `v` and removes duplicates.
pub fn sort_dedup(v: Vec<AssetPath>) -> (r: Vec<AssetPath>)
    ensures
        is_sorted_dedup_of(asset_views(v@), asset_views(r@)),
        asset_views(r@) == sorted_dedup(asset_views(v@)),
{
    let ghost l = asset_views(v@);
    let mut r: Vec<AssetPath> = Vec::new();
    let mut keys: Vec<Vec<char>> = Vec::new();
    let mut i: usize = 0;
    while i < v.len()
        invariant
            i <= v.len(),
            l == asset_views(v@),
            keys.len() == r.len(),
            forall|j: int| 0 <= j < r.len() ==> (#[trigger] keys@[j])@ == r@[j]@,
            strictly_sorted(asset_views(r@)),
            asset_views(r@).to_set() == l.subrange(0, i as int).to_set(),
        decreases v.len() - i,
    {
        let x = v[i].clone_path();
        let xk = chars_of(x.as_str());
        let ghost rs = asset_views(r@);
        // first position whose key is not below x
        let mut lo: usize = 0;
        let mut hi: usize = r.len();
        while lo < hi
            invariant
                0 <= lo <= hi <= r.len(),
                keys.len() == r.len(),
                rs == asset_views(r@),
                forall|j: int| 0 <= j < r.len() ==> (#[trigger] keys@[j])@ == r@[j]@,
                forall|j: int| 0 <= j < lo ==> str_lt(#[trigger] rs[j], xk@),
                forall|j: int| hi <= j < r.len() ==> !str_lt(#[trigger] rs[j], xk@),
                strictly_sorted(rs),
                xk@ == x@,
            decreases hi - lo,
        {
            let mid = lo + (hi - lo) / 2;
            if chars_lt(&keys[mid], &xk) {
                assert forall|j: int| 0 <= j <= mid implies str_lt(#[trigger] rs[j], xk@) by {
                    if j < mid {
                        lemma_str_lt_trans(rs[j], rs[mid as int], xk@);
                    }
                }
                lo = mid + 1;
            } else {
                assert forall|j: int| mid <= j < r.len() implies !str_lt(#[trigger] rs[j], xk@) by {
                    if j > mid {
                        if str_lt(rs[j], xk@) {
                            lemma_str_lt_trans(rs[mid as int], rs[j], xk@);
                        }
                    }
                }
                hi = mid;
            }
        }
        let ghost ls = l.subrange(0, i + 1);
        assert(ls =~= l.subrange(0, i as int).push(x@));
        assert(l[i as int] == x@);
        if lo < r.len() && chars_lt(&xk, &keys[lo]) == false {
            // not below, not above: equal
            proof {
                lemma_str_lt_total(rs[lo as int], xk@);
                assert(rs[lo as int] == x@);
                assert(rs.to_set().contains(x@));
                assert(rs.to_set() =~= ls.to_set());
            }
        } else {
            proof {
                if lo < r.len() {
                    assert(str_lt(x@, rs[lo as int]));
                }
            }
            r.insert(lo, x);
            keys.insert(lo, xk);
            proof {
                let ns = asset_views(r@);
                assert(ns =~= rs.insert(lo as int, x@));
                assert forall|a: int, b: int| 0 <= a < b < ns.len() implies str_lt(#[trigger] ns[a], #[trigger] ns[b]) by {
                    if b < lo {
                    } else if b == lo {
                    } else if a < lo {
                        assert(ns[b] == rs[b - 1]);
                        if a == lo {
                        } else {
                            assert(ns[a] == rs[a]);
                        }
                    } else if a == lo {
                        assert(ns[b] == rs[b - 1]);
                        if b - 1 > lo {
                            lemma_str_lt_trans(x@, rs[lo as int], rs[b - 1]);
                        }
                    } else {
                        assert(ns[a] == rs[a - 1]);
                        assert(ns[b] == rs[b - 1]);
                    }
                }
                assert(ns.to_set() =~= ls.to_set()) by {
                    assert forall|y: Seq<char>| ns.to_set().contains(y) implies ls.to_set().contains(y) by {
                        let k = choose|k: int| 0 <= k < ns.len() && ns[k] == y;
                        if k < lo {
                            assert(rs.to_set().contains(rs[k]));
                        } else if k > lo {
                            assert(rs.to_set().contains(rs[k - 1]));
                        } else {
                            assert(ls[i as int] == y);
                        }
                    }
                    assert forall|y: Seq<char>| ls.to_set().contains(y) implies ns.to_set().contains(y) by {
                        let k = choose|k: int| 0 <= k < ls.len() && ls[k] == y;
                        if k < i {
                            assert(l.subrange(0, i as int).to_set().contains(y));
                            let m = choose|m: int| 0 <= m < rs.len() && rs[m] == y;
                            if m < lo {
                                assert(ns[m] == y);
                            } else {
                                assert(ns[m + 1] == y);
                            }
                        } else {
                            assert(ns[lo as int] == y);
                        }
                    }
                }
            }
        }
        i = i + 1;
    }
    assert(l.subrange(0, v.len() as int) =~= l);
    proof {
        lemma_sorted_dedup_is(l, asset_views(r@));
    }
    r
}

/// Whether a lower-cased extension is one of the asset extensions.
pub open spec fn is_asset_ext(l: Seq<char>) -> bool {
    l == "uasset"@ || l == "umap"@ || l == "bnk"@ || l == "json"@ || l == "wem"@ || l == "fbx"@
        || l == "obj"@ || l == "glb"@ || l == "gltf"@ || l == "ini"@ || l == "wav"@ || l == "mp3"@
        || l == "ogg"@ || l == "uplugin"@ || l == "usf"@
}

/// Whether an interior path names an asset: its extension, lower-cased, is
/// one of the asset extensions.
pub open spec fn is_asset_path(p: Seq<char>) -> bool {
    match extension_of(p) {
        Some(e) => is_asset_ext(lower_of(e)),
        None => false,
    }
}

/// Whether an already lower-cased extension is one of the asset extensions.
pub fn is_asset_extension(l: &str) -> (r: bool)
    ensures
        r == is_asset_ext(l@),
{
    str_eq(l, "uasset") || str_eq(l, "umap") || str_eq(l, "bnk") || str_eq(l, "json") || str_eq(l, "wem")
        || str_eq(l, "fbx") || str_eq(l, "obj") || str_eq(l, "glb") || str_eq(l, "gltf") || str_eq(l, "ini")
        || str_eq(l, "wav") || str_eq(l, "mp3") || str_eq(l, "ogg") || str_eq(l, "uplugin") || str_eq(l, "usf")
}

/// Whether an interior path names an asset.
pub fn is_asset_file(path: &str) -> (r: bool)
    ensures
        r == is_asset_path(path@),
{
    let a = AssetPath::new(String::from_str(path));
    match a.extension() {
        Some(e) => {
            let l = lowercase(e);
            is_asset_extension(l.as_str())
        },
        None => false,
    }
}

/// The optional interior paths of a sequence of chunk records, as plain values.
pub open spec fn chunk_views(cs: Seq<Option<String>>) -> Seq<Option<Seq<char>>> {
    cs.map_values(|o: Option<String>| match o {
        Some(p) => Some(p@),
        None => None,
    })
}

/// The asset paths that chunk records carry, in order: those chunks that
/// carry a path naming an asset.
pub open spec fn chunk_assets(cs: Seq<Option<Seq<char>>>) -> Seq<Seq<char>>
    decreases cs.len(),
{
    if cs.len() == 0 {
        Seq::empty()
    } else {
        let rest = chunk_assets(cs.drop_last());
        match cs.last() {
            Some(p) => if is_asset_path(p) {
                rest.push(p)
            } else {
                rest
            },
            None => rest,
        }
    }
}

/// The asset paths among the chunk records' interior paths, in order.
pub fn collect_chunk_assets(chunk_paths: &Vec<Option<String>>) -> (r: Vec<AssetPath>)
    ensures
        asset_views(r@) == chunk_assets(chunk_views(chunk_paths@)),
{
    let ghost cs = chunk_views(chunk_paths@);
    let mut r: Vec<AssetPath> = Vec::new();
    let mut i: usize = 0;
    while i < chunk_paths.len()
        invariant
            i <= chunk_paths.len(),
            cs == chunk_views(chunk_paths@),
            asset_views(r@) == chunk_assets(cs.subrange(0, i as int)),
        decreases chunk_paths.len() - i,
    {
        assert(cs.subrange(0, i + 1).drop_last() =~= cs.subrange(0, i as int));
        assert(cs[i as int] == match chunk_paths@[i as int] {
            Some(p) => Some(p@),
            None => None::<Seq<char>>,
        });
        match &chunk_paths[i] {
            Some(p) => {
                if is_asset_file(p.as_str()) {
                    let ghost before = asset_views(r@);
                    r.push(AssetPath::new(p.clone()));
                    assert(asset_views(r@) =~= before.push(p@));
                }
            },
            None => {},
        }
        i = i + 1;
    }
    assert(cs.subrange(0, chunk_paths.len() as int) =~= cs);
    r
}

/// The asset list of an IoStore container from its chunk records' interior
/// paths: the asset paths among them, sorted and deduplicated.
pub fn utoc_asset_list(chunk_paths: &Vec<Option<String>>) -> (r: Vec<AssetPath>)
    ensures
        asset_views(r@) == sorted_dedup(chunk_assets(chunk_views(chunk_paths@))),
        is_sorted_dedup_of(chunk_assets(chunk_views(chunk_paths@)), asset_views(r@)),
{
    let found = collect_chunk_assets(chunk_paths);
    sort_dedup(found)
}

} // verus!
