//! Bundle resolution: which discovered files are containers, and how the
//! containers group into bundles by file stem.

use vstd::prelude::*;
use crate::text::{chars_of, eq_ignore_ascii_case, eq_ignore_ascii_case_spec, extension_of, stem_of, str_eq};
use crate::types::AssetPath;

verus! {

/// The two container generations.
#[derive(Debug, Clone, Copy, PartialEq, Eq)]
pub enum ContainerKind {
    /// A legacy single-file `.pak` container.
    Pak,
    /// The `.utoc` index of an IoStore container.
    Utoc,
}

/// A discovered container file.
#[derive(Debug)]
pub struct ContainerUnit {
    /// Where the file is.
    pub path: String,
    /// Which generation of container it is.
    pub kind: ContainerKind,
    /// The file stem, by which a `.pak` and a `.utoc` are paired.
    pub bundle_key: String,
}

/// A container unit as plain values: path, kind and bundle key.
pub type UnitView = (Seq<char>, ContainerKind, Seq<char>);

impl View for ContainerUnit {
    type V = UnitView;

    open spec fn view(&self) -> UnitView {
        (self.path@, self.kind, self.bundle_key@)
    }
}

/// The container kind that a file's extension names, ignoring ASCII case.
pub open spec fn kind_of_path(p: Seq<char>) -> Option<ContainerKind> {
    match extension_of(p) {
        Some(e) => if eq_ignore_ascii_case_spec(e, "pak"@) {
            Some(ContainerKind::Pak)
        } else if eq_ignore_ascii_case_spec(e, "utoc"@) {
            Some(ContainerKind::Utoc)
        } else {
            None
        },
        None => None,
    }
}

/// The unit that a file at `p` makes, if it is a container.
pub open spec fn unit_of_path(p: Seq<char>) -> Option<UnitView> {
    match kind_of_path(p) {
        Some(k) => Some((p, k, stem_of(p))),
        None => None,
    }
}

/// The units that a sequence of file paths makes, in order.
pub open spec fn units_of_paths(ps: Seq<Seq<char>>) -> Seq<UnitView>
    decreases ps.len(),
{
    if ps.len() == 0 {
        Seq::empty()
    } else {
        match unit_of_path(ps.last()) {
            Some(u) => units_of_paths(ps.drop_last()).push(u),
            None => units_of_paths(ps.drop_last()),
        }
    }
}

/// How one bundle is served.
#[derive(Debug)]
pub enum BundleClassification {
    /// A `.pak` with no `.utoc` of the same stem.
    SoloPak(ContainerUnit),
    /// A `.utoc` with no `.pak` of the same stem.
    SoloUtoc(ContainerUnit),
    /// A `.pak` and a `.utoc` of the same stem.
    BundlePair { pak: ContainerUnit, utoc: ContainerUnit },
}

/// A classification as the pak and the utoc unit it holds.
pub type ClassView = (Option<UnitView>, Option<UnitView>);

impl View for BundleClassification {
    type V = ClassView;

    open spec fn view(&self) -> ClassView {
        match self {
            BundleClassification::SoloPak(p) => (Some(p@), None),
            BundleClassification::SoloUtoc(u) => (None, Some(u@)),
            BundleClassification::BundlePair { pak, utoc } => (Some(pak@), Some(utoc@)),
        }
    }
}

/// Bundle key of a classification.
pub open spec fn class_key(c: ClassView) -> Seq<char> {
    match c.0 {
        Some(p) => p.2,
        None => match c.1 {
            Some(u) => u.2,
            None => Seq::empty(),
        },
    }
}

/// The first unit of `us` with bundle key `k` and kind `kind`.
pub open spec fn first_of(us: Seq<UnitView>, k: Seq<char>, kind: ContainerKind) -> Option<UnitView>
    decreases us.len(),
{
    if us.len() == 0 {
        None
    } else {
        match first_of(us.drop_last(), k, kind) {
            Some(u) => Some(u),
            None => if us.last().1 == kind && us.last().2 == k {
                Some(us.last())
            } else {
                None
            },
        }
    }
}

/// Whether some unit of `us` has bundle key `k`.
pub open spec fn has_key(us: Seq<UnitView>, k: Seq<char>) -> bool {
    exists|j: int| 0 <= j < us.len() && (#[trigger] us[j]).2 == k
}

/// The classification that bundle key `k` gets among `us`: the first `.pak`
/// and the first `.utoc` of that stem.
pub open spec fn expected_class(us: Seq<UnitView>, k: Seq<char>) -> ClassView {
    (first_of(us, k, ContainerKind::Pak), first_of(us, k, ContainerKind::Utoc))
}

/// What a classification of `us` must be: one entry per bundle key, each
/// holding the first `.pak` and the first `.utoc` of its stem.
pub open spec fn is_classification_of(us: Seq<UnitView>, cs: Seq<ClassView>) -> bool {
    &&& forall|i: int| 0 <= i < cs.len() ==> #[trigger] cs[i] == expected_class(us, class_key(cs[i]))
    &&& forall|i: int| 0 <= i < cs.len() ==> has_key(us, #[trigger] class_key(cs[i]))
    &&& forall|j: int| 0 <= j < us.len() ==> exists|i: int| 0 <= i < cs.len() && class_key(#[trigger] cs[i]) == (#[trigger] us[j]).2
    &&& forall|i: int, j: int| 0 <= i < j < cs.len() ==> class_key(#[trigger] cs[i]) != class_key(#[trigger] cs[j])
}

/// The views of a sequence of classifications.
pub open spec fn class_views(cs: Seq<BundleClassification>) -> Seq<ClassView> {
    cs.map_values(|c: BundleClassification| c@)
}

/// The views of a sequence of units.
pub open spec fn unit_views(us: Seq<ContainerUnit>) -> Seq<UnitView> {
    us.map_values(|u: ContainerUnit| u@)
}

/// A first unit found is a unit of the sequence with the asked key and kind.
pub proof fn lemma_first_of_found(us: Seq<UnitView>, k: Seq<char>, kind: ContainerKind)
    ensures
        first_of(us, k, kind) matches Some(u) ==> u.1 == kind && u.2 == k
            && exists|j: int| 0 <= j < us.len() && us[j] == u,
        first_of(us, k, kind).is_none() ==> forall|j: int| 0 <= j < us.len() ==> !((#[trigger] us[j]).1 == kind && us[j].2 == k),
    decreases us.len(),
{
    if us.len() > 0 {
        let s = us.drop_last();
        lemma_first_of_found(s, k, kind);
        if let Some(u) = first_of(s, k, kind) {
            let j = choose|j: int| 0 <= j < s.len() && s[j] == u;
            assert(us[j] == u);
        } else if first_of(us, k, kind) is Some {
            assert(us[us.len() - 1] == us.last());
        } else {
            assert forall|j: int| 0 <= j < us.len() implies !((#[trigger] us[j]).1 == kind && us[j].2 == k) by {
                if j < s.len() {
                    assert(us[j] == s[j]);
                }
            }
        }
    }
}

/// The kind that a file path names, if it is a container.
pub fn container_kind_of(path: &str) -> (r: Option<ContainerKind>)
    ensures
        r == kind_of_path(path@),
{
    let a = AssetPath::new(String::from_str(path));
    match a.extension() {
        Some(e) => {
            if eq_ignore_ascii_case(e, "pak") {
                Some(ContainerKind::Pak)
            } else if eq_ignore_ascii_case(e, "utoc") {
                Some(ContainerKind::Utoc)
            } else {
                None
            }
        },
        None => None,
    }
}

/// The file stem of a path: its file name without the extension.
pub fn file_stem(path: &str) -> (r: String)
    ensures
        r@ == stem_of(path@),
{
    let s = chars_of(path);
    let start = crate::text::file_name_start(&s);
    let ghost name = crate::text::file_name_of(path@);
    match crate::text::last_index_from(&s, start, '.') {
        Some(d) => {
            assert(s@.subrange(start as int, s.len() as int) =~= name);
            if d > start {
                let r = String::from_str(path.substring_char(start, d));
                assert(r@ =~= name.subrange(0, crate::text::ext_dot(name)));
                r
            } else {
                let r = String::from_str(path.substring_char(start, s.len()));
                assert(r@ =~= name);
                r
            }
        },
        None => {
            assert(s@.subrange(start as int, s.len() as int) =~= name);
            let r = String::from_str(path.substring_char(start, s.len()));
            assert(r@ =~= name);
            r
        },
    }
}

impl ContainerUnit {
    /// The unit that the file at `path` makes, or `None` when its extension
    /// is neither `pak` nor `utoc` (in any ASCII case).
    pub fn from_path(path: String) -> (r: Option<ContainerUnit>)
        ensures
            match r {
                Some(u) => unit_of_path(path@) == Some(u@),
                None => unit_of_path(path@).is_none(),
            },
    {
        match container_kind_of(path.as_str()) {
            Some(kind) => {
                let bundle_key = file_stem(path.as_str());
                Some(ContainerUnit { path, kind, bundle_key })
            },
            None => None,
        }
    }

    /// A copy of this unit.
    pub fn duplicate(&self) -> (r: ContainerUnit)
        ensures
            r@ == self@,
    {
        ContainerUnit { path: self.path.clone(), kind: self.kind, bundle_key: self.bundle_key.clone() }
    }
}

/// The container units among the regular files at `paths`, in order: each
/// file whose extension is `pak` or `utoc` (in any ASCII case), keyed by its
/// stem. Other files are left out.
pub fn discover(paths: Vec<String>) -> (r: Vec<ContainerUnit>)
    ensures
        unit_views(r@) == units_of_paths(paths@.map_values(|p: String| p@)),
{
    let ghost ps = paths@.map_values(|p: String| p@);
    let mut r: Vec<ContainerUnit> = Vec::new();
    let mut i: usize = 0;
    while i < paths.len()
        invariant
            i <= paths.len(),
            ps == paths@.map_values(|p: String| p@),
            unit_views(r@) == units_of_paths(ps.subrange(0, i as int)),
        decreases paths.len() - i,
    {
        assert(ps.subrange(0, i + 1).drop_last() =~= ps.subrange(0, i as int));
        let p = paths[i].clone();
        match ContainerUnit::from_path(p) {
            Some(u) => {
                r.push(u);
                assert(unit_views(r@) =~= units_of_paths(ps.subrange(0, i as int)).push(u@));
            },
            None => {},
        }
        i = i + 1;
    }
    assert(ps.subrange(0, paths.len() as int) =~= ps);
    r
}

/// Whether some unit of `us` has bundle key `k` and kind `kind`.
pub open spec fn has_kind(us: Seq<UnitView>, k: Seq<char>, kind: ContainerKind) -> bool {
    exists|j: int| 0 <= j < us.len() && (#[trigger] us[j]).1 == kind && us[j].2 == k
}

impl BundleClassification {
    /// The bundle key of this classification.
    pub fn key(&self) -> (r: &str)
        ensures
            r@ == class_key(self@),
    {
        match self {
            BundleClassification::SoloPak(p) => p.bundle_key.as_str(),
            BundleClassification::SoloUtoc(u) => u.bundle_key.as_str(),
            BundleClassification::BundlePair { pak, utoc } => pak.bundle_key.as_str(),
        }
    }
}

/// Index of the classification of `cs` whose bundle key is `key`, if any.
fn find_key(cs: &Vec<BundleClassification>, key: &str) -> (r: Option<usize>)
    ensures
        match r {
            Some(j) => j < cs.len() && class_key(cs@[j as int]@) == key@,
            None => forall|j: int| 0 <= j < cs.len() ==> class_key((#[trigger] cs@[j])@) != key@,
        },
{
    let mut j: usize = 0;
    while j < cs.len()
        invariant
            j <= cs.len(),
            forall|i: int| 0 <= i < j ==> class_key((#[trigger] cs@[i])@) != key@,
        decreases cs.len() - j,
    {
        if str_eq(cs[j].key(), key) {
            return Some(j);
        }
        j = j + 1;
    }
    None
}

/// Extending the units by one that does not match leaves a first unit as it was;
/// one that matches is first when none was before.
proof fn lemma_first_of_push(s: Seq<UnitView>, u: UnitView, k: Seq<char>, kind: ContainerKind)
    ensures
        first_of(s.push(u), k, kind) == (match first_of(s, k, kind) {
            Some(x) => Some(x),
            None => if u.1 == kind && u.2 == k { Some(u) } else { None },
        }),
{
    assert(s.push(u).drop_last() =~= s);
}

/// Groups container units into bundles by stem: one classification per
/// bundle key, a `BundlePair` where the key has both a `.pak` and a `.utoc`
/// (the first of each), a `SoloPak` or `SoloUtoc` where it has only one kind.
pub fn classify(units: &Vec<ContainerUnit>) -> (r: Vec<BundleClassification>)
    ensures
        is_classification_of(unit_views(units@), class_views(r@)),
{
    let ghost us = unit_views(units@);
    let mut r: Vec<BundleClassification> = Vec::new();
    let mut i: usize = 0;
    while i < units.len()
        invariant
            i <= units.len(),
            us == unit_views(units@),
            is_classification_of(us.subrange(0, i as int), class_views(r@)),
        decreases units.len() - i,
    {
        let ghost s = us.subrange(0, i as int);
        let ghost s2 = us.subrange(0, i + 1);
        let ghost old_cs = class_views(r@);
        let u = &units[i];
        let ghost uv = u@;
        assert(s2 =~= s.push(uv));
        assert(uv == us[i as int]);
        assert forall|k: Seq<char>, kind: ContainerKind| #[trigger] first_of(s2, k, kind) == (match first_of(s, k, kind) {
            Some(x) => Some(x),
            None => if uv.1 == kind && uv.2 == k { Some(uv) } else { None },
        }) by {
            lemma_first_of_push(s, uv, k, kind);
        }
        assert forall|k: Seq<char>| has_key(s, k) ==> has_key(s2, k) by {
            if has_key(s, k) {
                let j = choose|j: int| 0 <= j < s.len() && (#[trigger] s[j]).2 == k;
                assert(s2[j] == s[j]);
            }
        }
        assert(s2[i as int] == uv);
        assert(has_key(s2, uv.2));
        match find_key(&r, u.bundle_key.as_str()) {
            None => {
                proof {
                    lemma_first_of_found(s, uv.2, ContainerKind::Pak);
                    lemma_first_of_found(s, uv.2, ContainerKind::Utoc);
                    assert forall|j: int| 0 <= j < s.len() implies (#[trigger] s[j]).2 != uv.2 by {
                        let w = choose|w: int| 0 <= w < old_cs.len() && class_key(#[trigger] old_cs[w]) == s[j].2;
                        assert(class_key(r@[w]@) != uv.2);
                    }
                }
                let c = match u.kind {
                    ContainerKind::Pak => BundleClassification::SoloPak(u.duplicate()),
                    ContainerKind::Utoc => BundleClassification::SoloUtoc(u.duplicate()),
                };
                r.push(c);
                proof {
                    let cs = class_views(r@);
                    assert(cs =~= old_cs.push(c@));
                    assert forall|w: int| 0 <= w < old_cs.len() implies class_key(#[trigger] old_cs[w]) != uv.2 by {
                        assert(old_cs[w] == r@[w]@);
                    }
                    assert forall|j: int| 0 <= j < s2.len() implies exists|w: int| 0 <= w < cs.len() && class_key(#[trigger] cs[w]) == (#[trigger] s2[j]).2 by {
                        if j < s.len() {
                            assert(s2[j] == s[j]);
                            let w = choose|w: int| 0 <= w < old_cs.len() && class_key(#[trigger] old_cs[w]) == s[j].2;
                            assert(cs[w] == old_cs[w]);
                        } else {
                            assert(cs[old_cs.len() as int] == c@);
                        }
                    }
                }
            },
            Some(j) => {
                let ghost cur = r@[j as int]@;
                let c: Option<BundleClassification> = match (&r[j], u.kind) {
                    (BundleClassification::SoloPak(p), ContainerKind::Utoc) =>
                        Some(BundleClassification::BundlePair { pak: p.duplicate(), utoc: u.duplicate() }),
                    (BundleClassification::SoloUtoc(q), ContainerKind::Pak) =>
                        Some(BundleClassification::BundlePair { pak: u.duplicate(), utoc: q.duplicate() }),
                    _ => None,
                };
                assert(old_cs[j as int] == cur);
                match c {
                    Some(c) => {
                        r.set(j, c);
                        proof {
                            let cs = class_views(r@);
                            assert(cs =~= old_cs.update(j as int, c@));
                            assert forall|jj: int| 0 <= jj < s2.len() implies exists|w: int| 0 <= w < cs.len() && class_key(#[trigger] cs[w]) == (#[trigger] s2[jj]).2 by {
                                if jj < s.len() {
                                    assert(s2[jj] == s[jj]);
                                    let w = choose|w: int| 0 <= w < old_cs.len() && class_key(#[trigger] old_cs[w]) == s[jj].2;
                                    if w == j {
                                        assert(class_key(cs[w]) == uv.2);
                                    } else {
                                        assert(cs[w] == old_cs[w]);
                                    }
                                } else {
                                    assert(class_key(cs[j as int]) == uv.2);
                                }
                            }
                        }
                    },
                    None => {
                        proof {
                            let cs = class_views(r@);
                            assert forall|jj: int| 0 <= jj < s2.len() implies exists|w: int| 0 <= w < cs.len() && class_key(#[trigger] cs[w]) == (#[trigger] s2[jj]).2 by {
                                if jj < s.len() {
                                    assert(s2[jj] == s[jj]);
                                } else {
                                    assert(class_key(cs[j as int]) == uv.2);
                                }
                            }
                        }
                    },
                }
            },
        }
        i = i + 1;
    }
    assert(us.subrange(0, units.len() as int) =~= us);
    r
}

/// Classification is a partition of the bundle keys: every key of a
/// discovered unit has exactly one classification, which holds a `.pak`
/// exactly when the key has a `.pak` unit and a `.utoc` exactly when it has a
/// `.utoc` unit; so it is a `SoloPak`, a `SoloUtoc` or a `BundlePair`, and
/// only one of them.
pub proof fn lemma_classification_partition(us: Seq<UnitView>, cs: Seq<ClassView>, k: Seq<char>)
    requires
        is_classification_of(us, cs),
        has_key(us, k),
    ensures
        exists|i: int| 0 <= i < cs.len() && class_key(cs[i]) == k,
        forall|i: int, i2: int|
            0 <= i < cs.len() && 0 <= i2 < cs.len() && class_key(#[trigger] cs[i]) == k && class_key(#[trigger] cs[i2]) == k
                ==> i == i2,
        forall|i: int| 0 <= i < cs.len() && class_key(#[trigger] cs[i]) == k ==> {
            &&& (cs[i].0 is Some <==> has_kind(us, k, ContainerKind::Pak))
            &&& (cs[i].1 is Some <==> has_kind(us, k, ContainerKind::Utoc))
        },
{
    let j = choose|j: int| 0 <= j < us.len() && (#[trigger] us[j]).2 == k;
    assert(us[j].2 == k);
    lemma_first_of_found(us, k, ContainerKind::Pak);
    lemma_first_of_found(us, k, ContainerKind::Utoc);
    assert forall|i: int, i2: int|
        0 <= i < cs.len() && 0 <= i2 < cs.len() && class_key(#[trigger] cs[i]) == k && class_key(#[trigger] cs[i2]) == k
            implies i == i2 by {
        if i < i2 {
            assert(class_key(cs[i]) != class_key(cs[i2]));
        } else if i2 < i {
            assert(class_key(cs[i2]) != class_key(cs[i]));
        }
    }
    assert forall|i: int| 0 <= i < cs.len() && class_key(#[trigger] cs[i]) == k implies {
        &&& (cs[i].0 is Some <==> has_kind(us, k, ContainerKind::Pak))
        &&& (cs[i].1 is Some <==> has_kind(us, k, ContainerKind::Utoc))
    } by {
        assert(cs[i] == expected_class(us, k));
        if has_kind(us, k, ContainerKind::Pak) {
            let w = choose|w: int| 0 <= w < us.len() && (#[trigger] us[w]).1 == ContainerKind::Pak && us[w].2 == k;
            assert(us[w].1 == ContainerKind::Pak && us[w].2 == k);
        }
        if has_kind(us, k, ContainerKind::Utoc) {
            let w = choose|w: int| 0 <= w < us.len() && (#[trigger] us[w]).1 == ContainerKind::Utoc && us[w].2 == k;
            assert(us[w].1 == ContainerKind::Utoc && us[w].2 == k);
        }
    }
}

} // verus!
