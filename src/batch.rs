//! Aggregation of per-bundle results: the bundle result map, the keys under
//! which results are stored, and the progress of a batch.

use vstd::prelude::*;
use crate::assets::{asset_views, sort_dedup, sorted_dedup};
use crate::error::UeToolError;
use crate::resolver::{class_key, BundleClassification, ClassView, ContainerKind, ContainerUnit};
use crate::text::str_eq;
use crate::types::AssetPath;

verus! {

/// Mapping from result key to a sorted, duplicate-free asset list.
#[derive(Debug)]
pub struct BundleResultMap {
    entries: Vec<(String, Vec<AssetPath>)>,
}

impl View for BundleResultMap {
    type V = Map<Seq<char>, Seq<Seq<char>>>;

    closed spec fn view(&self) -> Map<Seq<char>, Seq<Seq<char>>> {
        Map::new(
            |k: Seq<char>| exists|i: int| 0 <= i < self.entries@.len() && (#[trigger] self.entries@[i]).0@ == k,
            |k: Seq<char>|
                asset_views(
                    self.entries@[choose|i: int| 0 <= i < self.entries@.len() && (#[trigger] self.entries@[i]).0@ == k].1@,
                ),
        )
    }
}

impl BundleResultMap {
    /// Keys are stored once each.
    pub closed spec fn wf(&self) -> bool {
        forall|i: int, j: int|
            0 <= i < j < self.entries@.len() ==> (#[trigger] self.entries@[i]).0@ != (#[trigger] self.entries@[j]).0@
    }

    /// An empty map.
    pub fn new() -> (r: Self)
        ensures
            r.wf(),
            r@ == Map::<Seq<char>, Seq<Seq<char>>>::empty(),
    {
        let r = BundleResultMap { entries: Vec::new() };
        assert(r@ =~= Map::<Seq<char>, Seq<Seq<char>>>::empty());
        r
    }

    fn find(&self, key: &str) -> (r: Option<usize>)
        ensures
            match r {
                Some(j) => j < self.entries@.len() && self.entries@[j as int].0@ == key@,
                None => forall|j: int| 0 <= j < self.entries@.len() ==> (#[trigger] self.entries@[j]).0@ != key@,
            },
    {
        let mut j: usize = 0;
        while j < self.entries.len()
            invariant
                j <= self.entries@.len(),
                forall|i: int| 0 <= i < j ==> (#[trigger] self.entries@[i]).0@ != key@,
            decreases self.entries@.len() - j,
        {
            if str_eq(self.entries[j].0.as_str(), key) {
                return Some(j);
            }
            j = j + 1;
        }
        None
    }

    /// Stores under `key` the sorted, deduplicated form of `assets`,
    /// replacing what was stored there.
    pub fn insert(&mut self, key: String, assets: Vec<AssetPath>)
        requires
            old(self).wf(),
        ensures
            final(self).wf(),
            final(self)@ == old(self)@.insert(key@, sorted_dedup(asset_views(assets@))),
    {
        let sorted = sort_dedup(assets);
        let ghost before = self.entries@;
        let ghost m0 = self@;
        match self.find(key.as_str()) {
            Some(j) => {
                self.entries.set(j, (key, sorted));
                let ghost after = self.entries@;
                assert forall|i: int, i2: int| 0 <= i < i2 < after.len() implies (#[trigger] after[i]).0@ != (#[trigger] after[i2]).0@ by {
                    assert(before[i].0@ != before[i2].0@);
                }
                assert(self@ =~= m0.insert(after[j as int].0@, asset_views(after[j as int].1@))) by {
                    assert forall|k: Seq<char>| #[trigger] self@.contains_key(k) == m0.insert(after[j as int].0@, asset_views(after[j as int].1@)).contains_key(k) by {
                        if exists|i: int| 0 <= i < after.len() && (#[trigger] after[i]).0@ == k {
                            let i = choose|i: int| 0 <= i < after.len() && (#[trigger] after[i]).0@ == k;
                            if i != j {
                                assert(before[i].0@ == k);
                            }
                        }
                        if exists|i: int| 0 <= i < before.len() && (#[trigger] before[i]).0@ == k {
                            let i = choose|i: int| 0 <= i < before.len() && (#[trigger] before[i]).0@ == k;
                            if i != j {
                                assert(after[i].0@ == k);
                            }
                        }
                    }
                    assert forall|k: Seq<char>| #[trigger] self@.contains_key(k) implies self@[k] == m0.insert(after[j as int].0@, asset_views(after[j as int].1@))[k] by {
                        let i = choose|i: int| 0 <= i < after.len() && (#[trigger] after[i]).0@ == k;
                        if k != key@ {
                            assert(i != j);
                            assert(before[i].0@ == k);
                            let i0 = choose|i: int| 0 <= i < before.len() && (#[trigger] before[i]).0@ == k;
                            if i0 != i {
                                if i0 < i {
                                    assert(before[i0].0@ != before[i].0@);
                                } else {
                                    assert(before[i].0@ != before[i0].0@);
                                }
                            }
                        } else {
                            if i != j {
                                if i < j {
                                    assert(after[i].0@ != after[j as int].0@);
                                } else {
                                    assert(after[j as int].0@ != after[i].0@);
                                }
                            }
                        }
                    }
                }
            },
            None => {
                self.entries.push((key, sorted));
                let ghost after = self.entries@;
                let ghost n = before.len() as int;
                assert forall|i: int, i2: int| 0 <= i < i2 < after.len() implies (#[trigger] after[i]).0@ != (#[trigger] after[i2]).0@ by {
                    if i2 < n {
                        assert(before[i].0@ != before[i2].0@);
                    } else {
                        assert(after[i] == before[i]);
                    }
                }
                assert(self@ =~= m0.insert(after[n].0@, asset_views(after[n].1@))) by {
                    assert forall|k: Seq<char>| #[trigger] self@.contains_key(k) == m0.insert(after[n].0@, asset_views(after[n].1@)).contains_key(k) by {
                        if exists|i: int| 0 <= i < after.len() && (#[trigger] after[i]).0@ == k {
                            let i = choose|i: int| 0 <= i < after.len() && (#[trigger] after[i]).0@ == k;
                            if i != n {
                                assert(before[i].0@ == k);
                            }
                        }
                        if exists|i: int| 0 <= i < before.len() && (#[trigger] before[i]).0@ == k {
                            let i = choose|i: int| 0 <= i < before.len() && (#[trigger] before[i]).0@ == k;
                            assert(after[i].0@ == k);
                        }
                    }
                    assert forall|k: Seq<char>| #[trigger] self@.contains_key(k) implies self@[k] == m0.insert(after[n].0@, asset_views(after[n].1@))[k] by {
                        let i = choose|i: int| 0 <= i < after.len() && (#[trigger] after[i]).0@ == k;
                        if k != key@ {
                            assert(i != n);
                            assert(before[i].0@ == k);
                            let i0 = choose|i: int| 0 <= i < before.len() && (#[trigger] before[i]).0@ == k;
                            if i0 != i {
                                if i0 < i {
                                    assert(before[i0].0@ != before[i].0@);
                                } else {
                                    assert(before[i].0@ != before[i0].0@);
                                }
                            }
                        } else {
                            if i != n {
                                assert(after[i].0@ != after[n].0@);
                            }
                        }
                    }
                }
            },
        }
    }

    /// Records the outcome of one unit: a success is stored under `key`; a
    /// failure leaves the map as it was and is handed back as a warning.
    pub fn record(&mut self, key: String, outcome: core::result::Result<Vec<AssetPath>, UeToolError>) -> (warning: Option<UeToolError>)
        requires
            old(self).wf(),
        ensures
            final(self).wf(),
            match outcome {
                Ok(v) => final(self)@ == old(self)@.insert(key@, sorted_dedup(asset_views(v@))) && warning.is_none(),
                Err(e) => final(self)@ == old(self)@ && warning == Some(e),
            },
    {
        match outcome {
            Ok(v) => {
                self.insert(key, v);
                None
            },
            Err(e) => Some(e),
        }
    }

    /// The asset list stored under `key`, if any.
    pub fn get(&self, key: &str) -> (r: Option<&Vec<AssetPath>>)
        requires
            self.wf(),
        ensures
            match r {
                Some(v) => self@.contains_key(key@) && self@[key@] == asset_views(v@),
                None => !self@.contains_key(key@),
            },
    {
        match self.find(key) {
            Some(j) => {
                proof {
                    let es = self.entries@;
                    assert(es[j as int].0@ == key@);
                    let i = choose|i: int| 0 <= i < es.len() && (#[trigger] es[i]).0@ == key@;
                    if i != j {
                        if i < j {
                            assert(es[i].0@ != es[j as int].0@);
                        } else {
                            assert(es[j as int].0@ != es[i].0@);
                        }
                    }
                }
                Some(&self.entries[j].1)
            },
            None => None,
        }
    }

    /// Number of keys stored.
    pub fn len(&self) -> (r: usize)
        requires
            self.wf(),
        ensures
            r == self@.dom().len(),
    {
        proof {
            self.lemma_dom_len();
        }
        self.entries.len()
    }

    proof fn lemma_dom_len(&self)
        requires
            self.wf(),
        ensures
            self@.dom().len() == self.entries@.len(),
    {
        let ks = self.entries@.map_values(|e: (String, Vec<AssetPath>)| e.0@);
        assert(self@.dom() =~= ks.to_set()) by {
            assert forall|k: Seq<char>| #[trigger] self@.dom().contains(k) implies ks.to_set().contains(k) by {
                let i = choose|i: int| 0 <= i < self.entries@.len() && (#[trigger] self.entries@[i]).0@ == k;
                assert(ks[i] == k);
            }
            assert forall|k: Seq<char>| #[trigger] ks.to_set().contains(k) implies self@.dom().contains(k) by {
                let i = choose|i: int| 0 <= i < ks.len() && ks[i] == k;
                assert(self.entries@[i].0@ == k);
            }
        }
        assert(ks.no_duplicates()) by {
            assert forall|i: int, j: int| 0 <= i < ks.len() && 0 <= j < ks.len() && i != j implies ks[i] != ks[j] by {
                if i < j {
                    assert(self.entries@[i].0@ != self.entries@[j].0@);
                } else {
                    assert(self.entries@[j].0@ != self.entries@[i].0@);
                }
            }
        }
        ks.unique_seq_to_set();
    }

    /// The stored keys, each once.
    pub fn keys(&self) -> (r: Vec<String>)
        requires
            self.wf(),
        ensures
            r@.map_values(|k: String| k@).to_set() == self@.dom(),
            r@.len() == self@.dom().len(),
    {
        let mut r: Vec<String> = Vec::new();
        let mut i: usize = 0;
        while i < self.entries.len()
            invariant
                i <= self.entries@.len(),
                r@.len() == i,
                forall|j: int| 0 <= j < i ==> (#[trigger] r@[j])@ == self.entries@[j].0@,
            decreases self.entries@.len() - i,
        {
            r.push(self.entries[i].0.clone());
            i = i + 1;
        }
        proof {
            self.lemma_dom_len();
            let ks = r@.map_values(|k: String| k@);
            assert forall|k: Seq<char>| #[trigger] self@.dom().contains(k) implies ks.to_set().contains(k) by {
                let i = choose|i: int| 0 <= i < self.entries@.len() && (#[trigger] self.entries@[i]).0@ == k;
                assert(ks[i] == k);
            }
            assert forall|k: Seq<char>| #[trigger] ks.to_set().contains(k) implies self@.dom().contains(k) by {
                let i = choose|i: int| 0 <= i < ks.len() && ks[i] == k;
                assert(self.entries@[i].0@ == k);
            }
            assert(ks.to_set() =~= self@.dom());
        }
        r
    }
}

/// The outcome of one unit as plain values.
pub open spec fn outcome_view(o: core::result::Result<Vec<AssetPath>, UeToolError>) -> core::result::Result<Seq<Seq<char>>, UeToolError> {
    match o {
        Ok(v) => Ok(asset_views(v@)),
        Err(e) => Err(e),
    }
}

/// The result map that recording `outs` under `keys`, in order, builds from
/// an empty map.
pub open spec fn outcomes_map(keys: Seq<Seq<char>>, outs: Seq<core::result::Result<Seq<Seq<char>>, UeToolError>>) -> Map<Seq<char>, Seq<Seq<char>>>
    decreases outs.len(),
{
    if outs.len() == 0 {
        Map::empty()
    } else {
        let m = outcomes_map(keys, outs.drop_last());
        match outs.last() {
            Ok(v) => m.insert(keys[outs.len() - 1], sorted_dedup(v)),
            Err(_) => m,
        }
    }
}

/// The failures among `outs`, in order.
pub open spec fn outcome_errors(outs: Seq<core::result::Result<Seq<Seq<char>>, UeToolError>>) -> Seq<UeToolError>
    decreases outs.len(),
{
    if outs.len() == 0 {
        Seq::empty()
    } else {
        let es = outcome_errors(outs.drop_last());
        match outs.last() {
            Ok(_) => es,
            Err(e) => es.push(e),
        }
    }
}

/// Collects the outcomes of a batch: each success is stored under its key,
/// each failure is skipped and handed back as a warning, in order.
pub fn collect_outcomes(keys: Vec<String>, outcomes: Vec<core::result::Result<Vec<AssetPath>, UeToolError>>) -> (r: (BundleResultMap, Vec<UeToolError>))
    requires
        keys.len() == outcomes.len(),
    ensures
        r.0.wf(),
        r.0@ == outcomes_map(keys@.map_values(|k: String| k@), outcomes@.map_values(|o| outcome_view(o))),
        r.1@ == outcome_errors(outcomes@.map_values(|o| outcome_view(o))),
{
    let ghost ks = keys@.map_values(|k: String| k@);
    let ghost os = outcomes@.map_values(|o| outcome_view(o));
    let mut map = BundleResultMap::new();
    let mut warnings: Vec<UeToolError> = Vec::new();
    let mut rest_keys = keys;
    let mut rest = outcomes;
    let n = rest.len();
    let mut i: usize = 0;
    assert(os.subrange(0, 0) =~= Seq::<core::result::Result<Seq<Seq<char>>, UeToolError>>::empty());
    while i < n
        invariant
            i <= n,
            n == os.len(),
            ks.len() == os.len(),
            rest.len() == n - i,
            rest_keys.len() == n - i,
            forall|j: int| 0 <= j < n - i ==> outcome_view(#[trigger] rest@[j]) == os[i + j],
            forall|j: int| 0 <= j < n - i ==> (#[trigger] rest_keys@[j])@ == ks[i + j],
            map.wf(),
            map@ == outcomes_map(ks, os.subrange(0, i as int)),
            warnings@ == outcome_errors(os.subrange(0, i as int)),
        decreases n - i,
    {
        let ghost sub = os.subrange(0, i + 1);
        assert(sub.drop_last() =~= os.subrange(0, i as int));
        let ghost rest0 = rest@;
        let ghost keys0 = rest_keys@;
        let o = rest.remove(0);
        let k = rest_keys.remove(0);
        assert(outcome_view(o) == os[i as int]);
        assert(k@ == ks[i as int]);
        assert forall|j: int| 0 <= j < n - (i + 1) implies outcome_view(#[trigger] rest@[j]) == os[i + 1 + j] by {
            assert(rest@[j] == rest0[j + 1]);
        }
        assert forall|j: int| 0 <= j < n - (i + 1) implies (#[trigger] rest_keys@[j])@ == ks[i + 1 + j] by {
            assert(rest_keys@[j] == keys0[j + 1]);
        }
        match o {
            Ok(v) => {
                map.insert(k, v);
            },
            Err(e) => {
                let ghost w0 = warnings@;
                warnings.push(e);
            },
        }
        i = i + 1;
    }
    assert(os.subrange(0, n as int) =~= os);
    (map, warnings)
}

/// A bundle's result is kept under a recorded entry exactly when some unit
/// of the batch with that key succeeded: failures add no entry and take
/// none away.
pub proof fn lemma_batch_keeps_successes(
    keys: Seq<Seq<char>>,
    outs: Seq<core::result::Result<Seq<Seq<char>>, UeToolError>>,
    k: Seq<char>,
)
    requires
        outs.len() <= keys.len(),
    ensures
        outcomes_map(keys, outs).contains_key(k)
            <==> exists|i: int| 0 <= i < outs.len() && keys[i] == k && (#[trigger] outs[i]) is Ok,
    decreases outs.len(),
{
    if outs.len() > 0 {
        let o0 = outs.drop_last();
        lemma_batch_keeps_successes(keys, o0, k);
        let n = outs.len() - 1;
        if exists|i: int| 0 <= i < o0.len() && keys[i] == k && (#[trigger] o0[i]) is Ok {
            let i = choose|i: int| 0 <= i < o0.len() && keys[i] == k && (#[trigger] o0[i]) is Ok;
            assert(outs[i] == o0[i]);
        }
        if exists|i: int| 0 <= i < outs.len() && keys[i] == k && (#[trigger] outs[i]) is Ok {
            let i = choose|i: int| 0 <= i < outs.len() && keys[i] == k && (#[trigger] outs[i]) is Ok;
            if i < n {
                assert(o0[i] == outs[i]);
            }
        }
    }
}

/// Result key of a classification: its bundle key with `.pak` for a solo
/// `.pak`, and with `.utoc` for a bundle read through its `.utoc`.
pub open spec fn result_key_of(c: ClassView) -> Seq<char> {
    if c.1 is Some {
        class_key(c) + ".utoc"@
    } else {
        class_key(c) + ".pak"@
    }
}

/// The key under which the result of `c` is stored.
pub fn result_key(c: &BundleClassification) -> (r: String)
    ensures
        r@ == result_key_of(c@),
{
    let k = String::from_str(c.key());
    match c {
        BundleClassification::SoloPak(_) => k.concat(".pak"),
        _ => k.concat(".utoc"),
    }
}

/// Result key of a single container: its stem with its kind's extension.
pub open spec fn unit_key_of(kind: ContainerKind, stem: Seq<char>) -> Seq<char> {
    match kind {
        ContainerKind::Pak => stem + ".pak"@,
        ContainerKind::Utoc => stem + ".utoc"@,
    }
}

/// The key under which the result of one container of an explicit file list
/// is stored.
pub fn unit_result_key(u: &ContainerUnit) -> (r: String)
    ensures
        r@ == unit_key_of(u.kind, u.bundle_key@),
{
    let k = u.bundle_key.clone();
    match u.kind {
        ContainerKind::Pak => k.concat(".pak"),
        ContainerKind::Utoc => k.concat(".utoc"),
    }
}

/// `processed / total * 100`, rounded to the nearest integer (halves up).
pub open spec fn rounded_percent(processed: int, total: int) -> int {
    (200 * processed + total) / (2 * total)
}

/// The percentage that a batch reports once `processed` of its `total`
/// units are done.
pub fn batch_percentage(processed: u64, total: u64) -> (r: u8)
    requires
        0 < total,
        processed <= total,
    ensures
        r as int == rounded_percent(processed as int, total as int),
        r <= 100,
{
    let p = processed as u128;
    let t = total as u128;
    let q = (200 * p + t) / (2 * t);
    assert(q <= 100) by (nonlinear_arith)
        requires
            q == (200 * p + t) / (2 * t),
            p <= t,
            0 < t,
    {
        assert(200 * p + t <= 201 * t);
        assert((200 * p + t) / (2 * t) <= (201 * t) / (2 * t));
        assert((201 * t) / (2 * t) <= 100);
    }
    q as u8
}

} // verus!
