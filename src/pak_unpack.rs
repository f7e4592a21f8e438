//! Unpacking of `.pak` containers: where each interior file is written, which
//! files the include patterns select, and the progress reported on the way.
//!
//! Reading the container and writing files is left to the caller, which
//! hands over the container's interior listing.

use vstd::prelude::*;
use crate::assets::asset_views;
use crate::engine::{string_views, to_asset_paths};
use crate::text::{chars_of, decimal, decimal_of, is_sep, str_starts_with};
use crate::types::{AssetPath, PakUnpackOptions, ProgressInfo};

verus! {

/// Whether glob pattern `pattern` matches `path`; a pattern that does not
/// compile matches nothing.
pub uninterp spec fn glob_match(pattern: Seq<char>, path: Seq<char>) -> bool;

/// Relies on `glob::Pattern::new` and `glob::Pattern::matches` with default
/// options; an invalid pattern is taken to match nothing.
#[verifier::external_body]
fn glob_matches(pattern: &str, path: &str) -> (r: bool)
    ensures
        r == glob_match(pattern@, path@),
{
    match glob::Pattern::new(pattern) {
        Ok(p) => p.matches(path),
        Err(_) => false,
    }
}

/// `p` without `prefix`, when `prefix` is not empty and begins `p`.
pub open spec fn stripped(p: Seq<char>, prefix: Seq<char>) -> Seq<char> {
    if prefix.len() > 0 && prefix.len() <= p.len() && p.subrange(0, prefix.len() as int) == prefix {
        p.subrange(prefix.len() as int, p.len() as int)
    } else {
        p
    }
}

/// `rel` placed under directory `dir`: a rooted `rel` stands alone, an empty
/// `dir` adds nothing, and otherwise one `/` separates the two.
pub open spec fn join_path(dir: Seq<char>, rel: Seq<char>) -> Seq<char> {
    if rel.len() > 0 && rel[0] == '/' {
        rel
    } else if dir.len() == 0 {
        rel
    } else if is_sep(dir.last()) {
        dir + rel
    } else {
        dir + "/"@ + rel
    }
}

/// Where interior path `p` is written under `dir` once `prefix` is stripped.
pub open spec fn output_path_of(dir: Seq<char>, p: Seq<char>, prefix: Seq<char>) -> Seq<char> {
    join_path(dir, stripped(p, prefix))
}

/// Whether interior path `p` is extracted under include patterns `pats`:
/// always when there are none, else when one of them matches.
pub open spec fn selected(pats: Seq<Seq<char>>, p: Seq<char>) -> bool {
    pats.len() == 0 || exists|i: int| 0 <= i < pats.len() && glob_match(#[trigger] pats[i], p)
}

/// The interior paths of `files` that `pats` select, in order.
pub open spec fn selected_files(pats: Seq<Seq<char>>, files: Seq<Seq<char>>) -> Seq<Seq<char>>
    decreases files.len(),
{
    if files.len() == 0 {
        Seq::empty()
    } else if selected(pats, files.last()) {
        selected_files(pats, files.drop_last()).push(files.last())
    } else {
        selected_files(pats, files.drop_last())
    }
}

/// Whether a planned file is written: always where nothing is at its output
/// path, and over an existing file only when forced.
pub fn should_write(present: bool, force: bool) -> (r: bool)
    ensures
        r == (!present || force),
{
    !present || force
}

/// With no include patterns, every file is selected.
pub proof fn lemma_select_all(pats: Seq<Seq<char>>, files: Seq<Seq<char>>)
    requires
        pats.len() == 0,
    ensures
        selected_files(pats, files) == files,
    decreases files.len(),
{
    if files.len() > 0 {
        lemma_select_all(pats, files.drop_last());
        assert(files.drop_last().push(files.last()) =~= files);
    }
}

/// Percentage reported once `processed` of `total` files are unpacked: the
/// per-file phase runs from 30 to 100.
pub open spec fn unpack_percent(processed: int, total: int) -> int {
    30 + (processed * 70) / total
}

/// A file to take out of a container, and where it goes.
#[derive(Debug, Clone)]
pub struct PlannedFile {
    /// Interior path in the container.
    pub original_path: AssetPath,
    /// Where it is written.
    pub output_path: String,
}

/// What a `.pak` container holds, by its interior listing.
#[derive(Debug, Clone)]
pub struct PakListingInfo {
    /// Where the container is.
    pub file_path: String,
    /// How many files it holds.
    pub file_count: usize,
    /// Their interior paths, in listing order.
    pub file_names: Vec<String>,
}

/// Unpacks `.pak` containers, reporting progress to an optional event log.
pub struct PakUnpacker {
    /// Progress events so far, when progress is followed.
    pub progress_callback: Option<Vec<ProgressInfo>>,
}

/// `p` without `prefix`, when `prefix` is not empty and begins `p`.
pub fn strip_path_prefix(p: &str, prefix: &str) -> (r: String)
    ensures
        r@ == stripped(p@, prefix@),
{
    let n = chars_of(p).len();
    let k = chars_of(prefix).len();
    if k > 0 && str_starts_with(p, prefix) {
        String::from_str(p.substring_char(k, n))
    } else {
        String::from_str(p)
    }
}

/// `rel` placed under directory `dir`.
pub fn join_output_path(dir: &str, rel: &str) -> (r: String)
    ensures
        r@ == join_path(dir@, rel@),
{
    let d = chars_of(dir);
    let e = chars_of(rel);
    if e.len() > 0 && e[0] == '/' {
        String::from_str(rel)
    } else if d.len() == 0 {
        String::from_str(rel)
    } else if d[d.len() - 1] == '/' || d[d.len() - 1] == '\\' {
        String::from_str(dir).concat(rel)
    } else {
        String::from_str(dir).concat("/").concat(rel)
    }
}

/// Whether the include patterns select interior path `p`.
pub fn is_selected(patterns: &Vec<String>, p: &str) -> (r: bool)
    ensures
        r == selected(string_views(patterns@), p@),
{
    let ghost pats = string_views(patterns@);
    if patterns.len() == 0 {
        return true;
    }
    let mut i: usize = 0;
    while i < patterns.len()
        invariant
            i <= patterns.len(),
            pats == string_views(patterns@),
            forall|j: int| 0 <= j < i ==> !glob_match(#[trigger] pats[j], p@),
        decreases patterns.len() - i,
    {
        if glob_matches(patterns[i].as_str(), p) {
            assert(glob_match(pats[i as int], p@));
            return true;
        }
        i = i + 1;
    }
    false
}

/// The per-file percentage once `processed` of `total` files are unpacked.
pub fn unpack_percentage(processed: u64, total: u64) -> (r: u8)
    requires
        0 < total,
        processed <= total,
    ensures
        r as int == unpack_percent(processed as int, total as int),
        30 <= r <= 100,
{
    let p = processed as u128;
    let t = total as u128;
    let q = p * 70 / t;
    assert(q <= 70) by (nonlinear_arith)
        requires
            q == (p as int) * 70 / (t as int),
            p <= t,
            0 < t,
    {
        assert((p as int) * 70 <= (t as int) * 70);
        assert((p as int) * 70 / (t as int) <= (t as int) * 70 / (t as int));
    }
    (30 + q) as u8
}

impl PakUnpacker {
    /// An unpacker that follows no progress.
    pub fn new() -> (r: Self)
        ensures
            r.progress_callback.is_none(),
    {
        PakUnpacker { progress_callback: None }
    }

    /// The same unpacker, recording progress events after those in `log`.
    pub fn with_progress_callback(self, log: Vec<ProgressInfo>) -> (r: Self)
        ensures
            r.progress_callback == Some(log),
    {
        PakUnpacker { progress_callback: Some(log) }
    }

    /// Records `progress` when progress is followed.
    pub fn report_progress(&mut self, progress: ProgressInfo)
        ensures
            match old(self).progress_callback {
                Some(l) => final(self).progress_callback matches Some(m) && m@ == l@.push(progress),
                None => final(self).progress_callback is None,
            },
    {
        match &mut self.progress_callback {
            Some(log) => log.push(progress),
            None => {},
        }
    }

    /// The interior listing of a container as asset paths, unfiltered and in
    /// the order given.
    pub fn list_files(&self, listing: Vec<String>) -> (r: Vec<AssetPath>)
        ensures
            asset_views(r@) == string_views(listing@),
    {
        to_asset_paths(listing)
    }

    /// What the container at `pak_path`, whose interior listing is `listing`,
    /// holds.
    pub fn get_info(&self, pak_path: String, listing: Vec<String>) -> (r: PakListingInfo)
        ensures
            r.file_path == pak_path,
            r.file_count == listing@.len(),
            r.file_names == listing,
    {
        let n = listing.len();
        PakListingInfo { file_path: pak_path, file_count: n, file_names: listing }
    }

    /// Plans the unpacking of a container whose interior listing is `files`
    /// into `output_dir`: each file that the include patterns select, in
    /// order, with its output path once the strip prefix is removed. One
    /// progress event is recorded per planned file, and a last one at 100%.
    pub fn plan_unpack(&mut self, files: &Vec<String>, output_dir: &str, options: &PakUnpackOptions) -> (r: Vec<PlannedFile>)
        requires
            files.len() < u64::MAX,
        ensures
            r@.len() == selected_files(string_views(options.include_patterns@), string_views(files@)).len(),
            forall|i: int| 0 <= i < r@.len() ==> {
                &&& (#[trigger] r@[i]).original_path@ == selected_files(string_views(options.include_patterns@), string_views(files@))[i]
                &&& r@[i].output_path@ == output_path_of(output_dir@, r@[i].original_path@, options.strip_prefix@)
            },
            options.include_patterns@.len() == 0 ==> r@.len() == files@.len(),
            match old(self).progress_callback {
                Some(l) => final(self).progress_callback matches Some(m) && m@.len() == l@.len() + 3 + r@.len() + 1
                    && m@.subrange(0, l@.len() as int) == l@
                    && m@[l@.len() as int].percentage == 0 && m@[l@.len() as int].processed == 0
                    && m@[l@.len() as int].message@ == "Opening PAK file"@
                    && m@[l@.len() as int + 1].percentage == 20 && m@[l@.len() as int + 1].processed == 0
                    && m@[l@.len() as int + 1].message@ == "Reading file list"@
                    && m@[l@.len() as int + 2].percentage == 30 && m@[l@.len() as int + 2].processed == 0
                    && m@[l@.len() as int + 2].total == r@.len()
                    && m@[l@.len() as int + 2].message@ == "Found "@ + decimal_of(r@.len() as nat) + " files to unpack"@
                    && m@.last().percentage == 100
                    && m@.last().processed == r@.len() && m@.last().total == r@.len()
                    && m@.last().message@ == "Completed - unpacked "@ + decimal_of(r@.len() as nat) + " files"@
                    && forall|i: int| 0 <= i < r@.len() ==> {
                        &&& (#[trigger] m@[l@.len() + 3 + i]).processed == i + 1
                        &&& m@[l@.len() + 3 + i].total == r@.len()
                        &&& m@[l@.len() + 3 + i].percentage == unpack_percent(i + 1, r@.len() as int)
                        &&& m@[l@.len() + 3 + i].message@ == "Unpacking: "@ + r@[i].original_path@
                    },
                None => final(self).progress_callback is None,
            },
    {
        let ghost pats = string_views(options.include_patterns@);
        let ghost fs = string_views(files@);
        let mut plan: Vec<PlannedFile> = Vec::new();
        let mut i: usize = 0;
        while i < files.len()
            invariant
                i <= files.len(),
                pats == string_views(options.include_patterns@),
                fs == string_views(files@),
                plan@.len() == selected_files(pats, fs.subrange(0, i as int)).len(),
                forall|j: int| 0 <= j < plan@.len() ==> {
                    &&& (#[trigger] plan@[j]).original_path@ == selected_files(pats, fs.subrange(0, i as int))[j]
                    &&& plan@[j].output_path@ == output_path_of(output_dir@, plan@[j].original_path@, options.strip_prefix@)
                },
                plan@.len() <= i,
            decreases files.len() - i,
        {
            assert(fs.subrange(0, i + 1).drop_last() =~= fs.subrange(0, i as int));
            assert(fs.subrange(0, i + 1).last() == files@[i as int]@);
            let p = &files[i];
            if is_selected(&options.include_patterns, p.as_str()) {
                let rel = strip_path_prefix(p.as_str(), options.strip_prefix.as_str());
                let out = join_output_path(output_dir, rel.as_str());
                plan.push(PlannedFile { original_path: AssetPath::new(p.clone()), output_path: out });
            }
            i = i + 1;
        }
        assert(fs.subrange(0, files.len() as int) =~= fs);
        proof {
            if pats.len() == 0 {
                lemma_select_all(pats, fs);
            }
        }
        let n = plan.len();
        let ghost log_before = self.progress_callback;
        self.report_opening(n as u64);
        let ghost log0 = self.progress_callback;
        let mut k: usize = 0;
        while k < n
            invariant
                k <= n,
                n == plan@.len(),
                n < u64::MAX,
                match log0 {
                    Some(l) => self.progress_callback matches Some(m) && m@.len() == l@.len() + k
                        && m@.subrange(0, l@.len() as int) == l@
                        && forall|i: int| 0 <= i < k ==> {
                            &&& (#[trigger] m@[l@.len() + i]).processed == i + 1
                            &&& m@[l@.len() + i].total == n
                            &&& m@[l@.len() + i].percentage == unpack_percent(i + 1, n as int)
                            &&& m@[l@.len() + i].message@ == "Unpacking: "@ + plan@[i].original_path@
                        },
                    None => self.progress_callback is None,
                },
            decreases n - k,
        {
            let ev = ProgressInfo {
                percentage: unpack_percentage((k + 1) as u64, n as u64),
                message: String::from_str("Unpacking: ").concat(plan[k].original_path.as_str()),
                processed: (k + 1) as u64,
                total: n as u64,
            };
            let ghost before = self.progress_callback;
            self.report_progress(ev);
            proof {
                if let Some(l) = log0 {
                    let m0 = before.unwrap()@;
                    let m = self.progress_callback.unwrap()@;
                    assert(m == m0.push(ev));
                    assert(m.subrange(0, l@.len() as int) =~= m0.subrange(0, l@.len() as int));
                    assert forall|i: int| 0 <= i < k + 1 implies {
                        &&& (#[trigger] m[l@.len() + i]).processed == i + 1
                        &&& m[l@.len() + i].total == n
                        &&& m[l@.len() + i].percentage == unpack_percent(i + 1, n as int)
                        &&& m[l@.len() + i].message@ == "Unpacking: "@ + plan@[i].original_path@
                    } by {
                        if i < k {
                            assert(m[l@.len() + i] == m0[l@.len() + i]);
                        }
                    }
                }
            }
            k = k + 1;
        }
        let done = ProgressInfo {
            percentage: 100,
            message: String::from_str("Completed - unpacked ").concat(decimal(n as u64).as_str()).concat(" files"),
            processed: n as u64,
            total: n as u64,
        };
        let ghost before = self.progress_callback;
        self.report_progress(done);
        proof {
            if let Some(l) = log0 {
                let m0 = before.unwrap()@;
                let m = self.progress_callback.unwrap()@;
                assert(m == m0.push(done));
                assert(m.subrange(0, l@.len() as int) =~= m0.subrange(0, l@.len() as int));
                assert forall|i: int| 0 <= i < n implies {
                    &&& (#[trigger] m[l@.len() + i]).processed == i + 1
                    &&& m[l@.len() + i].total == n
                    &&& m[l@.len() + i].percentage == unpack_percent(i + 1, n as int)
                    &&& m[l@.len() + i].message@ == "Unpacking: "@ + plan@[i].original_path@
                } by {
                    assert(m[l@.len() + i] == m0[l@.len() + i]);
                }
            }
        }
        proof {
            if let Some(l) = log_before {
                let m1 = log0.unwrap()@;
                let m = self.progress_callback.unwrap()@;
                let b = l@.len() as int;
                assert(m.subrange(0, m1.len() as int) == m1);
                assert(m[b] == m1[b]);
                assert(m[b + 1] == m1[b + 1]);
                assert(m[b + 2] == m1[b + 2]);
                assert(m.subrange(0, b) =~= m1.subrange(0, b));
                assert forall|i: int| 0 <= i < n implies {
                    &&& (#[trigger] m[b + 3 + i]).processed == i + 1
                    &&& m[b + 3 + i].total == n
                    &&& m[b + 3 + i].percentage == unpack_percent(i + 1, n as int)
                    &&& m[b + 3 + i].message@ == "Unpacking: "@ + plan@[i].original_path@
                } by {
                    assert(m[m1.len() + i] == m[b + 3 + i]);
                }
            }
        }
        plan
    }

    /// Records the events of opening a container and reading its listing,
    /// which names `n` files to unpack.
    fn report_opening(&mut self, n: u64)
        ensures
            match old(self).progress_callback {
                Some(l) => final(self).progress_callback matches Some(m) && m@.len() == l@.len() + 3
                    && m@.subrange(0, l@.len() as int) == l@
                    && m@[l@.len() as int].percentage == 0 && m@[l@.len() as int].processed == 0
                    && m@[l@.len() as int].message@ == "Opening PAK file"@
                    && m@[l@.len() as int + 1].percentage == 20 && m@[l@.len() as int + 1].processed == 0
                    && m@[l@.len() as int + 1].message@ == "Reading file list"@
                    && m@[l@.len() as int + 2].percentage == 30 && m@[l@.len() as int + 2].processed == 0
                    && m@[l@.len() as int + 2].total == n
                    && m@[l@.len() as int + 2].message@ == "Found "@ + decimal_of(n as nat) + " files to unpack"@,
                None => final(self).progress_callback is None,
            },
    {
        let e0 = ProgressInfo { percentage: 0, message: String::from_str("Opening PAK file"), processed: 0, total: 1 };
        let e1 = ProgressInfo { percentage: 20, message: String::from_str("Reading file list"), processed: 0, total: 1 };
        let e2 = ProgressInfo {
            percentage: 30,
            message: String::from_str("Found ").concat(decimal(n).as_str()).concat(" files to unpack"),
            processed: 0,
            total: n,
        };
        let ghost l0 = self.progress_callback;
        self.report_progress(e0);
        self.report_progress(e1);
        self.report_progress(e2);
        proof {
            if let Some(l) = l0 {
                let m = self.progress_callback.unwrap()@;
                assert(m == l@.push(e0).push(e1).push(e2));
                assert(m.subrange(0, l@.len() as int) =~= l@);
            }
        }
    }
}

impl Default for PakUnpacker {
    fn default() -> (r: Self)
        ensures
            r.progress_callback.is_none(),
    {
        PakUnpacker::new()
    }
}

} // verus!
