//! Listing of IoStore (`.utoc`) containers from the chunk records that a
//! reader reports.

use vstd::prelude::*;
use crate::assets::{asset_views, chunk_assets, chunk_views, is_asset_path, sorted_dedup, strictly_sorted, utoc_asset_list};
use crate::text::{decimal, decimal_of};
use crate::types::{AssetPath, CompressionMethod, FileEntry, ProgressInfo};

verus! {

/// A chunk record of an IoStore container.
#[derive(Debug, Clone)]
pub struct UtocChunkInfo {
    pub id: String,
    /// Interior path, for chunks that carry one.
    pub path: Option<String>,
    pub size: u64,
    pub compressed_size: u64,
    pub offset: u64,
    pub chunk_type: String,
    pub is_compressed: bool,
    pub compression_method: Option<CompressionMethod>,
}

/// Facts about an IoStore container.
#[derive(Debug, Clone)]
pub struct UtocMetadata {
    pub version: u32,
    pub container_id: String,
    pub file_count: u32,
    pub chunk_count: u32,
    pub compression_methods: Vec<String>,
    pub container_flags: u32,
}

/// Everything a detailed listing reports.
#[derive(Debug, Clone)]
pub struct UtocFileInfo {
    pub metadata: UtocMetadata,
    /// Sorted, duplicate-free asset paths.
    pub assets: Vec<AssetPath>,
    /// One entry per chunk whose path names an asset, in chunk order.
    pub file_entries: Vec<FileEntry>,
}

/// The optional interior paths of chunk records.
pub open spec fn info_paths(cs: Seq<UtocChunkInfo>) -> Seq<Option<String>> {
    cs.map_values(|c: UtocChunkInfo| c.path)
}

/// Whether a chunk record carries a path that names an asset.
pub open spec fn is_asset_chunk(c: UtocChunkInfo) -> bool {
    c.path matches Some(p) && is_asset_path(p@)
}

/// The chunk records of `cs` that carry an asset path, in order.
pub open spec fn asset_chunks(cs: Seq<UtocChunkInfo>) -> Seq<UtocChunkInfo>
    decreases cs.len(),
{
    if cs.len() == 0 {
        Seq::empty()
    } else if is_asset_chunk(cs.last()) {
        asset_chunks(cs.drop_last()).push(cs.last())
    } else {
        asset_chunks(cs.drop_last())
    }
}

/// Whether file entry `e` describes chunk record `c`: its path, size and
/// compression as the record gives them.
pub open spec fn entry_describes(e: FileEntry, c: UtocChunkInfo) -> bool {
    &&& c.path matches Some(p) && e.path@ == p@
    &&& e.size == c.size
    &&& e.is_compressed == c.is_compressed
    &&& e.compression == c.compression_method
}

/// Percentage reported once `processed` of `total` chunks are examined: the
/// per-chunk phase runs from 60 to 95.
pub open spec fn chunk_percent(processed: int, total: int) -> int {
    60 + (processed * 35) / total
}

/// Lists IoStore containers, reporting progress to an optional event log.
pub struct UtocLister {
    /// Progress events so far, when progress is followed.
    pub progress_callback: Option<Vec<ProgressInfo>>,
}

/// The per-chunk percentage once `processed` of `total` chunks are examined.
pub fn chunk_percentage(processed: u64, total: u64) -> (r: u8)
    requires
        0 < total,
        processed <= total,
    ensures
        r as int == chunk_percent(processed as int, total as int),
        60 <= r <= 95,
{
    let p = processed as u128;
    let t = total as u128;
    let q = p * 35 / t;
    assert(q <= 35) by (nonlinear_arith)
        requires
            q == (p as int) * 35 / (t as int),
            p <= t,
            0 < t,
    {
        assert((p as int) * 35 <= (t as int) * 35);
        assert((p as int) * 35 / (t as int) <= (t as int) * 35 / (t as int));
    }
    (60 + q) as u8
}

/// The interior paths of chunk records, in order.
pub fn chunk_paths(chunks: &Vec<UtocChunkInfo>) -> (r: Vec<Option<String>>)
    ensures
        chunk_views(r@) == chunk_views(info_paths(chunks@)),
{
    let mut r: Vec<Option<String>> = Vec::new();
    let mut i: usize = 0;
    while i < chunks.len()
        invariant
            i <= chunks.len(),
            chunk_views(r@) == chunk_views(info_paths(chunks@)).subrange(0, i as int),
        decreases chunks.len() - i,
    {
        let ghost before = chunk_views(r@);
        let p = match &chunks[i].path {
            Some(s) => Some(s.clone()),
            None => None,
        };
        let ghost pv = match &p {
            Some(s) => Some(s@),
            None => None::<Seq<char>>,
        };
        assert(chunk_views(info_paths(chunks@))[i as int] == pv);
        r.push(p);
        assert(chunk_views(r@) =~= before.push(pv));
        assert(chunk_views(r@) =~= chunk_views(info_paths(chunks@)).subrange(0, i + 1));
        i = i + 1;
    }
    assert(chunk_views(info_paths(chunks@)).subrange(0, chunks.len() as int) =~= chunk_views(info_paths(chunks@)));
    r
}

impl UtocLister {
    /// A lister that follows no progress.
    pub fn new() -> (r: Self)
        ensures
            r.progress_callback.is_none(),
    {
        UtocLister { progress_callback: None }
    }

    /// The same lister, recording progress events after those in `log`.
    pub fn with_progress_callback(self, log: Vec<ProgressInfo>) -> (r: Self)
        ensures
            r.progress_callback == Some(log),
    {
        UtocLister { progress_callback: Some(log) }
    }

    /// Whether progress events are being recorded.
    pub fn has_progress_callback(&self) -> (r: bool)
        ensures
            r == self.progress_callback is Some,
    {
        self.progress_callback.is_some()
    }

    /// Records `progress` when progress is followed.
    pub fn report_progress(&mut self, progress: ProgressInfo)
        ensures
            match old(self).progress_callback {
                Some(l) => final(self).progress_callback matches Some(m) && m@ == l@.push(progress),
                None => final(self).progress_callback is None,
            },
    {
        match &mut self.progress_callback {
            Some(log) => log.push(progress),
            None => {},
        }
    }

    /// Whether an interior path names an asset.
    pub fn is_asset_file(&self, path: &str) -> (r: bool)
        ensures
            r == is_asset_path(path@),
    {
        crate::assets::is_asset_file(path)
    }

    /// The asset list of a container whose chunk records carry these interior
    /// paths: the asset paths among them, sorted and deduplicated. One
    /// progress event is recorded per chunk, and a last one at 100%.
    pub fn list(&mut self, chunk_paths: &Vec<Option<String>>) -> (r: Vec<AssetPath>)
        requires
            chunk_paths.len() < u64::MAX,
        ensures
            asset_views(r@) == sorted_dedup(chunk_assets(chunk_views(chunk_paths@))),
            strictly_sorted(asset_views(r@)),
            match old(self).progress_callback {
                Some(l) => final(self).progress_callback matches Some(m) && m@.len() == l@.len() + 4 + chunk_paths@.len() + 1
                    && m@.subrange(0, l@.len() as int) == l@
                    && m@[l@.len() as int].percentage == 0 && m@[l@.len() as int].processed == 0
                    && m@[l@.len() as int].message@ == "Opening UTOC file"@
                    && m@[l@.len() as int + 1].percentage == 10 && m@[l@.len() as int + 1].processed == 0
                    && m@[l@.len() as int + 2].percentage == 30 && m@[l@.len() as int + 2].processed == 0
                    && m@[l@.len() as int + 3].percentage == 60 && m@[l@.len() as int + 3].processed == 0
                    && m@[l@.len() as int + 3].total == chunk_paths@.len()
                    && m@[l@.len() as int + 3].message@ == "Found "@ + decimal_of(chunk_paths@.len() as nat) + " chunks"@
                    && m@.last().percentage == 100
                    && m@.last().processed == chunk_paths@.len() && m@.last().total == chunk_paths@.len()
                    && m@.last().message@ == "Completed - found "@ + decimal_of(r@.len() as nat) + " assets"@
                    && forall|i: int| 0 <= i < chunk_paths@.len() ==> {
                        &&& (#[trigger] m@[l@.len() + 4 + i]).processed == i + 1
                        &&& m@[l@.len() + 4 + i].total == chunk_paths@.len()
                        &&& m@[l@.len() + 4 + i].percentage == chunk_percent(i + 1, chunk_paths@.len() as int)
                    },
                None => final(self).progress_callback is None,
            },
    {
        let n = chunk_paths.len();
        let ghost log_before = self.progress_callback;
        self.report_opening(n as u64);
        let ghost log0 = self.progress_callback;
        let mut k: usize = 0;
        while k < n
            invariant
                k <= n,
                n == chunk_paths@.len(),
                n < u64::MAX,
                match log0 {
                    Some(l) => self.progress_callback matches Some(m) && m@.len() == l@.len() + k
                        && m@.subrange(0, l@.len() as int) == l@
                        && forall|i: int| 0 <= i < k ==> {
                            &&& (#[trigger] m@[l@.len() + i]).processed == i + 1
                            &&& m@[l@.len() + i].total == n
                            &&& m@[l@.len() + i].percentage == chunk_percent(i + 1, n as int)
                        },
                    None => self.progress_callback is None,
                },
            decreases n - k,
        {
            let ev = ProgressInfo {
                percentage: chunk_percentage((k + 1) as u64, n as u64),
                message: String::from_str("Processing chunk ").concat(decimal((k + 1) as u64).as_str()),
                processed: (k + 1) as u64,
                total: n as u64,
            };
            let ghost before = self.progress_callback;
            self.report_progress(ev);
            proof {
                if let Some(l) = log0 {
                    let m0 = before.unwrap()@;
                    let m = self.progress_callback.unwrap()@;
                    assert(m.subrange(0, l@.len() as int) =~= m0.subrange(0, l@.len() as int));
                    assert forall|i: int| 0 <= i < k + 1 implies {
                        &&& (#[trigger] m[l@.len() + i]).processed == i + 1
                        &&& m[l@.len() + i].total == n
                        &&& m[l@.len() + i].percentage == chunk_percent(i + 1, n as int)
                    } by {
                        if i < k {
                            assert(m[l@.len() + i] == m0[l@.len() + i]);
                        }
                    }
                }
            }
            k = k + 1;
        }
        let assets = utoc_asset_list(chunk_paths);
        let done = ProgressInfo {
            percentage: 100,
            message: String::from_str("Completed - found ").concat(decimal(assets.len() as u64).as_str()).concat(" assets"),
            processed: n as u64,
            total: n as u64,
        };
        let ghost before = self.progress_callback;
        self.report_progress(done);
        proof {
            if let Some(l) = log0 {
                let m0 = before.unwrap()@;
                let m = self.progress_callback.unwrap()@;
                assert(m.subrange(0, l@.len() as int) =~= m0.subrange(0, l@.len() as int));
                assert forall|i: int| 0 <= i < n implies {
                    &&& (#[trigger] m[l@.len() + i]).processed == i + 1
                    &&& m[l@.len() + i].total == n
                    &&& m[l@.len() + i].percentage == chunk_percent(i + 1, n as int)
                } by {
                    assert(m[l@.len() + i] == m0[l@.len() + i]);
                }
            }
        }
        proof {
            if let Some(l) = log_before {
                let m1 = log0.unwrap()@;
                let m = self.progress_callback.unwrap()@;
                let b = l@.len() as int;
                assert(m.subrange(0, m1.len() as int) == m1);
                assert(m[b] == m1[b]);
                assert(m[b + 1] == m1[b + 1]);
                assert(m[b + 2] == m1[b + 2]);
                assert(m[b + 3] == m1[b + 3]);
                assert(m.subrange(0, b) =~= m1.subrange(0, b));
                assert forall|i: int| 0 <= i < n implies {
                    &&& (#[trigger] m[b + 4 + i]).processed == i + 1
                    &&& m[b + 4 + i].total == n
                    &&& m[b + 4 + i].percentage == chunk_percent(i + 1, n as int)
                } by {
                    assert(m[m1.len() + i] == m[b + 4 + i]);
                }
            }
        }
        assets
    }

    /// Records the events of opening a container and reading its chunk
    /// records, of which there are `n`.
    fn report_opening(&mut self, n: u64)
        ensures
            match old(self).progress_callback {
                Some(l) => final(self).progress_callback matches Some(m) && m@.len() == l@.len() + 4
                    && m@.subrange(0, l@.len() as int) == l@
                    && m@[l@.len() as int].percentage == 0 && m@[l@.len() as int].processed == 0
                    && m@[l@.len() as int].message@ == "Opening UTOC file"@
                    && m@[l@.len() as int + 1].percentage == 10 && m@[l@.len() as int + 1].processed == 0
                    && m@[l@.len() as int + 2].percentage == 30 && m@[l@.len() as int + 2].processed == 0
                    && m@[l@.len() as int + 3].percentage == 60 && m@[l@.len() as int + 3].processed == 0
                    && m@[l@.len() as int + 3].total == n
                    && m@[l@.len() as int + 3].message@ == "Found "@ + decimal_of(n as nat) + " chunks"@,
                None => final(self).progress_callback is None,
            },
    {
        let e0 = ProgressInfo { percentage: 0, message: String::from_str("Opening UTOC file"), processed: 0, total: 1 };
        let e1 = ProgressInfo { percentage: 10, message: String::from_str("Parsing UTOC structure"), processed: 0, total: 1 };
        let e2 = ProgressInfo { percentage: 30, message: String::from_str("Extracting file listing"), processed: 0, total: 1 };
        let e3 = ProgressInfo {
            percentage: 60,
            message: String::from_str("Found ").concat(decimal(n).as_str()).concat(" chunks"),
            processed: 0,
            total: n,
        };
        let ghost l0 = self.progress_callback;
        self.report_progress(e0);
        self.report_progress(e1);
        self.report_progress(e2);
        self.report_progress(e3);
        proof {
            if let Some(l) = l0 {
                let m = self.progress_callback.unwrap()@;
                assert(m == l@.push(e0).push(e1).push(e2).push(e3));
                assert(m.subrange(0, l@.len() as int) =~= l@);
            }
        }
    }

    /// The detailed listing of a container with format version `version`,
    /// name `container_name` and these chunk records: metadata, the sorted,
    /// deduplicated asset paths, and a file entry for each chunk whose path
    /// names an asset, with the size and compression its record gives.
    pub fn list_detailed(&self, chunks: &Vec<UtocChunkInfo>, version: u32, container_name: String) -> (r: UtocFileInfo)
        requires
            chunks.len() <= u32::MAX,
        ensures
            r.metadata.version == version,
            r.metadata.container_id == container_name,
            r.metadata.file_count == chunks.len(),
            r.metadata.chunk_count == chunks.len(),
            r.metadata.compression_methods@.len() == 0,
            r.metadata.container_flags == 0,
            asset_views(r.assets@) == sorted_dedup(chunk_assets(chunk_views(info_paths(chunks@)))),
            strictly_sorted(asset_views(r.assets@)),
            r.file_entries@.len() == asset_chunks(chunks@).len(),
            forall|i: int| 0 <= i < r.file_entries@.len() ==> entry_describes(#[trigger] r.file_entries@[i], asset_chunks(chunks@)[i]),
    {
        let paths = chunk_paths(chunks);
        let assets = utoc_asset_list(&paths);
        let ghost cs = chunks@;
        let mut entries: Vec<FileEntry> = Vec::new();
        let mut i: usize = 0;
        while i < chunks.len()
            invariant
                i <= chunks.len(),
                cs == chunks@,
                entries@.len() == asset_chunks(cs.subrange(0, i as int)).len(),
                forall|j: int| 0 <= j < entries@.len() ==> entry_describes(#[trigger] entries@[j], asset_chunks(cs.subrange(0, i as int))[j]),
            decreases chunks.len() - i,
        {
            assert(cs.subrange(0, i + 1).drop_last() =~= cs.subrange(0, i as int));
            assert(cs.subrange(0, i + 1).last() == cs[i as int]);
            let c = &chunks[i];
            match &c.path {
                Some(p) => {
                    if crate::assets::is_asset_file(p.as_str()) {
                        let e = FileEntry {
                            path: AssetPath::new(p.clone()),
                            size: c.size,
                            is_compressed: c.is_compressed,
                            compression: c.compression_method,
                        };
                        entries.push(e);
                    }
                },
                None => {},
            }
            i = i + 1;
        }
        assert(cs.subrange(0, chunks.len() as int) =~= cs);
        let metadata = UtocMetadata {
            version,
            container_id: container_name,
            file_count: chunks.len() as u32,
            chunk_count: chunks.len() as u32,
            compression_methods: Vec::new(),
            container_flags: 0,
        };
        UtocFileInfo { metadata, assets, file_entries: entries }
    }
}

impl Default for UtocLister {
    fn default() -> (r: Self)
        ensures
            r.progress_callback.is_none(),
    {
        UtocLister::new()
    }
}

} // verus!
