//! Per-bundle extraction decisions, including the fallback from an IoStore
//! container that yields no assets to the `.pak` of the same bundle.
//!
//! Reading containers is left to the caller: the engine says which container
//! to read next, and is handed what the reader returned.

use vstd::prelude::*;
use crate::assets::{asset_views, chunk_assets, chunk_views, sorted_dedup, utoc_asset_list};
use crate::error::UeToolError;
use crate::resolver::{BundleClassification, ClassView};
use crate::types::AssetPath;

verus! {

/// What extracting one bundle needs next.
#[derive(Debug)]
pub enum ExtractStep {
    /// List the full interior paths of the `.pak` container at this path.
    ListPak(String),
    /// List the chunk records of the `.utoc` container at this path.
    ListUtoc(String),
    /// Extraction is over, with this asset list or this error.
    Done(core::result::Result<Vec<AssetPath>, UeToolError>),
}

/// An extraction step as plain values.
pub enum StepView {
    ListPak(Seq<char>),
    ListUtoc(Seq<char>),
    Done(core::result::Result<Seq<Seq<char>>, UeToolError>),
}

impl View for ExtractStep {
    type V = StepView;

    open spec fn view(&self) -> StepView {
        match self {
            ExtractStep::ListPak(p) => StepView::ListPak(p@),
            ExtractStep::ListUtoc(p) => StepView::ListUtoc(p@),
            ExtractStep::Done(Ok(v)) => StepView::Done(Ok(asset_views(v@))),
            ExtractStep::Done(Err(e)) => StepView::Done(Err(*e)),
        }
    }
}

/// The first step for a classification: a solo `.pak` is listed directly;
/// a solo `.utoc` and a pair are read through the `.utoc`.
pub open spec fn first_step(c: ClassView) -> StepView {
    match c.1 {
        Some(u) => StepView::ListUtoc(u.0),
        None => match c.0 {
            Some(p) => StepView::ListPak(p.0),
            None => StepView::Done(Ok(Seq::empty())),
        },
    }
}

/// The step after the `.utoc` of `c` reported chunk records with these
/// interior paths: the sorted, deduplicated asset paths when there are any;
/// otherwise the `.pak` of a pair is listed, and a solo `.utoc` has no assets.
pub open spec fn utoc_step(c: ClassView, chunks: Seq<Option<Seq<char>>>) -> StepView {
    let assets = sorted_dedup(chunk_assets(chunks));
    if assets.len() > 0 {
        StepView::Done(Ok(assets))
    } else {
        match c.0 {
            Some(p) => StepView::ListPak(p.0),
            None => StepView::Done(Ok(Seq::empty())),
        }
    }
}

/// The step after a `.pak` reported its full interior listing: that listing,
/// unfiltered and in the order given.
pub open spec fn pak_step(listing: Seq<Seq<char>>) -> StepView {
    StepView::Done(Ok(listing))
}

/// The string views of a sequence of strings.
pub open spec fn string_views(v: Seq<String>) -> Seq<Seq<char>> {
    v.map_values(|s: String| s@)
}

/// The first step of extracting the bundle `c`.
pub fn start_extraction(c: &BundleClassification) -> (r: ExtractStep)
    ensures
        r@ == first_step(c@),
{
    match c {
        BundleClassification::SoloPak(p) => ExtractStep::ListPak(p.path.clone()),
        BundleClassification::SoloUtoc(u) => ExtractStep::ListUtoc(u.path.clone()),
        BundleClassification::BundlePair { pak, utoc } => ExtractStep::ListUtoc(utoc.path.clone()),
    }
}

/// The step after listing the `.utoc` of `c`; a reader's error ends the
/// extraction with that error.
pub fn after_utoc_listing(
    c: &BundleClassification,
    listing: core::result::Result<Vec<Option<String>>, UeToolError>,
) -> (r: ExtractStep)
    ensures
        match listing {
            Ok(chunks) => r@ == utoc_step(c@, chunk_views(chunks@)),
            Err(e) => r@ == StepView::Done(Err(e)),
        },
{
    match listing {
        Err(e) => ExtractStep::Done(Err(e)),
        Ok(chunks) => {
            let assets = utoc_asset_list(&chunks);
            if assets.len() > 0 {
                ExtractStep::Done(Ok(assets))
            } else {
                match c {
                    BundleClassification::BundlePair { pak, utoc } => ExtractStep::ListPak(pak.path.clone()),
                    BundleClassification::SoloPak(p) => ExtractStep::ListPak(p.path.clone()),
                    BundleClassification::SoloUtoc(u) => {
                        let empty: Vec<AssetPath> = Vec::new();
                        assert(asset_views(empty@) =~= Seq::<Seq<char>>::empty());
                        ExtractStep::Done(Ok(empty))
                    },
                }
            }
        },
    }
}

/// The given interior paths as asset paths, in order.
pub fn to_asset_paths(paths: Vec<String>) -> (r: Vec<AssetPath>)
    ensures
        asset_views(r@) == string_views(paths@),
{
    let mut r: Vec<AssetPath> = Vec::new();
    let mut i: usize = 0;
    while i < paths.len()
        invariant
            i <= paths.len(),
            asset_views(r@) == string_views(paths@).subrange(0, i as int),
        decreases paths.len() - i,
    {
        let ghost before = asset_views(r@);
        let a = AssetPath::new(paths[i].clone());
        r.push(a);
        assert(asset_views(r@) =~= before.push(a@));
        assert(string_views(paths@).subrange(0, i + 1) =~= string_views(paths@).subrange(0, i as int).push(paths@[i as int]@));
        i = i + 1;
    }
    assert(string_views(paths@).subrange(0, paths.len() as int) =~= string_views(paths@));
    r
}

/// The step after listing a `.pak`; a reader's error ends the extraction with
/// that error.
pub fn after_pak_listing(listing: core::result::Result<Vec<String>, UeToolError>) -> (r: ExtractStep)
    ensures
        match listing {
            Ok(paths) => r@ == pak_step(string_views(paths@)),
            Err(e) => r@ == StepView::Done(Err(e)),
        },
{
    match listing {
        Err(e) => ExtractStep::Done(Err(e)),
        Ok(paths) => ExtractStep::Done(Ok(to_asset_paths(paths))),
    }
}

/// For a pair whose `.utoc` yields at least one asset, the result is the
/// sorted, deduplicated `.utoc` asset list, and the `.pak` is never read.
pub proof fn lemma_pair_prefers_utoc(c: ClassView, chunks: Seq<Option<Seq<char>>>)
    requires
        c.0 is Some,
        c.1 is Some,
        chunk_assets(chunks).len() >= 1,
    ensures
        first_step(c) == StepView::ListUtoc(c.1.unwrap().0),
        utoc_step(c, chunks) == StepView::Done(Ok(sorted_dedup(chunk_assets(chunks)))),
{
    crate::assets::lemma_sorted_dedup_exists(chunk_assets(chunks));
    crate::assets::lemma_sorted_dedup_empty(chunk_assets(chunks), sorted_dedup(chunk_assets(chunks)));
}

/// For a pair whose `.utoc` yields no asset, the `.pak` is listed next, and
/// whatever listing it gives, possibly empty, is the result, with no error.
pub proof fn lemma_pair_falls_back_to_pak(c: ClassView, chunks: Seq<Option<Seq<char>>>, listing: Seq<Seq<char>>)
    requires
        c.0 is Some,
        c.1 is Some,
        chunk_assets(chunks).len() == 0,
    ensures
        utoc_step(c, chunks) == StepView::ListPak(c.0.unwrap().0),
        pak_step(listing) == StepView::Done(Ok(listing)),
{
    crate::assets::lemma_sorted_dedup_exists(chunk_assets(chunks));
    crate::assets::lemma_sorted_dedup_empty(chunk_assets(chunks), sorted_dedup(chunk_assets(chunks)));
}

} // verus!
