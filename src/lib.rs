//! Resolution and listing of asset bundles held in game-archive containers:
//! legacy single-file `.pak` containers and split `.utoc`/`.ucas` IoStore
//! containers. The container readers themselves are collaborators outside this
//! crate; the library decides which container is authoritative for each bundle,
//! filters, orders and deduplicates the asset paths they report, plans where
//! extracted files go, and aggregates per-bundle results.

pub mod aes_key;
pub mod archive;
pub mod assets;
pub mod batch;
pub mod engine;
pub mod error;
pub mod normalize;
pub mod pak_unpack;
pub mod resolver;
pub mod text;
pub mod types;
pub mod utoc_list;

pub use error::{Result, UeToolError};
pub use pak_unpack::PakUnpacker;
pub use types::{AssetPath, CompressionMethod, PakUnpackOptions, UtocListOptions};
pub use utoc_list::UtocLister;

use vstd::prelude::*;

verus! {

/// Entry point holding a `.pak` unpacker and a `.utoc` lister.
pub struct Unpacker {
    pub pak_unpacker: PakUnpacker,
    pub utoc_lister: UtocLister,
}

impl Unpacker {
    /// An unpacker and a lister, neither following progress.
    pub fn new() -> (r: Self)
        ensures
            r.pak_unpacker.progress_callback.is_none(),
            r.utoc_lister.progress_callback.is_none(),
    {
        Unpacker { pak_unpacker: PakUnpacker::new(), utoc_lister: UtocLister::new() }
    }
}

impl Default for Unpacker {
    fn default() -> (r: Self)
        ensures
            r.pak_unpacker.progress_callback.is_none(),
            r.utoc_lister.progress_callback.is_none(),
    {
        Unpacker::new()
    }
}

} // verus!
