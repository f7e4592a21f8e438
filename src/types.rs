//! Common types: asset paths, compression methods, options and records.

use vstd::prelude::*;
use crate::text::{
    chars_of, ext_dot, extension_of, file_name_of, file_name_start, last_index_from, last_sep, is_sep, lower_of, lowercase, str_eq, str_starts_with,
};

verus! {

/// Whether `s` ends with `suffix`.
pub open spec fn ends_with_spec(s: Seq<char>, suffix: Seq<char>) -> bool {
    suffix.len() <= s.len() && s.subrange(s.len() - suffix.len(), s.len() as int) == suffix
}

/// Whether every character of `s` is a separator (so `s` is empty or a bare root).
pub open spec fn only_separators(s: Seq<char>) -> bool {
    forall|i: int| 0 <= i < s.len() ==> is_sep(#[trigger] s[i])
}

/// Parent of a path: everything before its last separator. A path whose last
/// separator opens it has that separator as parent (`/a` gives `/`); a path
/// with no separator has the empty parent (`a` gives ``). The empty path and
/// a bare root (`/`, `//`), after which no segment follows, have none.
/// A trailing separator ends an empty final segment, so `a/` gives `a`.
pub open spec fn parent_of(s: Seq<char>) -> Option<Seq<char>> {
    let k = last_sep(s);
    if only_separators(s) {
        None
    } else if k > 0 {
        Some(s.subrange(0, k))
    } else if k == 0 {
        Some(s.subrange(0, 1))
    } else {
        Some(Seq::<char>::empty())
    }
}

/// An interior asset path such as `/Game/Characters/Hero/Hero.uasset`.
/// Equality and ordering are those of the underlying string.
#[derive(Debug, Clone, PartialEq, Eq, Hash, PartialOrd, Ord)]
pub struct AssetPath(pub String);

impl View for AssetPath {
    type V = Seq<char>;

    open spec fn view(&self) -> Seq<char> {
        self.0@
    }
}

impl AssetPath {
    /// An asset path holding `path`.
    pub fn new(path: String) -> (r: Self)
        ensures
            r@ == path@,
    {
        AssetPath(path)
    }

    /// A copy of this path.
    pub fn clone_path(&self) -> (r: AssetPath)
        ensures
            r@ == self@,
    {
        AssetPath(self.0.clone())
    }

    /// The path as a string slice.
    pub fn as_str(&self) -> (r: &str)
        ensures
            r@ == self@,
    {
        self.0.as_str()
    }

    /// The path as an owned string.
    pub fn to_string(&self) -> (r: String)
        ensures
            r@ == self@,
    {
        self.0.clone()
    }

    /// Whether the path ends with `.` followed by `ext`.
    pub fn has_extension(&self, ext: &str) -> (r: bool)
        ensures
            r == ends_with_spec(self@, seq!['.'] + ext@),
    {
        let s = chars_of(self.0.as_str());
        let e = chars_of(ext);
        let ghost suffix = seq!['.'] + ext@;
        if e.len() >= s.len() {
            return false;
        }
        let start: usize = s.len() - e.len() - 1;
        if s[start] != '.' {
            assert(self@.subrange(self@.len() - suffix.len(), self@.len() as int)[0] != suffix[0]);
            return false;
        }
        let mut i: usize = 0;
        while i < e.len()
            invariant
                s@ == self@,
                e@ == ext@,
                start + 1 + e.len() == s.len(),
                i <= e.len(),
                forall|j: int| 0 <= j < i ==> s@[start + 1 + j] == e@[j],
                suffix == seq!['.'] + ext@,
                s@[start as int] == '.',
            decreases e.len() - i,
        {
            if s[start + 1 + i] != e[i] {
                assert(suffix[i + 1] == e@[i as int]);
                assert(self@.subrange(self@.len() - suffix.len(), self@.len() as int)[i + 1] != suffix[i + 1]);
                return false;
            }
            i = i + 1;
        }
        assert forall|j: int| 0 <= j < suffix.len() implies
            self@.subrange(self@.len() - suffix.len(), self@.len() as int)[j] == suffix[j] by {
            if j > 0 {
                assert(suffix[j] == e@[j - 1]);
            }
        }
        assert(self@.subrange(self@.len() - suffix.len(), self@.len() as int) =~= suffix);
        true
    }

    /// The extension: what follows the last dot of the file name, unless that
    /// dot opens the name.
    pub fn extension(&self) -> (r: Option<&str>)
        ensures
            match r {
                Some(e) => extension_of(self@) == Some(e@),
                None => extension_of(self@).is_none(),
            },
    {
        let s = chars_of(self.0.as_str());
        let start = file_name_start(&s);
        let ghost name = file_name_of(self@);
        match last_index_from(&s, start, '.') {
            Some(d) => {
                assert(s@.subrange(start as int, s.len() as int) =~= name);
                if d > start {
                    let e = self.0.as_str().substring_char(d + 1, s.len());
                    assert(e@ =~= name.subrange(ext_dot(name) + 1, name.len() as int));
                    Some(e)
                } else {
                    None
                }
            },
            None => {
                assert(s@.subrange(start as int, s.len() as int) =~= name);
                None
            },
        }
    }

    /// The file name: the final segment, when it is not empty. A path that
    /// ends with a separator has an empty final segment, so no file name.
    pub fn file_name(&self) -> (r: Option<&str>)
        ensures
            match r {
                Some(n) => n@ == file_name_of(self@) && n@.len() > 0,
                None => file_name_of(self@).len() == 0,
            },
    {
        let s = chars_of(self.0.as_str());
        let start = file_name_start(&s);
        if start == s.len() {
            None
        } else {
            Some(self.0.as_str().substring_char(start, s.len()))
        }
    }

    /// The parent directory path.
    pub fn parent(&self) -> (r: Option<AssetPath>)
        ensures
            match r {
                Some(p) => parent_of(self@) == Some(p@),
                None => parent_of(self@).is_none(),
            },
    {
        let s = chars_of(self.0.as_str());
        let mut i: usize = 0;
        while i < s.len() && (s[i] == '/' || s[i] == '\\')
            invariant
                i <= s.len(),
                s@ == self@,
                forall|j: int| 0 <= j < i ==> is_sep(#[trigger] s@[j]),
            decreases s.len() - i,
        {
            i = i + 1;
        }
        if i == s.len() {
            return None;
        }
        assert(!is_sep(s@[i as int]));
        let start = file_name_start(&s);
        if start > 1 {
            Some(AssetPath(String::from_str(self.0.as_str().substring_char(0, start - 1))))
        } else if start == 1 {
            Some(AssetPath(String::from_str(self.0.as_str().substring_char(0, 1))))
        } else {
            Some(AssetPath(String::new()))
        }
    }

    /// Whether the path begins with `prefix`.
    pub fn starts_with(&self, prefix: &str) -> (r: bool)
        ensures
            r == (prefix@.len() <= self@.len() && self@.subrange(0, prefix@.len() as int) == prefix@),
    {
        str_starts_with(self.0.as_str(), prefix)
    }
}

/// Supported compression methods.
#[derive(Debug, Clone, Copy, PartialEq, Eq)]
pub enum CompressionMethod {
    Uncompressed,
    Zlib,
    Gzip,
    Oodle,
    Zstd,
    Lz4,
}

/// The method that a lower-cased name stands for, if any.
pub open spec fn compression_of_lower(l: Seq<char>) -> Option<CompressionMethod> {
    if l == "none"@ || l == "no"@ || l == "uncompressed"@ {
        Some(CompressionMethod::Uncompressed)
    } else if l == "zlib"@ || l == "deflate"@ {
        Some(CompressionMethod::Zlib)
    } else if l == "gzip"@ {
        Some(CompressionMethod::Gzip)
    } else if l == "oodle"@ || l == "oodle2"@ {
        Some(CompressionMethod::Oodle)
    } else if l == "zstd"@ || l == "zstandard"@ {
        Some(CompressionMethod::Zstd)
    } else if l == "lz4"@ {
        Some(CompressionMethod::Lz4)
    } else {
        None
    }
}

impl CompressionMethod {
    /// The method named by an already lower-cased name.
    pub fn from_lowercase(l: &str) -> (r: Option<CompressionMethod>)
        ensures
            r == compression_of_lower(l@),
    {
        if str_eq(l, "none") || str_eq(l, "no") || str_eq(l, "uncompressed") {
            Some(CompressionMethod::Uncompressed)
        } else if str_eq(l, "zlib") || str_eq(l, "deflate") {
            Some(CompressionMethod::Zlib)
        } else if str_eq(l, "gzip") {
            Some(CompressionMethod::Gzip)
        } else if str_eq(l, "oodle") || str_eq(l, "oodle2") {
            Some(CompressionMethod::Oodle)
        } else if str_eq(l, "zstd") || str_eq(l, "zstandard") {
            Some(CompressionMethod::Zstd)
        } else if str_eq(l, "lz4") {
            Some(CompressionMethod::Lz4)
        } else {
            None
        }
    }

    /// Parses a method name, ignoring case; an unknown name is reported with
    /// a message that quotes it.
    pub fn parse(s: &str) -> (r: core::result::Result<CompressionMethod, String>)
        ensures
            match r {
                Ok(m) => compression_of_lower(lower_of(s@)) == Some(m),
                Err(msg) => compression_of_lower(lower_of(s@)).is_none()
                    && msg@ == "Unknown compression method: "@ + s@,
            },
    {
        let l = lowercase(s);
        match CompressionMethod::from_lowercase(l.as_str()) {
            Some(m) => Ok(m),
            None => Err(String::from_str("Unknown compression method: ").concat(s)),
        }
    }

    /// The method's display name.
    pub fn name(&self) -> (r: &'static str)
        ensures
            r@ == compression_name(*self),
    {
        match self {
            CompressionMethod::Uncompressed => "None",
            CompressionMethod::Zlib => "Zlib",
            CompressionMethod::Gzip => "Gzip",
            CompressionMethod::Oodle => "Oodle",
            CompressionMethod::Zstd => "Zstd",
            CompressionMethod::Lz4 => "Lz4",
        }
    }
}

/// Display name of a method.
pub open spec fn compression_name(m: CompressionMethod) -> Seq<char> {
    match m {
        CompressionMethod::Uncompressed => "None"@,
        CompressionMethod::Zlib => "Zlib"@,
        CompressionMethod::Gzip => "Gzip"@,
        CompressionMethod::Oodle => "Oodle"@,
        CompressionMethod::Zstd => "Zstd"@,
        CompressionMethod::Lz4 => "Lz4"@,
    }
}

impl Default for CompressionMethod {
    fn default() -> (r: Self)
        ensures
            r == CompressionMethod::Oodle,
    {
        CompressionMethod::Oodle
    }
}

/// Options for unpacking `.pak` containers.
#[derive(Debug, Clone)]
pub struct PakUnpackOptions {
    /// Decryption key for encrypted containers.
    pub aes_key: Option<String>,
    /// Prefix removed from interior paths when they are written out.
    pub strip_prefix: String,
    /// Overwrite files that exist already.
    pub force: bool,
    /// Leave out per-file narration.
    pub quiet: bool,
    /// Glob patterns; when there are any, only interior paths that match one
    /// of them are extracted.
    pub include_patterns: Vec<String>,
}

impl PakUnpackOptions {
    /// Options with the default values: no key, prefix `../../../`, no force,
    /// not quiet, no patterns.
    pub fn new() -> (r: Self)
        ensures
            r.aes_key.is_none(),
            r.strip_prefix@ == "../../../"@,
            !r.force,
            !r.quiet,
            r.include_patterns@.len() == 0,
    {
        PakUnpackOptions {
            aes_key: None,
            strip_prefix: String::from_str("../../../"),
            force: false,
            quiet: false,
            include_patterns: Vec::new(),
        }
    }

    /// The same options with decryption key `key`.
    pub fn with_aes_key(self, key: String) -> (r: Self)
        ensures
            r.aes_key == Some(key),
            r.strip_prefix == self.strip_prefix,
            r.force == self.force,
            r.quiet == self.quiet,
            r.include_patterns == self.include_patterns,
    {
        PakUnpackOptions { aes_key: Some(key), ..self }
    }

    /// The same options with strip prefix `prefix`.
    pub fn with_strip_prefix(self, prefix: String) -> (r: Self)
        ensures
            r.aes_key == self.aes_key,
            r.strip_prefix == prefix,
            r.force == self.force,
            r.quiet == self.quiet,
            r.include_patterns == self.include_patterns,
    {
        PakUnpackOptions { strip_prefix: prefix, ..self }
    }

    /// The same options with the force flag set to `force`.
    pub fn with_force(self, force: bool) -> (r: Self)
        ensures
            r.aes_key == self.aes_key,
            r.strip_prefix == self.strip_prefix,
            r.force == force,
            r.quiet == self.quiet,
            r.include_patterns == self.include_patterns,
    {
        PakUnpackOptions { force, ..self }
    }

    /// The same options with the quiet flag set to `quiet`.
    pub fn with_quiet(self, quiet: bool) -> (r: Self)
        ensures
            r.aes_key == self.aes_key,
            r.strip_prefix == self.strip_prefix,
            r.force == self.force,
            r.quiet == quiet,
            r.include_patterns == self.include_patterns,
    {
        PakUnpackOptions { quiet, ..self }
    }

    /// The same options with include patterns `patterns`.
    pub fn with_include_patterns(self, patterns: Vec<String>) -> (r: Self)
        ensures
            r.aes_key == self.aes_key,
            r.strip_prefix == self.strip_prefix,
            r.force == self.force,
            r.quiet == self.quiet,
            r.include_patterns == patterns,
    {
        PakUnpackOptions { include_patterns: patterns, ..self }
    }
}

impl Default for PakUnpackOptions {
    fn default() -> (r: Self)
        ensures
            r.aes_key.is_none(),
            r.strip_prefix@ == "../../../"@,
            !r.force,
            !r.quiet,
            r.include_patterns@.len() == 0,
    {
        PakUnpackOptions::new()
    }
}

/// Options for listing `.utoc` containers.
#[derive(Debug, Clone)]
pub struct UtocListOptions {
    /// Decryption key for encrypted containers.
    pub aes_key: Option<String>,
    /// Whether output is meant for JSON.
    pub json_format: bool,
}

impl UtocListOptions {
    /// Options with no key and plain output.
    pub fn new() -> (r: Self)
        ensures
            r.aes_key.is_none(),
            !r.json_format,
    {
        UtocListOptions { aes_key: None, json_format: false }
    }

    /// The same options with decryption key `key`.
    pub fn with_aes_key(self, key: String) -> (r: Self)
        ensures
            r.aes_key == Some(key),
            r.json_format == self.json_format,
    {
        UtocListOptions { aes_key: Some(key), ..self }
    }

    /// The same options with JSON output set to `json`.
    pub fn with_json_format(self, json: bool) -> (r: Self)
        ensures
            r.aes_key == self.aes_key,
            r.json_format == json,
    {
        UtocListOptions { json_format: json, ..self }
    }
}

impl Default for UtocListOptions {
    fn default() -> (r: Self)
        ensures
            r.aes_key.is_none(),
            !r.json_format,
    {
        UtocListOptions::new()
    }
}

/// A file held in a container.
#[derive(Debug, Clone)]
pub struct FileEntry {
    /// Interior path.
    pub path: AssetPath,
    /// Size in bytes.
    pub size: u64,
    /// Whether it is stored compressed.
    pub is_compressed: bool,
    /// How it is compressed, if it is.
    pub compression: Option<CompressionMethod>,
}

/// A file taken out of a container.
#[derive(Debug, Clone)]
pub struct UnpackedFile {
    /// Interior path in the container.
    pub original_path: AssetPath,
    /// Where it is written.
    pub output_path: String,
    /// Size in bytes.
    pub size: u64,
    /// What went wrong with it, if anything.
    pub error: Option<String>,
}

/// Progress of a long operation.
#[derive(Debug, Clone)]
pub struct ProgressInfo {
    /// Advisory percentage, 0 to 100.
    pub percentage: u8,
    /// What is being done.
    pub message: String,
    /// Items processed so far.
    pub processed: u64,
    /// Items to process.
    pub total: u64,
}

/// Facts about a `.pak` container.
#[derive(Debug, Clone)]
pub struct PakFileInfo {
    /// Where the container is.
    pub file_path: String,
    /// Its size in bytes.
    pub file_size: u64,
    /// How many files it holds.
    pub file_count: usize,
    /// Uncompressed size of all its files.
    pub total_uncompressed_size: u64,
    /// Format version.
    pub version: String,
    /// Whether it is encrypted.
    pub is_encrypted: bool,
}

/// Library-wide configuration.
#[derive(Debug, Clone)]
pub struct UeToolsConfig {
    /// Key used when options name none.
    pub default_aes_key: Option<String>,
    /// Whether to process in parallel.
    pub use_parallel: bool,
    /// Number of worker threads (0 lets the pool decide).
    pub worker_threads: usize,
}

impl UeToolsConfig {
    /// The default configuration: no key, parallel, thread count left open.
    pub fn new() -> (r: Self)
        ensures
            r.default_aes_key.is_none(),
            r.use_parallel,
            r.worker_threads == 0,
    {
        UeToolsConfig { default_aes_key: None, use_parallel: true, worker_threads: 0 }
    }

    /// The same configuration with default key `key`.
    pub fn with_default_aes_key(self, key: String) -> (r: Self)
        ensures
            r.default_aes_key == Some(key),
            r.use_parallel == self.use_parallel,
            r.worker_threads == self.worker_threads,
    {
        UeToolsConfig { default_aes_key: Some(key), ..self }
    }

    /// The same configuration with parallel processing set to `parallel`.
    pub fn with_parallel_processing(self, parallel: bool) -> (r: Self)
        ensures
            r.default_aes_key == self.default_aes_key,
            r.use_parallel == parallel,
            r.worker_threads == self.worker_threads,
    {
        UeToolsConfig { use_parallel: parallel, ..self }
    }

    /// The same configuration with `threads` worker threads.
    pub fn with_worker_threads(self, threads: usize) -> (r: Self)
        ensures
            r.default_aes_key == self.default_aes_key,
            r.use_parallel == self.use_parallel,
            r.worker_threads == threads,
    {
        UeToolsConfig { worker_threads: threads, ..self }
    }
}

impl Default for UeToolsConfig {
    fn default() -> (r: Self)
        ensures
            r.default_aes_key.is_none(),
            r.use_parallel,
            r.worker_threads == 0,
    {
        UeToolsConfig::new()
    }
}

} // verus!
