//! Archive staging decisions: which archive format a file is, where to look
//! for an external RAR tool, and how to invoke it.

use vstd::prelude::*;
use crate::error::UeToolError;
use crate::text::{eq_ignore_ascii_case, eq_ignore_ascii_case_spec, extension_of};
use crate::types::AssetPath;

verus! {

/// Archive formats that can be staged.
#[derive(Debug, Clone, Copy, PartialEq, Eq)]
pub enum ArchiveType {
    Zip,
    Rar,
}

/// The archive format that a file's extension names, ignoring ASCII case.
pub open spec fn archive_type_of(p: Seq<char>) -> Option<ArchiveType> {
    match extension_of(p) {
        Some(e) => if eq_ignore_ascii_case_spec(e, "zip"@) {
            Some(ArchiveType::Zip)
        } else if eq_ignore_ascii_case_spec(e, "rar"@) {
            Some(ArchiveType::Rar)
        } else {
            None
        },
        None => None,
    }
}

/// The extension of `p`, or nothing when it has none.
pub open spec fn extension_or_empty(p: Seq<char>) -> Seq<char> {
    match extension_of(p) {
        Some(e) => e,
        None => Seq::empty(),
    }
}

/// The archive format of the file at `path`, judged by its extension alone;
/// any other extension is an `InvalidFormat` error naming it.
pub fn detect_archive_type(path: &str) -> (r: Result<ArchiveType, UeToolError>)
    ensures
        match archive_type_of(path@) {
            Some(t) => r == Ok::<ArchiveType, UeToolError>(t),
            None => r matches Err(UeToolError::InvalidFormat(m))
                && m@ == "Unsupported archive type: "@ + extension_or_empty(path@),
        },
{
    let a = AssetPath::new(String::from_str(path));
    match a.extension() {
        Some(e) => {
            if eq_ignore_ascii_case(e, "zip") {
                Ok(ArchiveType::Zip)
            } else if eq_ignore_ascii_case(e, "rar") {
                Ok(ArchiveType::Rar)
            } else {
                Err(UeToolError::InvalidFormat(String::from_str("Unsupported archive type: ").concat(e)))
            }
        },
        None => {
            let r = String::from_str("Unsupported archive type: ");
            assert(r@ + Seq::<char>::empty() =~= r@);
            Err(UeToolError::InvalidFormat(r))
        },
    }
}

/// Well-known install locations of the RAR tool, in the order they are tried.
pub open spec fn well_known_rar_paths() -> Seq<Seq<char>> {
    seq![
        "C:\\Program Files\\WinRAR\\rar.exe"@,
        "C:\\Program Files (x86)\\WinRAR\\rar.exe"@,
        "C:\\WinRAR\\rar.exe"@
    ]
}

/// Places to look for the RAR tool, in order: the location that the
/// environment override names, if any, then the well-known install
/// locations. The first that exists is used; when none does, the tool is
/// looked up on the search path.
pub fn rar_tool_candidates(env_override: Option<String>) -> (r: Vec<String>)
    ensures
        r@.map_values(|s: String| s@) == match env_override {
            Some(e) => seq![e@] + well_known_rar_paths(),
            None => well_known_rar_paths(),
        },
{
    let ghost env = match &env_override {
        Some(e) => Some(e@),
        None => None::<Seq<char>>,
    };
    let mut r: Vec<String> = Vec::new();
    match env_override {
        Some(e) => r.push(e),
        None => {},
    }
    r.push(String::from_str("C:\\Program Files\\WinRAR\\rar.exe"));
    r.push(String::from_str("C:\\Program Files (x86)\\WinRAR\\rar.exe"));
    r.push(String::from_str("C:\\WinRAR\\rar.exe"));
    proof {
        let v = r@.map_values(|s: String| s@);
        match env {
            Some(e) => assert(v =~= seq![e] + well_known_rar_paths()),
            None => assert(v =~= well_known_rar_paths()),
        }
    }
    r
}

/// Arguments for the RAR tool that extract `archive` into `dest`, answering
/// yes to every prompt.
pub fn rar_extract_args(archive: String, dest: String) -> (r: Vec<String>)
    ensures
        r@.map_values(|s: String| s@) == seq!["x"@, "-y"@, archive@, dest@],
{
    let mut r: Vec<String> = Vec::new();
    r.push(String::from_str("x"));
    r.push(String::from_str("-y"));
    r.push(archive);
    r.push(dest);
    assert(r@.map_values(|s: String| s@) =~= seq!["x"@, "-y"@, r@[2]@, r@[3]@]);
    r
}

} // verus!
