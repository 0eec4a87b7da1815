//! The persisted record of a downloaded package, and the rules deciding
//! whether it may be reused.

use vstd::prelude::*;
use crate::text::{chars_of, contains_chars, has_sub};

verus! {

/// The record of a package downloaded earlier: the release version it came
/// from and where its archive was stored.
#[derive(Debug, Clone)]
pub struct CachedPackage {
    /// The version tag the package belongs to.
    pub version: String,
    /// The path of the downloaded archive on disk.
    pub path: String,
}

/// Screens a stored cache record at startup: a record whose archive no
/// longer exists as a file is treated as absent, forcing a fresh download.
/// The policy checks the archive alone; the extracted directory need not
/// survive, because extraction is redone from the archive on reuse.
pub fn validate_cache(pkg: Option<CachedPackage>, archive_is_file: bool) -> (r: Option<
    CachedPackage,
>)
    ensures
        r == (if pkg is Some && archive_is_file {
            pkg
        } else {
            None::<CachedPackage>
        }),
{
    if archive_is_file {
        pkg
    } else {
        None
    }
}

/// Whether a cached package belongs to the fetched release: its recorded
/// version occurs in the release's tag.
pub fn cache_matches_tag(pkg: &CachedPackage, tag: &str) -> (r: bool)
    ensures
        r == has_sub(tag@, pkg.version@),
{
    let hay = chars_of(tag);
    let needle = chars_of(pkg.version.as_str());
    contains_chars(&hay, &needle)
}

} // verus!
