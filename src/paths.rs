//! Runtime environment detection.

use vstd::prelude::*;

verus! {

/// Relies on `std::path::Path::exists`: whether something exists at
/// `path`. What is on disk can change between calls, so nothing is stated
/// of the result.
#[verifier::external_body]
fn path_exists(path: &str) -> (r: bool) {
    std::path::Path::new(path).exists()
}

/// Whether the process runs inside a Flatpak sandbox, which mounts
/// `/.flatpak-info`.
pub fn is_flatpak() -> (r: bool) {
    path_exists("/.flatpak-info")
}

} // verus!
