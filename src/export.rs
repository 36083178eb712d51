//! Where a database export is written.

use std::path::PathBuf;
use vstd::prelude::*;

verus! {

#[verifier::external_type_specification]
#[verifier::external_body]
pub struct ExPathBuf(PathBuf);

/// The destination of an export: a file at a path, or memory.
#[derive(Debug)]
#[non_exhaustive]
pub enum ExportDestination {
    File(PathBuf),
    Memory,
}

/// Converts an input into a database export location.
pub trait IntoExportDestination<R> {
    /// Converts an input into a database export location.
    fn into_export_destination(self) -> R;
}

/// Relies on `PathBuf::from` on a `String`: the path made of that string,
/// taken over without copying.
#[verifier::external_body]
fn path_of_string(s: String) -> PathBuf {
    PathBuf::from(s)
}

impl IntoExportDestination<PathBuf> for PathBuf {
    fn into_export_destination(self) -> PathBuf {
        self
    }
}

impl IntoExportDestination<PathBuf> for String {
    fn into_export_destination(self) -> PathBuf {
        path_of_string(self)
    }
}

impl IntoExportDestination<PathBuf> for &str {
    fn into_export_destination(self) -> PathBuf {
        path_of_string(self.to_string())
    }
}

impl IntoExportDestination<()> for () {
    fn into_export_destination(self) {
    }
}

} // verus!
