use distinct::export::{ExportDestination, IntoExportDestination};
use std::path::PathBuf;

#[test]
fn str_into_path_destination() {
    let p: PathBuf = "backup.surql".into_export_destination();
    assert_eq!(p, PathBuf::from("backup.surql"));
}

#[test]
fn string_and_path_into_destination() {
    let s: PathBuf = String::from("dir/out.surql").into_export_destination();
    assert_eq!(s, PathBuf::from("dir/out.surql"));
    let p: PathBuf = PathBuf::from("a/b").into_export_destination();
    assert_eq!(p, PathBuf::from("a/b"));
}

#[test]
fn unit_into_memory_destination() {
    let () = ().into_export_destination();
    let d = ExportDestination::Memory;
    assert!(matches!(d, ExportDestination::Memory));
    let f = ExportDestination::File(PathBuf::from("x"));
    assert!(matches!(f, ExportDestination::File(ref p) if p == &PathBuf::from("x")));
}
