use std::io::Write;

use uwupm::archive::extract_archive;
use uwupm::errors::EntryError;
use uwupm::scripts::{
    finalize_install, package_outcome, registry_script_file_name, ScriptOutcome,
};

/// Builds, fully in memory, a gzipped tar archive holding the given files.
fn gzipped_tar(files: &[(&str, &[u8])]) -> Vec<u8> {
    let mut builder = tar::Builder::new(Vec::new());
    for (path, data) in files {
        let mut header = tar::Header::new_gnu();
        header.set_size(data.len() as u64);
        header.set_mode(0o644);
        header.set_cksum();
        builder.append_data(&mut header, path, *data).unwrap();
    }
    let tar_bytes = builder.into_inner().unwrap();
    let mut encoder =
        flate2::write::GzEncoder::new(Vec::new(), flate2::Compression::default());
    encoder.write_all(&tar_bytes).unwrap();
    encoder.finish().unwrap()
}

#[test]
fn extract_archive_returns_the_packed_entries() {
    let gz = gzipped_tar(&[("hello.txt", b"hi there"), ("sub/other.bin", b"\x00\x01")]);
    let entries = extract_archive(&gz).unwrap();
    assert_eq!(entries.len(), 2);
    assert_eq!(entries[0].path, b"hello.txt".to_vec());
    assert_eq!(entries[0].data, b"hi there".to_vec());
    assert_eq!(entries[1].path, b"sub/other.bin".to_vec());
    assert_eq!(entries[1].data, b"\x00\x01".to_vec());
}

#[test]
fn extract_archive_rejects_corrupt_bytes() {
    let garbage = b"this is not a gzip stream".to_vec();
    assert_eq!(extract_archive(&garbage), Err(EntryError::CorruptArchive));
    assert_eq!(EntryError::CorruptArchive.code(), "DW010");
}

#[test]
fn both_scripts_present_registers_the_package() {
    let gz = gzipped_tar(&[
        ("uwupm-install.sh", b"echo install".as_slice()),
        ("uwupm-uninstall.sh", b"echo uninstall".as_slice()),
        ("payload", b"data".as_slice()),
    ]);
    let entries = extract_archive(&gz).unwrap();
    assert_eq!(package_outcome(&entries), ScriptOutcome::Registered);
    assert_eq!(package_outcome(&entries).warning_code(), None);
}

#[test]
fn a_missing_script_requires_manual_intervention() {
    let only_install = gzipped_tar(&[("uwupm-install.sh", b"echo install".as_slice())]);
    let entries = extract_archive(&only_install).unwrap();
    assert_eq!(package_outcome(&entries), ScriptOutcome::ManualInterventionRequired);

    let only_uninstall = gzipped_tar(&[("uwupm-uninstall.sh", b"echo bye".as_slice())]);
    let entries = extract_archive(&only_uninstall).unwrap();
    let outcome = package_outcome(&entries);
    assert_eq!(outcome, ScriptOutcome::ManualInterventionRequired);
    assert_eq!(outcome.warning_code(), Some("FS011"));
}

#[test]
fn scripts_under_a_dot_slash_prefix_are_found_at_the_root() {
    let gz = gzipped_tar(&[
        ("./uwupm-install.sh", b"echo install".as_slice()),
        ("./uwupm-uninstall.sh", b"echo uninstall".as_slice()),
    ]);
    let entries = extract_archive(&gz).unwrap();
    assert_eq!(package_outcome(&entries), ScriptOutcome::Registered);
}

#[test]
fn lifecycle_decision_table() {
    assert_eq!(finalize_install(true, true), ScriptOutcome::Registered);
    assert_eq!(finalize_install(true, false), ScriptOutcome::ManualInterventionRequired);
    assert_eq!(finalize_install(false, true), ScriptOutcome::ManualInterventionRequired);
    assert_eq!(finalize_install(false, false), ScriptOutcome::ManualInterventionRequired);
}

#[test]
fn registry_file_is_named_after_the_package() {
    assert_eq!(
        registry_script_file_name(&b"pkg".to_vec()),
        b"pkg-uninstall.sh".to_vec()
    );
}
