use package_assistant::archive::get_rpm_changelogs_result;
use package_assistant::changelog::{ChangelogQuery, RawDirEntry};
use package_assistant::config::{PackageConfig, PackageManagerType};
use package_assistant::error::Error;
use package_assistant::package_manager::get_package_manager;

fn archive_bytes(name: &str, changelogs: &[(u32, &str)]) -> Vec<u8> {
    let mut builder = rpm::PackageBuilder::new(name, "1.0", "MIT", "x86_64", "a test package");
    for (timestamp, text) in changelogs {
        builder.add_changelog_entry("tester", *text, *timestamp);
    }
    let package = builder.build().expect("the test archive should build");
    let mut bytes: Vec<u8> = Vec::new();
    package
        .write(&mut bytes)
        .expect("the test archive should serialize");
    bytes
}

fn cache_config() -> PackageConfig {
    PackageConfig {
        package_manager: Some(PackageManagerType::Zypper),
        download_command: String::new(),
        update_command: String::new(),
        noconfirm_update_command: String::new(),
        cached_package_path: Some(String::from("/cache")),
    }
}

#[test]
fn archive_name_and_new_entries_are_read() {
    let bytes = archive_bytes("a", &[(50, "old entry"), (150, "newer entry")]);
    let query = ChangelogQuery { name: None };
    let result = get_rpm_changelogs_result(&query, &bytes, 100).unwrap();
    assert_eq!(result.name, "a");
    assert_eq!(result.changelogs, vec![String::from("newer entry")]);
}

#[test]
fn archive_name_mismatch_is_the_expected_error() {
    let bytes = archive_bytes("a", &[(150, "newer entry")]);
    let query = ChangelogQuery {
        name: Some(String::from("b")),
    };
    match get_rpm_changelogs_result(&query, &bytes, 100) {
        Err(Error::PackageNameDoesNotMatch(name, filter)) => {
            assert_eq!(name, "a");
            assert_eq!(filter, "b");
        }
        _ => panic!("expected a name mismatch"),
    }
}

#[test]
fn unreadable_bytes_are_a_malformed_archive_error() {
    let query = ChangelogQuery { name: None };
    let r = get_rpm_changelogs_result(&query, b"not an archive", 100);
    assert!(matches!(r, Err(Error::MalformedRPMArchive)));
}

fn crafted_archive(offset: [u8; 4]) -> Vec<u8> {
    // A lead with the right magic, a signature header declaring one binary
    // index entry of sixteen items, and a sixteen-byte data section; the
    // entry's offset is attacker-chosen.
    let mut bytes = vec![0xed, 0xab, 0xee, 0xdb];
    bytes.resize(96, 0);
    bytes.extend_from_slice(&[0x8e, 0xad, 0xe8, 0x01, 0, 0, 0, 0]);
    bytes.extend_from_slice(&[0, 0, 0, 1]); // one index entry
    bytes.extend_from_slice(&[0, 0, 0, 16]); // sixteen data bytes
    bytes.extend_from_slice(&[0, 0, 0, 62]); // tag
    bytes.extend_from_slice(&[0, 0, 0, 7]); // binary type
    bytes.extend_from_slice(&offset);
    bytes.extend_from_slice(&[0, 0, 0, 16]); // sixteen items
    bytes.resize(bytes.len() + 16, 0); // the data section itself
    bytes
}

#[test]
fn out_of_bounds_offsets_are_rejected_before_the_reader_runs() {
    let query = ChangelogQuery { name: None };
    // An offset far past the sixteen-byte data section.
    let past_end = crafted_archive([0x7f, 0xff, 0xff, 0xf0]);
    let r = get_rpm_changelogs_result(&query, &past_end, 0);
    assert!(matches!(r, Err(Error::MalformedRPMArchive)));
    // A negative offset.
    let negative = crafted_archive([0x80, 0x00, 0x00, 0x00]);
    let r = get_rpm_changelogs_result(&query, &negative, 0);
    assert!(matches!(r, Err(Error::MalformedRPMArchive)));
}

#[test]
fn crafted_files_do_not_abort_the_walk() {
    let cfg = cache_config();
    let manager = get_package_manager(&cfg).unwrap();
    let files = vec![
        RawDirEntry::File(crafted_archive([0x7f, 0xff, 0xff, 0xf0])),
        RawDirEntry::File(archive_bytes("safe", &[(150, "still reported")])),
    ];
    let query = ChangelogQuery { name: None };
    let s = manager.get_cached_changelogs(&query, &files, 100).unwrap();
    assert_eq!(s, "==== safe ====\nstill reported");
}

#[test]
fn cached_changelogs_keep_only_the_new_entries() {
    let cfg = cache_config();
    let manager = get_package_manager(&cfg).unwrap();
    let files = vec![
        RawDirEntry::File(archive_bytes("a", &[(50, "old entry"), (150, "newer entry")])),
        RawDirEntry::File(archive_bytes("b", &[])),
    ];
    let query = ChangelogQuery { name: None };
    let s = manager.get_cached_changelogs(&query, &files, 100).unwrap();
    assert_eq!(s, "==== a ====\nnewer entry");
}

#[test]
fn cached_changelogs_tolerate_broken_files_and_recurse() {
    let cfg = cache_config();
    let manager = get_package_manager(&cfg).unwrap();
    let files = vec![
        RawDirEntry::File(b"garbage".to_vec()),
        RawDirEntry::Dir(vec![RawDirEntry::File(archive_bytes(
            "nested",
            &[(200, "nested entry")],
        ))]),
        RawDirEntry::File(archive_bytes("top", &[(300, "top entry")])),
    ];
    let query = ChangelogQuery { name: None };
    let s = manager.get_cached_changelogs(&query, &files, 100).unwrap();
    assert_eq!(s, "==== nested ====\nnested entry\n\n==== top ====\ntop entry");
}

#[test]
fn cached_changelogs_fail_when_nothing_matches() {
    let cfg = cache_config();
    let manager = get_package_manager(&cfg).unwrap();
    let files = vec![RawDirEntry::File(archive_bytes("a", &[(50, "old entry")]))];
    let query = ChangelogQuery { name: None };
    let r = manager.get_cached_changelogs(&query, &files, 100);
    assert!(matches!(r, Err(Error::NoChangelogsInDirectory)));
}

#[test]
fn cached_changelogs_respect_the_query_prefix() {
    let cfg = cache_config();
    let manager = get_package_manager(&cfg).unwrap();
    let files = vec![
        RawDirEntry::File(archive_bytes("foo-libs", &[(150, "matching entry")])),
        RawDirEntry::File(archive_bytes("bar", &[(150, "filtered entry")])),
    ];
    let query = ChangelogQuery {
        name: Some(String::from("foo")),
    };
    let s = manager.get_cached_changelogs(&query, &files, 100).unwrap();
    assert_eq!(s, "==== foo-libs ====\nmatching entry");
}
