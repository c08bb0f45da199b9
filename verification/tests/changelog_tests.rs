use package_assistant::changelog::{
    filter_changelogs, get_dir_changelogs, get_package_changelogs_string, matches_query,
    package_changelog_result, ArchiveMeta, ChangelogEntry, ChangelogQuery, DirEntry,
};
use package_assistant::error::Error;
use package_assistant::package_manager::PackageChangelogResult;

fn entry(timestamp: u64, description: &str) -> ChangelogEntry {
    ChangelogEntry {
        timestamp,
        description: String::from(description),
    }
}

fn meta(name: &str, entries: Vec<ChangelogEntry>) -> ArchiveMeta {
    ArchiveMeta {
        name: String::from(name),
        entries,
    }
}

fn query(name: Option<&str>) -> ChangelogQuery {
    ChangelogQuery {
        name: name.map(String::from),
    }
}

#[test]
fn prefix_match_is_case_sensitive() {
    assert!(matches_query("foo-libs", "foo"));
    assert!(!matches_query("foo-libs", "Foo"));
    assert!(!matches_query("foo-libs", "oo"));
    assert!(matches_query("foo-libs", ""));
    assert!(!matches_query("foo", "foo-libs"));
}

#[test]
fn filtering_is_strictly_greater() {
    let entries = vec![entry(99, "old"), entry(100, "at threshold"), entry(101, "new")];
    let kept = filter_changelogs(&entries, 100);
    assert_eq!(kept, vec![String::from("new")]);
}

#[test]
fn zero_threshold_keeps_every_entry() {
    let entries = vec![entry(50, "first"), entry(150, "second")];
    let kept = filter_changelogs(&entries, 0);
    assert_eq!(kept, vec![String::from("first"), String::from("second")]);
}

#[test]
fn filtering_keeps_original_order() {
    let entries = vec![entry(300, "a"), entry(200, "b"), entry(400, "c")];
    let kept = filter_changelogs(&entries, 250);
    assert_eq!(kept, vec![String::from("a"), String::from("c")]);
}

#[test]
fn result_fails_only_on_name_mismatch() {
    let entries = vec![entry(150, "new")];
    let ok = package_changelog_result(&query(Some("foo")), "foo-libs", &entries, 100).unwrap();
    assert_eq!(ok.name, "foo-libs");
    assert_eq!(ok.changelogs, vec![String::from("new")]);

    let err = package_changelog_result(&query(Some("bar")), "foo-libs", &entries, 100);
    match err {
        Err(Error::PackageNameDoesNotMatch(name, filter)) => {
            assert_eq!(name, "foo-libs");
            assert_eq!(filter, "bar");
        }
        _ => panic!("expected a name mismatch"),
    }

    let no_query = package_changelog_result(&query(None), "anything", &entries, 100).unwrap();
    assert_eq!(no_query.name, "anything");
}

#[test]
fn package_string_holds_heading_and_entries() {
    let result = PackageChangelogResult {
        name: String::from("pkg"),
        changelogs: vec![String::from("one"), String::from("two")],
    };
    let s = get_package_changelogs_string(result).unwrap();
    assert_eq!(s, "==== pkg ====\none\ntwo");
}

#[test]
fn package_string_fails_when_nothing_survived() {
    let result = PackageChangelogResult {
        name: String::from("pkg"),
        changelogs: vec![],
    };
    assert!(matches!(
        get_package_changelogs_string(result),
        Err(Error::NoChangelogsForPackage)
    ));
}

#[test]
fn walk_reports_the_one_matching_archive() {
    let entries = vec![
        DirEntry::File(None),
        DirEntry::File(Some(meta("foo-libs", vec![entry(150, "new stuff")]))),
        DirEntry::File(Some(meta("other", vec![entry(500, "hidden by query")]))),
    ];
    let s = get_dir_changelogs(&query(Some("foo")), &entries, 100).unwrap();
    assert_eq!(s, "==== foo-libs ====\nnew stuff");
}

#[test]
fn walk_fails_when_nothing_matches() {
    let entries = vec![
        DirEntry::File(None),
        DirEntry::File(Some(meta("other", vec![entry(500, "wrong name")]))),
        DirEntry::File(Some(meta("foo-libs", vec![entry(50, "too old")]))),
        DirEntry::Dir(vec![DirEntry::File(Some(meta("foo-more", vec![])))]),
    ];
    let r = get_dir_changelogs(&query(Some("foo")), &entries, 100);
    assert!(matches!(r, Err(Error::NoChangelogsInDirectory)));
}

#[test]
fn walk_recurses_and_separates_with_blank_lines() {
    let entries = vec![
        DirEntry::File(Some(meta("a", vec![entry(150, "top")]))),
        DirEntry::Dir(vec![
            DirEntry::File(Some(meta("b", vec![entry(200, "nested")]))),
            DirEntry::File(Some(meta("c", vec![entry(300, "deeper")]))),
        ]),
    ];
    let s = get_dir_changelogs(&query(None), &entries, 100).unwrap();
    assert_eq!(s, "==== a ====\ntop\n\n==== b ====\nnested\n\n==== c ====\ndeeper");
}

#[test]
fn walk_keeps_only_entries_past_threshold() {
    let entries = vec![
        DirEntry::File(Some(meta("a", vec![entry(50, "old"), entry(150, "newer")]))),
        DirEntry::File(Some(meta("b", vec![]))),
    ];
    let s = get_dir_changelogs(&query(None), &entries, 100).unwrap();
    assert_eq!(s, "==== a ====\nnewer");
}

#[test]
fn empty_directory_has_no_changelogs() {
    let r = get_dir_changelogs(&query(None), &vec![], 0);
    assert!(matches!(r, Err(Error::NoChangelogsInDirectory)));
}
