use rargate::path::PathName;
use rargate::sfv::is_file_complete;
use rargate::sfv::is_sfv_file;
use rargate::sfv::validate_sfv_content_with_map;
use rargate::sfv::validate_sfv_with_completeness;
use rargate::sfv::DirEntry;
use rargate::sfv::FileAge;
use rargate::sfv::FileEntry;
use rargate::sfv::FileNames;

fn old_file(name: &str) -> DirEntry {
    DirEntry::File(FileEntry {
        name: name.to_string(),
        age: FileAge::Seconds(1),
    })
}

fn fresh_file(name: &str) -> DirEntry {
    DirEntry::File(FileEntry {
        name: name.to_string(),
        age: FileAge::Seconds(0),
    })
}

fn names(all: &[&str]) -> FileNames {
    let mut r = FileNames::new();
    for n in all {
        r.insert(n.to_lowercase(), n.to_string());
    }
    r
}

#[test]
fn validates_when_sfv_lists_lowercase_but_real_files_are_mixed_case() {
    let entries = vec![
        old_file("Release.Name.r00"),
        old_file("Release.Name.r01"),
        fresh_file("release.name.sfv"),
    ];
    let sfv = "release.name.r00 DEADBEEF\nrelease.name.r01 CAFEBABE\n";
    assert!(validate_sfv_with_completeness(Some(sfv), &entries));
}

#[test]
fn fails_when_a_listed_file_is_genuinely_missing() {
    let entries = vec![old_file("Release.Name.r00"), fresh_file("release.name.sfv")];
    let sfv = "release.name.r00 DEADBEEF\nrelease.name.r01 CAFEBABE\n";
    assert!(!validate_sfv_with_completeness(Some(sfv), &entries));
}

#[test]
fn defers_when_a_matched_file_was_just_written() {
    let entries = vec![fresh_file("Release.Name.r00"), fresh_file("release.name.sfv")];
    let sfv = "release.name.r00 DEADBEEF\n";
    assert!(!validate_sfv_with_completeness(Some(sfv), &entries));
}

#[test]
fn resolves_a_case_mismatched_sample_subfolder_entry() {
    let entries = vec![
        DirEntry::Dir(vec![FileEntry {
            name: "Release.Name-sample.mkv".to_string(),
            age: FileAge::Seconds(1),
        }]),
        fresh_file("release.name.sfv"),
    ];
    let sfv = "sample\\release.name-sample.mkv DEADBEEF\n";
    assert!(validate_sfv_with_completeness(Some(sfv), &entries));
}

#[test]
fn an_unreadable_sfv_is_never_valid() {
    assert!(!validate_sfv_with_completeness(None, &vec![old_file("a.r00")]));
}

#[test]
fn a_file_at_the_top_goes_before_one_in_a_subfolder() {
    let entries = vec![
        DirEntry::Dir(vec![FileEntry {
            name: "A.r00".to_string(),
            age: FileAge::Seconds(0),
        }]),
        old_file("a.R00"),
    ];
    assert!(validate_sfv_with_completeness(Some("a.r00 00000000"), &entries));
}

#[test]
fn completeness_by_age() {
    assert!(!is_file_complete(FileAge::Unreadable));
    assert!(is_file_complete(FileAge::Unknown));
    assert!(!is_file_complete(FileAge::Seconds(0)));
    assert!(is_file_complete(FileAge::Seconds(1)));
}

#[test]
fn sfv_files_are_told_by_extension() {
    assert!(is_sfv_file(&PathName::new("/a/Release.SFV")));
    assert!(is_sfv_file(&PathName::new("release.sfv")));
    assert!(!is_sfv_file(&PathName::new("/a/sfv")));
    assert!(!is_sfv_file(&PathName::new("/a/.sfv")));
    assert!(!is_sfv_file(&PathName::new("/a/release.sfv.txt")));
}

#[test]
fn comments_blank_lines_and_lines_without_a_crc_are_skipped() {
    let have = names(&["a.r00"]);
    let sfv = "; made by hand\n\n   \nlonely\nA.R00 12345678\r\n";
    assert!(validate_sfv_content_with_map(sfv, &have));
}

#[test]
fn a_byte_order_mark_before_a_comment_is_skipped() {
    let have = names(&["a.r00"]);
    assert!(validate_sfv_content_with_map("\u{feff}; comment with words\na.r00 1\n", &have));
    assert!(!validate_sfv_content_with_map("\u{feff}b.r00 1\n", &have));
}

#[test]
fn names_may_hold_spaces_and_subfolders() {
    let have = names(&["My File.mkv"]);
    assert!(validate_sfv_content_with_map("my file.mkv ABCDEF01", &have));
    assert!(validate_sfv_content_with_map("Sample\\My File.mkv ABCDEF01", &have));
    assert!(validate_sfv_content_with_map("CD1/Sub/My File.mkv ABCDEF01", &have));
    assert!(!validate_sfv_content_with_map("my other file.mkv ABCDEF01", &have));
}

#[test]
fn a_bare_subfolder_counts_for_names_but_not_for_completeness() {
    assert!(validate_sfv_content_with_map("Sample\\ 12345678", &names(&[])));
    assert!(!validate_sfv_with_completeness(Some("Sample\\ 12345678"), &vec![]));
}

#[test]
fn letters_outside_ascii_are_lowered_too() {
    let have = names(&["\u{c4}pfel.r00"]);
    assert!(validate_sfv_content_with_map("\u{e4}PFEL.R00 1", &have));
    assert!(!validate_sfv_content_with_map("apfel.r00 1", &have));
}

#[test]
fn more_names_keep_a_release_valid() {
    let sfv = "a.r00 1\nb.r00 2\n";
    assert!(!validate_sfv_content_with_map(sfv, &names(&["a.r00"])));
    assert!(validate_sfv_content_with_map(sfv, &names(&["a.r00", "b.r00"])));
    assert!(validate_sfv_content_with_map(sfv, &names(&["a.r00", "b.r00", "c.r00"])));
}

#[test]
fn the_first_name_put_in_stays_under_insert_new() {
    let mut n = FileNames::new();
    n.insert_new("a".to_string(), "A".to_string());
    n.insert_new("a".to_string(), "a".to_string());
    assert!(n.contains("a"));
    assert!(!n.contains("A"));
}
