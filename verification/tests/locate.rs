use ventoy_toybox::defines::{app_cache_path, app_dir_under, cache_path_under, open_command, path_parent};
use ventoy_toybox::fstree::{find_file, FsEntry};

fn file(name: &str) -> FsEntry {
    FsEntry::File { name: name.to_string() }
}

fn dir(name: &str, entries: Vec<FsEntry>) -> FsEntry {
    FsEntry::Dir { name: name.to_string(), entries }
}

#[test]
fn file_found() {
    let tmpdir = dir("test", vec![file("some.file")]);
    find_file(&tmpdir, "some.file").expect("failed to find the file");
}

#[test]
#[should_panic(expected = "failed to find the file")]
fn file_not_found() {
    let tmpdir = dir("test", vec![file("some.file")]);
    find_file(&tmpdir, "wrong.file").unwrap_or_else(|| panic!("failed to find the file"));
}

#[test]
fn finds_first_match_depth_first() {
    let tree = dir(
        "root",
        vec![
            file("readme.txt"),
            dir("sub-a", vec![dir("deeper", vec![file("tool.bin")]), file("other")]),
            dir("sub-b", vec![file("tool.bin")]),
        ],
    );
    let path = find_file(&tree, "tool.bin").expect("the file exists");
    assert_eq!(path, vec!["sub-a".to_string(), "deeper".to_string(), "tool.bin".to_string()]);
}

#[test]
fn unreadable_directories_are_skipped() {
    // a directory that could not be read contributes no entries
    let tree = dir("root", vec![dir("locked", vec![]), dir("open", vec![file("tool.bin")])]);
    let path = find_file(&tree, "tool.bin").expect("the readable subtree holds it");
    assert_eq!(path, vec!["open".to_string(), "tool.bin".to_string()]);
}

#[test]
fn a_directory_name_is_not_a_file_match() {
    let tree = dir("root", vec![dir("tool.bin", vec![])]);
    assert!(find_file(&tree, "tool.bin").is_none());
}

#[test]
fn cache_path_names_the_record_file() {
    let p = app_cache_path();
    assert!(p.ends_with("cache.ron"));
}

#[test]
fn app_dir_under_the_platform_directory() {
    assert_eq!(
        app_dir_under(Some("/home/u/.cache".to_string())),
        Some("/home/u/.cache/com.github.nozwock.ventoy-toybox".to_string())
    );
    assert_eq!(app_dir_under(None), None);
}

#[test]
fn cache_path_under_the_platform_directory() {
    assert_eq!(
        cache_path_under(Some("/home/u/.cache".to_string())),
        "/home/u/.cache/com.github.nozwock.ventoy-toybox/cache.ron"
    );
    assert_eq!(cache_path_under(None), "cache.ron");
}

#[test]
fn parent_of_a_path() {
    assert_eq!(path_parent("/cache/dir/pkg.zip"), "/cache/dir");
    assert_eq!(path_parent("pkg.zip"), "");
    assert_eq!(path_parent("c:\\cache\\pkg.zip"), "c:\\cache");
}

#[test]
fn open_command_per_platform() {
    assert_eq!(open_command("windows"), Some("explorer"));
    assert_eq!(open_command("linux"), Some("xdg-open"));
    assert_eq!(open_command("macos"), None);
}
