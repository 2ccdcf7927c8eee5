use ciel_build::cleanup::{cleanup_outputs, is_output_directory, DirEntry};

fn entry(path: &str, is_dir: bool, depth: usize) -> DirEntry {
    let name = std::path::Path::new(path)
        .file_name()
        .map(|n| n.to_string_lossy().to_string())
        .unwrap_or_else(|| path.to_string());
    DirEntry { name, is_dir, depth }
}

#[test]
fn only_top_level_output_directories_are_removed() {
    let entries = vec![
        entry(".", true, 0),
        entry("./OUTPUT-foo", true, 1),
        entry("./output-foo", true, 1),
        entry("./OUTPUT-foo/nested/OUTPUT-bar", true, 3),
        entry("./OUTPUT-x", false, 1),
        entry("./TREE", true, 1),
        entry("./OUTPUT-", true, 1),
        entry("./XOUTPUT-y", true, 1),
    ];
    assert_eq!(cleanup_outputs(&entries), vec![1, 6]);
}

#[test]
fn the_order_of_the_walk_is_kept() {
    let entries = vec![
        entry("./OUTPUT-b", true, 1),
        entry("./a", false, 1),
        entry("./OUTPUT-a", true, 1),
        entry("./OUTPUT-c", true, 1),
    ];
    assert_eq!(cleanup_outputs(&entries), vec![0, 2, 3]);
}

#[test]
fn nothing_to_sweep() {
    assert!(cleanup_outputs(&Vec::new()).is_empty());
    assert!(cleanup_outputs(&vec![entry("./src", true, 1), entry("./OUTPUT", true, 1)]).is_empty());
}

#[test]
fn what_counts_as_an_output_directory() {
    assert!(is_output_directory(&entry("./OUTPUT-foo", true, 1)));
    assert!(!is_output_directory(&entry("./OUTPUT-foo", false, 1)));
    assert!(!is_output_directory(&entry("./OUTPUT-foo", true, 2)));
    assert!(!is_output_directory(&entry("./OUTPUT-foo", true, 0)));
    assert!(!is_output_directory(&entry("./Output-foo", true, 1)));
    assert!(!is_output_directory(&entry("./ OUTPUT-foo", true, 1)));
}

#[test]
fn the_name_decides_and_not_the_path() {
    assert!(!is_output_directory(&entry("./OUTPUT-foo/debs", true, 1)));
    assert!(is_output_directory(&entry("./debs/OUTPUT-foo", true, 1)));
}
