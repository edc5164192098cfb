use shell_core::resolve::{executable_find, is_executable, DirEntry, Metadata, SearchDir};

fn file(mode: u32) -> Option<Metadata> {
    Some(Metadata { is_file: true, mode: Some(mode) })
}

fn directory(mode: u32) -> Option<Metadata> {
    Some(Metadata { is_file: false, mode: Some(mode) })
}

fn entry(dir: &str, name: &str, metadata: Option<Metadata>) -> DirEntry {
    DirEntry { file_name: Some(name.to_string()), path: format!("{dir}/{name}"), metadata }
}

fn dir(entries: Vec<DirEntry>) -> SearchDir {
    SearchDir { entries: Some(entries) }
}

fn unreadable() -> SearchDir {
    SearchDir { entries: None }
}

#[test]
fn is_executable_asks_for_one_execute_bit() {
    assert!(is_executable(&file(0o100755)));
    assert!(is_executable(&file(0o100)));
    assert!(is_executable(&file(0o010)));
    assert!(is_executable(&file(0o001)));
    assert!(is_executable(&file(0o111)));
    assert!(!is_executable(&file(0o100644)));
    assert!(!is_executable(&file(0o666)));
    assert!(!is_executable(&file(0)));
}

#[test]
fn is_executable_does_not_ask_for_a_regular_file_where_bits_are_known() {
    assert!(is_executable(&directory(0o040755)));
    assert!(!is_executable(&directory(0o040644)));
}

#[test]
fn is_executable_without_bits_takes_any_regular_file() {
    assert!(is_executable(&Some(Metadata { is_file: true, mode: None })));
    assert!(!is_executable(&Some(Metadata { is_file: false, mode: None })));
}

#[test]
fn is_executable_of_an_unknown_path_is_false() {
    assert!(!is_executable(&None));
}

#[test]
fn first_match_wins() {
    let paths = vec![
        dir(vec![entry("/a", "other", file(0o755)), entry("/a", "tool", file(0o755))]),
        dir(vec![entry("/b", "tool", file(0o755))]),
    ];
    assert_eq!(executable_find("tool", &None, &paths), Some("/a/tool".to_string()));
}

#[test]
fn first_match_wins_whatever_the_order_within_the_later_directory() {
    let paths = vec![
        dir(vec![entry("/b", "tool", file(0o700))]),
        dir(vec![entry("/a", "tool", file(0o755)), entry("/a", "tool2", file(0o755))]),
    ];
    assert_eq!(executable_find("tool", &None, &paths), Some("/b/tool".to_string()));
}

#[test]
fn direct_path_wins_over_the_search_path() {
    let paths = vec![dir(vec![entry("/a", "tool", file(0o755))])];
    assert_eq!(
        executable_find("./bin/tool", &file(0o755), &paths),
        Some("./bin/tool".to_string())
    );
    assert_eq!(executable_find("tool", &file(0o755), &paths), Some("tool".to_string()));
    assert_eq!(executable_find("/x/y", &file(0o500), &[]), Some("/x/y".to_string()));
}

#[test]
fn direct_path_must_be_an_executable_regular_file() {
    let paths = vec![dir(vec![entry("/a", "tool", file(0o755))])];
    assert_eq!(executable_find("tool", &file(0o644), &paths), Some("/a/tool".to_string()));
    assert_eq!(executable_find("tool", &directory(0o755), &paths), Some("/a/tool".to_string()));
    assert_eq!(executable_find("tool", &None, &paths), Some("/a/tool".to_string()));
    assert_eq!(executable_find("gone", &file(0o644), &paths), None);
}

#[test]
fn entries_that_are_no_executable_files_are_passed_over() {
    let paths = vec![
        dir(vec![
            entry("/a", "tool", file(0o644)),
            entry("/a", "tool", directory(0o755)),
            entry("/a", "tool", None),
        ]),
        dir(vec![entry("/b", "tool", file(0o755))]),
    ];
    assert_eq!(executable_find("tool", &None, &paths), Some("/b/tool".to_string()));
}

#[test]
fn the_first_match_within_a_directory_is_taken() {
    let paths = vec![dir(vec![
        DirEntry { file_name: Some("tool".to_string()), path: "first".to_string(), metadata: file(0o644) },
        DirEntry { file_name: Some("tool".to_string()), path: "second".to_string(), metadata: file(0o755) },
        DirEntry { file_name: Some("tool".to_string()), path: "third".to_string(), metadata: file(0o755) },
    ])];
    assert_eq!(executable_find("tool", &None, &paths), Some("second".to_string()));
}

#[test]
fn names_must_be_equal_exactly() {
    let paths = vec![dir(vec![
        entry("/a", "Tool", file(0o755)),
        entry("/a", "tool.sh", file(0o755)),
        entry("/a", "too", file(0o755)),
        DirEntry { file_name: None, path: "/a/tool".to_string(), metadata: file(0o755) },
    ])];
    assert_eq!(executable_find("tool", &None, &paths), None);
    assert_eq!(executable_find("Tool", &None, &paths), Some("/a/Tool".to_string()));
}

#[test]
fn unreadable_directories_are_passed_over() {
    let paths = vec![unreadable(), dir(vec![]), unreadable(), dir(vec![entry("/d", "ls", file(0o755))])];
    assert_eq!(executable_find("ls", &None, &paths), Some("/d/ls".to_string()));
    assert_eq!(executable_find("ls", &None, &[unreadable()]), None);
}

#[test]
fn nothing_is_found_on_an_empty_search_path() {
    assert_eq!(executable_find("ls", &None, &[]), None);
    assert_eq!(executable_find("", &None, &[dir(vec![])]), None);
}

#[test]
fn without_permission_bits_any_regular_file_is_found() {
    let plain = Some(Metadata { is_file: true, mode: None });
    let folder = Some(Metadata { is_file: false, mode: None });
    let paths = vec![dir(vec![entry("C:", "app", folder), entry("D:", "app", plain)])];
    assert_eq!(executable_find("app", &None, &paths), Some("D:/app".to_string()));
    assert_eq!(executable_find("app", &plain, &paths), Some("app".to_string()));
}
