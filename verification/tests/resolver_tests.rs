use shell_core::resolver::candidate_path;
use shell_core::resolver::first_executable;
use shell_core::resolver::resolve_executable;
use shell_core::resolver::split_search_path;

#[test]
fn search_path_splits_on_colons() {
    assert_eq!(split_search_path("/a:/b:/c"), vec!["/a", "/b", "/c"]);
    assert_eq!(split_search_path("/usr/bin"), vec!["/usr/bin"]);
}

#[test]
fn search_path_keeps_empty_entries() {
    assert_eq!(split_search_path(""), vec![""]);
    assert_eq!(split_search_path("a::b"), vec!["a", "", "b"]);
    assert_eq!(split_search_path(":a:"), vec!["", "a", ""]);
}

#[test]
fn candidate_paths_join_with_slash() {
    assert_eq!(candidate_path("/usr/bin", "ls"), "/usr/bin/ls");
    assert_eq!(candidate_path("", "ls"), "/ls");
}

#[test]
fn first_entry_wins_when_both_qualify() {
    let dirs = vec![String::from("/a"), String::from("/b")];
    let is_file = vec![true, true];
    let is_exec = vec![true, true];
    assert_eq!(
        resolve_executable("cmd", &dirs, &is_file, &is_exec),
        Some(String::from("/a/cmd")),
    );
}

#[test]
fn non_executable_file_is_skipped() {
    let dirs = vec![String::from("/a"), String::from("/b")];
    let is_file = vec![true, true];
    let is_exec = vec![false, true];
    assert_eq!(
        resolve_executable("cmd", &dirs, &is_file, &is_exec),
        Some(String::from("/b/cmd")),
    );
}

#[test]
fn missing_file_is_skipped() {
    let is_file = vec![false, true];
    let is_exec = vec![true, true];
    assert_eq!(first_executable(&is_file, &is_exec), Some(1));
}

#[test]
fn no_qualifying_entry_resolves_to_nothing() {
    let dirs = vec![String::from("/a"), String::from("/b")];
    let is_file = vec![true, false];
    let is_exec = vec![false, true];
    assert_eq!(resolve_executable("cmd", &dirs, &is_file, &is_exec), None);
    let empty: Vec<String> = Vec::new();
    assert_eq!(resolve_executable("cmd", &empty, &Vec::new(), &Vec::new()), None);
}
