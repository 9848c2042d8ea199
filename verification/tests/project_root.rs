use kron::domain::project::{ancestors, find_ancestor_project, find_project_root, is_project_root, marker_path, RootCandidate};

fn candidates(dirs: &[(&str, bool)]) -> Vec<RootCandidate> {
    dirs.iter().map(|(d, r)| RootCandidate { dir: d.to_string(), is_root: *r }).collect()
}

#[test]
fn search_path_climbs_to_the_filesystem_root() {
    assert_eq!(ancestors("/a/b/c"), vec!["/a/b/c", "/a/b", "/a", "/"]);
    assert_eq!(ancestors("/"), vec!["/"]);
    assert_eq!(ancestors("rel/dir"), vec!["rel/dir", "rel", ""]);
}

#[test]
fn marker_must_be_a_file_holding_json() {
    assert_eq!(marker_path("/p"), "/p/kron-internal/config.json");
    assert!(is_project_root(true, Some("{\"name\": \"p\"}")));
    assert!(is_project_root(true, Some("[]")));
    assert!(!is_project_root(true, Some("not json")));
    assert!(!is_project_root(true, Some("")));
    assert!(!is_project_root(true, None));
    assert!(!is_project_root(false, Some("{}")));
}

#[test]
fn nearest_root_wins_and_ancestor_search_skips_the_start() {
    let c = candidates(&[("/p/sub", false), ("/p", true), ("/", true)]);
    assert_eq!(find_project_root(&c), Some("/p".to_string()));
    assert_eq!(find_ancestor_project(&c), Some("/p".to_string()));

    let at_root = candidates(&[("/p", true), ("/", false)]);
    assert_eq!(find_project_root(&at_root), Some("/p".to_string()));
    assert_eq!(find_ancestor_project(&at_root), None);

    let none = candidates(&[("/x", false), ("/", false)]);
    assert_eq!(find_project_root(&none), None);
}

#[test]
fn ancestor_search_is_the_root_search_one_level_up() {
    let c = candidates(&[("/p", true), ("/", true)]);
    assert_eq!(find_ancestor_project(&c), find_project_root(&c[1..]));
    assert_eq!(find_ancestor_project(&c), Some("/".to_string()));
}
