use move_dev_finder::detector::{any_move_path, path_is_move, tree_has_move_files};
use move_dev_finder::discovery::{append_nodes, candidate_cap, repo_from_node, CandidateSet, RepoNode, RepositoryRef};

fn node(name: &str) -> RepoNode {
    RepoNode {
        name_with_owner: Some(name.to_string()),
        url: Some(format!("https://example.com/{}", name)),
        default_branch: Some("dev".to_string()),
    }
}

#[test]
fn node_defaults_for_absent_fields() {
    let r = repo_from_node(&RepoNode { name_with_owner: None, url: None, default_branch: None });
    assert_eq!(r.full_name, "");
    assert_eq!(r.html_url, "");
    assert_eq!(r.default_branch, "main");
    let r = repo_from_node(&node("a/b"));
    assert_eq!(r.full_name, "a/b");
    assert_eq!(r.default_branch, "dev");
}

#[test]
fn append_nodes_keeps_order() {
    let mut repos: Vec<RepositoryRef> = Vec::new();
    append_nodes(&mut repos, &vec![node("a/x"), node("a/y")]);
    append_nodes(&mut repos, &vec![node("a/z")]);
    let names: Vec<&str> = repos.iter().map(|r| r.full_name.as_str()).collect();
    assert_eq!(names, vec!["a/x", "a/y", "a/z"]);
}

#[test]
fn candidate_cap_oversamples_by_factor() {
    assert_eq!(candidate_cap(10, 3), 30);
    assert_eq!(candidate_cap(0, 3), 0);
    assert_eq!(candidate_cap(usize::MAX, 3), usize::MAX);
}

#[test]
fn search_set_respects_oversampling_cap() {
    let mut set = CandidateSet::new(2, 3);
    let page1: Vec<RepoNode> = (0..4).map(|i| node(&format!("o/r{}", i))).collect();
    set.add_hits(&page1);
    assert_eq!(set.repos.len(), 4);
    assert!(!set.is_full());
    let page2: Vec<RepoNode> = (0..10).map(|i| node(&format!("o/r{}", i))).collect();
    set.add_hits(&page2);
    assert_eq!(set.repos.len(), 6);
    assert!(set.is_full());
    set.add_hits(&vec![node("o/new")]);
    assert_eq!(set.repos.len(), 6);
}

#[test]
fn search_set_deduplicates_by_name() {
    let mut set = CandidateSet::new(10, 3);
    set.add_hits(&vec![node("o/a"), node("o/b"), node("o/a")]);
    set.add_hits(&vec![node("o/b"), node("o/c")]);
    let names: Vec<&str> = set.repos.iter().map(|r| r.full_name.as_str()).collect();
    assert_eq!(names, vec!["o/a", "o/b", "o/c"]);
    assert!(set.contains_name(&"o/c".to_string()));
    assert!(!set.contains_name(&"o/d".to_string()));
}

#[test]
fn move_paths() {
    assert!(path_is_move(&"sources/coin.move".to_string()));
    assert!(path_is_move(&".move".to_string()));
    assert!(!path_is_move(&"move".to_string()));
    assert!(!path_is_move(&"coin.moved".to_string()));
    assert!(!path_is_move(&"README.md".to_string()));
    assert!(any_move_path(&vec![None, Some("a.rs".to_string()), Some("b/c.move".to_string())]));
    assert!(!any_move_path(&vec![None, Some("a.rs".to_string())]));
}

#[test]
fn tree_not_found_is_false_not_error() {
    let entries = Some(vec![Some("x.move".to_string())]);
    assert!(!tree_has_move_files(404, &entries));
    assert!(!tree_has_move_files(409, &entries));
    assert!(!tree_has_move_files(200, &None));
    assert!(tree_has_move_files(200, &entries));
    assert!(!tree_has_move_files(200, &Some(vec![Some("x.rs".to_string())])));
}
