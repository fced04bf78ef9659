use move_dev_finder::aggregate::{Contributor, UserAggregate};
use move_dev_finder::discovery::RepoNode;
use move_dev_finder::fetch::FetchError;
use move_dev_finder::fleet::{FleetAction, FleetSession};

/// A fake platform: search pages per query, which repositories hold Move
/// files, and each repository's contributors.
struct Fake {
    search: Vec<(&'static str, Vec<Vec<&'static str>>)>,
    with_move: Vec<&'static str>,
    contributors: Vec<(&'static str, Vec<(&'static str, u64)>)>,
}

fn hit(name: &str) -> RepoNode {
    RepoNode { name_with_owner: Some(name.to_string()), url: Some(format!("u/{}", name)), default_branch: None }
}

fn run(fake: &Fake, limit: usize) -> (Vec<UserAggregate>, Vec<String>, usize) {
    let queries: Vec<String> = fake.search.iter().map(|(q, _)| q.to_string()).collect();
    let mut s = FleetSession::new(queries, limit, 3, 10, 600, 100);
    let mut now: u64 = 0;
    let mut searched: Vec<String> = Vec::new();
    let mut max_candidates = 0usize;
    for _ in 0..10_000 {
        max_candidates = max_candidates.max(s.candidates.repos.len());
        match s.next_action(now) {
            FleetAction::Search { query, page } => {
                let pages = &fake.search.iter().find(|(q, _)| *q == query).unwrap().1;
                let hits: Vec<RepoNode> =
                    pages.get((page - 1) as usize).map(|p| p.iter().map(|n| hit(n)).collect()).unwrap_or_default();
                searched.push(format!("{}#{}", query, page));
                now += 1;
                s.on_search_page(&hits, now);
            }
            FleetAction::FetchTree { full_name, .. } => {
                now += 1;
                let path = if fake.with_move.contains(&full_name.as_str()) { "m.move" } else { "m.rs" };
                s.on_tree(200, &Some(vec![Some(path.to_string())]), now);
            }
            FleetAction::FetchContributors { full_name } => {
                now += 1;
                match fake.contributors.iter().find(|(n, _)| *n == full_name) {
                    Some((_, cs)) => {
                        let cs: Vec<Contributor> = cs
                            .iter()
                            .map(|(l, n)| Contributor {
                                login: l.to_string(),
                                avatar_url: String::new(),
                                profile_url: String::new(),
                                contributions: *n,
                            })
                            .collect();
                        s.on_contributors(200, cs, now);
                    }
                    None => s.on_contributors(404, Vec::new(), now),
                }
            }
            FleetAction::WaitUntil(t) => now = t,
            FleetAction::Finished(r) => return (r, searched, max_candidates),
            other => panic!("unexpected {:?}", other),
        }
    }
    panic!("session did not finish");
}

#[test]
fn fleet_alice_in_two_repositories() {
    let fake = Fake {
        search: vec![("extension:move", vec![vec!["o/A", "o/B"]])],
        with_move: vec!["o/A", "o/B"],
        contributors: vec![("o/A", vec![("alice", 5)]), ("o/B", vec![("alice", 3)])],
    };
    let (r, _, _) = run(&fake, 10);
    assert_eq!(r.len(), 1);
    assert_eq!(r[0].login, "alice");
    assert_eq!(r[0].total_contributions, 8);
    assert_eq!(r[0].repositories, vec!["o/A".to_string(), "o/B".to_string()]);
}

#[test]
fn fleet_single_contributor_with_limit_two() {
    let fake = Fake {
        search: vec![("extension:move", vec![vec!["o/A", "o/B", "o/C"]])],
        with_move: vec!["o/A", "o/C"],
        contributors: vec![("o/A", vec![("bob", 2)]), ("o/C", vec![("bob", 4)])],
    };
    let (r, _, _) = run(&fake, 2);
    assert_eq!(r.len(), 1);
    assert_eq!(r[0].total_contributions, 6);
}

#[test]
fn fleet_discovery_stops_at_oversampling_cap() {
    let many: Vec<&'static str> = vec!["o/1", "o/2", "o/3", "o/4", "o/5", "o/6", "o/7", "o/8"];
    let fake = Fake {
        search: vec![
            ("q1", vec![many[..4].to_vec(), many[4..].to_vec()]),
            ("q2", vec![vec!["o/9"]]),
        ],
        with_move: vec![],
        contributors: vec![],
    };
    let (r, searched, max_candidates) = run(&fake, 2);
    assert!(r.is_empty());
    assert_eq!(max_candidates, 6);
    assert_eq!(searched, vec!["q1#1".to_string(), "q1#2".to_string()]);
}

#[test]
fn fleet_queries_tried_in_sequence_and_deduplicated() {
    let fake = Fake {
        search: vec![("q1", vec![vec!["o/A"]]), ("q2", vec![vec!["o/A", "o/B"]])],
        with_move: vec!["o/A", "o/B"],
        contributors: vec![("o/A", vec![("x", 1)]), ("o/B", vec![("y", 2), ("x", 1)])],
    };
    let (r, searched, max_candidates) = run(&fake, 5);
    assert_eq!(searched, vec!["q1#1", "q1#2", "q2#1", "q2#2"]);
    assert_eq!(max_candidates, 2);
    let logins: Vec<&str> = r.iter().map(|a| a.login.as_str()).collect();
    assert_eq!(logins, vec!["x", "y"]);
    assert_eq!(r[0].total_contributions, 2);
}

#[test]
fn fleet_search_failure_aborts() {
    let mut s = FleetSession::new(vec!["q".to_string()], 1, 3, 10, 0, 0);
    assert_eq!(s.next_action(0), FleetAction::Search { query: "q".to_string(), page: 1 });
    s.fail(FetchError::RateLimited { retry_after_ms: 6000 });
    assert_eq!(s.next_action(1), FleetAction::Failed(FetchError::RateLimited { retry_after_ms: 6000 }));
}

#[test]
fn fleet_failed_listing_leaves_repository_out() {
    let mut s = FleetSession::new(vec!["q".to_string()], 3, 3, 10, 0, 0);
    assert!(matches!(s.next_action(0), FleetAction::Search { .. }));
    s.on_search_page(&vec![hit("o/A")], 0);
    assert!(matches!(s.next_action(0), FleetAction::Search { .. }));
    s.on_search_page(&vec![], 0);
    assert!(matches!(s.next_action(0), FleetAction::FetchTree { .. }));
    s.on_tree(200, &Some(vec![Some("a.move".to_string())]), 0);
    assert_eq!(s.next_action(0), FleetAction::FetchContributors { full_name: "o/A".to_string() });
    s.on_contributors_failure(0);
    assert_eq!(s.next_action(0), FleetAction::Finished(vec![]));
}

#[test]
fn fleet_search_reads_at_most_the_page_cap() {
    let mut s = FleetSession::new(vec!["q".to_string(), "r".to_string()], 100, 3, 2, 0, 0);
    assert_eq!(s.next_action(0), FleetAction::Search { query: "q".to_string(), page: 1 });
    s.on_search_page(&vec![hit("o/1")], 0);
    assert_eq!(s.next_action(0), FleetAction::Search { query: "q".to_string(), page: 2 });
    s.on_search_page(&vec![hit("o/2")], 0);
    assert_eq!(s.next_action(0), FleetAction::Search { query: "r".to_string(), page: 1 });
    s.on_search_page(&vec![], 0);
    assert!(matches!(s.next_action(0), FleetAction::FetchTree { .. }));
    assert_eq!(s.candidates.repos.len(), 2);
}

#[test]
fn fleet_search_to_tree_waits_for_search_cooldown() {
    let mut s = FleetSession::new(vec!["q".to_string()], 1, 3, 10, 6000, 300);
    assert!(matches!(s.next_action(0), FleetAction::Search { .. }));
    s.on_search_page(&vec![hit("o/A")], 10);
    assert_eq!(s.next_action(10), FleetAction::WaitUntil(6010));
    assert_eq!(s.next_action(6010), FleetAction::Search { query: "q".to_string(), page: 2 });
    s.on_search_page(&vec![], 6020);
    assert_eq!(s.next_action(6020), FleetAction::WaitUntil(12020));
    assert!(matches!(s.next_action(12020), FleetAction::FetchTree { .. }));
    s.on_tree(200, &Some(vec![Some("m.move".to_string())]), 12030);
    assert_eq!(s.next_action(12030), FleetAction::WaitUntil(12330));
}

#[test]
fn fleet_first_hit_of_a_name_supplies_its_fields() {
    let mut s = FleetSession::new(vec!["q".to_string()], 5, 3, 10, 0, 0);
    assert!(matches!(s.next_action(0), FleetAction::Search { .. }));
    let first = RepoNode { name_with_owner: Some("o/A".to_string()), url: Some("first".to_string()), default_branch: Some("dev".to_string()) };
    let second = RepoNode { name_with_owner: Some("o/A".to_string()), url: Some("second".to_string()), default_branch: None };
    s.on_search_page(&vec![first, second], 0);
    assert_eq!(s.candidates.repos.len(), 1);
    assert_eq!(s.candidates.repos[0].html_url, "first");
    assert_eq!(s.candidates.repos[0].default_branch, "dev");
}

#[test]
fn fleet_finish_early_ranks_what_was_gathered() {
    let mut s = FleetSession::new(vec!["q".to_string()], 5, 3, 10, 0, 0);
    assert!(matches!(s.next_action(0), FleetAction::Search { .. }));
    s.on_search_page(&vec![hit("o/A"), hit("o/B")], 0);
    assert!(matches!(s.next_action(0), FleetAction::Search { .. }));
    s.on_search_page(&vec![], 0);
    for _ in 0..2 {
        assert!(matches!(s.next_action(0), FleetAction::FetchTree { .. }));
        s.on_tree(200, &Some(vec![Some("m.move".to_string())]), 0);
    }
    assert_eq!(s.next_action(0), FleetAction::FetchContributors { full_name: "o/A".to_string() });
    let c = Contributor { login: "x".to_string(), avatar_url: String::new(), profile_url: String::new(), contributions: 3 };
    s.on_contributors(200, vec![c], 0);
    assert_eq!(s.next_action(0), FleetAction::FetchContributors { full_name: "o/B".to_string() });
    let r = s.finish_early();
    assert_eq!(r.len(), 1);
    assert_eq!(r[0].login, "x");
    assert_eq!(r[0].total_contributions, 3);
}
