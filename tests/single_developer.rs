use move_dev_finder::discovery::RepoNode;
use move_dev_finder::fetch::FetchError;
use move_dev_finder::report::{build_report, count_commits, RepositoryWithCommits, UserMoveFilesResponse};
use move_dev_finder::session::{SessionAction, UserReportSession};

#[test]
fn commit_count_ignores_page_boundaries() {
    assert_eq!(count_commits(&vec![2, 2, 2, 0]), 6);
    assert_eq!(count_commits(&vec![6, 0]), 6);
    assert_eq!(count_commits(&vec![]), 0);
    assert_eq!(count_commits(&vec![u64::MAX, 1]), u64::MAX);
}

fn summary(name: &str, n: u64) -> RepositoryWithCommits {
    RepositoryWithCommits { repo_name: name.to_string(), repo_url: format!("u/{}", name), commit_count: n }
}

#[test]
fn report_sorts_by_commit_count() {
    let r = build_report(&"dev".to_string(), &vec![summary("a", 1), summary("b", 4), summary("c", 1)]);
    assert_eq!(r.username, "dev");
    assert!(r.has_move_files);
    assert_eq!(r.total_repositories, 3);
    assert_eq!(r.total_commits, 6);
    let names: Vec<&str> = r.repositories.iter().map(|s| s.repo_name.as_str()).collect();
    assert_eq!(names, vec!["b", "a", "c"]);
    let empty = build_report(&"dev".to_string(), &vec![]);
    assert!(!empty.has_move_files);
    assert_eq!(empty.total_commits, 0);
}

/// A fake platform: the owned repositories, which of them hold Move files,
/// and the commit pages of each.
struct Fake {
    repos: Vec<&'static str>,
    with_move: Vec<&'static str>,
    commit_pages: Vec<(&'static str, Vec<u64>)>,
    page_size: usize,
}

fn run(fake: &Fake, delay: u64) -> (UserMoveFilesResponse, usize) {
    let mut s = UserReportSession::new("dev".to_string(), delay);
    let mut now: u64 = 0;
    let mut calls = 0usize;
    for _ in 0..10_000 {
        match s.next_action(now) {
            SessionAction::ListRepositories { after } => {
                calls += 1;
                let start: usize = after.map(|t| t.parse().unwrap()).unwrap_or(0);
                let end = (start + fake.page_size).min(fake.repos.len());
                let nodes: Vec<RepoNode> = fake.repos[start..end]
                    .iter()
                    .map(|n| RepoNode {
                        name_with_owner: Some(n.to_string()),
                        url: Some(format!("u/{}", n)),
                        default_branch: None,
                    })
                    .collect();
                now += 1;
                s.on_repo_page(&nodes, end < fake.repos.len(), Some(end.to_string()), now);
            }
            SessionAction::FetchTree { full_name, branch } => {
                calls += 1;
                assert_eq!(branch, "main");
                now += 1;
                if fake.with_move.contains(&full_name.as_str()) {
                    s.on_tree(200, &Some(vec![Some("sources/m.move".to_string())]), now);
                } else if full_name.ends_with("gone") {
                    s.on_tree(404, &None, now);
                } else {
                    s.on_tree(200, &Some(vec![Some("src/lib.rs".to_string())]), now);
                }
            }
            SessionAction::FetchCommits { full_name, page } => {
                calls += 1;
                let pages = &fake.commit_pages.iter().find(|(n, _)| *n == full_name).unwrap().1;
                let count = pages.get((page - 1) as usize).copied().unwrap_or(0);
                now += 1;
                s.on_commit_page(200, count, now);
            }
            SessionAction::WaitUntil(t) => now = t,
            SessionAction::Finished(r) => return (r, calls),
            other => panic!("unexpected {:?}", other),
        }
    }
    panic!("session did not finish");
}

#[test]
fn account_with_one_move_repository() {
    let fake = Fake {
        repos: vec!["dev/app", "dev/contracts", "dev/gone"],
        with_move: vec!["dev/contracts"],
        commit_pages: vec![("dev/contracts", vec![3, 2])],
        page_size: 2,
    };
    let (r, _) = run(&fake, 300);
    assert!(r.has_move_files);
    assert_eq!(r.total_repositories, 1);
    assert_eq!(r.total_commits, 5);
    assert_eq!(r.repositories.len(), 1);
    assert_eq!(r.repositories[0].repo_name, "dev/contracts");
    assert_eq!(r.repositories[0].repo_url, "u/dev/contracts");
}

#[test]
fn commit_total_same_for_any_page_split() {
    let one = Fake {
        repos: vec!["dev/m"],
        with_move: vec!["dev/m"],
        commit_pages: vec![("dev/m", vec![6])],
        page_size: 50,
    };
    let three = Fake {
        repos: vec!["dev/m"],
        with_move: vec!["dev/m"],
        commit_pages: vec![("dev/m", vec![2, 2, 2])],
        page_size: 50,
    };
    assert_eq!(run(&three, 0).0.total_commits, 6);
    assert_eq!(run(&one, 0).0.total_commits, 6);
}

#[test]
fn account_without_move_files() {
    let fake = Fake { repos: vec!["dev/a", "dev/b"], with_move: vec![], commit_pages: vec![], page_size: 1 };
    let (r, calls) = run(&fake, 10);
    assert!(!r.has_move_files);
    assert_eq!(r.total_repositories, 0);
    assert_eq!(r.total_commits, 0);
    assert_eq!(calls, 4);
}

#[test]
fn listing_failure_aborts() {
    let mut s = UserReportSession::new("dev".to_string(), 0);
    assert_eq!(s.next_action(0), SessionAction::ListRepositories { after: None });
    s.fail(FetchError::Transport);
    assert_eq!(s.next_action(1), SessionAction::Failed(FetchError::Transport));
}

#[test]
fn commit_failure_skips_repository() {
    let mut s = UserReportSession::new("dev".to_string(), 0);
    assert_eq!(s.next_action(0), SessionAction::ListRepositories { after: None });
    let nodes = vec![RepoNode { name_with_owner: Some("dev/m".to_string()), url: None, default_branch: None }];
    s.on_repo_page(&nodes, false, None, 0);
    assert!(matches!(s.next_action(0), SessionAction::FetchTree { .. }));
    s.on_tree(200, &Some(vec![Some("a.move".to_string())]), 0);
    assert_eq!(s.next_action(0), SessionAction::FetchCommits { full_name: "dev/m".to_string(), page: 1 });
    s.on_commit_failure(0);
    match s.next_action(0) {
        SessionAction::Finished(r) => {
            assert_eq!(r.total_repositories, 0);
            assert!(!r.has_move_files);
        }
        other => panic!("unexpected {:?}", other),
    }
}

fn one_repo_session(delay: u64) -> UserReportSession {
    let mut s = UserReportSession::new("dev".to_string(), delay);
    assert_eq!(s.next_action(0), SessionAction::ListRepositories { after: None });
    let nodes = vec![RepoNode { name_with_owner: Some("dev/m".to_string()), url: None, default_branch: None }];
    s.on_repo_page(&nodes, false, None, 5);
    s
}

#[test]
fn listing_to_tree_waits_for_delay() {
    let mut s = one_repo_session(300);
    assert_eq!(s.next_action(5), SessionAction::WaitUntil(305));
    assert!(matches!(s.next_action(305), SessionAction::FetchTree { .. }));
}

#[test]
fn tree_to_commits_waits_for_delay() {
    let mut s = one_repo_session(300);
    assert!(matches!(s.next_action(305), SessionAction::FetchTree { .. }));
    s.on_tree(200, &Some(vec![Some("a.move".to_string())]), 400);
    assert_eq!(s.next_action(400), SessionAction::WaitUntil(700));
    assert_eq!(s.next_action(700), SessionAction::FetchCommits { full_name: "dev/m".to_string(), page: 1 });
}

#[test]
fn commit_page_error_leaves_repository_out() {
    for status in [403u16, 404, 429, 500] {
        let mut s = one_repo_session(0);
        assert!(matches!(s.next_action(5), SessionAction::FetchTree { .. }));
        s.on_tree(200, &Some(vec![Some("a.move".to_string())]), 5);
        assert!(matches!(s.next_action(5), SessionAction::FetchCommits { page: 1, .. }));
        s.on_commit_page(200, 100, 5);
        assert!(matches!(s.next_action(5), SessionAction::FetchCommits { page: 2, .. }));
        s.on_commit_page(status, 0, 5);
        match s.next_action(5) {
            SessionAction::Finished(r) => {
                assert_eq!(r.total_repositories, 0);
                assert_eq!(r.total_commits, 0);
            }
            other => panic!("unexpected {:?}", other),
        }
    }
}

#[test]
fn finish_early_reports_counted_so_far() {
    let mut s = UserReportSession::new("dev".to_string(), 0);
    assert!(matches!(s.next_action(0), SessionAction::ListRepositories { .. }));
    let nodes: Vec<RepoNode> = ["dev/a", "dev/b"]
        .iter()
        .map(|n| RepoNode { name_with_owner: Some(n.to_string()), url: None, default_branch: None })
        .collect();
    s.on_repo_page(&nodes, false, None, 0);
    for _ in 0..2 {
        assert!(matches!(s.next_action(0), SessionAction::FetchTree { .. }));
        s.on_tree(200, &Some(vec![Some("a.move".to_string())]), 0);
    }
    assert!(matches!(s.next_action(0), SessionAction::FetchCommits { .. }));
    s.on_commit_page(200, 4, 0);
    assert!(matches!(s.next_action(0), SessionAction::FetchCommits { .. }));
    s.on_commit_page(200, 0, 0);
    assert!(matches!(s.next_action(0), SessionAction::FetchCommits { .. }));
    let r = s.finish_early();
    assert_eq!(r.total_repositories, 1);
    assert_eq!(r.total_commits, 4);
    assert_eq!(r.repositories[0].repo_name, "dev/a");
}
