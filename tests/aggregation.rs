use move_dev_finder::aggregate::{
    aggregate_contributors, fleet_report, merge_contributor, rank_aggregates, Contributor,
    RepoContributors, UserAggregate,
};
use move_dev_finder::ranking::order_by_key_desc;

fn who(login: &str, n: u64) -> Contributor {
    Contributor {
        login: login.to_string(),
        avatar_url: format!("https://avatars/{}", login),
        profile_url: format!("https://profiles/{}", login),
        contributions: n,
    }
}

fn batch(repo: &str, cs: Vec<Contributor>) -> RepoContributors {
    RepoContributors { repo: repo.to_string(), contributors: cs }
}

fn find<'a>(aggs: &'a [UserAggregate], login: &str) -> &'a UserAggregate {
    aggs.iter().find(|a| a.login == login).unwrap()
}

#[test]
fn alice_across_two_repositories() {
    let batches = vec![batch("A", vec![who("alice", 5)]), batch("B", vec![who("alice", 3)])];
    let r = fleet_report(&batches, 10);
    assert_eq!(r.len(), 1);
    assert_eq!(r[0].login, "alice");
    assert_eq!(r[0].total_contributions, 8);
    assert_eq!(r[0].repositories, vec!["A".to_string(), "B".to_string()]);
}

#[test]
fn fewer_contributors_than_limit() {
    let batches = vec![
        batch("A", vec![who("solo", 2)]),
        batch("B", vec![who("solo", 1)]),
        batch("C", vec![]),
    ];
    let r = fleet_report(&batches, 2);
    assert_eq!(r.len(), 1);
    assert_eq!(r[0].total_contributions, 3);
}

#[test]
fn totals_do_not_depend_on_repository_order() {
    let a = batch("A", vec![who("x", 4), who("y", 1)]);
    let b = batch("B", vec![who("y", 7)]);
    let c = batch("C", vec![who("x", 2), who("z", 9)]);
    let orders = vec![
        vec![a.clone(), b.clone(), c.clone()],
        vec![c.clone(), a.clone(), b.clone()],
        vec![b.clone(), c.clone(), a.clone()],
    ];
    for o in &orders {
        let aggs = aggregate_contributors(o);
        assert_eq!(aggs.len(), 3);
        assert_eq!(find(&aggs, "x").total_contributions, 6);
        assert_eq!(find(&aggs, "y").total_contributions, 8);
        assert_eq!(find(&aggs, "z").total_contributions, 9);
        let mut xs = find(&aggs, "x").repositories.clone();
        xs.sort();
        assert_eq!(xs, vec!["A".to_string(), "C".to_string()]);
    }
}

#[test]
fn repository_listed_once_per_login() {
    let mut aggs: Vec<UserAggregate> = Vec::new();
    merge_contributor(&mut aggs, &"A".to_string(), &who("x", 1));
    merge_contributor(&mut aggs, &"A".to_string(), &who("x", 2));
    merge_contributor(&mut aggs, &"B".to_string(), &who("x", 3));
    assert_eq!(aggs.len(), 1);
    assert_eq!(aggs[0].total_contributions, 6);
    assert_eq!(aggs[0].repositories, vec!["A".to_string(), "B".to_string()]);
    assert_eq!(aggs[0].avatar_url, "https://avatars/x");
}

#[test]
fn totals_saturate_at_the_largest_count() {
    let batches = vec![batch("A", vec![who("big", u64::MAX)]), batch("B", vec![who("big", 5)])];
    let aggs = aggregate_contributors(&batches);
    assert_eq!(aggs[0].total_contributions, u64::MAX);
}

#[test]
fn ranking_is_descending_and_stable() {
    let batches = vec![batch(
        "A",
        vec![who("p", 2), who("q", 5), who("r", 2), who("s", 9)],
    )];
    let r = fleet_report(&batches, 10);
    let logins: Vec<&str> = r.iter().map(|a| a.login.as_str()).collect();
    assert_eq!(logins, vec!["s", "q", "p", "r"]);
    let top = rank_aggregates(&aggregate_contributors(&batches), 2);
    assert_eq!(top.len(), 2);
    assert_eq!(top[1].login, "q");
    assert_eq!(order_by_key_desc(&vec![1, 3, 1, 3]), vec![1, 3, 0, 2]);
    assert_eq!(order_by_key_desc(&vec![]), Vec::<usize>::new());
}
