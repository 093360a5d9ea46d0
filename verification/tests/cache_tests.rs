use usaco_cli::cache::ProblemCache;
use usaco_cli::division::Division;
use usaco_cli::problem::{IoMode, Problem};

fn make_problem(id: u64, name: &str) -> Problem {
    Problem {
        name: name.to_string(),
        id,
        contest: "December Contest".to_string(),
        division: Division::Bronze,
        problem_num: 1,
        description: "desc".to_string(),
        released_data: None,
        test_cases: Vec::new(),
        input: IoMode::Stdio,
        output: IoMode::Stdio,
    }
}

#[test]
fn cache_never_exceeds_capacity() {
    let mut cache = ProblemCache::new();
    for id in 1..=15u64 {
        cache.insert(make_problem(id, "p"));
        assert!(cache.len() <= 10);
        // the most recently inserted problem is always at the front
        assert_eq!(cache.list()[0].id, id);
    }
    assert_eq!(cache.len(), 10);
    // the oldest entries were evicted from the tail
    let ids: Vec<u64> = cache.list().iter().map(|p| p.id).collect();
    assert_eq!(ids, vec![15, 14, 13, 12, 11, 10, 9, 8, 7, 6]);
}

#[test]
fn cache_hit_promotes_to_front() {
    let mut cache = ProblemCache::new();
    for id in 1..=5u64 {
        cache.insert(make_problem(id, "p"));
    }
    let hit = cache.get(3);
    assert!(hit.is_some());
    assert_eq!(hit.unwrap().id, 3);
    let ids: Vec<u64> = cache.list().iter().map(|p| p.id).collect();
    assert_eq!(ids, vec![3, 5, 4, 2, 1]);
}

#[test]
fn cache_miss_changes_nothing() {
    let mut cache = ProblemCache::new();
    cache.insert(make_problem(1, "a"));
    cache.insert(make_problem(2, "b"));
    assert!(cache.get(77).is_none());
    let ids: Vec<u64> = cache.list().iter().map(|p| p.id).collect();
    assert_eq!(ids, vec![2, 1]);
}

#[test]
fn cache_insert_same_id_replaces_and_promotes() {
    let mut cache = ProblemCache::new();
    cache.insert(make_problem(1, "first"));
    cache.insert(make_problem(2, "second"));
    cache.insert(make_problem(1, "renamed"));
    assert_eq!(cache.len(), 2);
    let listed = cache.list();
    assert_eq!(listed[0].id, 1);
    assert_eq!(listed[0].name, "renamed");
    assert_eq!(listed[1].id, 2);
}

#[test]
fn remove_with_empty_set_clears_all() {
    let mut cache = ProblemCache::new();
    for id in 1..=4u64 {
        cache.insert(make_problem(id, "p"));
    }
    let count = cache.remove(&Vec::new());
    assert_eq!(count, 4);
    assert_eq!(cache.len(), 0);
}

#[test]
fn remove_with_ids_removes_only_matching() {
    let mut cache = ProblemCache::new();
    for id in 1..=5u64 {
        cache.insert(make_problem(id, "p"));
    }
    // 2 and 4 are present, 99 is not: exactly two entries go
    let count = cache.remove(&vec![2, 4, 99]);
    assert_eq!(count, 2);
    let ids: Vec<u64> = cache.list().iter().map(|p| p.id).collect();
    assert_eq!(ids, vec![5, 3, 1]);
}

#[test]
fn remove_missing_id_counts_zero() {
    let mut cache = ProblemCache::new();
    cache.insert(make_problem(1, "p"));
    let count = cache.remove(&vec![42]);
    assert_eq!(count, 0);
    assert_eq!(cache.len(), 1);
}

#[test]
fn cache_round_trips_through_list() {
    let mut cache = ProblemCache::new();
    for id in [7u64, 3, 9] {
        cache.insert(make_problem(id, "p"));
    }
    let snapshot = cache.list();
    let reloaded = ProblemCache::from_list(snapshot);
    let before: Vec<(u64, String)> =
        cache.list().iter().map(|p| (p.id, p.name.clone())).collect();
    let after: Vec<(u64, String)> =
        reloaded.list().iter().map(|p| (p.id, p.name.clone())).collect();
    assert_eq!(before, after);
    assert_eq!(after[0].0, 9);
}

#[test]
fn from_list_truncates_and_dedups() {
    let mut problems = Vec::new();
    for id in 1..=12u64 {
        problems.push(make_problem(id, "p"));
    }
    let cache = ProblemCache::from_list(problems);
    assert_eq!(cache.len(), 10);
    let ids: Vec<u64> = cache.list().iter().map(|p| p.id).collect();
    assert_eq!(ids, (1..=10u64).collect::<Vec<u64>>());

    let dup = vec![make_problem(5, "first"), make_problem(5, "second")];
    let cache = ProblemCache::from_list(dup);
    assert_eq!(cache.len(), 1);
    assert_eq!(cache.list()[0].name, "first");
}
