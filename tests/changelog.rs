use cocogitto::changelog::render;
use cocogitto::commit::{parse, Commit};
use cocogitto::commit_type::CommitType;
use cocogitto::filter::{CommitFilter, CommitFilters};

fn commit(message: &str, author: &str) -> Commit {
    let custom = vec![
        ("wip".to_string(), "Work In Progress".to_string()),
        ("sec".to_string(), "Security".to_string()),
    ];
    parse(message, author, "abc1234", &custom).unwrap()
}

fn sample() -> Vec<Commit> {
    vec![
        commit("chore: tidy", "ann"),
        commit("feat(ui): button", "bob"),
        commit("fix(db): leak", "ann"),
        commit("feat: core thing", "ann"),
        commit("sec: patch hole", "bob"),
        commit("feat(api): endpoint", "bob"),
        commit("wip: half done", "ann"),
        commit("fix!: remove old", "bob"),
    ]
}

#[test]
fn type_filters_give_the_union() {
    let commits = sample();
    let filters = CommitFilters(vec![
        CommitFilter::Type(CommitType::Feature),
        CommitFilter::Type(CommitType::BugFix),
    ]);
    assert_eq!(filters.select(&commits), vec![1, 2, 3, 5, 7]);
}

#[test]
fn filter_kinds_combine_with_and() {
    let commits = sample();
    let filters = CommitFilters(vec![
        CommitFilter::Type(CommitType::Feature),
        CommitFilter::Author("bob".to_string()),
    ]);
    assert_eq!(filters.select(&commits), vec![1, 5]);
    let breaking = CommitFilters(vec![CommitFilter::BreakingChange]);
    assert_eq!(breaking.select(&commits), vec![7]);
    let scoped = CommitFilters(vec![
        CommitFilter::Scope("db".to_string()),
        CommitFilter::Scope("ui".to_string()),
    ]);
    assert_eq!(scoped.select(&commits), vec![1, 2]);
}

#[test]
fn empty_and_no_error_filters_accept_everything() {
    let commits = sample();
    assert_eq!(CommitFilters(vec![]).select(&commits), vec![0, 1, 2, 3, 4, 5, 6, 7]);
    let no_error = CommitFilters(vec![CommitFilter::NoError]);
    assert_eq!(no_error.select(&commits).len(), 8);
    assert!(no_error.suppresses_errors());
    assert!(!CommitFilters(vec![CommitFilter::BreakingChange]).suppresses_errors());
}

#[test]
fn matching_twice_gives_the_same_answer() {
    let commits = sample();
    let filters = CommitFilters(vec![CommitFilter::Author("ann".to_string())]);
    for c in commits.iter() {
        assert_eq!(filters.matches(c), filters.matches(c));
    }
    assert!(filters.matches(&commits[0]));
    assert!(!filters.matches(&commits[1]));
}

#[test]
fn sections_follow_the_priority_order() {
    let commits = sample();
    let sections = render(&commits);
    let titles: Vec<&str> = sections.iter().map(|s| s.commit_type.get_markdown_title()).collect();
    assert_eq!(
        titles,
        vec!["Feature", "Bug Fixes", "Miscellaneous Chores", "Security", "Work In Progress"]
    );
}

#[test]
fn commits_are_sorted_by_scope_within_sections() {
    let commits = sample();
    let sections = render(&commits);
    // no scope first, then "api" before "ui"
    assert_eq!(sections[0].commits, vec![3, 5, 1]);
    // no scope first, then "db"
    assert_eq!(sections[1].commits, vec![7, 2]);
    assert_eq!(sections[2].commits, vec![0]);
}

#[test]
fn equal_scopes_keep_discovery_order() {
    let commits = vec![
        commit("feat(x): one", "a"),
        commit("feat: two", "a"),
        commit("feat(x): three", "a"),
    ];
    assert_eq!(render(&commits)[0].commits, vec![1, 0, 2]);
}

#[test]
fn rendering_is_stable_across_runs_and_orders() {
    let commits = sample();
    assert_eq!(render(&commits), render(&commits));
    let mut reversed = sample();
    reversed.reverse();
    let a: Vec<CommitType> = render(&commits).into_iter().map(|s| s.commit_type).collect();
    let b: Vec<CommitType> = render(&reversed).into_iter().map(|s| s.commit_type).collect();
    assert_eq!(a[..3], b[..3]);
    // the reversed sections name the same commits, sorted the same way
    let sr = render(&reversed);
    let names: Vec<String> = sr[0].commits.iter().map(|&i| reversed[i].description.clone()).collect();
    assert_eq!(names, vec!["core thing", "endpoint", "button"]);
}

#[test]
fn no_commits_give_no_sections() {
    assert!(render(&vec![]).is_empty());
}
