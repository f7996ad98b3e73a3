use gh_overseer::config::Config;
use gh_overseer::records::{Issue, IssueComment, PullRequestComment, PullRequestReview, ReviewState};
use gh_overseer::stats::Stats;
use gh_overseer::time::Timestamp;

fn at(text: &str) -> Timestamp {
    let t = chrono::DateTime::parse_from_rfc3339(text).unwrap();
    Timestamp::new(t.timestamp(), t.timestamp_subsec_nanos())
}

fn config(users: &[&str], lgtms: &[&str]) -> Config {
    Config::new(
        String::from("https://hook.example"),
        String::from("token"),
        users.iter().map(|u| u.to_string()).collect(),
        vec![String::from("acme/widgets")],
        lgtms.iter().map(|l| l.to_string()).collect(),
    )
}

fn january(users: &[&str]) -> Stats {
    Stats::new(
        &config(users, &["ShipIt"]),
        at("2024-01-01T00:00:00Z"),
        at("2024-01-31T23:59:59Z"),
    )
}

fn issue(number: u64, author: &str, created: &str, pr: bool) -> Issue {
    Issue { number, author: author.to_string(), created_at: at(created), is_pull_request: pr }
}

fn pr_comment(author: Option<&str>, body: &str, created: &str) -> PullRequestComment {
    PullRequestComment {
        author: author.map(|a| a.to_string()),
        body: body.to_string(),
        created_at: at(created),
        updated_at: at(created),
    }
}

fn review(author: &str, state: Option<ReviewState>, submitted: Option<&str>) -> PullRequestReview {
    PullRequestReview {
        author: Some(author.to_string()),
        state,
        submitted_at: submitted.map(at),
    }
}

fn all_of(s: &Stats, user: &str) -> [u64; 6] {
    [
        s.issues_of(user),
        s.prs_of(user),
        s.issue_comments_of(user),
        s.pr_reviews_of(user),
        s.lgtms_of(user),
        s.labels_of(user),
    ]
}

#[test]
fn january_scenario_for_alice() {
    let mut s = january(&["alice"]);
    s.traverse_issues(vec![issue(1, "alice", "2024-01-15T00:00:00Z", false)]);
    s.traverse_pull_request_comments(vec![pr_comment(
        Some("alice"),
        "ShipIt, thanks!",
        "2024-01-10T00:00:00Z",
    )]);
    s.traverse_pull_request_reviews(vec![review(
        "alice",
        Some(ReviewState::Approved),
        Some("2024-02-01T00:00:00Z"),
    )]);
    assert_eq!(s.issues_of("alice"), 1);
    assert_eq!(s.lgtms_of("alice"), 1);
    assert_eq!(s.pr_reviews_of("alice"), 0);
    assert_eq!(all_of(&s, "alice"), [1, 0, 0, 0, 1, 0]);
}

#[test]
fn merged_workers_add_up() {
    let mut a = january(&["bob"]);
    a.traverse_issues(vec![
        issue(1, "bob", "2024-01-02T00:00:00Z", false),
        issue(2, "bob", "2024-01-03T00:00:00Z", false),
    ]);
    let mut b = january(&["bob"]);
    b.traverse_issues(vec![
        issue(3, "bob", "2024-01-04T00:00:00Z", false),
        issue(4, "bob", "2024-01-05T00:00:00Z", false),
        issue(5, "bob", "2024-01-06T00:00:00Z", false),
    ]);
    assert_eq!(a.issues_of("bob"), 2);
    assert_eq!(b.issues_of("bob"), 3);
    assert!(a.can_merge(&b));
    a.merge(b);
    assert_eq!(a.issues_of("bob"), 5);
}

fn sample(users: &[(&str, u64, bool)]) -> Stats {
    let mut s = january(&["ann", "ben", "cy"]);
    let mut issues = Vec::new();
    let mut n: u64 = 0;
    for (user, count, pr) in users {
        for _ in 0..*count {
            n += 1;
            issues.push(issue(n, user, "2024-01-20T12:00:00Z", *pr));
        }
    }
    s.traverse_issues(issues);
    s
}

#[test]
fn merge_commutes_on_counts() {
    let mut ab = sample(&[("ann", 2, false), ("ben", 1, true)]);
    ab.merge(sample(&[("ben", 3, true), ("cy", 1, false)]));
    let mut ba = sample(&[("ben", 3, true), ("cy", 1, false)]);
    ba.merge(sample(&[("ann", 2, false), ("ben", 1, true)]));
    for user in ["ann", "ben", "cy", "dan"] {
        assert_eq!(all_of(&ab, user), all_of(&ba, user));
    }
    assert_eq!(all_of(&ab, "ben"), [0, 4, 0, 0, 0, 0]);
}

#[test]
fn merge_associates_on_counts() {
    let a = || sample(&[("ann", 1, false)]);
    let b = || sample(&[("ann", 2, false), ("cy", 1, true)]);
    let c = || sample(&[("cy", 4, true)]);
    let mut left = a();
    left.merge(b());
    left.merge(c());
    let mut bc = b();
    bc.merge(c());
    let mut right = a();
    right.merge(bc);
    for user in ["ann", "cy"] {
        assert_eq!(all_of(&left, user), all_of(&right, user));
    }
    assert_eq!(all_of(&left, "cy"), [0, 5, 0, 0, 0, 0]);
}

#[test]
fn merge_with_empty_is_identity() {
    let mut s = sample(&[("ann", 2, false), ("ben", 1, true)]);
    s.merge(january(&[]));
    assert_eq!(all_of(&s, "ann"), [2, 0, 0, 0, 0, 0]);
    assert_eq!(all_of(&s, "ben"), [0, 1, 0, 0, 0, 0]);
}

#[test]
fn window_includes_both_ends() {
    let mut s = january(&["alice"]);
    s.traverse_issues(vec![
        issue(1, "alice", "2024-01-01T00:00:00Z", false),
        issue(2, "alice", "2024-01-31T23:59:59Z", false),
        issue(3, "alice", "2023-12-31T23:59:59.999999Z", false),
        issue(4, "alice", "2024-01-31T23:59:59.000001Z", false),
    ]);
    assert_eq!(s.issues_of("alice"), 2);
}

#[test]
fn issue_comment_counts_by_update_time() {
    let mut s = january(&["alice"]);
    s.traverse_issue_comments(vec![
        IssueComment {
            author: String::from("alice"),
            created_at: at("2023-12-01T00:00:00Z"),
            updated_at: Some(at("2024-01-05T00:00:00Z")),
        },
        IssueComment {
            author: String::from("alice"),
            created_at: at("2023-12-01T00:00:00Z"),
            updated_at: None,
        },
        IssueComment {
            author: String::from("alice"),
            created_at: at("2024-01-09T00:00:00Z"),
            updated_at: None,
        },
    ]);
    assert_eq!(all_of(&s, "alice"), [0, 0, 2, 0, 0, 0]);
}

#[test]
fn unlisted_author_counts_nowhere() {
    let mut s = january(&["alice"]);
    s.traverse_issues(vec![issue(1, "mallory", "2024-01-15T00:00:00Z", true)]);
    s.traverse_issue_comments(vec![IssueComment {
        author: String::from("mallory"),
        created_at: at("2024-01-15T00:00:00Z"),
        updated_at: None,
    }]);
    s.traverse_pull_request_comments(vec![
        pr_comment(Some("mallory"), "ShipIt", "2024-01-15T00:00:00Z"),
        pr_comment(None, "ShipIt", "2024-01-15T00:00:00Z"),
    ]);
    s.traverse_pull_request_reviews(vec![review(
        "mallory",
        Some(ReviewState::Approved),
        Some("2024-01-15T00:00:00Z"),
    )]);
    assert_eq!(all_of(&s, "mallory"), [0; 6]);
    assert_eq!(all_of(&s, ""), [0; 6]);
    assert_eq!(all_of(&s, "alice"), [0; 6]);
}

#[test]
fn missing_author_counts_under_empty_name() {
    let mut s = january(&[""]);
    s.traverse_pull_request_comments(vec![pr_comment(None, "nit: rename", "2024-01-15T00:00:00Z")]);
    assert_eq!(s.pr_reviews_of(""), 1);
}

#[test]
fn lgtm_marker_wins_over_review_comment() {
    let mut s = january(&["alice"]);
    s.traverse_pull_request_comments(vec![
        pr_comment(Some("alice"), "  Looks fine. ShipIt  ", "2024-01-15T00:00:00Z"),
        pr_comment(Some("alice"), "shipit", "2024-01-15T00:00:00Z"),
        pr_comment(Some("alice"), "Please fix the typo", "2024-01-15T00:00:00Z"),
    ]);
    assert_eq!(s.lgtms_of("alice"), 1);
    assert_eq!(s.pr_reviews_of("alice"), 2);
}

#[test]
fn marker_is_matched_against_trimmed_body() {
    let cfg = config(&["alice"], &["ShipIt\n"]);
    let mut s = Stats::new(&cfg, at("2024-01-01T00:00:00Z"), at("2024-01-31T23:59:59Z"));
    s.traverse_pull_request_comments(vec![pr_comment(Some("alice"), "ok ShipIt\n", "2024-01-15T00:00:00Z")]);
    assert_eq!(s.lgtms_of("alice"), 0);
    assert_eq!(s.pr_reviews_of("alice"), 1);
    assert!(s.is_comment_lgtm("ok ShipIt\n"));
    assert!(!s.is_comment_lgtm("ok ShipIt"));
}

#[test]
fn only_approved_reviews_count() {
    let mut s = january(&["alice"]);
    let when = Some("2024-01-15T00:00:00Z");
    s.traverse_pull_request_reviews(vec![
        review("alice", Some(ReviewState::Approved), when),
        review("alice", Some(ReviewState::Commented), when),
        review("alice", Some(ReviewState::ChangesRequested), when),
        review("alice", Some(ReviewState::Dismissed), when),
        review("alice", Some(ReviewState::Pending), when),
        review("alice", None, when),
        review("alice", Some(ReviewState::Approved), None),
    ]);
    assert_eq!(all_of(&s, "alice"), [0, 0, 0, 0, 1, 0]);
}

#[test]
fn room_and_merge_checks() {
    let s = sample(&[("ann", 2, false)]);
    assert!(s.has_room(10));
    assert!(s.has_room(usize::MAX - 2));
    assert!(!s.has_room(usize::MAX - 1));
    assert!(s.can_merge(&sample(&[("ann", 7, false)])));
}
