use gh_overseer::config::Config;
use gh_overseer::pipeline::{get_log_level, parse_repo, split_issue_numbers, LevelFilter};
use gh_overseer::records::Issue;
use gh_overseer::time::Timestamp;

#[test]
fn repo_splits_at_first_slash() {
    assert_eq!(parse_repo("acme/widgets"), Ok((String::from("acme"), String::from("widgets"))));
    assert_eq!(parse_repo("a/b/c"), Ok((String::from("a"), String::from("b/c"))));
    assert_eq!(parse_repo("/x"), Ok((String::new(), String::from("x"))));
}

#[test]
fn repo_without_slash_is_rejected() {
    assert!(parse_repo("widgets").is_err());
    assert!(parse_repo("").is_err());
}

#[test]
fn issue_numbers_split_by_marker() {
    let mk = |number: u64, pr: bool| Issue {
        number,
        author: String::from("x"),
        created_at: Timestamp::new(0, 0),
        is_pull_request: pr,
    };
    let (plain, pulls) = split_issue_numbers(&vec![mk(3, false), mk(4, true), mk(7, false), mk(9, true)]);
    assert_eq!(plain, vec![3, 7]);
    assert_eq!(pulls, vec![4, 9]);
    let (plain, pulls) = split_issue_numbers(&vec![]);
    assert!(plain.is_empty() && pulls.is_empty());
}

#[test]
fn log_levels_by_name() {
    assert_eq!(get_log_level("error"), LevelFilter::Error);
    assert_eq!(get_log_level("warn"), LevelFilter::Warn);
    assert_eq!(get_log_level("info"), LevelFilter::Info);
    assert_eq!(get_log_level("debug"), LevelFilter::Debug);
    assert_eq!(get_log_level("trace"), LevelFilter::Trace);
    assert_eq!(get_log_level("loud"), LevelFilter::Info);
    assert_eq!(get_log_level("ERROR"), LevelFilter::Info);
}

#[test]
fn config_prefers_environment_values() {
    let cfg = Config::new(
        String::from("https://hook.example"),
        String::from("file-token"),
        vec![String::from("alice")],
        vec![String::from("acme/widgets")],
        vec![String::from("ShipIt")],
    );
    assert_eq!(cfg.github_personal_token(None), "file-token");
    assert_eq!(cfg.github_personal_token(Some(String::from("env-token"))), "env-token");
    assert_eq!(cfg.feishu_bot_webhook_url(None), "https://hook.example");
    assert_eq!(cfg.feishu_bot_webhook_url(Some(String::from("h"))), "h");
    assert_eq!(cfg.review_users(), vec![String::from("alice")]);
    assert_eq!(cfg.review_repos(), vec![String::from("acme/widgets")]);
    assert_eq!(cfg.review_lgtm_comments(), vec![String::from("ShipIt")]);
}

#[test]
fn timestamps_order_by_seconds_then_nanos() {
    let a = Timestamp::new(10, 999_999_999);
    let b = Timestamp::new(11, 0);
    assert!(a.le(&b));
    assert!(!b.le(&a));
    assert!(a.le(&a));
    assert!(Timestamp::new(10, 1_500_000_000).le(&b));
}

#[test]
fn absorb_sums_worker_reports() {
    let cfg = Config::new(
        String::new(),
        String::new(),
        vec![String::from("bob")],
        vec![],
        vec![],
    );
    let report = |count: u64| {
        let mut s = gh_overseer::stats::Stats::new(&cfg, Timestamp::new(0, 0), Timestamp::new(100, 0));
        s.traverse_issues(
            (0..count)
                .map(|n| Issue {
                    number: n,
                    author: String::from("bob"),
                    created_at: Timestamp::new(50, 0),
                    is_pull_request: false,
                })
                .collect(),
        );
        s
    };
    let first = gh_overseer::pipeline::absorb(None, report(2));
    assert_eq!(first.issues_of("bob"), 2);
    let total = gh_overseer::pipeline::absorb(Some(first), report(3));
    assert_eq!(total.issues_of("bob"), 5);
}
