use vstd::prelude::*;

use crate::records::Issue;
use crate::stats::{counts_sum_fit, merged, Stats};
use crate::text::split_at_first_slash;

verus! {

/// Splits a repository identifier `owner/name` at its first `'/'`.
pub fn parse_repo(repo: &str) -> (r: Result<(String, String), &'static str>)
    ensures
        r is Err <==> !repo@.contains('/'),
        r matches Ok((owner, name)) ==> !owner@.contains('/') && repo@ == owner@ + seq!['/']
            + name@,
{
    match split_at_first_slash(repo) {
        Some((owner, name)) => {
            assert(repo@[owner@.len() as int] == '/');
            Ok((owner, name))
        },
        None => Err("invalid repo name, should be 'owner/repo_name'"),
    }
}

/// The numbers of the plain issues (`pr == false`) or of the pull requests
/// (`pr == true`) of `xs`, in order.
pub open spec fn numbers_of(xs: Seq<Issue>, pr: bool) -> Seq<u64>
    decreases xs.len(),
{
    if xs.len() == 0 {
        Seq::empty()
    } else {
        let rest = numbers_of(xs.drop_last(), pr);
        if xs.last().is_pull_request == pr {
            rest.push(xs.last().number)
        } else {
            rest
        }
    }
}

/// The numbers of the plain issues and, second, of the pull requests among
/// `issues`, each in the order given.
pub fn split_issue_numbers(issues: &Vec<Issue>) -> (r: (Vec<u64>, Vec<u64>))
    ensures
        r.0@ == numbers_of(issues@, false),
        r.1@ == numbers_of(issues@, true),
{
    let mut plain: Vec<u64> = Vec::new();
    let mut pulls: Vec<u64> = Vec::new();
    let mut i: usize = 0;
    while i < issues.len()
        invariant
            i <= issues@.len(),
            plain@ == numbers_of(issues@.take(i as int), false),
            pulls@ == numbers_of(issues@.take(i as int), true),
        decreases issues@.len() - i,
    {
        proof {
            assert(issues@.take(i + 1).drop_last() == issues@.take(i as int));
            assert(issues@.take(i + 1).last() == issues@[i as int]);
        }
        if issues[i].is_pull_request {
            pulls.push(issues[i].number);
        } else {
            plain.push(issues[i].number);
        }
        i += 1;
    }
    assert(issues@.take(i as int) == issues@);
    (plain, pulls)
}

/// Folds the aggregate of one more worker into the running total: the first
/// one becomes the total, each later one is merged into it.
pub fn absorb(total: Option<Stats>, next: Stats) -> (r: Stats)
    requires
        next.wf(),
        total matches Some(t) ==> t.wf() && counts_sum_fit(t.counts(), next.counts()),
    ensures
        r.wf(),
        match total {
            None => r.counts() == next.counts() && r.policy() == next.policy(),
            Some(t) => r.counts() == merged(t.counts(), next.counts()) && r.policy() == t.policy(),
        },
{
    match total {
        None => next,
        Some(mut t) => {
            t.merge(next);
            t
        },
    }
}

/// How much is logged.
#[derive(Clone, Copy, Debug, PartialEq, Eq, Structural)]
pub enum LevelFilter {
    Error,
    Warn,
    Info,
    Debug,
    Trace,
}

pub open spec fn level_named(name: Seq<char>) -> LevelFilter {
    if name == "error"@ {
        LevelFilter::Error
    } else if name == "warn"@ {
        LevelFilter::Warn
    } else if name == "info"@ {
        LevelFilter::Info
    } else if name == "debug"@ {
        LevelFilter::Debug
    } else if name == "trace"@ {
        LevelFilter::Trace
    } else {
        LevelFilter::Info
    }
}

/// The level a name selects; any other name selects `Info`.
pub fn get_log_level(log_level: &str) -> (r: LevelFilter)
    ensures
        r == level_named(log_level@),
{
    let name = log_level.to_owned();
    if name == "error".to_owned() {
        LevelFilter::Error
    } else if name == "warn".to_owned() {
        LevelFilter::Warn
    } else if name == "info".to_owned() {
        LevelFilter::Info
    } else if name == "debug".to_owned() {
        LevelFilter::Debug
    } else if name == "trace".to_owned() {
        LevelFilter::Trace
    } else {
        LevelFilter::Info
    }
}

} // verus!
