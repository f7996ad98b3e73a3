use vstd::prelude::*;

use crate::config::Config;
use crate::records::{
    author_key, author_or_empty, Issue, IssueComment, PullRequestComment, PullRequestReview,
    ReviewState,
};
use crate::tally::{
    lemma_map_sum_associative, lemma_map_sum_commutative, lemma_map_sum_empty,bounded_by, bump, bump_all, count_in, map_sum, sum_fits, Tally};
use crate::text::{contains_text, has_infix, trim_of, trimmed};
use crate::time::{in_window, Timestamp};

verus! {

/// The filtering policy of an aggregate.
#[derive(Debug)]
pub struct Policy {
    pub allowed_users: Vec<String>,
    pub lgtm_comments: Vec<String>,
    pub start_time: Timestamp,
    pub end_time: Timestamp,
}

impl Policy {
    pub open spec fn allows(self, user: Seq<char>) -> bool {
        exists|i: int| 0 <= i < self.allowed_users@.len() && #[trigger] self.allowed_users@[i]@ == user
    }

    pub open spec fn in_range(self, t: Timestamp) -> bool {
        in_window(self.start_time, self.end_time, t)
    }

    /// Some configured marker occurs in `text`.
    pub open spec fn is_lgtm_text(self, text: Seq<char>) -> bool {
        exists|i: int|
            0 <= i < self.lgtm_comments@.len() && has_infix(text, #[trigger] self.lgtm_comments@[i]@)
    }

    pub open spec fn issue_counted(self, x: Issue) -> bool {
        self.allows(x.author@) && self.in_range(x.created_at)
    }

    pub open spec fn issue_comment_counted(self, c: IssueComment) -> bool {
        &&& self.allows(c.author@)
        &&& self.in_range(c.created_at) || (c.updated_at is Some && self.in_range(c.updated_at->0))
    }

    pub open spec fn pr_comment_counted(self, c: PullRequestComment) -> bool {
        &&& self.allows(author_key(c.author))
        &&& self.in_range(c.created_at) || self.in_range(c.updated_at)
    }

    pub open spec fn pr_comment_is_lgtm(self, c: PullRequestComment) -> bool {
        self.is_lgtm_text(trim_of(c.body@))
    }

    pub open spec fn review_counted(self, r: PullRequestReview) -> bool {
        &&& self.allows(author_key(r.author))
        &&& r.submitted_at is Some
        &&& self.in_range(r.submitted_at->0)
    }

    /// Authors of the counted issues (`pr == false`) or pull requests
    /// (`pr == true`) of `xs`, in order.
    pub open spec fn openers(self, xs: Seq<Issue>, pr: bool) -> Seq<Seq<char>>
        decreases xs.len(),
    {
        if xs.len() == 0 {
            Seq::empty()
        } else {
            let rest = self.openers(xs.drop_last(), pr);
            let x = xs.last();
            if self.issue_counted(x) && x.is_pull_request == pr {
                rest.push(x.author@)
            } else {
                rest
            }
        }
    }

    /// Authors of the counted issue comments of `cs`, in order.
    pub open spec fn issue_commenters(self, cs: Seq<IssueComment>) -> Seq<Seq<char>>
        decreases cs.len(),
    {
        if cs.len() == 0 {
            Seq::empty()
        } else {
            let rest = self.issue_commenters(cs.drop_last());
            if self.issue_comment_counted(cs.last()) {
                rest.push(cs.last().author@)
            } else {
                rest
            }
        }
    }

    /// Authors of the counted pull-request comments of `cs` that are approvals
    /// (`approval == true`) or plain review comments (`approval == false`), in
    /// order.
    pub open spec fn pr_commenters(self, cs: Seq<PullRequestComment>, approval: bool) -> Seq<Seq<char>>
        decreases cs.len(),
    {
        if cs.len() == 0 {
            Seq::empty()
        } else {
            let rest = self.pr_commenters(cs.drop_last(), approval);
            let c = cs.last();
            if self.pr_comment_counted(c) && self.pr_comment_is_lgtm(c) == approval {
                rest.push(author_key(c.author))
            } else {
                rest
            }
        }
    }

    /// Authors of the counted approving reviews of `rs`, in order.
    pub open spec fn approvers(self, rs: Seq<PullRequestReview>) -> Seq<Seq<char>>
        decreases rs.len(),
    {
        if rs.len() == 0 {
            Seq::empty()
        } else {
            let rest = self.approvers(rs.drop_last());
            let r = rs.last();
            if self.review_counted(r) && r.state == Some(ReviewState::Approved) {
                rest.push(author_key(r.author))
            } else {
                rest
            }
        }
    }
}

/// The six counter maps of an aggregate.
pub struct Counts {
    pub issues: Map<Seq<char>, nat>,
    pub prs: Map<Seq<char>, nat>,
    pub issue_comments: Map<Seq<char>, nat>,
    pub pr_reviews: Map<Seq<char>, nat>,
    pub lgtms: Map<Seq<char>, nat>,
    pub labels: Map<Seq<char>, nat>,
}

/// Counters with nothing counted.
pub open spec fn empty_counts() -> Counts {
    Counts {
        issues: Map::empty(),
        prs: Map::empty(),
        issue_comments: Map::empty(),
        pr_reviews: Map::empty(),
        lgtms: Map::empty(),
        labels: Map::empty(),
    }
}

/// Category-wise, user-wise sum of two sets of counters.
pub open spec fn merged(a: Counts, b: Counts) -> Counts {
    Counts {
        issues: map_sum(a.issues, b.issues),
        prs: map_sum(a.prs, b.prs),
        issue_comments: map_sum(a.issue_comments, b.issue_comments),
        pr_reviews: map_sum(a.pr_reviews, b.pr_reviews),
        lgtms: map_sum(a.lgtms, b.lgtms),
        labels: map_sum(a.labels, b.labels),
    }
}

proof fn lemma_bump_all_push(m: Map<Seq<char>, nat>, ks: Seq<Seq<char>>, k: Seq<char>)
    ensures
        bump_all(m, ks.push(k)) == bump(bump_all(m, ks), k),
{
    assert(ks.push(k).drop_last() == ks);
}

/// Every count is at most `bound`.
pub open spec fn counts_bounded(c: Counts, bound: int) -> bool {
    &&& bounded_by(c.issues, bound)
    &&& bounded_by(c.prs, bound)
    &&& bounded_by(c.issue_comments, bound)
    &&& bounded_by(c.pr_reviews, bound)
    &&& bounded_by(c.lgtms, bound)
    &&& bounded_by(c.labels, bound)
}

/// Merging `b` into `a` keeps every count within `u64`.
pub open spec fn counts_sum_fit(a: Counts, b: Counts) -> bool {
    &&& sum_fits(a.issues, b.issues)
    &&& sum_fits(a.prs, b.prs)
    &&& sum_fits(a.issue_comments, b.issue_comments)
    &&& sum_fits(a.pr_reviews, b.pr_reviews)
    &&& sum_fits(a.lgtms, b.lgtms)
    &&& sum_fits(a.labels, b.labels)
}

/// Per-user activity counters of one or more repositories, with the policy
/// that decides which records count.
#[derive(Debug)]
pub struct Stats {
    issues: Tally,
    prs: Tally,
    issue_comments: Tally,
    pr_reviews: Tally,
    lgtms: Tally,
    labels: Tally,
    policy: Policy,
}

impl Stats {
    pub closed spec fn wf(&self) -> bool {
        &&& self.issues.wf()
        &&& self.prs.wf()
        &&& self.issue_comments.wf()
        &&& self.pr_reviews.wf()
        &&& self.lgtms.wf()
        &&& self.labels.wf()
    }

    pub closed spec fn counts(&self) -> Counts {
        Counts {
            issues: self.issues@,
            prs: self.prs@,
            issue_comments: self.issue_comments@,
            pr_reviews: self.pr_reviews@,
            lgtms: self.lgtms@,
            labels: self.labels@,
        }
    }

    pub closed spec fn policy(&self) -> Policy {
        self.policy
    }

    /// Empty counters under the configured users and approval markers and the
    /// window `[start_time, end_time]`.
    pub fn new(config: &Config, start_time: Timestamp, end_time: Timestamp) -> (r: Stats)
        ensures
            r.wf(),
            r.counts() == empty_counts(),
            r.policy().allowed_users@ == config.users(),
            r.policy().lgtm_comments@ == config.lgtm_comments(),
            r.policy().start_time == start_time,
            r.policy().end_time == end_time,
    {
        let r = Stats {
            issues: Tally::new(),
            prs: Tally::new(),
            issue_comments: Tally::new(),
            pr_reviews: Tally::new(),
            lgtms: Tally::new(),
            labels: Tally::new(),
            policy: Policy {
                allowed_users: config.review_users(),
                lgtm_comments: config.review_lgtm_comments(),
                start_time,
                end_time,
            },
        };
        assert(r.counts() == empty_counts());
        r
    }

    /// The counted issues of `user`.
    pub fn issues_of(&self, user: &str) -> (r: u64)
        requires
            self.wf(),
        ensures
            r as nat == count_in(self.counts().issues, user@),
    {
        self.issues.get(user)
    }

    /// The counted pull requests of `user`.
    pub fn prs_of(&self, user: &str) -> (r: u64)
        requires
            self.wf(),
        ensures
            r as nat == count_in(self.counts().prs, user@),
    {
        self.prs.get(user)
    }

    /// The counted issue comments of `user`.
    pub fn issue_comments_of(&self, user: &str) -> (r: u64)
        requires
            self.wf(),
        ensures
            r as nat == count_in(self.counts().issue_comments, user@),
    {
        self.issue_comments.get(user)
    }

    /// The counted pull-request review comments of `user`.
    pub fn pr_reviews_of(&self, user: &str) -> (r: u64)
        requires
            self.wf(),
        ensures
            r as nat == count_in(self.counts().pr_reviews, user@),
    {
        self.pr_reviews.get(user)
    }

    /// The counted approvals of `user`.
    pub fn lgtms_of(&self, user: &str) -> (r: u64)
        requires
            self.wf(),
        ensures
            r as nat == count_in(self.counts().lgtms, user@),
    {
        self.lgtms.get(user)
    }

    /// The counted labels of `user`.
    pub fn labels_of(&self, user: &str) -> (r: u64)
        requires
            self.wf(),
        ensures
            r as nat == count_in(self.counts().labels, user@),
    {
        self.labels.get(user)
    }

    fn within_time_range(&self, t: &Timestamp) -> (r: bool)
        ensures
            r == self.policy().in_range(*t),
    {
        self.policy.start_time.le(t) && t.le(&self.policy.end_time)
    }

    fn is_user_allowed(&self, user: &String) -> (r: bool)
        ensures
            r == self.policy().allows(user@),
    {
        let mut i: usize = 0;
        while i < self.policy.allowed_users.len()
            invariant
                i <= self.policy.allowed_users@.len(),
                forall|j: int| 0 <= j < i ==> self.policy.allowed_users@[j]@ != user@,
            decreases self.policy.allowed_users@.len() - i,
        {
            if self.policy.allowed_users[i] == *user {
                return true;
            }
            i += 1;
        }
        false
    }

    /// Whether `comment` holds one of the configured approval markers.
    pub fn is_comment_lgtm(&self, comment: &str) -> (r: bool)
        ensures
            r == self.policy().is_lgtm_text(comment@),
    {
        let mut i: usize = 0;
        while i < self.policy.lgtm_comments.len()
            invariant
                i <= self.policy.lgtm_comments@.len(),
                forall|j: int|
                    0 <= j < i ==> !has_infix(comment@, #[trigger] self.policy.lgtm_comments@[j]@),
            decreases self.policy.lgtm_comments@.len() - i,
        {
            if contains_text(comment, self.policy.lgtm_comments[i].as_str()) {
                return true;
            }
            i += 1;
        }
        false
    }

    /// Whether every count is at most `u64::MAX - n`, so that a batch of `n`
    /// records can be counted.
    pub fn has_room(&self, n: usize) -> (r: bool)
        requires
            self.wf(),
        ensures
            r == counts_bounded(self.counts(), u64::MAX - n),
    {
        let limit: u64 = u64::MAX - n as u64;
        let a = self.issues.max_count();
        let b = self.prs.max_count();
        let c = self.issue_comments.max_count();
        let d = self.pr_reviews.max_count();
        let e = self.lgtms.max_count();
        let f = self.labels.max_count();
        a <= limit && b <= limit && c <= limit && d <= limit && e <= limit && f <= limit
    }

    /// Whether merging `other` into `self` keeps every count within `u64`.
    pub fn can_merge(&self, other: &Stats) -> (r: bool)
        requires
            self.wf(),
            other.wf(),
        ensures
            r == counts_sum_fit(self.counts(), other.counts()),
    {
        self.issues.fits_with(&other.issues) && self.prs.fits_with(&other.prs)
            && self.issue_comments.fits_with(&other.issue_comments) && self.pr_reviews.fits_with(
            &other.pr_reviews,
        ) && self.lgtms.fits_with(&other.lgtms) && self.labels.fits_with(&other.labels)
    }

    /// Counts the issues and pull requests of `issues` that pass the policy,
    /// each under its author.
    pub fn traverse_issues(&mut self, issues: Vec<Issue>)
        requires
            old(self).wf(),
            counts_bounded(old(self).counts(), u64::MAX - issues@.len()),
        ensures
            final(self).wf(),
            final(self).policy() == old(self).policy(),
            final(self).counts() == (Counts {
                issues: bump_all(old(self).counts().issues, old(self).policy().openers(issues@, false)),
                prs: bump_all(old(self).counts().prs, old(self).policy().openers(issues@, true)),
                ..old(self).counts()
            }),
    {
        let ghost start = self.counts();
        let ghost policy = self.policy();
        let mut i: usize = 0;
        while i < issues.len()
            invariant
                self.wf(),
                self.policy() == policy,
                i <= issues@.len(),
                counts_bounded(start, u64::MAX - issues@.len()),
                self.counts() == (Counts {
                    issues: bump_all(start.issues, policy.openers(issues@.take(i as int), false)),
                    prs: bump_all(start.prs, policy.openers(issues@.take(i as int), true)),
                    ..start
                }),
                forall|k: Seq<char>| count_in(self.issues@, k) <= count_in(start.issues, k) + i,
                forall|k: Seq<char>| count_in(self.prs@, k) <= count_in(start.prs, k) + i,
            decreases issues@.len() - i,
        {
            let issue = &issues[i];
            let ghost pre = issues@.take(i as int);
            proof {
                let next = issues@.take(i + 1);
                assert(next.drop_last() == pre);
                assert(next.last() == issues@[i as int]);
                lemma_bump_all_push(start.issues, policy.openers(pre, false), issue.author@);
                lemma_bump_all_push(start.prs, policy.openers(pre, true), issue.author@);
                assert(count_in(start.issues, issue.author@) <= u64::MAX - issues@.len());
                assert(count_in(start.prs, issue.author@) <= u64::MAX - issues@.len());
            }
            if !self.filter_issues(issue) {
                if issue.is_pull_request {
                    self.prs.increment(&issue.author);
                } else {
                    self.issues.increment(&issue.author);
                }
            }
            i += 1;
        }
        assert(issues@.take(i as int) == issues@);
    }

    /// Counts the issue comments of `issue_comments` that pass the policy,
    /// each under its author.
    pub fn traverse_issue_comments(&mut self, issue_comments: Vec<IssueComment>)
        requires
            old(self).wf(),
            counts_bounded(old(self).counts(), u64::MAX - issue_comments@.len()),
        ensures
            final(self).wf(),
            final(self).policy() == old(self).policy(),
            final(self).counts() == (Counts {
                issue_comments: bump_all(
                    old(self).counts().issue_comments,
                    old(self).policy().issue_commenters(issue_comments@),
                ),
                ..old(self).counts()
            }),
    {
        let ghost start = self.counts();
        let ghost policy = self.policy();
        let mut i: usize = 0;
        while i < issue_comments.len()
            invariant
                self.wf(),
                self.policy() == policy,
                i <= issue_comments@.len(),
                counts_bounded(start, u64::MAX - issue_comments@.len()),
                self.counts() == (Counts {
                    issue_comments: bump_all(
                        start.issue_comments,
                        policy.issue_commenters(issue_comments@.take(i as int)),
                    ),
                    ..start
                }),
                forall|k: Seq<char>|
                    count_in(self.issue_comments@, k) <= count_in(start.issue_comments, k) + i,
            decreases issue_comments@.len() - i,
        {
            let comment = &issue_comments[i];
            let ghost pre = issue_comments@.take(i as int);
            proof {
                let next = issue_comments@.take(i + 1);
                assert(next.drop_last() == pre);
                assert(next.last() == issue_comments@[i as int]);
                lemma_bump_all_push(
                    start.issue_comments,
                    policy.issue_commenters(pre),
                    comment.author@,
                );
                assert(count_in(start.issue_comments, comment.author@) <= u64::MAX
                    - issue_comments@.len());
            }
            if !self.filter_issue_comment(comment) {
                self.issue_comments.increment(&comment.author);
            }
            i += 1;
        }
        assert(issue_comments@.take(i as int) == issue_comments@);
    }

    /// Counts the pull-request comments of `pull_request_comments` that pass
    /// the policy, each under its author (the empty name when absent): as an
    /// approval when its trimmed body holds a configured marker, else as a
    /// review comment.
    pub fn traverse_pull_request_comments(&mut self, pull_request_comments: Vec<PullRequestComment>)
        requires
            old(self).wf(),
            counts_bounded(old(self).counts(), u64::MAX - pull_request_comments@.len()),
        ensures
            final(self).wf(),
            final(self).policy() == old(self).policy(),
            final(self).counts() == (Counts {
                pr_reviews: bump_all(
                    old(self).counts().pr_reviews,
                    old(self).policy().pr_commenters(pull_request_comments@, false),
                ),
                lgtms: bump_all(
                    old(self).counts().lgtms,
                    old(self).policy().pr_commenters(pull_request_comments@, true),
                ),
                ..old(self).counts()
            }),
    {
        let ghost start = self.counts();
        let ghost policy = self.policy();
        let ghost cs = pull_request_comments@;
        let mut i: usize = 0;
        while i < pull_request_comments.len()
            invariant
                self.wf(),
                self.policy() == policy,
                cs == pull_request_comments@,
                i <= cs.len(),
                counts_bounded(start, u64::MAX - cs.len()),
                self.counts() == (Counts {
                    pr_reviews: bump_all(start.pr_reviews, policy.pr_commenters(cs.take(i as int), false)),
                    lgtms: bump_all(start.lgtms, policy.pr_commenters(cs.take(i as int), true)),
                    ..start
                }),
                forall|k: Seq<char>| count_in(self.pr_reviews@, k) <= count_in(start.pr_reviews, k) + i,
                forall|k: Seq<char>| count_in(self.lgtms@, k) <= count_in(start.lgtms, k) + i,
            decreases cs.len() - i,
        {
            let comment = &pull_request_comments[i];
            let user = author_or_empty(&comment.author);
            let ghost pre = cs.take(i as int);
            proof {
                let next = cs.take(i + 1);
                assert(next.drop_last() == pre);
                assert(next.last() == cs[i as int]);
                lemma_bump_all_push(start.pr_reviews, policy.pr_commenters(pre, false), user@);
                lemma_bump_all_push(start.lgtms, policy.pr_commenters(pre, true), user@);
                assert(count_in(start.pr_reviews, user@) <= u64::MAX - cs.len());
                assert(count_in(start.lgtms, user@) <= u64::MAX - cs.len());
            }
            if !self.filter_pull_request_comment(comment) {
                let body = trimmed(comment.body.as_str());
                if self.is_comment_lgtm(body.as_str()) {
                    self.lgtms.increment(&user);
                } else {
                    self.pr_reviews.increment(&user);
                }
            }
            i += 1;
        }
        assert(cs.take(i as int) == cs);
    }

    /// Counts the approving reviews of `reviews` that pass the policy, each
    /// under its author (the empty name when absent); other reviews count
    /// nowhere.
    pub fn traverse_pull_request_reviews(&mut self, reviews: Vec<PullRequestReview>)
        requires
            old(self).wf(),
            counts_bounded(old(self).counts(), u64::MAX - reviews@.len()),
        ensures
            final(self).wf(),
            final(self).policy() == old(self).policy(),
            final(self).counts() == (Counts {
                lgtms: bump_all(old(self).counts().lgtms, old(self).policy().approvers(reviews@)),
                ..old(self).counts()
            }),
    {
        let ghost start = self.counts();
        let ghost policy = self.policy();
        let mut i: usize = 0;
        while i < reviews.len()
            invariant
                self.wf(),
                self.policy() == policy,
                i <= reviews@.len(),
                counts_bounded(start, u64::MAX - reviews@.len()),
                self.counts() == (Counts {
                    lgtms: bump_all(start.lgtms, policy.approvers(reviews@.take(i as int))),
                    ..start
                }),
                forall|k: Seq<char>| count_in(self.lgtms@, k) <= count_in(start.lgtms, k) + i,
            decreases reviews@.len() - i,
        {
            let review = &reviews[i];
            let user = author_or_empty(&review.author);
            let ghost pre = reviews@.take(i as int);
            proof {
                let next = reviews@.take(i + 1);
                assert(next.drop_last() == pre);
                assert(next.last() == reviews@[i as int]);
                lemma_bump_all_push(start.lgtms, policy.approvers(pre), user@);
                assert(count_in(start.lgtms, user@) <= u64::MAX - reviews@.len());
            }
            if !self.filter_pull_request_review(review) {
                match review.state {
                    Some(ReviewState::Approved) => self.lgtms.increment(&user),
                    _ => {},
                }
            }
            i += 1;
        }
        assert(reviews@.take(i as int) == reviews@);
    }

    /// Adds every counter of `other` into `self`; the policy of `self` stays
    /// and is not applied to what `other` counted.
    pub fn merge(&mut self, other: Stats)
        requires
            old(self).wf(),
            other.wf(),
            counts_sum_fit(old(self).counts(), other.counts()),
        ensures
            final(self).wf(),
            final(self).policy() == old(self).policy(),
            final(self).counts() == merged(old(self).counts(), other.counts()),
    {
        self.issues.merge_from(&other.issues);
        self.prs.merge_from(&other.prs);
        self.issue_comments.merge_from(&other.issue_comments);
        self.pr_reviews.merge_from(&other.pr_reviews);
        self.lgtms.merge_from(&other.lgtms);
        self.labels.merge_from(&other.labels);
    }

    /// Whether `issue` is left out.
    fn filter_issues(&self, issue: &Issue) -> (r: bool)
        ensures
            r == !self.policy().issue_counted(*issue),
    {
        !self.is_user_allowed(&issue.author) || !self.within_time_range(&issue.created_at)
    }

    /// Whether `comment` is left out.
    fn filter_issue_comment(&self, comment: &IssueComment) -> (r: bool)
        ensures
            r == !self.policy().issue_comment_counted(*comment),
    {
        let user_allowed = self.is_user_allowed(&comment.author);
        let within_time_range = self.within_time_range(&comment.created_at) || match &comment.updated_at {
            Some(t) => self.within_time_range(t),
            None => false,
        };
        !user_allowed || !within_time_range
    }

    /// Whether `comment` is left out.
    fn filter_pull_request_comment(&self, comment: &PullRequestComment) -> (r: bool)
        ensures
            r == !self.policy().pr_comment_counted(*comment),
    {
        let user = author_or_empty(&comment.author);
        let user_allowed = self.is_user_allowed(&user);
        let within_time_range = self.within_time_range(&comment.created_at)
            || self.within_time_range(&comment.updated_at);
        !user_allowed || !within_time_range
    }

    /// Whether `review` is left out.
    fn filter_pull_request_review(&self, review: &PullRequestReview) -> (r: bool)
        ensures
            r == !self.policy().review_counted(*review),
    {
        let user = author_or_empty(&review.author);
        let user_allowed = self.is_user_allowed(&user);
        let within_time_range = match &review.submitted_at {
            Some(t) => self.within_time_range(t),
            None => false,
        };
        !user_allowed || !within_time_range
    }
}


/// Merging is commutative: `merge(a, b)` and `merge(b, a)` give the same
/// counters.
pub proof fn lemma_merge_commutative(a: Counts, b: Counts)
    ensures
        merged(a, b) == merged(b, a),
{
    lemma_map_sum_commutative(a.issues, b.issues);
    lemma_map_sum_commutative(a.prs, b.prs);
    lemma_map_sum_commutative(a.issue_comments, b.issue_comments);
    lemma_map_sum_commutative(a.pr_reviews, b.pr_reviews);
    lemma_map_sum_commutative(a.lgtms, b.lgtms);
    lemma_map_sum_commutative(a.labels, b.labels);
}

/// Merging is associative: `merge(merge(a, b), c)` and `merge(a, merge(b, c))`
/// give the same counters.
pub proof fn lemma_merge_associative(a: Counts, b: Counts, c: Counts)
    ensures
        merged(merged(a, b), c) == merged(a, merged(b, c)),
{
    lemma_map_sum_associative(a.issues, b.issues, c.issues);
    lemma_map_sum_associative(a.prs, b.prs, c.prs);
    lemma_map_sum_associative(a.issue_comments, b.issue_comments, c.issue_comments);
    lemma_map_sum_associative(a.pr_reviews, b.pr_reviews, c.pr_reviews);
    lemma_map_sum_associative(a.lgtms, b.lgtms, c.lgtms);
    lemma_map_sum_associative(a.labels, b.labels, c.labels);
}

/// Merging in an aggregate with nothing counted changes nothing.
pub proof fn lemma_merge_empty(a: Counts)
    ensures
        merged(a, empty_counts()) == a,
{
    lemma_map_sum_empty(a.issues);
    lemma_map_sum_empty(a.prs);
    lemma_map_sum_empty(a.issue_comments);
    lemma_map_sum_empty(a.pr_reviews);
    lemma_map_sum_empty(a.lgtms);
    lemma_map_sum_empty(a.labels);
}

/// The window is closed: a record stamped exactly at its start or its end is
/// inside it, and any instant strictly before the start or strictly after the
/// end is outside it; so an issue of an allowed user created exactly at either
/// end is counted.
pub proof fn lemma_window_boundaries(p: Policy, t: Timestamp, x: Issue)
    requires
        p.start_time.spec_le(p.end_time),
    ensures
        p.in_range(p.start_time),
        p.in_range(p.end_time),
        t.spec_le(p.start_time) && t != p.start_time ==> !p.in_range(t),
        p.end_time.spec_le(t) && t != p.end_time ==> !p.in_range(t),
        p.allows(x.author@) && (x.created_at == p.start_time || x.created_at == p.end_time)
            ==> p.issue_counted(x),
{
    crate::time::lemma_window_closed(p.start_time, p.end_time, t);
}

/// A record whose author is not allowed adds nothing to any counter, whatever
/// its times and content.
pub proof fn lemma_unlisted_author_ignored(
    p: Policy,
    xs: Seq<Issue>,
    x: Issue,
    cs: Seq<IssueComment>,
    c: IssueComment,
    ds: Seq<PullRequestComment>,
    d: PullRequestComment,
    rs: Seq<PullRequestReview>,
    r: PullRequestReview,
)
    ensures
        !p.allows(x.author@) ==> p.openers(xs.push(x), false) == p.openers(xs, false)
            && p.openers(xs.push(x), true) == p.openers(xs, true),
        !p.allows(c.author@) ==> p.issue_commenters(cs.push(c)) == p.issue_commenters(cs),
        !p.allows(author_key(d.author)) ==> p.pr_commenters(ds.push(d), false) == p.pr_commenters(
            ds,
            false,
        ) && p.pr_commenters(ds.push(d), true) == p.pr_commenters(ds, true),
        !p.allows(author_key(r.author)) ==> p.approvers(rs.push(r)) == p.approvers(rs),
{
    assert(xs.push(x).drop_last() == xs);
    assert(cs.push(c).drop_last() == cs);
    assert(ds.push(d).drop_last() == ds);
    assert(rs.push(r).drop_last() == rs);
}

/// A counted pull-request comment whose trimmed body holds a configured marker
/// counts as an approval and never as a review comment.
pub proof fn lemma_lgtm_comment_precedence(p: Policy, ds: Seq<PullRequestComment>, d: PullRequestComment, i: int)
    requires
        p.pr_comment_counted(d),
        0 <= i < p.lgtm_comments@.len(),
        has_infix(trim_of(d.body@), p.lgtm_comments@[i]@),
    ensures
        p.pr_commenters(ds.push(d), true) == p.pr_commenters(ds, true).push(author_key(d.author)),
        p.pr_commenters(ds.push(d), false) == p.pr_commenters(ds, false),
{
    assert(ds.push(d).drop_last() == ds);
}

/// A counted review counts as an approval when its state is "approved", and
/// counts nowhere with any other state.
pub proof fn lemma_review_state_gating(p: Policy, rs: Seq<PullRequestReview>, r: PullRequestReview)
    requires
        p.review_counted(r),
    ensures
        r.state == Some(ReviewState::Approved) ==> p.approvers(rs.push(r)) == p.approvers(rs).push(
            author_key(r.author),
        ),
        r.state != Some(ReviewState::Approved) ==> p.approvers(rs.push(r)) == p.approvers(rs),
{
    assert(rs.push(r).drop_last() == rs);
}

} // verus!
