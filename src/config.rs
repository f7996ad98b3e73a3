use vstd::prelude::*;

use crate::text::copy_strings;

verus! {

/// Settings of a run: access credentials and what to review.
#[derive(Debug)]
pub struct Config {
    access: Access,
    review: Review,
}

#[derive(Debug)]
struct Access {
    feishu_bot_webhook_url: String,
    github_personal_token: String,
}

#[derive(Debug)]
struct Review {
    users: Vec<String>,
    repos: Vec<String>,
    lgtm_comments: Vec<String>,
}

impl Config {
    pub closed spec fn spec_feishu_bot_webhook_url(&self) -> Seq<char> {
        self.access.feishu_bot_webhook_url@
    }

    pub closed spec fn spec_github_personal_token(&self) -> Seq<char> {
        self.access.github_personal_token@
    }

    pub closed spec fn users(&self) -> Seq<String> {
        self.review.users@
    }

    pub closed spec fn repos(&self) -> Seq<String> {
        self.review.repos@
    }

    pub closed spec fn lgtm_comments(&self) -> Seq<String> {
        self.review.lgtm_comments@
    }

    pub fn new(
        feishu_bot_webhook_url: String,
        github_personal_token: String,
        users: Vec<String>,
        repos: Vec<String>,
        lgtm_comments: Vec<String>,
    ) -> (r: Config)
        ensures
            r.spec_feishu_bot_webhook_url() == feishu_bot_webhook_url@,
            r.spec_github_personal_token() == github_personal_token@,
            r.users() == users@,
            r.repos() == repos@,
            r.lgtm_comments() == lgtm_comments@,
    {
        Config {
            access: Access { feishu_bot_webhook_url, github_personal_token },
            review: Review { users, repos, lgtm_comments },
        }
    }

    /// The webhook URL: the value set in the environment, if any, else the
    /// configured one.
    pub fn feishu_bot_webhook_url(&self, from_env: Option<String>) -> (r: String)
        ensures
            r@ == match from_env {
                Some(v) => v@,
                None => self.spec_feishu_bot_webhook_url(),
            },
    {
        match from_env {
            Some(v) => v,
            None => self.access.feishu_bot_webhook_url.clone(),
        }
    }

    /// The access token: the value set in the environment, if any, else the
    /// configured one.
    pub fn github_personal_token(&self, from_env: Option<String>) -> (r: String)
        ensures
            r@ == match from_env {
                Some(v) => v@,
                None => self.spec_github_personal_token(),
            },
    {
        match from_env {
            Some(v) => v,
            None => self.access.github_personal_token.clone(),
        }
    }

    pub fn review_users(&self) -> (r: Vec<String>)
        ensures
            r@ == self.users(),
    {
        copy_strings(&self.review.users)
    }

    pub fn review_repos(&self) -> (r: Vec<String>)
        ensures
            r@ == self.repos(),
    {
        copy_strings(&self.review.repos)
    }

    /// The comment texts that count as an approval.
    pub fn review_lgtm_comments(&self) -> (r: Vec<String>)
        ensures
            r@ == self.lgtm_comments(),
    {
        copy_strings(&self.review.lgtm_comments)
    }
}

} // verus!
