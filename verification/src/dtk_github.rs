//! Data shapes of the source-hosting service's answers.

use vstd::prelude::*;

verus! {

/// A placeholder for answers whose fields are not read.
#[derive(Debug)]
pub struct GithubData {}

/// A starred repository.
#[derive(Clone, Debug)]
pub struct StarredRepo {
    pub id: i64,
    pub name: Option<String>,
    pub full_name: Option<String>,
    pub html_url: Option<String>,
    pub description: Option<String>,
    pub url: Option<String>,
    pub git_url: Option<String>,
    pub ssh_url: Option<String>,
    pub clone_url: Option<String>,
    pub homepage: Option<String>,
    pub stargazers_count: Option<i64>,
    pub language: Option<String>,
    pub open_issues_count: Option<i64>,
    pub topics: Option<Vec<String>>,
    pub forks: Option<i64>,
    pub created_at: Option<String>,
    pub updated_at: Option<String>,
    pub pushed_at: Option<String>,
}

} // verus!
