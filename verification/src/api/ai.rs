//! Summaries and queries of the assistant-facing repository API.

use vstd::prelude::*;

verus! {

/// 仓库摘要响应（AI 友好格式）
pub struct RepoSummary {
    pub full_name: String,
    pub description: Option<String>,
    pub default_branch: String,
    pub stars_count: i64,
    pub forks_count: i64,
    pub created_at: String,
    pub updated_at: String,
}

/// Issue 摘要（AI 友好格式）
pub struct IssueSummary {
    pub number: i64,
    pub title: String,
    pub state: String,
    pub author_id: i64,
    pub created_at: String,
}

/// PR 摘要（AI 友好格式）
pub struct PrSummary {
    pub number: i64,
    pub title: String,
    pub state: String,
    pub author_id: i64,
    pub head_branch: String,
    pub base_branch: String,
    pub created_at: String,
}

pub struct IssueListQuery {
    pub state: Option<String>,
    pub limit: Option<i64>,
}

pub struct PrListQuery {
    pub state: Option<String>,
    pub limit: Option<i64>,
}

/// Query params for tree endpoint
pub struct TreeQuery {
    pub git_ref: Option<String>,
    pub path: Option<String>,
}

/// Query params for code search endpoint
pub struct SearchCodeQuery {
    pub q: String,
    pub git_ref: Option<String>,
    pub limit: Option<i64>,
}

/// Code search result for AI API
pub struct CodeSearchResult {
    pub repo_id: i64,
    pub file_path: String,
    pub file_name: String,
    pub language: String,
    pub snippet: String,
}

/// Response for index trigger.
pub struct IndexResponse {
    pub indexed_files: usize,
}

} // verus!
