//! Typed Git callout builders.
//!
//! [`Builder::open_repo`] issues a `git-open-repo` callout: the host checks
//! `clone_url` against the provider's capability grants, clones the remote
//! into a host-side cache directory if it is not already there, and returns a
//! [`GitRepoInfo`] whose `tree` field is the handle a treeref route returns
//! (wrap it in [`crate::handler::TreeRef::new`]). The repository bytes never
//! enter guest memory.
//!
//! `cache_key` names the clone directory and must be a safe relative path:
//! slash-separated, no leading `/`, no `.` or `..` components, no NUL.
//! Repeating a key reuses the existing clone without refetching; a key
//! already bound to a different `clone_url` is an error rather than a silent
//! overwrite. Pick a key that is stable per repository, such as
//! `github.com/<owner>/<repo>`.

use vstd::prelude::*;

use crate::error::{ProviderError, Result};
use crate::fetch;
use crate::fetch::{CalloutFuture, Extract};
use crate::wire::{Callout, CalloutResult, GitOpenRequest, GitRepoInfo};

verus! {

/// Reads the result of opening a repository.
pub struct RepoReply;

impl Extract<GitRepoInfo> for RepoReply {
    open spec fn extracted(result: CalloutResult, r: Result<GitRepoInfo>) -> bool {
        match result {
            CalloutResult::CalloutError(e) => r matches Err(e2) && e2@ == fetch::callout_failure(e),
            CalloutResult::GitRepoOpened(info) => r == Ok::<GitRepoInfo, ProviderError>(info),
            _ => r matches Err(e) && e@ == fetch::unexpected("git-open-repo"@),
        }
    }

    fn extract(&self, result: CalloutResult) -> (r: Result<GitRepoInfo>) {
        match result {
            CalloutResult::CalloutError(e) => Err(ProviderError::from_callout_error(e)),
            CalloutResult::GitRepoOpened(info) => Ok(info),
            _ => Err(fetch::unexpected_result("git-open-repo")),
        }
    }
}

/// An opening that waits with one callout to yield.
pub open spec fn opening(cache_key: String, clone_url: String) -> CalloutFuture<
    GitRepoInfo,
    RepoReply,
> {
    CalloutFuture::Pending {
        callout: Some(Callout::GitOpenRepo(GitOpenRequest { cache_key, clone_url })),
        extract: RepoReply,
    }
}

/// Starts git callouts.
pub struct Builder;

impl Builder {
    pub fn new() -> (r: Self) {
        Builder
    }

    /// Open (cloning if needed) a repository host-side. The operation is
    /// suspended while the host clones; a cache hit resumes without network
    /// work. See the module docs for the `cache_key` contract.
    pub fn open_repo(self, cache_key: String, clone_url: String) -> (r: CalloutFuture<
        GitRepoInfo,
        RepoReply,
    >)
        ensures
            r == opening(cache_key, clone_url),
    {
        CalloutFuture::new(
            Callout::GitOpenRepo(GitOpenRequest { cache_key, clone_url }),
            RepoReply,
        )
    }
}

} // verus!
