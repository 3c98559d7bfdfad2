//! Provider resolution protocol: feeding upstream responses, already reduced
//! to plain values, through the per-provider state machine that yields a
//! commit identifier.
//!
//! Two providers resolve in a single call; the third first resolves the
//! owner/repository slug to a numeric project id and only then asks for the
//! branch metadata. Any non-success upstream status aborts resolution and is
//! surfaced unchanged; a missing or shape-mismatched payload is a transport
//! failure, never a "ref not found".

use vstd::prelude::*;
use crate::data::{FilePath, Provider};
use crate::service::spec_branch_api_url;
use crate::service::branch_api_url;

verus! {

/// What the outside shell decoded from one upstream response body.
#[derive(Debug)]
pub enum UpstreamPayload {
    /// The body was the commit identifier itself (single-step text provider).
    CommitText(String),
    /// The body was a page of commit objects: their hashes, newest first
    /// (single-step list provider).
    CommitList(Vec<String>),
    /// The body carried a numeric project id (two-step provider, first step).
    Project(u64),
    /// The body carried branch metadata with its commit id (two-step
    /// provider, second step).
    BranchCommit(String),
}

/// Which call of the resolution protocol a response answers.
#[derive(Clone, Copy, Debug, PartialEq, Eq, Structural)]
pub enum ResolveStep {
    /// The first call, made for every provider.
    First,
    /// The second call of the two-step provider.
    Second,
}

/// The outcome of feeding one upstream response into the protocol.
#[derive(Debug, PartialEq)]
pub enum ResolveOutcome {
    /// The first step of the two-step provider succeeded: make one more
    /// call, to this URL, and feed its response back in as the second step.
    Next { url: String },
    /// Resolution finished with this commit identifier.
    Resolved { commit: String },
    /// The upstream API answered with a non-success status, to be propagated
    /// unchanged; resolution stops here.
    Rejected { status: u16 },
    /// The response did not carry what the protocol expects at this step: a
    /// transport failure.
    Malformed,
}

/// The upstream status code that lets resolution proceed.
pub const STATUS_OK: u16 = 200;

/// Feeds one upstream response into the resolution protocol for `provider`.
///
/// A non-success status short-circuits every provider and step alike. On
/// success the payload is normalized: the text provider's body is the commit,
/// the list provider's newest entry carries it as its hash (an empty page is
/// malformed), and the two-step provider turns its project id into the
/// branch-metadata call before the second step's payload carries the commit.
pub fn on_response(
    provider: Provider,
    step: ResolveStep,
    path: &FilePath,
    status: u16,
    payload: Option<UpstreamPayload>,
) -> (r: ResolveOutcome)
    ensures
        status != STATUS_OK ==> r == (ResolveOutcome::Rejected { status }),
        status == STATUS_OK ==> match (provider, step, payload) {
            (Provider::GitHub, ResolveStep::First, Some(UpstreamPayload::CommitText(c))) => r == (
            ResolveOutcome::Resolved { commit: c }),
            (Provider::Bitbucket, ResolveStep::First, Some(UpstreamPayload::CommitList(v))) => if v@.len()
                > 0 {
                r == (ResolveOutcome::Resolved { commit: v@[0] })
            } else {
                r == ResolveOutcome::Malformed
            },
            (Provider::GitLab, ResolveStep::First, Some(UpstreamPayload::Project(id))) => r matches ResolveOutcome::Next { url }
                && url@ == spec_branch_api_url(id as nat, path.commit@),
            (Provider::GitLab, ResolveStep::Second, Some(UpstreamPayload::BranchCommit(c))) => r == (
            ResolveOutcome::Resolved { commit: c }),
            _ => r == ResolveOutcome::Malformed,
        },
{
    if status != STATUS_OK {
        return ResolveOutcome::Rejected { status };
    }
    match (provider, step, payload) {
        (Provider::GitHub, ResolveStep::First, Some(UpstreamPayload::CommitText(c))) => {
            ResolveOutcome::Resolved { commit: c }
        },
        (Provider::Bitbucket, ResolveStep::First, Some(UpstreamPayload::CommitList(v))) => {
            let mut v = v;
            if v.len() > 0 {
                let commit = v.remove(0);
                ResolveOutcome::Resolved { commit }
            } else {
                ResolveOutcome::Malformed
            }
        },
        (Provider::GitLab, ResolveStep::First, Some(UpstreamPayload::Project(id))) => {
            let url = branch_api_url(id, path.commit.as_str());
            ResolveOutcome::Next { url }
        },
        (Provider::GitLab, ResolveStep::Second, Some(UpstreamPayload::BranchCommit(c))) => {
            ResolveOutcome::Resolved { commit: c }
        },
        _ => ResolveOutcome::Malformed,
    }
}

} // verus!
