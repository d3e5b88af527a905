//! Proposals: suggested graph or code changes and how far they are trusted.

use crate::model::GraphDelta;
use vstd::prelude::*;

verus! {

#[derive(Debug, Clone, Copy, PartialEq, Eq, Structural)]
pub enum TrustState {
    Observed,
    Proposed,
    Validated,
    Accepted,
    Trusted,
    Rejected,
}

/// A suggested change: a graph delta, a code patch, or both.
#[derive(Debug)]
pub struct Proposal {
    pub id: String,
    pub title: String,
    pub trust_state: TrustState,
    pub proposed_graph_delta: Option<GraphDelta>,
    pub proposed_code_patch: Option<String>,
}

impl Proposal {
    /// A fresh proposal: proposed, with nothing attached yet.
    pub fn new(id: String, title: String) -> (p: Proposal)
        ensures
            p.id@ == id@,
            p.title@ == title@,
            p.trust_state == TrustState::Proposed,
            p.proposed_graph_delta is None,
            p.proposed_code_patch is None,
    {
        Proposal { id, title, trust_state: TrustState::Proposed, proposed_graph_delta: None, proposed_code_patch: None }
    }
}

} // verus!
