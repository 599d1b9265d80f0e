//! Records of how an ambiguous reference was resolved.
use crate::domain::topic::{topic_before, Topic};
use crate::ordered::MapKey;
use crate::resolution_graph::edge::{EdgeType, Weight};
use crate::text::Standing;
use vstd::prelude::*;

verus! {

/// The reference that a record is about.
#[derive(Debug, Clone, Copy, PartialEq, Eq, PartialOrd, Ord, Hash, Structural)]
pub enum ResolutionRefId {
    /// A code identifier in documentation, by its node number.
    DocumentationNode(i32),
    /// A code identifier in a comment on code, by the comment and its
    /// occurrence there.
    DevDocComment { comment_topic: Topic, occurrence: u32 },
}

/// The phase that resolved a reference.
#[derive(Debug, Clone, Copy, PartialEq, Eq, Hash, Structural)]
pub enum ResolutionPhase {
    PhaseB,
    PhaseC,
    PhaseE,
    /// No candidate cleared the confidence threshold.
    Unresolved,
}

/// The score of one candidate.
#[derive(Debug)]
pub struct CandidateScore {
    pub topic: Topic,
    pub qualified_name: Option<String>,
    pub pr_score: Weight,
}

/// How strongly an edge pushed towards the chosen candidate.
#[derive(Debug, Clone, Copy, PartialEq, Eq, Structural)]
pub struct EdgeContribution {
    pub predecessor: Topic,
    pub edge_type: EdgeType,
    pub weighted_contribution: Weight,
}

/// The record of one attempt to resolve a reference.
#[derive(Debug)]
pub struct ResolutionTrace {
    pub reference_id: ResolutionRefId,
    pub identifier: String,
    pub section_topic: Topic,
    pub phase_resolved: ResolutionPhase,
    pub iteration: u32,
    pub chosen_topic: Option<Topic>,
    pub candidate_scores: Vec<CandidateScore>,
    pub top_contributing_edges: Vec<EdgeContribution>,
}

/// Documentation references come before comment references.
pub open spec fn ref_before(a: ResolutionRefId, b: ResolutionRefId) -> bool {
    match (a, b) {
        (ResolutionRefId::DocumentationNode(m), ResolutionRefId::DocumentationNode(n)) => m < n,
        (ResolutionRefId::DocumentationNode(_), ResolutionRefId::DevDocComment { .. }) => true,
        (ResolutionRefId::DevDocComment { .. }, ResolutionRefId::DocumentationNode(_)) => false,
        (
            ResolutionRefId::DevDocComment { comment_topic: s, occurrence: m },
            ResolutionRefId::DevDocComment { comment_topic: t, occurrence: n },
        ) => topic_before(s, t) || (s == t && m < n),
    }
}

impl View for ResolutionRefId {
    type V = ResolutionRefId;

    open spec fn view(&self) -> ResolutionRefId {
        *self
    }
}

impl MapKey for ResolutionRefId {
    open spec fn before(a: ResolutionRefId, b: ResolutionRefId) -> bool {
        ref_before(a, b)
    }

    proof fn before_irreflexive(a: ResolutionRefId) {
    }

    proof fn before_transitive(a: ResolutionRefId, b: ResolutionRefId, c: ResolutionRefId) {
    }

    proof fn before_total(a: ResolutionRefId, b: ResolutionRefId) {
    }

    fn standing(&self, other: &Self) -> (r: Standing) {
        match (self, other) {
            (ResolutionRefId::DocumentationNode(m), ResolutionRefId::DocumentationNode(n)) => {
                if m < n {
                    Standing::Before
                } else if n < m {
                    Standing::After
                } else {
                    Standing::Same
                }
            },
            (ResolutionRefId::DocumentationNode(_), ResolutionRefId::DevDocComment { .. }) => {
                Standing::Before
            },
            (ResolutionRefId::DevDocComment { .. }, ResolutionRefId::DocumentationNode(_)) => {
                Standing::After
            },
            (
                ResolutionRefId::DevDocComment { comment_topic: s, occurrence: m },
                ResolutionRefId::DevDocComment { comment_topic: t, occurrence: n },
            ) => match s.standing(t) {
                Standing::Before => Standing::Before,
                Standing::After => Standing::After,
                Standing::Same => {
                    if m < n {
                        Standing::Before
                    } else if n < m {
                        Standing::After
                    } else {
                        Standing::Same
                    }
                },
            },
        }
    }
}

} // verus!
