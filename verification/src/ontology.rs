//! The MVP ontology: the legal node and edge types and the endpoint types
//! each core edge type may connect.

use crate::git_graph::{FullFinding, has_outgoing, no_ids, one_id, outgoing};
use crate::keyed::views;
use crate::model::{EdgeV, Finding, FindingSeverity, Graph, NodeV, findings_full, push_related_finding};
use crate::text::{
    append, append_str, chars_of, contains_string, eq_chars, eq_str, msg3, sorted_insert, sorted_strict,
    string_chars, string_of, strings_view,
};
use vstd::prelude::*;

verus! {

pub const CORE_ONTOLOGY_VERSION: &'static str = "core@0.1.0";

/// Node types of the core ontology.
pub open spec fn core_node_types() -> Set<Seq<char>> {
    set![
        "Project"@,
        "Module"@,
        "Spec"@,
        "Requirement"@,
        "AcceptanceCriterion"@,
        "ActionGraph"@,
        "ActionGroup"@,
        "ActionNode"@,
        "CommitPlan"@,
        "GitBranch"@,
        "GitCommit"@,
        "CodeFile"@,
        "CodeSymbol"@,
        "TestCase"@,
        "ValidationRun"@,
        "Finding"@,
        "GraphSnapshot"@,
        "OntologyPack"@,
        "OntologyVersion"@,
        "OntologyMigration"@,
        "PolicyDecision"@,
        "Actor"@,
        "Role"@,
        "Permission"@,
        "Approval"@,
        "Waiver"@,
        "ImpactAnalysis"@,
        "Proposal"@,
        "ProposedGraphDelta"@,
        "ProposedCodePatch"@,
        "GraphBranch"@,
        "GraphMerge"@,
        "MergeConflict"@,
        "Observation"@,
        "AdoptionBaseline"@,
        "RevalidationQueue"@,
    ]
}

/// Edge types of the core ontology.
pub open spec fn core_edge_types() -> Set<Seq<char>> {
    set![
        "HAS_MODULE"@,
        "TOUCHES_MODULE"@,
        "HAS_REQUIREMENT"@,
        "HAS_ACCEPTANCE_CRITERION"@,
        "HAS_ACTION_GRAPH"@,
        "HAS_ACTION_GROUP"@,
        "HAS_ACTION"@,
        "HAS_COMMIT_PLAN"@,
        "BOUND_TO_BRANCH"@,
        "STARTS_FROM_SNAPSHOT"@,
        "IMPLEMENTS_ACTION_GROUP"@,
        "FOLLOWS_COMMIT_PLAN"@,
        "CHANGES_FILE"@,
        "VERIFIES"@,
        "VALIDATED_BY"@,
        "HAS_FINDING"@,
        "HAS_POLICY_DECISION"@,
        "HAS_WAIVER"@,
        "HAS_APPROVAL"@,
        "HAS_ROLE"@,
        "GRANTS_PERMISSION"@,
        "HAS_IMPACT_ANALYSIS"@,
        "IMPACTS"@,
        "PROPOSES_DELTA"@,
        "PROPOSES_PATCH"@,
        "HAS_CONFLICT"@,
        "OBSERVED_AS"@,
        "BASELINE_IN"@,
    ]
}

/// The node and edge type registry; each list is kept strictly sorted, as a
/// set of names iterated in order.
#[derive(Debug)]
pub struct MvpOntology {
    node_types: Vec<String>,
    edge_types: Vec<String>,
}

impl MvpOntology {
    #[verifier::type_invariant]
    spec fn sorted_unique(self) -> bool {
        sorted_strict(strings_view(self.node_types@)) && sorted_strict(strings_view(self.edge_types@))
    }

    /// The node types this ontology accepts.
    pub closed spec fn node_type_set(self) -> Set<Seq<char>> {
        strings_view(self.node_types@).to_set()
    }

    /// The edge types this ontology accepts.
    pub closed spec fn edge_type_set(self) -> Set<Seq<char>> {
        strings_view(self.edge_types@).to_set()
    }

    /// The core ontology.
    pub fn new() -> (o: Self)
        ensures
            o.node_type_set() == core_node_types(),
            o.edge_type_set() == core_edge_types(),
    {
        let mut nodes: Vec<String> = Vec::new();
        let mut edges: Vec<String> = Vec::new();
        sorted_insert(&mut nodes, String::from_str("Project"));
        sorted_insert(&mut nodes, String::from_str("Module"));
        sorted_insert(&mut nodes, String::from_str("Spec"));
        sorted_insert(&mut nodes, String::from_str("Requirement"));
        sorted_insert(&mut nodes, String::from_str("AcceptanceCriterion"));
        sorted_insert(&mut nodes, String::from_str("ActionGraph"));
        sorted_insert(&mut nodes, String::from_str("ActionGroup"));
        sorted_insert(&mut nodes, String::from_str("ActionNode"));
        sorted_insert(&mut nodes, String::from_str("CommitPlan"));
        sorted_insert(&mut nodes, String::from_str("GitBranch"));
        sorted_insert(&mut nodes, String::from_str("GitCommit"));
        sorted_insert(&mut nodes, String::from_str("CodeFile"));
        sorted_insert(&mut nodes, String::from_str("CodeSymbol"));
        sorted_insert(&mut nodes, String::from_str("TestCase"));
        sorted_insert(&mut nodes, String::from_str("ValidationRun"));
        sorted_insert(&mut nodes, String::from_str("Finding"));
        sorted_insert(&mut nodes, String::from_str("GraphSnapshot"));
        sorted_insert(&mut nodes, String::from_str("OntologyPack"));
        sorted_insert(&mut nodes, String::from_str("OntologyVersion"));
        sorted_insert(&mut nodes, String::from_str("OntologyMigration"));
        sorted_insert(&mut nodes, String::from_str("PolicyDecision"));
        sorted_insert(&mut nodes, String::from_str("Actor"));
        sorted_insert(&mut nodes, String::from_str("Role"));
        sorted_insert(&mut nodes, String::from_str("Permission"));
        sorted_insert(&mut nodes, String::from_str("Approval"));
        sorted_insert(&mut nodes, String::from_str("Waiver"));
        sorted_insert(&mut nodes, String::from_str("ImpactAnalysis"));
        sorted_insert(&mut nodes, String::from_str("Proposal"));
        sorted_insert(&mut nodes, String::from_str("ProposedGraphDelta"));
        sorted_insert(&mut nodes, String::from_str("ProposedCodePatch"));
        sorted_insert(&mut nodes, String::from_str("GraphBranch"));
        sorted_insert(&mut nodes, String::from_str("GraphMerge"));
        sorted_insert(&mut nodes, String::from_str("MergeConflict"));
        sorted_insert(&mut nodes, String::from_str("Observation"));
        sorted_insert(&mut nodes, String::from_str("AdoptionBaseline"));
        sorted_insert(&mut nodes, String::from_str("RevalidationQueue"));
        sorted_insert(&mut edges, String::from_str("HAS_MODULE"));
        sorted_insert(&mut edges, String::from_str("TOUCHES_MODULE"));
        sorted_insert(&mut edges, String::from_str("HAS_REQUIREMENT"));
        sorted_insert(&mut edges, String::from_str("HAS_ACCEPTANCE_CRITERION"));
        sorted_insert(&mut edges, String::from_str("HAS_ACTION_GRAPH"));
        sorted_insert(&mut edges, String::from_str("HAS_ACTION_GROUP"));
        sorted_insert(&mut edges, String::from_str("HAS_ACTION"));
        sorted_insert(&mut edges, String::from_str("HAS_COMMIT_PLAN"));
        sorted_insert(&mut edges, String::from_str("BOUND_TO_BRANCH"));
        sorted_insert(&mut edges, String::from_str("STARTS_FROM_SNAPSHOT"));
        sorted_insert(&mut edges, String::from_str("IMPLEMENTS_ACTION_GROUP"));
        sorted_insert(&mut edges, String::from_str("FOLLOWS_COMMIT_PLAN"));
        sorted_insert(&mut edges, String::from_str("CHANGES_FILE"));
        sorted_insert(&mut edges, String::from_str("VERIFIES"));
        sorted_insert(&mut edges, String::from_str("VALIDATED_BY"));
        sorted_insert(&mut edges, String::from_str("HAS_FINDING"));
        sorted_insert(&mut edges, String::from_str("HAS_POLICY_DECISION"));
        sorted_insert(&mut edges, String::from_str("HAS_WAIVER"));
        sorted_insert(&mut edges, String::from_str("HAS_APPROVAL"));
        sorted_insert(&mut edges, String::from_str("HAS_ROLE"));
        sorted_insert(&mut edges, String::from_str("GRANTS_PERMISSION"));
        sorted_insert(&mut edges, String::from_str("HAS_IMPACT_ANALYSIS"));
        sorted_insert(&mut edges, String::from_str("IMPACTS"));
        sorted_insert(&mut edges, String::from_str("PROPOSES_DELTA"));
        sorted_insert(&mut edges, String::from_str("PROPOSES_PATCH"));
        sorted_insert(&mut edges, String::from_str("HAS_CONFLICT"));
        sorted_insert(&mut edges, String::from_str("OBSERVED_AS"));
        sorted_insert(&mut edges, String::from_str("BASELINE_IN"));
        assert(strings_view(nodes@).to_set() =~= core_node_types());
        assert(strings_view(edges@).to_set() =~= core_edge_types());
        MvpOntology { node_types: nodes, edge_types: edges }
    }

    /// This ontology extended with more node and edge types.
    pub fn with_extensions(self, node_types: Vec<String>, edge_types: Vec<String>) -> (o: Self)
        ensures
            o.node_type_set() == self.node_type_set().union(strings_view(node_types@).to_set()),
            o.edge_type_set() == self.edge_type_set().union(strings_view(edge_types@).to_set()),
    {
        proof {
            use_type_invariant(&self);
        }
        let ghost old_nodes = self.node_type_set();
        let ghost old_edges = self.edge_type_set();
        let MvpOntology { node_types: mut nodes, edge_types: mut edges } = self;
        let mut i: usize = 0;
        while i < node_types.len()
            invariant
                i <= node_types@.len(),
                sorted_strict(strings_view(nodes@)),
                strings_view(nodes@).to_set() == old_nodes.union(
                    strings_view(node_types@.take(i as int)).to_set(),
                ),
            decreases node_types@.len() - i,
        {
            sorted_insert(&mut nodes, node_types[i].clone());
            assert(strings_view(node_types@.take(i + 1)) =~= strings_view(node_types@.take(i as int)).push(node_types@[i as int]@));
            proof {
                strings_view(node_types@.take(i as int)).lemma_push_to_set_commute(node_types@[i as int]@);
            }
            assert(strings_view(nodes@).to_set() =~= old_nodes.union(
                strings_view(node_types@.take(i + 1)).to_set()));
            i = i + 1;
        }
        assert(node_types@.take(node_types@.len() as int) =~= node_types@);
        let mut k: usize = 0;
        while k < edge_types.len()
            invariant
                k <= edge_types@.len(),
                sorted_strict(strings_view(edges@)),
                strings_view(edges@).to_set() == old_edges.union(
                    strings_view(edge_types@.take(k as int)).to_set(),
                ),
            decreases edge_types@.len() - k,
        {
            sorted_insert(&mut edges, edge_types[k].clone());
            assert(strings_view(edge_types@.take(k + 1)) =~= strings_view(edge_types@.take(k as int)).push(edge_types@[k as int]@));
            proof {
                strings_view(edge_types@.take(k as int)).lemma_push_to_set_commute(edge_types@[k as int]@);
            }
            assert(strings_view(edges@).to_set() =~= old_edges.union(
                strings_view(edge_types@.take(k + 1)).to_set()));
            k = k + 1;
        }
        assert(edge_types@.take(edge_types@.len() as int) =~= edge_types@);
        MvpOntology { node_types: nodes, edge_types: edges }
    }

    /// The node types, in ascending order.
    pub fn node_types(&self) -> (r: Vec<String>)
        ensures
            sorted_strict(strings_view(r@)),
            strings_view(r@).to_set() == self.node_type_set(),
    {
        proof {
            use_type_invariant(self);
        }
        copy_strings(&self.node_types)
    }

    /// The edge types, in ascending order.
    pub fn edge_types(&self) -> (r: Vec<String>)
        ensures
            sorted_strict(strings_view(r@)),
            strings_view(r@).to_set() == self.edge_type_set(),
    {
        proof {
            use_type_invariant(self);
        }
        copy_strings(&self.edge_types)
    }

    pub fn is_node_type(&self, value: &str) -> (r: bool)
        ensures
            r == self.node_type_set().contains(value@),
    {
        contains_string(&self.node_types, value)
    }

    pub fn is_edge_type(&self, value: &str) -> (r: bool)
        ensures
            r == self.edge_type_set().contains(value@),
    {
        contains_string(&self.edge_types, value)
    }
}

impl Clone for MvpOntology {
    fn clone(&self) -> (o: Self)
        ensures
            o.node_type_set() == self.node_type_set(),
            o.edge_type_set() == self.edge_type_set(),
    {
        proof {
            use_type_invariant(self);
        }
        MvpOntology {
            node_types: copy_strings(&self.node_types),
            edge_types: copy_strings(&self.edge_types),
        }
    }
}

impl Default for MvpOntology {
    fn default() -> (o: Self)
        ensures
            o.node_type_set() == core_node_types(),
            o.edge_type_set() == core_edge_types(),
    {
        Self::new()
    }
}

pub(crate) fn copy_strings(v: &Vec<String>) -> (r: Vec<String>)
    ensures
        strings_view(r@) == strings_view(v@),
{
    let mut r: Vec<String> = Vec::new();
    let mut i: usize = 0;
    while i < v.len()
        invariant
            i <= v@.len(),
            strings_view(r@) == strings_view(v@.take(i as int)),
        decreases v@.len() - i,
    {
        r.push(v[i].clone());
        assert(strings_view(v@.take(i + 1)) =~= strings_view(v@.take(i as int)).push(v@[i as int]@));
        assert(strings_view(r@) =~= strings_view(v@.take(i + 1)));
        i = i + 1;
    }
    assert(v@.take(v@.len() as int) =~= v@);
    r
}

/// The node types an edge of type `edge_type` may start and end at; `None`
/// for edge types without an endpoint rule.
pub open spec fn endpoint_rule(edge_type: Seq<char>) -> Option<(Seq<Seq<char>>, Seq<Seq<char>>)> {
    if edge_type == "HAS_MODULE"@ {
        Some((seq!["Project"@], seq!["Module"@]))
    }     else if edge_type == "TOUCHES_MODULE"@ {
        Some((seq!["Spec"@], seq!["Module"@]))
    }     else if edge_type == "HAS_REQUIREMENT"@ {
        Some((seq!["Spec"@], seq!["Requirement"@]))
    }     else if edge_type == "HAS_ACCEPTANCE_CRITERION"@ {
        Some((seq!["Spec"@], seq!["AcceptanceCriterion"@]))
    }     else if edge_type == "HAS_ACTION_GRAPH"@ {
        Some((seq!["Spec"@], seq!["ActionGraph"@]))
    }     else if edge_type == "HAS_ACTION_GROUP"@ {
        Some((seq!["ActionGraph"@], seq!["ActionGroup"@]))
    }     else if edge_type == "HAS_ACTION"@ {
        Some((seq!["ActionGroup"@], seq!["ActionNode"@]))
    }     else if edge_type == "HAS_COMMIT_PLAN"@ {
        Some((seq!["ActionGroup"@], seq!["CommitPlan"@]))
    }     else if edge_type == "BOUND_TO_BRANCH"@ {
        Some((seq!["Spec"@], seq!["GitBranch"@]))
    }     else if edge_type == "STARTS_FROM_SNAPSHOT"@ {
        Some((seq!["GitBranch"@], seq!["GraphSnapshot"@]))
    }     else if edge_type == "IMPLEMENTS_ACTION_GROUP"@ {
        Some((seq!["GitCommit"@], seq!["ActionGroup"@]))
    }     else if edge_type == "FOLLOWS_COMMIT_PLAN"@ {
        Some((seq!["GitCommit"@], seq!["CommitPlan"@]))
    }     else if edge_type == "CHANGES_FILE"@ {
        Some((seq!["GitCommit"@], seq!["CodeFile"@]))
    }     else if edge_type == "VERIFIES"@ {
        Some((seq!["TestCase"@], seq!["AcceptanceCriterion"@]))
    }     else if edge_type == "VALIDATED_BY"@ {
        Some((seq!["Project"@, "Spec"@, "GitCommit"@, "CodeFile"@, "TestCase"@], seq!["ValidationRun"@]))
    }     else if edge_type == "HAS_FINDING"@ {
        Some((seq!["ValidationRun"@], seq!["Finding"@]))
    } else {
        None
    }
}

pub open spec fn static_views(v: Seq<&'static str>) -> Seq<Seq<char>> {
    v.map_values(|s: &'static str| s@)
}

pub fn endpoint_types(edge_type: &str) -> (r: Option<(Vec<&'static str>, Vec<&'static str>)>)
    ensures
        r matches Some((f, t)) ==> endpoint_rule(edge_type@) == Some(
            (static_views(f@), static_views(t@)),
        ),
        r is None ==> endpoint_rule(edge_type@) is None,
{
    let e = chars_of(edge_type);
    if eq_str(&e, "HAS_MODULE") {
        let f: Vec<&'static str> = vec!["Project"];
        let t: Vec<&'static str> = vec!["Module"];
        assert(static_views(f@) =~= seq!["Project"@]);
        assert(static_views(t@) =~= seq!["Module"@]);
        Some((f, t))
    }     else if eq_str(&e, "TOUCHES_MODULE") {
        let f: Vec<&'static str> = vec!["Spec"];
        let t: Vec<&'static str> = vec!["Module"];
        assert(static_views(f@) =~= seq!["Spec"@]);
        assert(static_views(t@) =~= seq!["Module"@]);
        Some((f, t))
    }     else if eq_str(&e, "HAS_REQUIREMENT") {
        let f: Vec<&'static str> = vec!["Spec"];
        let t: Vec<&'static str> = vec!["Requirement"];
        assert(static_views(f@) =~= seq!["Spec"@]);
        assert(static_views(t@) =~= seq!["Requirement"@]);
        Some((f, t))
    }     else if eq_str(&e, "HAS_ACCEPTANCE_CRITERION") {
        let f: Vec<&'static str> = vec!["Spec"];
        let t: Vec<&'static str> = vec!["AcceptanceCriterion"];
        assert(static_views(f@) =~= seq!["Spec"@]);
        assert(static_views(t@) =~= seq!["AcceptanceCriterion"@]);
        Some((f, t))
    }     else if eq_str(&e, "HAS_ACTION_GRAPH") {
        let f: Vec<&'static str> = vec!["Spec"];
        let t: Vec<&'static str> = vec!["ActionGraph"];
        assert(static_views(f@) =~= seq!["Spec"@]);
        assert(static_views(t@) =~= seq!["ActionGraph"@]);
        Some((f, t))
    }     else if eq_str(&e, "HAS_ACTION_GROUP") {
        let f: Vec<&'static str> = vec!["ActionGraph"];
        let t: Vec<&'static str> = vec!["ActionGroup"];
        assert(static_views(f@) =~= seq!["ActionGraph"@]);
        assert(static_views(t@) =~= seq!["ActionGroup"@]);
        Some((f, t))
    }     else if eq_str(&e, "HAS_ACTION") {
        let f: Vec<&'static str> = vec!["ActionGroup"];
        let t: Vec<&'static str> = vec!["ActionNode"];
        assert(static_views(f@) =~= seq!["ActionGroup"@]);
        assert(static_views(t@) =~= seq!["ActionNode"@]);
        Some((f, t))
    }     else if eq_str(&e, "HAS_COMMIT_PLAN") {
        let f: Vec<&'static str> = vec!["ActionGroup"];
        let t: Vec<&'static str> = vec!["CommitPlan"];
        assert(static_views(f@) =~= seq!["ActionGroup"@]);
        assert(static_views(t@) =~= seq!["CommitPlan"@]);
        Some((f, t))
    }     else if eq_str(&e, "BOUND_TO_BRANCH") {
        let f: Vec<&'static str> = vec!["Spec"];
        let t: Vec<&'static str> = vec!["GitBranch"];
        assert(static_views(f@) =~= seq!["Spec"@]);
        assert(static_views(t@) =~= seq!["GitBranch"@]);
        Some((f, t))
    }     else if eq_str(&e, "STARTS_FROM_SNAPSHOT") {
        let f: Vec<&'static str> = vec!["GitBranch"];
        let t: Vec<&'static str> = vec!["GraphSnapshot"];
        assert(static_views(f@) =~= seq!["GitBranch"@]);
        assert(static_views(t@) =~= seq!["GraphSnapshot"@]);
        Some((f, t))
    }     else if eq_str(&e, "IMPLEMENTS_ACTION_GROUP") {
        let f: Vec<&'static str> = vec!["GitCommit"];
        let t: Vec<&'static str> = vec!["ActionGroup"];
        assert(static_views(f@) =~= seq!["GitCommit"@]);
        assert(static_views(t@) =~= seq!["ActionGroup"@]);
        Some((f, t))
    }     else if eq_str(&e, "FOLLOWS_COMMIT_PLAN") {
        let f: Vec<&'static str> = vec!["GitCommit"];
        let t: Vec<&'static str> = vec!["CommitPlan"];
        assert(static_views(f@) =~= seq!["GitCommit"@]);
        assert(static_views(t@) =~= seq!["CommitPlan"@]);
        Some((f, t))
    }     else if eq_str(&e, "CHANGES_FILE") {
        let f: Vec<&'static str> = vec!["GitCommit"];
        let t: Vec<&'static str> = vec!["CodeFile"];
        assert(static_views(f@) =~= seq!["GitCommit"@]);
        assert(static_views(t@) =~= seq!["CodeFile"@]);
        Some((f, t))
    }     else if eq_str(&e, "VERIFIES") {
        let f: Vec<&'static str> = vec!["TestCase"];
        let t: Vec<&'static str> = vec!["AcceptanceCriterion"];
        assert(static_views(f@) =~= seq!["TestCase"@]);
        assert(static_views(t@) =~= seq!["AcceptanceCriterion"@]);
        Some((f, t))
    }     else if eq_str(&e, "VALIDATED_BY") {
        let f: Vec<&'static str> = vec!["Project", "Spec", "GitCommit", "CodeFile", "TestCase"];
        let t: Vec<&'static str> = vec!["ValidationRun"];
        assert(static_views(f@) =~= seq!["Project"@, "Spec"@, "GitCommit"@, "CodeFile"@, "TestCase"@]);
        assert(static_views(t@) =~= seq!["ValidationRun"@]);
        Some((f, t))
    }     else if eq_str(&e, "HAS_FINDING") {
        let f: Vec<&'static str> = vec!["ValidationRun"];
        let t: Vec<&'static str> = vec!["Finding"];
        assert(static_views(f@) =~= seq!["ValidationRun"@]);
        assert(static_views(t@) =~= seq!["Finding"@]);
        Some((f, t))
    } else {
        None
    }
}


pub open spec fn one_finding(code: Seq<char>, message: Seq<char>, nodes: Seq<Seq<char>>, edges: Seq<Seq<char>>) -> Seq<
    FullFinding,
> {
    seq![(code, FindingSeverity::Error, message, nodes, edges)]
}

/// What a node is reported for: a type the ontology does not know.
pub open spec fn node_integrity(types: Set<Seq<char>>, n: NodeV) -> Seq<FullFinding> {
    if !types.contains(n.node_type) {
        one_finding(
            "ontology.invalid_node_type"@,
            "Unknown node type `"@ + n.node_type + "`"@,
            seq![n.id],
            Seq::empty(),
        )
    } else {
        Seq::empty()
    }
}

/// Whether the endpoint rule of an edge's type rejects the types of its two
/// ends; an edge type without a rule, or a missing end, is not rejected here.
pub open spec fn endpoint_rejected(nm: Map<Seq<char>, NodeV>, e: EdgeV) -> bool {
    nm.contains_key(e.from) && nm.contains_key(e.to) && match endpoint_rule(e.edge_type) {
        Some((f, t)) => !f.contains(nm[e.from].node_type) || !t.contains(nm[e.to].node_type),
        None => false,
    }
}

/// What an edge is reported for: an unknown type, each missing end, and ends
/// of types its rule does not allow.
pub open spec fn edge_integrity(types: Set<Seq<char>>, nm: Map<Seq<char>, NodeV>, e: EdgeV) -> Seq<FullFinding> {
    (if !types.contains(e.edge_type) {
        one_finding("ontology.invalid_edge_type"@, "Unknown edge type `"@ + e.edge_type + "`"@, Seq::empty(), seq![e.id])
    } else {
        Seq::empty()
    }) + (if !nm.contains_key(e.from) {
        one_finding(
            "ontology.missing_edge_from"@,
            "Edge `"@ + e.id + "` references missing source node `"@ + e.from + "`"@,
            seq![e.from],
            seq![e.id],
        )
    } else {
        Seq::empty()
    }) + (if !nm.contains_key(e.to) {
        one_finding(
            "ontology.missing_edge_to"@,
            "Edge `"@ + e.id + "` references missing target node `"@ + e.to + "`"@,
            seq![e.to],
            seq![e.id],
        )
    } else {
        Seq::empty()
    }) + (if endpoint_rejected(nm, e) {
        one_finding(
            "ontology.invalid_edge_endpoint_type"@,
            "Edge `"@ + e.id + "` of type `"@ + e.edge_type + "` cannot connect `"@ + nm[e.from].node_type + "` to `"@
                + nm[e.to].node_type + "`"@,
            seq![e.from, e.to],
            seq![e.id],
        )
    } else {
        Seq::empty()
    })
}

pub open spec fn nodes_integrity(types: Set<Seq<char>>, ns: Seq<NodeV>) -> Seq<FullFinding>
    decreases ns.len(),
{
    if ns.len() == 0 {
        Seq::empty()
    } else {
        nodes_integrity(types, ns.drop_last()) + node_integrity(types, ns.last())
    }
}

pub open spec fn edges_integrity(types: Set<Seq<char>>, nm: Map<Seq<char>, NodeV>, es: Seq<EdgeV>) -> Seq<FullFinding>
    decreases es.len(),
{
    if es.len() == 0 {
        Seq::empty()
    } else {
        edges_integrity(types, nm, es.drop_last()) + edge_integrity(types, nm, es.last())
    }
}

/// The edges of type `et` out of `from`, in order.
pub open spec fn out_edges(es: Seq<EdgeV>, from: Seq<char>, et: Seq<char>) -> Seq<EdgeV>
    decreases es.len(),
{
    if es.len() == 0 {
        Seq::empty()
    } else if es.last().from == from && es.last().edge_type == et {
        out_edges(es.drop_last(), from, et).push(es.last())
    } else {
        out_edges(es.drop_last(), from, et)
    }
}

pub open spec fn edge_ids(es: Seq<EdgeV>) -> Seq<Seq<char>> {
    es.map_values(|e: EdgeV| e.id)
}

/// What an action group is reported for: no action, no commit plan.
pub open spec fn group_findings(es: Seq<EdgeV>, g: Seq<char>) -> Seq<FullFinding> {
    (if !outgoing(es, g, "HAS_ACTION"@) {
        one_finding(
            "action_group.has_action"@,
            "ActionGroup `"@ + g + "` must have at least one ActionNode"@,
            seq![g],
            Seq::empty(),
        )
    } else {
        Seq::empty()
    }) + (if !outgoing(es, g, "HAS_COMMIT_PLAN"@) {
        one_finding(
            "commit_plan.required_for_action_group"@,
            "ActionGroup `"@ + g + "` must have at least one CommitPlan"@,
            seq![g],
            Seq::empty(),
        )
    } else {
        Seq::empty()
    })
}

pub open spec fn groups_findings(es: Seq<EdgeV>, gs: Seq<EdgeV>) -> Seq<FullFinding>
    decreases gs.len(),
{
    if gs.len() == 0 {
        Seq::empty()
    } else {
        groups_findings(es, gs.drop_last()) + group_findings(es, gs.last().to)
    }
}

/// What an action graph is reported for: no group, then each group's gaps.
pub open spec fn action_graph_findings(es: Seq<EdgeV>, ag: Seq<char>) -> Seq<FullFinding> {
    let gs = out_edges(es, ag, "HAS_ACTION_GROUP"@);
    (if gs.len() == 0 {
        one_finding(
            "action_graph.has_action_group"@,
            "ActionGraph `"@ + ag + "` must have at least one ActionGroup"@,
            seq![ag],
            Seq::empty(),
        )
    } else {
        Seq::empty()
    }) + groups_findings(es, gs)
}

pub open spec fn action_graphs_findings(es: Seq<EdgeV>, ags: Seq<EdgeV>) -> Seq<FullFinding>
    decreases ags.len(),
{
    if ags.len() == 0 {
        Seq::empty()
    } else {
        action_graphs_findings(es, ags.drop_last()) + action_graph_findings(es, ags.last().to)
    }
}

/// What a Spec node is reported for: no requirement, no acceptance
/// criterion, more than one branch, more than one action graph, and the
/// gaps of each of its action graphs.
/// A Spec's own gaps: no requirement, no acceptance criterion, more than one
/// branch.
pub open spec fn spec_basic_findings(es: Seq<EdgeV>, id: Seq<char>) -> Seq<FullFinding> {
    let branches = out_edges(es, id, "BOUND_TO_BRANCH"@);
    (if !outgoing(es, id, "HAS_REQUIREMENT"@) {
        one_finding("spec.has_requirement"@, "Spec `"@ + id + "` must have at least one requirement"@, seq![id], Seq::empty())
    } else {
        Seq::empty()
    }) + (if !outgoing(es, id, "HAS_ACCEPTANCE_CRITERION"@) {
        one_finding(
            "spec.has_acceptance_criterion"@,
            "Spec `"@ + id + "` must have at least one acceptance criterion"@,
            seq![id],
            Seq::empty(),
        )
    } else {
        Seq::empty()
    }) + (if branches.len() > 1 {
        one_finding(
            "spec.bound_to_branch_cardinality"@,
            "Spec `"@ + id + "` can be bound to at most one Git branch"@,
            seq![id],
            edge_ids(branches),
        )
    } else {
        Seq::empty()
    })
}

/// A Spec's action graph gaps: more than one action graph, then the gaps of
/// each.
pub open spec fn spec_action_graph_findings(es: Seq<EdgeV>, id: Seq<char>) -> Seq<FullFinding> {
    let ags = out_edges(es, id, "HAS_ACTION_GRAPH"@);
    (if ags.len() > 1 {
        one_finding("action_graph.cardinality"@, "Spec `"@ + id + "` can have at most one ActionGraph"@, seq![id], edge_ids(ags))
    } else {
        Seq::empty()
    }) + action_graphs_findings(es, ags)
}

/// What a Spec node is reported for: its own gaps, then its action graphs'.
pub open spec fn spec_completeness(es: Seq<EdgeV>, n: NodeV) -> Seq<FullFinding> {
    if n.node_type != "Spec"@ {
        Seq::empty()
    } else {
        spec_basic_findings(es, n.id) + spec_action_graph_findings(es, n.id)
    }
}

pub open spec fn specs_completeness(es: Seq<EdgeV>, ns: Seq<NodeV>) -> Seq<FullFinding>
    decreases ns.len(),
{
    if ns.len() == 0 {
        Seq::empty()
    } else {
        specs_completeness(es, ns.drop_last()) + spec_completeness(es, ns.last())
    }
}

proof fn lemma_no_out_edges(es: Seq<EdgeV>, id: Seq<char>, et: Seq<char>)
    requires
        forall|i: int| 0 <= i < es.len() ==> (#[trigger] es[i]).from != id,
    ensures
        out_edges(es, id, et) == Seq::<EdgeV>::empty(),
    decreases es.len(),
{
    if es.len() > 0 {
        assert(es.last() == es[es.len() - 1]);
        lemma_no_out_edges(es.drop_last(), id, et);
    }
}

/// A Spec is reported for a missing requirement, naming it, whenever no
/// `HAS_REQUIREMENT` edge leaves it, and for a missing acceptance criterion
/// whenever no `HAS_ACCEPTANCE_CRITERION` edge leaves it; a Spec that no edge leaves at all is
/// reported exactly for a missing requirement and a missing acceptance
/// criterion, both naming it, and for nothing else.
pub proof fn spec_without_edges_findings(es: Seq<EdgeV>, n: NodeV)
    requires
        n.node_type == "Spec"@,
    ensures
        !outgoing(es, n.id, "HAS_ACCEPTANCE_CRITERION"@) ==> spec_completeness(es, n).contains(
            (
                "spec.has_acceptance_criterion"@,
                FindingSeverity::Error,
                "Spec `"@ + n.id + "` must have at least one acceptance criterion"@,
                seq![n.id],
                Seq::<Seq<char>>::empty(),
            ),
        ),
        !outgoing(es, n.id, "HAS_REQUIREMENT"@) ==> spec_completeness(es, n)[0] == (
            "spec.has_requirement"@,
            FindingSeverity::Error,
            "Spec `"@ + n.id + "` must have at least one requirement"@,
            seq![n.id],
            Seq::<Seq<char>>::empty(),
        ),
        (forall|i: int| 0 <= i < es.len() ==> (#[trigger] es[i]).from != n.id) ==> spec_completeness(es, n)
            == one_finding(
            "spec.has_requirement"@,
            "Spec `"@ + n.id + "` must have at least one requirement"@,
            seq![n.id],
            Seq::empty(),
        ) + one_finding(
            "spec.has_acceptance_criterion"@,
            "Spec `"@ + n.id + "` must have at least one acceptance criterion"@,
            seq![n.id],
            Seq::empty(),
        ),
{
    if !outgoing(es, n.id, "HAS_ACCEPTANCE_CRITERION"@) {
        let k: int = if outgoing(es, n.id, "HAS_REQUIREMENT"@) { 0 } else { 1 };
        assert(spec_completeness(es, n)[k] == (
            "spec.has_acceptance_criterion"@,
            FindingSeverity::Error,
            "Spec `"@ + n.id + "` must have at least one acceptance criterion"@,
            seq![n.id],
            Seq::<Seq<char>>::empty(),
        ));
    }
    if forall|i: int| 0 <= i < es.len() ==> (#[trigger] es[i]).from != n.id {
        lemma_no_out_edges(es, n.id, "BOUND_TO_BRANCH"@);
        lemma_no_out_edges(es, n.id, "HAS_ACTION_GRAPH"@);
        assert(!outgoing(es, n.id, "HAS_REQUIREMENT"@));
        assert(!outgoing(es, n.id, "HAS_ACCEPTANCE_CRITERION"@));
        assert(action_graphs_findings(es, Seq::<EdgeV>::empty()) =~= Seq::<FullFinding>::empty());
        assert(spec_completeness(es, n) =~= one_finding(
            "spec.has_requirement"@,
            "Spec `"@ + n.id + "` must have at least one requirement"@,
            seq![n.id],
            Seq::empty(),
        ) + one_finding(
            "spec.has_acceptance_criterion"@,
            "Spec `"@ + n.id + "` must have at least one acceptance criterion"@,
            seq![n.id],
            Seq::empty(),
        ));
    }
}

fn out_edges_of(edges: &Vec<crate::model::Edge>, from: &String, et: &str) -> (r: (Vec<String>, Vec<String>))
    ensures
        strings_view(r.0@) == edge_ids(out_edges(views(edges@), from@, et@)),
        strings_view(r.1@) == out_edges(views(edges@), from@, et@).map_values(|e: EdgeV| e.to),
{
    let ghost es = views(edges@);
    let fc = string_chars(from);
    let mut ids: Vec<String> = Vec::new();
    let mut tos: Vec<String> = Vec::new();
    let mut i: usize = 0;
    assert(strings_view(ids@) =~= edge_ids(out_edges(es.take(0), from@, et@)));
    assert(strings_view(tos@) =~= out_edges(es.take(0), from@, et@).map_values(|e: EdgeV| e.to));
    while i < edges.len()
        invariant
            i <= edges@.len(),
            es == views(edges@),
            fc@ == from@,
            strings_view(ids@) == edge_ids(out_edges(es.take(i as int), from@, et@)),
            strings_view(tos@) == out_edges(es.take(i as int), from@, et@).map_values(|e: EdgeV| e.to),
        decreases edges@.len() - i,
    {
        let e = &edges[i];
        assert(es[i as int] == e@);
        assert(es.take(i + 1).drop_last() =~= es.take(i as int));
        assert(es.take(i + 1).last() == e@);
        if eq_chars(&string_chars(&e.from), &fc) && eq_str(&string_chars(&e.edge_type), et) {
            let ghost a = strings_view(ids@);
            let ghost b = strings_view(tos@);
            let ghost o = out_edges(es.take(i as int), from@, et@);
            ids.push(e.id.clone());
            tos.push(e.to.clone());
            assert(edge_ids(o.push(e@)) =~= edge_ids(o).push(e.id@));
            assert(o.push(e@).map_values(|e: EdgeV| e.to) =~= o.map_values(|e: EdgeV| e.to).push(e.to@));
            assert(strings_view(ids@) =~= a.push(e.id@));
            assert(strings_view(tos@) =~= b.push(e.to@));
        }
        i = i + 1;
    }
    assert(es.take(es.len() as int) =~= es);
    (ids, tos)
}

fn push_group_findings(findings: &mut Vec<Finding>, edges: &Vec<crate::model::Edge>, g: &String)
    ensures
        findings_full(final(findings)@) == findings_full(old(findings)@) + group_findings(views(edges@), g@),
{
    let ghost f0 = findings_full(findings@);
    let gc = string_chars(g);
    if !has_outgoing(edges, g, "HAS_ACTION") {
        push_related_finding(
            findings,
            "action_group.has_action",
            msg3("ActionGroup `", &gc, "` must have at least one ActionNode"),
            one_id(g),
            no_ids(),
        );
    }
    let ghost f1 = findings_full(findings@);
    if !has_outgoing(edges, g, "HAS_COMMIT_PLAN") {
        push_related_finding(
            findings,
            "commit_plan.required_for_action_group",
            msg3("ActionGroup `", &gc, "` must have at least one CommitPlan"),
            one_id(g),
            no_ids(),
        );
    }
    assert(findings_full(findings@) =~= f0 + group_findings(views(edges@), g@));
}

fn push_action_graph_findings(findings: &mut Vec<Finding>, edges: &Vec<crate::model::Edge>, ag: &String)
    ensures
        findings_full(final(findings)@) == findings_full(old(findings)@) + action_graph_findings(views(edges@), ag@),
{
    let ghost es = views(edges@);
    let ghost f0 = findings_full(findings@);
    let (ids, groups) = out_edges_of(edges, ag, "HAS_ACTION_GROUP");
    let ghost gs = out_edges(es, ag@, "HAS_ACTION_GROUP"@);
    assert(strings_view(groups@).len() == groups@.len());
    assert(groups@.len() == gs.len());
    if groups.len() == 0 {
        let agc = string_chars(ag);
        push_related_finding(
            findings,
            "action_graph.has_action_group",
            msg3("ActionGraph `", &agc, "` must have at least one ActionGroup"),
            one_id(ag),
            no_ids(),
        );
    }
    let ghost f1 = findings_full(findings@);
    assert(f1 =~= f0 + (if gs.len() == 0 {
        one_finding(
            "action_graph.has_action_group"@,
            "ActionGraph `"@ + ag@ + "` must have at least one ActionGroup"@,
            seq![ag@],
            Seq::empty(),
        )
    } else {
        Seq::<FullFinding>::empty()
    }));
    let mut k: usize = 0;
    while k < groups.len()
        invariant
            k <= groups@.len(),
            es == views(edges@),
            gs == out_edges(es, ag@, "HAS_ACTION_GROUP"@),
            groups@.len() == gs.len(),
            strings_view(groups@) == gs.map_values(|e: EdgeV| e.to),
            findings_full(findings@) == f1 + groups_findings(es, gs.take(k as int)),
        decreases groups@.len() - k,
    {
        assert(strings_view(groups@)[k as int] == gs[k as int].to);
        push_group_findings(findings, edges, &groups[k]);
        assert(gs.take(k + 1).drop_last() =~= gs.take(k as int));
        assert(gs.take(k + 1).last() == gs[k as int]);
        k = k + 1;
    }
    assert(gs.take(gs.len() as int) =~= gs);
}

fn push_spec_completeness(findings: &mut Vec<Finding>, edges: &Vec<crate::model::Edge>, id: &String)
    ensures
        findings_full(final(findings)@) == findings_full(old(findings)@) + spec_basic_findings(views(edges@), id@),
{
    let ghost f0 = findings_full(findings@);
    let idc = string_chars(id);
    if !has_outgoing(edges, id, "HAS_REQUIREMENT") {
        push_related_finding(
            findings,
            "spec.has_requirement",
            msg3("Spec `", &idc, "` must have at least one requirement"),
            one_id(id),
            no_ids(),
        );
    }
    if !has_outgoing(edges, id, "HAS_ACCEPTANCE_CRITERION") {
        push_related_finding(
            findings,
            "spec.has_acceptance_criterion",
            msg3("Spec `", &idc, "` must have at least one acceptance criterion"),
            one_id(id),
            no_ids(),
        );
    }
    let (branch_ids, _branch_tos) = out_edges_of(edges, id, "BOUND_TO_BRANCH");
    assert(strings_view(branch_ids@).len() == branch_ids@.len());
    if branch_ids.len() > 1 {
        push_related_finding(
            findings,
            "spec.bound_to_branch_cardinality",
            msg3("Spec `", &idc, "` can be bound to at most one Git branch"),
            one_id(id),
            branch_ids,
        );
    }
    assert(findings_full(findings@) =~= f0 + spec_basic_findings(views(edges@), id@));
}

fn push_spec_action_graphs(findings: &mut Vec<Finding>, edges: &Vec<crate::model::Edge>, id: &String)
    ensures
        findings_full(final(findings)@) == findings_full(old(findings)@) + spec_action_graph_findings(views(edges@), id@),
{
    let ghost es = views(edges@);
    let ghost f0 = findings_full(findings@);
    let idc = string_chars(id);
    let (ag_ids, ag_tos) = out_edges_of(edges, id, "HAS_ACTION_GRAPH");
    let ghost ags = out_edges(es, id@, "HAS_ACTION_GRAPH"@);
    assert(strings_view(ag_ids@).len() == ag_ids@.len());
    assert(strings_view(ag_tos@).len() == ag_tos@.len());
    assert(ag_tos@.len() == ags.len());
    if ag_ids.len() > 1 {
        push_related_finding(
            findings,
            "action_graph.cardinality",
            msg3("Spec `", &idc, "` can have at most one ActionGraph"),
            one_id(id),
            ag_ids,
        );
    }
    let ghost f1 = findings_full(findings@);
    let mut k: usize = 0;
    while k < ag_tos.len()
        invariant
            k <= ag_tos@.len(),
            es == views(edges@),
            ags == out_edges(es, id@, "HAS_ACTION_GRAPH"@),
            ag_tos@.len() == ags.len(),
            strings_view(ag_tos@) == ags.map_values(|e: EdgeV| e.to),
            findings_full(findings@) == f1 + action_graphs_findings(es, ags.take(k as int)),
        decreases ag_tos@.len() - k,
    {
        assert(strings_view(ag_tos@)[k as int] == ags[k as int].to);
        push_action_graph_findings(findings, edges, &ag_tos[k]);
        assert(ags.take(k + 1).drop_last() =~= ags.take(k as int));
        assert(ags.take(k + 1).last() == ags[k as int]);
        k = k + 1;
    }
    assert(ags.take(ags.len() as int) =~= ags);
    assert(findings_full(findings@) =~= f0 + spec_action_graph_findings(es, id@));
}

impl MvpOntology {
    /// What replay needs of a graph: known node and edge types, edges whose
    /// ends exist, and ends of the types each core edge type allows. Nodes
    /// are checked first, then edges, each in id order.
    pub fn validate_integrity(&self, graph: &Graph) -> (r: Vec<Finding>)
        ensures
            findings_full(r@) == nodes_integrity(self.node_type_set(), graph.node_seq()) + edges_integrity(
                self.edge_type_set(),
                graph.node_map(),
                graph.edge_seq(),
            ),
    {
        let nodes = graph.nodes();
        let edges = graph.edges();
        let ghost ns = views(nodes@);
        let ghost es = views(edges@);
        let ghost nm = graph.node_map();
        let mut findings: Vec<Finding> = Vec::new();
        assert(findings_full(findings@) =~= nodes_integrity(self.node_type_set(), ns.take(0)));
        let mut i: usize = 0;
        while i < nodes.len()
            invariant
                i <= nodes@.len(),
                ns == views(nodes@),
                ns == graph.node_seq(),
                findings_full(findings@) == nodes_integrity(self.node_type_set(), ns.take(i as int)),
            decreases nodes@.len() - i,
        {
            let n = &nodes[i];
            assert(ns[i as int] == n@);
            let ghost f0 = findings_full(findings@);
            if !self.is_node_type(n.node_type.as_str()) {
                push_related_finding(
                    &mut findings,
                    "ontology.invalid_node_type",
                    msg3("Unknown node type `", &string_chars(&n.node_type), "`"),
                    one_id(&n.id),
                    no_ids(),
                );
            }
            assert(ns.take(i + 1).drop_last() =~= ns.take(i as int));
            assert(findings_full(findings@) =~= f0 + node_integrity(self.node_type_set(), n@));
            i = i + 1;
        }
        assert(ns.take(ns.len() as int) =~= ns);
        let ghost f1 = findings_full(findings@);
        assert(f1 + edges_integrity(self.edge_type_set(), nm, es.take(0)) =~= f1);
        let mut i: usize = 0;
        while i < edges.len()
            invariant
                i <= edges@.len(),
                es == views(edges@),
                es == graph.edge_seq(),
                nm == graph.node_map(),
                findings_full(findings@) == f1 + edges_integrity(self.edge_type_set(), nm, es.take(i as int)),
            decreases edges@.len() - i,
        {
            let e = &edges[i];
            assert(es[i as int] == e@);
            let ghost f0 = findings_full(findings@);
            self.push_edge_integrity(&mut findings, graph, e);
            assert(es.take(i + 1).drop_last() =~= es.take(i as int));
            assert(es.take(i + 1).last() == e@);
            i = i + 1;
        }
        assert(es.take(es.len() as int) =~= es);
        findings
    }

    fn push_edge_integrity(&self, findings: &mut Vec<Finding>, graph: &Graph, e: &crate::model::Edge)
        ensures
            findings_full(final(findings)@) == findings_full(old(findings)@) + edge_integrity(
                self.edge_type_set(),
                graph.node_map(),
                e@,
            ),
    {
        let ghost f0 = findings_full(findings@);
        let idc = string_chars(&e.id);
        if !self.is_edge_type(e.edge_type.as_str()) {
            push_related_finding(
                findings,
                "ontology.invalid_edge_type",
                msg3("Unknown edge type `", &string_chars(&e.edge_type), "`"),
                no_ids(),
                one_id(&e.id),
            );
        }
        let from = graph.node(e.from.as_str());
        let to = graph.node(e.to.as_str());
        if from.is_none() {
            push_related_finding(
                findings,
                "ontology.missing_edge_from",
                crate::text::msg5("Edge `", &idc, "` references missing source node `", &string_chars(&e.from), "`"),
                one_id(&e.from),
                one_id(&e.id),
            );
        }
        if to.is_none() {
            push_related_finding(
                findings,
                "ontology.missing_edge_to",
                crate::text::msg5("Edge `", &idc, "` references missing target node `", &string_chars(&e.to), "`"),
                one_id(&e.to),
                one_id(&e.id),
            );
        }
        let ghost f3 = findings_full(findings@);
        match (from, to, endpoint_types(e.edge_type.as_str())) {
            (Some(f), Some(t), Some((allowed_from, allowed_to))) => {
                let fok = static_contains(&allowed_from, f.node_type.as_str());
                let tok = static_contains(&allowed_to, t.node_type.as_str());
                if !fok || !tok {
                    let mut m = chars_of("Edge `");
                    append(&mut m, &idc);
                    append_str(&mut m, "` of type `");
                    append(&mut m, &string_chars(&e.edge_type));
                    append_str(&mut m, "` cannot connect `");
                    append(&mut m, &string_chars(&f.node_type));
                    append_str(&mut m, "` to `");
                    append(&mut m, &string_chars(&t.node_type));
                    append_str(&mut m, "`");
                    let related = two_ids(&e.from, &e.to);
                    push_related_finding(
                        findings,
                        "ontology.invalid_edge_endpoint_type",
                        string_of(&m),
                        related,
                        one_id(&e.id),
                    );
                }
            },
            _ => {},
        }
        assert(findings_full(findings@) =~= f0 + edge_integrity(self.edge_type_set(), graph.node_map(), e@));
    }

    /// Integrity, then each Spec's completeness in id order: a requirement,
    /// an acceptance criterion, at most one branch and one action graph, and
    /// action graphs whose groups each have an action and a commit plan.
    pub fn validate_graph(&self, graph: &Graph) -> (r: Vec<Finding>)
        ensures
            findings_full(r@) == nodes_integrity(self.node_type_set(), graph.node_seq()) + edges_integrity(
                self.edge_type_set(),
                graph.node_map(),
                graph.edge_seq(),
            ) + specs_completeness(graph.edge_seq(), graph.node_seq()),
    {
        let mut findings = self.validate_integrity(graph);
        let nodes = graph.nodes();
        let edges = graph.edges();
        let ghost ns = views(nodes@);
        let ghost es = views(edges@);
        let ghost f1 = findings_full(findings@);
        assert(f1 + specs_completeness(es, ns.take(0)) =~= f1);
        let mut i: usize = 0;
        while i < nodes.len()
            invariant
                i <= nodes@.len(),
                ns == views(nodes@),
                ns == graph.node_seq(),
                es == views(edges@),
                es == graph.edge_seq(),
                findings_full(findings@) == f1 + specs_completeness(es, ns.take(i as int)),
            decreases nodes@.len() - i,
        {
            let n = &nodes[i];
            assert(ns[i as int] == n@);
            let ghost f0 = findings_full(findings@);
            if eq_str(&string_chars(&n.node_type), "Spec") {
                push_spec_completeness(&mut findings, edges, &n.id);
                push_spec_action_graphs(&mut findings, edges, &n.id);
            }
            assert(ns.take(i + 1).drop_last() =~= ns.take(i as int));
            assert(findings_full(findings@) =~= f0 + spec_completeness(es, n@));
            i = i + 1;
        }
        assert(ns.take(ns.len() as int) =~= ns);
        findings
    }
}

fn two_ids(a: &String, b: &String) -> (r: Vec<String>)
    ensures
        strings_view(r@) == seq![a@, b@],
{
    let mut v: Vec<String> = Vec::new();
    v.push(a.clone());
    v.push(b.clone());
    assert(strings_view(v@) =~= seq![a@, b@]);
    v
}

fn static_contains(v: &Vec<&'static str>, x: &str) -> (r: bool)
    ensures
        r == static_views(v@).contains(x@),
{
    let xc = chars_of(x);
    let mut i: usize = 0;
    while i < v.len()
        invariant
            i <= v@.len(),
            xc@ == x@,
            forall|j: int| 0 <= j < i ==> static_views(v@)[j] != x@,
        decreases v@.len() - i,
    {
        if eq_chars(&chars_of(v[i]), &xc) {
            assert(static_views(v@)[i as int] == x@);
            return true;
        }
        i = i + 1;
    }
    false
}

} // verus!
