//! Findings and operation receipts shared by every validator.

use crate::keyed::{Keyed, first_wins, has_key, keyed_insert_first, keyed_map, keyed_remove, keyed_sorted, keyed_upsert, keyed_get, lemma_first_wins_push, views};
use crate::ids::{stable_edge_id, stable_view};
use crate::text::{append, append_str, chars_of, eq_chars, lt_chars, seq_lt, string_chars, string_of, strings_view};
use vstd::prelude::*;

verus! {

#[derive(Debug, Clone, Copy, PartialEq, Eq, Structural)]
pub enum FindingSeverity {
    Info,
    Warning,
    Error,
}

/// One validator finding: a stable code, a severity and a human-readable message.
#[derive(Debug, Clone, PartialEq, Eq)]
pub struct Finding {
    pub code: String,
    pub severity: FindingSeverity,
    pub message: String,
    pub related_nodes: Vec<String>,
    pub related_edges: Vec<String>,
}

/// The observable parts of a finding: its code, severity and message.
pub open spec fn finding_view(f: Finding) -> (Seq<char>, FindingSeverity, Seq<char>) {
    (f.code@, f.severity, f.message@)
}

pub open spec fn findings_view(fs: Seq<Finding>) -> Seq<(Seq<char>, FindingSeverity, Seq<char>)> {
    fs.map_values(|f: Finding| finding_view(f))
}

/// A finding with no related nodes or edges.
pub fn new_finding(code: &str, severity: FindingSeverity, message: String) -> (f: Finding)
    ensures
        f.code@ == code@,
        f.severity == severity,
        f.message@ == message@,
        f.related_nodes@.len() == 0,
        f.related_edges@.len() == 0,
{
    Finding {
        code: String::from_str(code),
        severity,
        message,
        related_nodes: Vec::new(),
        related_edges: Vec::new(),
    }
}

/// Findings that name no related nodes or edges.
pub open spec fn no_related(fs: Seq<Finding>) -> bool {
    forall|i: int| 0 <= i < fs.len() ==> (#[trigger] fs[i]).related_nodes@.len() == 0 && fs[i].related_edges@.len() == 0
}

/// Joining two lists of findings without related ids gives such a list.
pub proof fn lemma_no_related_append(a: Seq<Finding>, b: Seq<Finding>)
    requires
        no_related(a),
        no_related(b),
    ensures
        no_related(a + b),
{
    assert forall|i: int| 0 <= i < (a + b).len() implies (#[trigger] (a + b)[i]).related_nodes@.len() == 0 && (a
        + b)[i].related_edges@.len() == 0 by {
        if i < a.len() {
            assert((a + b)[i] == a[i]);
        } else {
            assert((a + b)[i] == b[i - a.len()]);
        }
    }
}

/// Pushes a finding and states what the list holds afterwards.
pub fn push_finding(
    findings: &mut Vec<Finding>,
    code: &str,
    severity: FindingSeverity,
    message: String,
)
    ensures
        findings_view(final(findings)@) == findings_view(old(findings)@).push(
            (code@, severity, message@),
        ),
        no_related(old(findings)@) ==> no_related(final(findings)@),
{
    let f = new_finding(code, severity, message);
    let ghost prev = findings@;
    findings.push(f);
    assert(findings_view(findings@) =~= findings_view(prev).push((code@, severity, message@)));
}

pub const OPERATION_REQUEST_SCHEMA_VERSION: &'static str = "specgraph.operation-request/v1";

/// A request to run one graph operation.
#[derive(Debug)]
pub struct OperationRequest {
    pub schema_version: String,
    pub operation_id: String,
    pub operation: String,
    pub actor: String,
    pub timestamp: String,
    pub ontology_version: String,
    pub graph_branch: String,
    pub dry_run: bool,
    pub input: JsonValue,
}

/// Receipt of an accepted or rejected operation.
#[derive(Debug, Clone, PartialEq, Eq)]
pub struct OperationReceipt {
    pub operation_id: String,
    pub operation: String,
    pub accepted: bool,
    pub dry_run: bool,
    pub pre_state_hash: String,
    pub post_state_hash: String,
    pub event_ids: Vec<String>,
    pub created_nodes: Vec<String>,
    pub updated_nodes: Vec<String>,
    pub deleted_nodes: Vec<String>,
    pub created_edges: Vec<String>,
    pub updated_edges: Vec<String>,
    pub deleted_edges: Vec<String>,
    pub findings: Vec<Finding>,
}


/// A JSON value as graph attributes hold it. Numbers that fit in an `i64`
/// are `Int`; any other number keeps its JSON text in `Number`.
#[derive(Debug)]
pub enum JsonValue {
    Null,
    Bool(bool),
    Int(i64),
    Number(String),
    Text(String),
    Array(Vec<JsonValue>),
    Object(Vec<(String, JsonValue)>),
}

/// The mathematical content of a JSON value.
pub enum JsonV {
    Null,
    Bool(bool),
    Int(int),
    Number(Seq<char>),
    Text(Seq<char>),
    Array(Seq<JsonV>),
    Object(Seq<(Seq<char>, JsonV)>),
}

pub open spec fn json_view(v: JsonValue) -> JsonV
    decreases v, 0nat,
{
    match v {
        JsonValue::Null => JsonV::Null,
        JsonValue::Bool(b) => JsonV::Bool(b),
        JsonValue::Int(i) => JsonV::Int(i as int),
        JsonValue::Number(s) => JsonV::Number(s@),
        JsonValue::Text(s) => JsonV::Text(s@),
        JsonValue::Array(items) => JsonV::Array(json_seq_view(items@)),
        JsonValue::Object(fields) => JsonV::Object(json_fields_view(fields@)),
    }
}

pub open spec fn json_seq_view(s: Seq<JsonValue>) -> Seq<JsonV>
    decreases s, s.len(),
{
    if s.len() == 0 {
        Seq::empty()
    } else {
        json_seq_view(s.drop_last()).push(json_view(s.last()))
    }
}

pub open spec fn json_fields_view(s: Seq<(String, JsonValue)>) -> Seq<(Seq<char>, JsonV)>
    decreases s, s.len(),
{
    if s.len() == 0 {
        Seq::empty()
    } else {
        json_fields_view(s.drop_last()).push((s.last().0@, json_view(s.last().1)))
    }
}

impl View for JsonValue {
    type V = JsonV;

    open spec fn view(&self) -> JsonV {
        json_view(*self)
    }
}

pub proof fn lemma_json_seq_view(s: Seq<JsonValue>)
    ensures
        json_seq_view(s).len() == s.len(),
        forall|i: int| 0 <= i < s.len() ==> #[trigger] json_seq_view(s)[i] == json_view(s[i]),
    decreases s.len(),
{
    if s.len() > 0 {
        lemma_json_seq_view(s.drop_last());
        assert forall|i: int| 0 <= i < s.len() implies #[trigger] json_seq_view(s)[i] == json_view(s[i]) by {
            if i < s.len() - 1 {
                assert(s.drop_last()[i] == s[i]);
            }
        }
    }
}

pub proof fn lemma_json_fields_view(s: Seq<(String, JsonValue)>)
    ensures
        json_fields_view(s).len() == s.len(),
        forall|i: int| 0 <= i < s.len() ==> #[trigger] json_fields_view(s)[i] == (s[i].0@, json_view(s[i].1)),
    decreases s.len(),
{
    if s.len() > 0 {
        lemma_json_fields_view(s.drop_last());
        assert forall|i: int| 0 <= i < s.len() implies #[trigger] json_fields_view(s)[i] == (s[i].0@, json_view(s[i].1)) by {
            if i < s.len() - 1 {
                assert(s.drop_last()[i] == s[i]);
            }
        }
    }
}

/// Whether two attribute lists hold the same pairs.
pub fn same_fields(a: &Vec<(String, JsonValue)>, b: &Vec<(String, JsonValue)>) -> (r: bool)
    ensures
        r == (json_fields_view(a@) == json_fields_view(b@)),
{
    proof {
        lemma_json_fields_view(a@);
        lemma_json_fields_view(b@);
    }
    if a.len() != b.len() {
        return false;
    }
    let mut i: usize = 0;
    while i < a.len()
        invariant
            i <= a@.len(),
            a@.len() == b@.len(),
            json_fields_view(a@).len() == a@.len(),
            json_fields_view(b@).len() == b@.len(),
            forall|k: int| 0 <= k < a@.len() ==> #[trigger] json_fields_view(a@)[k] == (a@[k].0@, json_view(a@[k].1)),
            forall|k: int| 0 <= k < b@.len() ==> #[trigger] json_fields_view(b@)[k] == (b@[k].0@, json_view(b@[k].1)),
            forall|k: int| 0 <= k < i ==> json_fields_view(a@)[k] == json_fields_view(b@)[k],
        decreases a@.len() - i,
    {
        let ka = string_chars(&a[i].0);
        let kb = string_chars(&b[i].0);
        if !eq_chars(&ka, &kb) || !a[i].1.same(&b[i].1) {
            assert(json_fields_view(a@)[i as int] != json_fields_view(b@)[i as int]);
            return false;
        }
        i = i + 1;
    }
    assert(json_fields_view(a@) =~= json_fields_view(b@));
    true
}

impl JsonValue {
    /// Whether two values have the same content.
    pub fn same(&self, other: &JsonValue) -> (r: bool)
        ensures
            r == (self@ == other@),
        decreases *self, 0nat,
    {
        match (self, other) {
            (JsonValue::Null, JsonValue::Null) => true,
            (JsonValue::Bool(a), JsonValue::Bool(b)) => *a == *b,
            (JsonValue::Int(a), JsonValue::Int(b)) => *a == *b,
            (JsonValue::Number(a), JsonValue::Number(b)) => eq_chars(&string_chars(a), &string_chars(b)),
            (JsonValue::Text(a), JsonValue::Text(b)) => eq_chars(&string_chars(a), &string_chars(b)),
            (JsonValue::Array(a), JsonValue::Array(b)) => {
                proof {
                    lemma_json_seq_view(a@);
                    lemma_json_seq_view(b@);
                }
                if a.len() != b.len() {
                    return false;
                }
                let mut i: usize = 0;
                while i < a.len()
                    invariant
                        i <= a@.len(),
                        a@.len() == b@.len(),
                        *self == JsonValue::Array(*a),
                        *other == JsonValue::Array(*b),
                        json_seq_view(a@).len() == a@.len(),
                        json_seq_view(b@).len() == b@.len(),
                        forall|k: int| 0 <= k < a@.len() ==> #[trigger] json_seq_view(a@)[k] == json_view(a@[k]),
                        forall|k: int| 0 <= k < b@.len() ==> #[trigger] json_seq_view(b@)[k] == json_view(b@[k]),
                        forall|k: int| 0 <= k < i ==> json_seq_view(a@)[k] == json_seq_view(b@)[k],
                    decreases a@.len() - i,
                {
                    proof {
                        vstd::std_specs::vec::axiom_vec_index_decreases(*a, i as int);
                        assert(decreases_to!(*self => self->Array_0));
                    }
                    if !a[i].same(&b[i]) {
                        assert(json_seq_view(a@)[i as int] != json_seq_view(b@)[i as int]);
                        return false;
                    }
                    i = i + 1;
                }
                assert(json_seq_view(a@) =~= json_seq_view(b@));
                true
            },
            (JsonValue::Object(a), JsonValue::Object(b)) => {
                proof {
                    lemma_json_fields_view(a@);
                    lemma_json_fields_view(b@);
                }
                if a.len() != b.len() {
                    return false;
                }
                let mut i: usize = 0;
                while i < a.len()
                    invariant
                        i <= a@.len(),
                        a@.len() == b@.len(),
                        *self == JsonValue::Object(*a),
                        *other == JsonValue::Object(*b),
                        json_fields_view(a@).len() == a@.len(),
                        json_fields_view(b@).len() == b@.len(),
                        forall|k: int| 0 <= k < a@.len() ==> #[trigger] json_fields_view(a@)[k] == (a@[k].0@, json_view(a@[k].1)),
                        forall|k: int| 0 <= k < b@.len() ==> #[trigger] json_fields_view(b@)[k] == (b@[k].0@, json_view(b@[k].1)),
                        forall|k: int| 0 <= k < i ==> json_fields_view(a@)[k] == json_fields_view(b@)[k],
                    decreases a@.len() - i,
                {
                    proof {
                        vstd::std_specs::vec::axiom_vec_index_decreases(*a, i as int);
                        assert(decreases_to!(*self => self->Object_0));
                        assert(decreases_to!(a@[i as int] => a@[i as int].1));
                    }
                    let ka = string_chars(&a[i].0);
                    let kb = string_chars(&b[i].0);
                    if !eq_chars(&ka, &kb) || !a[i].1.same(&b[i].1) {
                        assert(json_fields_view(a@)[i as int] != json_fields_view(b@)[i as int]);
                        return false;
                    }
                    i = i + 1;
                }
                assert(json_fields_view(a@) =~= json_fields_view(b@));
                true
            },
            _ => false,
        }
    }

    /// A copy with the same content.
    pub fn duplicate(&self) -> (r: JsonValue)
        ensures
            r@ == self@,
        decreases *self, 0nat,
    {
        match self {
            JsonValue::Null => JsonValue::Null,
            JsonValue::Bool(b) => JsonValue::Bool(*b),
            JsonValue::Int(i) => JsonValue::Int(*i),
            JsonValue::Number(s) => JsonValue::Number(s.clone()),
            JsonValue::Text(s) => JsonValue::Text(s.clone()),
            JsonValue::Array(items) => {
                let mut out: Vec<JsonValue> = Vec::new();
                let mut i: usize = 0;
                while i < items.len()
                    invariant
                        i <= items@.len(),
                        *self == JsonValue::Array(*items),
                        json_seq_view(out@) == json_seq_view(items@.take(i as int)),
                    decreases items@.len() - i,
                {
                    proof {
                        vstd::std_specs::vec::axiom_vec_index_decreases(*items, i as int);
                        assert(decreases_to!(*self => self->Array_0));
                    }
                    let x = items[i].duplicate();
                    let ghost before = out@;
                    out.push(x);
                    assert(out@.drop_last() =~= before);
                    assert(items@.take(i + 1).drop_last() =~= items@.take(i as int));
                    i = i + 1;
                }
                assert(items@.take(items@.len() as int) =~= items@);
                JsonValue::Array(out)
            },
            JsonValue::Object(fields) => {
                let mut out: Vec<(String, JsonValue)> = Vec::new();
                let mut i: usize = 0;
                while i < fields.len()
                    invariant
                        i <= fields@.len(),
                        *self == JsonValue::Object(*fields),
                        json_fields_view(out@) == json_fields_view(fields@.take(i as int)),
                    decreases fields@.len() - i,
                {
                    proof {
                        vstd::std_specs::vec::axiom_vec_index_decreases(*fields, i as int);
                        assert(decreases_to!(*self => self->Object_0));
                        assert(decreases_to!(fields@[i as int] => fields@[i as int].1));
                    }
                    let k = fields[i].0.clone();
                    let x = fields[i].1.duplicate();
                    let ghost before = out@;
                    out.push((k, x));
                    assert(out@.drop_last() =~= before);
                    assert(fields@.take(i + 1).drop_last() =~= fields@.take(i as int));
                    i = i + 1;
                }
                assert(fields@.take(fields@.len() as int) =~= fields@);
                JsonValue::Object(out)
            },
        }
    }
}

/// The content of a node.
pub struct NodeV {
    pub id: Seq<char>,
    pub stable_key: Seq<char>,
    pub node_type: Seq<char>,
    pub attributes: Seq<(Seq<char>, JsonV)>,
}

/// A typed graph node with JSON attributes, in key order.
#[derive(Debug)]
pub struct Node {
    pub id: String,
    pub stable_key: String,
    pub node_type: String,
    pub attributes: Vec<(String, JsonValue)>,
}

impl View for Node {
    type V = NodeV;

    open spec fn view(&self) -> NodeV {
        NodeV {
            id: self.id@,
            stable_key: self.stable_key@,
            node_type: self.node_type@,
            attributes: json_fields_view(self.attributes@),
        }
    }
}

/// A copy of attribute pairs.
pub fn duplicate_attributes(a: &Vec<(String, JsonValue)>) -> (r: Vec<(String, JsonValue)>)
    ensures
        json_fields_view(r@) == json_fields_view(a@),
{
    let mut out: Vec<(String, JsonValue)> = Vec::new();
    let mut i: usize = 0;
    while i < a.len()
        invariant
            i <= a@.len(),
            json_fields_view(out@) == json_fields_view(a@.take(i as int)),
        decreases a@.len() - i,
    {
        let k = a[i].0.clone();
        let x = a[i].1.duplicate();
        let ghost before = out@;
        out.push((k, x));
        assert(out@.drop_last() =~= before);
        assert(a@.take(i + 1).drop_last() =~= a@.take(i as int));
        i = i + 1;
    }
    assert(a@.take(a@.len() as int) =~= a@);
    out
}

impl Node {
    /// A copy with the same content.
    pub fn duplicate(&self) -> (r: Node)
        ensures
            r@ == self@,
    {
        Node {
            id: self.id.clone(),
            stable_key: self.stable_key.clone(),
            node_type: self.node_type.clone(),
            attributes: duplicate_attributes(&self.attributes),
        }
    }
}

impl Node {
    /// Whether two nodes have the same content.
    pub fn same(&self, other: &Node) -> (r: bool)
        ensures
            r == (self@ == other@),
    {
        eq_chars(&string_chars(&self.id), &string_chars(&other.id)) && eq_chars(
            &string_chars(&self.stable_key),
            &string_chars(&other.stable_key),
        ) && eq_chars(&string_chars(&self.node_type), &string_chars(&other.node_type))
            && same_fields(&self.attributes, &other.attributes)
    }
}

impl Keyed for Node {
    open spec fn view_key(v: NodeV) -> Seq<char> {
        v.id
    }

    fn key(&self) -> (r: &String) {
        &self.id
    }
}

/// The content of an edge.
pub struct EdgeV {
    pub id: Seq<char>,
    pub stable_key: Seq<char>,
    pub edge_type: Seq<char>,
    pub from: Seq<char>,
    pub to: Seq<char>,
    pub attributes: Seq<(Seq<char>, JsonV)>,
}

/// A typed edge between two node ids.
#[derive(Debug)]
pub struct Edge {
    pub id: String,
    pub stable_key: String,
    pub edge_type: String,
    pub from: String,
    pub to: String,
    pub attributes: Vec<(String, JsonValue)>,
}

impl View for Edge {
    type V = EdgeV;

    open spec fn view(&self) -> EdgeV {
        EdgeV {
            id: self.id@,
            stable_key: self.stable_key@,
            edge_type: self.edge_type@,
            from: self.from@,
            to: self.to@,
            attributes: json_fields_view(self.attributes@),
        }
    }
}

impl Edge {
    /// A copy with the same content.
    pub fn duplicate(&self) -> (r: Edge)
        ensures
            r@ == self@,
    {
        Edge {
            id: self.id.clone(),
            stable_key: self.stable_key.clone(),
            edge_type: self.edge_type.clone(),
            from: self.from.clone(),
            to: self.to.clone(),
            attributes: duplicate_attributes(&self.attributes),
        }
    }
}

impl Edge {
    /// Whether two edges have the same content.
    pub fn same(&self, other: &Edge) -> (r: bool)
        ensures
            r == (self@ == other@),
    {
        eq_chars(&string_chars(&self.id), &string_chars(&other.id)) && eq_chars(
            &string_chars(&self.stable_key),
            &string_chars(&other.stable_key),
        ) && eq_chars(&string_chars(&self.edge_type), &string_chars(&other.edge_type)) && eq_chars(
            &string_chars(&self.from),
            &string_chars(&other.from),
        ) && eq_chars(&string_chars(&self.to), &string_chars(&other.to)) && same_fields(
            &self.attributes,
            &other.attributes,
        )
    }
}

impl Keyed for Edge {
    open spec fn view_key(v: EdgeV) -> Seq<char> {
        v.id
    }

    fn key(&self) -> (r: &String) {
        &self.id
    }
}

/// Nodes and edges to create, update and delete.
#[derive(Debug)]
pub struct GraphDelta {
    pub create_nodes: Vec<Node>,
    pub update_nodes: Vec<Node>,
    pub delete_nodes: Vec<String>,
    pub create_edges: Vec<Edge>,
    pub update_edges: Vec<Edge>,
    pub delete_edges: Vec<String>,
}

impl GraphDelta {
    /// The delta that changes nothing.
    pub fn empty() -> (d: GraphDelta)
        ensures
            d.create_nodes@.len() == 0,
            d.update_nodes@.len() == 0,
            d.delete_nodes@.len() == 0,
            d.create_edges@.len() == 0,
            d.update_edges@.len() == 0,
            d.delete_edges@.len() == 0,
    {
        GraphDelta {
            create_nodes: Vec::new(),
            update_nodes: Vec::new(),
            delete_nodes: Vec::new(),
            create_edges: Vec::new(),
            update_edges: Vec::new(),
            delete_edges: Vec::new(),
        }
    }
}

impl Default for GraphDelta {
    fn default() -> (d: GraphDelta)
        ensures
            d.create_nodes@.len() == 0,
            d.update_nodes@.len() == 0,
            d.delete_nodes@.len() == 0,
            d.create_edges@.len() == 0,
            d.update_edges@.len() == 0,
            d.delete_edges@.len() == 0,
    {
        GraphDelta::empty()
    }
}

/// `m` with each key of `ids` removed, in order.
pub open spec fn remove_keys<V>(m: Map<Seq<char>, V>, ids: Seq<Seq<char>>) -> Map<Seq<char>, V>
    decreases ids.len(),
{
    if ids.len() == 0 {
        m
    } else {
        remove_keys(m, ids.drop_last()).remove(ids.last())
    }
}

/// `m` with each element of `s` inserted under its key, in order: a later
/// element replaces an earlier one with the same key.
pub open spec fn insert_keyed<T: Keyed>(m: Map<Seq<char>, T::V>, s: Seq<T::V>) -> Map<Seq<char>, T::V>
    decreases s.len(),
{
    if s.len() == 0 {
        m
    } else {
        insert_keyed::<T>(m, s.drop_last()).insert(T::view_key(s.last()), s.last())
    }
}

/// The nodes after a delta: deletions first, then creations, then updates.
pub open spec fn delta_nodes(m: Map<Seq<char>, NodeV>, d: GraphDelta) -> Map<Seq<char>, NodeV> {
    insert_keyed::<Node>(
        insert_keyed::<Node>(remove_keys(m, strings_view(d.delete_nodes@)), views(d.create_nodes@)),
        views(d.update_nodes@),
    )
}

/// The edges after a delta: deletions first, then creations, then updates.
pub open spec fn delta_edges(m: Map<Seq<char>, EdgeV>, d: GraphDelta) -> Map<Seq<char>, EdgeV> {
    insert_keyed::<Edge>(
        insert_keyed::<Edge>(remove_keys(m, strings_view(d.delete_edges@)), views(d.create_edges@)),
        views(d.update_edges@),
    )
}

/// A graph: its nodes and edges, each kept in the order of their ids.
#[derive(Debug)]
pub struct Graph {
    nodes: Vec<Node>,
    edges: Vec<Edge>,
}

impl Graph {
    #[verifier::type_invariant]
    spec fn wf(self) -> bool {
        &&& keyed_sorted::<Node>(views(self.nodes@))
        &&& keyed_sorted::<Edge>(views(self.edges@))
    }

    /// The nodes, by id.
    pub closed spec fn node_map(&self) -> Map<Seq<char>, NodeV> {
        keyed_map::<Node>(views(self.nodes@))
    }

    /// The edges, by id.
    pub closed spec fn edge_map(&self) -> Map<Seq<char>, EdgeV> {
        keyed_map::<Edge>(views(self.edges@))
    }

    /// The nodes in id order.
    pub closed spec fn node_seq(&self) -> Seq<NodeV> {
        views(self.nodes@)
    }

    /// The edges in id order.
    pub closed spec fn edge_seq(&self) -> Seq<EdgeV> {
        views(self.edges@)
    }

    /// The maps are what the id-ordered sequences hold.
    pub proof fn lemma_maps_of_seqs(&self)
        ensures
            self.node_map() == keyed_map::<Node>(self.node_seq()),
            self.edge_map() == keyed_map::<Edge>(self.edge_seq()),
    {
    }

    /// The graph with no nodes and no edges.
    pub fn new() -> (g: Graph)
        ensures
            g.node_map() == Map::<Seq<char>, NodeV>::empty(),
            g.edge_map() == Map::<Seq<char>, EdgeV>::empty(),
            g.node_seq().len() == 0,
            g.edge_seq().len() == 0,
    {
        let g = Graph { nodes: Vec::new(), edges: Vec::new() };
        assert(g.node_map() =~= Map::<Seq<char>, NodeV>::empty());
        assert(g.edge_map() =~= Map::<Seq<char>, EdgeV>::empty());
        g
    }

    /// The nodes in id order.
    pub fn nodes(&self) -> (r: &Vec<Node>)
        ensures
            views(r@) == self.node_seq(),
            keyed_sorted::<Node>(views(r@)),
            self.node_map() == keyed_map::<Node>(views(r@)),
    {
        proof {
            use_type_invariant(self);
        }
        &self.nodes
    }

    /// The edges in id order.
    pub fn edges(&self) -> (r: &Vec<Edge>)
        ensures
            views(r@) == self.edge_seq(),
            keyed_sorted::<Edge>(views(r@)),
            self.edge_map() == keyed_map::<Edge>(views(r@)),
    {
        proof {
            use_type_invariant(self);
        }
        &self.edges
    }

    /// The node with this id.
    pub fn node(&self, id: &str) -> (r: Option<&Node>)
        ensures
            match r {
                Some(n) => self.node_map().contains_key(id@) && self.node_map()[id@] == n@ && n.id@ == id@,
                None => !self.node_map().contains_key(id@),
            },
    {
        proof {
            use_type_invariant(self);
        }
        keyed_get(&self.nodes, id)
    }

    /// The edge with this id.
    pub fn edge(&self, id: &str) -> (r: Option<&Edge>)
        ensures
            match r {
                Some(e) => self.edge_map().contains_key(id@) && self.edge_map()[id@] == e@ && e.id@ == id@,
                None => !self.edge_map().contains_key(id@),
            },
    {
        proof {
            use_type_invariant(self);
        }
        keyed_get(&self.edges, id)
    }

    /// Applies a delta: deleted nodes and edges go first, then created ones
    /// are inserted, then updated ones; an insert replaces what had its id.
    pub fn apply_delta(&mut self, delta: &GraphDelta)
        ensures
            final(self).node_map() == delta_nodes(old(self).node_map(), *delta),
            final(self).edge_map() == delta_edges(old(self).edge_map(), *delta),
    {
        proof {
            use_type_invariant(&*self);
        }
        let mut nodes = Vec::new();
        let mut edges = Vec::new();
        std::mem::swap(&mut nodes, &mut self.nodes);
        std::mem::swap(&mut edges, &mut self.edges);
        let ghost m0 = keyed_map::<Node>(views(nodes@));
        let ghost e0 = keyed_map::<Edge>(views(edges@));
        let ghost dn = strings_view(delta.delete_nodes@);
        let mut i: usize = 0;
        while i < delta.delete_nodes.len()
            invariant
                i <= dn.len(),
                dn == strings_view(delta.delete_nodes@),
                keyed_sorted::<Node>(views(nodes@)),
                keyed_map::<Node>(views(nodes@)) == remove_keys(m0, dn.take(i as int)),
            decreases dn.len() - i,
        {
            keyed_remove(&mut nodes, delta.delete_nodes[i].as_str());
            assert(dn.take(i + 1).drop_last() =~= dn.take(i as int));
            i = i + 1;
        }
        assert(dn.take(dn.len() as int) =~= dn);
        let ghost de = strings_view(delta.delete_edges@);
        let mut i: usize = 0;
        while i < delta.delete_edges.len()
            invariant
                i <= de.len(),
                de == strings_view(delta.delete_edges@),
                keyed_sorted::<Edge>(views(edges@)),
                keyed_map::<Edge>(views(edges@)) == remove_keys(e0, de.take(i as int)),
            decreases de.len() - i,
        {
            keyed_remove(&mut edges, delta.delete_edges[i].as_str());
            assert(de.take(i + 1).drop_last() =~= de.take(i as int));
            i = i + 1;
        }
        assert(de.take(de.len() as int) =~= de);
        upsert_nodes(&mut nodes, &delta.create_nodes);
        upsert_nodes(&mut nodes, &delta.update_nodes);
        upsert_edges(&mut edges, &delta.create_edges);
        upsert_edges(&mut edges, &delta.update_edges);
        self.nodes = nodes;
        self.edges = edges;
    }
}

/// Inserts copies of `add`, in order, into a sorted node list.
pub fn upsert_nodes(nodes: &mut Vec<Node>, add: &Vec<Node>)
    requires
        keyed_sorted::<Node>(views(old(nodes)@)),
    ensures
        keyed_sorted::<Node>(views(final(nodes)@)),
        keyed_map::<Node>(views(final(nodes)@)) == insert_keyed::<Node>(
            keyed_map::<Node>(views(old(nodes)@)),
            views(add@),
        ),
{
    let ghost m0 = keyed_map::<Node>(views(nodes@));
    let ghost s = views(add@);
    let mut i: usize = 0;
    while i < add.len()
        invariant
            i <= s.len(),
            s == views(add@),
            keyed_sorted::<Node>(views(nodes@)),
            keyed_map::<Node>(views(nodes@)) == insert_keyed::<Node>(m0, s.take(i as int)),
        decreases s.len() - i,
    {
        let n = add[i].duplicate();
        keyed_upsert(nodes, n);
        assert(s.take(i + 1).drop_last() =~= s.take(i as int));
        i = i + 1;
    }
    assert(s.take(s.len() as int) =~= s);
}

/// Inserts copies of `add`, in order, into a sorted edge list.
pub fn upsert_edges(edges: &mut Vec<Edge>, add: &Vec<Edge>)
    requires
        keyed_sorted::<Edge>(views(old(edges)@)),
    ensures
        keyed_sorted::<Edge>(views(final(edges)@)),
        keyed_map::<Edge>(views(final(edges)@)) == insert_keyed::<Edge>(
            keyed_map::<Edge>(views(old(edges)@)),
            views(add@),
        ),
{
    let ghost m0 = keyed_map::<Edge>(views(edges@));
    let ghost s = views(add@);
    let mut i: usize = 0;
    while i < add.len()
        invariant
            i <= s.len(),
            s == views(add@),
            keyed_sorted::<Edge>(views(edges@)),
            keyed_map::<Edge>(views(edges@)) == insert_keyed::<Edge>(m0, s.take(i as int)),
        decreases s.len() - i,
    {
        let e = add[i].duplicate();
        keyed_upsert(edges, e);
        assert(s.take(i + 1).drop_last() =~= s.take(i as int));
        i = i + 1;
    }
    assert(s.take(s.len() as int) =~= s);
}

pub proof fn lemma_remove_keys<V>(m: Map<Seq<char>, V>, ids: Seq<Seq<char>>, k: Seq<char>)
    ensures
        remove_keys(m, ids).contains_key(k) == (m.contains_key(k) && !ids.contains(k)),
        remove_keys(m, ids).contains_key(k) ==> remove_keys(m, ids)[k] == m[k],
    decreases ids.len(),
{
    if ids.len() > 0 {
        lemma_remove_keys(m, ids.drop_last(), k);
        if ids.contains(k) && ids.last() != k {
            let i = choose|i: int| 0 <= i < ids.len() && ids[i] == k;
            assert(ids.drop_last()[i] == k);
        }
        if ids.drop_last().contains(k) {
            let i = choose|i: int| 0 <= i < ids.drop_last().len() && ids.drop_last()[i] == k;
            assert(ids[i] == k);
        }
        assert(ids[ids.len() - 1] == ids.last());
    }
}

proof fn lemma_insert_keyed_absent<T: Keyed>(m: Map<Seq<char>, T::V>, s: Seq<T::V>, k: Seq<char>)
    requires
        !has_key::<T>(s, k),
    ensures
        insert_keyed::<T>(m, s).contains_key(k) == m.contains_key(k),
        m.contains_key(k) ==> insert_keyed::<T>(m, s)[k] == m[k],
    decreases s.len(),
{
    if s.len() > 0 {
        assert(T::view_key(s[s.len() - 1]) != k);
        assert forall|i: int| 0 <= i < s.drop_last().len() implies T::view_key(#[trigger] s.drop_last()[i]) != k by {
            assert(s.drop_last()[i] == s[i]);
        }
        lemma_insert_keyed_absent::<T>(m, s.drop_last(), k);
    }
}

pub proof fn lemma_insert_keyed_last<T: Keyed>(m: Map<Seq<char>, T::V>, s: Seq<T::V>, i: int)
    requires
        0 <= i < s.len(),
        forall|j: int| i < j < s.len() ==> T::view_key(#[trigger] s[j]) != T::view_key(s[i]),
    ensures
        insert_keyed::<T>(m, s).contains_key(T::view_key(s[i])),
        insert_keyed::<T>(m, s)[T::view_key(s[i])] == s[i],
    decreases s.len(),
{
    if i < s.len() - 1 {
        assert(T::view_key(s[s.len() - 1]) != T::view_key(s[i]));
        assert(s.drop_last()[i] == s[i]);
        assert forall|j: int| i < j < s.drop_last().len() implies T::view_key(#[trigger] s.drop_last()[j])
            != T::view_key(s.drop_last()[i]) by {
            assert(s.drop_last()[j] == s[j]);
        }
        lemma_insert_keyed_last::<T>(m, s.drop_last(), i);
    }
}

/// Applying a delta that changes nothing leaves the nodes and edges as they were.
pub proof fn empty_delta_changes_nothing(
    nodes: Map<Seq<char>, NodeV>,
    edges: Map<Seq<char>, EdgeV>,
    d: GraphDelta,
)
    requires
        d.create_nodes@.len() == 0,
        d.update_nodes@.len() == 0,
        d.delete_nodes@.len() == 0,
        d.create_edges@.len() == 0,
        d.update_edges@.len() == 0,
        d.delete_edges@.len() == 0,
    ensures
        delta_nodes(nodes, d) == nodes,
        delta_edges(edges, d) == edges,
{
    assert(strings_view(d.delete_nodes@).len() == 0);
    assert(strings_view(d.delete_edges@).len() == 0);
    assert(views(d.create_nodes@).len() == 0);
    assert(views(d.update_nodes@).len() == 0);
    assert(views(d.create_edges@).len() == 0);
    assert(views(d.update_edges@).len() == 0);
}

/// A node that a delta updates is, after the delta, the last update with its id.
pub proof fn delta_update_wins(nodes: Map<Seq<char>, NodeV>, d: GraphDelta, i: int)
    requires
        0 <= i < d.update_nodes@.len(),
        forall|j: int| i < j < d.update_nodes@.len() ==> (#[trigger] d.update_nodes@[j]).id@ != d.update_nodes@[i].id@,
    ensures
        delta_nodes(nodes, d).contains_key(d.update_nodes@[i].id@),
        delta_nodes(nodes, d)[d.update_nodes@[i].id@] == d.update_nodes@[i]@,
{
    let s = views(d.update_nodes@);
    assert forall|j: int| i < j < s.len() implies Node::view_key(#[trigger] s[j]) != Node::view_key(s[i]) by {
        assert(s[j] == d.update_nodes@[j]@);
    }
    lemma_insert_keyed_last::<Node>(
        insert_keyed::<Node>(remove_keys(nodes, strings_view(d.delete_nodes@)), views(d.create_nodes@)),
        s,
        i,
    );
}

/// A node that a delta creates and does not update is, after the delta, the
/// last creation with its id, whatever the delta deletes.
pub proof fn delta_create_lands(nodes: Map<Seq<char>, NodeV>, d: GraphDelta, i: int)
    requires
        0 <= i < d.create_nodes@.len(),
        forall|j: int| i < j < d.create_nodes@.len() ==> (#[trigger] d.create_nodes@[j]).id@ != d.create_nodes@[i].id@,
        forall|j: int| 0 <= j < d.update_nodes@.len() ==> (#[trigger] d.update_nodes@[j]).id@ != d.create_nodes@[i].id@,
    ensures
        delta_nodes(nodes, d).contains_key(d.create_nodes@[i].id@),
        delta_nodes(nodes, d)[d.create_nodes@[i].id@] == d.create_nodes@[i]@,
{
    let s = views(d.create_nodes@);
    let u = views(d.update_nodes@);
    let k = d.create_nodes@[i].id@;
    assert forall|j: int| i < j < s.len() implies Node::view_key(#[trigger] s[j]) != Node::view_key(s[i]) by {
        assert(s[j] == d.create_nodes@[j]@);
    }
    let base = remove_keys(nodes, strings_view(d.delete_nodes@));
    lemma_insert_keyed_last::<Node>(base, s, i);
    assert forall|j: int| 0 <= j < u.len() implies Node::view_key(#[trigger] u[j]) != k by {
        assert(u[j] == d.update_nodes@[j]@);
    }
    lemma_insert_keyed_absent::<Node>(insert_keyed::<Node>(base, s), u, k);
}

/// A node id that a delta deletes and neither creates nor updates is gone
/// afterwards; an id that the delta does not mention keeps its node.
pub proof fn delta_deletes_and_keeps(nodes: Map<Seq<char>, NodeV>, d: GraphDelta, k: Seq<char>)
    requires
        forall|j: int| 0 <= j < d.create_nodes@.len() ==> (#[trigger] d.create_nodes@[j]).id@ != k,
        forall|j: int| 0 <= j < d.update_nodes@.len() ==> (#[trigger] d.update_nodes@[j]).id@ != k,
    ensures
        strings_view(d.delete_nodes@).contains(k) ==> !delta_nodes(nodes, d).contains_key(k),
        !strings_view(d.delete_nodes@).contains(k) ==> (delta_nodes(nodes, d).contains_key(k)
            == nodes.contains_key(k)),
        !strings_view(d.delete_nodes@).contains(k) && nodes.contains_key(k) ==> delta_nodes(nodes, d)[k]
            == nodes[k],
{
    let s = views(d.create_nodes@);
    let u = views(d.update_nodes@);
    let base = remove_keys(nodes, strings_view(d.delete_nodes@));
    assert forall|j: int| 0 <= j < s.len() implies Node::view_key(#[trigger] s[j]) != k by {
        assert(s[j] == d.create_nodes@[j]@);
    }
    assert forall|j: int| 0 <= j < u.len() implies Node::view_key(#[trigger] u[j]) != k by {
        assert(u[j] == d.update_nodes@[j]@);
    }
    lemma_remove_keys(nodes, strings_view(d.delete_nodes@), k);
    lemma_insert_keyed_absent::<Node>(base, s, k);
    lemma_insert_keyed_absent::<Node>(insert_keyed::<Node>(base, s), u, k);
}

/// A text attribute.
pub fn text_attr(key: &str, value: &str) -> (r: (String, JsonValue))
    ensures
        r.0@ == key@,
        json_view(r.1) == JsonV::Text(value@),
{
    (String::from_str(key), JsonValue::Text(String::from_str(value)))
}

/// The JSON form of an optional text: `null` or the text.
pub open spec fn opt_text(o: Option<Seq<char>>) -> JsonV {
    match o {
        Some(t) => JsonV::Text(t),
        None => JsonV::Null,
    }
}

pub open spec fn opt_string_view(o: Option<String>) -> Option<Seq<char>> {
    match o {
        Some(s) => Some(s@),
        None => None,
    }
}

/// An optional text attribute: `null` when absent.
pub fn opt_text_attr(key: &str, value: &Option<String>) -> (r: (String, JsonValue))
    ensures
        r.0@ == key@,
        json_view(r.1) == opt_text(opt_string_view(*value)),
{
    let v = match value {
        Some(t) => JsonValue::Text(t.clone()),
        None => JsonValue::Null,
    };
    (String::from_str(key), v)
}

/// A node with the given parts.
pub fn make_node(id: String, stable_key: String, node_type: &str, attributes: Vec<(String, JsonValue)>) -> (n: Node)
    ensures
        n@ == (NodeV {
            id: id@,
            stable_key: stable_key@,
            node_type: node_type@,
            attributes: json_fields_view(attributes@),
        }),
{
    Node { id, stable_key, node_type: String::from_str(node_type), attributes }
}

/// The views of two attribute pairs pushed in order.
pub proof fn lemma_fields_push(a: Seq<(String, JsonValue)>, x: (String, JsonValue))
    ensures
        json_fields_view(a.push(x)) == json_fields_view(a).push((x.0@, json_view(x.1))),
{
    assert(a.push(x).drop_last() =~= a);
}

/// A finding's code, severity, message and related node and edge ids.
pub open spec fn finding_full(f: Finding) -> (Seq<char>, FindingSeverity, Seq<char>, Seq<Seq<char>>, Seq<Seq<char>>) {
    (f.code@, f.severity, f.message@, strings_view(f.related_nodes@), strings_view(f.related_edges@))
}

pub open spec fn findings_full(fs: Seq<Finding>) -> Seq<(Seq<char>, FindingSeverity, Seq<char>, Seq<Seq<char>>, Seq<Seq<char>>)> {
    fs.map_values(|f: Finding| finding_full(f))
}

/// Pushes an error finding with related nodes and edges.
pub fn push_related_finding(
    findings: &mut Vec<Finding>,
    code: &str,
    message: String,
    related_nodes: Vec<String>,
    related_edges: Vec<String>,
)
    ensures
        findings_full(final(findings)@) == findings_full(old(findings)@).push(
            (code@, FindingSeverity::Error, message@, strings_view(related_nodes@), strings_view(related_edges@)),
        ),
{
    let ghost prev = findings@;
    let ghost item = (code@, FindingSeverity::Error, message@, strings_view(related_nodes@), strings_view(related_edges@));
    findings.push(
        Finding {
            code: String::from_str(code),
            severity: FindingSeverity::Error,
            message,
            related_nodes,
            related_edges,
        },
    );
    assert(findings_full(findings@) =~= findings_full(prev).push(item));
}

/// The value stored under `key`: the first pair with that key.
pub open spec fn attr_lookup(fields: Seq<(Seq<char>, JsonV)>, key: Seq<char>) -> Option<JsonV>
    decreases fields.len(),
{
    if fields.len() == 0 {
        None
    } else if fields[0].0 == key {
        Some(fields[0].1)
    } else {
        attr_lookup(fields.drop_first(), key)
    }
}

/// The text stored under `key`, when what is stored there is a text.
pub open spec fn attr_text(fields: Seq<(Seq<char>, JsonV)>, key: Seq<char>) -> Option<Seq<char>> {
    match attr_lookup(fields, key) {
        Some(JsonV::Text(t)) => Some(t),
        _ => None,
    }
}

/// The text attribute `key` of an attribute list.
pub fn fields_text(fields: &Vec<(String, JsonValue)>, key: &str) -> (r: Option<String>)
    ensures
        opt_string_view(r) == attr_text(json_fields_view(fields@), key@),
{
    let ghost v = json_fields_view(fields@);
    proof {
        lemma_json_fields_view(fields@);
    }
    let k = chars_of(key);
    let mut i: usize = 0;
    assert(v.skip(0) =~= v);
    while i < fields.len()
        invariant
            i <= fields@.len(),
            v == json_fields_view(fields@),
            v.len() == fields@.len(),
            k@ == key@,
            forall|j: int| 0 <= j < fields@.len() ==> #[trigger] v[j] == (fields@[j].0@, json_view(fields@[j].1)),
            attr_lookup(v, key@) == attr_lookup(v.skip(i as int), key@),
        decreases fields@.len() - i,
    {
        assert(v.skip(i as int)[0] == v[i as int]);
        assert(v.skip(i as int).drop_first() =~= v.skip(i + 1));
        if eq_chars(&string_chars(&fields[i].0), &k) {
            return match &fields[i].1 {
                JsonValue::Text(t) => Some(t.clone()),
                _ => None,
            };
        }
        i = i + 1;
    }
    None
}

/// The texts among JSON values, in order; other values are skipped.
pub open spec fn json_texts(items: Seq<JsonV>) -> Seq<Seq<char>>
    decreases items.len(),
{
    if items.len() == 0 {
        Seq::empty()
    } else {
        match items.last() {
            JsonV::Text(t) => json_texts(items.drop_last()).push(t),
            _ => json_texts(items.drop_last()),
        }
    }
}

/// The texts of the array stored under `key`; `None` where no array is.
pub open spec fn attr_texts(fields: Seq<(Seq<char>, JsonV)>, key: Seq<char>) -> Option<Seq<Seq<char>>> {
    match attr_lookup(fields, key) {
        Some(JsonV::Array(items)) => Some(json_texts(items)),
        _ => None,
    }
}

fn texts_in(items: &Vec<JsonValue>) -> (r: Vec<String>)
    ensures
        strings_view(r@) == json_texts(json_seq_view(items@)),
{
    let ghost iv = json_seq_view(items@);
    proof {
        lemma_json_seq_view(items@);
    }
    let mut out: Vec<String> = Vec::new();
    let mut i: usize = 0;
    assert(strings_view(out@) =~= json_texts(iv.take(0)));
    while i < items.len()
        invariant
            i <= items@.len(),
            iv == json_seq_view(items@),
            iv.len() == items@.len(),
            forall|j: int| 0 <= j < items@.len() ==> #[trigger] iv[j] == json_view(items@[j]),
            strings_view(out@) == json_texts(iv.take(i as int)),
        decreases items@.len() - i,
    {
        assert(iv.take(i + 1).drop_last() =~= iv.take(i as int));
        assert(iv.take(i + 1).last() == json_view(items@[i as int]));
        match &items[i] {
            JsonValue::Text(t) => {
                let ghost o = strings_view(out@);
                out.push(t.clone());
                assert(strings_view(out@) =~= o.push(t@));
            },
            _ => {},
        }
        i = i + 1;
    }
    assert(iv.take(iv.len() as int) =~= iv);
    out
}

/// The texts of the array attribute `key`; `None` where it holds no array.
pub fn fields_texts(fields: &Vec<(String, JsonValue)>, key: &str) -> (r: Option<Vec<String>>)
    ensures
        match r {
            Some(v) => attr_texts(json_fields_view(fields@), key@) == Some(strings_view(v@)),
            None => attr_texts(json_fields_view(fields@), key@) is None,
        },
{
    let ghost v = json_fields_view(fields@);
    proof {
        lemma_json_fields_view(fields@);
    }
    let k = chars_of(key);
    let mut i: usize = 0;
    assert(v.skip(0) =~= v);
    while i < fields.len()
        invariant
            i <= fields@.len(),
            v == json_fields_view(fields@),
            v.len() == fields@.len(),
            k@ == key@,
            forall|j: int| 0 <= j < fields@.len() ==> #[trigger] v[j] == (fields@[j].0@, json_view(fields@[j].1)),
            attr_lookup(v, key@) == attr_lookup(v.skip(i as int), key@),
        decreases fields@.len() - i,
    {
        assert(v.skip(i as int)[0] == v[i as int]);
        assert(v.skip(i as int).drop_first() =~= v.skip(i + 1));
        if eq_chars(&string_chars(&fields[i].0), &k) {
            return match &fields[i].1 {
                JsonValue::Array(items) => Some(texts_in(items)),
                _ => None,
            };
        }
        i = i + 1;
    }
    None
}

/// The flag stored under `key`: false where nothing, or no flag, is stored.
pub open spec fn attr_bool(fields: Seq<(Seq<char>, JsonV)>, key: Seq<char>) -> bool {
    match attr_lookup(fields, key) {
        Some(JsonV::Bool(b)) => b,
        _ => false,
    }
}

/// The flag attribute `key` of an attribute list, false where it is absent
/// or holds something else.
pub fn fields_bool(fields: &Vec<(String, JsonValue)>, key: &str) -> (r: bool)
    ensures
        r == attr_bool(json_fields_view(fields@), key@),
{
    let ghost v = json_fields_view(fields@);
    proof {
        lemma_json_fields_view(fields@);
    }
    let k = chars_of(key);
    let mut i: usize = 0;
    assert(v.skip(0) =~= v);
    while i < fields.len()
        invariant
            i <= fields@.len(),
            v == json_fields_view(fields@),
            v.len() == fields@.len(),
            k@ == key@,
            forall|j: int| 0 <= j < fields@.len() ==> #[trigger] v[j] == (fields@[j].0@, json_view(fields@[j].1)),
            attr_lookup(v, key@) == attr_lookup(v.skip(i as int), key@),
        decreases fields@.len() - i,
    {
        assert(v.skip(i as int)[0] == v[i as int]);
        assert(v.skip(i as int).drop_first() =~= v.skip(i + 1));
        if eq_chars(&string_chars(&fields[i].0), &k) {
            return match &fields[i].1 {
                JsonValue::Bool(b) => *b,
                _ => false,
            };
        }
        i = i + 1;
    }
    false
}

/// `fields` with `key` set to `v`, as an ordered map does it: the value of
/// an existing `key` is replaced, else the pair goes before the first larger
/// key.
pub open spec fn attr_set(fields: Seq<(Seq<char>, JsonV)>, key: Seq<char>, v: JsonV) -> Seq<(Seq<char>, JsonV)>
    decreases fields.len(),
{
    if fields.len() == 0 {
        seq![(key, v)]
    } else if fields[0].0 == key {
        seq![(key, v)] + fields.drop_first()
    } else if seq_lt(key, fields[0].0) {
        seq![(key, v)] + fields
    } else {
        seq![fields[0]] + attr_set(fields.drop_first(), key, v)
    }
}

/// Sets an attribute as an ordered map does.
pub fn set_attribute(attrs: &mut Vec<(String, JsonValue)>, key: &str, value: JsonValue)
    ensures
        json_fields_view(final(attrs)@) == attr_set(json_fields_view(old(attrs)@), key@, value@),
{
    let ghost a0 = json_fields_view(attrs@);
    proof {
        lemma_json_fields_view(attrs@);
    }
    let k = chars_of(key);
    let mut i: usize = 0;
    assert(a0.skip(0) =~= a0);
    assert(a0.take(0) =~= Seq::<(Seq<char>, JsonV)>::empty());
    while i < attrs.len()
        invariant_except_break
            attr_set(a0, key@, value@) == a0.take(i as int) + attr_set(a0.skip(i as int), key@, value@),
        invariant
            i <= attrs@.len(),
            a0 == json_fields_view(attrs@),
            a0.len() == attrs@.len(),
            k@ == key@,
            forall|j: int| 0 <= j < attrs@.len() ==> #[trigger] a0[j] == (attrs@[j].0@, json_view(attrs@[j].1)),
        ensures
            i <= attrs@.len(),
            attr_set(a0, key@, value@) == a0.take(i as int) + attr_set(a0.skip(i as int), key@, value@),
            i < attrs@.len() ==> (a0[i as int].0 == key@ || seq_lt(key@, a0[i as int].0)),
        decreases attrs@.len() - i,
    {
        let ki = string_chars(&attrs[i].0);
        if eq_chars(&ki, &k) || lt_chars(&k, &ki) {
            break;
        }
        assert(a0.skip(i as int)[0] == a0[i as int]);
        assert(a0.skip(i as int).drop_first() =~= a0.skip(i + 1));
        assert(a0.take(i + 1) =~= a0.take(i as int) + seq![a0[i as int]]);
        i = i + 1;
    }
    assert(a0.skip(i as int).len() > 0 ==> a0.skip(i as int)[0] == a0[i as int]);
    if i < attrs.len() && eq_chars(&string_chars(&attrs[i].0), &k) {
        let ghost before = attrs@;
        attrs.set(i, (String::from_str(key), value));
        proof {
            lemma_json_fields_view(attrs@);
            assert(a0.skip(i as int).drop_first() =~= a0.skip(i + 1));
            assert(json_fields_view(attrs@) =~= a0.take(i as int) + (seq![(key@, value@)] + a0.skip(i + 1)));
        }
    } else {
        attrs.insert(i, (String::from_str(key), value));
        proof {
            lemma_json_fields_view(attrs@);
            assert(json_fields_view(attrs@) =~= a0.take(i as int) + (seq![(key@, value@)] + a0.skip(i as int)));
        }
    }
}

/// Texts as JSON texts.
pub open spec fn texts(s: Seq<Seq<char>>) -> Seq<JsonV> {
    s.map_values(|t: Seq<char>| JsonV::Text(t))
}

pub proof fn lemma_json_seq_push(a: Seq<JsonValue>, x: JsonValue)
    ensures
        json_seq_view(a.push(x)) == json_seq_view(a).push(json_view(x)),
{
    assert(a.push(x).drop_last() =~= a);
}

/// A JSON array of the texts.
pub fn text_array(v: &Vec<String>) -> (r: JsonValue)
    ensures
        json_view(r) == JsonV::Array(texts(strings_view(v@))),
{
    let ghost sv = strings_view(v@);
    let mut items: Vec<JsonValue> = Vec::new();
    let mut i: usize = 0;
    while i < v.len()
        invariant
            i <= v@.len(),
            sv == strings_view(v@),
            json_seq_view(items@) == texts(sv.take(i as int)),
        decreases v@.len() - i,
    {
        let x = JsonValue::Text(v[i].clone());
        proof {
            lemma_json_seq_push(items@, x);
        }
        items.push(x);
        assert(texts(sv.take(i + 1)) =~= texts(sv.take(i as int)).push(JsonV::Text(sv[i as int])));
        i = i + 1;
    }
    assert(sv.take(sv.len() as int) =~= sv);
    JsonValue::Array(items)
}

/// Every id in the node map holds the node with that id.
pub proof fn lemma_node_map_ids(g: Graph, id: Seq<char>)
    requires
        g.node_map().contains_key(id),
    ensures
        g.node_map()[id].id == id,
{
    crate::keyed::lemma_keyed_map_keys::<Node>(g.node_seq(), id);
}

/// Collects the nodes and edges a projection emits, keeping the first of
/// each id, in id order.
pub struct DeltaBuilder {
    nodes: Vec<Node>,
    edges: Vec<Edge>,
    node_log: Ghost<Seq<NodeV>>,
    edge_log: Ghost<Seq<EdgeV>>,
}

impl DeltaBuilder {
    #[verifier::type_invariant]
    spec fn wf(self) -> bool {
        &&& keyed_sorted::<Node>(views(self.nodes@))
        &&& keyed_sorted::<Edge>(views(self.edges@))
        &&& keyed_map::<Node>(views(self.nodes@)) == first_wins::<Node>(Map::empty(), self.node_log@)
        &&& keyed_map::<Edge>(views(self.edges@)) == first_wins::<Edge>(Map::empty(), self.edge_log@)
    }

    /// Every node emitted so far, in order.
    pub closed spec fn node_log(&self) -> Seq<NodeV> {
        self.node_log@
    }

    /// Every edge emitted so far, in order.
    pub closed spec fn edge_log(&self) -> Seq<EdgeV> {
        self.edge_log@
    }

    pub fn new() -> (b: DeltaBuilder)
        ensures
            b.node_log() == Seq::<NodeV>::empty(),
            b.edge_log() == Seq::<EdgeV>::empty(),
    {
        let nodes: Vec<Node> = Vec::new();
        let edges: Vec<Edge> = Vec::new();
        assert(keyed_map::<Node>(views(nodes@)) =~= first_wins::<Node>(Map::empty(), Seq::empty()));
        assert(keyed_map::<Edge>(views(edges@)) =~= first_wins::<Edge>(Map::empty(), Seq::empty()));
        DeltaBuilder { nodes, edges, node_log: Ghost(Seq::empty()), edge_log: Ghost(Seq::empty()) }
    }

    pub fn add_node(&mut self, n: Node)
        ensures
            final(self).node_log() == old(self).node_log().push(n@),
            final(self).edge_log() == old(self).edge_log(),
    {
        let mut current = DeltaBuilder::new();
        std::mem::swap(&mut current, self);
        proof {
            use_type_invariant(&current);
            lemma_first_wins_push::<Node>(Map::empty(), current.node_log@, n@);
        }
        let DeltaBuilder { nodes, edges, node_log, edge_log } = current;
        let ghost log = node_log@.push(n@);
        let mut nodes = nodes;
        keyed_insert_first(&mut nodes, n);
        *self = DeltaBuilder { nodes, edges, node_log: Ghost(log), edge_log };
    }

    pub fn add_edge(&mut self, e: Edge)
        ensures
            final(self).edge_log() == old(self).edge_log().push(e@),
            final(self).node_log() == old(self).node_log(),
    {
        let mut current = DeltaBuilder::new();
        std::mem::swap(&mut current, self);
        proof {
            use_type_invariant(&current);
            lemma_first_wins_push::<Edge>(Map::empty(), current.edge_log@, e@);
        }
        let DeltaBuilder { nodes, edges, node_log, edge_log } = current;
        let ghost log = edge_log@.push(e@);
        let mut edges = edges;
        keyed_insert_first(&mut edges, e);
        *self = DeltaBuilder { nodes, edges, node_log, edge_log: Ghost(log) };
    }

    /// A delta that creates the collected nodes and edges, in id order, and
    /// does nothing else.
    pub fn finish(self) -> (d: GraphDelta)
        ensures
            keyed_sorted::<Node>(views(d.create_nodes@)),
            keyed_sorted::<Edge>(views(d.create_edges@)),
            keyed_map::<Node>(views(d.create_nodes@)) == first_wins::<Node>(Map::empty(), self.node_log()),
            keyed_map::<Edge>(views(d.create_edges@)) == first_wins::<Edge>(Map::empty(), self.edge_log()),
            d.update_nodes@.len() == 0,
            d.delete_nodes@.len() == 0,
            d.update_edges@.len() == 0,
            d.delete_edges@.len() == 0,
    {
        proof {
            use_type_invariant(&self);
        }
        let DeltaBuilder { nodes, edges, node_log, edge_log } = self;
        GraphDelta {
            create_nodes: nodes,
            update_nodes: Vec::new(),
            delete_nodes: Vec::new(),
            create_edges: edges,
            update_edges: Vec::new(),
            delete_edges: Vec::new(),
        }
    }
}

/// The edge `from -edge_type-> to` that projections emit.
pub open spec fn edge_of(from: Seq<char>, edge_type: Seq<char>, to: Seq<char>) -> EdgeV {
    EdgeV {
        id: "edge"@ + "_"@ + stable_view(from) + "_"@ + stable_view(edge_type) + "_"@ + stable_view(to),
        stable_key: "edge:"@ + from + ":"@ + edge_type + ":"@ + to,
        edge_type: edge_type,
        from: from,
        to: to,
        attributes: Seq::empty(),
    }
}

pub fn make_edge(from: &str, edge_type: &str, to: &str) -> (e: Edge)
    ensures
        e@ == edge_of(from@, edge_type@, to@),
{
    let mut key = chars_of("edge:");
    append(&mut key, &chars_of(from));
    append_str(&mut key, ":");
    append(&mut key, &chars_of(edge_type));
    append_str(&mut key, ":");
    append(&mut key, &chars_of(to));
    let e = Edge {
        id: stable_edge_id(from, edge_type, to),
        stable_key: string_of(&key),
        edge_type: String::from_str(edge_type),
        from: String::from_str(from),
        to: String::from_str(to),
        attributes: Vec::new(),
    };
    assert(json_fields_view(e.attributes@) =~= Seq::empty());
    e
}

/// Pushes a text attribute.
pub fn push_text(attrs: &mut Vec<(String, JsonValue)>, key: &str, value: &str)
    ensures
        json_fields_view(final(attrs)@) == json_fields_view(old(attrs)@).push((key@, JsonV::Text(value@))),
{
    let a = text_attr(key, value);
    proof {
        lemma_fields_push(attrs@, a);
    }
    attrs.push(a);
}

/// Pushes an optional text attribute (`null` when absent).
pub fn push_opt(attrs: &mut Vec<(String, JsonValue)>, key: &str, value: &Option<String>)
    ensures
        json_fields_view(final(attrs)@) == json_fields_view(old(attrs)@).push(
            (key@, opt_text(opt_string_view(*value))),
        ),
{
    let a = opt_text_attr(key, value);
    proof {
        lemma_fields_push(attrs@, a);
    }
    attrs.push(a);
}

/// Pushes any attribute.
pub fn push_attr(attrs: &mut Vec<(String, JsonValue)>, key: &str, value: JsonValue)
    ensures
        json_fields_view(final(attrs)@) == json_fields_view(old(attrs)@).push((key@, json_view(value))),
{
    let a = (String::from_str(key), value);
    proof {
        lemma_fields_push(attrs@, a);
    }
    attrs.push(a);
}

} // verus!
