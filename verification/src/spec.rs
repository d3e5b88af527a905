//! A spec document's facts projected into graph nodes and edges.

use crate::ids::{fragment_view, node_id, push_fragment_part};
use crate::keyed::views;
use crate::model::{
    Edge, EdgeV, GraphDelta, JsonV, JsonValue, Node, NodeV, json_fields_view, make_node, opt_string_view,
    push_text,
};
use crate::text::{append, append_str, chars_of, string_chars, string_of};
use vstd::prelude::*;

verus! {

#[derive(Debug, Clone, PartialEq, Eq)]
pub struct TextItem {
    pub id: String,
    pub text: String,
}

#[derive(Debug, Clone, PartialEq, Eq)]
pub struct SpecProjection {
    pub spec: String,
    pub title: String,
    pub module: Option<String>,
    pub priority: Option<String>,
    pub summary: Option<String>,
    pub requirements: Vec<TextItem>,
    pub acceptance_criteria: Vec<TextItem>,
    pub risks: Vec<TextItem>,
    pub mitigations: Vec<TextItem>,
    pub expected_behaviors: Vec<TextItem>,
    pub forbidden_behaviors: Vec<TextItem>,
    pub use_cases: Vec<TextItem>,
    pub endpoints: Vec<TextItem>,
    pub entities: Vec<TextItem>,
    pub events: Vec<TextItem>,
    pub data_objects: Vec<TextItem>,
    pub tests: Vec<TextItem>,
}

pub open spec fn spec_node_id(kind: Seq<char>, value: Seq<char>) -> Seq<char> {
    "node"@ + "_"@ + fragment_view(kind) + "_"@ + fragment_view(value)
}

/// The edge `from -edge_type-> to` of the spec projection.
pub open spec fn spec_edge(from: Seq<char>, edge_type: Seq<char>, to: Seq<char>) -> EdgeV {
    EdgeV {
        id: "edge"@ + "_"@ + fragment_view(from) + "_"@ + fragment_view(edge_type) + "_"@ + fragment_view(to),
        stable_key: "edge:"@ + from + ":"@ + edge_type + ":"@ + to,
        edge_type: edge_type,
        from: from,
        to: to,
        attributes: Seq::empty(),
    }
}

pub(crate) fn make_spec_edge(from: &str, edge_type: &str, to: &str) -> (e: Edge)
    ensures
        e@ == spec_edge(from@, edge_type@, to@),
{
    let mut id = chars_of("edge");
    push_fragment_part(&mut id, from);
    push_fragment_part(&mut id, edge_type);
    push_fragment_part(&mut id, to);
    let mut key = chars_of("edge:");
    append(&mut key, &chars_of(from));
    append_str(&mut key, ":");
    append(&mut key, &chars_of(edge_type));
    append_str(&mut key, ":");
    append(&mut key, &chars_of(to));
    let e = Edge {
        id: string_of(&id),
        stable_key: string_of(&key),
        edge_type: String::from_str(edge_type),
        from: String::from_str(from),
        to: String::from_str(to),
        attributes: Vec::new(),
    };
    assert(json_fields_view(e.attributes@) =~= Seq::empty());
    e
}

pub open spec fn opt_attr(key: Seq<char>, v: Option<String>) -> Seq<(Seq<char>, JsonV)> {
    match v {
        Some(s) => seq![(key, JsonV::Text(s@))],
        None => Seq::empty(),
    }
}

/// The spec's own node: its id, title, and priority and summary where given.
pub open spec fn spec_nodev(p: SpecProjection) -> NodeV {
    NodeV {
        id: spec_node_id("spec"@, p.spec@),
        stable_key: "spec:"@ + p.spec@,
        node_type: "Spec"@,
        attributes: opt_attr("priority"@, p.priority) + seq![("spec"@, JsonV::Text(p.spec@))] + opt_attr(
            "summary"@,
            p.summary,
        ) + seq![("title"@, JsonV::Text(p.title@))],
    }
}

/// A spec item: a node of `node_type` keyed `family:spec/id`, with its id,
/// text and, for behaviors, its expectation.
pub open spec fn item_nodev(
    family: Seq<char>,
    node_type: Seq<char>,
    spec: Seq<char>,
    item: TextItem,
    expectation: Option<Seq<char>>,
) -> NodeV {
    NodeV {
        id: spec_node_id(family, spec + "/"@ + item.id@),
        stable_key: family + ":"@ + spec + "/"@ + item.id@,
        node_type: node_type,
        attributes: match expectation {
            Some(e) => seq![("expectation"@, JsonV::Text(e))],
            None => Seq::empty(),
        } + seq![("id"@, JsonV::Text(item.id@)), ("text"@, JsonV::Text(item.text@))],
    }
}

pub open spec fn items_nodes(
    family: Seq<char>,
    node_type: Seq<char>,
    spec: Seq<char>,
    items: Seq<TextItem>,
    expectation: Option<Seq<char>>,
) -> Seq<NodeV>
    decreases items.len(),
{
    if items.len() == 0 {
        Seq::empty()
    } else {
        items_nodes(family, node_type, spec, items.drop_last(), expectation).push(
            item_nodev(family, node_type, spec, items.last(), expectation),
        )
    }
}

pub open spec fn items_edges(
    family: Seq<char>,
    edge_type: Seq<char>,
    spec: Seq<char>,
    items: Seq<TextItem>,
) -> Seq<EdgeV>
    decreases items.len(),
{
    if items.len() == 0 {
        Seq::empty()
    } else {
        items_edges(family, edge_type, spec, items.drop_last()).push(
            spec_edge(spec_node_id("spec"@, spec), edge_type, spec_node_id(family, spec + "/"@ + items.last().id@)),
        )
    }
}

fn add_items(
    nodes: &mut Vec<Node>,
    edges: &mut Vec<Edge>,
    spec_id: &str,
    spec: &str,
    node_type: &str,
    family: &str,
    edge_type: &str,
    items: &Vec<TextItem>,
    expectation: Option<&str>,
)
    requires
        spec_id@ == spec_node_id("spec"@, spec@),
    ensures
        views(final(nodes)@) == views(old(nodes)@) + items_nodes(family@, node_type@, spec@, items@, match expectation {
            Some(e) => Some(e@),
            None => None,
        }),
        views(final(edges)@) == views(old(edges)@) + items_edges(family@, edge_type@, spec@, items@),
{
    let ghost exp = match expectation {
        Some(e) => Some(e@),
        None => None::<Seq<char>>,
    };
    let ghost n0 = views(nodes@);
    let ghost e0 = views(edges@);
    let mut i: usize = 0;
    while i < items.len()
        invariant
            i <= items@.len(),
            spec_id@ == spec_node_id("spec"@, spec@),
            exp == match expectation {
                Some(e) => Some(e@),
                None => None::<Seq<char>>,
            },
            views(nodes@) == n0 + items_nodes(family@, node_type@, spec@, items@.take(i as int), exp),
            views(edges@) == e0 + items_edges(family@, edge_type@, spec@, items@.take(i as int)),
        decreases items@.len() - i,
    {
        let item = &items[i];
        let mut value = chars_of(spec);
        append_str(&mut value, "/");
        append(&mut value, &string_chars(&item.id));
        let value_s = string_of(&value);
        let item_id = node_id(family, value_s.as_str());
        let mut attrs: Vec<(String, JsonValue)> = Vec::new();
        assert(json_fields_view(attrs@) =~= Seq::empty());
        if let Some(e) = expectation {
            push_text(&mut attrs, "expectation", e);
        }
        push_text(&mut attrs, "id", item.id.as_str());
        push_text(&mut attrs, "text", item.text.as_str());
        let mut key = chars_of(family);
        append_str(&mut key, ":");
        append(&mut key, &value);
        assert(json_fields_view(attrs@) =~= item_nodev(family@, node_type@, spec@, *item, exp).attributes);
        assert(key@ =~= family@ + ":"@ + spec@ + "/"@ + item.id@);
        let n = make_node(item_id, string_of(&key), node_type, attrs);
        assert(n@ == item_nodev(family@, node_type@, spec@, *item, exp));
        let ghost bn = views(nodes@);
        nodes.push(n);
        assert(views(nodes@) =~= bn.push(item_nodev(family@, node_type@, spec@, *item, exp)));
        let target = node_id(family, value_s.as_str());
        let ghost be = views(edges@);
        edges.push(make_spec_edge(spec_id, edge_type, target.as_str()));
        assert(views(edges@) =~= be.push(
            spec_edge(spec_node_id("spec"@, spec@), edge_type@, spec_node_id(family@, spec@ + "/"@ + item.id@)),
        ));
        assert(items@.take(i + 1).drop_last() =~= items@.take(i as int));
        i = i + 1;
    }
    assert(items@.take(items@.len() as int) =~= items@);
}

pub open spec fn module_nodes(p: SpecProjection) -> Seq<NodeV> {
    match p.module {
        Some(m) => seq![
            NodeV {
                id: spec_node_id("module"@, m@),
                stable_key: "module:"@ + m@,
                node_type: "Module"@,
                attributes: seq![("name"@, JsonV::Text(m@))],
            },
        ],
        None => Seq::empty(),
    }
}

pub open spec fn module_edges(p: SpecProjection) -> Seq<EdgeV> {
    match p.module {
        Some(m) => seq![
            spec_edge("node_project"@, "HAS_MODULE"@, spec_node_id("module"@, m@)),
            spec_edge(spec_node_id("spec"@, p.spec@), "TOUCHES_MODULE"@, spec_node_id("module"@, m@)),
        ],
        None => Seq::empty(),
    }
}

/// Every node of the projection, in order: the spec, its module, then its
/// requirements, acceptance criteria, risks, mitigations, expected and
/// forbidden behaviors, use cases, endpoints, entities, events, data objects
/// and tests.
pub open spec fn spec_nodes(p: SpecProjection) -> Seq<NodeV> {
    let s = p.spec@;
    seq![spec_nodev(p)] + module_nodes(p)
        + items_nodes("requirement"@, "Requirement"@, s, p.requirements@, None)
        + items_nodes("acceptance-criterion"@, "AcceptanceCriterion"@, s, p.acceptance_criteria@, None)
        + items_nodes("risk"@, "Risk"@, s, p.risks@, None)
        + items_nodes("mitigation"@, "Mitigation"@, s, p.mitigations@, None)
        + items_nodes("behavior"@, "Behavior"@, s, p.expected_behaviors@, Some("expected"@))
        + items_nodes("behavior"@, "Behavior"@, s, p.forbidden_behaviors@, Some("forbidden"@))
        + items_nodes("use-case"@, "UseCase"@, s, p.use_cases@, None)
        + items_nodes("endpoint"@, "Endpoint"@, s, p.endpoints@, None)
        + items_nodes("domain-entity"@, "DomainEntity"@, s, p.entities@, None)
        + items_nodes("domain-event"@, "DomainEvent"@, s, p.events@, None)
        + items_nodes("data-object"@, "DataObject"@, s, p.data_objects@, None)
        + items_nodes("test-case"@, "TestCase"@, s, p.tests@, None)
}

/// Every edge of the projection, in the same order.
pub open spec fn spec_edges(p: SpecProjection) -> Seq<EdgeV> {
    let s = p.spec@;
    module_edges(p)
        + items_edges("requirement"@, "HAS_REQUIREMENT"@, s, p.requirements@)
        + items_edges("acceptance-criterion"@, "HAS_ACCEPTANCE_CRITERION"@, s, p.acceptance_criteria@)
        + items_edges("risk"@, "HAS_RISK"@, s, p.risks@)
        + items_edges("mitigation"@, "HAS_MITIGATION"@, s, p.mitigations@)
        + items_edges("behavior"@, "HAS_BEHAVIOR"@, s, p.expected_behaviors@)
        + items_edges("behavior"@, "HAS_BEHAVIOR"@, s, p.forbidden_behaviors@)
        + items_edges("use-case"@, "HAS_USE_CASE"@, s, p.use_cases@)
        + items_edges("endpoint"@, "HAS_ENDPOINT"@, s, p.endpoints@)
        + items_edges("domain-entity"@, "HAS_ENTITY"@, s, p.entities@)
        + items_edges("domain-event"@, "HAS_EVENT"@, s, p.events@)
        + items_edges("data-object"@, "HAS_DATA_OBJECT"@, s, p.data_objects@)
        + items_edges("test-case"@, "HAS_TEST_CASE"@, s, p.tests@)
}

proof fn lemma_items_at(
    family: Seq<char>,
    node_type: Seq<char>,
    edge_type: Seq<char>,
    spec: Seq<char>,
    items: Seq<TextItem>,
    expectation: Option<Seq<char>>,
)
    ensures
        items_nodes(family, node_type, spec, items, expectation).len() == items.len(),
        items_edges(family, edge_type, spec, items).len() == items.len(),
        forall|i: int|
            0 <= i < items.len() ==> #[trigger] items_nodes(family, node_type, spec, items, expectation)[i]
                == item_nodev(family, node_type, spec, items[i], expectation),
        forall|i: int|
            0 <= i < items.len() ==> #[trigger] items_edges(family, edge_type, spec, items)[i] == spec_edge(
                spec_node_id("spec"@, spec),
                edge_type,
                spec_node_id(family, spec + "/"@ + items[i].id@),
            ),
    decreases items.len(),
{
    if items.len() > 0 {
        lemma_items_at(family, node_type, edge_type, spec, items.drop_last(), expectation);
        assert forall|i: int| 0 <= i < items.len() implies #[trigger] items_nodes(
            family,
            node_type,
            spec,
            items,
            expectation,
        )[i] == item_nodev(family, node_type, spec, items[i], expectation) by {
            if i < items.len() - 1 {
                assert(items[i] == items.drop_last()[i]);
            }
        }
        assert forall|i: int| 0 <= i < items.len() implies #[trigger] items_edges(family, edge_type, spec, items)[i]
            == spec_edge(spec_node_id("spec"@, spec), edge_type, spec_node_id(family, spec + "/"@ + items[i].id@)) by {
            if i < items.len() - 1 {
                assert(items[i] == items.drop_last()[i]);
            }
        }
    }
}

/// A spec's delta starts with its Spec node, keyed `spec:<id>`; it creates a
/// Requirement node and a `HAS_REQUIREMENT` edge from the spec for each
/// requirement, and an AcceptanceCriterion node and a
/// `HAS_ACCEPTANCE_CRITERION` edge for each acceptance criterion.
pub proof fn spec_delta_shape(p: SpecProjection)
    ensures
        spec_nodes(p)[0].id == spec_node_id("spec"@, p.spec@),
        spec_nodes(p)[0].stable_key == "spec:"@ + p.spec@,
        spec_nodes(p)[0].node_type == "Spec"@,
        forall|i: int|
            0 <= i < p.requirements@.len() ==> spec_nodes(p).contains(
                item_nodev("requirement"@, "Requirement"@, p.spec@, #[trigger] p.requirements@[i], None),
            ) && spec_edges(p).contains(
                spec_edge(
                    spec_node_id("spec"@, p.spec@),
                    "HAS_REQUIREMENT"@,
                    spec_node_id("requirement"@, p.spec@ + "/"@ + p.requirements@[i].id@),
                ),
            ),
        forall|i: int|
            0 <= i < p.acceptance_criteria@.len() ==> spec_nodes(p).contains(
                item_nodev(
                    "acceptance-criterion"@,
                    "AcceptanceCriterion"@,
                    p.spec@,
                    #[trigger] p.acceptance_criteria@[i],
                    None,
                ),
            ) && spec_edges(p).contains(
                spec_edge(
                    spec_node_id("spec"@, p.spec@),
                    "HAS_ACCEPTANCE_CRITERION"@,
                    spec_node_id("acceptance-criterion"@, p.spec@ + "/"@ + p.acceptance_criteria@[i].id@),
                ),
            ),
{
    let s = p.spec@;
    let reqs = p.requirements@;
    let acs = p.acceptance_criteria@;
    lemma_items_at("requirement"@, "Requirement"@, "HAS_REQUIREMENT"@, s, reqs, None);
    lemma_items_at(
        "acceptance-criterion"@,
        "AcceptanceCriterion"@,
        "HAS_ACCEPTANCE_CRITERION"@,
        s,
        acs,
        None,
    );
    let head = seq![spec_nodev(p)] + module_nodes(p);
    let rn = items_nodes("requirement"@, "Requirement"@, s, reqs, None);
    let an = items_nodes("acceptance-criterion"@, "AcceptanceCriterion"@, s, acs, None);
    let re = items_edges("requirement"@, "HAS_REQUIREMENT"@, s, reqs);
    let ae = items_edges("acceptance-criterion"@, "HAS_ACCEPTANCE_CRITERION"@, s, acs);
    let ns = spec_nodes(p);
    let es = spec_edges(p);
    assert(ns[0] == spec_nodev(p));
    assert forall|i: int| 0 <= i < reqs.len() implies ns.contains(
        item_nodev("requirement"@, "Requirement"@, s, #[trigger] reqs[i], None),
    ) && es.contains(
        spec_edge(spec_node_id("spec"@, s), "HAS_REQUIREMENT"@, spec_node_id("requirement"@, s + "/"@ + reqs[i].id@)),
    ) by {
        assert(ns[head.len() + i] == rn[i]);
        assert(es[module_edges(p).len() + i] == re[i]);
    }
    assert forall|i: int| 0 <= i < acs.len() implies ns.contains(
        item_nodev("acceptance-criterion"@, "AcceptanceCriterion"@, s, #[trigger] acs[i], None),
    ) && es.contains(
        spec_edge(
            spec_node_id("spec"@, s),
            "HAS_ACCEPTANCE_CRITERION"@,
            spec_node_id("acceptance-criterion"@, s + "/"@ + acs[i].id@),
        ),
    ) by {
        assert(ns[head.len() + rn.len() + i] == an[i]);
        assert(es[module_edges(p).len() + re.len() + i] == ae[i]);
    }
}

/// How many nodes of `ns` have type `t`.
pub open spec fn type_count(ns: Seq<NodeV>, t: Seq<char>) -> nat
    decreases ns.len(),
{
    if ns.len() == 0 {
        0
    } else {
        type_count(ns.drop_last(), t) + if ns.last().node_type == t {
            1nat
        } else {
            0nat
        }
    }
}

/// How many edges of `es` have type `t`.
pub open spec fn edge_type_count(es: Seq<EdgeV>, t: Seq<char>) -> nat
    decreases es.len(),
{
    if es.len() == 0 {
        0
    } else {
        edge_type_count(es.drop_last(), t) + if es.last().edge_type == t {
            1nat
        } else {
            0nat
        }
    }
}

proof fn lemma_type_count_add(a: Seq<NodeV>, b: Seq<NodeV>, t: Seq<char>)
    ensures
        type_count(a + b, t) == type_count(a, t) + type_count(b, t),
    decreases b.len(),
{
    if b.len() > 0 {
        lemma_type_count_add(a, b.drop_last(), t);
        assert((a + b).drop_last() =~= a + b.drop_last());
    } else {
        assert(a + b =~= a);
    }
}

proof fn lemma_edge_count_add(a: Seq<EdgeV>, b: Seq<EdgeV>, t: Seq<char>)
    ensures
        edge_type_count(a + b, t) == edge_type_count(a, t) + edge_type_count(b, t),
    decreases b.len(),
{
    if b.len() > 0 {
        lemma_edge_count_add(a, b.drop_last(), t);
        assert((a + b).drop_last() =~= a + b.drop_last());
    } else {
        assert(a + b =~= a);
    }
}

proof fn lemma_items_type_count(
    family: Seq<char>,
    node_type: Seq<char>,
    spec: Seq<char>,
    items: Seq<TextItem>,
    expectation: Option<Seq<char>>,
    t: Seq<char>,
)
    ensures
        type_count(items_nodes(family, node_type, spec, items, expectation), t) == (if node_type == t {
            items.len()
        } else {
            0
        }),
    decreases items.len(),
{
    if items.len() > 0 {
        lemma_items_type_count(family, node_type, spec, items.drop_last(), expectation, t);
        let all = items_nodes(family, node_type, spec, items, expectation);
        assert(all.drop_last() =~= items_nodes(family, node_type, spec, items.drop_last(), expectation));
    }
}

proof fn lemma_items_edge_count(family: Seq<char>, edge_type: Seq<char>, spec: Seq<char>, items: Seq<TextItem>, t: Seq<char>)
    ensures
        edge_type_count(items_edges(family, edge_type, spec, items), t) == (if edge_type == t {
            items.len()
        } else {
            0
        }),
    decreases items.len(),
{
    if items.len() > 0 {
        lemma_items_edge_count(family, edge_type, spec, items.drop_last(), t);
        let all = items_edges(family, edge_type, spec, items);
        assert(all.drop_last() =~= items_edges(family, edge_type, spec, items.drop_last()));
    }
}

proof fn lemma_spec_type_names()
    ensures
        "Spec"@ != "Requirement"@,
        "Module"@ != "Requirement"@,
        "AcceptanceCriterion"@ != "Requirement"@,
        "Risk"@ != "Requirement"@,
        "Mitigation"@ != "Requirement"@,
        "Behavior"@ != "Requirement"@,
        "UseCase"@ != "Requirement"@,
        "Endpoint"@ != "Requirement"@,
        "DomainEntity"@ != "Requirement"@,
        "DomainEvent"@ != "Requirement"@,
        "DataObject"@ != "Requirement"@,
        "TestCase"@ != "Requirement"@,
        "Spec"@ != "AcceptanceCriterion"@,
        "Module"@ != "AcceptanceCriterion"@,
        "Requirement"@ != "AcceptanceCriterion"@,
        "Risk"@ != "AcceptanceCriterion"@,
        "Mitigation"@ != "AcceptanceCriterion"@,
        "Behavior"@ != "AcceptanceCriterion"@,
        "UseCase"@ != "AcceptanceCriterion"@,
        "Endpoint"@ != "AcceptanceCriterion"@,
        "DomainEntity"@ != "AcceptanceCriterion"@,
        "DomainEvent"@ != "AcceptanceCriterion"@,
        "DataObject"@ != "AcceptanceCriterion"@,
        "TestCase"@ != "AcceptanceCriterion"@,
        "HAS_MODULE"@ != "HAS_REQUIREMENT"@,
        "TOUCHES_MODULE"@ != "HAS_REQUIREMENT"@,
        "HAS_ACCEPTANCE_CRITERION"@ != "HAS_REQUIREMENT"@,
        "HAS_RISK"@ != "HAS_REQUIREMENT"@,
        "HAS_MITIGATION"@ != "HAS_REQUIREMENT"@,
        "HAS_BEHAVIOR"@ != "HAS_REQUIREMENT"@,
        "HAS_USE_CASE"@ != "HAS_REQUIREMENT"@,
        "HAS_ENDPOINT"@ != "HAS_REQUIREMENT"@,
        "HAS_ENTITY"@ != "HAS_REQUIREMENT"@,
        "HAS_EVENT"@ != "HAS_REQUIREMENT"@,
        "HAS_DATA_OBJECT"@ != "HAS_REQUIREMENT"@,
        "HAS_TEST_CASE"@ != "HAS_REQUIREMENT"@,
        "HAS_MODULE"@ != "HAS_ACCEPTANCE_CRITERION"@,
        "TOUCHES_MODULE"@ != "HAS_ACCEPTANCE_CRITERION"@,
        "HAS_REQUIREMENT"@ != "HAS_ACCEPTANCE_CRITERION"@,
        "HAS_RISK"@ != "HAS_ACCEPTANCE_CRITERION"@,
        "HAS_MITIGATION"@ != "HAS_ACCEPTANCE_CRITERION"@,
        "HAS_BEHAVIOR"@ != "HAS_ACCEPTANCE_CRITERION"@,
        "HAS_USE_CASE"@ != "HAS_ACCEPTANCE_CRITERION"@,
        "HAS_ENDPOINT"@ != "HAS_ACCEPTANCE_CRITERION"@,
        "HAS_ENTITY"@ != "HAS_ACCEPTANCE_CRITERION"@,
        "HAS_EVENT"@ != "HAS_ACCEPTANCE_CRITERION"@,
        "HAS_DATA_OBJECT"@ != "HAS_ACCEPTANCE_CRITERION"@,
        "HAS_TEST_CASE"@ != "HAS_ACCEPTANCE_CRITERION"@,
{
    reveal_strlit("Spec");
    reveal_strlit("Module");
    reveal_strlit("Requirement");
    reveal_strlit("AcceptanceCriterion");
    reveal_strlit("Risk");
    reveal_strlit("Mitigation");
    reveal_strlit("Behavior");
    reveal_strlit("UseCase");
    reveal_strlit("Endpoint");
    reveal_strlit("DomainEntity");
    reveal_strlit("DomainEvent");
    reveal_strlit("DataObject");
    reveal_strlit("TestCase");
    reveal_strlit("HAS_MODULE");
    reveal_strlit("TOUCHES_MODULE");
    reveal_strlit("HAS_REQUIREMENT");
    reveal_strlit("HAS_ACCEPTANCE_CRITERION");
    reveal_strlit("HAS_RISK");
    reveal_strlit("HAS_MITIGATION");
    reveal_strlit("HAS_BEHAVIOR");
    reveal_strlit("HAS_USE_CASE");
    reveal_strlit("HAS_ENDPOINT");
    reveal_strlit("HAS_ENTITY");
    reveal_strlit("HAS_EVENT");
    reveal_strlit("HAS_DATA_OBJECT");
    reveal_strlit("HAS_TEST_CASE");
    assert("Spec"@.len() == 4 && "Spec"@[0] == 'S');
    assert("Module"@.len() == 6 && "Module"@[0] == 'M');
    assert("Requirement"@.len() == 11 && "Requirement"@[0] == 'R');
    assert("AcceptanceCriterion"@.len() == 19 && "AcceptanceCriterion"@[0] == 'A');
    assert("Risk"@.len() == 4 && "Risk"@[0] == 'R');
    assert("Mitigation"@.len() == 10 && "Mitigation"@[0] == 'M');
    assert("Behavior"@.len() == 8 && "Behavior"@[0] == 'B');
    assert("UseCase"@.len() == 7 && "UseCase"@[0] == 'U');
    assert("Endpoint"@.len() == 8 && "Endpoint"@[0] == 'E');
    assert("DomainEntity"@.len() == 12 && "DomainEntity"@[0] == 'D');
    assert("DomainEvent"@.len() == 11 && "DomainEvent"@[0] == 'D');
    assert("DataObject"@.len() == 10 && "DataObject"@[0] == 'D');
    assert("TestCase"@.len() == 8 && "TestCase"@[0] == 'T');
    assert("HAS_MODULE"@.len() == 10 && "HAS_MODULE"@[0] == 'H');
    assert("TOUCHES_MODULE"@.len() == 14 && "TOUCHES_MODULE"@[0] == 'T');
    assert("HAS_REQUIREMENT"@.len() == 15 && "HAS_REQUIREMENT"@[0] == 'H');
    assert("HAS_ACCEPTANCE_CRITERION"@.len() == 24 && "HAS_ACCEPTANCE_CRITERION"@[0] == 'H');
    assert("HAS_RISK"@.len() == 8 && "HAS_RISK"@[0] == 'H');
    assert("HAS_MITIGATION"@.len() == 14 && "HAS_MITIGATION"@[0] == 'H');
    assert("HAS_BEHAVIOR"@.len() == 12 && "HAS_BEHAVIOR"@[0] == 'H');
    assert("HAS_USE_CASE"@.len() == 12 && "HAS_USE_CASE"@[0] == 'H');
    assert("HAS_ENDPOINT"@.len() == 12 && "HAS_ENDPOINT"@[0] == 'H');
    assert("HAS_ENTITY"@.len() == 10 && "HAS_ENTITY"@[0] == 'H');
    assert("HAS_EVENT"@.len() == 9 && "HAS_EVENT"@[0] == 'H');
    assert("HAS_DATA_OBJECT"@.len() == 15 && "HAS_DATA_OBJECT"@[0] == 'H');
    assert("HAS_TEST_CASE"@.len() == 13 && "HAS_TEST_CASE"@[0] == 'H');
    assert("DomainEvent"@[0] != "Requirement"@[0]);
    assert("HAS_DATA_OBJECT"@[4] == 'D' && "HAS_REQUIREMENT"@[4] == 'R');
}

/// A spec's delta holds exactly one Requirement node and one
/// `HAS_REQUIREMENT` edge per requirement, and exactly one
/// AcceptanceCriterion node and one `HAS_ACCEPTANCE_CRITERION` edge per
/// acceptance criterion.
#[verifier::spinoff_prover]
#[verifier::rlimit(60)]
pub proof fn spec_delta_counts(p: SpecProjection)
    ensures
        type_count(spec_nodes(p), "Requirement"@) == p.requirements@.len(),
        type_count(spec_nodes(p), "AcceptanceCriterion"@) == p.acceptance_criteria@.len(),
        edge_type_count(spec_edges(p), "HAS_REQUIREMENT"@) == p.requirements@.len(),
        edge_type_count(spec_edges(p), "HAS_ACCEPTANCE_CRITERION"@) == p.acceptance_criteria@.len(),
{
    let s = p.spec@;
    lemma_spec_type_names();
    assert(type_count(spec_nodes(p), "Requirement"@) == p.requirements@.len()) by {
        let x0 = seq![spec_nodev(p)];
        assert(x0.drop_last() =~= Seq::<NodeV>::empty());
        assert(type_count(x0.drop_last(), "Requirement"@) == 0);
        lemma_type_count_add(x0, module_nodes(p), "Requirement"@);
        if module_nodes(p).len() > 0 { assert(module_nodes(p).drop_last() =~= Seq::<NodeV>::empty()); assert(type_count(module_nodes(p).drop_last(), "Requirement"@) == 0); }
        lemma_items_type_count("requirement"@, "Requirement"@, s, p.requirements@, None, "Requirement"@);
        lemma_type_count_add(x0 + module_nodes(p), items_nodes("requirement"@, "Requirement"@, s, p.requirements@, None), "Requirement"@);
        lemma_items_type_count("acceptance-criterion"@, "AcceptanceCriterion"@, s, p.acceptance_criteria@, None, "Requirement"@);
        lemma_type_count_add((x0 + module_nodes(p) + items_nodes("requirement"@, "Requirement"@, s, p.requirements@, None)), items_nodes("acceptance-criterion"@, "AcceptanceCriterion"@, s, p.acceptance_criteria@, None), "Requirement"@);
        lemma_items_type_count("risk"@, "Risk"@, s, p.risks@, None, "Requirement"@);
        lemma_type_count_add(((x0 + module_nodes(p) + items_nodes("requirement"@, "Requirement"@, s, p.requirements@, None)) + items_nodes("acceptance-criterion"@, "AcceptanceCriterion"@, s, p.acceptance_criteria@, None)), items_nodes("risk"@, "Risk"@, s, p.risks@, None), "Requirement"@);
        lemma_items_type_count("mitigation"@, "Mitigation"@, s, p.mitigations@, None, "Requirement"@);
        lemma_type_count_add((((x0 + module_nodes(p) + items_nodes("requirement"@, "Requirement"@, s, p.requirements@, None)) + items_nodes("acceptance-criterion"@, "AcceptanceCriterion"@, s, p.acceptance_criteria@, None)) + items_nodes("risk"@, "Risk"@, s, p.risks@, None)), items_nodes("mitigation"@, "Mitigation"@, s, p.mitigations@, None), "Requirement"@);
        lemma_items_type_count("behavior"@, "Behavior"@, s, p.expected_behaviors@, Some("expected"@), "Requirement"@);
        lemma_type_count_add(((((x0 + module_nodes(p) + items_nodes("requirement"@, "Requirement"@, s, p.requirements@, None)) + items_nodes("acceptance-criterion"@, "AcceptanceCriterion"@, s, p.acceptance_criteria@, None)) + items_nodes("risk"@, "Risk"@, s, p.risks@, None)) + items_nodes("mitigation"@, "Mitigation"@, s, p.mitigations@, None)), items_nodes("behavior"@, "Behavior"@, s, p.expected_behaviors@, Some("expected"@)), "Requirement"@);
        lemma_items_type_count("behavior"@, "Behavior"@, s, p.forbidden_behaviors@, Some("forbidden"@), "Requirement"@);
        lemma_type_count_add((((((x0 + module_nodes(p) + items_nodes("requirement"@, "Requirement"@, s, p.requirements@, None)) + items_nodes("acceptance-criterion"@, "AcceptanceCriterion"@, s, p.acceptance_criteria@, None)) + items_nodes("risk"@, "Risk"@, s, p.risks@, None)) + items_nodes("mitigation"@, "Mitigation"@, s, p.mitigations@, None)) + items_nodes("behavior"@, "Behavior"@, s, p.expected_behaviors@, Some("expected"@))), items_nodes("behavior"@, "Behavior"@, s, p.forbidden_behaviors@, Some("forbidden"@)), "Requirement"@);
        lemma_items_type_count("use-case"@, "UseCase"@, s, p.use_cases@, None, "Requirement"@);
        lemma_type_count_add(((((((x0 + module_nodes(p) + items_nodes("requirement"@, "Requirement"@, s, p.requirements@, None)) + items_nodes("acceptance-criterion"@, "AcceptanceCriterion"@, s, p.acceptance_criteria@, None)) + items_nodes("risk"@, "Risk"@, s, p.risks@, None)) + items_nodes("mitigation"@, "Mitigation"@, s, p.mitigations@, None)) + items_nodes("behavior"@, "Behavior"@, s, p.expected_behaviors@, Some("expected"@))) + items_nodes("behavior"@, "Behavior"@, s, p.forbidden_behaviors@, Some("forbidden"@))), items_nodes("use-case"@, "UseCase"@, s, p.use_cases@, None), "Requirement"@);
        lemma_items_type_count("endpoint"@, "Endpoint"@, s, p.endpoints@, None, "Requirement"@);
        lemma_type_count_add((((((((x0 + module_nodes(p) + items_nodes("requirement"@, "Requirement"@, s, p.requirements@, None)) + items_nodes("acceptance-criterion"@, "AcceptanceCriterion"@, s, p.acceptance_criteria@, None)) + items_nodes("risk"@, "Risk"@, s, p.risks@, None)) + items_nodes("mitigation"@, "Mitigation"@, s, p.mitigations@, None)) + items_nodes("behavior"@, "Behavior"@, s, p.expected_behaviors@, Some("expected"@))) + items_nodes("behavior"@, "Behavior"@, s, p.forbidden_behaviors@, Some("forbidden"@))) + items_nodes("use-case"@, "UseCase"@, s, p.use_cases@, None)), items_nodes("endpoint"@, "Endpoint"@, s, p.endpoints@, None), "Requirement"@);
        lemma_items_type_count("domain-entity"@, "DomainEntity"@, s, p.entities@, None, "Requirement"@);
        lemma_type_count_add(((((((((x0 + module_nodes(p) + items_nodes("requirement"@, "Requirement"@, s, p.requirements@, None)) + items_nodes("acceptance-criterion"@, "AcceptanceCriterion"@, s, p.acceptance_criteria@, None)) + items_nodes("risk"@, "Risk"@, s, p.risks@, None)) + items_nodes("mitigation"@, "Mitigation"@, s, p.mitigations@, None)) + items_nodes("behavior"@, "Behavior"@, s, p.expected_behaviors@, Some("expected"@))) + items_nodes("behavior"@, "Behavior"@, s, p.forbidden_behaviors@, Some("forbidden"@))) + items_nodes("use-case"@, "UseCase"@, s, p.use_cases@, None)) + items_nodes("endpoint"@, "Endpoint"@, s, p.endpoints@, None)), items_nodes("domain-entity"@, "DomainEntity"@, s, p.entities@, None), "Requirement"@);
        lemma_items_type_count("domain-event"@, "DomainEvent"@, s, p.events@, None, "Requirement"@);
        lemma_type_count_add((((((((((x0 + module_nodes(p) + items_nodes("requirement"@, "Requirement"@, s, p.requirements@, None)) + items_nodes("acceptance-criterion"@, "AcceptanceCriterion"@, s, p.acceptance_criteria@, None)) + items_nodes("risk"@, "Risk"@, s, p.risks@, None)) + items_nodes("mitigation"@, "Mitigation"@, s, p.mitigations@, None)) + items_nodes("behavior"@, "Behavior"@, s, p.expected_behaviors@, Some("expected"@))) + items_nodes("behavior"@, "Behavior"@, s, p.forbidden_behaviors@, Some("forbidden"@))) + items_nodes("use-case"@, "UseCase"@, s, p.use_cases@, None)) + items_nodes("endpoint"@, "Endpoint"@, s, p.endpoints@, None)) + items_nodes("domain-entity"@, "DomainEntity"@, s, p.entities@, None)), items_nodes("domain-event"@, "DomainEvent"@, s, p.events@, None), "Requirement"@);
        lemma_items_type_count("data-object"@, "DataObject"@, s, p.data_objects@, None, "Requirement"@);
        lemma_type_count_add(((((((((((x0 + module_nodes(p) + items_nodes("requirement"@, "Requirement"@, s, p.requirements@, None)) + items_nodes("acceptance-criterion"@, "AcceptanceCriterion"@, s, p.acceptance_criteria@, None)) + items_nodes("risk"@, "Risk"@, s, p.risks@, None)) + items_nodes("mitigation"@, "Mitigation"@, s, p.mitigations@, None)) + items_nodes("behavior"@, "Behavior"@, s, p.expected_behaviors@, Some("expected"@))) + items_nodes("behavior"@, "Behavior"@, s, p.forbidden_behaviors@, Some("forbidden"@))) + items_nodes("use-case"@, "UseCase"@, s, p.use_cases@, None)) + items_nodes("endpoint"@, "Endpoint"@, s, p.endpoints@, None)) + items_nodes("domain-entity"@, "DomainEntity"@, s, p.entities@, None)) + items_nodes("domain-event"@, "DomainEvent"@, s, p.events@, None)), items_nodes("data-object"@, "DataObject"@, s, p.data_objects@, None), "Requirement"@);
        lemma_items_type_count("test-case"@, "TestCase"@, s, p.tests@, None, "Requirement"@);
        lemma_type_count_add((((((((((((x0 + module_nodes(p) + items_nodes("requirement"@, "Requirement"@, s, p.requirements@, None)) + items_nodes("acceptance-criterion"@, "AcceptanceCriterion"@, s, p.acceptance_criteria@, None)) + items_nodes("risk"@, "Risk"@, s, p.risks@, None)) + items_nodes("mitigation"@, "Mitigation"@, s, p.mitigations@, None)) + items_nodes("behavior"@, "Behavior"@, s, p.expected_behaviors@, Some("expected"@))) + items_nodes("behavior"@, "Behavior"@, s, p.forbidden_behaviors@, Some("forbidden"@))) + items_nodes("use-case"@, "UseCase"@, s, p.use_cases@, None)) + items_nodes("endpoint"@, "Endpoint"@, s, p.endpoints@, None)) + items_nodes("domain-entity"@, "DomainEntity"@, s, p.entities@, None)) + items_nodes("domain-event"@, "DomainEvent"@, s, p.events@, None)) + items_nodes("data-object"@, "DataObject"@, s, p.data_objects@, None)), items_nodes("test-case"@, "TestCase"@, s, p.tests@, None), "Requirement"@);
        assert(((((((((((((x0 + module_nodes(p) + items_nodes("requirement"@, "Requirement"@, s, p.requirements@, None)) + items_nodes("acceptance-criterion"@, "AcceptanceCriterion"@, s, p.acceptance_criteria@, None)) + items_nodes("risk"@, "Risk"@, s, p.risks@, None)) + items_nodes("mitigation"@, "Mitigation"@, s, p.mitigations@, None)) + items_nodes("behavior"@, "Behavior"@, s, p.expected_behaviors@, Some("expected"@))) + items_nodes("behavior"@, "Behavior"@, s, p.forbidden_behaviors@, Some("forbidden"@))) + items_nodes("use-case"@, "UseCase"@, s, p.use_cases@, None)) + items_nodes("endpoint"@, "Endpoint"@, s, p.endpoints@, None)) + items_nodes("domain-entity"@, "DomainEntity"@, s, p.entities@, None)) + items_nodes("domain-event"@, "DomainEvent"@, s, p.events@, None)) + items_nodes("data-object"@, "DataObject"@, s, p.data_objects@, None)) + items_nodes("test-case"@, "TestCase"@, s, p.tests@, None)) == spec_nodes(p));
    }
    assert(type_count(spec_nodes(p), "AcceptanceCriterion"@) == p.acceptance_criteria@.len()) by {
        let x0 = seq![spec_nodev(p)];
        assert(x0.drop_last() =~= Seq::<NodeV>::empty());
        assert(type_count(x0.drop_last(), "AcceptanceCriterion"@) == 0);
        lemma_type_count_add(x0, module_nodes(p), "AcceptanceCriterion"@);
        if module_nodes(p).len() > 0 { assert(module_nodes(p).drop_last() =~= Seq::<NodeV>::empty()); assert(type_count(module_nodes(p).drop_last(), "AcceptanceCriterion"@) == 0); }
        lemma_items_type_count("requirement"@, "Requirement"@, s, p.requirements@, None, "AcceptanceCriterion"@);
        lemma_type_count_add(x0 + module_nodes(p), items_nodes("requirement"@, "Requirement"@, s, p.requirements@, None), "AcceptanceCriterion"@);
        lemma_items_type_count("acceptance-criterion"@, "AcceptanceCriterion"@, s, p.acceptance_criteria@, None, "AcceptanceCriterion"@);
        lemma_type_count_add((x0 + module_nodes(p) + items_nodes("requirement"@, "Requirement"@, s, p.requirements@, None)), items_nodes("acceptance-criterion"@, "AcceptanceCriterion"@, s, p.acceptance_criteria@, None), "AcceptanceCriterion"@);
        lemma_items_type_count("risk"@, "Risk"@, s, p.risks@, None, "AcceptanceCriterion"@);
        lemma_type_count_add(((x0 + module_nodes(p) + items_nodes("requirement"@, "Requirement"@, s, p.requirements@, None)) + items_nodes("acceptance-criterion"@, "AcceptanceCriterion"@, s, p.acceptance_criteria@, None)), items_nodes("risk"@, "Risk"@, s, p.risks@, None), "AcceptanceCriterion"@);
        lemma_items_type_count("mitigation"@, "Mitigation"@, s, p.mitigations@, None, "AcceptanceCriterion"@);
        lemma_type_count_add((((x0 + module_nodes(p) + items_nodes("requirement"@, "Requirement"@, s, p.requirements@, None)) + items_nodes("acceptance-criterion"@, "AcceptanceCriterion"@, s, p.acceptance_criteria@, None)) + items_nodes("risk"@, "Risk"@, s, p.risks@, None)), items_nodes("mitigation"@, "Mitigation"@, s, p.mitigations@, None), "AcceptanceCriterion"@);
        lemma_items_type_count("behavior"@, "Behavior"@, s, p.expected_behaviors@, Some("expected"@), "AcceptanceCriterion"@);
        lemma_type_count_add(((((x0 + module_nodes(p) + items_nodes("requirement"@, "Requirement"@, s, p.requirements@, None)) + items_nodes("acceptance-criterion"@, "AcceptanceCriterion"@, s, p.acceptance_criteria@, None)) + items_nodes("risk"@, "Risk"@, s, p.risks@, None)) + items_nodes("mitigation"@, "Mitigation"@, s, p.mitigations@, None)), items_nodes("behavior"@, "Behavior"@, s, p.expected_behaviors@, Some("expected"@)), "AcceptanceCriterion"@);
        lemma_items_type_count("behavior"@, "Behavior"@, s, p.forbidden_behaviors@, Some("forbidden"@), "AcceptanceCriterion"@);
        lemma_type_count_add((((((x0 + module_nodes(p) + items_nodes("requirement"@, "Requirement"@, s, p.requirements@, None)) + items_nodes("acceptance-criterion"@, "AcceptanceCriterion"@, s, p.acceptance_criteria@, None)) + items_nodes("risk"@, "Risk"@, s, p.risks@, None)) + items_nodes("mitigation"@, "Mitigation"@, s, p.mitigations@, None)) + items_nodes("behavior"@, "Behavior"@, s, p.expected_behaviors@, Some("expected"@))), items_nodes("behavior"@, "Behavior"@, s, p.forbidden_behaviors@, Some("forbidden"@)), "AcceptanceCriterion"@);
        lemma_items_type_count("use-case"@, "UseCase"@, s, p.use_cases@, None, "AcceptanceCriterion"@);
        lemma_type_count_add(((((((x0 + module_nodes(p) + items_nodes("requirement"@, "Requirement"@, s, p.requirements@, None)) + items_nodes("acceptance-criterion"@, "AcceptanceCriterion"@, s, p.acceptance_criteria@, None)) + items_nodes("risk"@, "Risk"@, s, p.risks@, None)) + items_nodes("mitigation"@, "Mitigation"@, s, p.mitigations@, None)) + items_nodes("behavior"@, "Behavior"@, s, p.expected_behaviors@, Some("expected"@))) + items_nodes("behavior"@, "Behavior"@, s, p.forbidden_behaviors@, Some("forbidden"@))), items_nodes("use-case"@, "UseCase"@, s, p.use_cases@, None), "AcceptanceCriterion"@);
        lemma_items_type_count("endpoint"@, "Endpoint"@, s, p.endpoints@, None, "AcceptanceCriterion"@);
        lemma_type_count_add((((((((x0 + module_nodes(p) + items_nodes("requirement"@, "Requirement"@, s, p.requirements@, None)) + items_nodes("acceptance-criterion"@, "AcceptanceCriterion"@, s, p.acceptance_criteria@, None)) + items_nodes("risk"@, "Risk"@, s, p.risks@, None)) + items_nodes("mitigation"@, "Mitigation"@, s, p.mitigations@, None)) + items_nodes("behavior"@, "Behavior"@, s, p.expected_behaviors@, Some("expected"@))) + items_nodes("behavior"@, "Behavior"@, s, p.forbidden_behaviors@, Some("forbidden"@))) + items_nodes("use-case"@, "UseCase"@, s, p.use_cases@, None)), items_nodes("endpoint"@, "Endpoint"@, s, p.endpoints@, None), "AcceptanceCriterion"@);
        lemma_items_type_count("domain-entity"@, "DomainEntity"@, s, p.entities@, None, "AcceptanceCriterion"@);
        lemma_type_count_add(((((((((x0 + module_nodes(p) + items_nodes("requirement"@, "Requirement"@, s, p.requirements@, None)) + items_nodes("acceptance-criterion"@, "AcceptanceCriterion"@, s, p.acceptance_criteria@, None)) + items_nodes("risk"@, "Risk"@, s, p.risks@, None)) + items_nodes("mitigation"@, "Mitigation"@, s, p.mitigations@, None)) + items_nodes("behavior"@, "Behavior"@, s, p.expected_behaviors@, Some("expected"@))) + items_nodes("behavior"@, "Behavior"@, s, p.forbidden_behaviors@, Some("forbidden"@))) + items_nodes("use-case"@, "UseCase"@, s, p.use_cases@, None)) + items_nodes("endpoint"@, "Endpoint"@, s, p.endpoints@, None)), items_nodes("domain-entity"@, "DomainEntity"@, s, p.entities@, None), "AcceptanceCriterion"@);
        lemma_items_type_count("domain-event"@, "DomainEvent"@, s, p.events@, None, "AcceptanceCriterion"@);
        lemma_type_count_add((((((((((x0 + module_nodes(p) + items_nodes("requirement"@, "Requirement"@, s, p.requirements@, None)) + items_nodes("acceptance-criterion"@, "AcceptanceCriterion"@, s, p.acceptance_criteria@, None)) + items_nodes("risk"@, "Risk"@, s, p.risks@, None)) + items_nodes("mitigation"@, "Mitigation"@, s, p.mitigations@, None)) + items_nodes("behavior"@, "Behavior"@, s, p.expected_behaviors@, Some("expected"@))) + items_nodes("behavior"@, "Behavior"@, s, p.forbidden_behaviors@, Some("forbidden"@))) + items_nodes("use-case"@, "UseCase"@, s, p.use_cases@, None)) + items_nodes("endpoint"@, "Endpoint"@, s, p.endpoints@, None)) + items_nodes("domain-entity"@, "DomainEntity"@, s, p.entities@, None)), items_nodes("domain-event"@, "DomainEvent"@, s, p.events@, None), "AcceptanceCriterion"@);
        lemma_items_type_count("data-object"@, "DataObject"@, s, p.data_objects@, None, "AcceptanceCriterion"@);
        lemma_type_count_add(((((((((((x0 + module_nodes(p) + items_nodes("requirement"@, "Requirement"@, s, p.requirements@, None)) + items_nodes("acceptance-criterion"@, "AcceptanceCriterion"@, s, p.acceptance_criteria@, None)) + items_nodes("risk"@, "Risk"@, s, p.risks@, None)) + items_nodes("mitigation"@, "Mitigation"@, s, p.mitigations@, None)) + items_nodes("behavior"@, "Behavior"@, s, p.expected_behaviors@, Some("expected"@))) + items_nodes("behavior"@, "Behavior"@, s, p.forbidden_behaviors@, Some("forbidden"@))) + items_nodes("use-case"@, "UseCase"@, s, p.use_cases@, None)) + items_nodes("endpoint"@, "Endpoint"@, s, p.endpoints@, None)) + items_nodes("domain-entity"@, "DomainEntity"@, s, p.entities@, None)) + items_nodes("domain-event"@, "DomainEvent"@, s, p.events@, None)), items_nodes("data-object"@, "DataObject"@, s, p.data_objects@, None), "AcceptanceCriterion"@);
        lemma_items_type_count("test-case"@, "TestCase"@, s, p.tests@, None, "AcceptanceCriterion"@);
        lemma_type_count_add((((((((((((x0 + module_nodes(p) + items_nodes("requirement"@, "Requirement"@, s, p.requirements@, None)) + items_nodes("acceptance-criterion"@, "AcceptanceCriterion"@, s, p.acceptance_criteria@, None)) + items_nodes("risk"@, "Risk"@, s, p.risks@, None)) + items_nodes("mitigation"@, "Mitigation"@, s, p.mitigations@, None)) + items_nodes("behavior"@, "Behavior"@, s, p.expected_behaviors@, Some("expected"@))) + items_nodes("behavior"@, "Behavior"@, s, p.forbidden_behaviors@, Some("forbidden"@))) + items_nodes("use-case"@, "UseCase"@, s, p.use_cases@, None)) + items_nodes("endpoint"@, "Endpoint"@, s, p.endpoints@, None)) + items_nodes("domain-entity"@, "DomainEntity"@, s, p.entities@, None)) + items_nodes("domain-event"@, "DomainEvent"@, s, p.events@, None)) + items_nodes("data-object"@, "DataObject"@, s, p.data_objects@, None)), items_nodes("test-case"@, "TestCase"@, s, p.tests@, None), "AcceptanceCriterion"@);
        assert(((((((((((((x0 + module_nodes(p) + items_nodes("requirement"@, "Requirement"@, s, p.requirements@, None)) + items_nodes("acceptance-criterion"@, "AcceptanceCriterion"@, s, p.acceptance_criteria@, None)) + items_nodes("risk"@, "Risk"@, s, p.risks@, None)) + items_nodes("mitigation"@, "Mitigation"@, s, p.mitigations@, None)) + items_nodes("behavior"@, "Behavior"@, s, p.expected_behaviors@, Some("expected"@))) + items_nodes("behavior"@, "Behavior"@, s, p.forbidden_behaviors@, Some("forbidden"@))) + items_nodes("use-case"@, "UseCase"@, s, p.use_cases@, None)) + items_nodes("endpoint"@, "Endpoint"@, s, p.endpoints@, None)) + items_nodes("domain-entity"@, "DomainEntity"@, s, p.entities@, None)) + items_nodes("domain-event"@, "DomainEvent"@, s, p.events@, None)) + items_nodes("data-object"@, "DataObject"@, s, p.data_objects@, None)) + items_nodes("test-case"@, "TestCase"@, s, p.tests@, None)) == spec_nodes(p));
    }
    assert(edge_type_count(spec_edges(p), "HAS_REQUIREMENT"@) == p.requirements@.len()) by {
        let m = module_edges(p);
        if m.len() > 0 { assert(m.drop_last().drop_last() =~= Seq::<EdgeV>::empty()); assert(edge_type_count(m.drop_last().drop_last(), "HAS_REQUIREMENT"@) == 0); assert(edge_type_count(m.drop_last(), "HAS_REQUIREMENT"@) == 0); }
        lemma_items_edge_count("requirement"@, "HAS_REQUIREMENT"@, s, p.requirements@, "HAS_REQUIREMENT"@);
        lemma_edge_count_add(m, items_edges("requirement"@, "HAS_REQUIREMENT"@, s, p.requirements@), "HAS_REQUIREMENT"@);
        lemma_items_edge_count("acceptance-criterion"@, "HAS_ACCEPTANCE_CRITERION"@, s, p.acceptance_criteria@, "HAS_REQUIREMENT"@);
        lemma_edge_count_add((m + items_edges("requirement"@, "HAS_REQUIREMENT"@, s, p.requirements@)), items_edges("acceptance-criterion"@, "HAS_ACCEPTANCE_CRITERION"@, s, p.acceptance_criteria@), "HAS_REQUIREMENT"@);
        lemma_items_edge_count("risk"@, "HAS_RISK"@, s, p.risks@, "HAS_REQUIREMENT"@);
        lemma_edge_count_add(((m + items_edges("requirement"@, "HAS_REQUIREMENT"@, s, p.requirements@)) + items_edges("acceptance-criterion"@, "HAS_ACCEPTANCE_CRITERION"@, s, p.acceptance_criteria@)), items_edges("risk"@, "HAS_RISK"@, s, p.risks@), "HAS_REQUIREMENT"@);
        lemma_items_edge_count("mitigation"@, "HAS_MITIGATION"@, s, p.mitigations@, "HAS_REQUIREMENT"@);
        lemma_edge_count_add((((m + items_edges("requirement"@, "HAS_REQUIREMENT"@, s, p.requirements@)) + items_edges("acceptance-criterion"@, "HAS_ACCEPTANCE_CRITERION"@, s, p.acceptance_criteria@)) + items_edges("risk"@, "HAS_RISK"@, s, p.risks@)), items_edges("mitigation"@, "HAS_MITIGATION"@, s, p.mitigations@), "HAS_REQUIREMENT"@);
        lemma_items_edge_count("behavior"@, "HAS_BEHAVIOR"@, s, p.expected_behaviors@, "HAS_REQUIREMENT"@);
        lemma_edge_count_add(((((m + items_edges("requirement"@, "HAS_REQUIREMENT"@, s, p.requirements@)) + items_edges("acceptance-criterion"@, "HAS_ACCEPTANCE_CRITERION"@, s, p.acceptance_criteria@)) + items_edges("risk"@, "HAS_RISK"@, s, p.risks@)) + items_edges("mitigation"@, "HAS_MITIGATION"@, s, p.mitigations@)), items_edges("behavior"@, "HAS_BEHAVIOR"@, s, p.expected_behaviors@), "HAS_REQUIREMENT"@);
        lemma_items_edge_count("behavior"@, "HAS_BEHAVIOR"@, s, p.forbidden_behaviors@, "HAS_REQUIREMENT"@);
        lemma_edge_count_add((((((m + items_edges("requirement"@, "HAS_REQUIREMENT"@, s, p.requirements@)) + items_edges("acceptance-criterion"@, "HAS_ACCEPTANCE_CRITERION"@, s, p.acceptance_criteria@)) + items_edges("risk"@, "HAS_RISK"@, s, p.risks@)) + items_edges("mitigation"@, "HAS_MITIGATION"@, s, p.mitigations@)) + items_edges("behavior"@, "HAS_BEHAVIOR"@, s, p.expected_behaviors@)), items_edges("behavior"@, "HAS_BEHAVIOR"@, s, p.forbidden_behaviors@), "HAS_REQUIREMENT"@);
        lemma_items_edge_count("use-case"@, "HAS_USE_CASE"@, s, p.use_cases@, "HAS_REQUIREMENT"@);
        lemma_edge_count_add(((((((m + items_edges("requirement"@, "HAS_REQUIREMENT"@, s, p.requirements@)) + items_edges("acceptance-criterion"@, "HAS_ACCEPTANCE_CRITERION"@, s, p.acceptance_criteria@)) + items_edges("risk"@, "HAS_RISK"@, s, p.risks@)) + items_edges("mitigation"@, "HAS_MITIGATION"@, s, p.mitigations@)) + items_edges("behavior"@, "HAS_BEHAVIOR"@, s, p.expected_behaviors@)) + items_edges("behavior"@, "HAS_BEHAVIOR"@, s, p.forbidden_behaviors@)), items_edges("use-case"@, "HAS_USE_CASE"@, s, p.use_cases@), "HAS_REQUIREMENT"@);
        lemma_items_edge_count("endpoint"@, "HAS_ENDPOINT"@, s, p.endpoints@, "HAS_REQUIREMENT"@);
        lemma_edge_count_add((((((((m + items_edges("requirement"@, "HAS_REQUIREMENT"@, s, p.requirements@)) + items_edges("acceptance-criterion"@, "HAS_ACCEPTANCE_CRITERION"@, s, p.acceptance_criteria@)) + items_edges("risk"@, "HAS_RISK"@, s, p.risks@)) + items_edges("mitigation"@, "HAS_MITIGATION"@, s, p.mitigations@)) + items_edges("behavior"@, "HAS_BEHAVIOR"@, s, p.expected_behaviors@)) + items_edges("behavior"@, "HAS_BEHAVIOR"@, s, p.forbidden_behaviors@)) + items_edges("use-case"@, "HAS_USE_CASE"@, s, p.use_cases@)), items_edges("endpoint"@, "HAS_ENDPOINT"@, s, p.endpoints@), "HAS_REQUIREMENT"@);
        lemma_items_edge_count("domain-entity"@, "HAS_ENTITY"@, s, p.entities@, "HAS_REQUIREMENT"@);
        lemma_edge_count_add(((((((((m + items_edges("requirement"@, "HAS_REQUIREMENT"@, s, p.requirements@)) + items_edges("acceptance-criterion"@, "HAS_ACCEPTANCE_CRITERION"@, s, p.acceptance_criteria@)) + items_edges("risk"@, "HAS_RISK"@, s, p.risks@)) + items_edges("mitigation"@, "HAS_MITIGATION"@, s, p.mitigations@)) + items_edges("behavior"@, "HAS_BEHAVIOR"@, s, p.expected_behaviors@)) + items_edges("behavior"@, "HAS_BEHAVIOR"@, s, p.forbidden_behaviors@)) + items_edges("use-case"@, "HAS_USE_CASE"@, s, p.use_cases@)) + items_edges("endpoint"@, "HAS_ENDPOINT"@, s, p.endpoints@)), items_edges("domain-entity"@, "HAS_ENTITY"@, s, p.entities@), "HAS_REQUIREMENT"@);
        lemma_items_edge_count("domain-event"@, "HAS_EVENT"@, s, p.events@, "HAS_REQUIREMENT"@);
        lemma_edge_count_add((((((((((m + items_edges("requirement"@, "HAS_REQUIREMENT"@, s, p.requirements@)) + items_edges("acceptance-criterion"@, "HAS_ACCEPTANCE_CRITERION"@, s, p.acceptance_criteria@)) + items_edges("risk"@, "HAS_RISK"@, s, p.risks@)) + items_edges("mitigation"@, "HAS_MITIGATION"@, s, p.mitigations@)) + items_edges("behavior"@, "HAS_BEHAVIOR"@, s, p.expected_behaviors@)) + items_edges("behavior"@, "HAS_BEHAVIOR"@, s, p.forbidden_behaviors@)) + items_edges("use-case"@, "HAS_USE_CASE"@, s, p.use_cases@)) + items_edges("endpoint"@, "HAS_ENDPOINT"@, s, p.endpoints@)) + items_edges("domain-entity"@, "HAS_ENTITY"@, s, p.entities@)), items_edges("domain-event"@, "HAS_EVENT"@, s, p.events@), "HAS_REQUIREMENT"@);
        lemma_items_edge_count("data-object"@, "HAS_DATA_OBJECT"@, s, p.data_objects@, "HAS_REQUIREMENT"@);
        lemma_edge_count_add(((((((((((m + items_edges("requirement"@, "HAS_REQUIREMENT"@, s, p.requirements@)) + items_edges("acceptance-criterion"@, "HAS_ACCEPTANCE_CRITERION"@, s, p.acceptance_criteria@)) + items_edges("risk"@, "HAS_RISK"@, s, p.risks@)) + items_edges("mitigation"@, "HAS_MITIGATION"@, s, p.mitigations@)) + items_edges("behavior"@, "HAS_BEHAVIOR"@, s, p.expected_behaviors@)) + items_edges("behavior"@, "HAS_BEHAVIOR"@, s, p.forbidden_behaviors@)) + items_edges("use-case"@, "HAS_USE_CASE"@, s, p.use_cases@)) + items_edges("endpoint"@, "HAS_ENDPOINT"@, s, p.endpoints@)) + items_edges("domain-entity"@, "HAS_ENTITY"@, s, p.entities@)) + items_edges("domain-event"@, "HAS_EVENT"@, s, p.events@)), items_edges("data-object"@, "HAS_DATA_OBJECT"@, s, p.data_objects@), "HAS_REQUIREMENT"@);
        lemma_items_edge_count("test-case"@, "HAS_TEST_CASE"@, s, p.tests@, "HAS_REQUIREMENT"@);
        lemma_edge_count_add((((((((((((m + items_edges("requirement"@, "HAS_REQUIREMENT"@, s, p.requirements@)) + items_edges("acceptance-criterion"@, "HAS_ACCEPTANCE_CRITERION"@, s, p.acceptance_criteria@)) + items_edges("risk"@, "HAS_RISK"@, s, p.risks@)) + items_edges("mitigation"@, "HAS_MITIGATION"@, s, p.mitigations@)) + items_edges("behavior"@, "HAS_BEHAVIOR"@, s, p.expected_behaviors@)) + items_edges("behavior"@, "HAS_BEHAVIOR"@, s, p.forbidden_behaviors@)) + items_edges("use-case"@, "HAS_USE_CASE"@, s, p.use_cases@)) + items_edges("endpoint"@, "HAS_ENDPOINT"@, s, p.endpoints@)) + items_edges("domain-entity"@, "HAS_ENTITY"@, s, p.entities@)) + items_edges("domain-event"@, "HAS_EVENT"@, s, p.events@)) + items_edges("data-object"@, "HAS_DATA_OBJECT"@, s, p.data_objects@)), items_edges("test-case"@, "HAS_TEST_CASE"@, s, p.tests@), "HAS_REQUIREMENT"@);
        assert(((((((((((((m + items_edges("requirement"@, "HAS_REQUIREMENT"@, s, p.requirements@)) + items_edges("acceptance-criterion"@, "HAS_ACCEPTANCE_CRITERION"@, s, p.acceptance_criteria@)) + items_edges("risk"@, "HAS_RISK"@, s, p.risks@)) + items_edges("mitigation"@, "HAS_MITIGATION"@, s, p.mitigations@)) + items_edges("behavior"@, "HAS_BEHAVIOR"@, s, p.expected_behaviors@)) + items_edges("behavior"@, "HAS_BEHAVIOR"@, s, p.forbidden_behaviors@)) + items_edges("use-case"@, "HAS_USE_CASE"@, s, p.use_cases@)) + items_edges("endpoint"@, "HAS_ENDPOINT"@, s, p.endpoints@)) + items_edges("domain-entity"@, "HAS_ENTITY"@, s, p.entities@)) + items_edges("domain-event"@, "HAS_EVENT"@, s, p.events@)) + items_edges("data-object"@, "HAS_DATA_OBJECT"@, s, p.data_objects@)) + items_edges("test-case"@, "HAS_TEST_CASE"@, s, p.tests@)) == spec_edges(p));
    }
    assert(edge_type_count(spec_edges(p), "HAS_ACCEPTANCE_CRITERION"@) == p.acceptance_criteria@.len()) by {
        let m = module_edges(p);
        if m.len() > 0 { assert(m.drop_last().drop_last() =~= Seq::<EdgeV>::empty()); assert(edge_type_count(m.drop_last().drop_last(), "HAS_ACCEPTANCE_CRITERION"@) == 0); assert(edge_type_count(m.drop_last(), "HAS_ACCEPTANCE_CRITERION"@) == 0); }
        lemma_items_edge_count("requirement"@, "HAS_REQUIREMENT"@, s, p.requirements@, "HAS_ACCEPTANCE_CRITERION"@);
        lemma_edge_count_add(m, items_edges("requirement"@, "HAS_REQUIREMENT"@, s, p.requirements@), "HAS_ACCEPTANCE_CRITERION"@);
        lemma_items_edge_count("acceptance-criterion"@, "HAS_ACCEPTANCE_CRITERION"@, s, p.acceptance_criteria@, "HAS_ACCEPTANCE_CRITERION"@);
        lemma_edge_count_add((m + items_edges("requirement"@, "HAS_REQUIREMENT"@, s, p.requirements@)), items_edges("acceptance-criterion"@, "HAS_ACCEPTANCE_CRITERION"@, s, p.acceptance_criteria@), "HAS_ACCEPTANCE_CRITERION"@);
        lemma_items_edge_count("risk"@, "HAS_RISK"@, s, p.risks@, "HAS_ACCEPTANCE_CRITERION"@);
        lemma_edge_count_add(((m + items_edges("requirement"@, "HAS_REQUIREMENT"@, s, p.requirements@)) + items_edges("acceptance-criterion"@, "HAS_ACCEPTANCE_CRITERION"@, s, p.acceptance_criteria@)), items_edges("risk"@, "HAS_RISK"@, s, p.risks@), "HAS_ACCEPTANCE_CRITERION"@);
        lemma_items_edge_count("mitigation"@, "HAS_MITIGATION"@, s, p.mitigations@, "HAS_ACCEPTANCE_CRITERION"@);
        lemma_edge_count_add((((m + items_edges("requirement"@, "HAS_REQUIREMENT"@, s, p.requirements@)) + items_edges("acceptance-criterion"@, "HAS_ACCEPTANCE_CRITERION"@, s, p.acceptance_criteria@)) + items_edges("risk"@, "HAS_RISK"@, s, p.risks@)), items_edges("mitigation"@, "HAS_MITIGATION"@, s, p.mitigations@), "HAS_ACCEPTANCE_CRITERION"@);
        lemma_items_edge_count("behavior"@, "HAS_BEHAVIOR"@, s, p.expected_behaviors@, "HAS_ACCEPTANCE_CRITERION"@);
        lemma_edge_count_add(((((m + items_edges("requirement"@, "HAS_REQUIREMENT"@, s, p.requirements@)) + items_edges("acceptance-criterion"@, "HAS_ACCEPTANCE_CRITERION"@, s, p.acceptance_criteria@)) + items_edges("risk"@, "HAS_RISK"@, s, p.risks@)) + items_edges("mitigation"@, "HAS_MITIGATION"@, s, p.mitigations@)), items_edges("behavior"@, "HAS_BEHAVIOR"@, s, p.expected_behaviors@), "HAS_ACCEPTANCE_CRITERION"@);
        lemma_items_edge_count("behavior"@, "HAS_BEHAVIOR"@, s, p.forbidden_behaviors@, "HAS_ACCEPTANCE_CRITERION"@);
        lemma_edge_count_add((((((m + items_edges("requirement"@, "HAS_REQUIREMENT"@, s, p.requirements@)) + items_edges("acceptance-criterion"@, "HAS_ACCEPTANCE_CRITERION"@, s, p.acceptance_criteria@)) + items_edges("risk"@, "HAS_RISK"@, s, p.risks@)) + items_edges("mitigation"@, "HAS_MITIGATION"@, s, p.mitigations@)) + items_edges("behavior"@, "HAS_BEHAVIOR"@, s, p.expected_behaviors@)), items_edges("behavior"@, "HAS_BEHAVIOR"@, s, p.forbidden_behaviors@), "HAS_ACCEPTANCE_CRITERION"@);
        lemma_items_edge_count("use-case"@, "HAS_USE_CASE"@, s, p.use_cases@, "HAS_ACCEPTANCE_CRITERION"@);
        lemma_edge_count_add(((((((m + items_edges("requirement"@, "HAS_REQUIREMENT"@, s, p.requirements@)) + items_edges("acceptance-criterion"@, "HAS_ACCEPTANCE_CRITERION"@, s, p.acceptance_criteria@)) + items_edges("risk"@, "HAS_RISK"@, s, p.risks@)) + items_edges("mitigation"@, "HAS_MITIGATION"@, s, p.mitigations@)) + items_edges("behavior"@, "HAS_BEHAVIOR"@, s, p.expected_behaviors@)) + items_edges("behavior"@, "HAS_BEHAVIOR"@, s, p.forbidden_behaviors@)), items_edges("use-case"@, "HAS_USE_CASE"@, s, p.use_cases@), "HAS_ACCEPTANCE_CRITERION"@);
        lemma_items_edge_count("endpoint"@, "HAS_ENDPOINT"@, s, p.endpoints@, "HAS_ACCEPTANCE_CRITERION"@);
        lemma_edge_count_add((((((((m + items_edges("requirement"@, "HAS_REQUIREMENT"@, s, p.requirements@)) + items_edges("acceptance-criterion"@, "HAS_ACCEPTANCE_CRITERION"@, s, p.acceptance_criteria@)) + items_edges("risk"@, "HAS_RISK"@, s, p.risks@)) + items_edges("mitigation"@, "HAS_MITIGATION"@, s, p.mitigations@)) + items_edges("behavior"@, "HAS_BEHAVIOR"@, s, p.expected_behaviors@)) + items_edges("behavior"@, "HAS_BEHAVIOR"@, s, p.forbidden_behaviors@)) + items_edges("use-case"@, "HAS_USE_CASE"@, s, p.use_cases@)), items_edges("endpoint"@, "HAS_ENDPOINT"@, s, p.endpoints@), "HAS_ACCEPTANCE_CRITERION"@);
        lemma_items_edge_count("domain-entity"@, "HAS_ENTITY"@, s, p.entities@, "HAS_ACCEPTANCE_CRITERION"@);
        lemma_edge_count_add(((((((((m + items_edges("requirement"@, "HAS_REQUIREMENT"@, s, p.requirements@)) + items_edges("acceptance-criterion"@, "HAS_ACCEPTANCE_CRITERION"@, s, p.acceptance_criteria@)) + items_edges("risk"@, "HAS_RISK"@, s, p.risks@)) + items_edges("mitigation"@, "HAS_MITIGATION"@, s, p.mitigations@)) + items_edges("behavior"@, "HAS_BEHAVIOR"@, s, p.expected_behaviors@)) + items_edges("behavior"@, "HAS_BEHAVIOR"@, s, p.forbidden_behaviors@)) + items_edges("use-case"@, "HAS_USE_CASE"@, s, p.use_cases@)) + items_edges("endpoint"@, "HAS_ENDPOINT"@, s, p.endpoints@)), items_edges("domain-entity"@, "HAS_ENTITY"@, s, p.entities@), "HAS_ACCEPTANCE_CRITERION"@);
        lemma_items_edge_count("domain-event"@, "HAS_EVENT"@, s, p.events@, "HAS_ACCEPTANCE_CRITERION"@);
        lemma_edge_count_add((((((((((m + items_edges("requirement"@, "HAS_REQUIREMENT"@, s, p.requirements@)) + items_edges("acceptance-criterion"@, "HAS_ACCEPTANCE_CRITERION"@, s, p.acceptance_criteria@)) + items_edges("risk"@, "HAS_RISK"@, s, p.risks@)) + items_edges("mitigation"@, "HAS_MITIGATION"@, s, p.mitigations@)) + items_edges("behavior"@, "HAS_BEHAVIOR"@, s, p.expected_behaviors@)) + items_edges("behavior"@, "HAS_BEHAVIOR"@, s, p.forbidden_behaviors@)) + items_edges("use-case"@, "HAS_USE_CASE"@, s, p.use_cases@)) + items_edges("endpoint"@, "HAS_ENDPOINT"@, s, p.endpoints@)) + items_edges("domain-entity"@, "HAS_ENTITY"@, s, p.entities@)), items_edges("domain-event"@, "HAS_EVENT"@, s, p.events@), "HAS_ACCEPTANCE_CRITERION"@);
        lemma_items_edge_count("data-object"@, "HAS_DATA_OBJECT"@, s, p.data_objects@, "HAS_ACCEPTANCE_CRITERION"@);
        lemma_edge_count_add(((((((((((m + items_edges("requirement"@, "HAS_REQUIREMENT"@, s, p.requirements@)) + items_edges("acceptance-criterion"@, "HAS_ACCEPTANCE_CRITERION"@, s, p.acceptance_criteria@)) + items_edges("risk"@, "HAS_RISK"@, s, p.risks@)) + items_edges("mitigation"@, "HAS_MITIGATION"@, s, p.mitigations@)) + items_edges("behavior"@, "HAS_BEHAVIOR"@, s, p.expected_behaviors@)) + items_edges("behavior"@, "HAS_BEHAVIOR"@, s, p.forbidden_behaviors@)) + items_edges("use-case"@, "HAS_USE_CASE"@, s, p.use_cases@)) + items_edges("endpoint"@, "HAS_ENDPOINT"@, s, p.endpoints@)) + items_edges("domain-entity"@, "HAS_ENTITY"@, s, p.entities@)) + items_edges("domain-event"@, "HAS_EVENT"@, s, p.events@)), items_edges("data-object"@, "HAS_DATA_OBJECT"@, s, p.data_objects@), "HAS_ACCEPTANCE_CRITERION"@);
        lemma_items_edge_count("test-case"@, "HAS_TEST_CASE"@, s, p.tests@, "HAS_ACCEPTANCE_CRITERION"@);
        lemma_edge_count_add((((((((((((m + items_edges("requirement"@, "HAS_REQUIREMENT"@, s, p.requirements@)) + items_edges("acceptance-criterion"@, "HAS_ACCEPTANCE_CRITERION"@, s, p.acceptance_criteria@)) + items_edges("risk"@, "HAS_RISK"@, s, p.risks@)) + items_edges("mitigation"@, "HAS_MITIGATION"@, s, p.mitigations@)) + items_edges("behavior"@, "HAS_BEHAVIOR"@, s, p.expected_behaviors@)) + items_edges("behavior"@, "HAS_BEHAVIOR"@, s, p.forbidden_behaviors@)) + items_edges("use-case"@, "HAS_USE_CASE"@, s, p.use_cases@)) + items_edges("endpoint"@, "HAS_ENDPOINT"@, s, p.endpoints@)) + items_edges("domain-entity"@, "HAS_ENTITY"@, s, p.entities@)) + items_edges("domain-event"@, "HAS_EVENT"@, s, p.events@)) + items_edges("data-object"@, "HAS_DATA_OBJECT"@, s, p.data_objects@)), items_edges("test-case"@, "HAS_TEST_CASE"@, s, p.tests@), "HAS_ACCEPTANCE_CRITERION"@);
        assert(((((((((((((m + items_edges("requirement"@, "HAS_REQUIREMENT"@, s, p.requirements@)) + items_edges("acceptance-criterion"@, "HAS_ACCEPTANCE_CRITERION"@, s, p.acceptance_criteria@)) + items_edges("risk"@, "HAS_RISK"@, s, p.risks@)) + items_edges("mitigation"@, "HAS_MITIGATION"@, s, p.mitigations@)) + items_edges("behavior"@, "HAS_BEHAVIOR"@, s, p.expected_behaviors@)) + items_edges("behavior"@, "HAS_BEHAVIOR"@, s, p.forbidden_behaviors@)) + items_edges("use-case"@, "HAS_USE_CASE"@, s, p.use_cases@)) + items_edges("endpoint"@, "HAS_ENDPOINT"@, s, p.endpoints@)) + items_edges("domain-entity"@, "HAS_ENTITY"@, s, p.entities@)) + items_edges("domain-event"@, "HAS_EVENT"@, s, p.events@)) + items_edges("data-object"@, "HAS_DATA_OBJECT"@, s, p.data_objects@)) + items_edges("test-case"@, "HAS_TEST_CASE"@, s, p.tests@)) == spec_edges(p));
    }
}

impl SpecProjection {
    /// The spec as a delta that creates its nodes and edges, in order.
    pub fn to_delta(&self) -> (d: GraphDelta)
        ensures
            views(d.create_nodes@) == spec_nodes(*self),
            views(d.create_edges@) == spec_edges(*self),
            d.update_nodes@.len() == 0,
            d.delete_nodes@.len() == 0,
            d.update_edges@.len() == 0,
            d.delete_edges@.len() == 0,
    {
        let spec = self.spec.as_str();
        let spec_id = node_id("spec", spec);
        let mut nodes: Vec<Node> = Vec::new();
        let mut edges: Vec<Edge> = Vec::new();
        let mut attrs: Vec<(String, JsonValue)> = Vec::new();
        assert(json_fields_view(attrs@) =~= Seq::empty());
        if let Some(p) = &self.priority {
            push_text(&mut attrs, "priority", p.as_str());
        }
        push_text(&mut attrs, "spec", spec);
        if let Some(s) = &self.summary {
            push_text(&mut attrs, "summary", s.as_str());
        }
        push_text(&mut attrs, "title", self.title.as_str());
        let mut key = chars_of("spec:");
        append(&mut key, &chars_of(spec));
        assert(json_fields_view(attrs@) =~= spec_nodev(*self).attributes);
        nodes.push(make_node(node_id("spec", spec), string_of(&key), "Spec", attrs));
        if let Some(m) = &self.module {
            let module_id = node_id("module", m.as_str());
            let mut mattrs: Vec<(String, JsonValue)> = Vec::new();
            assert(json_fields_view(mattrs@) =~= Seq::empty());
            push_text(&mut mattrs, "name", m.as_str());
            let mut mkey = chars_of("module:");
            append(&mut mkey, &string_chars(m));
            nodes.push(make_node(node_id("module", m.as_str()), string_of(&mkey), "Module", mattrs));
            edges.push(make_spec_edge("node_project", "HAS_MODULE", module_id.as_str()));
            edges.push(make_spec_edge(spec_id.as_str(), "TOUCHES_MODULE", module_id.as_str()));
        }
        assert(views(nodes@) =~= seq![spec_nodev(*self)] + module_nodes(*self));
        assert(views(edges@) =~= module_edges(*self));
        let sid = spec_id.as_str();
        add_items(&mut nodes, &mut edges, sid, spec, "Requirement", "requirement", "HAS_REQUIREMENT", &self.requirements, None);
        add_items(&mut nodes, &mut edges, sid, spec, "AcceptanceCriterion", "acceptance-criterion", "HAS_ACCEPTANCE_CRITERION", &self.acceptance_criteria, None);
        add_items(&mut nodes, &mut edges, sid, spec, "Risk", "risk", "HAS_RISK", &self.risks, None);
        add_items(&mut nodes, &mut edges, sid, spec, "Mitigation", "mitigation", "HAS_MITIGATION", &self.mitigations, None);
        add_items(&mut nodes, &mut edges, sid, spec, "Behavior", "behavior", "HAS_BEHAVIOR", &self.expected_behaviors, Some("expected"));
        add_items(&mut nodes, &mut edges, sid, spec, "Behavior", "behavior", "HAS_BEHAVIOR", &self.forbidden_behaviors, Some("forbidden"));
        add_items(&mut nodes, &mut edges, sid, spec, "UseCase", "use-case", "HAS_USE_CASE", &self.use_cases, None);
        add_items(&mut nodes, &mut edges, sid, spec, "Endpoint", "endpoint", "HAS_ENDPOINT", &self.endpoints, None);
        add_items(&mut nodes, &mut edges, sid, spec, "DomainEntity", "domain-entity", "HAS_ENTITY", &self.entities, None);
        add_items(&mut nodes, &mut edges, sid, spec, "DomainEvent", "domain-event", "HAS_EVENT", &self.events, None);
        add_items(&mut nodes, &mut edges, sid, spec, "DataObject", "data-object", "HAS_DATA_OBJECT", &self.data_objects, None);
        add_items(&mut nodes, &mut edges, sid, spec, "TestCase", "test-case", "HAS_TEST_CASE", &self.tests, None);
        assert(views(nodes@) =~= spec_nodes(*self));
        assert(views(edges@) =~= spec_edges(*self));
        GraphDelta {
            create_nodes: nodes,
            update_nodes: Vec::new(),
            delete_nodes: Vec::new(),
            create_edges: edges,
            update_edges: Vec::new(),
            delete_edges: Vec::new(),
        }
    }
}

} // verus!
