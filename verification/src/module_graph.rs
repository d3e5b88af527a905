//! Module facts: modules, their layers, packages, capabilities and interfaces.

use crate::git_graph::edges_by_presence;
use crate::ids::{stable, stable_id1, stable_id2, stable_view};
use crate::keyed::{Keyed, first_wins, keyed_map, keyed_sorted, lemma_keyed_map_at, lemma_keyed_unique, views};
use crate::model::{
    DeltaBuilder, Edge, EdgeV, Finding, FindingSeverity, Graph, GraphDelta, JsonV, JsonValue, Node, NodeV,
    attr_text, delta_edges, delta_nodes, edge_of, fields_text, insert_keyed, json_fields_view, lemma_insert_keyed_last,
    make_edge, make_node, opt_string_view, push_text,
};
use crate::text::{
    append, append_str, chars_of, eq_chars, eq_str, lemma_sorted_list, lt_chars, seq_lt, sorted_insert, sorted_list,
    joined, join_strings, sorted_strict, string_chars, string_of, strings_view,
};
use crate::policy::{blank, is_blank_string};
use vstd::prelude::*;

verus! {

#[derive(Debug, Clone, PartialEq, Eq)]
pub struct ModuleGraphProjection {
    pub project_node_id: String,
    pub modules: Vec<ModuleDefinition>,
}

#[derive(Debug, Clone, PartialEq, Eq)]
pub struct ModuleDefinition {
    pub name: String,
    pub purpose: String,
    pub layer: String,
    pub package: String,
    pub capabilities: Vec<String>,
    pub interfaces: Vec<ModuleInterface>,
}

#[derive(Debug, Clone, PartialEq, Eq)]
pub struct ModuleInterface {
    pub name: String,
    pub visibility: InterfaceVisibility,
    pub surface: String,
}

#[derive(Debug, Clone, Copy, PartialEq, Eq, Structural)]
pub enum InterfaceVisibility {
    Public,
    Private,
}

impl InterfaceVisibility {
    pub fn as_str(self) -> (r: &'static str)
        ensures
            r@ == match self {
                InterfaceVisibility::Public => "public"@,
                InterfaceVisibility::Private => "private"@,
            },
    {
        match self {
            InterfaceVisibility::Public => "public",
            InterfaceVisibility::Private => "private",
        }
    }
}

#[derive(Debug, Clone, PartialEq, Eq)]
pub struct ModuleBaselineReport {
    pub project_node_id: Option<String>,
    pub complete: bool,
    pub module_count: usize,
    pub missing: Vec<String>,
    pub modules: Vec<ModuleSummary>,
    pub findings: Vec<Finding>,
}

#[derive(Debug, Clone, PartialEq, Eq)]
pub struct ModuleSummary {
    pub module_node_id: String,
    pub name: String,
    pub purpose: Option<String>,
    pub layer: Option<String>,
    pub package: Option<String>,
    pub capabilities: Vec<String>,
    pub interfaces: Vec<InterfaceSummary>,
}

#[derive(Debug, Clone, PartialEq, Eq)]
pub struct InterfaceSummary {
    pub interface_node_id: String,
    pub name: String,
    pub visibility: Option<String>,
    pub surface: Option<String>,
}

pub fn module_node_id(name: &str) -> (r: String)
    ensures
        r@ == "node_module"@ + "_"@ + stable_view(name@),
{
    stable_id1("node_module", name)
}

pub fn layer_node_id(name: &str) -> (r: String)
    ensures
        r@ == "node_layer"@ + "_"@ + stable_view(name@),
{
    stable_id1("node_layer", name)
}

pub fn package_node_id(name: &str) -> (r: String)
    ensures
        r@ == "node_package"@ + "_"@ + stable_view(name@),
{
    stable_id1("node_package", name)
}

pub fn capability_node_id(name: &str) -> (r: String)
    ensures
        r@ == "node_capability"@ + "_"@ + stable_view(name@),
{
    stable_id1("node_capability", name)
}

pub fn interface_node_id(module_name: &str, name: &str) -> (r: String)
    ensures
        r@ == "node_public_interface"@ + "_"@ + stable_view(module_name@) + "_"@ + stable_view(name@),
{
    stable_id2("node_public_interface", module_name, name)
}


pub open spec fn mid(name: Seq<char>) -> Seq<char> {
    "node_module"@ + "_"@ + stable_view(name)
}

pub open spec fn named_id(family: Seq<char>, name: Seq<char>) -> Seq<char> {
    "node_"@ + family + "_"@ + stable_view(name)
}

pub open spec fn iface_id(module: Seq<char>, name: Seq<char>) -> Seq<char> {
    "node_public_interface"@ + "_"@ + stable_view(module) + "_"@ + stable_view(name)
}

pub open spec fn module_spec_node(m: ModuleDefinition) -> NodeV {
    NodeV {
        id: mid(m.name@),
        stable_key: "module:"@ + stable_view(m.name@),
        node_type: "Module"@,
        attributes: seq![
            ("layer"@, JsonV::Text(m.layer@)),
            ("name"@, JsonV::Text(m.name@)),
            ("package"@, JsonV::Text(m.package@)),
            ("purpose"@, JsonV::Text(m.purpose@)),
        ],
    }
}

/// A Layer, Package or Capability node: its family names the id and key.
pub open spec fn named_spec_node(node_type: Seq<char>, family: Seq<char>, name: Seq<char>) -> NodeV {
    NodeV {
        id: named_id(family, name),
        stable_key: family + ":"@ + stable_view(name),
        node_type: node_type,
        attributes: seq![("name"@, JsonV::Text(name))],
    }
}

pub open spec fn visibility_text(v: InterfaceVisibility) -> Seq<char> {
    match v {
        InterfaceVisibility::Public => "public"@,
        InterfaceVisibility::Private => "private"@,
    }
}

pub open spec fn interface_spec_node(module: Seq<char>, i: ModuleInterface) -> NodeV {
    NodeV {
        id: iface_id(module, i.name@),
        stable_key: "public-interface:"@ + stable_view(module) + "/"@ + stable_view(i.name@),
        node_type: "PublicInterface"@,
        attributes: seq![
            ("module"@, JsonV::Text(module)),
            ("name"@, JsonV::Text(i.name@)),
            ("surface"@, JsonV::Text(i.surface@)),
            ("visibility"@, JsonV::Text(visibility_text(i.visibility))),
        ],
    }
}

pub open spec fn capability_nodes(caps: Seq<Seq<char>>) -> Seq<NodeV> {
    caps.map_values(|c: Seq<char>| named_spec_node("Capability"@, "capability"@, c))
}

pub open spec fn capability_edges(module: Seq<char>, caps: Seq<Seq<char>>) -> Seq<EdgeV> {
    caps.map_values(|c: Seq<char>| edge_of(mid(module), "HAS_CAPABILITY"@, named_id("capability"@, c)))
}

pub open spec fn interface_nodes(module: Seq<char>, is: Seq<ModuleInterface>) -> Seq<NodeV> {
    is.map_values(|i: ModuleInterface| interface_spec_node(module, i))
}

pub open spec fn interface_edges(module: Seq<char>, is: Seq<ModuleInterface>) -> Seq<EdgeV> {
    is.map_values(|i: ModuleInterface| edge_of(mid(module), "EXPOSES_INTERFACE"@, iface_id(module, i.name@)))
}

/// The nodes one module contributes, in emission order.
pub open spec fn one_module_nodes(m: ModuleDefinition) -> Seq<NodeV> {
    seq![
        module_spec_node(m),
        named_spec_node("Layer"@, "layer"@, m.layer@),
        named_spec_node("Package"@, "package"@, m.package@),
    ] + capability_nodes(strings_view(m.capabilities@)) + interface_nodes(m.name@, m.interfaces@)
}

/// The edges one module contributes, in emission order.
pub open spec fn one_module_edges(project: Seq<char>, m: ModuleDefinition) -> Seq<EdgeV> {
    seq![
        edge_of(project, "HAS_MODULE"@, mid(m.name@)),
        edge_of(mid(m.name@), "IN_LAYER"@, named_id("layer"@, m.layer@)),
        edge_of(project, "HAS_LAYER"@, named_id("layer"@, m.layer@)),
        edge_of(mid(m.name@), "PACKAGE_IN_MODULE"@, named_id("package"@, m.package@)),
        edge_of(project, "HAS_PACKAGE"@, named_id("package"@, m.package@)),
    ] + capability_edges(m.name@, strings_view(m.capabilities@)) + interface_edges(m.name@, m.interfaces@)
}

pub open spec fn modules_nodes(ms: Seq<ModuleDefinition>) -> Seq<NodeV>
    decreases ms.len(),
{
    if ms.len() == 0 {
        Seq::empty()
    } else {
        modules_nodes(ms.drop_last()) + one_module_nodes(ms.last())
    }
}

pub open spec fn modules_edges(project: Seq<char>, ms: Seq<ModuleDefinition>) -> Seq<EdgeV>
    decreases ms.len(),
{
    if ms.len() == 0 {
        Seq::empty()
    } else {
        modules_edges(project, ms.drop_last()) + one_module_edges(project, ms.last())
    }
}

fn named_node_id(family: &str, name: &str) -> (r: String)
    ensures
        r@ == named_id(family@, name@),
{
    let mut id = chars_of("node_");
    append(&mut id, &chars_of(family));
    append_str(&mut id, "_");
    append(&mut id, &string_chars(&stable(name)));
    string_of(&id)
}

fn named_node(node_type: &str, family: &str, name: &str) -> (n: Node)
    ensures
        n@ == named_spec_node(node_type@, family@, name@),
{
    let mut a: Vec<(String, JsonValue)> = Vec::new();
    assert(json_fields_view(a@) =~= Seq::empty());
    push_text(&mut a, "name", name);
    let mut key = chars_of(family);
    append_str(&mut key, ":");
    append(&mut key, &string_chars(&stable(name)));
    assert(json_fields_view(a@) =~= named_spec_node(node_type@, family@, name@).attributes);
    make_node(named_node_id(family, name), string_of(&key), node_type, a)
}

fn module_node(m: &ModuleDefinition) -> (n: Node)
    ensures
        n@ == module_spec_node(*m),
{
    let mut a: Vec<(String, JsonValue)> = Vec::new();
    assert(json_fields_view(a@) =~= Seq::empty());
    push_text(&mut a, "layer", m.layer.as_str());
    push_text(&mut a, "name", m.name.as_str());
    push_text(&mut a, "package", m.package.as_str());
    push_text(&mut a, "purpose", m.purpose.as_str());
    let mut key = chars_of("module:");
    append(&mut key, &string_chars(&stable(m.name.as_str())));
    assert(json_fields_view(a@) =~= module_spec_node(*m).attributes);
    make_node(module_node_id(m.name.as_str()), string_of(&key), "Module", a)
}

fn interface_node(module: &str, i: &ModuleInterface) -> (n: Node)
    ensures
        n@ == interface_spec_node(module@, *i),
{
    let mut a: Vec<(String, JsonValue)> = Vec::new();
    assert(json_fields_view(a@) =~= Seq::empty());
    push_text(&mut a, "module", module);
    push_text(&mut a, "name", i.name.as_str());
    push_text(&mut a, "surface", i.surface.as_str());
    push_text(&mut a, "visibility", i.visibility.as_str());
    let mut key = chars_of("public-interface:");
    append(&mut key, &string_chars(&stable(module)));
    append_str(&mut key, "/");
    append(&mut key, &string_chars(&stable(i.name.as_str())));
    assert(json_fields_view(a@) =~= interface_spec_node(module@, *i).attributes);
    make_node(interface_node_id(module, i.name.as_str()), string_of(&key), "PublicInterface", a)
}

fn add_module(b: &mut DeltaBuilder, project: &str, m: &ModuleDefinition)
    ensures
        final(b).node_log() == old(b).node_log() + one_module_nodes(*m),
        final(b).edge_log() == old(b).edge_log() + one_module_edges(project@, *m),
{
    let ghost n0 = b.node_log();
    let ghost e0 = b.edge_log();
    let module_id = module_node_id(m.name.as_str());
    let layer_id = named_node_id("layer", m.layer.as_str());
    let package_id = named_node_id("package", m.package.as_str());
    b.add_node(module_node(m));
    b.add_edge(make_edge(project, "HAS_MODULE", module_id.as_str()));
    b.add_node(named_node("Layer", "layer", m.layer.as_str()));
    b.add_edge(make_edge(module_id.as_str(), "IN_LAYER", layer_id.as_str()));
    b.add_edge(make_edge(project, "HAS_LAYER", layer_id.as_str()));
    b.add_node(named_node("Package", "package", m.package.as_str()));
    b.add_edge(make_edge(module_id.as_str(), "PACKAGE_IN_MODULE", package_id.as_str()));
    b.add_edge(make_edge(project, "HAS_PACKAGE", package_id.as_str()));
    let ghost n1 = b.node_log();
    let ghost e1 = b.edge_log();
    assert(n1 =~= n0 + seq![
        module_spec_node(*m),
        named_spec_node("Layer"@, "layer"@, m.layer@),
        named_spec_node("Package"@, "package"@, m.package@),
    ]);
    let ghost cs = strings_view(m.capabilities@);
    let mut k: usize = 0;
    while k < m.capabilities.len()
        invariant
            k <= cs.len(),
            cs == strings_view(m.capabilities@),
            module_id@ == mid(m.name@),
            b.node_log() == n1 + capability_nodes(cs.take(k as int)),
            b.edge_log() == e1 + capability_edges(m.name@, cs.take(k as int)),
        decreases cs.len() - k,
    {
        let c = m.capabilities[k].as_str();
        b.add_node(named_node("Capability", "capability", c));
        b.add_edge(make_edge(module_id.as_str(), "HAS_CAPABILITY", named_node_id("capability", c).as_str()));
        assert(cs[k as int] == c@);
        assert(capability_nodes(cs.take(k + 1)) =~= capability_nodes(cs.take(k as int)).push(
            named_spec_node("Capability"@, "capability"@, c@),
        ));
        assert(capability_edges(m.name@, cs.take(k + 1)) =~= capability_edges(m.name@, cs.take(k as int)).push(
            edge_of(mid(m.name@), "HAS_CAPABILITY"@, named_id("capability"@, c@)),
        ));
        k = k + 1;
    }
    assert(cs.take(cs.len() as int) =~= cs);
    let ghost n2 = b.node_log();
    let ghost e2 = b.edge_log();
    let ghost is = m.interfaces@;
    let mut k: usize = 0;
    while k < m.interfaces.len()
        invariant
            k <= is.len(),
            is == m.interfaces@,
            module_id@ == mid(m.name@),
            b.node_log() == n2 + interface_nodes(m.name@, is.take(k as int)),
            b.edge_log() == e2 + interface_edges(m.name@, is.take(k as int)),
        decreases is.len() - k,
    {
        let i = &m.interfaces[k];
        b.add_node(interface_node(m.name.as_str(), i));
        b.add_edge(make_edge(module_id.as_str(), "EXPOSES_INTERFACE", interface_node_id(m.name.as_str(), i.name.as_str()).as_str()));
        assert(interface_nodes(m.name@, is.take(k + 1)) =~= interface_nodes(m.name@, is.take(k as int)).push(
            interface_spec_node(m.name@, *i),
        ));
        assert(interface_edges(m.name@, is.take(k + 1)) =~= interface_edges(m.name@, is.take(k as int)).push(
            edge_of(mid(m.name@), "EXPOSES_INTERFACE"@, iface_id(m.name@, i.name@)),
        ));
        k = k + 1;
    }
    assert(is.take(is.len() as int) =~= is);
    assert(b.node_log() =~= n0 + one_module_nodes(*m));
    assert(b.edge_log() =~= e0 + one_module_edges(project@, *m));
}

/// The nodes that keep their id in `nm` but differ from what it holds there.
pub open spec fn nodes_changed(s: Seq<NodeV>, nm: Map<Seq<char>, NodeV>) -> Seq<NodeV>
    decreases s.len(),
{
    if s.len() == 0 {
        Seq::empty()
    } else if nm.contains_key(s.last().id) && nm[s.last().id] != s.last() {
        nodes_changed(s.drop_last(), nm).push(s.last())
    } else {
        nodes_changed(s.drop_last(), nm)
    }
}

proof fn lemma_nodes_present(s: Seq<NodeV>, nm: Map<Seq<char>, NodeV>)
    requires
        forall|i: int| 0 <= i < s.len() ==> nm.contains_key((#[trigger] s[i]).id) && nm[s[i].id] == s[i],
    ensures
        crate::git_graph::nodes_by_presence(s, nm, false).len() == 0,
        nodes_changed(s, nm).len() == 0,
    decreases s.len(),
{
    if s.len() > 0 {
        assert(s.last() == s[s.len() - 1]);
        assert forall|i: int| 0 <= i < s.drop_last().len() implies nm.contains_key((#[trigger] s.drop_last()[i]).id)
            && nm[s.drop_last()[i].id] == s.drop_last()[i] by {
            assert(s.drop_last()[i] == s[i]);
        }
        lemma_nodes_present(s.drop_last(), nm);
    }
}

proof fn lemma_edges_all_present(s: Seq<EdgeV>, em: Map<Seq<char>, EdgeV>)
    requires
        forall|i: int| 0 <= i < s.len() ==> em.contains_key((#[trigger] s[i]).id),
    ensures
        edges_by_presence(s, em, false).len() == 0,
    decreases s.len(),
{
    if s.len() > 0 {
        assert(s.last() == s[s.len() - 1]);
        assert forall|i: int| 0 <= i < s.drop_last().len() implies em.contains_key((#[trigger] s.drop_last()[i]).id) by {
            assert(s.drop_last()[i] == s[i]);
        }
        lemma_edges_all_present(s.drop_last(), em);
    }
}

/// Reprojecting modules onto a graph that already holds every projected node,
/// unchanged, and every projected edge creates nothing and updates nothing:
/// over the projected lists `ns` and `es`, the three lists that
/// `to_upsert_delta` returns are empty.
pub proof fn unchanged_reprojection_is_empty(
    ns: Seq<NodeV>,
    es: Seq<EdgeV>,
    nm: Map<Seq<char>, NodeV>,
    em: Map<Seq<char>, EdgeV>,
)
    requires
        forall|i: int| 0 <= i < ns.len() ==> nm.contains_key((#[trigger] ns[i]).id) && nm[ns[i].id] == ns[i],
        forall|i: int| 0 <= i < es.len() ==> em.contains_key((#[trigger] es[i]).id),
    ensures
        crate::git_graph::nodes_by_presence(ns, nm, false).len() == 0,
        nodes_changed(ns, nm).len() == 0,
        edges_by_presence(es, em, false).len() == 0,
{
    lemma_nodes_present(ns, nm);
    lemma_edges_all_present(es, em);
}

impl ModuleGraphProjection {
    /// Every module, layer, package, capability and interface node with the
    /// project, layer, package, capability and interface edges, each id once
    /// (the first emitted wins), in id order.
    pub fn desired_delta(&self) -> (d: GraphDelta)
        ensures
            keyed_sorted::<Node>(views(d.create_nodes@)),
            keyed_sorted::<Edge>(views(d.create_edges@)),
            keyed_map::<Node>(views(d.create_nodes@)) == first_wins::<Node>(Map::empty(), modules_nodes(self.modules@)),
            keyed_map::<Edge>(views(d.create_edges@)) == first_wins::<Edge>(
                Map::empty(),
                modules_edges(self.project_node_id@, self.modules@),
            ),
            d.update_nodes@.len() == 0,
            d.delete_nodes@.len() == 0,
            d.update_edges@.len() == 0,
            d.delete_edges@.len() == 0,
    {
        let mut b = DeltaBuilder::new();
        let ghost ms = self.modules@;
        let ghost pid = self.project_node_id@;
        let mut i: usize = 0;
        while i < self.modules.len()
            invariant
                i <= ms.len(),
                ms == self.modules@,
                pid == self.project_node_id@,
                b.node_log() == modules_nodes(ms.take(i as int)),
                b.edge_log() == modules_edges(pid, ms.take(i as int)),
            decreases ms.len() - i,
        {
            add_module(&mut b, self.project_node_id.as_str(), &self.modules[i]);
            assert(ms.take(i + 1).drop_last() =~= ms.take(i as int));
            assert(ms.take(i + 1).last() == ms[i as int]);
            i = i + 1;
        }
        assert(ms.take(ms.len() as int) =~= ms);
        b.finish()
    }

    /// The projection on its own, every fact created.
    pub fn to_delta(&self) -> (d: GraphDelta)
        ensures
            keyed_sorted::<Node>(views(d.create_nodes@)),
            keyed_sorted::<Edge>(views(d.create_edges@)),
            keyed_map::<Node>(views(d.create_nodes@)) == first_wins::<Node>(Map::empty(), modules_nodes(self.modules@)),
            keyed_map::<Edge>(views(d.create_edges@)) == first_wins::<Edge>(
                Map::empty(),
                modules_edges(self.project_node_id@, self.modules@),
            ),
            d.update_nodes@.len() == 0,
            d.delete_nodes@.len() == 0,
            d.update_edges@.len() == 0,
            d.delete_edges@.len() == 0,
    {
        self.desired_delta()
    }

    /// The projection relative to a graph: nodes it lacks are created, nodes
    /// it holds with other content are updated, nodes it holds as they are
    /// are left out; edges it lacks are created, and no edge is updated.
    pub fn to_upsert_delta(&self, graph: &Graph) -> (out: GraphDelta)
        ensures
            exists|d: GraphDelta|
                keyed_map::<Node>(views(d.create_nodes@)) == first_wins::<Node>(Map::empty(), modules_nodes(self.modules@))
                && keyed_map::<Edge>(views(d.create_edges@)) == first_wins::<Edge>(
                    Map::empty(),
                    modules_edges(self.project_node_id@, self.modules@),
                )
                && keyed_sorted::<Node>(views(d.create_nodes@))
                && keyed_sorted::<Edge>(views(d.create_edges@))
                && views(out.create_nodes@) == crate::git_graph::nodes_by_presence(views(d.create_nodes@), graph.node_map(), false)
                && views(out.update_nodes@) == nodes_changed(views(d.create_nodes@), graph.node_map())
                && views(out.create_edges@) == edges_by_presence(views(d.create_edges@), graph.edge_map(), false),
            out.delete_nodes@.len() == 0,
            out.update_edges@.len() == 0,
            out.delete_edges@.len() == 0,
    {
        let desired = self.desired_delta();
        let ghost d = desired;
        let ghost cn = views(desired.create_nodes@);
        let ghost ce = views(desired.create_edges@);
        let mut out = GraphDelta::empty();
        let mut i: usize = 0;
        while i < desired.create_nodes.len()
            invariant
                i <= cn.len(),
                cn == views(desired.create_nodes@),
                views(out.create_nodes@) == crate::git_graph::nodes_by_presence(cn.take(i as int), graph.node_map(), false),
                views(out.update_nodes@) == nodes_changed(cn.take(i as int), graph.node_map()),
                out.create_edges@.len() == 0,
                out.update_edges@.len() == 0,
                out.delete_nodes@.len() == 0,
                out.delete_edges@.len() == 0,
            decreases cn.len() - i,
        {
            let n = desired.create_nodes[i].duplicate();
            assert(n@ == cn[i as int]);
            assert(cn.take(i + 1).drop_last() =~= cn.take(i as int));
            match graph.node(n.id.as_str()) {
                Some(existing) => {
                    if !existing.same(&n) {
                        let ghost b = views(out.update_nodes@);
                        out.update_nodes.push(n);
                        assert(views(out.update_nodes@) =~= b.push(cn[i as int]));
                    }
                },
                None => {
                    let ghost b = views(out.create_nodes@);
                    out.create_nodes.push(n);
                    assert(views(out.create_nodes@) =~= b.push(cn[i as int]));
                },
            }
            i = i + 1;
        }
        assert(cn.take(cn.len() as int) =~= cn);
        let mut i: usize = 0;
        while i < desired.create_edges.len()
            invariant
                i <= ce.len(),
                ce == views(desired.create_edges@),
                views(out.create_nodes@) == crate::git_graph::nodes_by_presence(cn, graph.node_map(), false),
                views(out.update_nodes@) == nodes_changed(cn, graph.node_map()),
                views(out.create_edges@) == edges_by_presence(ce.take(i as int), graph.edge_map(), false),
                out.update_edges@.len() == 0,
                out.delete_nodes@.len() == 0,
                out.delete_edges@.len() == 0,
            decreases ce.len() - i,
        {
            let e = desired.create_edges[i].duplicate();
            assert(e@ == ce[i as int]);
            assert(ce.take(i + 1).drop_last() =~= ce.take(i as int));
            if graph.edge(e.id.as_str()).is_none() {
                let ghost b = views(out.create_edges@);
                out.create_edges.push(e);
                assert(views(out.create_edges@) =~= b.push(ce[i as int]));
            }
            i = i + 1;
        }
        assert(ce.take(ce.len() as int) =~= ce);
        out
    }
}


// ------------------------------------------------------------ baseline

/// A summary ordered by its name.
pub trait ByName: View + Sized {
    spec fn view_name(v: Self::V) -> Seq<char>;

    fn name_ref(&self) -> (r: &String)
        ensures
            r@ == Self::view_name(self@),
    ;
}

/// `x` placed into `s` after every element whose name is not after its own:
/// one step of a stable sort by name.
pub open spec fn ins_by_name<T: ByName>(s: Seq<T::V>, x: T::V) -> Seq<T::V>
    decreases s.len(),
{
    if s.len() == 0 {
        seq![x]
    } else if seq_lt(T::view_name(x), T::view_name(s.last())) {
        ins_by_name::<T>(s.drop_last(), x).push(s.last())
    } else {
        s.push(x)
    }
}

/// `s` sorted by name, elements of equal name kept in their order.
pub open spec fn sort_by_name<T: ByName>(s: Seq<T::V>) -> Seq<T::V>
    decreases s.len(),
{
    if s.len() == 0 {
        Seq::empty()
    } else {
        ins_by_name::<T>(sort_by_name::<T>(s.drop_last()), s.last())
    }
}

proof fn lemma_ins_at<T: ByName>(s: Seq<T::V>, x: T::V, k: int)
    requires
        0 <= k <= s.len(),
        forall|j: int| k <= j < s.len() ==> seq_lt(T::view_name(x), T::view_name(#[trigger] s[j])),
        k == 0 || !seq_lt(T::view_name(x), T::view_name(s[k - 1])),
    ensures
        ins_by_name::<T>(s, x) == s.take(k).push(x) + s.skip(k),
    decreases s.len(),
{
    if s.len() == 0 {
        assert(s.take(k).push(x) + s.skip(k) =~= seq![x]);
    } else if k == s.len() {
        assert(s.take(k).push(x) + s.skip(k) =~= s.push(x));
    } else {
        assert(seq_lt(T::view_name(x), T::view_name(s[s.len() - 1])));
        let d = s.drop_last();
        assert forall|j: int| k <= j < d.len() implies seq_lt(T::view_name(x), T::view_name(#[trigger] d[j])) by {
            assert(d[j] == s[j]);
        }
        lemma_ins_at::<T>(d, x, k);
        assert(d.take(k).push(x) + d.skip(k) + seq![s.last()] =~= s.take(k).push(x) + s.skip(k));
    }
}

fn insert_by_name<T: ByName>(v: &mut Vec<T>, x: T)
    ensures
        views(final(v)@) == ins_by_name::<T>(views(old(v)@), x@),
{
    let ghost s = views(v@);
    let xn = string_chars(x.name_ref());
    let mut k: usize = v.len();
    loop
        invariant
            k <= v@.len(),
            s == views(v@),
            xn@ == T::view_name(x@),
            forall|j: int| k <= j < s.len() ==> seq_lt(T::view_name(x@), T::view_name(#[trigger] s[j])),
        ensures
            k == 0 || !seq_lt(T::view_name(x@), T::view_name(s[k - 1])),
        decreases k,
    {
        if k == 0 {
            break;
        }
        assert(s[k - 1] == v@[k - 1]@);
        if !lt_chars(&xn, &string_chars(v[k - 1].name_ref())) {
            break;
        }
        k = k - 1;
    }
    proof {
        lemma_ins_at::<T>(s, x@, k as int);
    }
    let ghost xv = x@;
    v.insert(k, x);
    assert(views(v@) =~= s.take(k as int).push(xv) + s.skip(k as int));
}

pub(crate) fn stable_sort_by_name<T: ByName>(items: Vec<T>) -> (r: Vec<T>)
    ensures
        views(r@) == sort_by_name::<T>(views(items@)),
{
    let ghost s = views(items@);
    let ghost all = items@;
    let n0 = items.len();
    let mut items = items;
    let mut out: Vec<T> = Vec::new();
    assert(views(out@) =~= sort_by_name::<T>(s.take(0)));
    let mut i: usize = 0;
    while items.len() > 0
        invariant
            i + items@.len() == all.len(),
            all.len() == n0,
            s == views(all),
            items@ == all.skip(i as int),
            views(out@) == sort_by_name::<T>(s.take(i as int)),
        decreases items@.len(),
    {
        let x = items.remove(0);
        assert(x == all[i as int]);
        insert_by_name(&mut out, x);
        assert(s.take(i + 1).drop_last() =~= s.take(i as int));
        assert(s.take(i + 1).last() == s[i as int]);
        assert(items@ =~= all.skip(i + 1));
        i = i + 1;
    }
    assert(s.take(all.len() as int) =~= s);
    out
}


pub struct InterfaceSummaryV {
    pub interface_node_id: Seq<char>,
    pub name: Seq<char>,
    pub visibility: Option<Seq<char>>,
    pub surface: Option<Seq<char>>,
}

pub struct ModuleSummaryV {
    pub module_node_id: Seq<char>,
    pub name: Seq<char>,
    pub purpose: Option<Seq<char>>,
    pub layer: Option<Seq<char>>,
    pub package: Option<Seq<char>>,
    pub capabilities: Seq<Seq<char>>,
    pub interfaces: Seq<InterfaceSummaryV>,
}

impl View for InterfaceSummary {
    type V = InterfaceSummaryV;

    open spec fn view(&self) -> InterfaceSummaryV {
        InterfaceSummaryV {
            interface_node_id: self.interface_node_id@,
            name: self.name@,
            visibility: opt_string_view(self.visibility),
            surface: opt_string_view(self.surface),
        }
    }
}

impl ByName for InterfaceSummary {
    open spec fn view_name(v: InterfaceSummaryV) -> Seq<char> {
        v.name
    }

    fn name_ref(&self) -> (r: &String) {
        &self.name
    }
}

impl View for ModuleSummary {
    type V = ModuleSummaryV;

    open spec fn view(&self) -> ModuleSummaryV {
        ModuleSummaryV {
            module_node_id: self.module_node_id@,
            name: self.name@,
            purpose: opt_string_view(self.purpose),
            layer: opt_string_view(self.layer),
            package: opt_string_view(self.package),
            capabilities: strings_view(self.capabilities@),
            interfaces: views(self.interfaces@),
        }
    }
}

impl ByName for ModuleSummary {
    open spec fn view_name(v: ModuleSummaryV) -> Seq<char> {
        v.name
    }

    fn name_ref(&self) -> (r: &String) {
        &self.name
    }
}

/// A node's `name` attribute, or its id where it has none.
pub open spec fn node_name(n: NodeV) -> Seq<char> {
    match attr_text(n.attributes, "name"@) {
        Some(t) => t,
        None => n.id,
    }
}

pub(crate) fn node_name_of(n: &Node) -> (r: String)
    ensures
        r@ == node_name(n@),
{
    match fields_text(&n.attributes, "name") {
        Some(t) => t,
        None => n.id.clone(),
    }
}

/// Edge `j` goes from `from` with type `et` to a node of type `tt`.
pub open spec fn edge_to_type(
    nm: Map<Seq<char>, NodeV>,
    es: Seq<EdgeV>,
    j: int,
    from: Seq<char>,
    et: Seq<char>,
    tt: Seq<char>,
) -> bool {
    es[j].from == from && es[j].edge_type == et && nm.contains_key(es[j].to) && nm[es[j].to].node_type == tt
}

/// The names of the `tt` nodes that `et` edges from `from` reach, in edge
/// order.
pub open spec fn named_targets(
    nm: Map<Seq<char>, NodeV>,
    es: Seq<EdgeV>,
    from: Seq<char>,
    et: Seq<char>,
    tt: Seq<char>,
) -> Seq<Seq<char>>
    decreases es.len(),
{
    if es.len() == 0 {
        Seq::empty()
    } else if edge_to_type(nm, es, es.len() - 1, from, et, tt) {
        named_targets(nm, es.drop_last(), from, et, tt).push(node_name(nm[es.last().to]))
    } else {
        named_targets(nm, es.drop_last(), from, et, tt)
    }
}

pub open spec fn interface_summary_of(n: NodeV) -> InterfaceSummaryV {
    InterfaceSummaryV {
        interface_node_id: n.id,
        name: node_name(n),
        visibility: attr_text(n.attributes, "visibility"@),
        surface: attr_text(n.attributes, "surface"@),
    }
}

/// The public interfaces that a module exposes, in edge order.
pub open spec fn exposed_interfaces(nm: Map<Seq<char>, NodeV>, es: Seq<EdgeV>, from: Seq<char>) -> Seq<
    InterfaceSummaryV,
>
    decreases es.len(),
{
    if es.len() == 0 {
        Seq::empty()
    } else if edge_to_type(nm, es, es.len() - 1, from, "EXPOSES_INTERFACE"@, "PublicInterface"@) {
        exposed_interfaces(nm, es.drop_last(), from).push(interface_summary_of(nm[es.last().to]))
    } else {
        exposed_interfaces(nm, es.drop_last(), from)
    }
}

pub open spec fn first_or(s: Seq<Seq<char>>, fallback: Option<Seq<char>>) -> Option<Seq<char>> {
    if s.len() > 0 {
        Some(s[0])
    } else {
        fallback
    }
}

/// A module as the graph describes it: its layer and package by their first
/// linked node (else its own attributes), its capabilities sorted without
/// repeats, its interfaces sorted by name.
pub open spec fn module_summary_of(nm: Map<Seq<char>, NodeV>, es: Seq<EdgeV>, m: NodeV) -> ModuleSummaryV {
    ModuleSummaryV {
        module_node_id: m.id,
        name: node_name(m),
        purpose: attr_text(m.attributes, "purpose"@),
        layer: first_or(named_targets(nm, es, m.id, "IN_LAYER"@, "Layer"@), attr_text(m.attributes, "layer"@)),
        package: first_or(
            named_targets(nm, es, m.id, "PACKAGE_IN_MODULE"@, "Package"@),
            attr_text(m.attributes, "package"@),
        ),
        capabilities: sorted_list(named_targets(nm, es, m.id, "HAS_CAPABILITY"@, "Capability"@).to_set()),
        interfaces: sort_by_name::<InterfaceSummary>(exposed_interfaces(nm, es, m.id)),
    }
}

/// The summaries of the modules a project links with `HAS_MODULE`, in edge
/// order.
pub open spec fn linked_summaries(nm: Map<Seq<char>, NodeV>, es: Seq<EdgeV>, all: Seq<EdgeV>, project: Seq<char>) -> Seq<
    ModuleSummaryV,
>
    decreases es.len(),
{
    if es.len() == 0 {
        Seq::empty()
    } else if edge_to_type(nm, es, es.len() - 1, project, "HAS_MODULE"@, "Module"@) {
        linked_summaries(nm, es.drop_last(), all, project).push(module_summary_of(nm, all, nm[es.last().to]))
    } else {
        linked_summaries(nm, es.drop_last(), all, project)
    }
}

fn named_targets_of(graph: &Graph, from: &String, et: &str, tt: &str) -> (r: Vec<String>)
    ensures
        strings_view(r@) == named_targets(graph.node_map(), graph.edge_seq(), from@, et@, tt@),
{
    let edges = graph.edges();
    let ghost es = views(edges@);
    let ghost nm = graph.node_map();
    let fc = string_chars(from);
    let mut out: Vec<String> = Vec::new();
    assert(strings_view(out@) =~= named_targets(nm, es.take(0), from@, et@, tt@));
    let mut i: usize = 0;
    while i < edges.len()
        invariant
            i <= edges@.len(),
            es == views(edges@),
            es == graph.edge_seq(),
            nm == graph.node_map(),
            fc@ == from@,
            strings_view(out@) == named_targets(nm, es.take(i as int), from@, et@, tt@),
        decreases edges@.len() - i,
    {
        let e = &edges[i];
        assert(es[i as int] == e@);
        let ghost t = es.take(i + 1);
        assert(t.drop_last() =~= es.take(i as int));
        assert(t.last() == e@);
        assert(edge_to_type(nm, t, t.len() - 1, from@, et@, tt@) == edge_to_type(nm, es, i as int, from@, et@, tt@));
        if eq_chars(&string_chars(&e.from), &fc) && eq_str(&string_chars(&e.edge_type), et) {
            match graph.node(e.to.as_str()) {
                Some(n) => {
                    if eq_str(&string_chars(&n.node_type), tt) {
                        let ghost o = strings_view(out@);
                        out.push(node_name_of(n));
                        assert(strings_view(out@) =~= o.push(node_name(nm[e.to@])));
                    }
                },
                None => {},
            }
        }
        i = i + 1;
    }
    assert(es.take(es.len() as int) =~= es);
    out
}

fn interfaces_of(graph: &Graph, from: &String) -> (r: Vec<InterfaceSummary>)
    ensures
        views(r@) == exposed_interfaces(graph.node_map(), graph.edge_seq(), from@),
{
    let edges = graph.edges();
    let ghost es = views(edges@);
    let ghost nm = graph.node_map();
    let fc = string_chars(from);
    let mut out: Vec<InterfaceSummary> = Vec::new();
    assert(views(out@) =~= exposed_interfaces(nm, es.take(0), from@));
    let mut i: usize = 0;
    while i < edges.len()
        invariant
            i <= edges@.len(),
            es == views(edges@),
            es == graph.edge_seq(),
            nm == graph.node_map(),
            fc@ == from@,
            views(out@) == exposed_interfaces(nm, es.take(i as int), from@),
        decreases edges@.len() - i,
    {
        let e = &edges[i];
        assert(es[i as int] == e@);
        let ghost t = es.take(i + 1);
        assert(t.drop_last() =~= es.take(i as int));
        assert(t.last() == e@);
        assert(edge_to_type(nm, t, t.len() - 1, from@, "EXPOSES_INTERFACE"@, "PublicInterface"@) == edge_to_type(
            nm,
            es,
            i as int,
            from@,
            "EXPOSES_INTERFACE"@,
            "PublicInterface"@,
        ));
        if eq_chars(&string_chars(&e.from), &fc) && eq_str(&string_chars(&e.edge_type), "EXPOSES_INTERFACE") {
            match graph.node(e.to.as_str()) {
                Some(n) => {
                    if eq_str(&string_chars(&n.node_type), "PublicInterface") {
                        let ghost o = views(out@);
                        out.push(
                            InterfaceSummary {
                                interface_node_id: n.id.clone(),
                                name: node_name_of(n),
                                visibility: fields_text(&n.attributes, "visibility"),
                                surface: fields_text(&n.attributes, "surface"),
                            },
                        );
                        assert(views(out@) =~= o.push(interface_summary_of(nm[e.to@])));
                    }
                },
                None => {},
            }
        }
        i = i + 1;
    }
    assert(es.take(es.len() as int) =~= es);
    out
}

fn first_or_exec(s: &Vec<String>, fallback: Option<String>) -> (r: Option<String>)
    ensures
        opt_string_view(r) == first_or(strings_view(s@), opt_string_view(fallback)),
{
    if s.len() > 0 {
        Some(s[0].clone())
    } else {
        fallback
    }
}

fn sorted_unique(s: &Vec<String>) -> (r: Vec<String>)
    ensures
        strings_view(r@) == sorted_list(strings_view(s@).to_set()),
{
    let ghost sv = strings_view(s@);
    let mut out: Vec<String> = Vec::new();
    assert(strings_view(out@).to_set() =~= sv.take(0).to_set());
    let mut i: usize = 0;
    while i < s.len()
        invariant
            i <= s@.len(),
            sv == strings_view(s@),
            sorted_strict(strings_view(out@)),
            strings_view(out@).to_set() == sv.take(i as int).to_set(),
        decreases s@.len() - i,
    {
        sorted_insert(&mut out, s[i].clone());
        assert(sv.take(i + 1) =~= sv.take(i as int).push(sv[i as int]));
        proof {
            sv.take(i as int).lemma_push_to_set_commute(sv[i as int]);
        }
        i = i + 1;
    }
    assert(sv.take(sv.len() as int) =~= sv);
    proof {
        lemma_sorted_list(strings_view(out@));
    }
    out
}

fn module_summary(graph: &Graph, m: &Node) -> (r: ModuleSummary)
    ensures
        r@ == module_summary_of(graph.node_map(), graph.edge_seq(), m@),
{
    let layers = named_targets_of(graph, &m.id, "IN_LAYER", "Layer");
    let packages = named_targets_of(graph, &m.id, "PACKAGE_IN_MODULE", "Package");
    let caps = named_targets_of(graph, &m.id, "HAS_CAPABILITY", "Capability");
    let interfaces = stable_sort_by_name(interfaces_of(graph, &m.id));
    ModuleSummary {
        module_node_id: m.id.clone(),
        name: node_name_of(m),
        purpose: fields_text(&m.attributes, "purpose"),
        layer: first_or_exec(&layers, fields_text(&m.attributes, "layer")),
        package: first_or_exec(&packages, fields_text(&m.attributes, "package")),
        capabilities: sorted_unique(&caps),
        interfaces,
    }
}

/// The summaries of the modules that `project_id` links with `HAS_MODULE`,
/// in edge order.
pub fn linked_modules(graph: &Graph, project_id: &str) -> (r: Vec<ModuleSummary>)
    ensures
        views(r@) == linked_summaries(graph.node_map(), graph.edge_seq(), graph.edge_seq(), project_id@),
{
    let edges = graph.edges();
    let ghost es = views(edges@);
    let ghost nm = graph.node_map();
    let pc = chars_of(project_id);
    let mut out: Vec<ModuleSummary> = Vec::new();
    assert(views(out@) =~= linked_summaries(nm, es.take(0), es, project_id@));
    let mut i: usize = 0;
    while i < edges.len()
        invariant
            i <= edges@.len(),
            es == views(edges@),
            es == graph.edge_seq(),
            nm == graph.node_map(),
            pc@ == project_id@,
            views(out@) == linked_summaries(nm, es.take(i as int), es, project_id@),
        decreases edges@.len() - i,
    {
        let e = &edges[i];
        assert(es[i as int] == e@);
        let ghost t = es.take(i + 1);
        assert(t.drop_last() =~= es.take(i as int));
        assert(t.last() == e@);
        assert(edge_to_type(nm, t, t.len() - 1, project_id@, "HAS_MODULE"@, "Module"@) == edge_to_type(
            nm,
            es,
            i as int,
            project_id@,
            "HAS_MODULE"@,
            "Module"@,
        ));
        if eq_chars(&string_chars(&e.from), &pc) && eq_str(&string_chars(&e.edge_type), "HAS_MODULE") {
            match graph.node(e.to.as_str()) {
                Some(n) => {
                    if eq_str(&string_chars(&n.node_type), "Module") {
                        let ghost o = views(out@);
                        out.push(module_summary(graph, n));
                        assert(views(out@) =~= o.push(module_summary_of(nm, es, nm[e.to@])));
                    }
                },
                None => {},
            }
        }
        i = i + 1;
    }
    assert(es.take(es.len() as int) =~= es);
    out
}


/// Empty, or nothing but whitespace, where absent values count as empty.
pub open spec fn opt_blank(o: Option<Seq<char>>) -> bool {
    match o {
        Some(t) => blank(t),
        None => true,
    }
}

pub open spec fn when(c: bool, item: Seq<char>) -> Seq<Seq<char>> {
    if c {
        seq![item]
    } else {
        Seq::empty()
    }
}

pub open spec fn interface_missing(label: Seq<char>, i: InterfaceSummaryV) -> Seq<Seq<char>> {
    let pre = "module:"@ + label + ":interface:"@ + stable_view(i.name);
    when(blank(i.name), pre + ":name"@) + when(opt_blank(i.visibility), pre + ":visibility"@) + when(
        opt_blank(i.surface),
        pre + ":surface"@,
    )
}

pub open spec fn interfaces_missing(label: Seq<char>, is: Seq<InterfaceSummaryV>) -> Seq<Seq<char>>
    decreases is.len(),
{
    if is.len() == 0 {
        Seq::empty()
    } else {
        interfaces_missing(label, is.drop_last()) + interface_missing(label, is.last())
    }
}

/// What a module lacks for the baseline: a name, a purpose, a layer, a
/// package, a capability, and what each interface lacks.
pub open spec fn module_missing(m: ModuleSummaryV) -> Seq<Seq<char>> {
    let label = stable_view(m.name);
    let pre = "module:"@ + label;
    when(blank(m.name), pre + ":name"@) + when(opt_blank(m.purpose), pre + ":purpose"@) + when(
        opt_blank(m.layer),
        pre + ":IN_LAYER"@,
    ) + when(opt_blank(m.package), pre + ":PACKAGE_IN_MODULE"@) + when(
        m.capabilities.len() == 0,
        pre + ":HAS_CAPABILITY"@,
    ) + interfaces_missing(label, m.interfaces)
}

pub open spec fn modules_missing(ms: Seq<ModuleSummaryV>) -> Seq<Seq<char>>
    decreases ms.len(),
{
    if ms.len() == 0 {
        Seq::empty()
    } else {
        modules_missing(ms.drop_last()) + module_missing(ms.last())
    }
}

pub open spec fn baseline_missing(ms: Seq<ModuleSummaryV>) -> Seq<Seq<char>> {
    when(ms.len() == 0, "HAS_MODULE"@) + modules_missing(ms)
}

pub open spec fn baseline_message(missing: Seq<Seq<char>>) -> Seq<char> {
    "Spec authoring requires a complete ModuleGraph baseline. Missing: "@ + joined(missing, ", "@) + "."@
}

/// The first node of a type, in id order.
pub open spec fn first_of_type(ns: Seq<NodeV>, t: Seq<char>) -> Option<NodeV>
    decreases ns.len(),
{
    if ns.len() == 0 {
        None
    } else if ns[0].node_type == t {
        Some(ns[0])
    } else {
        first_of_type(ns.drop_first(), t)
    }
}

/// The project's modules, sorted by name, as the baseline reads them.
pub open spec fn baseline_modules(g_nm: Map<Seq<char>, NodeV>, es: Seq<EdgeV>, project: Seq<char>) -> Seq<ModuleSummaryV> {
    sort_by_name::<ModuleSummary>(linked_summaries(g_nm, es, es, project))
}

pub(crate) fn first_node_of_type<'a>(graph: &'a Graph, t: &str) -> (r: Option<&'a Node>)
    ensures
        match r {
            Some(n) => first_of_type(graph.node_seq(), t@) == Some(n@),
            None => first_of_type(graph.node_seq(), t@) is None,
        },
{
    let nodes = graph.nodes();
    let ghost ns = views(nodes@);
    let mut i: usize = 0;
    assert(ns.skip(0) =~= ns);
    while i < nodes.len()
        invariant
            i <= nodes@.len(),
            ns == views(nodes@),
            ns == graph.node_seq(),
            first_of_type(ns, t@) == first_of_type(ns.skip(i as int), t@),
        decreases nodes@.len() - i,
    {
        assert(ns.skip(i as int)[0] == ns[i as int]);
        assert(ns[i as int] == nodes@[i as int]@);
        assert(ns.skip(i as int).drop_first() =~= ns.skip(i + 1));
        if eq_str(&string_chars(&nodes[i].node_type), t) {
            return Some(&nodes[i]);
        }
        i = i + 1;
    }
    None
}

fn push_when(out: &mut Vec<String>, c: bool, pre: &Vec<char>, suffix: &str)
    ensures
        strings_view(final(out)@) == strings_view(old(out)@) + when(c, pre@ + suffix@),
{
    let ghost o = strings_view(out@);
    if c {
        let mut t = pre.clone();
        append_str(&mut t, suffix);
        out.push(string_of(&t));
        assert(strings_view(out@) =~= o + seq![pre@ + suffix@]);
    } else {
        assert(strings_view(out@) =~= o + Seq::<Seq<char>>::empty());
    }
}

fn opt_is_blank(o: &Option<String>) -> (r: bool)
    ensures
        r == opt_blank(opt_string_view(*o)),
{
    match o {
        Some(t) => is_blank_string(t),
        None => true,
    }
}

fn push_interfaces_missing(out: &mut Vec<String>, label: &Vec<char>, interfaces: &Vec<InterfaceSummary>)
    ensures
        strings_view(final(out)@) == strings_view(old(out)@) + interfaces_missing(label@, views(interfaces@)),
{
    let ghost o1 = strings_view(out@);
    let ghost is = views(interfaces@);
    let mut k: usize = 0;
    while k < interfaces.len()
        invariant
            k <= is.len(),
            is == views(interfaces@),
            strings_view(out@) == o1 + interfaces_missing(label@, is.take(k as int)),
        decreases is.len() - k,
    {
        let i = &interfaces[k];
        assert(is[k as int] == i@);
        let ghost o2 = strings_view(out@);
        let mut ipre = chars_of("module:");
        append(&mut ipre, &label);
        append_str(&mut ipre, ":interface:");
        append(&mut ipre, &string_chars(&stable(i.name.as_str())));
        push_when(out, is_blank_string(&i.name), &ipre, ":name");
        push_when(out, opt_is_blank(&i.visibility), &ipre, ":visibility");
        push_when(out, opt_is_blank(&i.surface), &ipre, ":surface");
        assert(is.take(k + 1).drop_last() =~= is.take(k as int));
        assert(strings_view(out@) =~= o2 + interface_missing(label@, i@));
        k = k + 1;
    }
    assert(is.take(is.len() as int) =~= is);
    assert(strings_view(out@) =~= o1 + interfaces_missing(label@, is));
}

fn push_module_missing(out: &mut Vec<String>, m: &ModuleSummary)
    ensures
        strings_view(final(out)@) == strings_view(old(out)@) + module_missing(m@),
{
    let ghost o = strings_view(out@);
    let label = string_chars(&stable(m.name.as_str()));
    let mut pre = chars_of("module:");
    append(&mut pre, &label);
    push_when(out, is_blank_string(&m.name), &pre, ":name");
    push_when(out, opt_is_blank(&m.purpose), &pre, ":purpose");
    push_when(out, opt_is_blank(&m.layer), &pre, ":IN_LAYER");
    push_when(out, opt_is_blank(&m.package), &pre, ":PACKAGE_IN_MODULE");
    push_when(out, m.capabilities.len() == 0, &pre, ":HAS_CAPABILITY");
    push_interfaces_missing(out, &label, &m.interfaces);
    assert(strings_view(out@) =~= o + module_missing(m@));
}

fn baseline_finding(project: Option<&String>, missing: &Vec<String>) -> (f: Finding)
    ensures
        crate::model::finding_full(f) == (
            "module.baseline_incomplete"@,
            FindingSeverity::Error,
            baseline_message(strings_view(missing@)),
            match project {
                Some(p) => seq![p@],
                None => Seq::<Seq<char>>::empty(),
            },
            Seq::<Seq<char>>::empty(),
        ),
{
    let mut m = chars_of("Spec authoring requires a complete ModuleGraph baseline. Missing: ");
    append(&mut m, &join_strings(missing, ", "));
    append_str(&mut m, ".");
    let related = match project {
        Some(p) => crate::git_graph::one_id(p),
        None => crate::git_graph::no_ids(),
    };
    Finding {
        code: String::from_str("module.baseline_incomplete"),
        severity: FindingSeverity::Error,
        message: string_of(&m),
        related_nodes: related,
        related_edges: crate::git_graph::no_ids(),
    }
}

/// Whether the graph holds a complete module baseline for spec authoring:
/// a Project, at least one module linked to it, and for each module (sorted
/// by name) a name, purpose, layer, package, capability and complete
/// interfaces. Each gap is listed; any gap makes one finding.
pub fn validate_module_baseline(graph: &Graph) -> (r: ModuleBaselineReport)
    ensures
        match first_of_type(graph.node_seq(), "Project"@) {
            None => {
                &&& r.project_node_id is None
                &&& !r.complete
                &&& r.module_count == 0
                &&& strings_view(r.missing@) == seq!["Project"@]
                &&& r.modules@.len() == 0
                &&& crate::model::findings_full(r.findings@) == seq![
                    (
                        "module.baseline_incomplete"@,
                        FindingSeverity::Error,
                        baseline_message(seq!["Project"@]),
                        Seq::<Seq<char>>::empty(),
                        Seq::<Seq<char>>::empty(),
                    ),
                ]
            },
            Some(p) => {
                let ms = baseline_modules(graph.node_map(), graph.edge_seq(), p.id);
                let miss = baseline_missing(ms);
                &&& opt_string_view(r.project_node_id) == Some(p.id)
                &&& r.complete == (miss.len() == 0)
                &&& r.module_count == ms.len()
                &&& views(r.modules@) == ms
                &&& strings_view(r.missing@) == miss
                &&& crate::model::findings_full(r.findings@) == if miss.len() == 0 {
                    Seq::empty()
                } else {
                    seq![
                        (
                            "module.baseline_incomplete"@,
                            FindingSeverity::Error,
                            baseline_message(miss),
                            seq![p.id],
                            Seq::<Seq<char>>::empty(),
                        ),
                    ]
                }
            },
        },
{
    match first_node_of_type(graph, "Project") {
        None => {
            let mut missing: Vec<String> = Vec::new();
            missing.push(String::from_str("Project"));
            assert(strings_view(missing@) =~= seq!["Project"@]);
            let f = baseline_finding(None, &missing);
            let mut findings: Vec<Finding> = Vec::new();
            findings.push(f);
            assert(crate::model::findings_full(findings@) =~= seq![crate::model::finding_full(f)]);
            ModuleBaselineReport {
                project_node_id: None,
                complete: false,
                module_count: 0,
                missing,
                modules: Vec::new(),
                findings,
            }
        },
        Some(project) => {
            let modules = stable_sort_by_name(linked_modules(graph, project.id.as_str()));
            let ghost ms = views(modules@);
            let mut missing: Vec<String> = Vec::new();
            if modules.len() == 0 {
                missing.push(String::from_str("HAS_MODULE"));
            }
            assert(strings_view(missing@) =~= when(ms.len() == 0, "HAS_MODULE"@) + modules_missing(ms.take(0)));
            let ghost m0 = when(ms.len() == 0, "HAS_MODULE"@);
            let mut i: usize = 0;
            while i < modules.len()
                invariant
                    i <= modules@.len(),
                    ms == views(modules@),
                    strings_view(missing@) == m0 + modules_missing(ms.take(i as int)),
                decreases modules@.len() - i,
            {
                let ghost o = strings_view(missing@);
                push_module_missing(&mut missing, &modules[i]);
                assert(ms[i as int] == modules@[i as int]@);
                assert(ms.take(i + 1).drop_last() =~= ms.take(i as int));
                assert(strings_view(missing@) =~= m0 + modules_missing(ms.take(i + 1)));
                i = i + 1;
            }
            assert(ms.take(ms.len() as int) =~= ms);
            let complete = missing.len() == 0;
            let mut findings: Vec<Finding> = Vec::new();
            if !complete {
                let f = baseline_finding(Some(&project.id), &missing);
                findings.push(f);
                assert(crate::model::findings_full(findings@) =~= seq![crate::model::finding_full(f)]);
            } else {
                assert(crate::model::findings_full(findings@) =~= Seq::empty());
            }
            ModuleBaselineReport {
                project_node_id: Some(project.id.clone()),
                complete,
                module_count: modules.len(),
                missing,
                modules,
                findings,
            }
        },
    }
}


/// The first Module node (in id order) that goes by `name`.
pub open spec fn first_named_module(ns: Seq<NodeV>, name: Seq<char>) -> Option<NodeV>
    decreases ns.len(),
{
    if ns.len() == 0 {
        None
    } else if ns[0].node_type == "Module"@ && node_name(ns[0]) == name {
        Some(ns[0])
    } else {
        first_named_module(ns.drop_first(), name)
    }
}

pub open spec fn or_empty(o: Option<Seq<char>>) -> Seq<char> {
    match o {
        Some(t) => t,
        None => Seq::empty(),
    }
}

pub open spec fn interface_def_view(i: ModuleInterface) -> (Seq<char>, InterfaceVisibility, Seq<char>) {
    (i.name@, i.visibility, i.surface@)
}

/// An interface summary as a definition: only one with a known visibility
/// and a surface becomes one.
pub open spec fn interface_def(i: InterfaceSummaryV) -> Option<(Seq<char>, InterfaceVisibility, Seq<char>)> {
    match (i.visibility, i.surface) {
        (Some(v), Some(surface)) => if v == "public"@ {
            Some((i.name, InterfaceVisibility::Public, surface))
        } else if v == "private"@ {
            Some((i.name, InterfaceVisibility::Private, surface))
        } else {
            None
        },
        _ => None,
    }
}

pub open spec fn interface_defs(is: Seq<InterfaceSummaryV>) -> Seq<(Seq<char>, InterfaceVisibility, Seq<char>)>
    decreases is.len(),
{
    if is.len() == 0 {
        Seq::empty()
    } else {
        match interface_def(is.last()) {
            Some(d) => interface_defs(is.drop_last()).push(d),
            None => interface_defs(is.drop_last()),
        }
    }
}

fn first_module_named<'a>(graph: &'a Graph, name: &str) -> (r: Option<&'a Node>)
    ensures
        match r {
            Some(n) => first_named_module(graph.node_seq(), name@) == Some(n@),
            None => first_named_module(graph.node_seq(), name@) is None,
        },
{
    let nodes = graph.nodes();
    let ghost ns = views(nodes@);
    let nc = chars_of(name);
    let mut i: usize = 0;
    assert(ns.skip(0) =~= ns);
    while i < nodes.len()
        invariant
            i <= nodes@.len(),
            ns == views(nodes@),
            ns == graph.node_seq(),
            nc@ == name@,
            first_named_module(ns, name@) == first_named_module(ns.skip(i as int), name@),
        decreases nodes@.len() - i,
    {
        assert(ns.skip(i as int)[0] == ns[i as int]);
        assert(ns[i as int] == nodes@[i as int]@);
        assert(ns.skip(i as int).drop_first() =~= ns.skip(i + 1));
        let n = &nodes[i];
        if eq_str(&string_chars(&n.node_type), "Module") && eq_chars(&string_chars(&node_name_of(n)), &nc) {
            return Some(n);
        }
        i = i + 1;
    }
    None
}

fn opt_or_empty(o: Option<String>) -> (r: String)
    ensures
        r@ == or_empty(opt_string_view(o)),
{
    match o {
        Some(t) => t,
        None => String::new(),
    }
}

fn interface_definitions(interfaces: &Vec<InterfaceSummary>) -> (defs: Vec<ModuleInterface>)
    ensures
        defs@.map_values(|i: ModuleInterface| interface_def_view(i)) == interface_defs(views(interfaces@)),
{
    let ghost is = views(interfaces@);
    let mut defs: Vec<ModuleInterface> = Vec::new();
    let mut k: usize = 0;
    assert(defs@.map_values(|i: ModuleInterface| interface_def_view(i)) =~= interface_defs(is.take(0)));
    while k < interfaces.len()
        invariant
            k <= is.len(),
            is == views(interfaces@),
            defs@.map_values(|i: ModuleInterface| interface_def_view(i)) == interface_defs(is.take(k as int)),
        decreases is.len() - k,
    {
        let it = &interfaces[k];
        assert(is[k as int] == it@);
        assert(is.take(k + 1).drop_last() =~= is.take(k as int));
        assert(is.take(k + 1).last() == it@);
        let ghost before = defs@.map_values(|i: ModuleInterface| interface_def_view(i));
        match (&it.visibility, &it.surface) {
            (Some(v), Some(sf)) => {
                let vc = string_chars(v);
                let vis = if eq_str(&vc, "public") {
                    Some(InterfaceVisibility::Public)
                } else if eq_str(&vc, "private") {
                    Some(InterfaceVisibility::Private)
                } else {
                    None
                };
                match vis {
                    Some(vv) => {
                        let d = ModuleInterface { name: it.name.clone(), visibility: vv, surface: sf.clone() };
                        defs.push(d);
                        assert(defs@.map_values(|i: ModuleInterface| interface_def_view(i)) =~= before.push(
                            interface_def_view(d),
                        ));
                    },
                    None => {},
                }
            },
            _ => {},
        }
        k = k + 1;
    }
    assert(is.take(is.len() as int) =~= is);
    defs
}

/// The definition a module node and its links describe: the first Module
/// (in id order) that goes by `module_name`, with absent texts empty and only
/// the interfaces that have a known visibility and a surface.
pub fn module_definition_from_graph(graph: &Graph, module_name: &str) -> (r: Option<ModuleDefinition>)
    ensures
        r is Some == first_named_module(graph.node_seq(), module_name@) is Some,
        r is Some ==> ({
            let d = r->Some_0;
            let sv = module_summary_of(
                graph.node_map(),
                graph.edge_seq(),
                first_named_module(graph.node_seq(), module_name@)->Some_0,
            );
            &&& d.name@ == sv.name
            &&& d.purpose@ == or_empty(sv.purpose)
            &&& d.layer@ == or_empty(sv.layer)
            &&& d.package@ == or_empty(sv.package)
            &&& strings_view(d.capabilities@) == sv.capabilities
            &&& d.interfaces@.map_values(|i: ModuleInterface| interface_def_view(i)) == interface_defs(sv.interfaces)
        }),
{
    let m = match first_module_named(graph, module_name) {
        Some(m) => m,
        None => return None,
    };
    let summary = module_summary(graph, m);
    let ModuleSummary { module_node_id, name, purpose, layer, package, capabilities, interfaces } = summary;
    let defs = interface_definitions(&interfaces);
    Some(
        ModuleDefinition {
            name,
            purpose: opt_or_empty(purpose),
            layer: opt_or_empty(layer),
            package: opt_or_empty(package),
            capabilities,
            interfaces: defs,
        },
    )
}


// ------------------------------------------------------------ laws

proof fn lemma_present_unchanged(s: Seq<NodeV>, m: Map<Seq<char>, NodeV>)
    requires
        forall|i: int| 0 <= i < s.len() ==> m.contains_key((#[trigger] s[i]).id) && m[s[i].id] == s[i],
    ensures
        crate::git_graph::nodes_by_presence(s, m, false) == Seq::<NodeV>::empty(),
        nodes_changed(s, m) == Seq::<NodeV>::empty(),
    decreases s.len(),
{
    if s.len() > 0 {
        let d = s.drop_last();
        assert forall|i: int| 0 <= i < d.len() implies m.contains_key((#[trigger] d[i]).id) && m[d[i].id] == d[i] by {
            assert(d[i] == s[i]);
        }
        lemma_present_unchanged(d, m);
        assert(m.contains_key(s[s.len() - 1].id));
    }
}

proof fn lemma_edges_present(s: Seq<EdgeV>, m: Map<Seq<char>, EdgeV>)
    requires
        forall|i: int| 0 <= i < s.len() ==> m.contains_key((#[trigger] s[i]).id),
    ensures
        edges_by_presence(s, m, false) == Seq::<EdgeV>::empty(),
    decreases s.len(),
{
    if s.len() > 0 {
        let d = s.drop_last();
        assert forall|i: int| 0 <= i < d.len() implies m.contains_key((#[trigger] d[i]).id) by {
            assert(d[i] == s[i]);
        }
        lemma_edges_present(d, m);
        assert(m.contains_key(s[s.len() - 1].id));
    }
}

/// Each element of `b` is, under its key, what `insert_keyed` of `a` holds,
/// where both sorted lists have the same map.
proof fn lemma_reinserted<T: Keyed>(m: Map<Seq<char>, T::V>, a: Seq<T::V>, b: Seq<T::V>, i: int)
    requires
        keyed_sorted::<T>(a),
        keyed_sorted::<T>(b),
        keyed_map::<T>(a) == keyed_map::<T>(b),
        0 <= i < b.len(),
    ensures
        insert_keyed::<T>(m, a).contains_key(T::view_key(b[i])),
        insert_keyed::<T>(m, a)[T::view_key(b[i])] == b[i],
{
    let k = T::view_key(b[i]);
    lemma_keyed_map_at::<T>(b, i);
    assert(keyed_map::<T>(a).contains_key(k));
    let j = choose|j: int| 0 <= j < a.len() && T::view_key(#[trigger] a[j]) == k;
    lemma_keyed_map_at::<T>(a, j);
    assert forall|l: int| j < l < a.len() implies T::view_key(#[trigger] a[l]) != T::view_key(a[j]) by {
        if T::view_key(a[l]) == T::view_key(a[j]) {
            lemma_keyed_unique::<T>(a, j, l);
        }
    }
    lemma_insert_keyed_last::<T>(m, a, j);
}

/// Re-projecting modules onto a graph that their projection was applied to
/// changes nothing: no node or edge to create, no node to update.
pub proof fn module_reprojection_changes_nothing(
    p: ModuleGraphProjection,
    nodes: Map<Seq<char>, NodeV>,
    edges: Map<Seq<char>, EdgeV>,
    applied: GraphDelta,
    reprojected: GraphDelta,
)
    requires
        keyed_sorted::<Node>(views(applied.create_nodes@)),
        keyed_sorted::<Edge>(views(applied.create_edges@)),
        keyed_map::<Node>(views(applied.create_nodes@)) == first_wins::<Node>(Map::empty(), modules_nodes(p.modules@)),
        keyed_map::<Edge>(views(applied.create_edges@)) == first_wins::<Edge>(
            Map::empty(),
            modules_edges(p.project_node_id@, p.modules@),
        ),
        applied.update_nodes@.len() == 0,
        applied.delete_nodes@.len() == 0,
        applied.update_edges@.len() == 0,
        applied.delete_edges@.len() == 0,
        exists|d: GraphDelta|
            keyed_map::<Node>(views(d.create_nodes@)) == first_wins::<Node>(Map::empty(), modules_nodes(p.modules@))
            && keyed_map::<Edge>(views(d.create_edges@)) == first_wins::<Edge>(
                Map::empty(),
                modules_edges(p.project_node_id@, p.modules@),
            )
            && keyed_sorted::<Node>(views(d.create_nodes@))
            && keyed_sorted::<Edge>(views(d.create_edges@))
            && views(reprojected.create_nodes@) == crate::git_graph::nodes_by_presence(
                views(d.create_nodes@),
                delta_nodes(nodes, applied),
                false,
            )
            && views(reprojected.update_nodes@) == nodes_changed(views(d.create_nodes@), delta_nodes(nodes, applied))
            && views(reprojected.create_edges@) == edges_by_presence(
                views(d.create_edges@),
                delta_edges(edges, applied),
                false,
            ),
    ensures
        reprojected.create_nodes@.len() == 0,
        reprojected.update_nodes@.len() == 0,
        reprojected.create_edges@.len() == 0,
{
    let d = choose|d: GraphDelta|
        keyed_map::<Node>(views(d.create_nodes@)) == first_wins::<Node>(Map::empty(), modules_nodes(p.modules@))
            && keyed_map::<Edge>(views(d.create_edges@)) == first_wins::<Edge>(
            Map::empty(),
            modules_edges(p.project_node_id@, p.modules@),
        ) && keyed_sorted::<Node>(views(d.create_nodes@)) && keyed_sorted::<Edge>(views(d.create_edges@))
            && views(reprojected.create_nodes@) == crate::git_graph::nodes_by_presence(
            views(d.create_nodes@),
            delta_nodes(nodes, applied),
            false,
        ) && views(reprojected.update_nodes@) == nodes_changed(views(d.create_nodes@), delta_nodes(nodes, applied))
            && views(reprojected.create_edges@) == edges_by_presence(
            views(d.create_edges@),
            delta_edges(edges, applied),
            false,
        );
    let an = views(applied.create_nodes@);
    let ae = views(applied.create_edges@);
    let dn = views(d.create_nodes@);
    let de = views(d.create_edges@);
    assert(strings_view(applied.delete_nodes@) =~= Seq::<Seq<char>>::empty());
    assert(strings_view(applied.delete_edges@) =~= Seq::<Seq<char>>::empty());
    assert(views(applied.update_nodes@) =~= Seq::<NodeV>::empty());
    assert(views(applied.update_edges@) =~= Seq::<EdgeV>::empty());
    let nb = crate::model::remove_keys(nodes, strings_view(applied.delete_nodes@));
    let eb = crate::model::remove_keys(edges, strings_view(applied.delete_edges@));
    assert(delta_nodes(nodes, applied) == insert_keyed::<Node>(nb, an));
    assert(delta_edges(edges, applied) == insert_keyed::<Edge>(eb, ae));
    assert forall|i: int| 0 <= i < dn.len() implies delta_nodes(nodes, applied).contains_key((#[trigger] dn[i]).id)
        && delta_nodes(nodes, applied)[dn[i].id] == dn[i] by {
        lemma_reinserted::<Node>(nb, an, dn, i);
    }
    assert forall|i: int| 0 <= i < de.len() implies delta_edges(edges, applied).contains_key((#[trigger] de[i]).id) by {
        lemma_reinserted::<Edge>(eb, ae, de, i);
    }
    lemma_present_unchanged(dn, delta_nodes(nodes, applied));
    lemma_edges_present(de, delta_edges(edges, applied));
    assert(views(reprojected.create_nodes@).len() == 0);
    assert(views(reprojected.update_nodes@).len() == 0);
    assert(views(reprojected.create_edges@).len() == 0);
}

} // verus!
