//! Read-only queries over a graph.

use crate::impact::{ball, ball_exec, start_set, touching, touching_exec};
use crate::keyed::{Keyed, has_key, views};
use crate::model::{
    Edge, EdgeV, Graph, GraphDelta, JsonV, JsonValue, Node, NodeV, attr_lookup, insert_keyed, json_fields_view,
    json_view, lemma_json_fields_view,
};
use crate::text::{chars_of, contains_string, eq_chars, sorted_insert, sorted_list, sorted_strict, string_chars, strings_view, lemma_sorted_list};
use vstd::prelude::*;

verus! {

#[derive(Debug, Clone, Copy, PartialEq, Eq, Structural)]
pub enum QueryDirection {
    Incoming,
    Outgoing,
    Both,
}

#[derive(Debug, Clone, Copy, PartialEq, Eq, Structural)]
pub struct QueryLimits {
    pub max_depth: usize,
    pub max_nodes: usize,
    pub max_edges: usize,
}

impl Default for QueryLimits {
    fn default() -> (r: QueryLimits)
        ensures
            r.max_depth == 4,
            r.max_nodes == 1000,
            r.max_edges == 5000,
    {
        QueryLimits { max_depth: 4, max_nodes: 1000, max_edges: 5000 }
    }
}

#[derive(Debug, Clone, Copy, PartialEq, Eq, Structural)]
pub enum QueryLimitExceeded {
    Depth { requested: usize, max: usize },
    Nodes { max: usize },
    Edges { max: usize },
}

/// Queries over one graph.
#[derive(Debug, Clone, Copy)]
pub struct GraphQuery<'a> {
    graph: &'a Graph,
}

pub open spec fn node_refs(v: Seq<&Node>) -> Seq<NodeV> {
    v.map_values(|n: &Node| n@)
}

pub open spec fn edge_refs(v: Seq<&Edge>) -> Seq<EdgeV> {
    v.map_values(|e: &Edge| e@)
}

/// The nodes of `s` of type `ty`, in order.
pub open spec fn nodes_of_type(s: Seq<NodeV>, ty: Seq<char>) -> Seq<NodeV>
    decreases s.len(),
{
    if s.len() == 0 {
        Seq::empty()
    } else if s.last().node_type == ty {
        nodes_of_type(s.drop_last(), ty).push(s.last())
    } else {
        nodes_of_type(s.drop_last(), ty)
    }
}

pub open spec fn opt_ref_view(o: Option<&str>) -> Option<Seq<char>> {
    match o {
        Some(t) => Some(t@),
        None => None,
    }
}

/// An edge with the given ends and type, where each is named.
pub open spec fn edge_matches(e: EdgeV, from: Option<Seq<char>>, to: Option<Seq<char>>, ty: Option<Seq<char>>) -> bool {
    &&& (from matches Some(f) ==> e.from == f)
    &&& (to matches Some(t) ==> e.to == t)
    &&& (ty matches Some(t) ==> e.edge_type == t)
}

/// The edges of `s` that match, in order.
pub open spec fn edges_matching(s: Seq<EdgeV>, from: Option<Seq<char>>, to: Option<Seq<char>>, ty: Option<Seq<char>>) -> Seq<EdgeV>
    decreases s.len(),
{
    if s.len() == 0 {
        Seq::empty()
    } else if edge_matches(s.last(), from, to, ty) {
        edges_matching(s.drop_last(), from, to, ty).push(s.last())
    } else {
        edges_matching(s.drop_last(), from, to, ty)
    }
}

fn str_matches(s: &String, t: &str) -> (r: bool)
    ensures
        r == (s@ == t@),
{
    eq_chars(&string_chars(s), &chars_of(t))
}

impl<'a> GraphQuery<'a> {
    pub closed spec fn graph_view(&self) -> Graph {
        *self.graph
    }

    pub fn new(graph: &'a Graph) -> (q: Self)
        ensures
            q.graph_view() == *graph,
    {
        GraphQuery { graph }
    }

    /// The node with this id.
    pub fn get_node(&self, node_id: &str) -> (r: Option<&'a Node>)
        ensures
            match r {
                Some(n) => self.graph_view().node_map().contains_key(node_id@) && self.graph_view().node_map()[node_id@] == n@,
                None => !self.graph_view().node_map().contains_key(node_id@),
            },
    {
        self.graph.node(node_id)
    }

    /// The first node, in id order, with this stable key.
    pub fn get_node_by_stable_key(&self, stable_key: &str) -> (r: Option<&'a Node>)
        ensures
            match r {
                Some(n) => exists|i: int|
                    0 <= i < self.graph_view().node_seq().len() && self.graph_view().node_seq()[i] == n@
                        && n@.stable_key == stable_key@ && forall|j: int|
                        0 <= j < i ==> (#[trigger] self.graph_view().node_seq()[j]).stable_key != stable_key@,
                None => forall|j: int|
                    0 <= j < self.graph_view().node_seq().len() ==> (#[trigger] self.graph_view().node_seq()[j]).stable_key
                        != stable_key@,
            },
    {
        let nodes = self.graph.nodes();
        let ghost ns = views(nodes@);
        let mut i: usize = 0;
        while i < nodes.len()
            invariant
                i <= nodes@.len(),
                ns == views(nodes@),
                ns == self.graph_view().node_seq(),
                forall|j: int| 0 <= j < i ==> (#[trigger] ns[j]).stable_key != stable_key@,
            decreases nodes@.len() - i,
        {
            assert(ns[i as int] == nodes@[i as int]@);
            if str_matches(&nodes[i].stable_key, stable_key) {
                return Some(&nodes[i]);
            }
            i = i + 1;
        }
        None
    }

    /// The nodes of a type, in id order.
    pub fn nodes_by_type(&self, node_type: &str) -> (r: Vec<&'a Node>)
        ensures
            node_refs(r@) == nodes_of_type(self.graph_view().node_seq(), node_type@),
    {
        let nodes = self.graph.nodes();
        let ghost ns = views(nodes@);
        let mut out: Vec<&'a Node> = Vec::new();
        let mut i: usize = 0;
        while i < nodes.len()
            invariant
                i <= nodes@.len(),
                ns == views(nodes@),
                ns == self.graph_view().node_seq(),
                node_refs(out@) == nodes_of_type(ns.take(i as int), node_type@),
            decreases nodes@.len() - i,
        {
            assert(ns[i as int] == nodes@[i as int]@);
            assert(ns.take(i + 1).drop_last() =~= ns.take(i as int));
            if str_matches(&nodes[i].node_type, node_type) {
                let ghost b = node_refs(out@);
                out.push(&nodes[i]);
                assert(node_refs(out@) =~= b.push(ns[i as int]));
            }
            i = i + 1;
        }
        assert(ns.take(ns.len() as int) =~= ns);
        out
    }

    fn edges_filtered(&self, keep_from: Option<&str>, keep_to: Option<&str>, edge_type: Option<&str>) -> (r: Vec<&'a Edge>)
        ensures
            edge_refs(r@) == edges_matching(
                self.graph_view().edge_seq(),
                opt_ref_view(keep_from),
                opt_ref_view(keep_to),
                opt_ref_view(edge_type),
            ),
    {
        let ghost f = opt_ref_view(keep_from);
        let ghost t = opt_ref_view(keep_to);
        let ghost y = opt_ref_view(edge_type);
        let edges = self.graph.edges();
        let ghost es = views(edges@);
        let mut out: Vec<&'a Edge> = Vec::new();
        let mut i: usize = 0;
        while i < edges.len()
            invariant
                i <= edges@.len(),
                es == views(edges@),
                es == self.graph_view().edge_seq(),
                f == opt_ref_view(keep_from),
                t == opt_ref_view(keep_to),
                y == opt_ref_view(edge_type),
                edge_refs(out@) == edges_matching(es.take(i as int), f, t, y),
            decreases edges@.len() - i,
        {
            let e = &edges[i];
            assert(es[i as int] == e@);
            assert(es.take(i + 1).drop_last() =~= es.take(i as int));
            let ok_from = match keep_from {
                Some(x) => str_matches(&e.from, x),
                None => true,
            };
            let ok_to = match keep_to {
                Some(x) => str_matches(&e.to, x),
                None => true,
            };
            let ok_type = match edge_type {
                Some(x) => str_matches(&e.edge_type, x),
                None => true,
            };
            if ok_from && ok_to && ok_type {
                let ghost b = edge_refs(out@);
                out.push(e);
                assert(edge_refs(out@) =~= b.push(es[i as int]));
            }
            i = i + 1;
        }
        assert(es.take(es.len() as int) =~= es);
        out
    }

    /// The edges of a type, in id order.
    pub fn edges_by_type(&self, edge_type: &str) -> (r: Vec<&'a Edge>)
        ensures
            edge_refs(r@) == edges_matching(self.graph_view().edge_seq(), None, None, Some(edge_type@)),
    {
        self.edges_filtered(None, None, Some(edge_type))
    }

    /// The edges out of a node (of a type, where one is named), in id order.
    pub fn outgoing(&self, node_id: &str, edge_type: Option<&str>) -> (r: Vec<&'a Edge>)
        ensures
            edge_refs(r@) == edges_matching(self.graph_view().edge_seq(), Some(node_id@), None, opt_ref_view(edge_type)),
    {
        self.edges_filtered(Some(node_id), None, edge_type)
    }

    /// The edges into a node (of a type, where one is named), in id order.
    pub fn incoming(&self, node_id: &str, edge_type: Option<&str>) -> (r: Vec<&'a Edge>)
        ensures
            edge_refs(r@) == edges_matching(self.graph_view().edge_seq(), None, Some(node_id@), opt_ref_view(edge_type)),
    {
        self.edges_filtered(None, Some(node_id), edge_type)
    }
}

/// The ids one edge away from `id` in the direction asked (along edges of
/// type `ty`, where one is named).
pub open spec fn neighbor_ids(es: Seq<EdgeV>, id: Seq<char>, dir: QueryDirection, ty: Option<Seq<char>>) -> Set<Seq<char>> {
    Set::new(
        |n: Seq<char>|
            exists|i: int|
                0 <= i < es.len() && ((dir != QueryDirection::Incoming && edge_matches(#[trigger] es[i], Some(id), None, ty)
                    && es[i].to == n) || (dir != QueryDirection::Outgoing && edge_matches(es[i], None, Some(id), ty)
                    && es[i].from == n)),
    )
}

/// The nodes with the given ids, skipping ids without a node, in order.
pub open spec fn present_nodes(ids: Seq<Seq<char>>, nm: Map<Seq<char>, NodeV>) -> Seq<NodeV>
    decreases ids.len(),
{
    if ids.len() == 0 {
        Seq::empty()
    } else if nm.contains_key(ids.last()) {
        present_nodes(ids.drop_last(), nm).push(nm[ids.last()])
    } else {
        present_nodes(ids.drop_last(), nm)
    }
}

/// The ids reached from `cur` along one edge of type `et`.
pub open spec fn step(es: Seq<EdgeV>, cur: Set<Seq<char>>, et: Seq<char>) -> Set<Seq<char>> {
    Set::new(
        |n: Seq<char>|
            exists|i: int| 0 <= i < es.len() && cur.contains((#[trigger] es[i]).from) && es[i].edge_type == et && es[i].to == n,
    )
}

/// Following the pattern from `cur` ends at a node of the type asked.
pub open spec fn path_from(
    es: Seq<EdgeV>,
    nm: Map<Seq<char>, NodeV>,
    cur: Set<Seq<char>>,
    pattern: Seq<Seq<char>>,
    to_type: Option<Seq<char>>,
) -> bool
    decreases pattern.len(),
{
    if pattern.len() == 0 {
        exists|n: Seq<char>| cur.contains(n) && nm.contains_key(n) && (to_type matches Some(t) ==> nm[n].node_type == t)
    } else {
        path_from(es, nm, step(es, cur, pattern[0]), pattern.drop_first(), to_type)
    }
}

proof fn lemma_path_from_empty(es: Seq<EdgeV>, nm: Map<Seq<char>, NodeV>, cur: Set<Seq<char>>, pattern: Seq<Seq<char>>, to_type: Option<Seq<char>>)
    requires
        cur == Set::<Seq<char>>::empty(),
    ensures
        !path_from(es, nm, cur, pattern, to_type),
    decreases pattern.len(),
{
    if pattern.len() > 0 {
        assert(step(es, cur, pattern[0]) =~= Set::<Seq<char>>::empty());
        lemma_path_from_empty(es, nm, step(es, cur, pattern[0]), pattern.drop_first(), to_type);
    }
}

impl<'a> GraphQuery<'a> {
    /// The nodes one edge away in the direction asked, in id order, each once.
    pub fn neighbors(&self, node_id: &str, direction: QueryDirection, edge_type: Option<&str>) -> (r: Vec<&'a Node>)
        ensures
            node_refs(r@) == present_nodes(
                sorted_list(neighbor_ids(self.graph_view().edge_seq(), node_id@, direction, opt_ref_view(edge_type))),
                self.graph_view().node_map(),
            ),
    {
        let ghost ty = opt_ref_view(edge_type);
        let edges = self.graph.edges();
        let ghost es = views(edges@);
        let mut ids: Vec<String> = Vec::new();
        assert(strings_view(ids@).to_set() =~= Set::empty());
        let mut i: usize = 0;
        while i < edges.len()
            invariant
                i <= edges@.len(),
                es == views(edges@),
                es == self.graph_view().edge_seq(),
                ty == opt_ref_view(edge_type),
                sorted_strict(strings_view(ids@)),
                strings_view(ids@).to_set() == neighbor_ids(es.take(i as int), node_id@, direction, ty),
            decreases edges@.len() - i,
        {
            let e = &edges[i];
            assert(es[i as int] == e@);
            let ty_ok = match edge_type {
                Some(x) => str_matches(&e.edge_type, x),
                None => true,
            };
            if direction != QueryDirection::Incoming && ty_ok && str_matches(&e.from, node_id) {
                sorted_insert(&mut ids, e.to.clone());
            }
            if direction != QueryDirection::Outgoing && ty_ok && str_matches(&e.to, node_id) {
                sorted_insert(&mut ids, e.from.clone());
            }
            assert forall|x: Seq<char>| #[trigger] strings_view(ids@).to_set().contains(x) == neighbor_ids(
                es.take(i + 1),
                node_id@,
                direction,
                ty,
            ).contains(x) by {
                let t1 = es.take(i + 1);
                let t0 = es.take(i as int);
                if neighbor_ids(t0, node_id@, direction, ty).contains(x) {
                    let j = choose|j: int|
                        0 <= j < t0.len() && ((direction != QueryDirection::Incoming && edge_matches(#[trigger] t0[j], Some(node_id@), None, ty)
                            && t0[j].to == x) || (direction != QueryDirection::Outgoing && edge_matches(t0[j], None, Some(node_id@), ty)
                            && t0[j].from == x));
                    assert(t1[j] == t0[j]);
                }
                if neighbor_ids(t1, node_id@, direction, ty).contains(x) {
                    let j = choose|j: int|
                        0 <= j < t1.len() && ((direction != QueryDirection::Incoming && edge_matches(#[trigger] t1[j], Some(node_id@), None, ty)
                            && t1[j].to == x) || (direction != QueryDirection::Outgoing && edge_matches(t1[j], None, Some(node_id@), ty)
                            && t1[j].from == x));
                    if j < i {
                        assert(t0[j] == t1[j]);
                    } else {
                        assert(t1[j] == es[i as int]);
                    }
                }
                assert(t1[i as int] == es[i as int]);
            }
            assert(strings_view(ids@).to_set() =~= neighbor_ids(es.take(i + 1), node_id@, direction, ty));
            i = i + 1;
        }
        assert(es.take(es.len() as int) =~= es);
        proof {
            lemma_sorted_list(strings_view(ids@));
        }
        let ghost sv = strings_view(ids@);
        let mut out: Vec<&'a Node> = Vec::new();
        let mut k: usize = 0;
        while k < ids.len()
            invariant
                k <= ids@.len(),
                sv == strings_view(ids@),
                node_refs(out@) == present_nodes(sv.take(k as int), self.graph_view().node_map()),
            decreases ids@.len() - k,
        {
            assert(sv.take(k + 1).drop_last() =~= sv.take(k as int));
            assert(sv[k as int] == ids@[k as int]@);
            if let Some(n) = self.graph.node(ids[k].as_str()) {
                let ghost b = node_refs(out@);
                out.push(n);
                assert(node_refs(out@) =~= b.push(self.graph_view().node_map()[sv[k as int]]));
            }
            k = k + 1;
        }
        assert(sv.take(sv.len() as int) =~= sv);
        out
    }

    /// Whether following the edge types of `edge_pattern`, one after the
    /// other, from `from` reaches a node (of type `to_type`, where one is
    /// named).
    pub fn path_exists(&self, from: &str, edge_pattern: &[&str], to_type: Option<&str>) -> (r: bool)
        ensures
            r == path_from(
                self.graph_view().edge_seq(),
                self.graph_view().node_map(),
                set![from@],
                edge_pattern@.map_values(|p: &str| p@),
                opt_ref_view(to_type),
            ),
    {
        let ghost es = self.graph_view().edge_seq();
        let ghost nm = self.graph_view().node_map();
        let ghost pat = edge_pattern@.map_values(|p: &str| p@);
        let ghost tt = opt_ref_view(to_type);
        let mut current: Vec<String> = Vec::new();
        current.push(String::from_str(from));
        assert(strings_view(current@) =~= seq![from@]);
        assert forall|y: Seq<char>| #[trigger] strings_view(current@).to_set().contains(y) == (y == from@) by {
            if y == from@ {
                assert(strings_view(current@)[0] == y);
            }
        }
        assert(strings_view(current@).to_set() =~= set![from@]);
        assert(sorted_strict(strings_view(current@)));
        let edges = self.graph.edges();
        let mut p: usize = 0;
        assert(pat.skip(0) =~= pat);
        while p < edge_pattern.len()
            invariant
                p <= edge_pattern@.len(),
                pat == edge_pattern@.map_values(|p: &str| p@),
                es == self.graph_view().edge_seq(),
                es == views(edges@),
                nm == self.graph_view().node_map(),
                tt == opt_ref_view(to_type),
                sorted_strict(strings_view(current@)),
                path_from(es, nm, set![from@], pat, tt) == path_from(es, nm, strings_view(current@).to_set(), pat.skip(p as int), tt),
            decreases edge_pattern@.len() - p,
        {
            let et = edge_pattern[p];
            let ghost cur = strings_view(current@).to_set();
            let mut next: Vec<String> = Vec::new();
            assert(strings_view(next@).to_set() =~= Set::empty());
            let mut i: usize = 0;
            while i < edges.len()
                invariant
                    i <= edges@.len(),
                    es == views(edges@),
                    cur == strings_view(current@).to_set(),
                    sorted_strict(strings_view(next@)),
                    strings_view(next@).to_set() == step(es.take(i as int), cur, et@),
                decreases edges@.len() - i,
            {
                let e = &edges[i];
                assert(es[i as int] == e@);
                if str_matches(&e.edge_type, et) && contains_string(&current, e.from.as_str()) {
                    sorted_insert(&mut next, e.to.clone());
                }
                assert forall|x: Seq<char>| #[trigger] strings_view(next@).to_set().contains(x) == step(es.take(i + 1), cur, et@).contains(x) by {
                    let t1 = es.take(i + 1);
                    let t0 = es.take(i as int);
                    if step(t0, cur, et@).contains(x) {
                        let j = choose|j: int| 0 <= j < t0.len() && cur.contains((#[trigger] t0[j]).from) && t0[j].edge_type == et@ && t0[j].to == x;
                        assert(t1[j] == t0[j]);
                    }
                    if step(t1, cur, et@).contains(x) {
                        let j = choose|j: int| 0 <= j < t1.len() && cur.contains((#[trigger] t1[j]).from) && t1[j].edge_type == et@ && t1[j].to == x;
                        if j < i {
                            assert(t0[j] == t1[j]);
                        } else {
                            assert(t1[j] == es[i as int]);
                        }
                    }
                    assert(t1[i as int] == es[i as int]);
                }
                assert(strings_view(next@).to_set() =~= step(es.take(i + 1), cur, et@));
                i = i + 1;
            }
            assert(es.take(es.len() as int) =~= es);
            assert(pat.skip(p as int)[0] == et@);
            assert(pat.skip(p as int).drop_first() =~= pat.skip(p + 1));
            if next.len() == 0 {
                proof {
                    assert(strings_view(next@).to_set() =~= Set::<Seq<char>>::empty());
                    lemma_path_from_empty(es, nm, step(es, cur, et@), pat.skip(p + 1), tt);
                }
                return false;
            }
            current = next;
            p = p + 1;
        }
        let ghost cur = strings_view(current@).to_set();
        let ghost rest = pat.skip(p as int);
        assert(rest.len() == 0);
        let mut k: usize = 0;
        while k < current.len()
            invariant
                k <= current@.len(),
                cur == strings_view(current@).to_set(),
                nm == self.graph_view().node_map(),
                es == self.graph_view().edge_seq(),
                tt == opt_ref_view(to_type),
                rest.len() == 0,
                pat == edge_pattern@.map_values(|p: &str| p@),
                path_from(es, nm, set![from@], pat, tt) == path_from(es, nm, cur, rest, tt),
                forall|j: int| 0 <= j < k ==> !(#[trigger] nm.contains_key(strings_view(current@)[j]) && (tt matches Some(t) ==> nm[strings_view(current@)[j]].node_type == t)),
            decreases current@.len() - k,
        {
            assert(strings_view(current@)[k as int] == current@[k as int]@);
            if let Some(n) = self.graph.node(current[k].as_str()) {
                let ok = match to_type {
                    Some(t) => str_matches(&n.node_type, t),
                    None => true,
                };
                if ok {
                    assert(cur.contains(current@[k as int]@));
                    return true;
                }
            }
            k = k + 1;
        }
        assert forall|n: Seq<char>| !(cur.contains(n) && nm.contains_key(n) && (tt matches Some(t) ==> nm[n].node_type == t)) by {
            if cur.contains(n) {
                let j = choose|j: int| 0 <= j < strings_view(current@).len() && strings_view(current@)[j] == n;
            }
        }
        false
    }
}

/// A node of the type asked (where one is named) holding each given
/// attribute with the given value.
pub open spec fn node_matches(n: NodeV, ty: Option<Seq<char>>, attrs: Seq<(Seq<char>, JsonV)>) -> bool {
    &&& (ty matches Some(t) ==> n.node_type == t)
    &&& forall|i: int| 0 <= i < attrs.len() ==> attr_lookup(n.attributes, (#[trigger] attrs[i]).0) == Some(attrs[i].1)
}

pub open spec fn nodes_matching(s: Seq<NodeV>, ty: Option<Seq<char>>, attrs: Seq<(Seq<char>, JsonV)>) -> Seq<NodeV>
    decreases s.len(),
{
    if s.len() == 0 {
        Seq::empty()
    } else if node_matches(s.last(), ty, attrs) {
        nodes_matching(s.drop_last(), ty, attrs).push(s.last())
    } else {
        nodes_matching(s.drop_last(), ty, attrs)
    }
}

pub open spec fn wanted_view(attrs: Seq<(&str, &JsonValue)>) -> Seq<(Seq<char>, JsonV)> {
    attrs.map_values(|p: (&str, &JsonValue)| (p.0@, json_view(*p.1)))
}

/// The value stored under `key`.
fn fields_get<'b>(fields: &'b Vec<(String, JsonValue)>, key: &str) -> (r: Option<&'b JsonValue>)
    ensures
        match r {
            Some(v) => attr_lookup(json_fields_view(fields@), key@) == Some(json_view(*v)),
            None => attr_lookup(json_fields_view(fields@), key@) is None,
        },
{
    let ghost v = json_fields_view(fields@);
    proof {
        lemma_json_fields_view(fields@);
    }
    let k = chars_of(key);
    let mut i: usize = 0;
    assert(v.skip(0) =~= v);
    while i < fields.len()
        invariant
            i <= fields@.len(),
            v == json_fields_view(fields@),
            v.len() == fields@.len(),
            k@ == key@,
            forall|j: int| 0 <= j < fields@.len() ==> #[trigger] v[j] == (fields@[j].0@, json_view(fields@[j].1)),
            attr_lookup(v, key@) == attr_lookup(v.skip(i as int), key@),
        decreases fields@.len() - i,
    {
        assert(v.skip(i as int)[0] == v[i as int]);
        assert(v.skip(i as int).drop_first() =~= v.skip(i + 1));
        if eq_chars(&string_chars(&fields[i].0), &k) {
            return Some(&fields[i].1);
        }
        i = i + 1;
    }
    None
}

impl<'a> GraphQuery<'a> {
    /// The nodes (of a type, where one is named) that hold every given
    /// attribute value, in id order.
    pub fn find_nodes(&self, node_type: Option<&str>, attributes: &[(&str, &JsonValue)]) -> (r: Vec<&'a Node>)
        ensures
            node_refs(r@) == nodes_matching(self.graph_view().node_seq(), opt_ref_view(node_type), wanted_view(attributes@)),
    {
        let ghost ty = opt_ref_view(node_type);
        let ghost want = wanted_view(attributes@);
        let nodes = self.graph.nodes();
        let ghost ns = views(nodes@);
        let mut out: Vec<&'a Node> = Vec::new();
        let mut i: usize = 0;
        while i < nodes.len()
            invariant
                i <= nodes@.len(),
                ns == views(nodes@),
                ns == self.graph_view().node_seq(),
                ty == opt_ref_view(node_type),
                want == wanted_view(attributes@),
                node_refs(out@) == nodes_matching(ns.take(i as int), ty, want),
            decreases nodes@.len() - i,
        {
            let n = &nodes[i];
            assert(ns[i as int] == n@);
            assert(ns.take(i + 1).drop_last() =~= ns.take(i as int));
            let type_ok = match node_type {
                Some(t) => str_matches(&n.node_type, t),
                None => true,
            };
            let mut all = true;
            let mut k: usize = 0;
            while k < attributes.len()
                invariant
                    k <= attributes@.len(),
                    want == wanted_view(attributes@),
                    all == forall|j: int| 0 <= j < k ==> attr_lookup(n@.attributes, (#[trigger] want[j]).0) == Some(want[j].1),
                decreases attributes@.len() - k,
            {
                let (key, expected) = attributes[k];
                assert(want[k as int] == (key@, json_view(*expected)));
                let ok = match fields_get(&n.attributes, key) {
                    Some(actual) => actual.same(expected),
                    None => false,
                };
                if !ok {
                    all = false;
                }
                k = k + 1;
            }
            if type_ok && all {
                let ghost b = node_refs(out@);
                out.push(n);
                assert(node_refs(out@) =~= b.push(ns[i as int]));
            }
            i = i + 1;
        }
        assert(ns.take(ns.len() as int) =~= ns);
        out
    }
}


/// The ids a subgraph query selects: those within `depth` edges of the seeds
/// that are nodes, along edges in either direction.
pub open spec fn subgraph_ids(g: Graph, seeds: Seq<Seq<char>>, depth: nat) -> Set<Seq<char>> {
    ball(g.edge_seq(), start_set(seeds, g.node_map()), depth)
}

/// The edges a subgraph query selects: those with an end fewer than `depth`
/// edges from the seeds.
pub open spec fn subgraph_edge_ids(g: Graph, seeds: Seq<Seq<char>>, depth: nat) -> Set<Seq<char>> {
    if depth == 0 {
        Set::empty()
    } else {
        touching(g.edge_seq(), ball(g.edge_seq(), start_set(seeds, g.node_map()), (depth - 1) as nat))
    }
}

pub open spec fn str_views(v: Seq<&str>) -> Seq<Seq<char>> {
    v.map_values(|s: &str| s@)
}

proof fn lemma_take_contains(s: Seq<Seq<char>>, k: int, x: Seq<char>)
    requires
        0 <= k < s.len(),
    ensures
        s.take(k + 1).contains(x) == (s.take(k).contains(x) || x == s[k]),
{
    if s.take(k + 1).contains(x) {
        let i = choose|i: int| 0 <= i < s.take(k + 1).len() && #[trigger] s.take(k + 1)[i] == x;
        if i < k {
            assert(s.take(k)[i] == x);
        }
    }
    if s.take(k).contains(x) {
        let i = choose|i: int| 0 <= i < s.take(k).len() && #[trigger] s.take(k)[i] == x;
        assert(s.take(k + 1)[i] == x);
    }
    if x == s[k] {
        assert(s.take(k + 1)[k] == x);
    }
}

proof fn lemma_insert_keyed_restrict<T: Keyed>(m: Map<Seq<char>, T::V>, s: Seq<T::V>)
    requires
        forall|i: int| 0 <= i < s.len() ==> m.contains_key(T::view_key(#[trigger] s[i])) && m[T::view_key(s[i])] == s[i],
    ensures
        insert_keyed::<T>(Map::empty(), s) == m.restrict(Set::new(|k: Seq<char>| has_key::<T>(s, k))),
    decreases s.len(),
{
    if s.len() > 0 {
        let d = s.drop_last();
        assert forall|i: int| 0 <= i < d.len() implies m.contains_key(T::view_key(#[trigger] d[i])) && m[T::view_key(d[i])]
            == d[i] by {
            assert(d[i] == s[i]);
        }
        lemma_insert_keyed_restrict::<T>(m, d);
        let ks = Set::new(|k: Seq<char>| has_key::<T>(s, k));
        let kd = Set::new(|k: Seq<char>| has_key::<T>(d, k));
        assert(T::view_key(s[s.len() - 1]) == T::view_key(s.last()));
        assert forall|k: Seq<char>| #[trigger] ks.contains(k) == (kd.contains(k) || k == T::view_key(s.last())) by {
            if has_key::<T>(s, k) && k != T::view_key(s.last()) {
                let i = choose|i: int| 0 <= i < s.len() && T::view_key(#[trigger] s[i]) == k;
                assert(d[i] == s[i]);
            }
            if has_key::<T>(d, k) {
                let i = choose|i: int| 0 <= i < d.len() && T::view_key(#[trigger] d[i]) == k;
                assert(s[i] == d[i]);
            }
            if k == T::view_key(s.last()) {
                assert(T::view_key(s[s.len() - 1]) == k);
            }
        }
        assert(insert_keyed::<T>(Map::empty(), s) =~= m.restrict(ks));
    } else {
        assert(insert_keyed::<T>(Map::empty(), s) =~= m.restrict(Set::new(|k: Seq<char>| has_key::<T>(s, k))));
    }
}

impl<'a> GraphQuery<'a> {
    /// The part of the graph within `depth` edges of the seeds (those that are
    /// nodes), along edges in either direction: the nodes reached and the
    /// edges with an end fewer than `depth` edges away. A depth beyond the
    /// limit, or more reached ids or edges than the limits allow, is refused.
    pub fn subgraph(&self, seed_node_ids: &[&str], depth: usize, limits: QueryLimits) -> (r: Result<
        Graph,
        QueryLimitExceeded,
    >)
        ensures
            (depth > limits.max_depth) == (r == Err::<Graph, QueryLimitExceeded>(
                QueryLimitExceeded::Depth { requested: depth, max: limits.max_depth },
            )),
            r is Ok <==> (depth <= limits.max_depth && sorted_list(
                subgraph_ids(self.graph_view(), str_views(seed_node_ids@), depth as nat),
            ).len() <= limits.max_nodes && sorted_list(
                subgraph_edge_ids(self.graph_view(), str_views(seed_node_ids@), depth as nat),
            ).len() <= limits.max_edges),
            r matches Ok(g) ==> g.node_map() == self.graph_view().node_map().restrict(
                subgraph_ids(self.graph_view(), str_views(seed_node_ids@), depth as nat),
            ) && g.edge_map() == self.graph_view().edge_map().restrict(
                subgraph_edge_ids(self.graph_view(), str_views(seed_node_ids@), depth as nat),
            ),
            r matches Err(QueryLimitExceeded::Nodes { max }) ==> max == limits.max_nodes && sorted_list(
                subgraph_ids(self.graph_view(), str_views(seed_node_ids@), depth as nat),
            ).len() > limits.max_nodes,
            r matches Err(QueryLimitExceeded::Edges { max }) ==> max == limits.max_edges && sorted_list(
                subgraph_edge_ids(self.graph_view(), str_views(seed_node_ids@), depth as nat),
            ).len() > limits.max_edges,
    {
        if depth > limits.max_depth {
            return Err(QueryLimitExceeded::Depth { requested: depth, max: limits.max_depth });
        }
        let graph = self.graph;
        let ghost g = *graph;
        let mut seeds: Vec<String> = Vec::new();
        let mut i: usize = 0;
        while i < seed_node_ids.len()
            invariant
                i <= seed_node_ids@.len(),
                strings_view(seeds@) == str_views(seed_node_ids@).take(i as int),
            decreases seed_node_ids@.len() - i,
        {
            let ghost b = strings_view(seeds@);
            seeds.push(String::from_str(seed_node_ids[i]));
            assert(str_views(seed_node_ids@).take(i + 1) =~= b.push(seed_node_ids@[i as int]@));
            assert(strings_view(seeds@) =~= b.push(seed_node_ids@[i as int]@));
            i = i + 1;
        }
        assert(str_views(seed_node_ids@).take(seed_node_ids@.len() as int) =~= str_views(seed_node_ids@));
        let ghost sv = str_views(seed_node_ids@);
        let ids = ball_exec(graph, &seeds, depth);
        proof {
            lemma_sorted_list(strings_view(ids@));
        }
        let edge_ids = if depth == 0 {
            let none: Vec<String> = Vec::new();
            assert(strings_view(none@).to_set() =~= Set::<Seq<char>>::empty());
            proof {
                lemma_sorted_list(strings_view(none@));
            }
            none
        } else {
            let inner = ball_exec(graph, &seeds, depth - 1);
            let t = touching_exec(graph, &inner);
            proof {
                lemma_sorted_list(strings_view(t@));
            }
            t
        };
        assert(strings_view(ids@) == sorted_list(subgraph_ids(g, sv, depth as nat)));
        assert(strings_view(edge_ids@) == sorted_list(subgraph_edge_ids(g, sv, depth as nat)));
        if ids.len() > limits.max_nodes {
            return Err(QueryLimitExceeded::Nodes { max: limits.max_nodes });
        }
        if edge_ids.len() > limits.max_edges {
            return Err(QueryLimitExceeded::Edges { max: limits.max_edges });
        }
        let mut delta = GraphDelta::empty();
        let mut k: usize = 0;
        let ghost nm = g.node_map();
        let ghost idv = strings_view(ids@);
        while k < ids.len()
            invariant
                k <= idv.len(),
                idv == strings_view(ids@),
                nm == graph.node_map(),
                forall|j: int| 0 <= j < delta.create_nodes@.len() ==> nm.contains_key(#[trigger] delta.create_nodes@[j]@.id)
                    && nm[delta.create_nodes@[j]@.id] == delta.create_nodes@[j]@,
                forall|x: Seq<char>| has_key::<Node>(views(delta.create_nodes@), x) <==> (idv.take(k as int).contains(x)
                    && nm.contains_key(x)),
                delta.update_nodes@.len() == 0,
                delta.delete_nodes@.len() == 0,
                delta.create_edges@.len() == 0,
                delta.update_edges@.len() == 0,
                delta.delete_edges@.len() == 0,
            decreases idv.len() - k,
        {
            assert(idv[k as int] == ids@[k as int]@);
            let ghost before = views(delta.create_nodes@);
            let found = graph.node(ids[k].as_str());
            let ghost present = found is Some;
            match found {
                Some(n) => {
                    delta.create_nodes.push(n.duplicate());
                    assert(views(delta.create_nodes@) =~= before.push(nm[idv[k as int]]));
                },
                None => {
                    assert(views(delta.create_nodes@) =~= before);
                },
            }
            assert(present == nm.contains_key(idv[k as int]));
            assert forall|x: Seq<char>| has_key::<Node>(views(delta.create_nodes@), x) <==> (idv.take(k + 1).contains(x)
                && nm.contains_key(x)) by {
                lemma_take_contains(idv, k as int, x);
                if has_key::<Node>(views(delta.create_nodes@), x) {
                    let j = choose|j: int| 0 <= j < views(delta.create_nodes@).len() && Node::view_key(#[trigger] views(delta.create_nodes@)[j]) == x;
                    if j < before.len() {
                        assert(views(delta.create_nodes@)[j] == before[j]);
                        assert(has_key::<Node>(before, x));
                    } else {
                        assert(present);
                        assert(x == idv[k as int]);
                    }
                }
                if idv.take(k + 1).contains(x) && nm.contains_key(x) {
                    if idv.take(k as int).contains(x) {
                        assert(has_key::<Node>(before, x));
                        let j = choose|j: int| 0 <= j < before.len() && Node::view_key(#[trigger] before[j]) == x;
                        assert(views(delta.create_nodes@)[j] == before[j]);
                    } else {
                        assert(x == idv[k as int]);
                        assert(present);
                        assert(Node::view_key(views(delta.create_nodes@)[before.len() as int]) == x);
                    }
                }
            }
            k = k + 1;
        }
        assert(idv.take(idv.len() as int) =~= idv);
        let ghost em = g.edge_map();
        let ghost ev = strings_view(edge_ids@);
        let mut k: usize = 0;
        while k < edge_ids.len()
            invariant
                k <= ev.len(),
                ev == strings_view(edge_ids@),
                em == graph.edge_map(),
                forall|j: int| 0 <= j < delta.create_edges@.len() ==> em.contains_key(#[trigger] delta.create_edges@[j]@.id)
                    && em[delta.create_edges@[j]@.id] == delta.create_edges@[j]@,
                forall|x: Seq<char>| has_key::<Edge>(views(delta.create_edges@), x) <==> (ev.take(k as int).contains(x)
                    && em.contains_key(x)),
                delta.update_nodes@.len() == 0,
                delta.delete_nodes@.len() == 0,
                delta.update_edges@.len() == 0,
                delta.delete_edges@.len() == 0,
                forall|j: int| 0 <= j < delta.create_nodes@.len() ==> nm.contains_key(#[trigger] delta.create_nodes@[j]@.id)
                    && nm[delta.create_nodes@[j]@.id] == delta.create_nodes@[j]@,
                forall|x: Seq<char>| has_key::<Node>(views(delta.create_nodes@), x) <==> (idv.contains(x) && nm.contains_key(x)),
            decreases ev.len() - k,
        {
            assert(ev[k as int] == edge_ids@[k as int]@);
            let ghost before = views(delta.create_edges@);
            let found = graph.edge(edge_ids[k].as_str());
            let ghost present = found is Some;
            match found {
                Some(e) => {
                    delta.create_edges.push(e.duplicate());
                    assert(views(delta.create_edges@) =~= before.push(em[ev[k as int]]));
                },
                None => {
                    assert(views(delta.create_edges@) =~= before);
                },
            }
            assert(present == em.contains_key(ev[k as int]));
            assert forall|x: Seq<char>| has_key::<Edge>(views(delta.create_edges@), x) <==> (ev.take(k + 1).contains(x)
                && em.contains_key(x)) by {
                lemma_take_contains(ev, k as int, x);
                if has_key::<Edge>(views(delta.create_edges@), x) {
                    let j = choose|j: int| 0 <= j < views(delta.create_edges@).len() && Edge::view_key(#[trigger] views(delta.create_edges@)[j]) == x;
                    if j < before.len() {
                        assert(views(delta.create_edges@)[j] == before[j]);
                        assert(has_key::<Edge>(before, x));
                    } else {
                        assert(present);
                        assert(x == ev[k as int]);
                    }
                }
                if ev.take(k + 1).contains(x) && em.contains_key(x) {
                    if ev.take(k as int).contains(x) {
                        assert(has_key::<Edge>(before, x));
                        let j = choose|j: int| 0 <= j < before.len() && Edge::view_key(#[trigger] before[j]) == x;
                        assert(views(delta.create_edges@)[j] == before[j]);
                    } else {
                        assert(x == ev[k as int]);
                        assert(present);
                        assert(Edge::view_key(views(delta.create_edges@)[before.len() as int]) == x);
                    }
                }
            }
            k = k + 1;
        }
        assert(ev.take(ev.len() as int) =~= ev);
        let mut out = Graph::new();
        out.apply_delta(&delta);
        proof {
            let cn = views(delta.create_nodes@);
            let ce = views(delta.create_edges@);
            assert forall|i: int| 0 <= i < cn.len() implies nm.contains_key(Node::view_key(#[trigger] cn[i]))
                && nm[Node::view_key(cn[i])] == cn[i] by {
                assert(cn[i] == delta.create_nodes@[i]@);
            }
            assert forall|i: int| 0 <= i < ce.len() implies em.contains_key(Edge::view_key(#[trigger] ce[i]))
                && em[Edge::view_key(ce[i])] == ce[i] by {
                assert(ce[i] == delta.create_edges@[i]@);
            }
            lemma_insert_keyed_restrict::<Node>(nm, cn);
            lemma_insert_keyed_restrict::<Edge>(em, ce);
            assert(strings_view(delta.delete_nodes@) =~= Seq::<Seq<char>>::empty());
            assert(strings_view(delta.delete_edges@) =~= Seq::<Seq<char>>::empty());
            assert(views(delta.update_nodes@) =~= Seq::<NodeV>::empty());
            assert(views(delta.update_edges@) =~= Seq::<EdgeV>::empty());
            let nset = subgraph_ids(g, sv, depth as nat);
            let eset = subgraph_edge_ids(g, sv, depth as nat);
            assert(idv.to_set() == nset);
            assert(ev.to_set() == eset);
            assert(Set::new(|x: Seq<char>| has_key::<Node>(cn, x)).intersect(nm.dom()) =~= nset.intersect(nm.dom()));
            assert(nm.restrict(Set::new(|x: Seq<char>| has_key::<Node>(cn, x))) =~= nm.restrict(nset));
            assert(em.restrict(Set::new(|x: Seq<char>| has_key::<Edge>(ce, x))) =~= em.restrict(eset));
        }
        Ok(out)
    }
}

} // verus!
