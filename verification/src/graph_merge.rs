//! Differences between two graphs, and conflicts between two branches of one.

use crate::keyed::{Keyed, keyed_map, views};
use crate::model::{Edge, EdgeV, Graph, Node, NodeV};
use crate::text::{chars_of, msg3, string_chars, strings_view};
use vstd::prelude::*;

verus! {

#[derive(Debug, Clone, PartialEq, Eq)]
pub struct GraphDiff {
    pub added_nodes: Vec<String>,
    pub removed_nodes: Vec<String>,
    pub added_edges: Vec<String>,
    pub removed_edges: Vec<String>,
}

#[derive(Debug, Clone, PartialEq, Eq)]
pub struct MergeConflict {
    pub kind: String,
    pub id: String,
    pub message: String,
}

/// The keys of `s`, in order, that `m` lacks.
pub open spec fn keys_missing_from<T: Keyed>(s: Seq<T::V>, m: Map<Seq<char>, T::V>) -> Seq<Seq<char>>
    decreases s.len(),
{
    if s.len() == 0 {
        Seq::empty()
    } else {
        let r = keys_missing_from::<T>(s.drop_last(), m);
        if m.contains_key(T::view_key(s.last())) {
            r
        } else {
            r.push(T::view_key(s.last()))
        }
    }
}

fn node_ids_missing_from(s: &Vec<Node>, other: &Graph) -> (r: Vec<String>)
    ensures
        strings_view(r@) == keys_missing_from::<Node>(views(s@), other.node_map()),
{
    let ghost sv = views(s@);
    let mut out: Vec<String> = Vec::new();
    let mut i: usize = 0;
    while i < s.len()
        invariant
            i <= s@.len(),
            sv == views(s@),
            strings_view(out@) == keys_missing_from::<Node>(sv.take(i as int), other.node_map()),
        decreases s@.len() - i,
    {
        assert(sv.take(i + 1).drop_last() =~= sv.take(i as int));
        assert(sv.take(i + 1).last() == s@[i as int]@);
        if other.node(s[i].id.as_str()).is_none() {
            let ghost before = strings_view(out@);
            out.push(s[i].id.clone());
            assert(strings_view(out@) =~= before.push(s@[i as int].id@));
        }
        i = i + 1;
    }
    assert(sv.take(sv.len() as int) =~= sv);
    out
}

fn edge_ids_missing_from(s: &Vec<Edge>, other: &Graph) -> (r: Vec<String>)
    ensures
        strings_view(r@) == keys_missing_from::<Edge>(views(s@), other.edge_map()),
{
    let ghost sv = views(s@);
    let mut out: Vec<String> = Vec::new();
    let mut i: usize = 0;
    while i < s.len()
        invariant
            i <= s@.len(),
            sv == views(s@),
            strings_view(out@) == keys_missing_from::<Edge>(sv.take(i as int), other.edge_map()),
        decreases s@.len() - i,
    {
        assert(sv.take(i + 1).drop_last() =~= sv.take(i as int));
        assert(sv.take(i + 1).last() == s@[i as int]@);
        if other.edge(s[i].id.as_str()).is_none() {
            let ghost before = strings_view(out@);
            out.push(s[i].id.clone());
            assert(strings_view(out@) =~= before.push(s@[i as int].id@));
        }
        i = i + 1;
    }
    assert(sv.take(sv.len() as int) =~= sv);
    out
}

/// Node and edge ids that `right` has and `left` lacks (added) and the other
/// way round (removed), each in id order.
pub fn diff_graphs(left: &Graph, right: &Graph) -> (d: GraphDiff)
    ensures
        strings_view(d.added_nodes@) == keys_missing_from::<Node>(right.node_seq(), left.node_map()),
        strings_view(d.removed_nodes@) == keys_missing_from::<Node>(left.node_seq(), right.node_map()),
        strings_view(d.added_edges@) == keys_missing_from::<Edge>(right.edge_seq(), left.edge_map()),
        strings_view(d.removed_edges@) == keys_missing_from::<Edge>(left.edge_seq(), right.edge_map()),
{
    GraphDiff {
        added_nodes: node_ids_missing_from(right.nodes(), left),
        removed_nodes: node_ids_missing_from(left.nodes(), right),
        added_edges: edge_ids_missing_from(right.edges(), left),
        removed_edges: edge_ids_missing_from(left.edges(), right),
    }
}

proof fn lemma_keys_missing_from_self<T: Keyed>(s: Seq<T::V>, m: Map<Seq<char>, T::V>)
    requires
        forall|i: int| 0 <= i < s.len() ==> m.contains_key(T::view_key(#[trigger] s[i])),
    ensures
        keys_missing_from::<T>(s, m) == Seq::<Seq<char>>::empty(),
    decreases s.len(),
{
    if s.len() > 0 {
        assert(m.contains_key(T::view_key(s[s.len() - 1])));
        assert forall|i: int| 0 <= i < s.drop_last().len() implies m.contains_key(
            T::view_key(#[trigger] s.drop_last()[i]),
        ) by {
            assert(s.drop_last()[i] == s[i]);
        }
        lemma_keys_missing_from_self::<T>(s.drop_last(), m);
    }
}

/// A graph differs from itself in nothing.
pub proof fn diff_with_itself_is_empty(g: Graph)
    ensures
        keys_missing_from::<Node>(g.node_seq(), g.node_map()) == Seq::<Seq<char>>::empty(),
        keys_missing_from::<Edge>(g.edge_seq(), g.edge_map()) == Seq::<Seq<char>>::empty(),
{
    g.lemma_maps_of_seqs();
    let ns = g.node_seq();
    let es = g.edge_seq();
    assert forall|i: int| 0 <= i < ns.len() implies g.node_map().contains_key(
        Node::view_key(#[trigger] ns[i]),
    ) by {
        assert(crate::keyed::has_key::<Node>(ns, Node::view_key(ns[i])));
    }
    assert forall|i: int| 0 <= i < es.len() implies g.edge_map().contains_key(
        Edge::view_key(#[trigger] es[i]),
    ) by {
        assert(crate::keyed::has_key::<Edge>(es, Edge::view_key(es[i])));
    }
    lemma_keys_missing_from_self::<Node>(ns, g.node_map());
    lemma_keys_missing_from_self::<Edge>(es, g.edge_map());
}

/// Both branches changed the node, each differently from the other.
pub open spec fn concurrent_update(
    id: Seq<char>,
    base: NodeV,
    ours: Map<Seq<char>, NodeV>,
    theirs: Map<Seq<char>, NodeV>,
) -> bool {
    &&& ours.contains_key(id)
    &&& theirs.contains_key(id)
    &&& ours[id] != base
    &&& theirs[id] != base
    &&& ours[id] != theirs[id]
}

/// Kind, id and message of each conflict among the base nodes `s`.
pub open spec fn node_conflicts(
    s: Seq<NodeV>,
    ours: Map<Seq<char>, NodeV>,
    theirs: Map<Seq<char>, NodeV>,
) -> Seq<(Seq<char>, Seq<char>, Seq<char>)>
    decreases s.len(),
{
    if s.len() == 0 {
        Seq::empty()
    } else {
        let r = node_conflicts(s.drop_last(), ours, theirs);
        let id = s.last().id;
        if concurrent_update(id, s.last(), ours, theirs) {
            r.push(
                (
                    "node.concurrent_update"@,
                    id,
                    "Node `"@ + id + "` was changed differently on both branches"@,
                ),
            )
        } else {
            r
        }
    }
}

pub open spec fn conflict_view(c: MergeConflict) -> (Seq<char>, Seq<char>, Seq<char>) {
    (c.kind@, c.id@, c.message@)
}

/// Each base node, in id order, that both branches kept and changed, each
/// differently from the other.
pub fn detect_merge_conflicts(base: &Graph, ours: &Graph, theirs: &Graph) -> (r: Vec<MergeConflict>)
    ensures
        r@.map_values(|c: MergeConflict| conflict_view(c)) == node_conflicts(
            base.node_seq(),
            ours.node_map(),
            theirs.node_map(),
        ),
{
    let nodes = base.nodes();
    let ghost sv = views(nodes@);
    let mut out: Vec<MergeConflict> = Vec::new();
    let mut i: usize = 0;
    while i < nodes.len()
        invariant
            i <= nodes@.len(),
            sv == views(nodes@),
            out@.map_values(|c: MergeConflict| conflict_view(c)) == node_conflicts(
                sv.take(i as int),
                ours.node_map(),
                theirs.node_map(),
            ),
        decreases nodes@.len() - i,
    {
        assert(sv.take(i + 1).drop_last() =~= sv.take(i as int));
        assert(sv.take(i + 1).last() == nodes@[i as int]@);
        let b = &nodes[i];
        match (ours.node(b.id.as_str()), theirs.node(b.id.as_str())) {
            (Some(o), Some(t)) => {
                if !o.same(b) && !t.same(b) && !o.same(t) {
                    let id = string_chars(&b.id);
                    let ghost before = out@.map_values(|c: MergeConflict| conflict_view(c));
                    out.push(
                        MergeConflict {
                            kind: String::from_str("node.concurrent_update"),
                            id: b.id.clone(),
                            message: msg3("Node `", &id, "` was changed differently on both branches"),
                        },
                    );
                    assert(out@.map_values(|c: MergeConflict| conflict_view(c)) =~= before.push(
                        (
                            "node.concurrent_update"@,
                            b.id@,
                            "Node `"@ + b.id@ + "` was changed differently on both branches"@,
                        ),
                    ));
                }
            },
            _ => {},
        }
        i = i + 1;
    }
    assert(sv.take(sv.len() as int) =~= sv);
    out
}

} // verus!
