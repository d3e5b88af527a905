//! Drift between the spec, the code, the tests, the data model and the
//! architecture, as the graph records them.

use crate::keyed::views;
use crate::model::{
    Edge, EdgeV, Finding, FindingSeverity, Graph, Node, NodeV, attr_text, fields_text,
    findings_full, opt_string_view, push_related_finding,
};
use crate::text::{
    chars_of, contains, contains_str, eq_chars, eq_str, lemma_sorted_list, lower, lower_exec,
    msg3, sorted_insert, sorted_list, sorted_strict, split_once, split_once_str, string_chars,
    strings_view,
};
use vstd::prelude::*;

verus! {

pub type FullFinding = (Seq<char>, FindingSeverity, Seq<char>, Seq<Seq<char>>, Seq<Seq<char>>);

#[derive(Debug, Clone, PartialEq, Eq)]
pub struct DriftReport {
    pub findings: Vec<Finding>,
    pub blocker_count: usize,
}

impl DriftReport {
    /// Blocked while any finding blocks.
    pub fn is_blocked(&self) -> (r: bool)
        ensures
            r == (self.blocker_count > 0),
    {
        self.blocker_count > 0
    }
}

/// The part of a stable key after its family prefix.
pub open spec fn key_without_prefix(key: Seq<char>) -> Seq<char> {
    match split_once(key, ":"@) {
        Some((_, rest)) => rest,
        None => key,
    }
}

pub fn key_without_prefix_exec(key: &String) -> (r: Vec<char>)
    ensures
        r@ == key_without_prefix(key@),
{
    let k = string_chars(key);
    match split_once_str(&k, ":") {
        Some((_, rest)) => rest,
        None => k,
    }
}

/// An edge of type `et` into `id`.
pub open spec fn incoming(es: Seq<EdgeV>, id: Seq<char>, et: Seq<char>) -> bool {
    exists|i: int| 0 <= i < es.len() && (#[trigger] es[i]).to == id && es[i].edge_type == et
}

/// An edge `from -et-> to`.
pub open spec fn has_edge(es: Seq<EdgeV>, from: Seq<char>, et: Seq<char>, to: Seq<char>) -> bool {
    exists|i: int|
        0 <= i < es.len() && (#[trigger] es[i]).from == from && es[i].to == to && es[i].edge_type == et
}

fn has_incoming(edges: &Vec<Edge>, id: &Vec<char>, et: &str) -> (r: bool)
    ensures
        r == incoming(views(edges@), id@, et@),
{
    let ghost es = views(edges@);
    let e = chars_of(et);
    let mut i: usize = 0;
    while i < edges.len()
        invariant
            i <= edges@.len(),
            es == views(edges@),
            e@ == et@,
            forall|j: int| 0 <= j < i ==> !((#[trigger] es[j]).to == id@ && es[j].edge_type == et@),
        decreases edges@.len() - i,
    {
        assert(es[i as int] == edges@[i as int]@);
        if eq_chars(&string_chars(&edges[i].to), id) && eq_chars(&string_chars(&edges[i].edge_type), &e) {
            return true;
        }
        i = i + 1;
    }
    false
}

fn has_edge_exec(edges: &Vec<Edge>, from: &String, et: &str, to: &String) -> (r: bool)
    ensures
        r == has_edge(views(edges@), from@, et@, to@),
{
    let ghost es = views(edges@);
    let e = chars_of(et);
    let f = string_chars(from);
    let t = string_chars(to);
    let mut i: usize = 0;
    while i < edges.len()
        invariant
            i <= edges@.len(),
            es == views(edges@),
            e@ == et@,
            f@ == from@,
            t@ == to@,
            forall|j: int| 0 <= j < i ==> !((#[trigger] es[j]).from == from@ && es[j].to == to@ && es[j].edge_type == et@),
        decreases edges@.len() - i,
    {
        assert(es[i as int] == edges@[i as int]@);
        if eq_chars(&string_chars(&edges[i].from), &f) && eq_chars(&string_chars(&edges[i].to), &t)
            && eq_chars(&string_chars(&edges[i].edge_type), &e) {
            return true;
        }
        i = i + 1;
    }
    false
}

// ------------------------------------------------------------ nodes missing a link

/// A node of type `ty` without an incoming `et` edge is reported.
pub open spec fn link_drift(
    n: NodeV,
    es: Seq<EdgeV>,
    ty: Seq<char>,
    et: Seq<char>,
    code: Seq<char>,
    pre: Seq<char>,
    suf: Seq<char>,
) -> Seq<FullFinding> {
    if n.node_type == ty && !incoming(es, n.id, et) {
        seq![(code, FindingSeverity::Error, pre + key_without_prefix(n.stable_key) + suf, seq![n.id], Seq::empty())]
    } else {
        Seq::empty()
    }
}

pub open spec fn links_drift(
    ns: Seq<NodeV>,
    es: Seq<EdgeV>,
    ty: Seq<char>,
    et: Seq<char>,
    code: Seq<char>,
    pre: Seq<char>,
    suf: Seq<char>,
) -> Seq<FullFinding>
    decreases ns.len(),
{
    if ns.len() == 0 {
        Seq::empty()
    } else {
        links_drift(ns.drop_last(), es, ty, et, code, pre, suf) + link_drift(ns.last(), es, ty, et, code, pre, suf)
    }
}

fn check_links(
    findings: &mut Vec<Finding>,
    graph: &Graph,
    ty: &str,
    et: &str,
    code: &str,
    pre: &str,
    suf: &str,
)
    ensures
        findings_full(final(findings)@) == findings_full(old(findings)@) + links_drift(
            graph.node_seq(),
            graph.edge_seq(),
            ty@,
            et@,
            code@,
            pre@,
            suf@,
        ),
{
    let nodes = graph.nodes();
    let edges = graph.edges();
    let ghost ns = views(nodes@);
    let ghost es = views(edges@);
    let ghost f0 = findings_full(findings@);
    let t = chars_of(ty);
    let mut i: usize = 0;
    while i < nodes.len()
        invariant
            i <= nodes@.len(),
            ns == views(nodes@),
            es == views(edges@),
            ns == graph.node_seq(),
            es == graph.edge_seq(),
            t@ == ty@,
            findings_full(findings@) == f0 + links_drift(ns.take(i as int), es, ty@, et@, code@, pre@, suf@),
        decreases nodes@.len() - i,
    {
        let n = &nodes[i];
        assert(ns[i as int] == n@);
        let ghost ff = findings_full(findings@);
        let id = string_chars(&n.id);
        if eq_chars(&string_chars(&n.node_type), &t) && !has_incoming(edges, &id, et) {
            let key = key_without_prefix_exec(&n.stable_key);
            let mut related: Vec<String> = Vec::new();
            related.push(n.id.clone());
            assert(strings_view(related@) =~= seq![n.id@]);
            let no_edges: Vec<String> = Vec::new();
            assert(strings_view(no_edges@) =~= Seq::<Seq<char>>::empty());
            push_related_finding(findings, code, msg3(pre, &key, suf), related, no_edges);
        }
        assert(findings_full(findings@) =~= ff + link_drift(ns[i as int], es, ty@, et@, code@, pre@, suf@));
        assert(ns.take(i + 1).drop_last() =~= ns.take(i as int));
        assert(f0 + links_drift(ns.take(i + 1), es, ty@, et@, code@, pre@, suf@) =~= f0 + links_drift(
            ns.take(i as int),
            es,
            ty@,
            et@,
            code@,
            pre@,
            suf@,
        ) + link_drift(ns[i as int], es, ty@, et@, code@, pre@, suf@));
        i = i + 1;
    }
    assert(ns.take(ns.len() as int) =~= ns);
}

/// A risk with neither a regression test nor mitigating code is reported.
pub open spec fn risk_drift(n: NodeV, es: Seq<EdgeV>) -> Seq<FullFinding> {
    if n.node_type == "Risk"@ && !incoming(es, n.id, "TESTS_RISK"@) && !incoming(es, n.id, "ADDRESSES_RISK"@) {
        seq![
            ("drift.risk_missing_mitigation_evidence"@, FindingSeverity::Error, "Risk `"@
                + key_without_prefix(n.stable_key) + "` has no linked mitigation code or regression test."@, seq![n.id], Seq::empty()),
        ]
    } else {
        Seq::empty()
    }
}

pub open spec fn risks_drift(ns: Seq<NodeV>, es: Seq<EdgeV>) -> Seq<FullFinding>
    decreases ns.len(),
{
    if ns.len() == 0 {
        Seq::empty()
    } else {
        risks_drift(ns.drop_last(), es) + risk_drift(ns.last(), es)
    }
}

fn check_risks(findings: &mut Vec<Finding>, graph: &Graph)
    ensures
        findings_full(final(findings)@) == findings_full(old(findings)@) + risks_drift(graph.node_seq(), graph.edge_seq()),
{
    let nodes = graph.nodes();
    let edges = graph.edges();
    let ghost ns = views(nodes@);
    let ghost es = views(edges@);
    let ghost f0 = findings_full(findings@);
    let mut i: usize = 0;
    while i < nodes.len()
        invariant
            i <= nodes@.len(),
            ns == views(nodes@),
            es == views(edges@),
            ns == graph.node_seq(),
            es == graph.edge_seq(),
            findings_full(findings@) == f0 + risks_drift(ns.take(i as int), es),
        decreases nodes@.len() - i,
    {
        let n = &nodes[i];
        assert(ns[i as int] == n@);
        let ghost ff = findings_full(findings@);
        let id = string_chars(&n.id);
        if eq_str(&string_chars(&n.node_type), "Risk") && !has_incoming(edges, &id, "TESTS_RISK") && !has_incoming(
            edges,
            &id,
            "ADDRESSES_RISK",
        ) {
            let key = key_without_prefix_exec(&n.stable_key);
            let mut related: Vec<String> = Vec::new();
            related.push(n.id.clone());
            assert(strings_view(related@) =~= seq![n.id@]);
            let no_edges: Vec<String> = Vec::new();
            assert(strings_view(no_edges@) =~= Seq::<Seq<char>>::empty());
            push_related_finding(
                findings,
                "drift.risk_missing_mitigation_evidence",
                msg3("Risk `", &key, "` has no linked mitigation code or regression test."),
                related,
                no_edges,
            );
        }
        assert(findings_full(findings@) =~= ff + risk_drift(ns[i as int], es));
        assert(ns.take(i + 1).drop_last() =~= ns.take(i as int));
        assert(f0 + risks_drift(ns.take(i + 1), es) =~= f0 + risks_drift(ns.take(i as int), es) + risk_drift(
            ns[i as int],
            es,
        ));
        i = i + 1;
    }
    assert(ns.take(ns.len() as int) =~= ns);
}

// ------------------------------------------------------------ migrations

/// A path that looks like a migration file.
pub open spec fn looks_like_migration(path: Seq<char>) -> bool {
    let l = lower(path);
    contains(l, "/migration"@) || contains(l, "/migrations/"@) || contains(l, "\\migrations\\"@)
}

pub fn looks_like_migration_file(path: &str) -> (r: bool)
    ensures
        r == looks_like_migration(path@),
{
    let l = lower_exec(&chars_of(path));
    contains_str(&l, "/migration") || contains_str(&l, "/migrations/") || contains_str(&l, "\\migrations\\")
}

/// The file a migration node records: its `file` attribute, else its key.
pub open spec fn migration_file(n: NodeV) -> Seq<char> {
    match attr_text(n.attributes, "file"@) {
        Some(f) => f,
        None => key_without_prefix(n.stable_key),
    }
}

/// A migration node records `path`.
pub open spec fn migration_recorded(ns: Seq<NodeV>, path: Seq<char>) -> bool {
    exists|i: int| 0 <= i < ns.len() && (#[trigger] ns[i]).node_type == "Migration"@ && migration_file(ns[i]) == path
}

/// A code file that looks like a migration and that no migration records.
pub open spec fn file_drift(n: NodeV, ns: Seq<NodeV>) -> Seq<FullFinding> {
    if n.node_type == "CodeFile"@ {
        match attr_text(n.attributes, "path"@) {
            Some(p) => if looks_like_migration(p) && !migration_recorded(ns, p) {
                seq![
                    ("drift.migration_file_missing_graph_fact"@, FindingSeverity::Error, "Migration-like file `"@ + p
                        + "` has no Migration/DataGraph fact."@, seq![n.id], Seq::empty()),
                ]
            } else {
                Seq::empty()
            },
            None => Seq::empty(),
        }
    } else {
        Seq::empty()
    }
}

pub open spec fn files_drift(s: Seq<NodeV>, ns: Seq<NodeV>) -> Seq<FullFinding>
    decreases s.len(),
{
    if s.len() == 0 {
        Seq::empty()
    } else {
        files_drift(s.drop_last(), ns) + file_drift(s.last(), ns)
    }
}

fn migration_recorded_exec(nodes: &Vec<Node>, path: &String) -> (r: bool)
    ensures
        r == migration_recorded(views(nodes@), path@),
{
    let ghost ns = views(nodes@);
    let p = string_chars(path);
    let mut i: usize = 0;
    while i < nodes.len()
        invariant
            i <= nodes@.len(),
            ns == views(nodes@),
            p@ == path@,
            forall|j: int| 0 <= j < i ==> !((#[trigger] ns[j]).node_type == "Migration"@ && migration_file(ns[j]) == path@),
        decreases nodes@.len() - i,
    {
        let n = &nodes[i];
        assert(ns[i as int] == n@);
        if eq_str(&string_chars(&n.node_type), "Migration") {
            let file = match fields_text(&n.attributes, "file") {
                Some(f) => string_chars(&f),
                None => key_without_prefix_exec(&n.stable_key),
            };
            if eq_chars(&file, &p) {
                return true;
            }
        }
        i = i + 1;
    }
    false
}

fn check_migration_files(findings: &mut Vec<Finding>, graph: &Graph)
    ensures
        findings_full(final(findings)@) == findings_full(old(findings)@) + files_drift(graph.node_seq(), graph.node_seq()),
{
    let nodes = graph.nodes();
    let ghost ns = views(nodes@);
    let ghost f0 = findings_full(findings@);
    let mut i: usize = 0;
    while i < nodes.len()
        invariant
            i <= nodes@.len(),
            ns == views(nodes@),
            ns == graph.node_seq(),
            findings_full(findings@) == f0 + files_drift(ns.take(i as int), ns),
        decreases nodes@.len() - i,
    {
        let n = &nodes[i];
        assert(ns[i as int] == n@);
        let ghost ff = findings_full(findings@);
        if eq_str(&string_chars(&n.node_type), "CodeFile") {
            if let Some(path) = fields_text(&n.attributes, "path") {
                if looks_like_migration_file(path.as_str()) && !migration_recorded_exec(nodes, &path) {
                    let p = string_chars(&path);
                    let mut related: Vec<String> = Vec::new();
                    related.push(n.id.clone());
                    assert(strings_view(related@) =~= seq![n.id@]);
                    let no_edges: Vec<String> = Vec::new();
            assert(strings_view(no_edges@) =~= Seq::<Seq<char>>::empty());
                    push_related_finding(
                        findings,
                        "drift.migration_file_missing_graph_fact",
                        msg3("Migration-like file `", &p, "` has no Migration/DataGraph fact."),
                        related,
                        no_edges,
                    );
                }
            }
        }
        assert(findings_full(findings@) =~= ff + file_drift(ns[i as int], ns));
        assert(ns.take(i + 1).drop_last() =~= ns.take(i as int));
        assert(f0 + files_drift(ns.take(i + 1), ns) =~= f0 + files_drift(ns.take(i as int), ns) + file_drift(
            ns[i as int],
            ns,
        ));
        i = i + 1;
    }
    assert(ns.take(ns.len() as int) =~= ns);
}

// ------------------------------------------------------------ architecture

/// The node is code that a module can own.
pub open spec fn ownable(nm: Map<Seq<char>, NodeV>, id: Seq<char>) -> bool {
    nm.contains_key(id) && (nm[id].node_type == "CodeFile"@ || nm[id].node_type == "CodeSymbol"@
        || nm[id].node_type == "CodeRoute"@)
}

/// The modules that own a code node.
pub open spec fn owners(es: Seq<EdgeV>, nm: Map<Seq<char>, NodeV>, id: Seq<char>) -> Set<Seq<char>> {
    Set::new(
        |m: Seq<char>|
            ownable(nm, id) && exists|i: int|
                0 <= i < es.len() && (#[trigger] es[i]).edge_type == "OWNED_BY_MODULE"@ && es[i].from == id
                    && es[i].to == m,
    )
}

fn owners_of(graph: &Graph, id: &String) -> (r: Vec<String>)
    ensures
        sorted_strict(strings_view(r@)),
        strings_view(r@) == sorted_list(owners(graph.edge_seq(), graph.node_map(), id@)),
{
    let mut out: Vec<String> = Vec::new();
    let ghost target = owners(graph.edge_seq(), graph.node_map(), id@);
    let ok = match graph.node(id.as_str()) {
        Some(n) => {
            let t = string_chars(&n.node_type);
            eq_str(&t, "CodeFile") || eq_str(&t, "CodeSymbol") || eq_str(&t, "CodeRoute")
        },
        None => false,
    };
    assert(strings_view(out@).to_set() =~= Set::empty());
    if ok {
        let edges = graph.edges();
        let ghost es = views(edges@);
        let idc = string_chars(id);
        let mut i: usize = 0;
        while i < edges.len()
            invariant
                i <= edges@.len(),
                es == views(edges@),
                es == graph.edge_seq(),
                idc@ == id@,
                ownable(graph.node_map(), id@),
                sorted_strict(strings_view(out@)),
                strings_view(out@).to_set() == Set::new(
                    |m: Seq<char>|
                        exists|j: int|
                            0 <= j < i && (#[trigger] es[j]).edge_type == "OWNED_BY_MODULE"@ && es[j].from == id@
                                && es[j].to == m,
                ),
            decreases edges@.len() - i,
        {
            let e = &edges[i];
            assert(es[i as int] == e@);
            let ghost before = strings_view(out@).to_set();
            if eq_str(&string_chars(&e.edge_type), "OWNED_BY_MODULE") && eq_chars(&string_chars(&e.from), &idc) {
                sorted_insert(&mut out, e.to.clone());
            }
            assert(strings_view(out@).to_set() =~= Set::new(
                |m: Seq<char>|
                    exists|j: int|
                        0 <= j < i + 1 && (#[trigger] es[j]).edge_type == "OWNED_BY_MODULE"@ && es[j].from == id@
                            && es[j].to == m,
            )) by {
                assert forall|m: Seq<char>| #[trigger] strings_view(out@).to_set().contains(m) == (exists|j: int|
                    0 <= j < i + 1 && (#[trigger] es[j]).edge_type == "OWNED_BY_MODULE"@ && es[j].from == id@
                        && es[j].to == m) by {
                    if exists|j: int|
                        0 <= j < i + 1 && (#[trigger] es[j]).edge_type == "OWNED_BY_MODULE"@ && es[j].from == id@
                            && es[j].to == m {
                        let j = choose|j: int|
                            0 <= j < i + 1 && (#[trigger] es[j]).edge_type == "OWNED_BY_MODULE"@ && es[j].from == id@
                                && es[j].to == m;
                        if j < i {
                            assert(before.contains(m));
                        }
                    }
                }
            }
            i = i + 1;
        }
        assert(strings_view(out@).to_set() =~= target);
    } else {
        assert(target =~= Set::empty());
    }
    proof {
        lemma_sorted_list(strings_view(out@));
    }
    out
}

/// Each pair of distinct owning modules of an import's two ends that no
/// `CALLS` edge joins.
pub open spec fn pair_drift(f: Seq<char>, t: Seq<char>, e: EdgeV, es: Seq<EdgeV>) -> Seq<FullFinding> {
    if f != t && !has_edge(es, f, "CALLS"@, t) {
        seq![
            ("drift.import_missing_architecture_call"@, FindingSeverity::Error,
                "Code import crosses module ownership without a matching ArchitectureGraph CALLS edge."@,
                seq![e.from, e.to, f, t], seq![e.id]),
        ]
    } else {
        Seq::empty()
    }
}

pub open spec fn row_drift(f: Seq<char>, tl: Seq<Seq<char>>, e: EdgeV, es: Seq<EdgeV>) -> Seq<FullFinding>
    decreases tl.len(),
{
    if tl.len() == 0 {
        Seq::empty()
    } else {
        row_drift(f, tl.drop_last(), e, es) + pair_drift(f, tl.last(), e, es)
    }
}

pub open spec fn grid_drift(fl: Seq<Seq<char>>, tl: Seq<Seq<char>>, e: EdgeV, es: Seq<EdgeV>) -> Seq<FullFinding>
    decreases fl.len(),
{
    if fl.len() == 0 {
        Seq::empty()
    } else {
        grid_drift(fl.drop_last(), tl, e, es) + row_drift(fl.last(), tl, e, es)
    }
}

pub open spec fn import_drift(e: EdgeV, es: Seq<EdgeV>, nm: Map<Seq<char>, NodeV>) -> Seq<FullFinding> {
    if e.edge_type == "IMPORTS_FILE"@ {
        grid_drift(sorted_list(owners(es, nm, e.from)), sorted_list(owners(es, nm, e.to)), e, es)
    } else {
        Seq::empty()
    }
}

pub open spec fn imports_drift(s: Seq<EdgeV>, es: Seq<EdgeV>, nm: Map<Seq<char>, NodeV>) -> Seq<FullFinding>
    decreases s.len(),
{
    if s.len() == 0 {
        Seq::empty()
    } else {
        imports_drift(s.drop_last(), es, nm) + import_drift(s.last(), es, nm)
    }
}

fn check_pairs(findings: &mut Vec<Finding>, edges: &Vec<Edge>, e: &Edge, fl: &Vec<String>, tl: &Vec<String>)
    ensures
        findings_full(final(findings)@) == findings_full(old(findings)@) + grid_drift(
            strings_view(fl@),
            strings_view(tl@),
            e@,
            views(edges@),
        ),
{
    let ghost es = views(edges@);
    let ghost fs = strings_view(fl@);
    let ghost ts = strings_view(tl@);
    let ghost f0 = findings_full(findings@);
    let mut a: usize = 0;
    while a < fl.len()
        invariant
            a <= fs.len(),
            fs == strings_view(fl@),
            ts == strings_view(tl@),
            es == views(edges@),
            findings_full(findings@) == f0 + grid_drift(fs.take(a as int), ts, e@, es),
        decreases fs.len() - a,
    {
        let ghost g0 = findings_full(findings@);
        let mut b: usize = 0;
        while b < tl.len()
            invariant
                a < fs.len(),
                b <= ts.len(),
                fs == strings_view(fl@),
                ts == strings_view(tl@),
                es == views(edges@),
                findings_full(findings@) == g0 + row_drift(fs[a as int], ts.take(b as int), e@, es),
            decreases ts.len() - b,
        {
            let ghost ff = findings_full(findings@);
            let f = &fl[a];
            let t = &tl[b];
            if !eq_chars(&string_chars(f), &string_chars(t)) && !has_edge_exec(edges, f, "CALLS", t) {
                let mut related: Vec<String> = Vec::new();
                related.push(e.from.clone());
                related.push(e.to.clone());
                related.push(f.clone());
                related.push(t.clone());
                let mut redges: Vec<String> = Vec::new();
                redges.push(e.id.clone());
                assert(strings_view(related@) =~= seq![e.from@, e.to@, f@, t@]);
                assert(strings_view(redges@) =~= seq![e.id@]);
                push_related_finding(
                    findings,
                    "drift.import_missing_architecture_call",
                    String::from_str(
                        "Code import crosses module ownership without a matching ArchitectureGraph CALLS edge.",
                    ),
                    related,
                    redges,
                );
            }
            assert(findings_full(findings@) =~= ff + pair_drift(fs[a as int], ts[b as int], e@, es));
            assert(ts.take(b + 1).drop_last() =~= ts.take(b as int));
            assert(g0 + row_drift(fs[a as int], ts.take(b + 1), e@, es) =~= g0 + row_drift(
                fs[a as int],
                ts.take(b as int),
                e@,
                es,
            ) + pair_drift(fs[a as int], ts[b as int], e@, es));
            b = b + 1;
        }
        assert(ts.take(ts.len() as int) =~= ts);
        assert(fs.take(a + 1).drop_last() =~= fs.take(a as int));
        assert(f0 + grid_drift(fs.take(a + 1), ts, e@, es) =~= f0 + grid_drift(fs.take(a as int), ts, e@, es)
            + row_drift(fs[a as int], ts, e@, es));
        a = a + 1;
    }
    assert(fs.take(fs.len() as int) =~= fs);
}

fn check_imports(findings: &mut Vec<Finding>, graph: &Graph)
    ensures
        findings_full(final(findings)@) == findings_full(old(findings)@) + imports_drift(
            graph.edge_seq(),
            graph.edge_seq(),
            graph.node_map(),
        ),
{
    let edges = graph.edges();
    let ghost es = views(edges@);
    let ghost f0 = findings_full(findings@);
    let mut i: usize = 0;
    while i < edges.len()
        invariant
            i <= edges@.len(),
            es == views(edges@),
            es == graph.edge_seq(),
            findings_full(findings@) == f0 + imports_drift(es.take(i as int), es, graph.node_map()),
        decreases edges@.len() - i,
    {
        let e = &edges[i];
        assert(es[i as int] == e@);
        let ghost ff = findings_full(findings@);
        if eq_str(&string_chars(&e.edge_type), "IMPORTS_FILE") {
            let fl = owners_of(graph, &e.from);
            let tl = owners_of(graph, &e.to);
            check_pairs(findings, edges, e, &fl, &tl);
        }
        assert(findings_full(findings@) =~= ff + import_drift(es[i as int], es, graph.node_map()));
        assert(es.take(i + 1).drop_last() =~= es.take(i as int));
        assert(f0 + imports_drift(es.take(i + 1), es, graph.node_map()) =~= f0 + imports_drift(
            es.take(i as int),
            es,
            graph.node_map(),
        ) + import_drift(es[i as int], es, graph.node_map()));
        i = i + 1;
    }
    assert(es.take(es.len() as int) =~= es);
}

// ------------------------------------------------------------ the report

/// Every drift finding, in the order the checks run: endpoints without a
/// route, behaviors without code, behaviors without a test, risks without
/// evidence, unrecorded migration files, then imports that cross module
/// ownership without an architecture call.
pub open spec fn drift_findings(ns: Seq<NodeV>, es: Seq<EdgeV>, nm: Map<Seq<char>, NodeV>) -> Seq<FullFinding> {
    links_drift(ns, es, "Endpoint"@, "ROUTES_TO_ENDPOINT"@, "drift.endpoint_missing_route"@, "Endpoint `"@,
        "` has no linked CodeRoute. This indicates spec-code drift."@)
    + links_drift(ns, es, "Behavior"@, "IMPLEMENTS_BEHAVIOR"@, "drift.behavior_missing_code"@, "Behavior `"@,
        "` has no implementing CodeGraph fact."@)
    + links_drift(ns, es, "Behavior"@, "TESTS_BEHAVIOR"@, "drift.behavior_missing_test"@, "Behavior `"@,
        "` has no linked TestCase evidence."@)
    + risks_drift(ns, es)
    + files_drift(ns, ns)
    + imports_drift(es, es, nm)
}

/// The number of findings that block.
pub open spec fn blockers(fs: Seq<FullFinding>) -> nat
    decreases fs.len(),
{
    if fs.len() == 0 {
        0
    } else {
        blockers(fs.drop_last()) + if fs.last().1 == FindingSeverity::Error {
            1nat
        } else {
            0nat
        }
    }
}

pub fn detect_drift(graph: &Graph) -> (report: DriftReport)
    ensures
        findings_full(report.findings@) == drift_findings(graph.node_seq(), graph.edge_seq(), graph.node_map()),
        report.blocker_count == blockers(findings_full(report.findings@)),
{
    let mut findings: Vec<Finding> = Vec::new();
    assert(findings_full(findings@) =~= Seq::empty());
    check_links(
        &mut findings,
        graph,
        "Endpoint",
        "ROUTES_TO_ENDPOINT",
        "drift.endpoint_missing_route",
        "Endpoint `",
        "` has no linked CodeRoute. This indicates spec-code drift.",
    );
    check_links(
        &mut findings,
        graph,
        "Behavior",
        "IMPLEMENTS_BEHAVIOR",
        "drift.behavior_missing_code",
        "Behavior `",
        "` has no implementing CodeGraph fact.",
    );
    check_links(
        &mut findings,
        graph,
        "Behavior",
        "TESTS_BEHAVIOR",
        "drift.behavior_missing_test",
        "Behavior `",
        "` has no linked TestCase evidence.",
    );
    check_risks(&mut findings, graph);
    check_migration_files(&mut findings, graph);
    check_imports(&mut findings, graph);
    assert(findings_full(findings@) =~= drift_findings(graph.node_seq(), graph.edge_seq(), graph.node_map()));
    let ghost fv = findings_full(findings@);
    let mut count: usize = 0;
    let mut i: usize = 0;
    while i < findings.len()
        invariant
            i <= findings@.len(),
            fv == findings_full(findings@),
            count == blockers(fv.take(i as int)),
            count <= i,
        decreases findings@.len() - i,
    {
        assert(fv.take(i + 1).drop_last() =~= fv.take(i as int));
        assert(fv[i as int].1 == findings@[i as int].severity);
        if findings[i].severity == FindingSeverity::Error {
            count = count + 1;
        }
        i = i + 1;
    }
    assert(fv.take(fv.len() as int) =~= fv);
    DriftReport { findings, blocker_count: count }
}


/// A drift report blocks exactly when one of its findings is an error.
pub proof fn drift_blocks_iff_error(fs: Seq<FullFinding>)
    ensures
        blockers(fs) > 0 <==> exists|i: int| 0 <= i < fs.len() && (#[trigger] fs[i]).1 == FindingSeverity::Error,
    decreases fs.len(),
{
    if fs.len() > 0 {
        let init = fs.drop_last();
        drift_blocks_iff_error(init);
        if exists|i: int| 0 <= i < init.len() && (#[trigger] init[i]).1 == FindingSeverity::Error {
            let i = choose|i: int| 0 <= i < init.len() && (#[trigger] init[i]).1 == FindingSeverity::Error;
            assert(fs[i] == init[i]);
        }
        if exists|i: int| 0 <= i < fs.len() && (#[trigger] fs[i]).1 == FindingSeverity::Error {
            let i = choose|i: int| 0 <= i < fs.len() && (#[trigger] fs[i]).1 == FindingSeverity::Error;
            if i < init.len() {
                assert(init[i] == fs[i]);
            }
        }
    }
}


/// Whether every finding of `fs` carries `code`.
pub open spec fn all_coded(fs: Seq<FullFinding>, code: Seq<char>) -> bool {
    forall|i: int| 0 <= i < fs.len() ==> (#[trigger] fs[i]).0 == code
}

proof fn lemma_all_coded_concat(a: Seq<FullFinding>, b: Seq<FullFinding>, code: Seq<char>)
    requires
        all_coded(a, code),
        all_coded(b, code),
    ensures
        all_coded(a + b, code),
{
    assert forall|i: int| 0 <= i < (a + b).len() implies (#[trigger] (a + b)[i]).0 == code by {
        if i < a.len() {
            assert((a + b)[i] == a[i]);
        } else {
            assert((a + b)[i] == b[i - a.len()]);
        }
    }
}

proof fn lemma_links_coded(ns: Seq<NodeV>, es: Seq<EdgeV>, ty: Seq<char>, et: Seq<char>, code: Seq<char>, pre: Seq<char>, suf: Seq<char>)
    ensures
        all_coded(links_drift(ns, es, ty, et, code, pre, suf), code),
    decreases ns.len(),
{
    if ns.len() > 0 {
        lemma_links_coded(ns.drop_last(), es, ty, et, code, pre, suf);
        lemma_all_coded_concat(
            links_drift(ns.drop_last(), es, ty, et, code, pre, suf),
            link_drift(ns.last(), es, ty, et, code, pre, suf),
            code,
        );
    }
}

proof fn lemma_files_coded(s: Seq<NodeV>, ns: Seq<NodeV>)
    ensures
        all_coded(files_drift(s, ns), "drift.migration_file_missing_graph_fact"@),
    decreases s.len(),
{
    if s.len() > 0 {
        lemma_files_coded(s.drop_last(), ns);
        lemma_all_coded_concat(files_drift(s.drop_last(), ns), file_drift(s.last(), ns), "drift.migration_file_missing_graph_fact"@);
    }
}

proof fn lemma_row_coded(f: Seq<char>, tl: Seq<Seq<char>>, e: EdgeV, es: Seq<EdgeV>)
    ensures
        all_coded(row_drift(f, tl, e, es), "drift.import_missing_architecture_call"@),
    decreases tl.len(),
{
    if tl.len() > 0 {
        lemma_row_coded(f, tl.drop_last(), e, es);
        lemma_all_coded_concat(row_drift(f, tl.drop_last(), e, es), pair_drift(f, tl.last(), e, es), "drift.import_missing_architecture_call"@);
    }
}

proof fn lemma_grid_coded(fl: Seq<Seq<char>>, tl: Seq<Seq<char>>, e: EdgeV, es: Seq<EdgeV>)
    ensures
        all_coded(grid_drift(fl, tl, e, es), "drift.import_missing_architecture_call"@),
    decreases fl.len(),
{
    if fl.len() > 0 {
        lemma_grid_coded(fl.drop_last(), tl, e, es);
        lemma_row_coded(fl.last(), tl, e, es);
        lemma_all_coded_concat(grid_drift(fl.drop_last(), tl, e, es), row_drift(fl.last(), tl, e, es), "drift.import_missing_architecture_call"@);
    }
}

proof fn lemma_imports_coded(s: Seq<EdgeV>, es: Seq<EdgeV>, nm: Map<Seq<char>, NodeV>)
    ensures
        all_coded(imports_drift(s, es, nm), "drift.import_missing_architecture_call"@),
    decreases s.len(),
{
    if s.len() > 0 {
        lemma_imports_coded(s.drop_last(), es, nm);
        let e = s.last();
        if e.edge_type == "IMPORTS_FILE"@ {
            lemma_grid_coded(sorted_list(owners(es, nm, e.from)), sorted_list(owners(es, nm, e.to)), e, es);
        }
        lemma_all_coded_concat(imports_drift(s.drop_last(), es, nm), import_drift(e, es, nm), "drift.import_missing_architecture_call"@);
    }
}

/// Whether `n` is a Risk that neither a regression test (`TESTS_RISK`) nor
/// mitigating code (`ADDRESSES_RISK`) points at.
pub open spec fn unmitigated_risk(n: NodeV, es: Seq<EdgeV>) -> bool {
    n.node_type == "Risk"@ && !incoming(es, n.id, "TESTS_RISK"@) && !incoming(es, n.id, "ADDRESSES_RISK"@)
}

proof fn lemma_risks(ns: Seq<NodeV>, es: Seq<EdgeV>)
    ensures
        forall|i: int|
            0 <= i < ns.len() && unmitigated_risk(#[trigger] ns[i], es) ==> exists|j: int|
                0 <= j < risks_drift(ns, es).len() && (#[trigger] risks_drift(ns, es)[j]).0
                    == "drift.risk_missing_mitigation_evidence"@ && risks_drift(ns, es)[j].3 == seq![ns[i].id],
        forall|j: int|
            0 <= j < risks_drift(ns, es).len() ==> (#[trigger] risks_drift(ns, es)[j]).0
                == "drift.risk_missing_mitigation_evidence"@ && exists|i: int|
                0 <= i < ns.len() && unmitigated_risk(#[trigger] ns[i], es) && risks_drift(ns, es)[j].3 == seq![ns[i].id],
    decreases ns.len(),
{
    if ns.len() > 0 {
        let init = ns.drop_last();
        lemma_risks(init, es);
        let a = risks_drift(init, es);
        let b = risk_drift(ns.last(), es);
        let all = risks_drift(ns, es);
        assert(all == a + b);
        assert(ns.last() == ns[ns.len() - 1]);
        assert forall|i: int| 0 <= i < ns.len() && unmitigated_risk(#[trigger] ns[i], es) implies exists|j: int|
            0 <= j < all.len() && (#[trigger] all[j]).0 == "drift.risk_missing_mitigation_evidence"@ && all[j].3
                == seq![ns[i].id] by {
            if i < ns.len() - 1 {
                assert(init[i] == ns[i]);
                let j = choose|j: int|
                    0 <= j < a.len() && (#[trigger] a[j]).0 == "drift.risk_missing_mitigation_evidence"@ && a[j].3
                        == seq![init[i].id];
                assert(all[j] == a[j]);
            } else {
                assert(all[a.len() as int] == b[0]);
            }
        }
        assert forall|j: int| 0 <= j < all.len() implies (#[trigger] all[j]).0 == "drift.risk_missing_mitigation_evidence"@
            && exists|i: int| 0 <= i < ns.len() && unmitigated_risk(#[trigger] ns[i], es) && all[j].3 == seq![ns[i].id] by {
            if j < a.len() {
                assert(all[j] == a[j]);
                let i = choose|i: int| 0 <= i < init.len() && unmitigated_risk(#[trigger] init[i], es) && a[j].3 == seq![init[i].id];
                assert(init[i] == ns[i]);
            } else {
                assert(all[j] == b[j - a.len()]);
                assert(unmitigated_risk(ns[ns.len() - 1], es));
            }
        }
    }
}

/// A Risk node is reported as `drift.risk_missing_mitigation_evidence`
/// exactly when neither a regression test (`TESTS_RISK`) nor mitigating code
/// (`ADDRESSES_RISK`) points at it: every such risk is reported, naming it,
/// and every such report names a risk that has neither.
pub proof fn risk_reported_iff_unmitigated(ns: Seq<NodeV>, es: Seq<EdgeV>, nm: Map<Seq<char>, NodeV>)
    ensures
        forall|i: int|
            0 <= i < ns.len() && (#[trigger] ns[i]).node_type == "Risk"@ && !incoming(es, ns[i].id, "TESTS_RISK"@)
                && !incoming(es, ns[i].id, "ADDRESSES_RISK"@) ==> exists|j: int|
                0 <= j < drift_findings(ns, es, nm).len() && (#[trigger] drift_findings(ns, es, nm)[j]).0
                    == "drift.risk_missing_mitigation_evidence"@ && drift_findings(ns, es, nm)[j].3 == seq![ns[i].id],
        forall|j: int|
            0 <= j < drift_findings(ns, es, nm).len() && (#[trigger] drift_findings(ns, es, nm)[j]).0
                == "drift.risk_missing_mitigation_evidence"@ ==> exists|i: int|
                0 <= i < ns.len() && (#[trigger] ns[i]).node_type == "Risk"@ && !incoming(es, ns[i].id, "TESTS_RISK"@)
                    && !incoming(es, ns[i].id, "ADDRESSES_RISK"@) && drift_findings(ns, es, nm)[j].3 == seq![ns[i].id],
{
    let rc = "drift.risk_missing_mitigation_evidence"@;
    let c1 = "drift.endpoint_missing_route"@;
    let c2 = "drift.behavior_missing_code"@;
    let c3 = "drift.behavior_missing_test"@;
    let c4 = "drift.migration_file_missing_graph_fact"@;
    let c5 = "drift.import_missing_architecture_call"@;
    reveal_strlit("drift.risk_missing_mitigation_evidence");
    reveal_strlit("drift.endpoint_missing_route");
    reveal_strlit("drift.behavior_missing_code");
    reveal_strlit("drift.behavior_missing_test");
    reveal_strlit("drift.migration_file_missing_graph_fact");
    reveal_strlit("drift.import_missing_architecture_call");
    assert(rc.len() == 38 && c1.len() == 28 && c2.len() == 27 && c3.len() == 27 && c4.len() == 39 && c5.len() == 38);
    assert(rc[6] == 'r' && c5[6] == 'i');
    assert(rc != c1 && rc != c2 && rc != c3 && rc != c4 && rc != c5);
    let l1 = links_drift(ns, es, "Endpoint"@, "ROUTES_TO_ENDPOINT"@, c1, "Endpoint `"@,
        "` has no linked CodeRoute. This indicates spec-code drift."@);
    let l2 = links_drift(ns, es, "Behavior"@, "IMPLEMENTS_BEHAVIOR"@, c2, "Behavior `"@,
        "` has no implementing CodeGraph fact."@);
    let l3 = links_drift(ns, es, "Behavior"@, "TESTS_BEHAVIOR"@, c3, "Behavior `"@,
        "` has no linked TestCase evidence."@);
    let r = risks_drift(ns, es);
    let f = files_drift(ns, ns);
    let m = imports_drift(es, es, nm);
    lemma_links_coded(ns, es, "Endpoint"@, "ROUTES_TO_ENDPOINT"@, c1, "Endpoint `"@,
        "` has no linked CodeRoute. This indicates spec-code drift."@);
    lemma_links_coded(ns, es, "Behavior"@, "IMPLEMENTS_BEHAVIOR"@, c2, "Behavior `"@,
        "` has no implementing CodeGraph fact."@);
    lemma_links_coded(ns, es, "Behavior"@, "TESTS_BEHAVIOR"@, c3, "Behavior `"@,
        "` has no linked TestCase evidence."@);
    lemma_files_coded(ns, ns);
    lemma_imports_coded(es, es, nm);
    lemma_risks(ns, es);
    let df = drift_findings(ns, es, nm);
    let head = l1 + l2 + l3;
    assert(df == head + r + f + m);
    assert forall|j: int| 0 <= j < head.len() implies (#[trigger] head[j]).0 != rc by {
        if j < l1.len() {
            assert(head[j] == l1[j]);
        } else if j < l1.len() + l2.len() {
            assert(head[j] == l2[j - l1.len()]);
        } else {
            assert(head[j] == l3[j - l1.len() - l2.len()]);
        }
    }
    assert forall|i: int|
        0 <= i < ns.len() && (#[trigger] ns[i]).node_type == "Risk"@ && !incoming(es, ns[i].id, "TESTS_RISK"@)
            && !incoming(es, ns[i].id, "ADDRESSES_RISK"@) implies exists|j: int|
        0 <= j < df.len() && (#[trigger] df[j]).0 == rc && df[j].3 == seq![ns[i].id] by {
        assert(unmitigated_risk(ns[i], es));
        let j = choose|j: int| 0 <= j < r.len() && (#[trigger] r[j]).0 == rc && r[j].3 == seq![ns[i].id];
        assert(df[head.len() + j] == r[j]);
    }
    assert forall|j: int| 0 <= j < df.len() && (#[trigger] df[j]).0 == rc implies exists|i: int|
        0 <= i < ns.len() && (#[trigger] ns[i]).node_type == "Risk"@ && !incoming(es, ns[i].id, "TESTS_RISK"@)
            && !incoming(es, ns[i].id, "ADDRESSES_RISK"@) && df[j].3 == seq![ns[i].id] by {
        if j < head.len() {
            assert(df[j] == head[j]);
        } else if j < head.len() + r.len() {
            assert(df[j] == r[j - head.len()]);
            let i = choose|i: int| 0 <= i < ns.len() && unmitigated_risk(#[trigger] ns[i], es) && r[j - head.len()].3 == seq![ns[i].id];
            assert(unmitigated_risk(ns[i], es));
        } else if j < head.len() + r.len() + f.len() {
            assert(df[j] == f[j - head.len() - r.len()]);
        } else {
            assert(df[j] == m[j - head.len() - r.len() - f.len()]);
        }
    }
}

} // verus!
