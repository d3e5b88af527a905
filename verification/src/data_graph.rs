//! DataGraph facts: tables, their columns, and data contracts.

use crate::git_graph::{FullFinding, has_outgoing, no_ids, one_id, outgoing};
use crate::ids::{stable, stable_node_id, stable_view};
use crate::keyed::{first_wins, keyed_map, keyed_sorted, views};
use crate::model::{
    DeltaBuilder, Edge, EdgeV, Finding, FindingSeverity, Graph, GraphDelta, JsonV, JsonValue, Node, NodeV,
    edge_of, findings_full, json_fields_view, make_edge, make_node, push_attr, push_related_finding,
    push_text,
};
use crate::text::{append, chars_of, eq_chars, eq_str, msg3, string_chars, string_of, strings_view};
use vstd::prelude::*;

verus! {

#[derive(Debug, Clone, PartialEq, Eq)]
pub struct DataGraphProjection {
    pub project_node_id: String,
    pub tables: Vec<TableDefinition>,
    pub data_contracts: Vec<DataContractDefinition>,
}

#[derive(Debug, Clone, PartialEq, Eq)]
pub struct TableDefinition {
    pub name: String,
    pub owner_module: String,
    pub persistence: Option<String>,
    pub columns: Vec<ColumnDefinition>,
}

#[derive(Debug, Clone, PartialEq, Eq)]
pub struct ColumnDefinition {
    pub name: String,
    pub data_type: String,
    pub nullable: bool,
    pub primary_key: bool,
}

#[derive(Debug, Clone, PartialEq, Eq)]
pub struct DataContractDefinition {
    pub name: String,
    pub owner_module: String,
    pub tables: Vec<String>,
    pub consumers: Vec<String>,
}

/// `node_table_{stable(name)}`.
pub fn table_node_id(name: &str) -> (r: String)
    ensures
        r@ == "node"@ + "_"@ + stable_view("table"@) + "_"@ + stable_view(name@),
{
    stable_node_id("table", name)
}

/// `node_column_{stable(table)}_{stable(name)}`.
pub fn column_node_id(table_name: &str, name: &str) -> (r: String)
    ensures
        r@ == "node_column"@ + "_"@ + stable_view(table_name@) + "_"@ + stable_view(name@),
{
    crate::ids::stable_id2("node_column", table_name, name)
}

/// `node_data-contract_{stable(name)}`.
pub fn data_contract_node_id(name: &str) -> (r: String)
    ensures
        r@ == "node"@ + "_"@ + stable_view("data_contract"@) + "_"@ + stable_view(name@),
{
    stable_node_id("data_contract", name)
}

/// `node_module_{stable(name)}`.
pub fn module_node_id(name: &str) -> (r: String)
    ensures
        r@ == "node"@ + "_"@ + stable_view("module"@) + "_"@ + stable_view(name@),
{
    stable_node_id("module", name)
}


pub open spec fn sid(kind: Seq<char>, value: Seq<char>) -> Seq<char> {
    "node"@ + "_"@ + stable_view(kind) + "_"@ + stable_view(value)
}

pub open spec fn column_id(table: Seq<char>, name: Seq<char>) -> Seq<char> {
    "node_column"@ + "_"@ + stable_view(table) + "_"@ + stable_view(name)
}

pub open spec fn opt_persistence(p: Option<String>) -> Seq<(Seq<char>, JsonV)> {
    match p {
        Some(v) => seq![("persistence"@, JsonV::Text(v@))],
        None => Seq::empty(),
    }
}

/// The Table node of a definition; `persistence` only where it is given.
pub open spec fn table_spec_node(t: TableDefinition) -> NodeV {
    NodeV {
        id: sid("table"@, t.name@),
        stable_key: "table:"@ + stable_view(t.name@),
        node_type: "Table"@,
        attributes: seq![("name"@, JsonV::Text(t.name@)), ("ownerModule"@, JsonV::Text(t.owner_module@))]
            + opt_persistence(t.persistence),
    }
}

pub open spec fn column_spec_node(table: Seq<char>, c: ColumnDefinition) -> NodeV {
    NodeV {
        id: column_id(table, c.name@),
        stable_key: "column:"@ + stable_view(table) + "/"@ + stable_view(c.name@),
        node_type: "Column"@,
        attributes: seq![
            ("dataType"@, JsonV::Text(c.data_type@)),
            ("name"@, JsonV::Text(c.name@)),
            ("nullable"@, JsonV::Bool(c.nullable)),
            ("primaryKey"@, JsonV::Bool(c.primary_key)),
            ("table"@, JsonV::Text(table)),
        ],
    }
}

pub open spec fn columns_nodes(table: Seq<char>, cs: Seq<ColumnDefinition>) -> Seq<NodeV>
    decreases cs.len(),
{
    if cs.len() == 0 {
        Seq::empty()
    } else {
        columns_nodes(table, cs.drop_last()).push(column_spec_node(table, cs.last()))
    }
}

pub open spec fn columns_edges(table: Seq<char>, cs: Seq<ColumnDefinition>) -> Seq<EdgeV>
    decreases cs.len(),
{
    if cs.len() == 0 {
        Seq::empty()
    } else {
        columns_edges(table, cs.drop_last()).push(
            edge_of(sid("table"@, table), "HAS_COLUMN"@, column_id(table, cs.last().name@)),
        )
    }
}

pub open spec fn tables_nodes(ts: Seq<TableDefinition>) -> Seq<NodeV>
    decreases ts.len(),
{
    if ts.len() == 0 {
        Seq::empty()
    } else {
        let t = ts.last();
        tables_nodes(ts.drop_last()) + seq![table_spec_node(t)] + columns_nodes(t.name@, t.columns@)
    }
}

pub open spec fn tables_edges(project: Seq<char>, ts: Seq<TableDefinition>) -> Seq<EdgeV>
    decreases ts.len(),
{
    if ts.len() == 0 {
        Seq::empty()
    } else {
        let t = ts.last();
        let tid = sid("table"@, t.name@);
        tables_edges(project, ts.drop_last()) + seq![
            edge_of(project, "HAS_TABLE"@, tid),
            edge_of(sid("module"@, t.owner_module@), "OWNS_TABLE"@, tid),
        ] + columns_edges(t.name@, t.columns@)
    }
}

pub open spec fn contract_spec_node(c: DataContractDefinition) -> NodeV {
    NodeV {
        id: sid("data_contract"@, c.name@),
        stable_key: "data-contract:"@ + stable_view(c.name@),
        node_type: "DataContract"@,
        attributes: seq![("name"@, JsonV::Text(c.name@)), ("ownerModule"@, JsonV::Text(c.owner_module@))],
    }
}

pub open spec fn covers_edges(cid: Seq<char>, tables: Seq<Seq<char>>) -> Seq<EdgeV>
    decreases tables.len(),
{
    if tables.len() == 0 {
        Seq::empty()
    } else {
        covers_edges(cid, tables.drop_last()).push(edge_of(cid, "COVERS_TABLE"@, sid("table"@, tables.last())))
    }
}

pub open spec fn consumes_edges(cid: Seq<char>, consumers: Seq<Seq<char>>) -> Seq<EdgeV>
    decreases consumers.len(),
{
    if consumers.len() == 0 {
        Seq::empty()
    } else {
        consumes_edges(cid, consumers.drop_last()).push(
            edge_of(sid("module"@, consumers.last()), "CONSUMES_DATA_CONTRACT"@, cid),
        )
    }
}

pub open spec fn contracts_nodes(cs: Seq<DataContractDefinition>) -> Seq<NodeV>
    decreases cs.len(),
{
    if cs.len() == 0 {
        Seq::empty()
    } else {
        contracts_nodes(cs.drop_last()).push(contract_spec_node(cs.last()))
    }
}

pub open spec fn contracts_edges(project: Seq<char>, cs: Seq<DataContractDefinition>) -> Seq<EdgeV>
    decreases cs.len(),
{
    if cs.len() == 0 {
        Seq::empty()
    } else {
        let c = cs.last();
        let cid = sid("data_contract"@, c.name@);
        contracts_edges(project, cs.drop_last()) + seq![
            edge_of(project, "HAS_DATA_CONTRACT"@, cid),
            edge_of(sid("module"@, c.owner_module@), "OWNS_DATA_CONTRACT"@, cid),
        ] + covers_edges(cid, strings_view(c.tables@)) + consumes_edges(cid, strings_view(c.consumers@))
    }
}

/// Every node the projection emits, in emission order: each table then its
/// columns, then the contracts.
pub open spec fn data_nodes(p: DataGraphProjection) -> Seq<NodeV> {
    tables_nodes(p.tables@) + contracts_nodes(p.data_contracts@)
}

/// Every edge the projection emits, in emission order.
pub open spec fn data_edges(p: DataGraphProjection) -> Seq<EdgeV> {
    tables_edges(p.project_node_id@, p.tables@) + contracts_edges(p.project_node_id@, p.data_contracts@)
}

fn table_node(t: &TableDefinition) -> (n: Node)
    ensures
        n@ == table_spec_node(*t),
{
    let mut a: Vec<(String, JsonValue)> = Vec::new();
    assert(json_fields_view(a@) =~= Seq::empty());
    push_text(&mut a, "name", t.name.as_str());
    push_text(&mut a, "ownerModule", t.owner_module.as_str());
    match &t.persistence {
        Some(p) => push_text(&mut a, "persistence", p.as_str()),
        None => {},
    }
    let mut key = chars_of("table:");
    append(&mut key, &string_chars(&stable(t.name.as_str())));
    assert(json_fields_view(a@) =~= table_spec_node(*t).attributes);
    make_node(table_node_id(t.name.as_str()), string_of(&key), "Table", a)
}

fn column_node(table: &str, c: &ColumnDefinition) -> (n: Node)
    ensures
        n@ == column_spec_node(table@, *c),
{
    let mut a: Vec<(String, JsonValue)> = Vec::new();
    assert(json_fields_view(a@) =~= Seq::empty());
    push_text(&mut a, "dataType", c.data_type.as_str());
    push_text(&mut a, "name", c.name.as_str());
    push_attr(&mut a, "nullable", JsonValue::Bool(c.nullable));
    push_attr(&mut a, "primaryKey", JsonValue::Bool(c.primary_key));
    push_text(&mut a, "table", table);
    let mut key = chars_of("column:");
    append(&mut key, &string_chars(&stable(table)));
    append(&mut key, &chars_of("/"));
    append(&mut key, &string_chars(&stable(c.name.as_str())));
    assert(json_fields_view(a@) =~= column_spec_node(table@, *c).attributes);
    make_node(column_node_id(table, c.name.as_str()), string_of(&key), "Column", a)
}

fn contract_node(c: &DataContractDefinition) -> (n: Node)
    ensures
        n@ == contract_spec_node(*c),
{
    let mut a: Vec<(String, JsonValue)> = Vec::new();
    assert(json_fields_view(a@) =~= Seq::empty());
    push_text(&mut a, "name", c.name.as_str());
    push_text(&mut a, "ownerModule", c.owner_module.as_str());
    let mut key = chars_of("data-contract:");
    append(&mut key, &string_chars(&stable(c.name.as_str())));
    assert(json_fields_view(a@) =~= contract_spec_node(*c).attributes);
    make_node(data_contract_node_id(c.name.as_str()), string_of(&key), "DataContract", a)
}

fn add_table(b: &mut DeltaBuilder, project: &str, t: &TableDefinition)
    ensures
        final(b).node_log() == old(b).node_log() + tables_nodes(seq![*t]),
        final(b).edge_log() == old(b).edge_log() + tables_edges(project@, seq![*t]),
{
    let ghost n0 = b.node_log();
    let ghost e0 = b.edge_log();
    let tid = table_node_id(t.name.as_str());
    b.add_node(table_node(t));
    b.add_edge(make_edge(project, "HAS_TABLE", tid.as_str()));
    b.add_edge(make_edge(module_node_id(t.owner_module.as_str()).as_str(), "OWNS_TABLE", tid.as_str()));
    let ghost n1 = b.node_log();
    let ghost e1 = b.edge_log();
    let ghost cs = t.columns@;
    let mut k: usize = 0;
    while k < t.columns.len()
        invariant
            k <= cs.len(),
            cs == t.columns@,
            tid@ == sid("table"@, t.name@),
            b.node_log() == n1 + columns_nodes(t.name@, cs.take(k as int)),
            b.edge_log() == e1 + columns_edges(t.name@, cs.take(k as int)),
        decreases cs.len() - k,
    {
        let c = &t.columns[k];
        b.add_node(column_node(t.name.as_str(), c));
        b.add_edge(make_edge(tid.as_str(), "HAS_COLUMN", column_node_id(t.name.as_str(), c.name.as_str()).as_str()));
        assert(cs.take(k + 1).drop_last() =~= cs.take(k as int));
        assert(cs.take(k + 1).last() == *c);
        assert(b.node_log() =~= n1 + columns_nodes(t.name@, cs.take(k + 1)));
        assert(b.edge_log() =~= e1 + columns_edges(t.name@, cs.take(k + 1)));
        k = k + 1;
    }
    assert(cs.take(cs.len() as int) =~= cs);
    proof {
        let one = seq![*t];
        assert(one.drop_last() =~= Seq::<TableDefinition>::empty());
        assert(one.last() == *t);
        assert(tables_nodes(one) == tables_nodes(one.drop_last()) + seq![table_spec_node(*t)] + columns_nodes(
            t.name@,
            cs,
        ));
        assert(tables_edges(project@, one) == tables_edges(project@, one.drop_last()) + seq![
            edge_of(project@, "HAS_TABLE"@, tid@),
            edge_of(sid("module"@, t.owner_module@), "OWNS_TABLE"@, tid@),
        ] + columns_edges(t.name@, cs));
        assert(b.node_log() =~= n0 + tables_nodes(one));
        assert(b.edge_log() =~= e0 + tables_edges(project@, one));
    }
}

fn add_contract(b: &mut DeltaBuilder, project: &str, c: &DataContractDefinition)
    ensures
        final(b).node_log() == old(b).node_log() + contracts_nodes(seq![*c]),
        final(b).edge_log() == old(b).edge_log() + contracts_edges(project@, seq![*c]),
{
    let ghost n0 = b.node_log();
    let ghost e0 = b.edge_log();
    let cid = data_contract_node_id(c.name.as_str());
    b.add_node(contract_node(c));
    b.add_edge(make_edge(project, "HAS_DATA_CONTRACT", cid.as_str()));
    b.add_edge(make_edge(module_node_id(c.owner_module.as_str()).as_str(), "OWNS_DATA_CONTRACT", cid.as_str()));
    let ghost e1 = b.edge_log();
    let ghost ts = strings_view(c.tables@);
    let mut k: usize = 0;
    while k < c.tables.len()
        invariant
            k <= ts.len(),
            ts == strings_view(c.tables@),
            cid@ == sid("data_contract"@, c.name@),
            b.node_log() == n0.push(contract_spec_node(*c)),
            b.edge_log() == e1 + covers_edges(cid@, ts.take(k as int)),
        decreases ts.len() - k,
    {
        b.add_edge(make_edge(cid.as_str(), "COVERS_TABLE", table_node_id(c.tables[k].as_str()).as_str()));
        assert(ts.take(k + 1).drop_last() =~= ts.take(k as int));
        assert(ts[k as int] == c.tables@[k as int]@);
        assert(b.edge_log() =~= e1 + covers_edges(cid@, ts.take(k + 1)));
        k = k + 1;
    }
    assert(ts.take(ts.len() as int) =~= ts);
    let ghost e2 = b.edge_log();
    let ghost us = strings_view(c.consumers@);
    let mut k: usize = 0;
    while k < c.consumers.len()
        invariant
            k <= us.len(),
            us == strings_view(c.consumers@),
            cid@ == sid("data_contract"@, c.name@),
            b.node_log() == n0.push(contract_spec_node(*c)),
            b.edge_log() == e2 + consumes_edges(cid@, us.take(k as int)),
        decreases us.len() - k,
    {
        b.add_edge(make_edge(module_node_id(c.consumers[k].as_str()).as_str(), "CONSUMES_DATA_CONTRACT", cid.as_str()));
        assert(us.take(k + 1).drop_last() =~= us.take(k as int));
        assert(us[k as int] == c.consumers@[k as int]@);
        assert(b.edge_log() =~= e2 + consumes_edges(cid@, us.take(k + 1)));
        k = k + 1;
    }
    assert(us.take(us.len() as int) =~= us);
    proof {
        let one = seq![*c];
        assert(one.drop_last() =~= Seq::<DataContractDefinition>::empty());
        assert(one.last() == *c);
        assert(contracts_nodes(one) == contracts_nodes(one.drop_last()).push(contract_spec_node(*c)));
        assert(contracts_edges(project@, one) == contracts_edges(project@, one.drop_last()) + seq![
            edge_of(project@, "HAS_DATA_CONTRACT"@, cid@),
            edge_of(sid("module"@, c.owner_module@), "OWNS_DATA_CONTRACT"@, cid@),
        ] + covers_edges(cid@, ts) + consumes_edges(cid@, us));
        assert(b.node_log() =~= n0 + contracts_nodes(one));
        assert(b.edge_log() =~= e0 + contracts_edges(project@, one));
    }
}

impl DataGraphProjection {
    /// Table, column and data-contract nodes with their ownership, column,
    /// coverage and consumer edges, each id once (the first emitted wins),
    /// in id order.
    pub fn to_delta(&self) -> (d: GraphDelta)
        ensures
            keyed_sorted::<Node>(views(d.create_nodes@)),
            keyed_sorted::<Edge>(views(d.create_edges@)),
            keyed_map::<Node>(views(d.create_nodes@)) == first_wins::<Node>(Map::empty(), data_nodes(*self)),
            keyed_map::<Edge>(views(d.create_edges@)) == first_wins::<Edge>(Map::empty(), data_edges(*self)),
            d.update_nodes@.len() == 0,
            d.delete_nodes@.len() == 0,
            d.update_edges@.len() == 0,
            d.delete_edges@.len() == 0,
    {
        let mut b = DeltaBuilder::new();
        let ghost ts = self.tables@;
        let ghost pid = self.project_node_id@;
        let mut i: usize = 0;
        while i < self.tables.len()
            invariant
                i <= ts.len(),
                ts == self.tables@,
                pid == self.project_node_id@,
                b.node_log() == tables_nodes(ts.take(i as int)),
                b.edge_log() == tables_edges(pid, ts.take(i as int)),
            decreases ts.len() - i,
        {
            let t = &self.tables[i];
            add_table(&mut b, self.project_node_id.as_str(), t);
            proof {
                let one = seq![*t];
                let tk = ts.take(i + 1);
                assert(one.drop_last() =~= Seq::<TableDefinition>::empty());
                assert(tk.drop_last() =~= ts.take(i as int));
                assert(tk.last() == *t);
                assert(tables_nodes(one) == tables_nodes(one.drop_last()) + seq![table_spec_node(*t)]
                    + columns_nodes(t.name@, t.columns@));
                assert(tables_nodes(tk) == tables_nodes(tk.drop_last()) + seq![table_spec_node(*t)]
                    + columns_nodes(t.name@, t.columns@));
                let tid = sid("table"@, t.name@);
                let mid = seq![
                    edge_of(pid, "HAS_TABLE"@, tid),
                    edge_of(sid("module"@, t.owner_module@), "OWNS_TABLE"@, tid),
                ];
                assert(tables_edges(pid, one) == tables_edges(pid, one.drop_last()) + mid + columns_edges(
                    t.name@,
                    t.columns@,
                ));
                assert(tables_edges(pid, tk) == tables_edges(pid, tk.drop_last()) + mid + columns_edges(
                    t.name@,
                    t.columns@,
                ));
                assert(b.node_log() =~= tables_nodes(tk));
                assert(b.edge_log() =~= tables_edges(pid, tk));
            }
            i = i + 1;
        }
        assert(ts.take(ts.len() as int) =~= ts);
        let ghost n1 = b.node_log();
        let ghost e1 = b.edge_log();
        let ghost cs = self.data_contracts@;
        let mut i: usize = 0;
        while i < self.data_contracts.len()
            invariant
                i <= cs.len(),
                cs == self.data_contracts@,
                pid == self.project_node_id@,
                b.node_log() == n1 + contracts_nodes(cs.take(i as int)),
                b.edge_log() == e1 + contracts_edges(pid, cs.take(i as int)),
            decreases cs.len() - i,
        {
            let c = &self.data_contracts[i];
            add_contract(&mut b, self.project_node_id.as_str(), c);
            proof {
                let one = seq![*c];
                let ck = cs.take(i + 1);
                assert(one.drop_last() =~= Seq::<DataContractDefinition>::empty());
                assert(ck.drop_last() =~= cs.take(i as int));
                assert(ck.last() == *c);
                assert(contracts_nodes(one) == contracts_nodes(one.drop_last()).push(contract_spec_node(*c)));
                assert(contracts_nodes(ck) == contracts_nodes(ck.drop_last()).push(contract_spec_node(*c)));
                let cid = sid("data_contract"@, c.name@);
                let tail = seq![
                    edge_of(pid, "HAS_DATA_CONTRACT"@, cid),
                    edge_of(sid("module"@, c.owner_module@), "OWNS_DATA_CONTRACT"@, cid),
                ] + covers_edges(cid, strings_view(c.tables@)) + consumes_edges(cid, strings_view(c.consumers@));
                assert(contracts_edges(pid, one) == contracts_edges(pid, one.drop_last()) + tail);
                assert(contracts_edges(pid, ck) == contracts_edges(pid, ck.drop_last()) + tail);
                assert(b.node_log() =~= n1 + contracts_nodes(ck));
                assert(b.edge_log() =~= e1 + contracts_edges(pid, ck));
            }
            i = i + 1;
        }
        assert(cs.take(cs.len() as int) =~= cs);
        b.finish()
    }
}

/// The ids of the `OWNS_TABLE` edges into `id`, in order.
pub open spec fn owner_edges(es: Seq<EdgeV>, id: Seq<char>) -> Seq<Seq<char>>
    decreases es.len(),
{
    if es.len() == 0 {
        Seq::empty()
    } else {
        let e = es.last();
        let rest = owner_edges(es.drop_last(), id);
        if e.to == id && e.edge_type == "OWNS_TABLE"@ {
            rest.push(e.id)
        } else {
            rest
        }
    }
}

/// What one Table node is reported for: an owner count other than one, and
/// no column.
pub open spec fn table_findings(n: NodeV, es: Seq<EdgeV>) -> Seq<FullFinding> {
    if n.node_type != "Table"@ {
        Seq::empty()
    } else {
        let owners = owner_edges(es, n.id);
        (if owners.len() != 1 {
            seq![
                (
                    "data_graph.table_owner_required"@,
                    FindingSeverity::Error,
                    "Table `"@ + n.id
                        + "` must have exactly one owning Module. Remediation: add one OWNS_TABLE edge from the owning module."@,
                    seq![n.id],
                    owners,
                ),
            ]
        } else {
            Seq::empty()
        }) + (if !outgoing(es, n.id, "HAS_COLUMN"@) {
            seq![
                (
                    "data_graph.table_columns_required"@,
                    FindingSeverity::Error,
                    "Table `"@ + n.id
                        + "` must have at least one Column. Remediation: add column facts before accepting the table."@,
                    seq![n.id],
                    Seq::<Seq<char>>::empty(),
                ),
            ]
        } else {
            Seq::empty()
        })
    }
}

pub open spec fn tables_findings(ns: Seq<NodeV>, es: Seq<EdgeV>) -> Seq<FullFinding>
    decreases ns.len(),
{
    if ns.len() == 0 {
        Seq::empty()
    } else {
        tables_findings(ns.drop_last(), es) + table_findings(ns.last(), es)
    }
}

fn owners_of(edges: &Vec<Edge>, id: &String) -> (r: Vec<String>)
    ensures
        strings_view(r@) == owner_edges(views(edges@), id@),
{
    let ghost es = views(edges@);
    let idc = string_chars(id);
    let mut r: Vec<String> = Vec::new();
    let mut i: usize = 0;
    assert(strings_view(r@) =~= owner_edges(es.take(0), id@));
    while i < edges.len()
        invariant
            i <= edges@.len(),
            es == views(edges@),
            idc@ == id@,
            strings_view(r@) == owner_edges(es.take(i as int), id@),
        decreases edges@.len() - i,
    {
        let e = &edges[i];
        assert(es[i as int] == e@);
        assert(es.take(i + 1).drop_last() =~= es.take(i as int));
        assert(es.take(i + 1).last() == e@);
        if eq_chars(&string_chars(&e.to), &idc) && eq_str(&string_chars(&e.edge_type), "OWNS_TABLE") {
            let ghost r0 = r@;
            r.push(e.id.clone());
            assert(strings_view(r@) =~= strings_view(r0).push(e.id@));
        }
        i = i + 1;
    }
    assert(es.take(es.len() as int) =~= es);
    r
}

/// Every Table needs exactly one owning module and at least one column.
pub fn validate_data_graph(graph: &Graph) -> (r: Vec<Finding>)
    ensures
        findings_full(r@) == tables_findings(graph.node_seq(), graph.edge_seq()),
{
    let nodes = graph.nodes();
    let edges = graph.edges();
    let ghost ns = views(nodes@);
    let ghost es = views(edges@);
    let mut findings: Vec<Finding> = Vec::new();
    assert(findings_full(findings@) =~= Seq::empty());
    let mut i: usize = 0;
    while i < nodes.len()
        invariant
            i <= nodes@.len(),
            ns == views(nodes@),
            es == views(edges@),
            ns == graph.node_seq(),
            es == graph.edge_seq(),
            findings_full(findings@) == tables_findings(ns.take(i as int), es),
        decreases nodes@.len() - i,
    {
        let n = &nodes[i];
        assert(ns[i as int] == n@);
        let ghost f0 = findings_full(findings@);
        if eq_str(&string_chars(&n.node_type), "Table") {
            let id = string_chars(&n.id);
            let owners = owners_of(edges, &n.id);
            if owners.len() != 1 {
                push_related_finding(
                    &mut findings,
                    "data_graph.table_owner_required",
                    msg3(
                        "Table `",
                        &id,
                        "` must have exactly one owning Module. Remediation: add one OWNS_TABLE edge from the owning module.",
                    ),
                    one_id(&n.id),
                    owners,
                );
            }
            if !has_outgoing(edges, &n.id, "HAS_COLUMN") {
                push_related_finding(
                    &mut findings,
                    "data_graph.table_columns_required",
                    msg3(
                        "Table `",
                        &id,
                        "` must have at least one Column. Remediation: add column facts before accepting the table.",
                    ),
                    one_id(&n.id),
                    no_ids(),
                );
            }
        }
        assert(findings_full(findings@) =~= f0 + table_findings(ns[i as int], es));
        assert(ns.take(i + 1).drop_last() =~= ns.take(i as int));
        i = i + 1;
    }
    assert(ns.take(ns.len() as int) =~= ns);
    findings
}

} // verus!
