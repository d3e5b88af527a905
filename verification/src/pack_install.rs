//! What installing an ontology pack into a store decides: whether the pack
//! and its move from the installed version are acceptable, and the graph
//! facts that record it.

use crate::keyed::views;
use crate::ontology::MvpOntology;
use crate::model::{
    attr_text, fields_text, findings_full, findings_view, json_fields_view, push_attr, push_text, text_array, texts,
    Finding, FindingSeverity, Graph, GraphDelta, JsonV, JsonValue, Node, NodeV,
};
use crate::ids::node_id;
use crate::ontology_pack::{
    installed, migrations_view, pack_findings, plan_pack_migration, planned_action, planned_migrations,
    transition_findings, validate_pack, OntologyMigration, OntologyMigrationAction, OntologyMigrationPlan,
    OntologyPackManifest,
};
use crate::spec::spec_node_id;
use crate::store_ops::{opt_view, report_errors, StoreError};
use crate::text::{append, append_str, chars_of, lt_chars, seq_lt, string_chars, string_of, strings_view};
use vstd::prelude::*;

verus! {

// ------------------------------------------------------------ acceptance

/// The installed pack of a name that a new one of that name moves from:
/// the one with the greatest version text, the last of equal ones.
pub open spec fn latest_installed(ps: Seq<OntologyPackManifest>, name: Seq<char>) -> Option<OntologyPackManifest>
    decreases ps.len(),
{
    if ps.len() == 0 {
        None
    } else {
        let rest = latest_installed(ps.drop_last(), name);
        let p = ps.last();
        if p.name@ != name {
            rest
        } else {
            match rest {
                None => Some(p),
                Some(q) => if seq_lt(p.version@, q.version@) {
                    Some(q)
                } else {
                    Some(p)
                },
            }
        }
    }
}

fn count_errors(fs: &Vec<Finding>) -> (r: usize)
    ensures
        r == report_errors(findings_view(fs@)),
{
    let ghost fv = findings_view(fs@);
    let mut c: usize = 0;
    let mut i: usize = 0;
    while i < fs.len()
        invariant
            i <= fs@.len(),
            fv == findings_view(fs@),
            c == report_errors(fv.take(i as int)),
            c <= i,
        decreases fs@.len() - i,
    {
        assert(fv.take(i + 1).drop_last() =~= fv.take(i as int));
        if fs[i].severity == FindingSeverity::Error {
            c = c + 1;
        }
        i = i + 1;
    }
    assert(fv.take(fv.len() as int) =~= fv);
    c
}

/// Whether a pack validates: refused with the number of its errors.
pub fn check_pack_valid(pack: &OntologyPackManifest) -> (r: Result<(), StoreError>)
    ensures
        report_errors(pack_findings(*pack)) > 0 ==> (r matches Err(StoreError::OntologyPackValidationFailed(c)) && c
            == report_errors(pack_findings(*pack))),
        report_errors(pack_findings(*pack)) == 0 ==> r is Ok,
{
    let report = validate_pack(pack);
    let e = count_errors(&report.findings);
    if e > 0 {
        return Err(StoreError::OntologyPackValidationFailed(e));
    }
    Ok(())
}

/// Whether a pack may be installed beside the installed packs: it must
/// validate, then its move from the latest installed pack of its name (see
/// `latest_installed`) must plan without errors; each refusal counts the
/// errors. The plan, where accepted, is `plan_pack_migration`'s.
pub fn check_pack_install(pack: &OntologyPackManifest, installed_packs: &Vec<OntologyPackManifest>) -> (r: Result<
    OntologyMigrationPlan,
    StoreError,
>)
    ensures
        ({
            let e1 = report_errors(pack_findings(*pack));
            let cur = latest_installed(installed_packs@, pack.name@);
            let e2 = report_errors(pack_findings(*pack) + transition_findings(cur, *pack));
            if e1 > 0 {
                r matches Err(StoreError::OntologyPackValidationFailed(c)) && c == e1
            } else if e2 > 0 {
                r matches Err(StoreError::OntologyPackValidationFailed(c)) && c == e2
            } else {
                r matches Ok(plan) && {
                    &&& plan.pack@ == pack.name@
                    &&& plan.to_version@ == pack.version@
                    &&& opt_view(plan.from_version) == match cur {
                        Some(c) => Some(c.version@),
                        None => None,
                    }
                    &&& plan.action == planned_action(cur, *pack)
                    &&& migrations_view(plan.migrations@) == planned_migrations(cur, *pack)
                    &&& findings_view(plan.findings@) == pack_findings(*pack) + transition_findings(cur, *pack)
                }
            }
        }),
{
    let report = validate_pack(pack);
    let e1 = count_errors(&report.findings);
    if e1 > 0 {
        return Err(StoreError::OntologyPackValidationFailed(e1));
    }
    let mut current: Option<&OntologyPackManifest> = None;
    let name = string_chars(&pack.name);
    let mut i: usize = 0;
    while i < installed_packs.len()
        invariant
            i <= installed_packs@.len(),
            name@ == pack.name@,
            installed(current) == latest_installed(installed_packs@.take(i as int), pack.name@),
        decreases installed_packs@.len() - i,
    {
        let p = &installed_packs[i];
        assert(installed_packs@.take(i + 1).drop_last() =~= installed_packs@.take(i as int));
        assert(installed_packs@.take(i + 1).last() == *p);
        if crate::text::eq_chars(&string_chars(&p.name), &name) {
            current = match current {
                None => Some(p),
                Some(q) => if lt_chars(&string_chars(&p.version), &string_chars(&q.version)) {
                    Some(q)
                } else {
                    Some(p)
                },
            };
        }
        i = i + 1;
    }
    assert(installed_packs@.take(installed_packs@.len() as int) =~= installed_packs@);
    let plan = plan_pack_migration(current, pack);
    let e2 = count_errors(&plan.findings);
    if e2 > 0 {
        return Err(StoreError::OntologyPackValidationFailed(e2));
    }
    Ok(plan)
}

// ------------------------------------------------------------ graph facts

pub open spec fn action_text(a: OntologyMigrationAction) -> Seq<char> {
    match a {
        OntologyMigrationAction::Install => "Install"@,
        OntologyMigrationAction::Noop => "Noop"@,
        OntologyMigrationAction::Upgrade => "Upgrade"@,
        OntologyMigrationAction::Downgrade => "Downgrade"@,
        OntologyMigrationAction::Replace => "Replace"@,
    }
}

fn action_str(a: OntologyMigrationAction) -> (r: &'static str)
    ensures
        r@ == action_text(a),
{
    match a {
        OntologyMigrationAction::Install => "Install",
        OntologyMigrationAction::Noop => "Noop",
        OntologyMigrationAction::Upgrade => "Upgrade",
        OntologyMigrationAction::Downgrade => "Downgrade",
        OntologyMigrationAction::Replace => "Replace",
    }
}

pub open spec fn severity_text(s: FindingSeverity) -> Seq<char> {
    match s {
        FindingSeverity::Info => "Info"@,
        FindingSeverity::Warning => "Warning"@,
        FindingSeverity::Error => "Error"@,
    }
}

fn severity_str(s: FindingSeverity) -> (r: &'static str)
    ensures
        r@ == severity_text(s),
{
    match s {
        FindingSeverity::Info => "Info",
        FindingSeverity::Warning => "Warning",
        FindingSeverity::Error => "Error",
    }
}

/// A finding as a JSON object, its keys in order.
pub open spec fn finding_json(f: (Seq<char>, FindingSeverity, Seq<char>, Seq<Seq<char>>, Seq<Seq<char>>)) -> JsonV {
    JsonV::Object(
        seq![
            ("code"@, JsonV::Text(f.0)),
            ("message"@, JsonV::Text(f.2)),
            ("relatedEdges"@, JsonV::Array(texts(f.4))),
            ("relatedNodes"@, JsonV::Array(texts(f.3))),
            ("severity"@, JsonV::Text(severity_text(f.1))),
        ],
    )
}

pub open spec fn findings_json(fs: Seq<(Seq<char>, FindingSeverity, Seq<char>, Seq<Seq<char>>, Seq<Seq<char>>)>) -> Seq<JsonV> {
    fs.map_values(|f: (Seq<char>, FindingSeverity, Seq<char>, Seq<Seq<char>>, Seq<Seq<char>>)| finding_json(f))
}

fn finding_value(f: &Finding) -> (r: JsonValue)
    ensures
        r@ == finding_json(crate::model::finding_full(*f)),
{
    let mut a: Vec<(String, JsonValue)> = Vec::new();
    assert(json_fields_view(a@) =~= Seq::empty());
    push_text(&mut a, "code", f.code.as_str());
    push_text(&mut a, "message", f.message.as_str());
    push_attr(&mut a, "relatedEdges", text_array(&f.related_edges));
    push_attr(&mut a, "relatedNodes", text_array(&f.related_nodes));
    push_text(&mut a, "severity", severity_str(f.severity));
    assert(json_fields_view(a@) =~= seq![
        ("code"@, JsonV::Text(f.code@)),
        ("message"@, JsonV::Text(f.message@)),
        ("relatedEdges"@, JsonV::Array(texts(strings_view(f.related_edges@)))),
        ("relatedNodes"@, JsonV::Array(texts(strings_view(f.related_nodes@)))),
        ("severity"@, JsonV::Text(severity_text(f.severity))),
    ]);
    let r = JsonValue::Object(a);
    assert(r@ == JsonV::Object(json_fields_view(a@)));
    r
}

fn findings_value(fs: &Vec<Finding>) -> (r: JsonValue)
    ensures
        r@ == JsonV::Array(findings_json(findings_full(fs@))),
{
    let mut items: Vec<JsonValue> = Vec::new();
    let mut i: usize = 0;
    while i < fs.len()
        invariant
            i <= fs@.len(),
            crate::model::json_seq_view(items@) == findings_json(findings_full(fs@)).take(i as int),
        decreases fs@.len() - i,
    {
        let v = finding_value(&fs[i]);
        let ghost before = items@;
        proof {
            crate::model::lemma_json_seq_push(items@, v);
        }
        items.push(v);
        assert(crate::model::json_seq_view(items@) =~= findings_json(findings_full(fs@)).take(i + 1));
        i = i + 1;
    }
    assert(findings_json(findings_full(fs@)).take(fs@.len() as int) =~= findings_json(findings_full(fs@)));
    let r = JsonValue::Array(items);
    assert(r@ == JsonV::Array(crate::model::json_seq_view(items@)));
    r
}

/// `<name>@<version>`.
pub open spec fn pack_ref(p: OntologyPackManifest) -> Seq<char> {
    p.name@ + "@"@ + p.version@
}

pub open spec fn opt_pairs(c: bool, pairs: Seq<(Seq<char>, JsonV)>) -> Seq<(Seq<char>, JsonV)> {
    if c {
        pairs
    } else {
        Seq::empty()
    }
}

/// The attributes of the OntologyPack node of an installed pack, keys in
/// order: the migration action, name and path; the version it replaces, its
/// signature and its source, where present; its version.
pub open spec fn pack_attributes(p: OntologyPackManifest, plan: OntologyMigrationPlan, path: Seq<char>) -> Seq<
    (Seq<char>, JsonV),
> {
    seq![
        ("migrationAction"@, JsonV::Text(action_text(plan.action))),
        ("name"@, JsonV::Text(p.name@)),
        ("path"@, JsonV::Text(path)),
    ] + match plan.from_version {
        Some(v) => seq![("previousVersion"@, JsonV::Text(v@))],
        None => Seq::empty(),
    } + match p.signature {
        Some(s) => seq![
            ("signatureAlgorithm"@, JsonV::Text(s.algorithm@)),
            ("signatureValue"@, JsonV::Text(s.value@)),
            ("signedBy"@, JsonV::Text(s.signed_by@)),
        ],
        None => Seq::empty(),
    } + match p.source {
        Some(s) => seq![("sourceKind"@, JsonV::Text(s.kind@)), ("sourceUri"@, JsonV::Text(s.uri@))],
        None => Seq::empty(),
    } + seq![("version"@, JsonV::Text(p.version@))]
}

/// The first OntologyPack node (in id order) named `name`.
pub open spec fn first_pack_node(ns: Seq<NodeV>, name: Seq<char>) -> Option<NodeV>
    decreases ns.len(),
{
    if ns.len() == 0 {
        None
    } else if ns[0].node_type == "OntologyPack"@ && attr_text(ns[0].attributes, "name"@) == Some(name) {
        Some(ns[0])
    } else {
        first_pack_node(ns.drop_first(), name)
    }
}

/// The OntologyMigration node of one migration step of an upgrade.
pub open spec fn migration_record(
    pack: Seq<char>,
    m: (Seq<char>, Seq<char>, Seq<char>),
    findings: Seq<JsonV>,
) -> NodeV {
    let key = pack + ":"@ + m.0 + "->"@ + m.1;
    NodeV {
        id: spec_node_id("ontology_migration"@, key),
        stable_key: "ontology-migration:"@ + key,
        node_type: "OntologyMigration"@,
        attributes: seq![
            ("compatibilityFindings"@, JsonV::Array(findings)),
            ("description"@, JsonV::Text(m.2)),
            ("from"@, JsonV::Text(m.0)),
            ("pack"@, JsonV::Text(pack)),
            ("to"@, JsonV::Text(m.1)),
        ],
    }
}

/// What recording an installed pack creates and updates: the pack's node
/// (the existing OntologyPack node of its name updated with new attributes,
/// else a new one), its OntologyVersion node, and for an upgrade one
/// OntologyMigration node per planned migration.
pub open spec fn is_pack_install(
    d: GraphDelta,
    ns: Seq<NodeV>,
    p: OntologyPackManifest,
    plan: OntologyMigrationPlan,
    path: Seq<char>,
) -> bool {
    let attrs = pack_attributes(p, plan, path);
    let version_node = NodeV {
        id: spec_node_id("ontology_version"@, pack_ref(p)),
        stable_key: "ontology-version:"@ + pack_ref(p),
        node_type: "OntologyVersion"@,
        attributes: seq![("pack"@, JsonV::Text(p.name@)), ("version"@, JsonV::Text(p.version@))],
    };
    let fjson = findings_json(findings_full(plan.findings@));
    let migrations = if plan.action == OntologyMigrationAction::Upgrade {
        migrations_view(plan.migrations@).map_values(
            |m: (Seq<char>, Seq<char>, Seq<char>)| migration_record(p.name@, m, fjson),
        )
    } else {
        Seq::empty()
    };
    &&& match first_pack_node(ns, p.name@) {
        Some(existing) => {
            &&& views(d.update_nodes@) == seq![NodeV { attributes: attrs, ..existing }]
            &&& views(d.create_nodes@) == seq![version_node] + migrations
        },
        None => {
            &&& d.update_nodes@.len() == 0
            &&& views(d.create_nodes@) == seq![
                NodeV {
                    id: spec_node_id("ontology_pack"@, pack_ref(p)),
                    stable_key: "ontology-pack:"@ + p.name@,
                    node_type: "OntologyPack"@,
                    attributes: attrs,
                },
                version_node,
            ] + migrations
        },
    }
    &&& d.delete_nodes@.len() == 0
    &&& d.create_edges@.len() == 0
    &&& d.update_edges@.len() == 0
    &&& d.delete_edges@.len() == 0
}

fn find_pack_node<'a>(graph: &'a Graph, name: &String) -> (r: Option<&'a Node>)
    ensures
        match r {
            Some(n) => first_pack_node(graph.node_seq(), name@) == Some(n@),
            None => first_pack_node(graph.node_seq(), name@) is None,
        },
{
    let nodes = graph.nodes();
    let ghost ns = views(nodes@);
    let nc = string_chars(name);
    let mut i: usize = 0;
    assert(ns.skip(0) =~= ns);
    while i < nodes.len()
        invariant
            i <= nodes@.len(),
            ns == views(nodes@),
            ns == graph.node_seq(),
            nc@ == name@,
            first_pack_node(ns, name@) == first_pack_node(ns.skip(i as int), name@),
        decreases nodes@.len() - i,
    {
        assert(ns.skip(i as int)[0] == ns[i as int]);
        assert(ns[i as int] == nodes@[i as int]@);
        assert(ns.skip(i as int).drop_first() =~= ns.skip(i + 1));
        let n = &nodes[i];
        if crate::text::eq_str(&string_chars(&n.node_type), "OntologyPack") {
            let hit = match fields_text(&n.attributes, "name") {
                Some(v) => crate::text::eq_chars(&string_chars(&v), &nc),
                None => false,
            };
            if hit {
                return Some(n);
            }
        }
        i = i + 1;
    }
    None
}

fn pack_attribute_list(p: &OntologyPackManifest, plan: &OntologyMigrationPlan, path: &str) -> (r: Vec<(String, JsonValue)>)
    ensures
        json_fields_view(r@) == pack_attributes(*p, *plan, path@),
{
    let mut a: Vec<(String, JsonValue)> = Vec::new();
    assert(json_fields_view(a@) =~= Seq::empty());
    push_text(&mut a, "migrationAction", action_str(plan.action));
    push_text(&mut a, "name", p.name.as_str());
    push_text(&mut a, "path", path);
    let ghost a0 = json_fields_view(a@);
    match &plan.from_version {
        Some(v) => push_text(&mut a, "previousVersion", v.as_str()),
        None => {},
    }
    let ghost a1 = json_fields_view(a@);
    assert(a1 =~= a0 + match plan.from_version {
        Some(v) => seq![("previousVersion"@, JsonV::Text(v@))],
        None => Seq::<(Seq<char>, JsonV)>::empty(),
    });
    match &p.signature {
        Some(s) => {
            push_text(&mut a, "signatureAlgorithm", s.algorithm.as_str());
            push_text(&mut a, "signatureValue", s.value.as_str());
            push_text(&mut a, "signedBy", s.signed_by.as_str());
        },
        None => {},
    }
    let ghost a2 = json_fields_view(a@);
    assert(a2 =~= a1 + match p.signature {
        Some(s) => seq![
            ("signatureAlgorithm"@, JsonV::Text(s.algorithm@)),
            ("signatureValue"@, JsonV::Text(s.value@)),
            ("signedBy"@, JsonV::Text(s.signed_by@)),
        ],
        None => Seq::<(Seq<char>, JsonV)>::empty(),
    });
    match &p.source {
        Some(s) => {
            push_text(&mut a, "sourceKind", s.kind.as_str());
            push_text(&mut a, "sourceUri", s.uri.as_str());
        },
        None => {},
    }
    let ghost a3 = json_fields_view(a@);
    assert(a3 =~= a2 + match p.source {
        Some(s) => seq![("sourceKind"@, JsonV::Text(s.kind@)), ("sourceUri"@, JsonV::Text(s.uri@))],
        None => Seq::<(Seq<char>, JsonV)>::empty(),
    });
    push_text(&mut a, "version", p.version.as_str());
    assert(json_fields_view(a@) =~= pack_attributes(*p, *plan, path@));
    a
}

fn keyed_text(prefix: &str, key: &Vec<char>) -> (r: String)
    ensures
        r@ == prefix@ + key@,
{
    let mut k = chars_of(prefix);
    append(&mut k, key);
    string_of(&k)
}

/// The delta that records an installed pack, from its checked plan and the
/// path it was written to (see `is_pack_install`).
pub fn install_pack_delta(graph: &Graph, pack: &OntologyPackManifest, plan: &OntologyMigrationPlan, installed_path: &str) -> (d:
    GraphDelta)
    ensures
        is_pack_install(d, graph.node_seq(), *pack, *plan, installed_path@),
{
    let attrs = pack_attribute_list(pack, plan, installed_path);
    let mut pref = string_chars(&pack.name);
    append_str(&mut pref, "@");
    append(&mut pref, &string_chars(&pack.version));
    let pref_s = string_of(&pref);
    let mut d = GraphDelta::empty();
    let ghost found = first_pack_node(graph.node_seq(), pack.name@);
    let ghost pn = NodeV {
        id: spec_node_id("ontology_pack"@, pack_ref(*pack)),
        stable_key: "ontology-pack:"@ + pack.name@,
        node_type: "OntologyPack"@,
        attributes: pack_attributes(*pack, *plan, installed_path@),
    };
    match find_pack_node(graph, &pack.name) {
        Some(existing) => {
            let updated = Node {
                id: existing.id.clone(),
                stable_key: existing.stable_key.clone(),
                node_type: existing.node_type.clone(),
                attributes: attrs,
            };
            d.update_nodes.push(updated);
            assert(views(d.update_nodes@) =~= seq![
                NodeV { attributes: pack_attributes(*pack, *plan, installed_path@), ..existing@ },
            ]);
            assert(views(d.create_nodes@) =~= Seq::<NodeV>::empty());
        },
        None => {
            let n = Node {
                id: node_id("ontology_pack", pref_s.as_str()),
                stable_key: keyed_text("ontology-pack:", &string_chars(&pack.name)),
                node_type: String::from_str("OntologyPack"),
                attributes: attrs,
            };
            assert(n@ == pn);
            d.create_nodes.push(n);
            assert(views(d.create_nodes@) =~= seq![pn]);
        },
    }
    let mut va: Vec<(String, JsonValue)> = Vec::new();
    assert(json_fields_view(va@) =~= Seq::empty());
    push_text(&mut va, "pack", pack.name.as_str());
    push_text(&mut va, "version", pack.version.as_str());
    let vn = Node {
        id: node_id("ontology_version", pref_s.as_str()),
        stable_key: keyed_text("ontology-version:", &pref),
        node_type: String::from_str("OntologyVersion"),
        attributes: va,
    };
    assert(match found {
        Some(e) => views(d.update_nodes@) == seq![NodeV { attributes: pack_attributes(*pack, *plan, installed_path@), ..e }]
            && views(d.create_nodes@) == Seq::<NodeV>::empty(),
        None => d.update_nodes@.len() == 0 && views(d.create_nodes@) == seq![pn],
    });
    let ghost vnode = NodeV {
        id: spec_node_id("ontology_version"@, pack_ref(*pack)),
        stable_key: "ontology-version:"@ + pack_ref(*pack),
        node_type: "OntologyVersion"@,
        attributes: seq![("pack"@, JsonV::Text(pack.name@)), ("version"@, JsonV::Text(pack.version@))],
    };
    assert(json_fields_view(vn.attributes@) =~= vnode.attributes);
    assert(vn@ == vnode);
    let ghost before_v = views(d.create_nodes@);
    d.create_nodes.push(vn);
    assert(views(d.create_nodes@) =~= before_v.push(vnode));
    let ghost head = views(d.create_nodes@);
    let ghost upd = views(d.update_nodes@);
    let ghost fjg = findings_json(findings_full(plan.findings@));
    let ghost migs = if plan.action == OntologyMigrationAction::Upgrade {
        migrations_view(plan.migrations@).map_values(
            |m: (Seq<char>, Seq<char>, Seq<char>)| migration_record(pack.name@, m, fjg),
        )
    } else {
        Seq::<NodeV>::empty()
    };
    if plan.action == OntologyMigrationAction::Upgrade {
        let fjson = findings_value(&plan.findings);
        let ghost fj = findings_json(findings_full(plan.findings@));
        let ghost mv = migrations_view(plan.migrations@);
        let mut i: usize = 0;
        while i < plan.migrations.len()
            invariant
                i <= mv.len(),
                mv == migrations_view(plan.migrations@),
                fjson@ == JsonV::Array(fj),
                views(d.create_nodes@) == head + mv.take(i as int).map_values(
                    |m: (Seq<char>, Seq<char>, Seq<char>)| migration_record(pack.name@, m, fj),
                ),
                views(d.update_nodes@) == upd,
                d.delete_nodes@.len() == 0,
                d.create_edges@.len() == 0,
                d.update_edges@.len() == 0,
                d.delete_edges@.len() == 0,
            decreases mv.len() - i,
        {
            let m = &plan.migrations[i];
            assert(mv[i as int] == (m.from@, m.to@, m.description@));
            let mut key = string_chars(&pack.name);
            append_str(&mut key, ":");
            append(&mut key, &string_chars(&m.from));
            append_str(&mut key, "->");
            append(&mut key, &string_chars(&m.to));
            let key_s = string_of(&key);
            let mut ma: Vec<(String, JsonValue)> = Vec::new();
            assert(json_fields_view(ma@) =~= Seq::empty());
            push_attr(&mut ma, "compatibilityFindings", fjson.duplicate());
            push_text(&mut ma, "description", m.description.as_str());
            push_text(&mut ma, "from", m.from.as_str());
            push_text(&mut ma, "pack", pack.name.as_str());
            push_text(&mut ma, "to", m.to.as_str());
            let mn = Node {
                id: node_id("ontology_migration", key_s.as_str()),
                stable_key: keyed_text("ontology-migration:", &key),
                node_type: String::from_str("OntologyMigration"),
                attributes: ma,
            };
            let ghost rec = migration_record(pack.name@, mv[i as int], fj);
            assert(json_fields_view(mn.attributes@) =~= rec.attributes);
            assert(mn@ == rec);
            let ghost before = views(d.create_nodes@);
            d.create_nodes.push(mn);
            assert(views(d.create_nodes@) =~= before.push(rec));
            assert(mv.take(i + 1).map_values(|m: (Seq<char>, Seq<char>, Seq<char>)| migration_record(pack.name@, m, fj))
                =~= mv.take(i as int).map_values(
                |m: (Seq<char>, Seq<char>, Seq<char>)| migration_record(pack.name@, m, fj),
            ).push(rec));
            i = i + 1;
        }
        assert(mv.take(mv.len() as int) =~= mv);
        assert(views(d.create_nodes@) =~= head + migs);
    } else {
        assert(views(d.create_nodes@) =~= head + migs);
    }
    proof {
        match found {
            Some(e) => {
                assert(head =~= seq![vnode]);
            },
            None => {
                assert(head =~= seq![pn, vnode]);
            },
        }
    }
    d
}

/// The node types the packs `ps` declare.
pub open spec fn packs_node_type_set(ps: Seq<OntologyPackManifest>) -> Set<Seq<char>>
    decreases ps.len(),
{
    if ps.len() == 0 {
        Set::empty()
    } else {
        packs_node_type_set(ps.drop_last()).union(strings_view(ps.last().node_types@).to_set())
    }
}

/// The edge types the packs `ps` declare.
pub open spec fn packs_edge_type_set(ps: Seq<OntologyPackManifest>) -> Set<Seq<char>>
    decreases ps.len(),
{
    if ps.len() == 0 {
        Set::empty()
    } else {
        packs_edge_type_set(ps.drop_last()).union(strings_view(ps.last().edge_types@).to_set())
    }
}

/// The active ontology of a store: the core ontology extended with the node
/// and edge types of every installed pack.
pub fn ontology_with_packs(packs: &Vec<OntologyPackManifest>) -> (o: MvpOntology)
    ensures
        o.node_type_set() == crate::ontology::core_node_types().union(packs_node_type_set(packs@)),
        o.edge_type_set() == crate::ontology::core_edge_types().union(packs_edge_type_set(packs@)),
{
    let mut o = MvpOntology::new();
    let mut i: usize = 0;
    assert(packs@.take(0) =~= Seq::<OntologyPackManifest>::empty());
    assert(crate::ontology::core_node_types().union(Set::empty()) =~= crate::ontology::core_node_types());
    assert(crate::ontology::core_edge_types().union(Set::empty()) =~= crate::ontology::core_edge_types());
    while i < packs.len()
        invariant
            i <= packs@.len(),
            o.node_type_set() == crate::ontology::core_node_types().union(packs_node_type_set(packs@.take(i as int))),
            o.edge_type_set() == crate::ontology::core_edge_types().union(packs_edge_type_set(packs@.take(i as int))),
        decreases packs@.len() - i,
    {
        let p = &packs[i];
        o = o.with_extensions(crate::ontology::copy_strings(&p.node_types), crate::ontology::copy_strings(&p.edge_types));
        assert(packs@.take(i + 1).drop_last() =~= packs@.take(i as int));
        assert(packs@.take(i + 1).last() == packs@[i as int]);
        assert(o.node_type_set() =~= crate::ontology::core_node_types().union(packs_node_type_set(packs@.take(i + 1))));
        assert(o.edge_type_set() =~= crate::ontology::core_edge_types().union(packs_edge_type_set(packs@.take(i + 1))));
        i = i + 1;
    }
    assert(packs@.take(packs@.len() as int) =~= packs@);
    o
}

/// How many integrity findings of `graph` under `ontology` are errors.
pub fn integrity_error_count(ontology: &MvpOntology, graph: &crate::model::Graph) -> (r: usize)
    ensures
        r == crate::store_ops::full_errors(
            crate::ontology::nodes_integrity(ontology.node_type_set(), graph.node_seq()) + crate::ontology::edges_integrity(
                ontology.edge_type_set(),
                graph.node_map(),
                graph.edge_seq(),
            ),
        ),
{
    let fs = ontology.validate_integrity(graph);
    crate::store_ops::count_errors(&fs)
}

} // verus!
