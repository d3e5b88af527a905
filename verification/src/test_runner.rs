//! Test run records and the graph node ids of runs, results and test cases.

use crate::git_graph::FullFinding;
use crate::ids::{stable_id1, stable_id2, stable_view};
use crate::keyed::views;
use crate::model::{
    Edge, EdgeV, Finding, FindingSeverity, Graph, GraphDelta, JsonV, JsonValue, Node, NodeV, attr_text,
    edge_of, fields_text, findings_full, json_fields_view, make_edge, make_node, opt_string_view, opt_text,
    push_attr, push_opt, push_related_finding, push_text,
};
use crate::text::{
    append, append_str, chars_of, eq_chars, eq_str, lemma_sorted_list, msg3, sorted_insert, sorted_list, sorted_strict,
    string_chars, string_of, strings_view,
};
use vstd::prelude::*;

verus! {

#[derive(Debug, Clone, PartialEq, Eq)]
pub struct TestRunRecord {
    pub run_id: String,
    pub runner: String,
    pub validation_run_id: String,
    pub commit: Option<String>,
    pub results: Vec<TestCaseResult>,
}

#[derive(Debug, Clone, PartialEq, Eq)]
pub struct TestCaseResult {
    pub test: String,
    pub status: TestStatus,
    pub file: Option<String>,
    pub duration_ms: Option<u64>,
}

#[derive(Debug, Clone, Copy, PartialEq, Eq, Structural)]
pub enum TestStatus {
    Passed,
    Failed,
    Skipped,
}

pub fn test_run_node_id(run_id: &str) -> (r: String)
    ensures
        r@ == "node_test_run"@ + "_"@ + stable_view(run_id@),
{
    stable_id1("node_test_run", run_id)
}

pub fn test_result_node_id(run_id: &str, test: &str) -> (r: String)
    ensures
        r@ == "node_test_result"@ + "_"@ + stable_view(run_id@) + "_"@ + stable_view(test@),
{
    stable_id2("node_test_result", run_id, test)
}

pub fn validation_run_node_id(run_id: &str) -> (r: String)
    ensures
        r@ == "node_validation_run"@ + "_"@ + stable_view(run_id@),
{
    stable_id1("node_validation_run", run_id)
}

pub fn test_case_node_id(test: &str) -> (r: String)
    ensures
        r@ == "node_test_case"@ + "_"@ + stable_view(test@),
{
    stable_id1("node_test_case", test)
}


/// The decimal digit `d`.
pub open spec fn digit_char(d: nat) -> char {
    if d == 0 { '0' } else if d == 1 { '1' } else if d == 2 { '2' } else if d == 3 { '3' } else if d == 4 {
        '4'
    } else if d == 5 { '5' } else if d == 6 { '6' } else if d == 7 { '7' } else if d == 8 { '8' } else { '9' }
}

/// The decimal text of `n`, without leading zeros.
pub open spec fn decimal_text(n: nat) -> Seq<char>
    decreases n,
{
    if n < 10 {
        seq![digit_char(n)]
    } else {
        decimal_text(n / 10).push(digit_char(n % 10))
    }
}

pub(crate) fn push_decimal(out: &mut Vec<char>, n: u64)
    ensures
        final(out)@ == old(out)@ + decimal_text(n as nat),
    decreases n,
{
    if n >= 10 {
        push_decimal(out, n / 10);
    }
    let d = n % 10;
    let c = if d == 0 { '0' } else if d == 1 { '1' } else if d == 2 { '2' } else if d == 3 { '3' } else if d
        == 4 {
        '4'
    } else if d == 5 { '5' } else if d == 6 { '6' } else if d == 7 { '7' } else if d == 8 { '8' } else { '9' };
    out.push(c);
}

/// A duration as JSON: null when absent, an integer when it fits in an
/// `i64`, else its decimal text as a number.
pub open spec fn duration_json(d: Option<u64>) -> JsonV {
    match d {
        None => JsonV::Null,
        Some(v) => if v <= i64::MAX {
            JsonV::Int(v as int)
        } else {
            JsonV::Number(decimal_text(v as nat))
        },
    }
}

pub(crate) fn duration_value(d: Option<u64>) -> (r: JsonValue)
    ensures
        crate::model::json_view(r) == duration_json(d),
{
    match d {
        None => JsonValue::Null,
        Some(v) => if v <= 9223372036854775807u64 {
            JsonValue::Int(v as i64)
        } else {
            let mut t: Vec<char> = Vec::new();
            push_decimal(&mut t, v);
            assert(t@ =~= decimal_text(v as nat));
            JsonValue::Number(string_of(&t))
        },
    }
}

pub open spec fn status_text(s: TestStatus) -> Seq<char> {
    match s {
        TestStatus::Passed => "Passed"@,
        TestStatus::Failed => "Failed"@,
        TestStatus::Skipped => "Skipped"@,
    }
}

fn status_str(s: TestStatus) -> (r: &'static str)
    ensures
        r@ == status_text(s),
{
    match s {
        TestStatus::Passed => "Passed",
        TestStatus::Failed => "Failed",
        TestStatus::Skipped => "Skipped",
    }
}

/// `Failed` when any result failed, else `Passed`.
pub open spec fn run_status(results: Seq<TestCaseResult>) -> Seq<char> {
    if exists|i: int| 0 <= i < results.len() && (#[trigger] results[i]).status == TestStatus::Failed {
        "Failed"@
    } else {
        "Passed"@
    }
}

pub open spec fn run_id_of(r: TestRunRecord) -> Seq<char> {
    "node_test_run"@ + "_"@ + stable_view(r.run_id@)
}

pub open spec fn result_spec_node(run: Seq<char>, t: TestCaseResult) -> NodeV {
    NodeV {
        id: "node_test_result"@ + "_"@ + stable_view(run) + "_"@ + stable_view(t.test@),
        stable_key: "test-result:"@ + run + "/"@ + t.test@,
        node_type: "TestResult"@,
        attributes: seq![
            ("durationMs"@, duration_json(t.duration_ms)),
            ("file"@, opt_text(opt_string_view(t.file))),
            ("status"@, JsonV::Text(status_text(t.status))),
            ("test"@, JsonV::Text(t.test@)),
        ],
    }
}

/// The run node, the validation run node, then one node per result, in order.
pub open spec fn run_nodes(r: TestRunRecord) -> Seq<NodeV> {
    let status = run_status(r.results@);
    seq![
        NodeV {
            id: run_id_of(r),
            stable_key: "test-run:"@ + r.run_id@,
            node_type: "TestRun"@,
            attributes: seq![
                ("commit"@, opt_text(opt_string_view(r.commit))),
                ("runId"@, JsonV::Text(r.run_id@)),
                ("runner"@, JsonV::Text(r.runner@)),
                ("status"@, JsonV::Text(status)),
            ],
        },
        NodeV {
            id: "node_validation_run"@ + "_"@ + stable_view(r.validation_run_id@),
            stable_key: "validation-run:"@ + r.validation_run_id@,
            node_type: "ValidationRun"@,
            attributes: seq![
                ("checks"@, JsonV::Array(seq![JsonV::Text("test"@)])),
                ("runId"@, JsonV::Text(r.validation_run_id@)),
                ("status"@, JsonV::Text(status)),
            ],
        },
    ] + r.results@.map_values(|t: TestCaseResult| result_spec_node(r.run_id@, t))
}

pub open spec fn result_edges(run: Seq<char>, run_node: Seq<char>, ts: Seq<TestCaseResult>) -> Seq<EdgeV>
    decreases ts.len(),
{
    if ts.len() == 0 {
        Seq::empty()
    } else {
        let t = ts.last();
        let rid = result_spec_node(run, t).id;
        result_edges(run, run_node, ts.drop_last()) + seq![
            edge_of(run_node, "HAS_TEST_RESULT"@, rid),
            edge_of(rid, "TEST_RESULT_FOR"@, "node_test_case"@ + "_"@ + stable_view(t.test@)),
        ]
    }
}

/// `HAS_TEST_RUN` from the validation run, then for each result its
/// `HAS_TEST_RESULT` and `TEST_RESULT_FOR` edges.
pub open spec fn run_edges(r: TestRunRecord) -> Seq<EdgeV> {
    seq![edge_of("node_validation_run"@ + "_"@ + stable_view(r.validation_run_id@), "HAS_TEST_RUN"@, run_id_of(r))]
        + result_edges(r.run_id@, run_id_of(r), r.results@)
}

fn any_failed(results: &Vec<TestCaseResult>) -> (b: bool)
    ensures
        b == exists|i: int| 0 <= i < results@.len() && (#[trigger] results@[i]).status == TestStatus::Failed,
{
    let mut i: usize = 0;
    while i < results.len()
        invariant
            i <= results@.len(),
            forall|j: int| 0 <= j < i ==> (#[trigger] results@[j]).status != TestStatus::Failed,
        decreases results@.len() - i,
    {
        if results[i].status == TestStatus::Failed {
            return true;
        }
        i = i + 1;
    }
    false
}

fn result_node(run: &str, t: &TestCaseResult) -> (n: Node)
    ensures
        n@ == result_spec_node(run@, *t),
{
    let mut a: Vec<(String, JsonValue)> = Vec::new();
    assert(json_fields_view(a@) =~= Seq::empty());
    push_attr(&mut a, "durationMs", duration_value(t.duration_ms));
    push_opt(&mut a, "file", &t.file);
    push_text(&mut a, "status", status_str(t.status));
    push_text(&mut a, "test", t.test.as_str());
    let mut key = chars_of("test-result:");
    append(&mut key, &chars_of(run));
    append_str(&mut key, "/");
    append(&mut key, &chars_of(t.test.as_str()));
    assert(json_fields_view(a@) =~= result_spec_node(run@, *t).attributes);
    make_node(test_result_node_id(run, t.test.as_str()), string_of(&key), "TestResult", a)
}

impl TestRunRecord {
    /// The run, its validation run and one node per result, with the edges
    /// that link them and each result to its test case, in emission order.
    pub fn to_delta(&self) -> (d: GraphDelta)
        ensures
            views(d.create_nodes@) == run_nodes(*self),
            views(d.create_edges@) == run_edges(*self),
            d.update_nodes@.len() == 0,
            d.delete_nodes@.len() == 0,
            d.update_edges@.len() == 0,
            d.delete_edges@.len() == 0,
    {
        let run_id = test_run_node_id(self.run_id.as_str());
        let validation_id = validation_run_node_id(self.validation_run_id.as_str());
        let status = if any_failed(&self.results) { "Failed" } else { "Passed" };
        let ghost rn = run_nodes(*self);
        let mut a: Vec<(String, JsonValue)> = Vec::new();
        assert(json_fields_view(a@) =~= Seq::empty());
        push_opt(&mut a, "commit", &self.commit);
        push_text(&mut a, "runId", self.run_id.as_str());
        push_text(&mut a, "runner", self.runner.as_str());
        push_text(&mut a, "status", status);
        let mut key = chars_of("test-run:");
        append(&mut key, &chars_of(self.run_id.as_str()));
        assert(json_fields_view(a@) =~= rn[0].attributes);
        let run_node = make_node(run_id.clone(), string_of(&key), "TestRun", a);
        let mut v: Vec<(String, JsonValue)> = Vec::new();
        assert(json_fields_view(v@) =~= Seq::empty());
        let mut checks: Vec<JsonValue> = Vec::new();
        let x = JsonValue::Text(String::from_str("test"));
        proof {
            crate::model::lemma_json_seq_push(checks@, x);
        }
        checks.push(x);
        assert(crate::model::json_seq_view(checks@) =~= seq![JsonV::Text("test"@)]);
        push_attr(&mut v, "checks", JsonValue::Array(checks));
        push_text(&mut v, "runId", self.validation_run_id.as_str());
        push_text(&mut v, "status", status);
        let mut vkey = chars_of("validation-run:");
        append(&mut vkey, &chars_of(self.validation_run_id.as_str()));
        assert(json_fields_view(v@) =~= rn[1].attributes);
        let validation_node = make_node(validation_id.clone(), string_of(&vkey), "ValidationRun", v);
        assert(run_node@ == rn[0]);
        assert(validation_node@ == rn[1]);
        let mut nodes: Vec<Node> = Vec::new();
        nodes.push(run_node);
        nodes.push(validation_node);
        let mut edges: Vec<Edge> = Vec::new();
        edges.push(make_edge(validation_id.as_str(), "HAS_TEST_RUN", run_id.as_str()));
        let ghost ts = self.results@;
        let ghost head = seq![rn[0], rn[1]];
        let ghost e0 = views(edges@);
        assert(views(nodes@) =~= head + ts.take(0).map_values(|t: TestCaseResult| result_spec_node(self.run_id@, t)));
        let mut i: usize = 0;
        while i < self.results.len()
            invariant
                i <= ts.len(),
                ts == self.results@,
                run_id@ == run_id_of(*self),
                views(nodes@) == head + ts.take(i as int).map_values(|t: TestCaseResult| result_spec_node(self.run_id@, t)),
                views(edges@) == e0 + result_edges(self.run_id@, run_id@, ts.take(i as int)),
            decreases ts.len() - i,
        {
            let t = &self.results[i];
            let rnode = result_node(self.run_id.as_str(), t);
            let rid = rnode.id.clone();
            let ghost nv = views(nodes@);
            let ghost ev = views(edges@);
            nodes.push(rnode);
            edges.push(make_edge(run_id.as_str(), "HAS_TEST_RESULT", rid.as_str()));
            edges.push(make_edge(rid.as_str(), "TEST_RESULT_FOR", test_case_node_id(t.test.as_str()).as_str()));
            proof {
                assert(ts.take(i + 1).drop_last() =~= ts.take(i as int));
                assert(ts.take(i + 1).last() == *t);
                assert(views(nodes@) =~= nv.push(result_spec_node(self.run_id@, *t)));
                assert(ts.take(i + 1).map_values(|t: TestCaseResult| result_spec_node(self.run_id@, t)) =~= ts.take(
                    i as int,
                ).map_values(|t: TestCaseResult| result_spec_node(self.run_id@, t)).push(result_spec_node(self.run_id@, *t)));
                assert(views(edges@) =~= ev + seq![
                    edge_of(run_id@, "HAS_TEST_RESULT"@, rid@),
                    edge_of(rid@, "TEST_RESULT_FOR"@, "node_test_case"@ + "_"@ + stable_view(t.test@)),
                ]);
            }
            i = i + 1;
        }
        assert(ts.take(ts.len() as int) =~= ts);
        assert(views(nodes@) =~= run_nodes(*self));
        assert(views(edges@) =~= run_edges(*self));
        GraphDelta {
            create_nodes: nodes,
            update_nodes: Vec::new(),
            delete_nodes: Vec::new(),
            create_edges: edges,
            update_edges: Vec::new(),
            delete_edges: Vec::new(),
        }
    }
}

pub open spec fn is_required_link(t: Seq<char>) -> bool {
    t == "VERIFIES"@ || t == "TESTS_BEHAVIOR"@ || t == "TESTS_RISK"@ || t == "TESTS_REGRESSION"@ || t
        == "TESTS_POLICY"@
}

/// The tests that a requirement link names: the sources of verifying and
/// behaviour, risk, regression and policy test edges.
pub open spec fn required_tests(es: Seq<EdgeV>) -> Set<Seq<char>> {
    Set::new(|t: Seq<char>| exists|i: int| 0 <= i < es.len() && is_required_link((#[trigger] es[i]).edge_type) && es[i].from == t)
}

/// Edge `j` ties a result node that the graph holds to `test`.
pub open spec fn result_at(nodes: Map<Seq<char>, NodeV>, es: Seq<EdgeV>, test: Seq<char>, j: int) -> bool {
    es[j].edge_type == "TEST_RESULT_FOR"@ && es[j].to == test && nodes.contains_key(es[j].from)
}

pub open spec fn failed_at(nodes: Map<Seq<char>, NodeV>, es: Seq<EdgeV>, test: Seq<char>, j: int) -> bool {
    result_at(nodes, es, test, j) && attr_text(nodes[es[j].from].attributes, "status"@) == Some("Failed"@)
}

/// What a required test is reported for: no result at all, or a failed one.
pub open spec fn test_findings(nodes: Map<Seq<char>, NodeV>, es: Seq<EdgeV>, test: Seq<char>) -> Seq<FullFinding> {
    if !(exists|j: int| 0 <= j < es.len() && #[trigger] result_at(nodes, es, test, j)) {
        seq![
            (
                "test.required_result_missing"@,
                FindingSeverity::Error,
                "Required linked test `"@ + test + "` has no TestResult evidence."@,
                Seq::<Seq<char>>::empty(),
                Seq::<Seq<char>>::empty(),
            ),
        ]
    } else if exists|j: int| 0 <= j < es.len() && #[trigger] failed_at(nodes, es, test, j) {
        seq![
            (
                "test.required_result_failed"@,
                FindingSeverity::Error,
                "Required linked test `"@ + test + "` has a failing TestResult."@,
                Seq::<Seq<char>>::empty(),
                Seq::<Seq<char>>::empty(),
            ),
        ]
    } else {
        Seq::empty()
    }
}

pub open spec fn tests_findings(nodes: Map<Seq<char>, NodeV>, es: Seq<EdgeV>, tests: Seq<Seq<char>>) -> Seq<FullFinding>
    decreases tests.len(),
{
    if tests.len() == 0 {
        Seq::empty()
    } else {
        tests_findings(nodes, es, tests.drop_last()) + test_findings(nodes, es, tests.last())
    }
}


fn required_test_ids(edges: &Vec<Edge>) -> (r: Vec<String>)
    ensures
        strings_view(r@) == sorted_list(required_tests(views(edges@))),
{
    let ghost es = views(edges@);
    let mut out: Vec<String> = Vec::new();
    assert(strings_view(out@).to_set() =~= Set::empty());
    let mut i: usize = 0;
    while i < edges.len()
        invariant
            i <= edges@.len(),
            es == views(edges@),
            sorted_strict(strings_view(out@)),
            strings_view(out@).to_set() == Set::new(
                |t: Seq<char>| exists|j: int| 0 <= j < i && is_required_link((#[trigger] es[j]).edge_type) && es[j].from == t,
            ),
        decreases edges@.len() - i,
    {
        let e = &edges[i];
        assert(es[i as int] == e@);
        let ghost before = strings_view(out@).to_set();
        let et = string_chars(&e.edge_type);
        if eq_str(&et, "VERIFIES") || eq_str(&et, "TESTS_BEHAVIOR") || eq_str(&et, "TESTS_RISK") || eq_str(
            &et,
            "TESTS_REGRESSION",
        ) || eq_str(&et, "TESTS_POLICY") {
            sorted_insert(&mut out, e.from.clone());
        }
        assert(strings_view(out@).to_set() =~= Set::new(
            |t: Seq<char>| exists|j: int| 0 <= j < i + 1 && is_required_link((#[trigger] es[j]).edge_type) && es[j].from == t,
        )) by {
            assert forall|t: Seq<char>| #[trigger] strings_view(out@).to_set().contains(t) == (exists|j: int|
                0 <= j < i + 1 && is_required_link((#[trigger] es[j]).edge_type) && es[j].from == t) by {
                if exists|j: int| 0 <= j < i + 1 && is_required_link((#[trigger] es[j]).edge_type) && es[j].from == t {
                    let j = choose|j: int| 0 <= j < i + 1 && is_required_link((#[trigger] es[j]).edge_type) && es[j].from == t;
                    if j < i {
                        assert(before.contains(t));
                    }
                }
            }
        }
        i = i + 1;
    }
    assert(strings_view(out@).to_set() =~= required_tests(es));
    proof {
        lemma_sorted_list(strings_view(out@));
    }
    out
}

fn test_result_state(graph: &Graph, test: &String) -> (r: (bool, bool))
    ensures
        r.0 == exists|j: int| 0 <= j < graph.edge_seq().len() && #[trigger] result_at(graph.node_map(), graph.edge_seq(), test@, j),
        r.1 == exists|j: int| 0 <= j < graph.edge_seq().len() && #[trigger] failed_at(graph.node_map(), graph.edge_seq(), test@, j),
{
    let edges = graph.edges();
    let ghost es = views(edges@);
    let ghost nm = graph.node_map();
    let tc = string_chars(test);
    let mut any = false;
    let mut failed = false;
    let mut i: usize = 0;
    while i < edges.len()
        invariant
            i <= edges@.len(),
            es == views(edges@),
            es == graph.edge_seq(),
            nm == graph.node_map(),
            tc@ == test@,
            any == exists|j: int| 0 <= j < i && #[trigger] result_at(nm, es, test@, j),
            failed == exists|j: int| 0 <= j < i && #[trigger] failed_at(nm, es, test@, j),
        decreases edges@.len() - i,
    {
        let e = &edges[i];
        assert(es[i as int] == e@);
        if eq_str(&string_chars(&e.edge_type), "TEST_RESULT_FOR") && eq_chars(&string_chars(&e.to), &tc) {
            match graph.node(e.from.as_str()) {
                Some(n) => {
                    any = true;
                    let st = fields_text(&n.attributes, "status");
                    let f = match st {
                        Some(v) => eq_str(&string_chars(&v), "Failed"),
                        None => false,
                    };
                    if f {
                        failed = true;
                    }
                    assert(result_at(nm, es, test@, i as int));
                    assert(f == failed_at(nm, es, test@, i as int));
                },
                None => {
                    assert(!result_at(nm, es, test@, i as int));
                },
            }
        } else {
            assert(!result_at(nm, es, test@, i as int));
        }
        assert(any == exists|j: int| 0 <= j < i + 1 && #[trigger] result_at(nm, es, test@, j)) by {
            if exists|j: int| 0 <= j < i + 1 && #[trigger] result_at(nm, es, test@, j) {
                let j = choose|j: int| 0 <= j < i + 1 && #[trigger] result_at(nm, es, test@, j);
                if j < i {
                    assert(result_at(nm, es, test@, j));
                }
            }
        }
        assert(failed == exists|j: int| 0 <= j < i + 1 && #[trigger] failed_at(nm, es, test@, j)) by {
            if exists|j: int| 0 <= j < i + 1 && #[trigger] failed_at(nm, es, test@, j) {
                let j = choose|j: int| 0 <= j < i + 1 && #[trigger] failed_at(nm, es, test@, j);
                if j < i {
                    assert(failed_at(nm, es, test@, j));
                }
            }
        }
        i = i + 1;
    }
    (any, failed)
}

/// Each test that a verifying, behaviour, risk, regression or policy link
/// requires, in id order, must have a result, and none of its results may
/// have failed.
pub fn validate_required_tests_pass(graph: &Graph) -> (r: Vec<Finding>)
    ensures
        findings_full(r@) == tests_findings(
            graph.node_map(),
            graph.edge_seq(),
            sorted_list(required_tests(graph.edge_seq())),
        ),
{
    let edges = graph.edges();
    let tests = required_test_ids(edges);
    let ghost ts = strings_view(tests@);
    let ghost nm = graph.node_map();
    let ghost es = graph.edge_seq();
    let mut findings: Vec<Finding> = Vec::new();
    assert(findings_full(findings@) =~= Seq::empty());
    let mut i: usize = 0;
    while i < tests.len()
        invariant
            i <= tests@.len(),
            ts == strings_view(tests@),
            nm == graph.node_map(),
            es == graph.edge_seq(),
            findings_full(findings@) == tests_findings(nm, es, ts.take(i as int)),
        decreases tests@.len() - i,
    {
        let t = &tests[i];
        assert(ts[i as int] == t@);
        let ghost f0 = findings_full(findings@);
        let (any, failed) = test_result_state(graph, t);
        let tc = string_chars(t);
        if !any {
            push_related_finding(
                &mut findings,
                "test.required_result_missing",
                msg3("Required linked test `", &tc, "` has no TestResult evidence."),
                crate::git_graph::no_ids(),
                crate::git_graph::no_ids(),
            );
        } else if failed {
            push_related_finding(
                &mut findings,
                "test.required_result_failed",
                msg3("Required linked test `", &tc, "` has a failing TestResult."),
                crate::git_graph::no_ids(),
                crate::git_graph::no_ids(),
            );
        }
        assert(findings_full(findings@) =~= f0 + test_findings(nm, es, t@));
        assert(ts.take(i + 1).drop_last() =~= ts.take(i as int));
        i = i + 1;
    }
    assert(ts.take(ts.len() as int) =~= ts);
    findings
}

} // verus!
