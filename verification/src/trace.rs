//! Traceability links between tests, code, routes and the spec facts they
//! cover, checked against the graph.

use crate::drift::{key_without_prefix, key_without_prefix_exec};
use crate::keyed::views;
use crate::model::{Finding, FindingSeverity, Graph, NodeV, findings_view, no_related, push_finding};
use crate::policy::{blank, is_blank_string};
use crate::text::{
    chars_of, contains_string, eq_str, msg3, msg7, sorted_insert, sorted_list, sorted_strict, string_chars,
    string_of, strings_view, lemma_sorted_list, append, append_str,
};
use vstd::prelude::*;

verus! {

pub type FindingView = (Seq<char>, FindingSeverity, Seq<char>);

#[derive(Debug, Clone, PartialEq, Eq)]
pub struct TestLink {
    pub test: String,
    pub acceptance_criterion: String,
}

#[derive(Debug, Clone, PartialEq, Eq)]
pub struct CodeUseCaseLink {
    pub code_symbol: String,
    pub use_case: String,
}

#[derive(Debug, Clone, PartialEq, Eq)]
pub struct RouteEndpointLink {
    pub route: String,
    pub endpoint: String,
}

#[derive(Debug, Clone, PartialEq, Eq)]
pub struct BehaviorTestLink {
    pub test: String,
    pub behavior: String,
}

#[derive(Debug, Clone, PartialEq, Eq)]
pub struct RiskTestLink {
    pub test: String,
    pub risk: String,
}

#[derive(Debug, Clone, PartialEq, Eq)]
pub struct AnnotationLink {
    pub file: String,
    pub line: u32,
    pub relation: String,
    pub source: String,
    pub target: String,
}

/// An inferred link as the checks read it: whether its confidence lies in
/// `(0, 1]` is decided where the number is read.
#[derive(Debug, Clone, PartialEq, Eq)]
pub struct InferredLinkFacts {
    pub relation: String,
    pub source: String,
    pub target: String,
    pub confidence_in_range: bool,
    pub trust_state: String,
}

#[derive(Debug, Clone, PartialEq, Eq)]
pub struct LinksManifest {
    pub links: Vec<TestLink>,
    pub code_use_cases: Vec<CodeUseCaseLink>,
    pub routes: Vec<RouteEndpointLink>,
    pub behavior_tests: Vec<BehaviorTestLink>,
    pub risk_tests: Vec<RiskTestLink>,
    pub annotations: Vec<AnnotationLink>,
    pub inferred: Vec<InferredLinkFacts>,
}

/// The trust state an inferred link has when none is given.
pub fn default_inferred_trust_state() -> (r: String)
    ensures
        r@ == "Inferred"@,
{
    String::from_str("Inferred")
}

// ------------------------------------------------------------ keys

/// The keys (without family prefix) of the nodes of a type.
pub open spec fn type_keys(ns: Seq<NodeV>, ty: Seq<char>) -> Set<Seq<char>> {
    Set::new(
        |k: Seq<char>|
            exists|i: int| 0 <= i < ns.len() && (#[trigger] ns[i]).node_type == ty && key_without_prefix(ns[i].stable_key) == k,
    )
}

fn type_keys_exec(graph: &Graph, ty: &str) -> (r: Vec<String>)
    ensures
        sorted_strict(strings_view(r@)),
        strings_view(r@).to_set() == type_keys(graph.node_seq(), ty@),
        strings_view(r@) == sorted_list(type_keys(graph.node_seq(), ty@)),
{
    let nodes = graph.nodes();
    let ghost ns = views(nodes@);
    let mut out: Vec<String> = Vec::new();
    assert(strings_view(out@).to_set() =~= type_keys(ns.take(0), ty@));
    let mut i: usize = 0;
    while i < nodes.len()
        invariant
            i <= nodes@.len(),
            ns == views(nodes@),
            ns == graph.node_seq(),
            sorted_strict(strings_view(out@)),
            strings_view(out@).to_set() == type_keys(ns.take(i as int), ty@),
        decreases nodes@.len() - i,
    {
        let n = &nodes[i];
        assert(ns[i as int] == n@);
        if eq_str(&string_chars(&n.node_type), ty) {
            sorted_insert(&mut out, string_of(&key_without_prefix_exec(&n.stable_key)));
        }
        assert forall|k: Seq<char>| #[trigger] strings_view(out@).to_set().contains(k) == type_keys(
            ns.take(i + 1),
            ty@,
        ).contains(k) by {
            let t1 = ns.take(i + 1);
            let t0 = ns.take(i as int);
            if type_keys(t0, ty@).contains(k) {
                let j = choose|j: int| 0 <= j < t0.len() && (#[trigger] t0[j]).node_type == ty@ && key_without_prefix(t0[j].stable_key) == k;
                assert(t1[j] == t0[j]);
            }
            if type_keys(t1, ty@).contains(k) {
                let j = choose|j: int| 0 <= j < t1.len() && (#[trigger] t1[j]).node_type == ty@ && key_without_prefix(t1[j].stable_key) == k;
                if j < i {
                    assert(t0[j] == t1[j]);
                } else {
                    assert(t1[j] == ns[i as int]);
                }
            }
            if ns[i as int].node_type == ty@ && k == key_without_prefix(ns[i as int].stable_key) {
                assert(t1[i as int] == ns[i as int]);
            }
        }
        assert(strings_view(out@).to_set() =~= type_keys(ns.take(i + 1), ty@));
        i = i + 1;
    }
    assert(ns.take(ns.len() as int) =~= ns);
    proof {
        lemma_sorted_list(strings_view(out@));
    }
    out
}

/// Keys of the eight node types the links refer to.
pub struct GraphKeys {
    pub acceptance_criteria: Vec<String>,
    pub test_cases: Vec<String>,
    pub code_symbols: Vec<String>,
    pub code_routes: Vec<String>,
    pub use_cases: Vec<String>,
    pub endpoints: Vec<String>,
    pub behaviors: Vec<String>,
    pub risks: Vec<String>,
}

pub open spec fn keys_of(g: Graph, ty: Seq<char>) -> Set<Seq<char>> {
    type_keys(g.node_seq(), ty)
}

pub open spec fn graph_keys_ok(k: GraphKeys, g: Graph) -> bool {
    &&& strings_view(k.acceptance_criteria@) == sorted_list(keys_of(g, "AcceptanceCriterion"@))
    &&& strings_view(k.acceptance_criteria@).to_set() == keys_of(g, "AcceptanceCriterion"@)
    &&& strings_view(k.test_cases@).to_set() == keys_of(g, "TestCase"@)
    &&& strings_view(k.code_symbols@).to_set() == keys_of(g, "CodeSymbol"@)
    &&& strings_view(k.code_routes@).to_set() == keys_of(g, "CodeRoute"@)
    &&& strings_view(k.use_cases@) == sorted_list(keys_of(g, "UseCase"@))
    &&& strings_view(k.use_cases@).to_set() == keys_of(g, "UseCase"@)
    &&& strings_view(k.endpoints@) == sorted_list(keys_of(g, "Endpoint"@))
    &&& strings_view(k.endpoints@).to_set() == keys_of(g, "Endpoint"@)
    &&& strings_view(k.behaviors@) == sorted_list(keys_of(g, "Behavior"@))
    &&& strings_view(k.behaviors@).to_set() == keys_of(g, "Behavior"@)
    &&& strings_view(k.risks@) == sorted_list(keys_of(g, "Risk"@))
    &&& strings_view(k.risks@).to_set() == keys_of(g, "Risk"@)
}

fn graph_keys(graph: &Graph) -> (k: GraphKeys)
    ensures
        graph_keys_ok(k, *graph),
{
    GraphKeys {
        acceptance_criteria: type_keys_exec(graph, "AcceptanceCriterion"),
        test_cases: type_keys_exec(graph, "TestCase"),
        code_symbols: type_keys_exec(graph, "CodeSymbol"),
        code_routes: type_keys_exec(graph, "CodeRoute"),
        use_cases: type_keys_exec(graph, "UseCase"),
        endpoints: type_keys_exec(graph, "Endpoint"),
        behaviors: type_keys_exec(graph, "Behavior"),
        risks: type_keys_exec(graph, "Risk"),
    }
}

// ------------------------------------------------------------ building blocks

pub open spec fn err(code: Seq<char>, message: Seq<char>) -> Seq<FindingView> {
    seq![(code, FindingSeverity::Error, message)]
}

/// A referenced key that is blank or unknown is reported.
pub open spec fn require_key_spec(keys: Set<Seq<char>>, key: Seq<char>, code: Seq<char>, prefix: Seq<char>) -> Seq<FindingView> {
    if blank(key) || !keys.contains(key) {
        err(code, prefix + " `"@ + key + "`"@)
    } else {
        Seq::empty()
    }
}

fn require_key(keys: &Vec<String>, key: &String, code: &str, prefix: &str, findings: &mut Vec<Finding>)
    ensures
        no_related(old(findings)@) ==> no_related(final(findings)@),
        findings_view(final(findings)@) == findings_view(old(findings)@) + require_key_spec(
            strings_view(keys@).to_set(),
            key@,
            code@,
            prefix@,
        ),
{
    let ghost f0 = findings_view(findings@);
    if is_blank_string(key) || !contains_string(keys, key.as_str()) {
        let mut m = chars_of(prefix);
        append_str(&mut m, " `");
        append(&mut m, &string_chars(key));
        append_str(&mut m, "`");
        push_finding(findings, code, FindingSeverity::Error, string_of(&m));
    }
    assert(findings_view(findings@) =~= f0 + require_key_spec(strings_view(keys@).to_set(), key@, code@, prefix@));
}

/// Each key, in order, that nothing links to is reported.
pub open spec fn unlinked(keys: Seq<Seq<char>>, linked: Set<Seq<char>>, code: Seq<char>, pre: Seq<char>, suf: Seq<char>) -> Seq<FindingView>
    decreases keys.len(),
{
    if keys.len() == 0 {
        Seq::empty()
    } else {
        unlinked(keys.drop_last(), linked, code, pre, suf) + if linked.contains(keys.last()) {
            Seq::empty()
        } else {
            err(code, pre + keys.last() + suf)
        }
    }
}

fn report_unlinked(keys: &Vec<String>, linked: &Vec<String>, code: &str, pre: &str, suf: &str, findings: &mut Vec<Finding>)
    ensures
        no_related(old(findings)@) ==> no_related(final(findings)@),
        findings_view(final(findings)@) == findings_view(old(findings)@) + unlinked(
            strings_view(keys@),
            strings_view(linked@).to_set(),
            code@,
            pre@,
            suf@,
        ),
{
    let ghost ks = strings_view(keys@);
    let ghost ls = strings_view(linked@).to_set();
    let ghost f0 = findings_view(findings@);
    let mut i: usize = 0;
    while i < keys.len()
        invariant
            no_related(old(findings)@) ==> no_related(findings@),
            i <= ks.len(),
            ks == strings_view(keys@),
            ls == strings_view(linked@).to_set(),
            findings_view(findings@) == f0 + unlinked(ks.take(i as int), ls, code@, pre@, suf@),
        decreases ks.len() - i,
    {
        let ghost ff = findings_view(findings@);
        assert(ks[i as int] == keys@[i as int]@);
        if !contains_string(linked, keys[i].as_str()) {
            push_finding(findings, code, FindingSeverity::Error, msg3(pre, &string_chars(&keys[i]), suf));
        }
        assert(ks.take(i + 1).drop_last() =~= ks.take(i as int));
        assert(f0 + unlinked(ks.take(i + 1), ls, code@, pre@, suf@) =~= ff + if ls.contains(ks[i as int]) {
            Seq::empty()
        } else {
            err(code@, pre@ + ks[i as int] + suf@)
        });
        i = i + 1;
    }
    assert(ks.take(ks.len() as int) =~= ks);
}

/// Whether a relation may join its source to its target.
pub open spec fn relation_ok(k: GraphKeys, relation: Seq<char>, source: Seq<char>, target: Seq<char>) -> bool {
    let has = |v: Vec<String>, x: Seq<char>| strings_view(v@).contains(x);
    if relation == "implements-use-case"@ {
        has(k.code_symbols, source) && has(k.use_cases, target)
    } else if relation == "route-endpoint"@ {
        has(k.code_routes, source) && has(k.endpoints, target)
    } else if relation == "tests-behavior"@ {
        has(k.test_cases, source) && has(k.behaviors, target)
    } else if relation == "tests-risk"@ {
        has(k.test_cases, source) && has(k.risks, target)
    } else if relation == "verifies-acceptance-criterion"@ {
        has(k.test_cases, source) && has(k.acceptance_criteria, target)
    } else {
        false
    }
}

pub open spec fn relation_findings(k: GraphKeys, relation: Seq<char>, source: Seq<char>, target: Seq<char>, code: Seq<char>) -> Seq<FindingView> {
    if relation_ok(k, relation, source, target) {
        Seq::empty()
    } else {
        err(
            code,
            "Link relation `"@ + relation + "` cannot connect `"@ + source + "` to `"@ + target
                + "` or references unknown graph facts."@,
        )
    }
}

fn validate_relation(k: &GraphKeys, relation: &String, source: &String, target: &String, code: &str, findings: &mut Vec<Finding>)
    ensures
        no_related(old(findings)@) ==> no_related(final(findings)@),
        findings_view(final(findings)@) == findings_view(old(findings)@) + relation_findings(*k, relation@, source@, target@, code@),
{
    let ghost f0 = findings_view(findings@);
    let r = string_chars(relation);
    let s = source.as_str();
    let t = target.as_str();
    let valid = if eq_str(&r, "implements-use-case") {
        contains_string(&k.code_symbols, s) && contains_string(&k.use_cases, t)
    } else if eq_str(&r, "route-endpoint") {
        contains_string(&k.code_routes, s) && contains_string(&k.endpoints, t)
    } else if eq_str(&r, "tests-behavior") {
        contains_string(&k.test_cases, s) && contains_string(&k.behaviors, t)
    } else if eq_str(&r, "tests-risk") {
        contains_string(&k.test_cases, s) && contains_string(&k.risks, t)
    } else if eq_str(&r, "verifies-acceptance-criterion") {
        contains_string(&k.test_cases, s) && contains_string(&k.acceptance_criteria, t)
    } else {
        false
    };
    if !valid {
        push_finding(
            findings,
            code,
            FindingSeverity::Error,
            msg7(
                "Link relation `",
                &r,
                "` cannot connect `",
                &string_chars(source),
                "` to `",
                &string_chars(target),
                "` or references unknown graph facts.",
            ),
        );
    }
    assert(findings_view(findings@) =~= f0 + relation_findings(*k, relation@, source@, target@, code@));
}

// ------------------------------------------------------------ link lists

/// Links as pairs of referenced keys: each must be known and non-blank.
pub open spec fn pairs_findings(
    ps: Seq<(Seq<char>, Seq<char>)>,
    ka: Set<Seq<char>>,
    kb: Set<Seq<char>>,
    ca: Seq<char>,
    pa: Seq<char>,
    cb: Seq<char>,
    pb: Seq<char>,
) -> Seq<FindingView>
    decreases ps.len(),
{
    if ps.len() == 0 {
        Seq::empty()
    } else {
        pairs_findings(ps.drop_last(), ka, kb, ca, pa, cb, pb) + require_key_spec(ka, ps.last().0, ca, pa)
            + require_key_spec(kb, ps.last().1, cb, pb)
    }
}

pub open spec fn pairs_view(ps: Seq<(String, String)>) -> Seq<(Seq<char>, Seq<char>)> {
    ps.map_values(|p: (String, String)| (p.0@, p.1@))
}

fn check_pairs(
    ps: &Vec<(String, String)>,
    ka: &Vec<String>,
    kb: &Vec<String>,
    ca: &str,
    pa: &str,
    cb: &str,
    pb: &str,
    findings: &mut Vec<Finding>,
)
    ensures
        no_related(old(findings)@) ==> no_related(final(findings)@),
        findings_view(final(findings)@) == findings_view(old(findings)@) + pairs_findings(
            pairs_view(ps@),
            strings_view(ka@).to_set(),
            strings_view(kb@).to_set(),
            ca@,
            pa@,
            cb@,
            pb@,
        ),
{
    let ghost pv = pairs_view(ps@);
    let ghost sa = strings_view(ka@).to_set();
    let ghost sb = strings_view(kb@).to_set();
    let ghost f0 = findings_view(findings@);
    let mut i: usize = 0;
    while i < ps.len()
        invariant
            no_related(old(findings)@) ==> no_related(findings@),
            i <= ps@.len(),
            pv == pairs_view(ps@),
            sa == strings_view(ka@).to_set(),
            sb == strings_view(kb@).to_set(),
            findings_view(findings@) == f0 + pairs_findings(pv.take(i as int), sa, sb, ca@, pa@, cb@, pb@),
        decreases ps@.len() - i,
    {
        let ghost ff = findings_view(findings@);
        require_key(ka, &ps[i].0, ca, pa, findings);
        require_key(kb, &ps[i].1, cb, pb, findings);
        assert(pv.take(i + 1).drop_last() =~= pv.take(i as int));
        assert(pv.take(i + 1).last() == pv[i as int]);
        assert(f0 + pairs_findings(pv.take(i + 1), sa, sb, ca@, pa@, cb@, pb@) =~= ff + require_key_spec(
            sa,
            pv[i as int].0,
            ca@,
            pa@,
        ) + require_key_spec(sb, pv[i as int].1, cb@, pb@));
        i = i + 1;
    }
    assert(pv.take(pv.len() as int) =~= pv);
}

/// The second key of each pair.
pub open spec fn seconds(ps: Seq<(Seq<char>, Seq<char>)>) -> Set<Seq<char>> {
    Set::new(|k: Seq<char>| exists|i: int| 0 <= i < ps.len() && (#[trigger] ps[i]).1 == k)
}

fn second_keys(ps: &Vec<(String, String)>) -> (r: Vec<String>)
    ensures
        strings_view(r@).to_set() == seconds(pairs_view(ps@)),
{
    let ghost pv = pairs_view(ps@);
    let mut out: Vec<String> = Vec::new();
    let mut i: usize = 0;
    while i < ps.len()
        invariant
            i <= ps@.len(),
            pv == pairs_view(ps@),
            strings_view(out@) == pv.take(i as int).map_values(|p: (Seq<char>, Seq<char>)| p.1),
        decreases ps@.len() - i,
    {
        let ghost before = strings_view(out@);
        out.push(ps[i].1.clone());
        assert(strings_view(out@) =~= before.push(pv[i as int].1));
        assert(pv.take(i + 1).map_values(|p: (Seq<char>, Seq<char>)| p.1) =~= pv.take(i as int).map_values(
            |p: (Seq<char>, Seq<char>)| p.1,
        ).push(pv[i as int].1));
        i = i + 1;
    }
    assert(pv.take(pv.len() as int) =~= pv);
    assert forall|k: Seq<char>| #[trigger] strings_view(out@).to_set().contains(k) == seconds(pv).contains(k) by {
        if strings_view(out@).contains(k) {
            let j = choose|j: int| 0 <= j < strings_view(out@).len() && strings_view(out@)[j] == k;
            assert(pv[j].1 == k);
        }
        if seconds(pv).contains(k) {
            let j = choose|j: int| 0 <= j < pv.len() && (#[trigger] pv[j]).1 == k;
            assert(strings_view(out@)[j] == k);
        }
    }
    assert(strings_view(out@).to_set() =~= seconds(pv));
    out
}

/// Each link's two keys, as pairs.
fn code_use_case_pairs(ls: &Vec<CodeUseCaseLink>) -> (r: Vec<(String, String)>)
    ensures
        pairs_view(r@) == ls@.map_values(|l: CodeUseCaseLink| (l.code_symbol@, l.use_case@)),
{
    let mut out: Vec<(String, String)> = Vec::new();
    let mut i: usize = 0;
    while i < ls.len()
        invariant
            i <= ls@.len(),
            pairs_view(out@) == ls@.take(i as int).map_values(|l: CodeUseCaseLink| (l.code_symbol@, l.use_case@)),
        decreases ls@.len() - i,
    {
        let ghost before = pairs_view(out@);
        out.push((ls[i].code_symbol.clone(), ls[i].use_case.clone()));
        assert(pairs_view(out@) =~= before.push((ls@[i as int].code_symbol@, ls@[i as int].use_case@)));
        assert(ls@.take(i + 1).map_values(|l: CodeUseCaseLink| (l.code_symbol@, l.use_case@)) =~= ls@.take(
            i as int,
        ).map_values(|l: CodeUseCaseLink| (l.code_symbol@, l.use_case@)).push(
            (ls@[i as int].code_symbol@, ls@[i as int].use_case@),
        ));
        i = i + 1;
    }
    assert(ls@.take(ls@.len() as int) =~= ls@);
    out
}

fn route_pairs(ls: &Vec<RouteEndpointLink>) -> (r: Vec<(String, String)>)
    ensures
        pairs_view(r@) == ls@.map_values(|l: RouteEndpointLink| (l.route@, l.endpoint@)),
{
    let mut out: Vec<(String, String)> = Vec::new();
    let mut i: usize = 0;
    while i < ls.len()
        invariant
            i <= ls@.len(),
            pairs_view(out@) == ls@.take(i as int).map_values(|l: RouteEndpointLink| (l.route@, l.endpoint@)),
        decreases ls@.len() - i,
    {
        let ghost before = pairs_view(out@);
        out.push((ls[i].route.clone(), ls[i].endpoint.clone()));
        assert(pairs_view(out@) =~= before.push((ls@[i as int].route@, ls@[i as int].endpoint@)));
        assert(ls@.take(i + 1).map_values(|l: RouteEndpointLink| (l.route@, l.endpoint@)) =~= ls@.take(
            i as int,
        ).map_values(|l: RouteEndpointLink| (l.route@, l.endpoint@)).push(
            (ls@[i as int].route@, ls@[i as int].endpoint@),
        ));
        i = i + 1;
    }
    assert(ls@.take(ls@.len() as int) =~= ls@);
    out
}

fn behavior_pairs(ls: &Vec<BehaviorTestLink>) -> (r: Vec<(String, String)>)
    ensures
        pairs_view(r@) == ls@.map_values(|l: BehaviorTestLink| (l.test@, l.behavior@)),
{
    let mut out: Vec<(String, String)> = Vec::new();
    let mut i: usize = 0;
    while i < ls.len()
        invariant
            i <= ls@.len(),
            pairs_view(out@) == ls@.take(i as int).map_values(|l: BehaviorTestLink| (l.test@, l.behavior@)),
        decreases ls@.len() - i,
    {
        let ghost before = pairs_view(out@);
        out.push((ls[i].test.clone(), ls[i].behavior.clone()));
        assert(pairs_view(out@) =~= before.push((ls@[i as int].test@, ls@[i as int].behavior@)));
        assert(ls@.take(i + 1).map_values(|l: BehaviorTestLink| (l.test@, l.behavior@)) =~= ls@.take(
            i as int,
        ).map_values(|l: BehaviorTestLink| (l.test@, l.behavior@)).push(
            (ls@[i as int].test@, ls@[i as int].behavior@),
        ));
        i = i + 1;
    }
    assert(ls@.take(ls@.len() as int) =~= ls@);
    out
}

fn risk_pairs(ls: &Vec<RiskTestLink>) -> (r: Vec<(String, String)>)
    ensures
        pairs_view(r@) == ls@.map_values(|l: RiskTestLink| (l.test@, l.risk@)),
{
    let mut out: Vec<(String, String)> = Vec::new();
    let mut i: usize = 0;
    while i < ls.len()
        invariant
            i <= ls@.len(),
            pairs_view(out@) == ls@.take(i as int).map_values(|l: RiskTestLink| (l.test@, l.risk@)),
        decreases ls@.len() - i,
    {
        let ghost before = pairs_view(out@);
        out.push((ls[i].test.clone(), ls[i].risk.clone()));
        assert(pairs_view(out@) =~= before.push((ls@[i as int].test@, ls@[i as int].risk@)));
        assert(ls@.take(i + 1).map_values(|l: RiskTestLink| (l.test@, l.risk@)) =~= ls@.take(i as int).map_values(
            |l: RiskTestLink| (l.test@, l.risk@),
        ).push((ls@[i as int].test@, ls@[i as int].risk@)));
        i = i + 1;
    }
    assert(ls@.take(ls@.len() as int) =~= ls@);
    out
}

fn test_link_pairs(ls: &Vec<TestLink>) -> (r: Vec<(String, String)>)
    ensures
        pairs_view(r@) == ls@.map_values(|l: TestLink| (l.test@, l.acceptance_criterion@)),
{
    let mut out: Vec<(String, String)> = Vec::new();
    let mut i: usize = 0;
    while i < ls.len()
        invariant
            i <= ls@.len(),
            pairs_view(out@) == ls@.take(i as int).map_values(|l: TestLink| (l.test@, l.acceptance_criterion@)),
        decreases ls@.len() - i,
    {
        let ghost before = pairs_view(out@);
        out.push((ls[i].test.clone(), ls[i].acceptance_criterion.clone()));
        assert(pairs_view(out@) =~= before.push((ls@[i as int].test@, ls@[i as int].acceptance_criterion@)));
        assert(ls@.take(i + 1).map_values(|l: TestLink| (l.test@, l.acceptance_criterion@)) =~= ls@.take(
            i as int,
        ).map_values(|l: TestLink| (l.test@, l.acceptance_criterion@)).push(
            (ls@[i as int].test@, ls@[i as int].acceptance_criterion@),
        ));
        i = i + 1;
    }
    assert(ls@.take(ls@.len() as int) =~= ls@);
    out
}

/// A test link with a blank test, then one naming an unknown acceptance
/// criterion.
pub open spec fn test_links_findings(ps: Seq<(Seq<char>, Seq<char>)>, ac: Set<Seq<char>>) -> Seq<FindingView>
    decreases ps.len(),
{
    if ps.len() == 0 {
        Seq::empty()
    } else {
        let p = ps.last();
        test_links_findings(ps.drop_last(), ac) + (if blank(p.0) {
            err("trace.empty_test"@, "Trace link test identifier cannot be empty"@)
        } else {
            Seq::empty()
        }) + (if !ac.contains(p.1) {
            err(
                "trace.unknown_acceptance_criterion"@,
                "Trace link references unknown AcceptanceCriterion `"@ + p.1 + "`"@,
            )
        } else {
            Seq::empty()
        })
    }
}

fn check_test_links(ps: &Vec<(String, String)>, ac: &Vec<String>, findings: &mut Vec<Finding>)
    ensures
        no_related(old(findings)@) ==> no_related(final(findings)@),
        findings_view(final(findings)@) == findings_view(old(findings)@) + test_links_findings(
            pairs_view(ps@),
            strings_view(ac@).to_set(),
        ),
{
    let ghost pv = pairs_view(ps@);
    let ghost sa = strings_view(ac@).to_set();
    let ghost f0 = findings_view(findings@);
    let mut i: usize = 0;
    while i < ps.len()
        invariant
            no_related(old(findings)@) ==> no_related(findings@),
            i <= ps@.len(),
            pv == pairs_view(ps@),
            sa == strings_view(ac@).to_set(),
            findings_view(findings@) == f0 + test_links_findings(pv.take(i as int), sa),
        decreases ps@.len() - i,
    {
        let ghost ff = findings_view(findings@);
        if is_blank_string(&ps[i].0) {
            push_finding(
                findings,
                "trace.empty_test",
                FindingSeverity::Error,
                String::from_str("Trace link test identifier cannot be empty"),
            );
        }
        let ghost fm = findings_view(findings@);
        if !contains_string(ac, ps[i].1.as_str()) {
            push_finding(
                findings,
                "trace.unknown_acceptance_criterion",
                FindingSeverity::Error,
                msg3("Trace link references unknown AcceptanceCriterion `", &string_chars(&ps[i].1), "`"),
            );
        }
        assert(pv.take(i + 1).drop_last() =~= pv.take(i as int));
        assert(pv.take(i + 1).last() == pv[i as int]);
        let ghost p = pv[i as int];
        assert(fm =~= ff + (if blank(p.0) {
            err("trace.empty_test"@, "Trace link test identifier cannot be empty"@)
        } else {
            Seq::empty()
        }));
        assert(findings_view(findings@) =~= fm + (if !sa.contains(p.1) {
            err("trace.unknown_acceptance_criterion"@, "Trace link references unknown AcceptanceCriterion `"@ + p.1 + "`"@)
        } else {
            Seq::empty()
        }));
        i = i + 1;
    }
    assert(pv.take(pv.len() as int) =~= pv);
}

pub open spec fn annotation_findings(k: GraphKeys, anns: Seq<AnnotationLink>) -> Seq<FindingView>
    decreases anns.len(),
{
    if anns.len() == 0 {
        Seq::empty()
    } else {
        let a = anns.last();
        annotation_findings(k, anns.drop_last()) + (if blank(a.file@) || a.line == 0 {
            err(
                "trace.annotation_location_invalid"@,
                "Annotation links require a non-empty file and 1-based line."@,
            )
        } else {
            Seq::empty()
        }) + relation_findings(k, a.relation@, a.source@, a.target@, "trace.annotation_relation_invalid"@)
    }
}

#[verifier::spinoff_prover]
#[verifier::rlimit(30)]
fn check_annotations(k: &GraphKeys, anns: &Vec<AnnotationLink>, findings: &mut Vec<Finding>)
    ensures
        no_related(old(findings)@) ==> no_related(final(findings)@),
        findings_view(final(findings)@) == findings_view(old(findings)@) + annotation_findings(*k, anns@),
{
    let ghost f0 = findings_view(findings@);
    let mut i: usize = 0;
    while i < anns.len()
        invariant
            no_related(old(findings)@) ==> no_related(findings@),
            i <= anns@.len(),
            findings_view(findings@) == f0 + annotation_findings(*k, anns@.take(i as int)),
        decreases anns@.len() - i,
    {
        let ghost ff = findings_view(findings@);
        let a = &anns[i];
        if is_blank_string(&a.file) || a.line == 0 {
            push_finding(
                findings,
                "trace.annotation_location_invalid",
                FindingSeverity::Error,
                String::from_str("Annotation links require a non-empty file and 1-based line."),
            );
        }
        let ghost fm = findings_view(findings@);
        validate_relation(k, &a.relation, &a.source, &a.target, "trace.annotation_relation_invalid", findings);
        assert(anns@.take(i + 1).drop_last() =~= anns@.take(i as int));
        assert(anns@.take(i + 1).last() == *a);
        let ghost mid = if blank(a.file@) || a.line == 0 {
            err("trace.annotation_location_invalid"@, "Annotation links require a non-empty file and 1-based line."@)
        } else {
            Seq::empty()
        };
        assert(fm =~= ff + mid);
        assert(annotation_findings(*k, anns@.take(i + 1)) == annotation_findings(*k, anns@.take(i as int)) + mid
            + relation_findings(*k, a.relation@, a.source@, a.target@, "trace.annotation_relation_invalid"@));
        i = i + 1;
    }
    assert(anns@.take(anns@.len() as int) =~= anns@);
}

pub open spec fn inferred_findings(k: GraphKeys, ls: Seq<InferredLinkFacts>) -> Seq<FindingView>
    decreases ls.len(),
{
    if ls.len() == 0 {
        Seq::empty()
    } else {
        let l = ls.last();
        inferred_findings(k, ls.drop_last()) + (if !l.confidence_in_range {
            err(
                "trace.inferred_confidence_invalid"@,
                "Inferred link `"@ + l.relation@ + "` must have confidence in the range (0, 1]."@,
            )
        } else {
            Seq::empty()
        }) + (if l.trust_state@ != "Inferred"@ && l.trust_state@ != "Observed"@ {
            err(
                "trace.inferred_trust_state_invalid"@,
                "Inferred link `"@ + l.relation@ + "` must remain Inferred or Observed until accepted."@,
            )
        } else {
            Seq::empty()
        }) + relation_findings(k, l.relation@, l.source@, l.target@, "trace.inferred_relation_invalid"@)
    }
}

fn check_inferred(k: &GraphKeys, ls: &Vec<InferredLinkFacts>, findings: &mut Vec<Finding>)
    ensures
        no_related(old(findings)@) ==> no_related(final(findings)@),
        findings_view(final(findings)@) == findings_view(old(findings)@) + inferred_findings(*k, ls@),
{
    let ghost f0 = findings_view(findings@);
    let mut i: usize = 0;
    while i < ls.len()
        invariant
            no_related(old(findings)@) ==> no_related(findings@),
            i <= ls@.len(),
            findings_view(findings@) == f0 + inferred_findings(*k, ls@.take(i as int)),
        decreases ls@.len() - i,
    {
        let ghost ff = findings_view(findings@);
        let l = &ls[i];
        let rel = string_chars(&l.relation);
        if !l.confidence_in_range {
            push_finding(
                findings,
                "trace.inferred_confidence_invalid",
                FindingSeverity::Error,
                msg3("Inferred link `", &rel, "` must have confidence in the range (0, 1]."),
            );
        }
        let ghost f1 = findings_view(findings@);
        let ts = string_chars(&l.trust_state);
        if !eq_str(&ts, "Inferred") && !eq_str(&ts, "Observed") {
            push_finding(
                findings,
                "trace.inferred_trust_state_invalid",
                FindingSeverity::Error,
                msg3("Inferred link `", &rel, "` must remain Inferred or Observed until accepted."),
            );
        }
        let ghost f2 = findings_view(findings@);
        validate_relation(k, &l.relation, &l.source, &l.target, "trace.inferred_relation_invalid", findings);
        assert(ls@.take(i + 1).drop_last() =~= ls@.take(i as int));
        assert(f1 =~= ff + (if !l.confidence_in_range {
            err("trace.inferred_confidence_invalid"@, "Inferred link `"@ + l.relation@ + "` must have confidence in the range (0, 1]."@)
        } else {
            Seq::empty()
        }));
        assert(f2 =~= f1 + (if l.trust_state@ != "Inferred"@ && l.trust_state@ != "Observed"@ {
            err("trace.inferred_trust_state_invalid"@, "Inferred link `"@ + l.relation@ + "` must remain Inferred or Observed until accepted."@)
        } else {
            Seq::empty()
        }));
        i = i + 1;
    }
    assert(ls@.take(ls@.len() as int) =~= ls@);
}

/// Everything the links are reported for, in order: test links; acceptance
/// criteria without a test; code to use case links; use cases without code;
/// route links; endpoints without a route; behavior tests; behaviors without
/// a test; risk tests; risks without a test; annotations; inferred links.
pub open spec fn trace_findings(g: Graph, m: LinksManifest, k: GraphKeys) -> Seq<FindingView> {
    let tl = m.links@.map_values(|l: TestLink| (l.test@, l.acceptance_criterion@));
    let cu = m.code_use_cases@.map_values(|l: CodeUseCaseLink| (l.code_symbol@, l.use_case@));
    let re = m.routes@.map_values(|l: RouteEndpointLink| (l.route@, l.endpoint@));
    let bt = m.behavior_tests@.map_values(|l: BehaviorTestLink| (l.test@, l.behavior@));
    let rt = m.risk_tests@.map_values(|l: RiskTestLink| (l.test@, l.risk@));
    test_links_findings(tl, keys_of(g, "AcceptanceCriterion"@))
    + unlinked(sorted_list(keys_of(g, "AcceptanceCriterion"@)), seconds(tl), "trace.acceptance_criterion_missing_test"@, "AcceptanceCriterion `"@, "` has no TestCase link"@)
    + pairs_findings(cu, keys_of(g, "CodeSymbol"@), keys_of(g, "UseCase"@), "trace.unknown_code_symbol"@, "CodeUseCase link references unknown CodeSymbol"@, "trace.unknown_use_case"@, "CodeUseCase link references unknown UseCase"@)
    + unlinked(sorted_list(keys_of(g, "UseCase"@)), seconds(cu), "trace.use_case_missing_code_symbol"@, "UseCase `"@, "` has no CodeSymbol implementation link"@)
    + pairs_findings(re, keys_of(g, "CodeRoute"@), keys_of(g, "Endpoint"@), "trace.unknown_code_route"@, "Route link references unknown CodeRoute"@, "trace.unknown_endpoint"@, "Route link references unknown Endpoint"@)
    + unlinked(sorted_list(keys_of(g, "Endpoint"@)), seconds(re), "trace.endpoint_missing_code_route"@, "Endpoint `"@, "` has no CodeRoute link"@)
    + pairs_findings(bt, keys_of(g, "TestCase"@), keys_of(g, "Behavior"@), "trace.unknown_test_case"@, "BehaviorTest link references unknown TestCase"@, "trace.unknown_behavior"@, "BehaviorTest link references unknown Behavior"@)
    + unlinked(sorted_list(keys_of(g, "Behavior"@)), seconds(bt), "trace.behavior_missing_test"@, "Behavior `"@, "` has no linked TestCase"@)
    + pairs_findings(rt, keys_of(g, "TestCase"@), keys_of(g, "Risk"@), "trace.unknown_test_case"@, "RiskTest link references unknown TestCase"@, "trace.unknown_risk"@, "RiskTest link references unknown Risk"@)
    + unlinked(sorted_list(keys_of(g, "Risk"@)), seconds(rt), "trace.risk_missing_test"@, "Risk `"@, "` has no linked mitigation or regression TestCase"@)
    + annotation_findings(k, m.annotations@)
    + inferred_findings(k, m.inferred@)
}

/// Checks a links manifest against the graph. The relations of annotations
/// and inferred links are judged by the graph's keys (`graph_keys_ok`).
pub fn validate_trace_links(graph: &Graph, manifest: &LinksManifest) -> (r: Vec<Finding>)
    ensures
        no_related(r@),
        exists|k: GraphKeys| graph_keys_ok(k, *graph) && findings_view(r@) == trace_findings(*graph, *manifest, k),
{
    let keys = graph_keys(graph);
    let mut findings: Vec<Finding> = Vec::new();
    assert(findings_view(findings@) =~= Seq::empty());
    let tl = test_link_pairs(&manifest.links);
    check_test_links(&tl, &keys.acceptance_criteria, &mut findings);
    report_unlinked(
        &keys.acceptance_criteria,
        &second_keys(&tl),
        "trace.acceptance_criterion_missing_test",
        "AcceptanceCriterion `",
        "` has no TestCase link",
        &mut findings,
    );
    let cu = code_use_case_pairs(&manifest.code_use_cases);
    check_pairs(
        &cu,
        &keys.code_symbols,
        &keys.use_cases,
        "trace.unknown_code_symbol",
        "CodeUseCase link references unknown CodeSymbol",
        "trace.unknown_use_case",
        "CodeUseCase link references unknown UseCase",
        &mut findings,
    );
    report_unlinked(
        &keys.use_cases,
        &second_keys(&cu),
        "trace.use_case_missing_code_symbol",
        "UseCase `",
        "` has no CodeSymbol implementation link",
        &mut findings,
    );
    let re = route_pairs(&manifest.routes);
    check_pairs(
        &re,
        &keys.code_routes,
        &keys.endpoints,
        "trace.unknown_code_route",
        "Route link references unknown CodeRoute",
        "trace.unknown_endpoint",
        "Route link references unknown Endpoint",
        &mut findings,
    );
    report_unlinked(
        &keys.endpoints,
        &second_keys(&re),
        "trace.endpoint_missing_code_route",
        "Endpoint `",
        "` has no CodeRoute link",
        &mut findings,
    );
    let bt = behavior_pairs(&manifest.behavior_tests);
    check_pairs(
        &bt,
        &keys.test_cases,
        &keys.behaviors,
        "trace.unknown_test_case",
        "BehaviorTest link references unknown TestCase",
        "trace.unknown_behavior",
        "BehaviorTest link references unknown Behavior",
        &mut findings,
    );
    report_unlinked(
        &keys.behaviors,
        &second_keys(&bt),
        "trace.behavior_missing_test",
        "Behavior `",
        "` has no linked TestCase",
        &mut findings,
    );
    let rt = risk_pairs(&manifest.risk_tests);
    check_pairs(
        &rt,
        &keys.test_cases,
        &keys.risks,
        "trace.unknown_test_case",
        "RiskTest link references unknown TestCase",
        "trace.unknown_risk",
        "RiskTest link references unknown Risk",
        &mut findings,
    );
    report_unlinked(
        &keys.risks,
        &second_keys(&rt),
        "trace.risk_missing_test",
        "Risk `",
        "` has no linked mitigation or regression TestCase",
        &mut findings,
    );
    check_annotations(&keys, &manifest.annotations, &mut findings);
    check_inferred(&keys, &manifest.inferred, &mut findings);
    assert(findings_view(findings@) =~= trace_findings(*graph, *manifest, keys));
    findings
}

} // verus!
