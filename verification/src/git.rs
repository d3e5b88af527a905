//! Commit trailers that bind a Git commit to a spec, action group and commit plan.

use crate::git_graph::{FullFinding, no_ids};
use crate::keyed::views as kviews;
use crate::model::{
    EdgeV, Finding, FindingSeverity, Graph, GraphDelta, JsonV, Node, NodeV, attr_bool, attr_text, attr_texts,
    fields_bool, fields_text, fields_texts, findings_full, findings_view, push_finding, push_related_finding,
};
use crate::policy::{
    glob_builder_add, glob_builder_build, glob_builder_new, glob_builder_patterns, glob_pattern_parses,
    glob_set_builds, glob_set_is_match, glob_set_matches, glob_set_patterns,
};
use crate::operation_abi::{edge_types_in, edge_types_of, node_types_in, node_types_of};
use globset::GlobSet;
use crate::text::{
    append, append_str, chars_of, contains, contains_str, eq_chars, eq_str, lines, lines_exec, lower,
    lower_exec, msg3, msg5, split_once, split_once_str, starts_with, starts_with_str, string_chars,
    string_of, strings_view, trim, trim_exec, views,
};
use vstd::prelude::*;

verus! {

#[derive(Debug, Clone, PartialEq, Eq, Default)]
pub struct CommitTrailers {
    pub spec: Option<String>,
    pub action_group: Option<String>,
    pub commit_plan: Option<String>,
    pub graph_delta: Option<String>,
}

#[derive(Debug, Clone, PartialEq, Eq)]
pub struct CommitValidationInput {
    pub commit: String,
    pub message: String,
    pub changed_files: Vec<String>,
    pub changed_symbols: Vec<String>,
}

/// Spec, action group, commit plan and graph delta trailer values.
pub type TrailersView = (Option<Seq<char>>, Option<Seq<char>>, Option<Seq<char>>, Option<Seq<char>>);

pub open spec fn sopt(o: Option<String>) -> Option<Seq<char>> {
    match o {
        Some(s) => Some(s@),
        None => None,
    }
}

pub open spec fn trailers_view(t: CommitTrailers) -> TrailersView {
    (sopt(t.spec), sopt(t.action_group), sopt(t.commit_plan), sopt(t.graph_delta))
}

/// `t` updated by one message line of the form `Key: value`.
pub open spec fn apply_trailer_line(t: TrailersView, line: Seq<char>) -> TrailersView {
    let trimmed = trim(line);
    if trimmed.len() == 0 {
        t
    } else {
        match split_once(trimmed, ":"@) {
            None => t,
            Some((key, value)) => {
                let k = lower(trim(key));
                let v = trim(value);
                if k == "spec"@ {
                    (Some(v), t.1, t.2, t.3)
                } else if k == "actiongroup"@ || k == "action-group"@ {
                    (t.0, Some(v), t.2, t.3)
                } else if k == "commitplan"@ || k == "commit-plan"@ {
                    (t.0, t.1, Some(v), t.3)
                } else if k == "graphdelta"@ || k == "graph-delta"@ {
                    (t.0, t.1, t.2, Some(v))
                } else {
                    t
                }
            },
        }
    }
}

/// The trailers of the lines `ls`, read from the last line up, so that the
/// first line naming a trailer decides its value.
pub open spec fn trailers_of(ls: Seq<Seq<char>>) -> TrailersView
    decreases ls.len(),
{
    if ls.len() == 0 {
        (None, None, None, None)
    } else {
        apply_trailer_line(trailers_of(ls.drop_first()), ls[0])
    }
}

pub fn parse_commit_trailers(message: &str) -> (r: CommitTrailers)
    ensures
        trailers_view(r) == trailers_of(lines(message@)),
{
    let m = chars_of(message);
    let ls = lines_exec(&m);
    let mut trailers = CommitTrailers { spec: None, action_group: None, commit_plan: None, graph_delta: None };
    let mut i: usize = ls.len();
    assert(lines(message@).skip(i as int) =~= Seq::<Seq<char>>::empty());
    while i > 0
        invariant
            i <= ls@.len(),
            views(ls@) == lines(message@),
            trailers_view(trailers) == trailers_of(lines(message@).skip(i as int)),
        decreases i,
    {
        i = i - 1;
        assert(lines(message@).skip(i as int).drop_first() =~= lines(message@).skip(i + 1));
        assert(lines(message@).skip(i as int)[0] == ls@[i as int]@);
        let trimmed = trim_exec(&ls[i]);
        if trimmed.len() == 0 {
            continue;
        }
        let (key, value) = match split_once_str(&trimmed, ":") {
            Some(kv) => kv,
            None => {
                continue;
            },
        };
        let v = string_of(&trim_exec(&value));
        let k = lower_exec(&trim_exec(&key));
        if eq_str(&k, "spec") {
            trailers.spec = Some(v);
        } else if eq_str(&k, "actiongroup") || eq_str(&k, "action-group") {
            trailers.action_group = Some(v);
        } else if eq_str(&k, "commitplan") || eq_str(&k, "commit-plan") {
            trailers.commit_plan = Some(v);
        } else if eq_str(&k, "graphdelta") || eq_str(&k, "graph-delta") {
            trailers.graph_delta = Some(v);
        }
    }
    assert(lines(message@).skip(0) =~= lines(message@));
    trailers
}

/// Whether a trailer value is absent or blank.
pub open spec fn trailer_missing(value: Option<Seq<char>>) -> bool {
    match value {
        None => true,
        Some(v) => trim(v).len() == 0,
    }
}

pub fn require_trailer(findings: &mut Vec<Finding>, commit: &str, trailer: &str, value: &Option<String>)
    ensures
        findings_full(final(findings)@) == findings_full(old(findings)@) + if trailer_missing(sopt(*value)) {
            gerr("commit.missing_trailer"@, "Commit `"@ + commit@ + "` is missing required `"@ + trailer@ + ":` trailer"@)
        } else {
            Seq::<FullFinding>::empty()
        },
{
    let missing = match value {
        None => true,
        Some(v) => trim_exec(&string_chars(v)).len() == 0,
    };
    let ghost before = findings_full(findings@);
    if missing {
        push_gerr(
            findings,
            "commit.missing_trailer",
            msg5("Commit `", &chars_of(commit), "` is missing required `", &chars_of(trailer), ":` trailer"),
        );
    } else {
        assert(findings_full(findings@) =~= before + Seq::<FullFinding>::empty());
    }
}

/// A path pattern anchored anywhere in the tree unless it names a directory.
pub open spec fn normalized_glob(pattern: Seq<char>) -> Seq<char> {
    let p = trim(pattern);
    if starts_with(p, "**/"@) || starts_with(p, "/"@) || contains(p, "/"@) {
        p
    } else {
        "**/"@ + p
    }
}

pub fn normalize_glob(pattern: &str) -> (r: String)
    ensures
        r@ == normalized_glob(pattern@),
{
    let p = trim_exec(&chars_of(pattern));
    if starts_with_str(&p, "**/") || starts_with_str(&p, "/") || contains_str(&p, "/") {
        string_of(&p)
    } else {
        let mut out = chars_of("**/");
        append(&mut out, &p);
        string_of(&out)
    }
}


// ------------------------------------------------------------ code scope

pub open spec fn gerr(code: Seq<char>, message: Seq<char>) -> Seq<FullFinding> {
    seq![(code, FindingSeverity::Error, message, Seq::<Seq<char>>::empty(), Seq::<Seq<char>>::empty())]
}

fn push_gerr(findings: &mut Vec<Finding>, code: &str, message: String)
    ensures
        findings_full(final(findings)@) == findings_full(old(findings)@) + gerr(code@, message@),
{
    let ghost f0 = findings_full(findings@);
    push_related_finding(findings, code, message, no_ids(), no_ids());
    assert(findings_full(findings@) =~= f0 + gerr(code@, message@));
}

/// The normalized patterns that `Glob::new` accepts, in order: the others are
/// skipped.
pub open spec fn kept_globs(ps: Seq<Seq<char>>) -> Seq<Seq<char>>
    decreases ps.len(),
{
    if ps.len() == 0 {
        Seq::empty()
    } else if glob_pattern_parses(normalized_glob(ps.last())) {
        kept_globs(ps.drop_last()).push(normalized_glob(ps.last()))
    } else {
        kept_globs(ps.drop_last())
    }
}

fn lenient_glob_set(patterns: &Vec<String>) -> (r: Option<GlobSet>)
    ensures
        r is Some == glob_set_builds(kept_globs(strings_view(patterns@))),
        r matches Some(g) ==> glob_set_patterns(g) == kept_globs(strings_view(patterns@)),
{
    let ghost ps = strings_view(patterns@);
    let mut builder = glob_builder_new();
    let mut i: usize = 0;
    while i < patterns.len()
        invariant
            i <= ps.len(),
            ps == strings_view(patterns@),
            glob_builder_patterns(builder) == kept_globs(ps.take(i as int)),
        decreases ps.len() - i,
    {
        assert(ps[i as int] == patterns@[i as int]@);
        assert(ps.take(i + 1).drop_last() =~= ps.take(i as int));
        assert(ps.take(i + 1).last() == ps[i as int]);
        let n = normalize_glob(patterns[i].as_str());
        glob_builder_add(&mut builder, n.as_str());
        i = i + 1;
    }
    assert(ps.take(ps.len() as int) =~= ps);
    glob_builder_build(&builder)
}

/// One finding for each file that no kept pattern matches.
pub open spec fn unmatched_findings(
    kept: Seq<Seq<char>>,
    files: Seq<Seq<char>>,
    code: Seq<char>,
    label: Seq<char>,
) -> Seq<FullFinding>
    decreases files.len(),
{
    if files.len() == 0 {
        Seq::empty()
    } else {
        unmatched_findings(kept, files.drop_last(), code, label) + if glob_set_matches(kept, files.last()) {
            Seq::<FullFinding>::empty()
        } else {
            gerr(code, "Changed file `"@ + files.last() + "` is outside "@ + label)
        }
    }
}

fn push_unmatched(findings: &mut Vec<Finding>, set: &GlobSet, files: &Vec<String>, code: &str, label: &str)
    ensures
        findings_full(final(findings)@) == findings_full(old(findings)@) + unmatched_findings(
            glob_set_patterns(*set),
            strings_view(files@),
            code@,
            label@,
        ),
{
    let ghost fs = strings_view(files@);
    let ghost f0 = findings_full(findings@);
    let mut i: usize = 0;
    assert(f0 + unmatched_findings(glob_set_patterns(*set), fs.take(0), code@, label@) =~= f0);
    while i < files.len()
        invariant
            i <= fs.len(),
            fs == strings_view(files@),
            findings_full(findings@) == f0 + unmatched_findings(glob_set_patterns(*set), fs.take(i as int), code@, label@),
        decreases fs.len() - i,
    {
        assert(fs[i as int] == files@[i as int]@);
        assert(fs.take(i + 1).drop_last() =~= fs.take(i as int));
        let ghost f1 = findings_full(findings@);
        if !glob_set_is_match(set, files[i].as_str()) {
            let mut m = chars_of("Changed file `");
            append(&mut m, &string_chars(&files[i]));
            append_str(&mut m, "` is outside ");
            append_str(&mut m, label);
            push_gerr(findings, code, string_of(&m));
        } else {
            assert(findings_full(findings@) =~= f1 + Seq::<FullFinding>::empty());
        }
        i = i + 1;
    }
    assert(fs.take(fs.len() as int) =~= fs);
}

/// The allowed-path patterns of the actions an action group holds, in edge
/// order.
pub open spec fn group_patterns(nm: Map<Seq<char>, NodeV>, es: Seq<EdgeV>, group: Seq<char>) -> Seq<Seq<char>>
    decreases es.len(),
{
    if es.len() == 0 {
        Seq::empty()
    } else {
        let e = es.last();
        group_patterns(nm, es.drop_last(), group) + if e.from == group && e.edge_type == "HAS_ACTION"@
            && nm.contains_key(e.to) {
            match attr_texts(nm[e.to].attributes, "allowedPaths"@) {
                Some(t) => t,
                None => Seq::empty(),
            }
        } else {
            Seq::<Seq<char>>::empty()
        }
    }
}

pub open spec fn no_scope_findings(files: Seq<Seq<char>>) -> Seq<FullFinding>
    decreases files.len(),
{
    if files.len() == 0 {
        Seq::empty()
    } else {
        no_scope_findings(files.drop_last()) + gerr(
            "code_scope.no_allowed_paths"@,
            "Changed file `"@ + files.last() + "` has no allowed path scope"@,
        )
    }
}

/// What changed files are reported for against an action group's scope:
/// nothing when no file changed; each file when the group's actions allow no
/// path; one finding when the patterns do not compile; else each file that
/// no pattern matches.
pub open spec fn scope_findings(nm: Map<Seq<char>, NodeV>, es: Seq<EdgeV>, group: Seq<char>, files: Seq<Seq<char>>) -> Seq<
    FullFinding,
> {
    let ps = group_patterns(nm, es, group);
    if files.len() == 0 {
        Seq::empty()
    } else if ps.len() == 0 {
        no_scope_findings(files)
    } else if !glob_set_builds(kept_globs(ps)) {
        gerr("code_scope.invalid_allowed_paths"@, "ActionNode allowed path patterns could not be compiled"@)
    } else {
        unmatched_findings(kept_globs(ps), files, "code_scope.out_of_scope_file"@, "ActionGroup allowed paths"@)
    }
}

fn group_patterns_of(graph: &Graph, group: &str) -> (r: Vec<String>)
    ensures
        strings_view(r@) == group_patterns(graph.node_map(), graph.edge_seq(), group@),
{
    let edges = graph.edges();
    let ghost es = kviews(edges@);
    let ghost nm = graph.node_map();
    let gc = chars_of(group);
    let mut out: Vec<String> = Vec::new();
    let mut i: usize = 0;
    assert(strings_view(out@) =~= group_patterns(nm, es.take(0), group@));
    while i < edges.len()
        invariant
            i <= edges@.len(),
            es == kviews(edges@),
            es == graph.edge_seq(),
            nm == graph.node_map(),
            gc@ == group@,
            strings_view(out@) == group_patterns(nm, es.take(i as int), group@),
        decreases edges@.len() - i,
    {
        let e = &edges[i];
        assert(es[i as int] == e@);
        assert(es.take(i + 1).drop_last() =~= es.take(i as int));
        assert(es.take(i + 1).last() == e@);
        let ghost o = strings_view(out@);
        if eq_chars(&string_chars(&e.from), &gc) && eq_str(&string_chars(&e.edge_type), "HAS_ACTION") {
            match graph.node(e.to.as_str()) {
                Some(n) => {
                    match fields_texts(&n.attributes, "allowedPaths") {
                        Some(ps) => {
                            let mut k: usize = 0;
                            let ghost pv = strings_view(ps@);
                            while k < ps.len()
                                invariant
                                    k <= pv.len(),
                                    pv == strings_view(ps@),
                                    strings_view(out@) == o + pv.take(k as int),
                                decreases pv.len() - k,
                            {
                                let ghost before = strings_view(out@);
                                out.push(ps[k].clone());
                                assert(pv[k as int] == ps@[k as int]@);
                                assert(strings_view(out@) =~= before.push(ps@[k as int]@));
                                assert(pv.take(k + 1) =~= pv.take(k as int).push(pv[k as int]));
                                assert(strings_view(out@) =~= o + pv.take(k + 1));
                                k = k + 1;
                            }
                            assert(pv.take(pv.len() as int) =~= pv);
                        },
                        None => {
                            assert(strings_view(out@) =~= o + Seq::<Seq<char>>::empty());
                        },
                    }
                },
                None => {
                    assert(strings_view(out@) =~= o + Seq::<Seq<char>>::empty());
                },
            }
        } else {
            assert(strings_view(out@) =~= o + Seq::<Seq<char>>::empty());
        }
        i = i + 1;
    }
    assert(es.take(es.len() as int) =~= es);
    out
}

/// Changed files must fall within the allowed paths of the action group's
/// actions.
pub fn validate_changed_files_against_action_group(graph: &Graph, action_group_id: &str, changed_files: &Vec<String>) -> (r: Vec<
    Finding,
>)
    ensures
        findings_full(r@) == scope_findings(
            graph.node_map(),
            graph.edge_seq(),
            action_group_id@,
            strings_view(changed_files@),
        ),
{
    let mut findings: Vec<Finding> = Vec::new();
    assert(findings_full(findings@) =~= Seq::empty());
    if changed_files.len() == 0 {
        return findings;
    }
    let patterns = group_patterns_of(graph, action_group_id);
    if patterns.len() == 0 {
        let ghost fs = strings_view(changed_files@);
        let mut i: usize = 0;
        while i < changed_files.len()
            invariant
                i <= fs.len(),
                fs == strings_view(changed_files@),
                findings_full(findings@) == no_scope_findings(fs.take(i as int)),
            decreases fs.len() - i,
        {
            assert(fs[i as int] == changed_files@[i as int]@);
            assert(fs.take(i + 1).drop_last() =~= fs.take(i as int));
            push_gerr(
                &mut findings,
                "code_scope.no_allowed_paths",
                msg3("Changed file `", &string_chars(&changed_files[i]), "` has no allowed path scope"),
            );
            i = i + 1;
        }
        assert(fs.take(fs.len() as int) =~= fs);
        return findings;
    }
    match lenient_glob_set(&patterns) {
        None => {
            push_gerr(
                &mut findings,
                "code_scope.invalid_allowed_paths",
                String::from_str("ActionNode allowed path patterns could not be compiled"),
            );
            findings
        },
        Some(set) => {
            push_unmatched(&mut findings, &set, changed_files, "code_scope.out_of_scope_file", "ActionGroup allowed paths");
            findings
        },
    }
}


// ------------------------------------------------------------ commit plans

/// Changed files checked against a commit plan's allowed files: nothing when
/// either list is empty, one finding when the patterns do not compile, else
/// each file that no pattern matches.
pub open spec fn files_findings(allowed: Seq<Seq<char>>, files: Seq<Seq<char>>, code: Seq<char>, label: Seq<char>) -> Seq<
    FullFinding,
> {
    if files.len() == 0 || allowed.len() == 0 {
        Seq::empty()
    } else if !glob_set_builds(kept_globs(allowed)) {
        gerr("commit_plan.invalid_allowed_files"@, label + " patterns could not be compiled"@)
    } else {
        unmatched_findings(kept_globs(allowed), files, code, label)
    }
}

pub open spec fn undeclared_findings(allowed: Seq<Seq<char>>, symbols: Seq<Seq<char>>, commit: Seq<char>, plan: Seq<char>) -> Seq<
    FullFinding,
>
    decreases symbols.len(),
{
    if symbols.len() == 0 {
        Seq::empty()
    } else {
        undeclared_findings(allowed, symbols.drop_last(), commit, plan) + if allowed.contains(symbols.last()) {
            Seq::<FullFinding>::empty()
        } else {
            gerr(
                "commit_plan.undeclared_symbol"@,
                "Commit `"@ + commit + "` changes symbol `"@ + symbols.last() + "` outside CommitPlan `"@ + plan
                    + "` allowedSymbols. Remediation: declare/link the code object, update spec intent, and replan the ActionGraph before committing scope expansion."@,
            )
        }
    }
}

/// Changed symbols checked against a commit plan's declared ones.
pub open spec fn symbols_findings(allowed: Seq<Seq<char>>, symbols: Seq<Seq<char>>, commit: Seq<char>, plan: Seq<char>) -> Seq<
    FullFinding,
> {
    if symbols.len() == 0 || allowed.len() == 0 {
        Seq::empty()
    } else {
        undeclared_findings(allowed, symbols, commit, plan)
    }
}

/// Some ValidationRun passed with the named check among its checks.
pub open spec fn validation_passed(ns: Seq<NodeV>, check: Seq<char>) -> bool {
    exists|i: int|
        0 <= i < ns.len() && (#[trigger] ns[i]).node_type == "ValidationRun"@ && attr_text(ns[i].attributes, "status"@)
            == Some("Passed"@) && match attr_texts(ns[i].attributes, "checks"@) {
            Some(cs) => cs.contains(check),
            None => false,
        }
}

pub open spec fn required_validation_findings(ns: Seq<NodeV>, required: Seq<Seq<char>>, commit: Seq<char>, plan: Seq<char>) -> Seq<
    FullFinding,
>
    decreases required.len(),
{
    if required.len() == 0 {
        Seq::empty()
    } else {
        required_validation_findings(ns, required.drop_last(), commit, plan) + if validation_passed(ns, required.last()) {
            Seq::<FullFinding>::empty()
        } else {
            gerr(
                "commit_plan.required_validation_missing"@,
                "Commit `"@ + commit + "` requires passed validation `"@ + required.last()
                    + "` before using CommitPlan `"@ + plan + "`"@,
            )
        }
    }
}

pub open spec fn or_none(o: Option<Seq<Seq<char>>>) -> Seq<Seq<char>> {
    match o {
        Some(v) => v,
        None => Seq::empty(),
    }
}

pub open spec fn type_mismatch_findings(
    expected: Seq<Seq<char>>,
    types: Seq<Seq<char>>,
    code: Seq<char>,
    what: Seq<char>,
    commit: Seq<char>,
    plan: Seq<char>,
) -> Seq<FullFinding>
    decreases types.len(),
{
    if types.len() == 0 {
        Seq::empty()
    } else {
        type_mismatch_findings(expected, types.drop_last(), code, what, commit, plan) + if expected.len() == 0
            || expected.contains(types.last()) {
            Seq::<FullFinding>::empty()
        } else {
            gerr(
                code,
                "Commit `"@ + commit + "` changes "@ + what + " type `"@ + types.last() + "` outside CommitPlan `"@ + plan
                    + "` expected"@ + what + "Types."@,
            )
        }
    }
}

/// A graph delta trailer checked against what the commit plan expects: only
/// where the plan names expected types or forbidden effects and the trailer
/// is not blank. `parsed` is the delta that the trailer's JSON reads as, or
/// `None` where it is not a delta.
pub open spec fn expected_delta_findings(
    plan: NodeV,
    commit: Seq<char>,
    trailer: Option<Seq<char>>,
    parsed: Option<GraphDelta>,
) -> Seq<FullFinding> {
    let ent = or_none(attr_texts(plan.attributes, "expectedNodeTypes"@));
    let eet = or_none(attr_texts(plan.attributes, "expectedEdgeTypes"@));
    let forbidden = or_none(attr_texts(plan.attributes, "forbiddenEffects"@));
    if ent.len() == 0 && eet.len() == 0 && forbidden.len() == 0 {
        Seq::empty()
    } else if trailer_missing(trailer) {
        Seq::empty()
    } else {
        match parsed {
            None => gerr(
                "commit_plan.graph_delta_invalid"@,
                "Commit `"@ + commit + "` GraphDelta trailer is not valid GraphDelta JSON."@,
            ),
            Some(d) => (if forbidden.contains("deleteNodes"@) && d.delete_nodes@.len() > 0 {
                gerr(
                    "commit_plan.forbidden_effect"@,
                    "Commit `"@ + commit + "` deletes nodes but CommitPlan `"@ + plan.id + "` forbids deleteNodes."@,
                )
            } else {
                Seq::empty()
            }) + (if forbidden.contains("deleteEdges"@) && d.delete_edges@.len() > 0 {
                gerr(
                    "commit_plan.forbidden_effect"@,
                    "Commit `"@ + commit + "` deletes edges but CommitPlan `"@ + plan.id + "` forbids deleteEdges."@,
                )
            } else {
                Seq::empty()
            }) + type_mismatch_findings(
                ent,
                node_types_of(kviews(d.create_nodes@) + kviews(d.update_nodes@)),
                "commit_plan.unexpected_node_type"@,
                "node"@,
                commit,
                plan.id,
            ) + type_mismatch_findings(
                eet,
                edge_types_of(kviews(d.create_edges@) + kviews(d.update_edges@)),
                "commit_plan.unexpected_edge_type"@,
                "edge"@,
                commit,
                plan.id,
            ),
        }
    }
}

/// Everything a commit is held to by its commit plan: allowed files,
/// declared symbols, passed validations, a graph delta trailer where one is
/// expected, and the trailer's content.
pub open spec fn plan_findings(
    ns: Seq<NodeV>,
    plan: NodeV,
    commit: Seq<char>,
    files: Seq<Seq<char>>,
    symbols: Seq<Seq<char>>,
    trailer: Option<Seq<char>>,
    parsed: Option<GraphDelta>,
) -> Seq<FullFinding> {
    (match attr_texts(plan.attributes, "allowedFiles"@) {
        Some(a) => files_findings(a, files, "commit_plan.out_of_scope_file"@, "CommitPlan allowedFiles"@),
        None => Seq::empty(),
    }) + (match attr_texts(plan.attributes, "allowedSymbols"@) {
        Some(a) => symbols_findings(a, symbols, commit, plan.id),
        None => Seq::empty(),
    }) + required_validation_findings(ns, or_none(attr_texts(plan.attributes, "requiredValidation"@)), commit, plan.id)
        + (if attr_bool(plan.attributes, "expectedGraphDelta"@) && trailer_missing(trailer) {
        gerr(
            "commit_plan.graph_delta_trailer_missing"@,
            "Commit `"@ + commit + "` requires a `GraphDelta:` trailer for CommitPlan `"@ + plan.id + "`"@,
        )
    } else {
        Seq::empty()
    }) + expected_delta_findings(plan, commit, trailer, parsed)
}

fn contains_text(v: &Vec<String>, x: &str) -> (r: bool)
    ensures
        r == strings_view(v@).contains(x@),
{
    let xc = chars_of(x);
    let mut i: usize = 0;
    while i < v.len()
        invariant
            i <= v@.len(),
            xc@ == x@,
            forall|j: int| 0 <= j < i ==> strings_view(v@)[j] != x@,
        decreases v@.len() - i,
    {
        if eq_chars(&string_chars(&v[i]), &xc) {
            assert(strings_view(v@)[i as int] == x@);
            return true;
        }
        i = i + 1;
    }
    false
}

fn push_files_findings(findings: &mut Vec<Finding>, allowed: &Vec<String>, files: &Vec<String>, code: &str, label: &str)
    ensures
        findings_full(final(findings)@) == findings_full(old(findings)@) + files_findings(
            strings_view(allowed@),
            strings_view(files@),
            code@,
            label@,
        ),
{
    let ghost f0 = findings_full(findings@);
    if files.len() == 0 || allowed.len() == 0 {
        assert(findings_full(findings@) =~= f0 + Seq::<FullFinding>::empty());
        return;
    }
    match lenient_glob_set(allowed) {
        None => {
            let mut m = chars_of(label);
            append_str(&mut m, " patterns could not be compiled");
            push_gerr(findings, "commit_plan.invalid_allowed_files", string_of(&m));
        },
        Some(set) => {
            push_unmatched(findings, &set, files, code, label);
        },
    }
}

fn push_symbols_findings(findings: &mut Vec<Finding>, allowed: &Vec<String>, symbols: &Vec<String>, commit: &String, plan: &String)
    ensures
        findings_full(final(findings)@) == findings_full(old(findings)@) + symbols_findings(
            strings_view(allowed@),
            strings_view(symbols@),
            commit@,
            plan@,
        ),
{
    let ghost f0 = findings_full(findings@);
    if symbols.len() == 0 || allowed.len() == 0 {
        assert(findings_full(findings@) =~= f0 + Seq::<FullFinding>::empty());
        return;
    }
    let ghost av = strings_view(allowed@);
    let ghost sv = strings_view(symbols@);
    let mut i: usize = 0;
    assert(f0 + undeclared_findings(av, sv.take(0), commit@, plan@) =~= f0);
    while i < symbols.len()
        invariant
            i <= sv.len(),
            av == strings_view(allowed@),
            sv == strings_view(symbols@),
            findings_full(findings@) == f0 + undeclared_findings(av, sv.take(i as int), commit@, plan@),
        decreases sv.len() - i,
    {
        assert(sv[i as int] == symbols@[i as int]@);
        assert(sv.take(i + 1).drop_last() =~= sv.take(i as int));
        let ghost f1 = findings_full(findings@);
        if !contains_text(allowed, symbols[i].as_str()) {
            let mut m = chars_of("Commit `");
            append(&mut m, &string_chars(commit));
            append_str(&mut m, "` changes symbol `");
            append(&mut m, &string_chars(&symbols[i]));
            append_str(&mut m, "` outside CommitPlan `");
            append(&mut m, &string_chars(plan));
            append_str(
                &mut m,
                "` allowedSymbols. Remediation: declare/link the code object, update spec intent, and replan the ActionGraph before committing scope expansion.",
            );
            push_gerr(findings, "commit_plan.undeclared_symbol", string_of(&m));
        } else {
            assert(findings_full(findings@) =~= f1 + Seq::<FullFinding>::empty());
        }
        i = i + 1;
    }
    assert(sv.take(sv.len() as int) =~= sv);
}

fn has_passed_validation(graph: &Graph, check: &String) -> (r: bool)
    ensures
        r == validation_passed(graph.node_seq(), check@),
{
    let nodes = graph.nodes();
    let ghost ns = kviews(nodes@);
    let mut i: usize = 0;
    while i < nodes.len()
        invariant
            i <= nodes@.len(),
            ns == kviews(nodes@),
            ns == graph.node_seq(),
            forall|j: int|
                0 <= j < i ==> !((#[trigger] ns[j]).node_type == "ValidationRun"@ && attr_text(ns[j].attributes, "status"@)
                    == Some("Passed"@) && match attr_texts(ns[j].attributes, "checks"@) {
                    Some(cs) => cs.contains(check@),
                    None => false,
                }),
        decreases nodes@.len() - i,
    {
        let n = &nodes[i];
        assert(ns[i as int] == n@);
        if eq_str(&string_chars(&n.node_type), "ValidationRun") {
            let passed = match fields_text(&n.attributes, "status") {
                Some(st) => eq_str(&string_chars(&st), "Passed"),
                None => false,
            };
            if passed {
                match fields_texts(&n.attributes, "checks") {
                    Some(cs) => {
                        if contains_text(&cs, check.as_str()) {
                            return true;
                        }
                    },
                    None => {},
                }
            }
        }
        i = i + 1;
    }
    false
}

fn push_type_mismatch(
    findings: &mut Vec<Finding>,
    expected: &Vec<String>,
    types: &Vec<String>,
    code: &str,
    what: &str,
    commit: &String,
    plan: &String,
)
    ensures
        findings_full(final(findings)@) == findings_full(old(findings)@) + type_mismatch_findings(
            strings_view(expected@),
            strings_view(types@),
            code@,
            what@,
            commit@,
            plan@,
        ),
{
    let ghost ev = strings_view(expected@);
    let ghost tv = strings_view(types@);
    let ghost f0 = findings_full(findings@);
    let mut i: usize = 0;
    assert(f0 + type_mismatch_findings(ev, tv.take(0), code@, what@, commit@, plan@) =~= f0);
    while i < types.len()
        invariant
            i <= tv.len(),
            ev == strings_view(expected@),
            tv == strings_view(types@),
            findings_full(findings@) == f0 + type_mismatch_findings(ev, tv.take(i as int), code@, what@, commit@, plan@),
        decreases tv.len() - i,
    {
        assert(tv[i as int] == types@[i as int]@);
        assert(tv.take(i + 1).drop_last() =~= tv.take(i as int));
        let ghost f1 = findings_full(findings@);
        if expected.len() != 0 && !contains_text(expected, types[i].as_str()) {
            let mut m = chars_of("Commit `");
            append(&mut m, &string_chars(commit));
            append_str(&mut m, "` changes ");
            append_str(&mut m, what);
            append_str(&mut m, " type `");
            append(&mut m, &string_chars(&types[i]));
            append_str(&mut m, "` outside CommitPlan `");
            append(&mut m, &string_chars(plan));
            append_str(&mut m, "` expected");
            append_str(&mut m, what);
            append_str(&mut m, "Types.");
            push_gerr(findings, code, string_of(&m));
        } else {
            assert(findings_full(findings@) =~= f1 + Seq::<FullFinding>::empty());
        }
        i = i + 1;
    }
    assert(tv.take(tv.len() as int) =~= tv);
}

fn texts_or_empty(o: Option<Vec<String>>) -> (r: Vec<String>)
    ensures
        strings_view(r@) == or_none(match o {
            Some(v) => Some(strings_view(v@)),
            None => None,
        }),
{
    match o {
        Some(v) => v,
        None => {
            let v: Vec<String> = Vec::new();
            assert(strings_view(v@) =~= Seq::<Seq<char>>::empty());
            v
        },
    }
}

fn push_expected_delta(
    findings: &mut Vec<Finding>,
    plan: &Node,
    commit: &String,
    trailer: &Option<String>,
    parsed: &Option<GraphDelta>,
)
    ensures
        findings_full(final(findings)@) == findings_full(old(findings)@) + expected_delta_findings(
            plan@,
            commit@,
            sopt(*trailer),
            *parsed,
        ),
{
    let ghost f0 = findings_full(findings@);
    let ent = texts_or_empty(fields_texts(&plan.attributes, "expectedNodeTypes"));
    let eet = texts_or_empty(fields_texts(&plan.attributes, "expectedEdgeTypes"));
    let forbidden = texts_or_empty(fields_texts(&plan.attributes, "forbiddenEffects"));
    let missing = match trailer {
        None => true,
        Some(v) => trim_exec(&string_chars(v)).len() == 0,
    };
    if (ent.len() == 0 && eet.len() == 0 && forbidden.len() == 0) || missing {
        assert(findings_full(findings@) =~= f0 + Seq::<FullFinding>::empty());
        return;
    }
    match parsed {
        None => {
            push_gerr(
                findings,
                "commit_plan.graph_delta_invalid",
                msg3("Commit `", &string_chars(commit), "` GraphDelta trailer is not valid GraphDelta JSON."),
            );
        },
        Some(d) => {
            if contains_text(&forbidden, "deleteNodes") && d.delete_nodes.len() > 0 {
                push_gerr(
                    findings,
                    "commit_plan.forbidden_effect",
                    msg5(
                        "Commit `",
                        &string_chars(commit),
                        "` deletes nodes but CommitPlan `",
                        &string_chars(&plan.id),
                        "` forbids deleteNodes.",
                    ),
                );
            }
            if contains_text(&forbidden, "deleteEdges") && d.delete_edges.len() > 0 {
                push_gerr(
                    findings,
                    "commit_plan.forbidden_effect",
                    msg5(
                        "Commit `",
                        &string_chars(commit),
                        "` deletes edges but CommitPlan `",
                        &string_chars(&plan.id),
                        "` forbids deleteEdges.",
                    ),
                );
            }
            let nts = node_types_in(&d.create_nodes, &d.update_nodes);
            push_type_mismatch(findings, &ent, &nts, "commit_plan.unexpected_node_type", "node", commit, &plan.id);
            let ets = edge_types_in(&d.create_edges, &d.update_edges);
            push_type_mismatch(findings, &eet, &ets, "commit_plan.unexpected_edge_type", "edge", commit, &plan.id);
        },
    }
}


/// What a commit is reported for by its commit plan. `parsed_graph_delta`
/// is the delta that the commit's `GraphDelta:` trailer reads as, or `None`
/// where the trailer is not GraphDelta JSON; it is consulted only where the
/// plan expects types or forbids effects and the trailer is not blank.
pub fn validate_commit_plan_requirements(
    graph: &Graph,
    commit_plan: &Node,
    input: &CommitValidationInput,
    trailers: &CommitTrailers,
    parsed_graph_delta: &Option<GraphDelta>,
) -> (r: Vec<Finding>)
    ensures
        findings_full(r@) == plan_findings(
            graph.node_seq(),
            commit_plan@,
            input.commit@,
            strings_view(input.changed_files@),
            strings_view(input.changed_symbols@),
            sopt(trailers.graph_delta),
            *parsed_graph_delta,
        ),
{
    let mut findings: Vec<Finding> = Vec::new();
    assert(findings_full(findings@) =~= Seq::empty());
    match fields_texts(&commit_plan.attributes, "allowedFiles") {
        Some(a) => push_files_findings(
            &mut findings,
            &a,
            &input.changed_files,
            "commit_plan.out_of_scope_file",
            "CommitPlan allowedFiles",
        ),
        None => {},
    }
    let ghost f1 = findings_full(findings@);
    match fields_texts(&commit_plan.attributes, "allowedSymbols") {
        Some(a) => push_symbols_findings(&mut findings, &a, &input.changed_symbols, &input.commit, &commit_plan.id),
        None => {
            assert(findings_full(findings@) =~= f1 + Seq::<FullFinding>::empty());
        },
    }
    let required = texts_or_empty(fields_texts(&commit_plan.attributes, "requiredValidation"));
    let ghost rv = strings_view(required@);
    let ghost f2 = findings_full(findings@);
    let mut i: usize = 0;
    assert(f2 + required_validation_findings(graph.node_seq(), rv.take(0), input.commit@, commit_plan.id@) =~= f2);
    while i < required.len()
        invariant
            i <= rv.len(),
            rv == strings_view(required@),
            findings_full(findings@) == f2 + required_validation_findings(
                graph.node_seq(),
                rv.take(i as int),
                input.commit@,
                commit_plan.id@,
            ),
        decreases rv.len() - i,
    {
        assert(rv[i as int] == required@[i as int]@);
        assert(rv.take(i + 1).drop_last() =~= rv.take(i as int));
        let ghost f3 = findings_full(findings@);
        if !has_passed_validation(graph, &required[i]) {
            let mut m = chars_of("Commit `");
            append(&mut m, &string_chars(&input.commit));
            append_str(&mut m, "` requires passed validation `");
            append(&mut m, &string_chars(&required[i]));
            append_str(&mut m, "` before using CommitPlan `");
            append(&mut m, &string_chars(&commit_plan.id));
            append_str(&mut m, "`");
            push_gerr(&mut findings, "commit_plan.required_validation_missing", string_of(&m));
        } else {
            assert(findings_full(findings@) =~= f3 + Seq::<FullFinding>::empty());
        }
        i = i + 1;
    }
    assert(rv.take(rv.len() as int) =~= rv);
    let ghost f4 = findings_full(findings@);
    let missing = match &trailers.graph_delta {
        None => true,
        Some(v) => trim_exec(&string_chars(v)).len() == 0,
    };
    if fields_bool(&commit_plan.attributes, "expectedGraphDelta") && missing {
        push_gerr(
            &mut findings,
            "commit_plan.graph_delta_trailer_missing",
            msg5(
                "Commit `",
                &string_chars(&input.commit),
                "` requires a `GraphDelta:` trailer for CommitPlan `",
                &string_chars(&commit_plan.id),
                "`",
            ),
        );
    } else {
        assert(findings_full(findings@) =~= f4 + Seq::<FullFinding>::empty());
    }
    push_expected_delta(&mut findings, commit_plan, &input.commit, &trailers.graph_delta, parsed_graph_delta);
    findings
}

// ------------------------------------------------------------ binding

/// A node answers to a reference by its id, its name or its category.
pub open spec fn matches_ref(n: NodeV, reference: Seq<char>) -> bool {
    n.id == reference || attr_text(n.attributes, "name"@) == Some(reference) || attr_text(n.attributes, "category"@)
        == Some(reference)
}

/// The first Spec node (in id order) whose `spec` attribute is `spec`.
pub open spec fn first_spec(ns: Seq<NodeV>, spec: Seq<char>) -> Option<NodeV>
    decreases ns.len(),
{
    if ns.len() == 0 {
        None
    } else if ns[0].node_type == "Spec"@ && attr_text(ns[0].attributes, "spec"@) == Some(spec) {
        Some(ns[0])
    } else {
        first_spec(ns.drop_first(), spec)
    }
}

/// The first edge (in id order) of type `et` out of `from`.
pub open spec fn first_out(es: Seq<EdgeV>, from: Seq<char>, et: Seq<char>) -> Option<EdgeV>
    decreases es.len(),
{
    if es.len() == 0 {
        None
    } else if es[0].from == from && es[0].edge_type == et {
        Some(es[0])
    } else {
        first_out(es.drop_first(), from, et)
    }
}

/// The first node (in edge order) that an `et` edge out of `from` reaches
/// and that answers to `reference`.
pub open spec fn first_target(
    nm: Map<Seq<char>, NodeV>,
    es: Seq<EdgeV>,
    from: Seq<char>,
    et: Seq<char>,
    reference: Seq<char>,
) -> Option<NodeV>
    decreases es.len(),
{
    if es.len() == 0 {
        None
    } else if es[0].from == from && es[0].edge_type == et && nm.contains_key(es[0].to) && matches_ref(
        nm[es[0].to],
        reference,
    ) {
        Some(nm[es[0].to])
    } else {
        first_target(nm, es.drop_first(), from, et, reference)
    }
}

pub open spec fn missing_trailer_findings(commit: Seq<char>, t: TrailersView) -> Seq<FullFinding> {
    (if trailer_missing(t.0) {
        gerr("commit.missing_trailer"@, "Commit `"@ + commit + "` is missing required `"@ + "Spec"@ + ":` trailer"@)
    } else {
        Seq::empty()
    }) + (if trailer_missing(t.1) {
        gerr("commit.missing_trailer"@, "Commit `"@ + commit + "` is missing required `"@ + "ActionGroup"@ + ":` trailer"@)
    } else {
        Seq::empty()
    }) + (if trailer_missing(t.2) {
        gerr("commit.missing_trailer"@, "Commit `"@ + commit + "` is missing required `"@ + "CommitPlan"@ + ":` trailer"@)
    } else {
        Seq::empty()
    })
}

/// What a commit is reported for: each missing or blank trailer; then,
/// where all three are given, the first link of spec, action graph, action
/// group and commit plan that cannot be followed; where all can, the changed
/// files against the group's scope and the commit against its plan.
pub open spec fn binding_findings(
    nm: Map<Seq<char>, NodeV>,
    ns: Seq<NodeV>,
    es: Seq<EdgeV>,
    commit: Seq<char>,
    message: Seq<char>,
    files: Seq<Seq<char>>,
    symbols: Seq<Seq<char>>,
    parsed: Option<GraphDelta>,
) -> Seq<FullFinding> {
    let t = trailers_of(lines(message));
    missing_trailer_findings(commit, t) + match (t.0, t.1, t.2) {
        (Some(spec), Some(ag), Some(cp)) => match first_spec(ns, spec) {
            None => gerr("commit.unknown_spec"@, "Commit `"@ + commit + "` references unknown Spec `"@ + spec + "`"@),
            Some(sn) => match first_out(es, sn.id, "HAS_ACTION_GRAPH"@) {
                None => gerr(
                    "commit.spec_missing_action_graph"@,
                    "Spec `"@ + spec + "` has no ActionGraph for commit `"@ + commit + "`"@,
                ),
                Some(age) => match first_target(nm, es, age.to, "HAS_ACTION_GROUP"@, ag) {
                    None => gerr(
                        "commit.unknown_action_group"@,
                        "Commit `"@ + commit + "` references unknown ActionGroup `"@ + ag + "` for Spec `"@ + spec + "`"@,
                    ),
                    Some(group) => match first_target(nm, es, group.id, "HAS_COMMIT_PLAN"@, cp) {
                        None => gerr(
                            "commit.unknown_commit_plan"@,
                            "Commit `"@ + commit + "` references unknown CommitPlan `"@ + cp + "` for ActionGroup `"@
                                + ag + "`"@,
                        ),
                        Some(plan) => scope_findings(nm, es, group.id, files) + plan_findings(
                            ns,
                            plan,
                            commit,
                            files,
                            symbols,
                            t.3,
                            parsed,
                        ),
                    },
                },
            },
        },
        _ => Seq::empty(),
    }
}

fn matches_ref_exec(n: &Node, reference: &String) -> (r: bool)
    ensures
        r == matches_ref(n@, reference@),
{
    let rc = string_chars(reference);
    if eq_chars(&string_chars(&n.id), &rc) {
        return true;
    }
    let by_name = match fields_text(&n.attributes, "name") {
        Some(t) => eq_chars(&string_chars(&t), &rc),
        None => false,
    };
    if by_name {
        return true;
    }
    match fields_text(&n.attributes, "category") {
        Some(t) => eq_chars(&string_chars(&t), &rc),
        None => false,
    }
}

pub(crate) fn find_spec<'a>(graph: &'a Graph, spec: &String) -> (r: Option<&'a Node>)
    ensures
        match r {
            Some(n) => first_spec(graph.node_seq(), spec@) == Some(n@),
            None => first_spec(graph.node_seq(), spec@) is None,
        },
{
    let nodes = graph.nodes();
    let ghost ns = kviews(nodes@);
    let sc = string_chars(spec);
    let mut i: usize = 0;
    assert(ns.skip(0) =~= ns);
    while i < nodes.len()
        invariant
            i <= nodes@.len(),
            ns == kviews(nodes@),
            ns == graph.node_seq(),
            sc@ == spec@,
            first_spec(ns, spec@) == first_spec(ns.skip(i as int), spec@),
        decreases nodes@.len() - i,
    {
        assert(ns.skip(i as int)[0] == ns[i as int]);
        assert(ns[i as int] == nodes@[i as int]@);
        assert(ns.skip(i as int).drop_first() =~= ns.skip(i + 1));
        let n = &nodes[i];
        if eq_str(&string_chars(&n.node_type), "Spec") {
            let hit = match fields_text(&n.attributes, "spec") {
                Some(v) => eq_chars(&string_chars(&v), &sc),
                None => false,
            };
            if hit {
                return Some(n);
            }
        }
        i = i + 1;
    }
    None
}

pub(crate) fn find_out<'a>(graph: &'a Graph, from: &String, et: &str) -> (r: Option<&'a crate::model::Edge>)
    ensures
        match r {
            Some(e) => first_out(graph.edge_seq(), from@, et@) == Some(e@),
            None => first_out(graph.edge_seq(), from@, et@) is None,
        },
{
    let edges = graph.edges();
    let ghost es = kviews(edges@);
    let fc = string_chars(from);
    let mut i: usize = 0;
    assert(es.skip(0) =~= es);
    while i < edges.len()
        invariant
            i <= edges@.len(),
            es == kviews(edges@),
            es == graph.edge_seq(),
            fc@ == from@,
            first_out(es, from@, et@) == first_out(es.skip(i as int), from@, et@),
        decreases edges@.len() - i,
    {
        assert(es.skip(i as int)[0] == es[i as int]);
        assert(es[i as int] == edges@[i as int]@);
        assert(es.skip(i as int).drop_first() =~= es.skip(i + 1));
        let e = &edges[i];
        if eq_chars(&string_chars(&e.from), &fc) && eq_str(&string_chars(&e.edge_type), et) {
            return Some(e);
        }
        i = i + 1;
    }
    None
}

pub(crate) fn find_target<'a>(graph: &'a Graph, from: &String, et: &str, reference: &String) -> (r: Option<&'a Node>)
    ensures
        match r {
            Some(n) => first_target(graph.node_map(), graph.edge_seq(), from@, et@, reference@) == Some(n@),
            None => first_target(graph.node_map(), graph.edge_seq(), from@, et@, reference@) is None,
        },
{
    let edges = graph.edges();
    let ghost es = kviews(edges@);
    let ghost nm = graph.node_map();
    let fc = string_chars(from);
    let mut i: usize = 0;
    assert(es.skip(0) =~= es);
    while i < edges.len()
        invariant
            i <= edges@.len(),
            es == kviews(edges@),
            es == graph.edge_seq(),
            nm == graph.node_map(),
            fc@ == from@,
            first_target(nm, es, from@, et@, reference@) == first_target(nm, es.skip(i as int), from@, et@, reference@),
        decreases edges@.len() - i,
    {
        assert(es.skip(i as int)[0] == es[i as int]);
        assert(es[i as int] == edges@[i as int]@);
        assert(es.skip(i as int).drop_first() =~= es.skip(i + 1));
        let e = &edges[i];
        if eq_chars(&string_chars(&e.from), &fc) && eq_str(&string_chars(&e.edge_type), et) {
            match graph.node(e.to.as_str()) {
                Some(n) => {
                    if matches_ref_exec(n, reference) {
                        return Some(n);
                    }
                },
                None => {},
            }
        }
        i = i + 1;
    }
    None
}

/// Checks that a commit names its spec, action group and commit plan in
/// trailers, that the graph links them, and that the commit stays within the
/// group's scope and the plan's rules. `parsed_graph_delta` is what the
/// `GraphDelta:` trailer reads as, as for `validate_commit_plan_requirements`.
pub fn validate_commit_binding(
    graph: &Graph,
    input: &CommitValidationInput,
    parsed_graph_delta: &Option<GraphDelta>,
) -> (r: Vec<Finding>)
    ensures
        findings_full(r@) == binding_findings(
            graph.node_map(),
            graph.node_seq(),
            graph.edge_seq(),
            input.commit@,
            input.message@,
            strings_view(input.changed_files@),
            strings_view(input.changed_symbols@),
            *parsed_graph_delta,
        ),
{
    let trailers = parse_commit_trailers(input.message.as_str());
    let mut findings: Vec<Finding> = Vec::new();
    assert(findings_full(findings@) =~= Seq::empty());
    require_trailer(&mut findings, input.commit.as_str(), "Spec", &trailers.spec);
    require_trailer(&mut findings, input.commit.as_str(), "ActionGroup", &trailers.action_group);
    require_trailer(&mut findings, input.commit.as_str(), "CommitPlan", &trailers.commit_plan);
    let ghost f0 = findings_full(findings@);
    assert(f0 =~= missing_trailer_findings(input.commit@, trailers_view(trailers)));
    let (spec, ag, cp) = match (&trailers.spec, &trailers.action_group, &trailers.commit_plan) {
        (Some(a), Some(b), Some(c)) => (a, b, c),
        _ => {
            assert(findings_full(findings@) =~= f0 + Seq::<FullFinding>::empty());
            return findings;
        },
    };
    let commit = string_chars(&input.commit);
    let spec_node = match find_spec(graph, spec) {
        Some(n) => n,
        None => {
            push_gerr(&mut findings, "commit.unknown_spec", msg5("Commit `", &commit, "` references unknown Spec `", &string_chars(spec), "`"));
            return findings;
        },
    };
    let age = match find_out(graph, &spec_node.id, "HAS_ACTION_GRAPH") {
        Some(e) => e,
        None => {
            push_gerr(
                &mut findings,
                "commit.spec_missing_action_graph",
                msg5("Spec `", &string_chars(spec), "` has no ActionGraph for commit `", &commit, "`"),
            );
            return findings;
        },
    };
    let group = match find_target(graph, &age.to, "HAS_ACTION_GROUP", ag) {
        Some(n) => n,
        None => {
            let mut m = chars_of("Commit `");
            append(&mut m, &commit);
            append_str(&mut m, "` references unknown ActionGroup `");
            append(&mut m, &string_chars(ag));
            append_str(&mut m, "` for Spec `");
            append(&mut m, &string_chars(spec));
            append_str(&mut m, "`");
            push_gerr(&mut findings, "commit.unknown_action_group", string_of(&m));
            return findings;
        },
    };
    let plan = match find_target(graph, &group.id, "HAS_COMMIT_PLAN", cp) {
        Some(n) => n,
        None => {
            let mut m = chars_of("Commit `");
            append(&mut m, &commit);
            append_str(&mut m, "` references unknown CommitPlan `");
            append(&mut m, &string_chars(cp));
            append_str(&mut m, "` for ActionGroup `");
            append(&mut m, &string_chars(ag));
            append_str(&mut m, "`");
            push_gerr(&mut findings, "commit.unknown_commit_plan", string_of(&m));
            return findings;
        },
    };
    let scope = validate_changed_files_against_action_group(graph, group.id.as_str(), &input.changed_files);
    let plan_fs = validate_commit_plan_requirements(graph, plan, input, &trailers, parsed_graph_delta);
    let ghost g0 = findings_full(findings@);
    let mut scope = scope;
    let mut plan_fs = plan_fs;
    let ghost sv = findings_full(scope@);
    let ghost pv = findings_full(plan_fs@);
    findings.append(&mut scope);
    findings.append(&mut plan_fs);
    assert(findings_full(findings@) =~= g0 + sv + pv);
    findings
}


/// A commit message without Spec, ActionGroup and CommitPlan trailers is
/// reported for exactly those three missing trailers, each an error, and
/// for nothing else.
pub proof fn commit_without_trailers_misses_three(
    nm: Map<Seq<char>, NodeV>,
    ns: Seq<NodeV>,
    es: Seq<EdgeV>,
    commit: Seq<char>,
    message: Seq<char>,
    files: Seq<Seq<char>>,
    symbols: Seq<Seq<char>>,
    parsed: Option<GraphDelta>,
)
    requires
        trailers_of(lines(message)).0 is None,
        trailers_of(lines(message)).1 is None,
        trailers_of(lines(message)).2 is None,
    ensures
        ({
            let fs = binding_findings(nm, ns, es, commit, message, files, symbols, parsed);
            &&& fs.len() == 3
            &&& forall|i: int|
                0 <= i < 3 ==> (#[trigger] fs[i]).0 == "commit.missing_trailer"@ && fs[i].1 == FindingSeverity::Error
        }),
{
    let t = trailers_of(lines(message));
    let fs = binding_findings(nm, ns, es, commit, message, files, symbols, parsed);
    assert(fs == missing_trailer_findings(commit, t));
}


/// The key of a message line `Key: value`: the text before the first `:`,
/// trimmed and lower-cased.
pub open spec fn line_key(line: Seq<char>) -> Option<Seq<char>> {
    match split_once(trim(line), ":"@) {
        Some((key, _)) => Some(lower(trim(key))),
        None => None,
    }
}

/// The value of a message line `Key: value`: the text after the first `:`,
/// trimmed.
pub open spec fn line_value(line: Seq<char>) -> Seq<char> {
    match split_once(trim(line), ":"@) {
        Some((_, value)) => trim(value),
        None => Seq::empty(),
    }
}

/// Whether a line's key is `a` or `b`.
pub open spec fn keyed_by(line: Seq<char>, a: Seq<char>, b: Seq<char>) -> bool {
    line_key(line) == Some(a) || line_key(line) == Some(b)
}

pub open spec fn slot(t: TrailersView, s: int) -> Option<Seq<char>> {
    if s == 0 {
        t.0
    } else if s == 1 {
        t.1
    } else if s == 2 {
        t.2
    } else {
        t.3
    }
}

proof fn lemma_trailer_keys()
    ensures
        "spec"@ != "actiongroup"@ && "spec"@ != "action-group"@ && "spec"@ != "commitplan"@ && "spec"@ != "commit-plan"@
            && "spec"@ != "graphdelta"@ && "spec"@ != "graph-delta"@,
        "actiongroup"@ != "commitplan"@ && "actiongroup"@ != "commit-plan"@ && "actiongroup"@ != "graphdelta"@
            && "actiongroup"@ != "graph-delta"@,
        "action-group"@ != "commitplan"@ && "action-group"@ != "commit-plan"@ && "action-group"@ != "graphdelta"@
            && "action-group"@ != "graph-delta"@,
        "commitplan"@ != "graphdelta"@ && "commitplan"@ != "graph-delta"@ && "commit-plan"@ != "graphdelta"@
            && "commit-plan"@ != "graph-delta"@,
        ":"@.len() == 1,
{
    reveal_strlit("spec");
    reveal_strlit("actiongroup");
    reveal_strlit("action-group");
    reveal_strlit("commitplan");
    reveal_strlit("commit-plan");
    reveal_strlit("graphdelta");
    reveal_strlit("graph-delta");
    reveal_strlit(":");
    assert("spec"@.len() == 4 && "actiongroup"@.len() == 11 && "action-group"@.len() == 12);
    assert("commitplan"@.len() == 10 && "commit-plan"@.len() == 11 && "graphdelta"@.len() == 10);
    assert("graph-delta"@.len() == 11);
    assert("actiongroup"@[0] == 'a' && "commit-plan"@[0] == 'c' && "graph-delta"@[0] == 'g');
    assert("commitplan"@[0] == 'c' && "graphdelta"@[0] == 'g');
}

/// The slot a line with key `k` writes: the spec (0), the action group (1),
/// the commit plan (2) or the graph delta (3).
pub open spec fn keys_of_slot(s: int) -> (Seq<char>, Seq<char>) {
    if s == 0 {
        ("spec"@, "spec"@)
    } else if s == 1 {
        ("actiongroup"@, "action-group"@)
    } else if s == 2 {
        ("commitplan"@, "commit-plan"@)
    } else {
        ("graphdelta"@, "graph-delta"@)
    }
}

proof fn lemma_apply_line_slot(t: TrailersView, line: Seq<char>, s: int)
    requires
        0 <= s < 4,
    ensures
        keyed_by(line, keys_of_slot(s).0, keys_of_slot(s).1) ==> slot(apply_trailer_line(t, line), s) == Some(
            line_value(line),
        ),
        !keyed_by(line, keys_of_slot(s).0, keys_of_slot(s).1) ==> slot(apply_trailer_line(t, line), s) == slot(t, s),
{
    lemma_trailer_keys();
    let trimmed = trim(line);
    if trimmed.len() == 0 {
        assert(crate::text::find(trimmed, ":"@) is None);
        assert(split_once(trimmed, ":"@) is None);
    }
}

proof fn lemma_trailer_slot(ls: Seq<Seq<char>>, s: int)
    requires
        0 <= s < 4,
    ensures
        forall|k: int|
            0 <= k < ls.len() && keyed_by(#[trigger] ls[k], keys_of_slot(s).0, keys_of_slot(s).1) && (forall|j: int|
                0 <= j < k ==> !keyed_by(#[trigger] ls[j], keys_of_slot(s).0, keys_of_slot(s).1)) ==> slot(
                trailers_of(ls),
                s,
            ) == Some(line_value(ls[k])),
        (forall|j: int| 0 <= j < ls.len() ==> !keyed_by(#[trigger] ls[j], keys_of_slot(s).0, keys_of_slot(s).1))
            ==> slot(trailers_of(ls), s) is None,
    decreases ls.len(),
{
    if ls.len() > 0 {
        let rest = ls.drop_first();
        lemma_trailer_slot(rest, s);
        lemma_apply_line_slot(trailers_of(rest), ls[0], s);
        assert forall|k: int|
            0 <= k < ls.len() && keyed_by(#[trigger] ls[k], keys_of_slot(s).0, keys_of_slot(s).1) && (forall|j: int|
                0 <= j < k ==> !keyed_by(#[trigger] ls[j], keys_of_slot(s).0, keys_of_slot(s).1)) implies slot(
            trailers_of(ls),
            s,
        ) == Some(line_value(ls[k])) by {
            if k > 0 {
                assert(!keyed_by(ls[0], keys_of_slot(s).0, keys_of_slot(s).1));
                assert(rest[k - 1] == ls[k]);
                assert forall|j: int| 0 <= j < k - 1 implies !keyed_by(#[trigger] rest[j], keys_of_slot(s).0, keys_of_slot(s).1) by {
                    assert(rest[j] == ls[j + 1]);
                    assert(!keyed_by(ls[j + 1], keys_of_slot(s).0, keys_of_slot(s).1));
                }
            }
        }
        if forall|j: int| 0 <= j < ls.len() ==> !keyed_by(#[trigger] ls[j], keys_of_slot(s).0, keys_of_slot(s).1) {
            assert(!keyed_by(ls[0], keys_of_slot(s).0, keys_of_slot(s).1));
            assert forall|j: int| 0 <= j < rest.len() implies !keyed_by(#[trigger] rest[j], keys_of_slot(s).0, keys_of_slot(s).1) by {
                assert(rest[j] == ls[j + 1]);
            }
        }
    }
}

/// A commit message's trailers are read from its `Key: value` lines, the key
/// compared case-insensitively: the first line keyed `spec` gives the spec,
/// the first keyed `actiongroup` or `action-group` the action group, the
/// first keyed `commitplan` or `commit-plan` the commit plan, and the first
/// keyed `graphdelta` or `graph-delta` the graph delta, each as the trimmed
/// value after the first `:`; a trailer no line names is absent.
pub proof fn trailers_come_from_keyed_lines(ls: Seq<Seq<char>>)
    ensures
        forall|k: int|
            0 <= k < ls.len() && keyed_by(#[trigger] ls[k], "graphdelta"@, "graph-delta"@) && (forall|j: int|
                0 <= j < k ==> !keyed_by(#[trigger] ls[j], "graphdelta"@, "graph-delta"@)) ==> trailers_of(ls).3
                == Some(line_value(ls[k])),
        forall|k: int|
            0 <= k < ls.len() && keyed_by(#[trigger] ls[k], "spec"@, "spec"@) && (forall|j: int|
                0 <= j < k ==> !keyed_by(#[trigger] ls[j], "spec"@, "spec"@)) ==> trailers_of(ls).0 == Some(
                line_value(ls[k]),
            ),
        forall|k: int|
            0 <= k < ls.len() && keyed_by(#[trigger] ls[k], "actiongroup"@, "action-group"@) && (forall|j: int|
                0 <= j < k ==> !keyed_by(#[trigger] ls[j], "actiongroup"@, "action-group"@)) ==> trailers_of(ls).1
                == Some(line_value(ls[k])),
        forall|k: int|
            0 <= k < ls.len() && keyed_by(#[trigger] ls[k], "commitplan"@, "commit-plan"@) && (forall|j: int|
                0 <= j < k ==> !keyed_by(#[trigger] ls[j], "commitplan"@, "commit-plan"@)) ==> trailers_of(ls).2
                == Some(line_value(ls[k])),
        (forall|j: int| 0 <= j < ls.len() ==> !keyed_by(#[trigger] ls[j], "graphdelta"@, "graph-delta"@))
            ==> trailers_of(ls).3 is None,
        (forall|j: int| 0 <= j < ls.len() ==> !keyed_by(#[trigger] ls[j], "spec"@, "spec"@)) ==> trailers_of(ls).0
            is None,
{
    lemma_trailer_slot(ls, 0);
    lemma_trailer_slot(ls, 1);
    lemma_trailer_slot(ls, 2);
    lemma_trailer_slot(ls, 3);
}

} // verus!
