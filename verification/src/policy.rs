//! Policy evaluation: the built-in merge policies, waivers, and rules read
//! from policy manifests that match operations and changed-file globs.

use crate::model::{Finding, FindingSeverity, Graph, findings_view, no_related, push_finding};
use crate::text::{
    append, append_str, chars_of, contains, contains_str, lower, lower_exec, msg3, msg5, msg7,
    starts_with, starts_with_str, str_eq, string_chars, string_of, strings_view, trim, trim_exec,
    contains_string,
};
use globset::{Glob, GlobSet, GlobSetBuilder};
use time::format_description::well_known::Rfc3339;
use time::OffsetDateTime;
use vstd::prelude::*;

verus! {

#[verifier::external_type_specification]
#[verifier::external_body]
pub struct ExGlobSetBuilder(GlobSetBuilder);

#[verifier::external_type_specification]
#[verifier::external_body]
pub struct ExGlobSet(GlobSet);

/// The patterns a glob-set builder holds, in the order they were added.
pub uninterp spec fn glob_builder_patterns(builder: GlobSetBuilder) -> Seq<Seq<char>>;

/// The patterns a glob set was built from.
pub uninterp spec fn glob_set_patterns(set: GlobSet) -> Seq<Seq<char>>;

/// Whether `Glob::new` accepts the pattern. The answer is the build
/// target's: `\\` escapes only where it is not a path separator, so a name
/// holds per target, not across machines; nothing in this crate compares
/// answers across targets.
pub uninterp spec fn glob_pattern_parses(pattern: Seq<char>) -> bool;

/// Whether `GlobSetBuilder::build` succeeds on these patterns.
pub uninterp spec fn glob_set_builds(patterns: Seq<Seq<char>>) -> bool;

/// Whether `GlobSet::is_match` finds that one of the patterns matches the path.
/// The answer is the build target's: paths are normalised only on non-Unix
/// targets, so a name holds per target, not across machines; nothing in
/// this crate compares answers across targets.
pub uninterp spec fn glob_set_matches(patterns: Seq<Seq<char>>, path: Seq<char>) -> bool;

/// `GlobSetBuilder::new`: a builder holding no pattern.
#[verifier::external_body]
pub(crate) fn glob_builder_new() -> (builder: GlobSetBuilder)
    ensures
        glob_builder_patterns(builder) == Seq::<Seq<char>>::empty(),
{
    GlobSetBuilder::new()
}

/// `Glob::new` on the pattern and, where it parses, `GlobSetBuilder::add`:
/// the builder then holds the pattern after those it held; otherwise it is
/// left as it was.
#[verifier::external_body]
pub(crate) fn glob_builder_add(builder: &mut GlobSetBuilder, pattern: &str) -> (added: bool)
    ensures
        added == glob_pattern_parses(pattern@),
        added ==> glob_builder_patterns(*final(builder)) == glob_builder_patterns(*old(builder)).push(
            pattern@,
        ),
        !added ==> glob_builder_patterns(*final(builder)) == glob_builder_patterns(*old(builder)),
{
    match Glob::new(pattern) {
        Ok(glob) => {
            builder.add(glob);
            true
        },
        Err(_) => false,
    }
}

/// `GlobSetBuilder::build`: a set made of the builder's patterns, where the
/// build succeeds.
#[verifier::external_body]
pub(crate) fn glob_builder_build(builder: &GlobSetBuilder) -> (set: Option<GlobSet>)
    ensures
        set is Some == glob_set_builds(glob_builder_patterns(*builder)),
        set matches Some(s) ==> glob_set_patterns(s) == glob_builder_patterns(*builder),
{
    match builder.build() {
        Ok(set) => Some(set),
        Err(_) => None,
    }
}

/// `GlobSet::is_match`: whether a pattern of the set matches the path; an
/// empty set matches nothing.
#[verifier::external_body]
pub(crate) fn glob_set_is_match(set: &GlobSet, path: &str) -> (r: bool)
    ensures
        r == glob_set_matches(glob_set_patterns(*set), path@),
        glob_set_patterns(*set).len() == 0 ==> !r,
{
    set.is_match(path)
}

/// What `OffsetDateTime::parse` with the RFC 3339 format gives for a text:
/// the instant in nanoseconds since the Unix epoch, or the parser's error
/// message.
pub uninterp spec fn rfc3339_parse(text: Seq<char>) -> Result<i128, Seq<char>>;

/// `OffsetDateTime::parse(value, &Rfc3339)`, read as nanoseconds since the
/// Unix epoch (`unix_timestamp_nanos`), or the error's text.
#[verifier::external_body]
pub(crate) fn parse_rfc3339(value: &str) -> (r: Result<i128, String>)
    ensures
        match r {
            Ok(t) => rfc3339_parse(value@) == Ok::<i128, Seq<char>>(t),
            Err(e) => rfc3339_parse(value@) == Err::<i128, Seq<char>>(e@),
        },
{
    match OffsetDateTime::parse(value, &Rfc3339) {
        Ok(t) => Ok(t.unix_timestamp_nanos()),
        Err(error) => Err(format!("{error}")),
    }
}

/// `OffsetDateTime::now_utc`, in nanoseconds since the Unix epoch. Nothing
/// is stated of it: it is the clock's reading.
#[verifier::external_body]
pub(crate) fn now_unix_nanos() -> (t: i128) {
    OffsetDateTime::now_utc().unix_timestamp_nanos()
}

#[derive(Debug, Clone, Copy, PartialEq, Eq, Structural)]
pub enum PolicyEffect {
    Allow,
    Warn,
    Deny,
    RequireApproval,
}

#[derive(Debug, Clone, PartialEq, Eq)]
pub struct PolicyDecision {
    pub policy: String,
    pub effect: PolicyEffect,
    pub message: String,
}

#[derive(Debug, Clone, PartialEq, Eq)]
pub struct Waiver {
    pub policy: String,
    pub reason: String,
    pub approved_by: String,
    pub expires_at: Option<String>,
}

#[derive(Debug, Clone, PartialEq, Eq)]
pub struct PolicyCheckInput {
    pub operation: String,
    pub changed_files: Vec<String>,
    pub actor_roles: Vec<String>,
    pub approvals: Vec<String>,
    pub waivers: Vec<Waiver>,
}

#[derive(Debug, Clone, PartialEq, Eq)]
pub struct PolicyReport {
    pub decisions: Vec<PolicyDecision>,
    pub findings: Vec<Finding>,
}

#[derive(Debug, Clone, PartialEq, Eq)]
pub struct PolicyManifest {
    pub policies: Vec<PolicyRule>,
}

#[derive(Debug, Clone, PartialEq, Eq)]
pub struct PolicyRule {
    pub id: String,
    pub description: Option<String>,
    pub effect: PolicyEffect,
    pub message: Option<String>,
    pub operations: Vec<String>,
    pub changed_file_globs: Vec<String>,
    pub required_approvals: Vec<String>,
    pub required_roles: Vec<String>,
    pub waivable: bool,
}

/// A decision's policy, effect and message.
pub open spec fn decision_view(d: PolicyDecision) -> (Seq<char>, PolicyEffect, Seq<char>) {
    (d.policy@, d.effect, d.message@)
}

pub open spec fn decisions_view(ds: Seq<PolicyDecision>) -> Seq<(Seq<char>, PolicyEffect, Seq<char>)> {
    ds.map_values(|d: PolicyDecision| decision_view(d))
}

fn push_decision(ds: &mut Vec<PolicyDecision>, policy: &str, effect: PolicyEffect, message: String)
    ensures
        decisions_view(final(ds)@) == decisions_view(old(ds)@).push((policy@, effect, message@)),
{
    let ghost prev = ds@;
    ds.push(PolicyDecision { policy: String::from_str(policy), effect, message });
    assert(decisions_view(ds@) =~= decisions_view(prev).push((policy@, effect, message@)));
}

// ---------------------------------------------------------------- globs

/// Every pattern parses and the set builds.
pub open spec fn globs_compile(patterns: Seq<Seq<char>>) -> bool {
    &&& forall|i: int| 0 <= i < patterns.len() ==> glob_pattern_parses(#[trigger] patterns[i])
    &&& glob_set_builds(patterns)
}

/// A glob set of all the patterns, where each parses and the set builds.
fn build_glob_set(patterns: &Vec<String>) -> (r: Option<GlobSet>)
    ensures
        r is Some == globs_compile(strings_view(patterns@)),
        r matches Some(s) ==> glob_set_patterns(s) == strings_view(patterns@),
{
    let ghost ps = strings_view(patterns@);
    let mut builder = glob_builder_new();
    let mut i: usize = 0;
    while i < patterns.len()
        invariant
            i <= ps.len(),
            ps == strings_view(patterns@),
            glob_builder_patterns(builder) == ps.take(i as int),
            forall|j: int| 0 <= j < i ==> glob_pattern_parses(#[trigger] ps[j]),
        decreases ps.len() - i,
    {
        let added = glob_builder_add(&mut builder, patterns[i].as_str());
        if !added {
            assert(!glob_pattern_parses(ps[i as int]));
            return None;
        }
        assert(ps.take(i + 1) =~= ps.take(i as int).push(ps[i as int]));
        i = i + 1;
    }
    assert(ps.take(ps.len() as int) =~= ps);
    glob_builder_build(&builder)
}

/// A rule applies when it names the operation (or names none) and, where it
/// lists globs, they compile and one of them matches a changed file.
pub open spec fn rule_applies(input: PolicyCheckInput, rule: PolicyRule) -> bool {
    let ops = strings_view(rule.operations@);
    let globs = strings_view(rule.changed_file_globs@);
    if ops.len() > 0 && !ops.contains(input.operation@) {
        false
    } else if globs.len() == 0 {
        true
    } else if !globs_compile(globs) {
        false
    } else {
        exists|i: int|
            0 <= i < input.changed_files@.len() && glob_set_matches(
                globs,
                #[trigger] input.changed_files@[i]@,
            )
    }
}

fn rule_matches(input: &PolicyCheckInput, rule: &PolicyRule) -> (r: bool)
    ensures
        r == rule_applies(*input, *rule),
{
    if rule.operations.len() > 0 && !contains_string(&rule.operations, input.operation.as_str()) {
        return false;
    }
    if rule.changed_file_globs.len() == 0 {
        return true;
    }
    let globs = match build_glob_set(&rule.changed_file_globs) {
        Some(g) => g,
        None => {
            return false;
        },
    };
    let ghost ps = strings_view(rule.changed_file_globs@);
    let mut i: usize = 0;
    while i < input.changed_files.len()
        invariant
            i <= input.changed_files@.len(),
            glob_set_patterns(globs) == ps,
            ps == strings_view(rule.changed_file_globs@),
            ps.len() > 0,
            globs_compile(ps),
            !(strings_view(rule.operations@).len() > 0 && !strings_view(rule.operations@).contains(
                input.operation@,
            )),
            forall|j: int| 0 <= j < i ==> !glob_set_matches(ps, #[trigger] input.changed_files@[j]@),
        decreases input.changed_files@.len() - i,
    {
        if glob_set_is_match(&globs, input.changed_files[i].as_str()) {
            return true;
        }
        i = i + 1;
    }
    false
}

// ---------------------------------------------------------------- waivers

/// Empty once surrounding whitespace is trimmed.
pub open spec fn blank(s: Seq<char>) -> bool {
    trim(s).len() == 0
}

fn is_blank(s: &String) -> (r: bool)
    ensures
        r == blank(s@),
{
    is_blank_string(s)
}

/// Whether a text is empty once trimmed.
pub fn is_blank_string(s: &String) -> (r: bool)
    ensures
        r == blank(s@),
{
    trim_exec(&string_chars(s)).len() == 0
}

/// A waiver names a policy, a reason and an approver.
pub open spec fn waiver_complete(w: Waiver) -> bool {
    !blank(w.policy@) && !blank(w.reason@) && !blank(w.approved_by@)
}

/// A waiver without an expiry, or whose expiry parses and lies after `now`.
pub open spec fn waiver_unexpired(w: Waiver, now: i128) -> bool {
    match w.expires_at {
        Some(e) => match rfc3339_parse(e@) {
            Ok(t) => t > now,
            Err(_) => false,
        },
        None => true,
    }
}

/// A complete, unexpired waiver for `policy` is among `waivers`.
pub open spec fn waived(waivers: Seq<Waiver>, policy: Seq<char>, now: i128) -> bool {
    exists|i: int|
        0 <= i < waivers.len() && (#[trigger] waivers[i]).policy@ == policy && waiver_complete(waivers[i])
            && waiver_unexpired(waivers[i], now)
}

fn waiver_has_required_fields(waiver: &Waiver) -> (r: bool)
    ensures
        r == waiver_complete(*waiver),
{
    !is_blank(&waiver.policy) && !is_blank(&waiver.reason) && !is_blank(&waiver.approved_by)
}

fn waiver_is_unexpired(waiver: &Waiver, now: i128) -> (r: bool)
    ensures
        r == waiver_unexpired(*waiver, now),
{
    match &waiver.expires_at {
        Some(e) => match parse_rfc3339(e.as_str()) {
            Ok(t) => t > now,
            Err(_) => false,
        },
        None => true,
    }
}

fn has_valid_waiver(input: &PolicyCheckInput, policy: &str, now: i128) -> (r: bool)
    ensures
        r == waived(input.waivers@, policy@, now),
{
    let mut i: usize = 0;
    while i < input.waivers.len()
        invariant
            i <= input.waivers@.len(),
            forall|j: int|
                0 <= j < i ==> !((#[trigger] input.waivers@[j]).policy@ == policy@ && waiver_complete(
                    input.waivers@[j],
                ) && waiver_unexpired(input.waivers@[j], now)),
        decreases input.waivers@.len() - i,
    {
        let w = &input.waivers[i];
        if str_eq(w.policy.as_str(), policy) && waiver_has_required_fields(w) && waiver_is_unexpired(
            w,
            now,
        ) {
            return true;
        }
        i = i + 1;
    }
    false
}

pub open spec fn one_finding(code: Seq<char>, message: Seq<char>) -> Seq<(Seq<char>, FindingSeverity, Seq<char>)> {
    seq![(code, FindingSeverity::Error, message)]
}

/// What one waiver is reported for: each missing field, then an expiry that
/// is past or does not parse.
pub open spec fn waiver_findings(w: Waiver, now: i128) -> Seq<(Seq<char>, FindingSeverity, Seq<char>)> {
    let p = w.policy@;
    let none = Seq::<(Seq<char>, FindingSeverity, Seq<char>)>::empty();
    (if blank(p) {
        one_finding("policy.waiver.policy_required"@, "Waiver policy id is required"@)
    } else {
        none
    }) + (if blank(w.reason@) {
        one_finding(
            "policy.waiver.reason_required"@,
            "Waiver for policy `"@ + p + "` requires a reason"@,
        )
    } else {
        none
    }) + (if blank(w.approved_by@) {
        one_finding(
            "policy.waiver.approver_required"@,
            "Waiver for policy `"@ + p + "` requires an approver"@,
        )
    } else {
        none
    }) + match w.expires_at {
        Some(e) => match rfc3339_parse(e@) {
            Ok(t) => if t <= now {
                one_finding(
                    "policy.waiver.expired"@,
                    "Waiver for policy `"@ + p + "` expired at `"@ + e@ + "`"@,
                )
            } else {
                none
            },
            Err(msg) => one_finding(
                "policy.waiver.expires_at_invalid"@,
                "Waiver for policy `"@ + p + "` has invalid expiresAt `"@ + e@
                    + "`: expected RFC3339 timestamp ("@ + msg + ")"@,
            ),
        },
        None => none,
    }
}

pub open spec fn waivers_findings(ws: Seq<Waiver>, now: i128) -> Seq<(Seq<char>, FindingSeverity, Seq<char>)>
    decreases ws.len(),
{
    if ws.len() == 0 {
        Seq::empty()
    } else {
        waivers_findings(ws.drop_last(), now) + waiver_findings(ws.last(), now)
    }
}

fn push_waiver_findings(findings: &mut Vec<Finding>, w: &Waiver, now: i128)
    ensures
        no_related(old(findings)@) ==> no_related(final(findings)@),
        findings_view(final(findings)@) == findings_view(old(findings)@) + waiver_findings(*w, now),
{
    let ghost f0 = findings_view(findings@);
    let ghost none = Seq::<(Seq<char>, FindingSeverity, Seq<char>)>::empty();
    let p = string_chars(&w.policy);
    let ghost pv = w.policy@;
    let ghost a = if blank(pv) {
        one_finding("policy.waiver.policy_required"@, "Waiver policy id is required"@)
    } else {
        none
    };
    if is_blank(&w.policy) {
        push_finding(
            findings,
            "policy.waiver.policy_required",
            FindingSeverity::Error,
            String::from_str("Waiver policy id is required"),
        );
    }
    assert(findings_view(findings@) =~= f0 + a);
    let ghost b = if blank(w.reason@) {
        one_finding("policy.waiver.reason_required"@, "Waiver for policy `"@ + pv + "` requires a reason"@)
    } else {
        none
    };
    if is_blank(&w.reason) {
        push_finding(
            findings,
            "policy.waiver.reason_required",
            FindingSeverity::Error,
            msg3("Waiver for policy `", &p, "` requires a reason"),
        );
    }
    assert(findings_view(findings@) =~= f0 + a + b);
    let ghost c = if blank(w.approved_by@) {
        one_finding(
            "policy.waiver.approver_required"@,
            "Waiver for policy `"@ + pv + "` requires an approver"@,
        )
    } else {
        none
    };
    if is_blank(&w.approved_by) {
        push_finding(
            findings,
            "policy.waiver.approver_required",
            FindingSeverity::Error,
            msg3("Waiver for policy `", &p, "` requires an approver"),
        );
    }
    assert(findings_view(findings@) =~= f0 + a + b + c);
    let ghost f1 = findings_view(findings@);
    if let Some(e) = &w.expires_at {
        let ec = string_chars(e);
        match parse_rfc3339(e.as_str()) {
            Ok(t) => {
                if t <= now {
                    push_finding(
                        findings,
                        "policy.waiver.expired",
                        FindingSeverity::Error,
                        msg5("Waiver for policy `", &p, "` expired at `", &ec, "`"),
                    );
                } else {
                    assert(findings_view(findings@) =~= f1 + none);
                }
            },
            Err(msg) => {
                let mc = string_chars(&msg);
                push_finding(
                    findings,
                    "policy.waiver.expires_at_invalid",
                    FindingSeverity::Error,
                    msg7(
                        "Waiver for policy `",
                        &p,
                        "` has invalid expiresAt `",
                        &ec,
                        "`: expected RFC3339 timestamp (",
                        &mc,
                        ")",
                    ),
                );
            },
        }
    } else {
        assert(findings_view(findings@) =~= f1 + none);
    }
    assert(findings_view(findings@) =~= f0 + waiver_findings(*w, now));
}

fn validate_waivers(input: &PolicyCheckInput, now: i128) -> (r: Vec<Finding>)
    ensures
        no_related(r@),
        findings_view(r@) == waivers_findings(input.waivers@, now),
{
    let mut findings: Vec<Finding> = Vec::new();
    let ghost ws = input.waivers@;
    let mut i: usize = 0;
    while i < input.waivers.len()
        invariant
            no_related(findings@),
            i <= ws.len(),
            ws == input.waivers@,
            findings_view(findings@) == waivers_findings(ws.take(i as int), now),
        decreases ws.len() - i,
    {
        push_waiver_findings(&mut findings, &input.waivers[i], now);
        assert(ws.take(i + 1).drop_last() =~= ws.take(i as int));
        i = i + 1;
    }
    assert(ws.take(ws.len() as int) =~= ws);
    findings
}

// ---------------------------------------------------------------- built-in policies

/// A path that looks as if it holds secrets.
pub open spec fn looks_like_secret(path: Seq<char>) -> bool {
    let l = lower(path);
    contains(l, ".env"@) || contains(l, "secret"@) || contains(l, "private_key"@)
}

fn looks_like_secret_path(path: &str) -> (r: bool)
    ensures
        r == looks_like_secret(path@),
{
    let l = lower_exec(&chars_of(path));
    contains_str(&l, ".env") || contains_str(&l, "secret") || contains_str(&l, "private_key")
}

/// A path under a `migrations` directory.
pub open spec fn is_migration_path(path: Seq<char>) -> bool {
    starts_with(path, "migrations/"@) || contains(path, "/migrations/"@)
}

/// A migration change needs a `data-migration` approval or a waiver.
pub open spec fn migration_blocked(input: PolicyCheckInput, path: Seq<char>, now: i128) -> bool {
    is_migration_path(path) && !strings_view(input.approvals@).contains("data-migration"@) && !waived(
        input.waivers@,
        "policy.data.migration_approval"@,
        now,
    )
}

pub open spec fn file_decisions(input: PolicyCheckInput, path: Seq<char>, now: i128) -> Seq<
    (Seq<char>, PolicyEffect, Seq<char>),
> {
    (if looks_like_secret(path) {
        seq![
            ("policy.security.no_secret_files"@, PolicyEffect::Deny, "Changed file `"@ + path
                + "` appears to contain secrets"@),
        ]
    } else {
        Seq::empty()
    }) + (if migration_blocked(input, path, now) {
        seq![
            ("policy.data.migration_approval"@, PolicyEffect::RequireApproval, "Migration file `"@
                + path + "` requires data-migration approval"@),
        ]
    } else {
        Seq::empty()
    })
}

pub open spec fn file_findings(input: PolicyCheckInput, path: Seq<char>, now: i128) -> Seq<
    (Seq<char>, FindingSeverity, Seq<char>),
> {
    (if looks_like_secret(path) {
        one_finding(
            "policy.security.no_secret_files"@,
            "Secret-like path `"@ + path + "` cannot be changed without a stronger policy"@,
        )
    } else {
        Seq::empty()
    }) + (if migration_blocked(input, path, now) {
        one_finding(
            "policy.data.migration_approval"@,
            "Migration file `"@ + path + "` lacks approval or waiver"@,
        )
    } else {
        Seq::empty()
    })
}

pub open spec fn files_decisions(input: PolicyCheckInput, files: Seq<String>, now: i128) -> Seq<
    (Seq<char>, PolicyEffect, Seq<char>),
>
    decreases files.len(),
{
    if files.len() == 0 {
        Seq::empty()
    } else {
        files_decisions(input, files.drop_last(), now) + file_decisions(input, files.last()@, now)
    }
}

pub open spec fn files_findings(input: PolicyCheckInput, files: Seq<String>, now: i128) -> Seq<
    (Seq<char>, FindingSeverity, Seq<char>),
>
    decreases files.len(),
{
    if files.len() == 0 {
        Seq::empty()
    } else {
        files_findings(input, files.drop_last(), now) + file_findings(input, files.last()@, now)
    }
}

pub open spec fn all_allow(ds: Seq<(Seq<char>, PolicyEffect, Seq<char>)>) -> bool {
    forall|i: int| 0 <= i < ds.len() ==> (#[trigger] ds[i]).1 == PolicyEffect::Allow
}

/// `ds`, with the default allow decision after it when nothing in it blocks.
pub open spec fn with_default_allow(ds: Seq<(Seq<char>, PolicyEffect, Seq<char>)>) -> Seq<
    (Seq<char>, PolicyEffect, Seq<char>),
> {
    if all_allow(ds) {
        ds.push(("policy.merge.default"@, PolicyEffect::Allow, "No blocking built-in policy matched"@))
    } else {
        ds
    }
}

/// The decisions of the built-in policies at time `now`.
pub open spec fn builtin_decisions(input: PolicyCheckInput, now: i128) -> Seq<
    (Seq<char>, PolicyEffect, Seq<char>),
> {
    with_default_allow(
        seq![
            ("policy.operation.traceable"@, PolicyEffect::Allow, "Operation `"@ + input.operation@
                + "` is traceable through graph execution"@),
        ] + files_decisions(input, input.changed_files@, now),
    )
}

/// The findings of the built-in policies at time `now`: the waivers', then
/// each changed file's.
pub open spec fn builtin_findings(input: PolicyCheckInput, now: i128) -> Seq<
    (Seq<char>, FindingSeverity, Seq<char>),
> {
    waivers_findings(input.waivers@, now) + files_findings(input, input.changed_files@, now)
}

fn push_default_allow_if_clean(report: &mut PolicyReport)
    ensures
        decisions_view(final(report).decisions@) == with_default_allow(
            decisions_view(old(report).decisions@),
        ),
        final(report).findings == old(report).findings,
{
    let ghost dv = decisions_view(report.decisions@);
    let mut clean = true;
    let mut i: usize = 0;
    while i < report.decisions.len()
        invariant
            i <= report.decisions@.len(),
            dv == decisions_view(report.decisions@),
            clean == (forall|j: int| 0 <= j < i ==> (#[trigger] dv[j]).1 == PolicyEffect::Allow),
        decreases report.decisions@.len() - i,
    {
        assert(dv[i as int] == decision_view(report.decisions@[i as int]));
        if report.decisions[i].effect != PolicyEffect::Allow {
            clean = false;
        }
        i = i + 1;
    }
    if clean {
        push_decision(
            &mut report.decisions,
            "policy.merge.default",
            PolicyEffect::Allow,
            String::from_str("No blocking built-in policy matched"),
        );
    }
}

/// The built-in policies at time `now`: every operation is traceable;
/// changed files that look like secrets are denied; migration files need a
/// `data-migration` approval or a valid waiver; the default allow closes a
/// report where nothing blocks. Waivers are checked as well.
pub fn evaluate_policies_at(input: &PolicyCheckInput, now: i128) -> (report: PolicyReport)
    ensures
        no_related(report.findings@),
        decisions_view(report.decisions@) == builtin_decisions(*input, now),
        findings_view(report.findings@) == builtin_findings(*input, now),
{
    let op = string_chars(&input.operation);
    let mut decisions: Vec<PolicyDecision> = Vec::new();
    push_decision(
        &mut decisions,
        "policy.operation.traceable",
        PolicyEffect::Allow,
        msg3("Operation `", &op, "` is traceable through graph execution"),
    );
    let mut report = PolicyReport { decisions, findings: validate_waivers(input, now) };
    let ghost d0 = decisions_view(report.decisions@);
    assert(d0 =~= seq![
        ("policy.operation.traceable"@, PolicyEffect::Allow, "Operation `"@ + input.operation@
            + "` is traceable through graph execution"@),
    ]);
    let ghost f0 = findings_view(report.findings@);
    let ghost files = input.changed_files@;
    let approved = contains_string(&input.approvals, "data-migration");
    let mut i: usize = 0;
    while i < input.changed_files.len()
        invariant
            no_related(report.findings@),
            i <= files.len(),
            files == input.changed_files@,
            approved == strings_view(input.approvals@).contains("data-migration"@),
            decisions_view(report.decisions@) == d0 + files_decisions(*input, files.take(i as int), now),
            findings_view(report.findings@) == f0 + files_findings(*input, files.take(i as int), now),
        decreases files.len() - i,
    {
        let file = string_chars(&input.changed_files[i]);
        let ghost fv = files[i as int]@;
        let ghost dd = decisions_view(report.decisions@);
        let ghost ff = findings_view(report.findings@);
        if looks_like_secret_path(input.changed_files[i].as_str()) {
            push_decision(
                &mut report.decisions,
                "policy.security.no_secret_files",
                PolicyEffect::Deny,
                msg3("Changed file `", &file, "` appears to contain secrets"),
            );
            push_finding(
                &mut report.findings,
                "policy.security.no_secret_files",
                FindingSeverity::Error,
                msg3("Secret-like path `", &file, "` cannot be changed without a stronger policy"),
            );
        }
        if starts_with_str(&file, "migrations/") || contains_str(&file, "/migrations/") {
            let w = has_valid_waiver(input, "policy.data.migration_approval", now);
            if !approved && !w {
                push_decision(
                    &mut report.decisions,
                    "policy.data.migration_approval",
                    PolicyEffect::RequireApproval,
                    msg3("Migration file `", &file, "` requires data-migration approval"),
                );
                push_finding(
                    &mut report.findings,
                    "policy.data.migration_approval",
                    FindingSeverity::Error,
                    msg3("Migration file `", &file, "` lacks approval or waiver"),
                );
            }
        }
        assert(decisions_view(report.decisions@) =~= dd + file_decisions(*input, fv, now));
        assert(findings_view(report.findings@) =~= ff + file_findings(*input, fv, now));
        assert(files.take(i + 1).drop_last() =~= files.take(i as int));
        assert(files.take(i + 1).last() == files[i as int]);
        i = i + 1;
    }
    assert(files.take(files.len() as int) =~= files);
    push_default_allow_if_clean(&mut report);
    report
}

/// The built-in policies at the clock's current time (see
/// `evaluate_policies_at`). The graph is not consulted.
pub fn evaluate_policies(_graph: &Graph, input: &PolicyCheckInput) -> (report: PolicyReport)
    ensures
        exists|now: i128|
            decisions_view(report.decisions@) == builtin_decisions(*input, now)
                && findings_view(report.findings@) == builtin_findings(*input, now),
        no_related(report.findings@),
{
    let now = now_unix_nanos();
    evaluate_policies_at(input, now)
}

// ---------------------------------------------------------------- manifest rules

/// The required values that `actual` lacks, in their order.
pub open spec fn missing(required: Seq<Seq<char>>, actual: Seq<Seq<char>>) -> Seq<Seq<char>>
    decreases required.len(),
{
    if required.len() == 0 {
        Seq::empty()
    } else {
        let m = missing(required.drop_last(), actual);
        if actual.contains(required.last()) {
            m
        } else {
            m.push(required.last())
        }
    }
}

/// The parts joined by `,`.
pub open spec fn comma_joined(parts: Seq<Seq<char>>) -> Seq<char>
    decreases parts.len(),
{
    if parts.len() == 0 {
        Seq::empty()
    } else if parts.len() == 1 {
        parts[0]
    } else {
        comma_joined(parts.drop_last()) + ","@ + parts.last()
    }
}

fn missing_values(required: &Vec<String>, actual: &Vec<String>) -> (r: Vec<String>)
    ensures
        strings_view(r@) == missing(strings_view(required@), strings_view(actual@)),
{
    let ghost rq = strings_view(required@);
    let mut out: Vec<String> = Vec::new();
    let mut i: usize = 0;
    while i < required.len()
        invariant
            i <= rq.len(),
            rq == strings_view(required@),
            strings_view(out@) == missing(rq.take(i as int), strings_view(actual@)),
        decreases rq.len() - i,
    {
        assert(rq.take(i + 1).drop_last() =~= rq.take(i as int));
        assert(rq.take(i + 1).last() == required@[i as int]@);
        if !contains_string(actual, required[i].as_str()) {
            let ghost before = strings_view(out@);
            out.push(required[i].clone());
            assert(strings_view(out@) =~= before.push(required@[i as int]@));
        }
        i = i + 1;
    }
    assert(rq.take(rq.len() as int) =~= rq);
    out
}

fn join_comma(parts: &Vec<String>) -> (r: Vec<char>)
    ensures
        r@ == comma_joined(strings_view(parts@)),
{
    let ghost ps = strings_view(parts@);
    let mut out: Vec<char> = Vec::new();
    let mut i: usize = 0;
    while i < parts.len()
        invariant
            i <= ps.len(),
            ps == strings_view(parts@),
            out@ == comma_joined(ps.take(i as int)),
        decreases ps.len() - i,
    {
        assert(ps.take(i + 1).drop_last() =~= ps.take(i as int));
        if i > 0 {
            append_str(&mut out, ",");
        } else {
            assert(ps.take(1)[0] == ps[0]);
        }
        append(&mut out, &string_chars(&parts[i]));
        i = i + 1;
    }
    assert(ps.take(ps.len() as int) =~= ps);
    out
}

/// A rule's own message, else its description, else a generic one.
pub open spec fn base_message(rule: PolicyRule) -> Seq<char> {
    match rule.message {
        Some(m) => m@,
        None => match rule.description {
            Some(d) => d@,
            None => "Policy `"@ + rule.id@ + "` matched"@,
        },
    }
}

/// The message of a rule that blocks: what approvals, or else which roles,
/// are missing.
pub open spec fn blocking_message(rule: PolicyRule, approvals: Seq<Seq<char>>, roles: Seq<Seq<char>>) -> Seq<char> {
    if approvals.len() > 0 {
        base_message(rule) + " Missing approval(s): "@ + comma_joined(approvals)
    } else if roles.len() > 0 {
        base_message(rule) + " Missing role(s): "@ + comma_joined(roles)
    } else {
        base_message(rule)
    }
}

fn base_rule_message(rule: &PolicyRule) -> (r: Vec<char>)
    ensures
        r@ == base_message(*rule),
{
    match &rule.message {
        Some(m) => string_chars(m),
        None => match &rule.description {
            Some(d) => string_chars(d),
            None => {
                let mut out = chars_of("Policy `");
                append(&mut out, &string_chars(&rule.id));
                append_str(&mut out, "` matched");
                out
            },
        },
    }
}

fn rule_message(rule: &PolicyRule, missing_approvals: &Vec<String>, missing_roles: &Vec<String>) -> (r: Vec<char>)
    ensures
        r@ == blocking_message(*rule, strings_view(missing_approvals@), strings_view(missing_roles@)),
{
    let mut out = base_rule_message(rule);
    if missing_approvals.len() > 0 {
        append_str(&mut out, " Missing approval(s): ");
        append(&mut out, &join_comma(missing_approvals));
    } else if missing_roles.len() > 0 {
        append_str(&mut out, " Missing role(s): ");
        append(&mut out, &join_comma(missing_roles));
    }
    out
}

/// Approvals and roles a rule still needs.
pub open spec fn missing_approvals(input: PolicyCheckInput, rule: PolicyRule) -> Seq<Seq<char>> {
    missing(strings_view(rule.required_approvals@), strings_view(input.approvals@))
}

pub open spec fn missing_roles(input: PolicyCheckInput, rule: PolicyRule) -> Seq<Seq<char>> {
    missing(strings_view(rule.required_roles@), strings_view(input.actor_roles@))
}

/// How a matching rule is decided: waived, satisfied, or with its effect.
pub enum RuleOutcome {
    NotApplicable,
    Waived,
    Satisfied,
    Effect(Seq<char>),
}

pub open spec fn rule_outcome(input: PolicyCheckInput, rule: PolicyRule, now: i128) -> RuleOutcome {
    if !rule_applies(input, rule) {
        RuleOutcome::NotApplicable
    } else if rule.waivable && waived(input.waivers@, rule.id@, now) {
        RuleOutcome::Waived
    } else if missing_approvals(input, rule).len() == 0 && missing_roles(input, rule).len() == 0
        && rule.effect == PolicyEffect::RequireApproval {
        RuleOutcome::Satisfied
    } else {
        RuleOutcome::Effect(blocking_message(rule, missing_approvals(input, rule), missing_roles(input, rule)))
    }
}

pub open spec fn rule_decisions(input: PolicyCheckInput, rule: PolicyRule, now: i128) -> Seq<
    (Seq<char>, PolicyEffect, Seq<char>),
> {
    match rule_outcome(input, rule, now) {
        RuleOutcome::NotApplicable => Seq::empty(),
        RuleOutcome::Waived => seq![
            (rule.id@, PolicyEffect::Allow, "Policy `"@ + rule.id@ + "` was waived"@),
        ],
        RuleOutcome::Satisfied => seq![
            (rule.id@, PolicyEffect::Allow, "Required approvals/roles satisfied for `"@ + rule.id@
                + "`"@),
        ],
        RuleOutcome::Effect(m) => seq![(rule.id@, rule.effect, m)],
    }
}

pub open spec fn rule_findings(input: PolicyCheckInput, rule: PolicyRule, now: i128) -> Seq<
    (Seq<char>, FindingSeverity, Seq<char>),
> {
    match rule_outcome(input, rule, now) {
        RuleOutcome::Effect(m) => match rule.effect {
            PolicyEffect::Allow => Seq::empty(),
            PolicyEffect::Warn => seq![(rule.id@, FindingSeverity::Warning, m)],
            _ => seq![(rule.id@, FindingSeverity::Error, m)],
        },
        _ => Seq::empty(),
    }
}

pub open spec fn rules_decisions(input: PolicyCheckInput, rules: Seq<PolicyRule>, now: i128) -> Seq<
    (Seq<char>, PolicyEffect, Seq<char>),
>
    decreases rules.len(),
{
    if rules.len() == 0 {
        Seq::empty()
    } else {
        rules_decisions(input, rules.drop_last(), now) + rule_decisions(input, rules.last(), now)
    }
}

pub open spec fn rules_findings(input: PolicyCheckInput, rules: Seq<PolicyRule>, now: i128) -> Seq<
    (Seq<char>, FindingSeverity, Seq<char>),
>
    decreases rules.len(),
{
    if rules.len() == 0 {
        Seq::empty()
    } else {
        rules_findings(input, rules.drop_last(), now) + rule_findings(input, rules.last(), now)
    }
}

fn evaluate_rule(report: &mut PolicyReport, input: &PolicyCheckInput, rule: &PolicyRule, now: i128)
    ensures
        no_related(old(report).findings@) ==> no_related(final(report).findings@),
        decisions_view(final(report).decisions@) == decisions_view(old(report).decisions@)
            + rule_decisions(*input, *rule, now),
        findings_view(final(report).findings@) == findings_view(old(report).findings@)
            + rule_findings(*input, *rule, now),
{
    let ghost d0 = decisions_view(report.decisions@);
    let ghost f0 = findings_view(report.findings@);
    let id = string_chars(&rule.id);
    if !rule_matches(input, rule) {
        assert(decisions_view(report.decisions@) =~= d0 + rule_decisions(*input, *rule, now));
        assert(findings_view(report.findings@) =~= f0 + rule_findings(*input, *rule, now));
        return;
    }
    if rule.waivable && has_valid_waiver(input, rule.id.as_str(), now) {
        push_decision(
            &mut report.decisions,
            rule.id.as_str(),
            PolicyEffect::Allow,
            msg3("Policy `", &id, "` was waived"),
        );
        assert(decisions_view(report.decisions@) =~= d0 + rule_decisions(*input, *rule, now));
        assert(findings_view(report.findings@) =~= f0 + rule_findings(*input, *rule, now));
        return;
    }
    let ma = missing_values(&rule.required_approvals, &input.approvals);
    let mr = missing_values(&rule.required_roles, &input.actor_roles);
    if ma.len() == 0 && mr.len() == 0 && rule.effect == PolicyEffect::RequireApproval {
        push_decision(
            &mut report.decisions,
            rule.id.as_str(),
            PolicyEffect::Allow,
            msg3("Required approvals/roles satisfied for `", &id, "`"),
        );
        assert(decisions_view(report.decisions@) =~= d0 + rule_decisions(*input, *rule, now));
        assert(findings_view(report.findings@) =~= f0 + rule_findings(*input, *rule, now));
        return;
    }
    let message = rule_message(rule, &ma, &mr);
    push_decision(&mut report.decisions, rule.id.as_str(), rule.effect, string_of(&message));
    match rule.effect {
        PolicyEffect::Allow => {},
        PolicyEffect::Warn => {
            push_finding(
                &mut report.findings,
                rule.id.as_str(),
                FindingSeverity::Warning,
                string_of(&message),
            );
        },
        _ => {
            push_finding(
                &mut report.findings,
                rule.id.as_str(),
                FindingSeverity::Error,
                string_of(&message),
            );
        },
    }
    assert(decisions_view(report.decisions@) =~= d0 + rule_decisions(*input, *rule, now));
    assert(findings_view(report.findings@) =~= f0 + rule_findings(*input, *rule, now));
}

fn evaluate_rules(report: &mut PolicyReport, input: &PolicyCheckInput, manifest: &PolicyManifest, now: i128)
    ensures
        no_related(old(report).findings@) ==> no_related(final(report).findings@),
        decisions_view(final(report).decisions@) == decisions_view(old(report).decisions@)
            + rules_decisions(*input, manifest.policies@, now),
        findings_view(final(report).findings@) == findings_view(old(report).findings@)
            + rules_findings(*input, manifest.policies@, now),
{
    let ghost d0 = decisions_view(report.decisions@);
    let ghost f0 = findings_view(report.findings@);
    let ghost rules = manifest.policies@;
    let mut i: usize = 0;
    while i < manifest.policies.len()
        invariant
            no_related(old(report).findings@) ==> no_related(report.findings@),
            i <= rules.len(),
            rules == manifest.policies@,
            decisions_view(report.decisions@) == d0 + rules_decisions(*input, rules.take(i as int), now),
            findings_view(report.findings@) == f0 + rules_findings(*input, rules.take(i as int), now),
        decreases rules.len() - i,
    {
        evaluate_rule(report, input, &manifest.policies[i], now);
        assert(rules.take(i + 1).drop_last() =~= rules.take(i as int));
        assert(d0 + rules_decisions(*input, rules.take(i + 1), now) =~= d0 + rules_decisions(
            *input,
            rules.take(i as int),
            now,
        ) + rule_decisions(*input, rules[i as int], now));
        assert(f0 + rules_findings(*input, rules.take(i + 1), now) =~= f0 + rules_findings(
            *input,
            rules.take(i as int),
            now,
        ) + rule_findings(*input, rules[i as int], now));
        i = i + 1;
    }
    assert(rules.take(rules.len() as int) =~= rules);
}

/// A manifest's rules at time `now`, in order, after its waivers' findings.
/// A rule that does not apply is silent; a waivable rule with a valid waiver
/// is allowed; a rule needing approval whose approvals and roles are all
/// present is allowed; any other rule is decided by its effect, and a warning
/// or a block is also reported as a finding.
pub fn evaluate_policy_manifest_at(
    input: &PolicyCheckInput,
    manifest: &PolicyManifest,
    now: i128,
) -> (report: PolicyReport)
    ensures
        no_related(report.findings@),
        decisions_view(report.decisions@) == rules_decisions(*input, manifest.policies@, now),
        findings_view(report.findings@) == waivers_findings(input.waivers@, now) + rules_findings(
            *input,
            manifest.policies@,
            now,
        ),
{
    let mut report = PolicyReport { decisions: Vec::new(), findings: validate_waivers(input, now) };
    assert(decisions_view(report.decisions@) =~= Seq::empty());
    evaluate_rules(&mut report, input, manifest, now);
    report
}

/// A manifest's rules at the clock's current time (see
/// `evaluate_policy_manifest_at`).
pub fn evaluate_policy_manifest(input: &PolicyCheckInput, manifest: &PolicyManifest) -> (report: PolicyReport)
    ensures
        exists|now: i128|
            decisions_view(report.decisions@) == rules_decisions(*input, manifest.policies@, now)
                && findings_view(report.findings@) == waivers_findings(input.waivers@, now)
                + rules_findings(*input, manifest.policies@, now),
        no_related(report.findings@),
{
    let now = now_unix_nanos();
    evaluate_policy_manifest_at(input, manifest, now)
}

pub open spec fn manifests_decisions(input: PolicyCheckInput, ms: Seq<PolicyManifest>, now: i128) -> Seq<
    (Seq<char>, PolicyEffect, Seq<char>),
>
    decreases ms.len(),
{
    if ms.len() == 0 {
        Seq::empty()
    } else {
        manifests_decisions(input, ms.drop_last(), now) + rules_decisions(input, ms.last().policies@, now)
    }
}

pub open spec fn manifests_findings(input: PolicyCheckInput, ms: Seq<PolicyManifest>, now: i128) -> Seq<
    (Seq<char>, FindingSeverity, Seq<char>),
>
    decreases ms.len(),
{
    if ms.len() == 0 {
        Seq::empty()
    } else {
        manifests_findings(input, ms.drop_last(), now) + rules_findings(input, ms.last().policies@, now)
    }
}

/// `ds` without the default allow decision.
pub open spec fn drop_default(ds: Seq<(Seq<char>, PolicyEffect, Seq<char>)>) -> Seq<(Seq<char>, PolicyEffect, Seq<char>)>
    decreases ds.len(),
{
    if ds.len() == 0 {
        Seq::empty()
    } else if ds.last().0 == "policy.merge.default"@ {
        drop_default(ds.drop_last())
    } else {
        drop_default(ds.drop_last()).push(ds.last())
    }
}

/// Built-in and manifest decisions together; once anything blocks, the
/// default allow is withdrawn.
pub open spec fn combined_decisions(input: PolicyCheckInput, ms: Seq<PolicyManifest>, now: i128) -> Seq<
    (Seq<char>, PolicyEffect, Seq<char>),
> {
    let ds = builtin_decisions(input, now) + manifests_decisions(input, ms, now);
    if all_allow(ds) {
        ds
    } else {
        drop_default(ds)
    }
}

pub open spec fn combined_findings(input: PolicyCheckInput, ms: Seq<PolicyManifest>, now: i128) -> Seq<
    (Seq<char>, FindingSeverity, Seq<char>),
> {
    builtin_findings(input, now) + manifests_findings(input, ms, now)
}

fn retain_non_default(ds: &mut Vec<PolicyDecision>)
    ensures
        decisions_view(final(ds)@) == drop_default(decisions_view(old(ds)@)),
{
    let ghost dv = decisions_view(ds@);
    let mut kept: Vec<PolicyDecision> = Vec::new();
    let mut i: usize = 0;
    while i < ds.len()
        invariant
            i <= dv.len(),
            dv == decisions_view(ds@),
            decisions_view(kept@) == drop_default(dv.take(i as int)),
        decreases dv.len() - i,
    {
        assert(dv.take(i + 1).drop_last() =~= dv.take(i as int));
        assert(dv[i as int] == decision_view(ds@[i as int]));
        if !str_eq(ds[i].policy.as_str(), "policy.merge.default") {
            let d = PolicyDecision {
                policy: ds[i].policy.clone(),
                effect: ds[i].effect,
                message: ds[i].message.clone(),
            };
            let ghost before = decisions_view(kept@);
            kept.push(d);
            assert(decisions_view(kept@) =~= before.push(dv[i as int]));
        }
        i = i + 1;
    }
    assert(dv.take(dv.len() as int) =~= dv);
    *ds = kept;
}

/// The built-in policies and every manifest's rules at time `now`; when any
/// decision is not an allow, the default allow is withdrawn.
pub fn evaluate_policies_with_manifests_at(
    input: &PolicyCheckInput,
    manifests: &[PolicyManifest],
    now: i128,
) -> (report: PolicyReport)
    ensures
        no_related(report.findings@),
        decisions_view(report.decisions@) == combined_decisions(*input, manifests@, now),
        findings_view(report.findings@) == combined_findings(*input, manifests@, now),
{
    let mut report = evaluate_policies_at(input, now);
    let ghost d0 = decisions_view(report.decisions@);
    let ghost f0 = findings_view(report.findings@);
    let ghost ms = manifests@;
    let mut i: usize = 0;
    while i < manifests.len()
        invariant
            no_related(report.findings@),
            i <= ms.len(),
            ms == manifests@,
            decisions_view(report.decisions@) == d0 + manifests_decisions(*input, ms.take(i as int), now),
            findings_view(report.findings@) == f0 + manifests_findings(*input, ms.take(i as int), now),
        decreases ms.len() - i,
    {
        let mut part = PolicyReport { decisions: Vec::new(), findings: Vec::new() };
        assert(decisions_view(part.decisions@) =~= Seq::empty());
        assert(findings_view(part.findings@) =~= Seq::empty());
        evaluate_rules(&mut part, input, &manifests[i], now);
        let ghost dd = decisions_view(report.decisions@);
        let ghost ff = findings_view(report.findings@);
        let ghost pd = decisions_view(part.decisions@);
        let ghost pf = findings_view(part.findings@);
        let ghost rf = report.findings@;
        let ghost qf = part.findings@;
        report.decisions.append(&mut part.decisions);
        report.findings.append(&mut part.findings);
        proof {
            crate::model::lemma_no_related_append(rf, qf);
        }
        assert(decisions_view(report.decisions@) =~= dd + pd);
        assert(findings_view(report.findings@) =~= ff + pf);
        assert(ms.take(i + 1).drop_last() =~= ms.take(i as int));
        assert(d0 + manifests_decisions(*input, ms.take(i + 1), now) =~= d0 + manifests_decisions(
            *input,
            ms.take(i as int),
            now,
        ) + rules_decisions(*input, ms[i as int].policies@, now));
        assert(f0 + manifests_findings(*input, ms.take(i + 1), now) =~= f0 + manifests_findings(
            *input,
            ms.take(i as int),
            now,
        ) + rules_findings(*input, ms[i as int].policies@, now));
        i = i + 1;
    }
    assert(ms.take(ms.len() as int) =~= ms);
    let ghost all = decisions_view(report.decisions@);
    let mut blocking = false;
    let mut j: usize = 0;
    while j < report.decisions.len()
        invariant
            no_related(report.findings@),
            j <= all.len(),
            all == decisions_view(report.decisions@),
            blocking == !(forall|k: int| 0 <= k < j ==> (#[trigger] all[k]).1 == PolicyEffect::Allow),
        decreases all.len() - j,
    {
        assert(all[j as int] == decision_view(report.decisions@[j as int]));
        if report.decisions[j].effect != PolicyEffect::Allow {
            blocking = true;
        }
        j = j + 1;
    }
    if blocking {
        retain_non_default(&mut report.decisions);
    }
    report
}

/// The built-in policies and every manifest's rules at the clock's current
/// time (see `evaluate_policies_with_manifests_at`). The graph is not
/// consulted.
pub fn evaluate_policies_with_manifests(
    _graph: &Graph,
    input: &PolicyCheckInput,
    manifests: &[PolicyManifest],
) -> (report: PolicyReport)
    ensures
        exists|now: i128|
            decisions_view(report.decisions@) == combined_decisions(*input, manifests@, now)
                && findings_view(report.findings@) == combined_findings(*input, manifests@, now),
        no_related(report.findings@),
{
    let now = now_unix_nanos();
    evaluate_policies_with_manifests_at(input, manifests, now)
}


// ------------------------------------------------------------ laws

/// Two checks that differ at most in their waivers.
pub open spec fn same_but_waivers(a: PolicyCheckInput, b: PolicyCheckInput) -> bool {
    &&& a.operation == b.operation
    &&& a.changed_files == b.changed_files
    &&& a.actor_roles == b.actor_roles
    &&& a.approvals == b.approvals
}

/// A rule that is not waivable is decided the same whatever waivers a check
/// carries: a waiver can neither allow it nor silence its findings.
pub proof fn non_waivable_rules_ignore_waivers(
    a: PolicyCheckInput,
    b: PolicyCheckInput,
    rules: Seq<PolicyRule>,
    now: i128,
)
    requires
        same_but_waivers(a, b),
        forall|i: int| 0 <= i < rules.len() ==> !(#[trigger] rules[i]).waivable,
    ensures
        rules_decisions(a, rules, now) == rules_decisions(b, rules, now),
        rules_findings(a, rules, now) == rules_findings(b, rules, now),
    decreases rules.len(),
{
    if rules.len() > 0 {
        let d = rules.drop_last();
        assert forall|i: int| 0 <= i < d.len() implies !(#[trigger] d[i]).waivable by {
            assert(d[i] == rules[i]);
        }
        non_waivable_rules_ignore_waivers(a, b, d, now);
        assert(!rules[rules.len() - 1].waivable);
        assert(rule_applies(a, rules.last()) == rule_applies(b, rules.last()));
        assert(missing_approvals(a, rules.last()) == missing_approvals(b, rules.last()));
        assert(missing_roles(a, rules.last()) == missing_roles(b, rules.last()));
        assert(rule_outcome(a, rules.last(), now) == rule_outcome(b, rules.last(), now));
    }
}

/// A rule that requires approval and applies is allowed, with no finding,
/// once every approval and role it names is present.
pub proof fn satisfied_approval_rule_allows(input: PolicyCheckInput, rule: PolicyRule, now: i128)
    requires
        rule.effect == PolicyEffect::RequireApproval,
        rule_applies(input, rule),
        forall|i: int|
            0 <= i < rule.required_approvals@.len() ==> strings_view(input.approvals@).contains(
                #[trigger] rule.required_approvals@[i]@,
            ),
        forall|i: int|
            0 <= i < rule.required_roles@.len() ==> strings_view(input.actor_roles@).contains(
                #[trigger] rule.required_roles@[i]@,
            ),
    ensures
        rule_findings(input, rule, now) == Seq::<(Seq<char>, FindingSeverity, Seq<char>)>::empty(),
        rule_decisions(input, rule, now).len() == 1,
        rule_decisions(input, rule, now)[0].0 == rule.id@,
        rule_decisions(input, rule, now)[0].1 == PolicyEffect::Allow,
{
    lemma_none_missing(strings_view(rule.required_approvals@), strings_view(input.approvals@));
    lemma_none_missing(strings_view(rule.required_roles@), strings_view(input.actor_roles@));
}

proof fn lemma_none_missing(required: Seq<Seq<char>>, actual: Seq<Seq<char>>)
    requires
        forall|i: int| 0 <= i < required.len() ==> actual.contains(#[trigger] required[i]),
    ensures
        missing(required, actual).len() == 0,
    decreases required.len(),
{
    if required.len() > 0 {
        let d = required.drop_last();
        assert forall|i: int| 0 <= i < d.len() implies actual.contains(#[trigger] d[i]) by {
            assert(d[i] == required[i]);
        }
        lemma_none_missing(d, actual);
        assert(actual.contains(required[required.len() - 1]));
    }
}


proof fn lemma_files_decisions_hold(input: PolicyCheckInput, files: Seq<String>, now: i128, k: int)
    requires
        0 <= k < files.len(),
        looks_like_secret(files[k]@),
    ensures
        files_decisions(input, files, now).contains(
            ("policy.security.no_secret_files"@, PolicyEffect::Deny, "Changed file `"@ + files[k]@
                + "` appears to contain secrets"@),
        ),
        files_findings(input, files, now).contains(
            ("policy.security.no_secret_files"@, FindingSeverity::Error, "Secret-like path `"@ + files[k]@
                + "` cannot be changed without a stronger policy"@),
        ),
    decreases files.len(),
{
    let d = ("policy.security.no_secret_files"@, PolicyEffect::Deny, "Changed file `"@ + files[k]@
        + "` appears to contain secrets"@);
    let f = ("policy.security.no_secret_files"@, FindingSeverity::Error, "Secret-like path `"@ + files[k]@
        + "` cannot be changed without a stronger policy"@);
    let prev_d = files_decisions(input, files.drop_last(), now);
    let prev_f = files_findings(input, files.drop_last(), now);
    let last_d = file_decisions(input, files.last()@, now);
    let last_f = file_findings(input, files.last()@, now);
    if k < files.len() - 1 {
        assert(files.drop_last()[k] == files[k]);
        lemma_files_decisions_hold(input, files.drop_last(), now, k);
        let i = choose|i: int| 0 <= i < prev_d.len() && prev_d[i] == d;
        assert((prev_d + last_d)[i] == d);
        let j = choose|j: int| 0 <= j < prev_f.len() && prev_f[j] == f;
        assert((prev_f + last_f)[j] == f);
    } else {
        assert(files.last() == files[k]);
        assert(last_d[0] == d);
        assert((prev_d + last_d)[prev_d.len() as int] == d);
        assert(last_f[0] == f);
        assert((prev_f + last_f)[prev_f.len() as int] == f);
    }
}

/// Changing a file whose lower-cased path contains `.env`, `secret` or
/// `private_key` is denied by `policy.security.no_secret_files` and reported
/// as an error, so the built-in policies give no default allow.
pub proof fn secret_like_changes_are_denied(input: PolicyCheckInput, now: i128, k: int)
    requires
        0 <= k < input.changed_files@.len(),
        contains(lower(input.changed_files@[k]@), ".env"@) || contains(lower(input.changed_files@[k]@), "secret"@)
            || contains(lower(input.changed_files@[k]@), "private_key"@),
    ensures
        builtin_decisions(input, now).contains(
            ("policy.security.no_secret_files"@, PolicyEffect::Deny, "Changed file `"@ + input.changed_files@[k]@
                + "` appears to contain secrets"@),
        ),
        builtin_findings(input, now).contains(
            ("policy.security.no_secret_files"@, FindingSeverity::Error, "Secret-like path `"@
                + input.changed_files@[k]@ + "` cannot be changed without a stronger policy"@),
        ),
        !all_allow(builtin_decisions(input, now)),
{
    let files = input.changed_files@;
    lemma_files_decisions_hold(input, files, now, k);
    let d = ("policy.security.no_secret_files"@, PolicyEffect::Deny, "Changed file `"@ + files[k]@
        + "` appears to contain secrets"@);
    let f = ("policy.security.no_secret_files"@, FindingSeverity::Error, "Secret-like path `"@ + files[k]@
        + "` cannot be changed without a stronger policy"@);
    let head = seq![
        ("policy.operation.traceable"@, PolicyEffect::Allow, "Operation `"@ + input.operation@
            + "` is traceable through graph execution"@),
    ];
    let fd = files_decisions(input, files, now);
    let ds = head + fd;
    let i = choose|i: int| 0 <= i < fd.len() && fd[i] == d;
    assert(ds[1 + i] == d);
    assert(!all_allow(ds));
    assert(builtin_decisions(input, now) == ds);
    let ff = files_findings(input, files, now);
    let w = waivers_findings(input.waivers@, now);
    let j = choose|j: int| 0 <= j < ff.len() && ff[j] == f;
    assert((w + ff)[w.len() + j] == f);
}


proof fn lemma_files_hold_item(
    input: PolicyCheckInput,
    files: Seq<String>,
    now: i128,
    k: int,
    d: (Seq<char>, PolicyEffect, Seq<char>),
    f: (Seq<char>, FindingSeverity, Seq<char>),
)
    requires
        0 <= k < files.len(),
        file_decisions(input, files[k]@, now).contains(d),
        file_findings(input, files[k]@, now).contains(f),
    ensures
        files_decisions(input, files, now).contains(d),
        files_findings(input, files, now).contains(f),
    decreases files.len(),
{
    let prev_d = files_decisions(input, files.drop_last(), now);
    let prev_f = files_findings(input, files.drop_last(), now);
    let last_d = file_decisions(input, files.last()@, now);
    let last_f = file_findings(input, files.last()@, now);
    if k < files.len() - 1 {
        assert(files.drop_last()[k] == files[k]);
        lemma_files_hold_item(input, files.drop_last(), now, k, d, f);
        let i = choose|i: int| 0 <= i < prev_d.len() && prev_d[i] == d;
        assert((prev_d + last_d)[i] == d);
        let j = choose|j: int| 0 <= j < prev_f.len() && prev_f[j] == f;
        assert((prev_f + last_f)[j] == f);
    } else {
        assert(files.last() == files[k]);
        let i = choose|i: int| 0 <= i < last_d.len() && last_d[i] == d;
        assert((prev_d + last_d)[prev_d.len() + i] == d);
        let j = choose|j: int| 0 <= j < last_f.len() && last_f[j] == f;
        assert((prev_f + last_f)[prev_f.len() + j] == f);
    }
}

/// A changed file under a `migrations` directory needs a `data-migration`
/// approval or a valid waiver of `policy.data.migration_approval`: without
/// either, the built-in policies require approval for it and report an
/// error, and give no default allow.
pub proof fn unapproved_migration_changes_need_approval(input: PolicyCheckInput, now: i128, k: int)
    requires
        0 <= k < input.changed_files@.len(),
        starts_with(input.changed_files@[k]@, "migrations/"@) || contains(input.changed_files@[k]@, "/migrations/"@),
        !strings_view(input.approvals@).contains("data-migration"@),
        !waived(input.waivers@, "policy.data.migration_approval"@, now),
    ensures
        builtin_decisions(input, now).contains(
            ("policy.data.migration_approval"@, PolicyEffect::RequireApproval, "Migration file `"@
                + input.changed_files@[k]@ + "` requires data-migration approval"@),
        ),
        builtin_findings(input, now).contains(
            ("policy.data.migration_approval"@, FindingSeverity::Error, "Migration file `"@ + input.changed_files@[k]@
                + "` lacks approval or waiver"@),
        ),
        !all_allow(builtin_decisions(input, now)),
{
    let files = input.changed_files@;
    let path = files[k]@;
    let d = ("policy.data.migration_approval"@, PolicyEffect::RequireApproval, "Migration file `"@ + path
        + "` requires data-migration approval"@);
    let f = ("policy.data.migration_approval"@, FindingSeverity::Error, "Migration file `"@ + path
        + "` lacks approval or waiver"@);
    let sd = if looks_like_secret(path) {
        seq![("policy.security.no_secret_files"@, PolicyEffect::Deny, "Changed file `"@ + path
            + "` appears to contain secrets"@)]
    } else {
        Seq::empty()
    };
    assert(file_decisions(input, path, now) == sd + seq![d]);
    assert((sd + seq![d])[sd.len() as int] == d);
    let sf = if looks_like_secret(path) {
        one_finding("policy.security.no_secret_files"@, "Secret-like path `"@ + path
            + "` cannot be changed without a stronger policy"@)
    } else {
        Seq::empty()
    };
    assert(file_findings(input, path, now) == sf + one_finding("policy.data.migration_approval"@, "Migration file `"@
        + path + "` lacks approval or waiver"@));
    assert((sf + seq![f])[sf.len() as int] == f);
    lemma_files_hold_item(input, files, now, k, d, f);
    let head = seq![
        ("policy.operation.traceable"@, PolicyEffect::Allow, "Operation `"@ + input.operation@
            + "` is traceable through graph execution"@),
    ];
    let fd = files_decisions(input, files, now);
    let i = choose|i: int| 0 <= i < fd.len() && fd[i] == d;
    assert((head + fd)[1 + i] == d);
    assert(!all_allow(head + fd));
    let ff = files_findings(input, files, now);
    let w = waivers_findings(input.waivers@, now);
    let j = choose|j: int| 0 <= j < ff.len() && ff[j] == f;
    assert((w + ff)[w.len() + j] == f);
}

} // verus!
