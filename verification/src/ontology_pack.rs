//! Ontology pack manifests: validation and upgrade planning.

use crate::model::{Finding, FindingSeverity, findings_view, no_related, push_finding};
use crate::ontology::{MvpOntology, core_edge_types, core_node_types};
use crate::semver::{VersionOrder, compare_semver, is_simple_semver, semver, semver_order};
use crate::text::{
    chars_of, contains, contains_str, ends_with_str, eq_chars, eq_str, is_ascii_alnum,
    is_ascii_digit, is_ascii_upper, msg3, msg5, msg7, starts_with, starts_with_str, string_chars,
    strings_view, trim, trim_exec,
};
use vstd::prelude::*;

verus! {

pub type FindingView = (Seq<char>, FindingSeverity, Seq<char>);

#[derive(Debug, Clone, PartialEq, Eq)]
pub struct OntologyPackManifest {
    pub name: String,
    pub version: String,
    pub source: Option<OntologyPackSource>,
    pub signature: Option<OntologyPackSignature>,
    pub extends: Vec<String>,
    pub node_types: Vec<String>,
    pub edge_types: Vec<String>,
    pub validators: Vec<String>,
    pub policies: Vec<String>,
    pub migrations: Vec<OntologyMigration>,
}

#[derive(Debug, Clone, PartialEq, Eq)]
pub struct OntologyPackSource {
    pub kind: String,
    pub uri: String,
}

#[derive(Debug, Clone, PartialEq, Eq)]
pub struct OntologyPackSignature {
    pub algorithm: String,
    pub value: String,
    pub signed_by: String,
}

#[derive(Debug, Clone, PartialEq, Eq)]
pub struct OntologyMigration {
    pub from: String,
    pub to: String,
    pub description: String,
}

#[derive(Debug, Clone, PartialEq, Eq)]
pub struct OntologyPackValidationReport {
    pub pack: String,
    pub version: String,
    pub findings: Vec<Finding>,
}

#[derive(Debug, Clone, PartialEq, Eq)]
pub struct OntologyMigrationPlan {
    pub pack: String,
    pub from_version: Option<String>,
    pub to_version: String,
    pub action: OntologyMigrationAction,
    pub migrations: Vec<OntologyMigration>,
    pub findings: Vec<Finding>,
}

#[derive(Debug, Clone, Copy, PartialEq, Eq, Structural)]
pub enum OntologyMigrationAction {
    Install,
    Noop,
    Upgrade,
    Downgrade,
    Replace,
}

/// One finding when `b` holds, none otherwise.
pub open spec fn opt(b: bool, f: FindingView) -> Seq<FindingView> {
    if b {
        seq![f]
    } else {
        Seq::empty()
    }
}

pub open spec fn err(code: Seq<char>, message: Seq<char>) -> FindingView {
    (code, FindingSeverity::Error, message)
}

pub open spec fn warn(code: Seq<char>, message: Seq<char>) -> FindingView {
    (code, FindingSeverity::Warning, message)
}

/// PascalCase ASCII: an uppercase letter, then ASCII letters and digits.
pub open spec fn node_type_name(v: Seq<char>) -> bool {
    v.len() > 0 && is_ascii_upper(v[0]) && forall|i: int|
        0 <= i < v.len() ==> is_ascii_alnum(#[trigger] v[i])
}

/// SCREAMING_SNAKE_CASE ASCII: uppercase letters, digits and `_`, starting
/// with a letter, no trailing `_` and no `__`.
pub open spec fn edge_type_name(v: Seq<char>) -> bool {
    &&& v.len() > 0
    &&& forall|i: int|
        0 <= i < v.len() ==> is_ascii_upper(#[trigger] v[i]) || is_ascii_digit(v[i]) || v[i] == '_'
    &&& is_ascii_upper(v[0])
    &&& v.last() != '_'
    &&& !contains(v, "__"@)
}

pub open spec fn identity_findings(name: Seq<char>, version: Seq<char>) -> Seq<FindingView> {
    opt(trim(name).len() == 0, err("ontology_pack.name_required"@, "Ontology pack name is required"@))
        + if trim(version).len() == 0 {
        seq![err("ontology_pack.version_required"@, "Ontology pack version is required"@)]
    } else {
        opt(
            semver(version) is None,
            err(
                "ontology_pack.version_invalid"@,
                "Ontology pack version `"@ + version
                    + "` must use `MAJOR.MINOR.PATCH` semantic version format"@,
            ),
        )
    }
}

/// Findings on the declared source, and whether it is remote.
pub open spec fn source_findings(source: Option<OntologyPackSource>) -> (Seq<FindingView>, bool) {
    match source {
        None => (
            seq![
                warn(
                    "ontology_pack.source_missing"@,
                    "Ontology pack source is not declared; local installs should record source kind and URI for lockfile provenance"@,
                ),
            ],
            false,
        ),
        Some(s) => {
            let kind = trim(s.kind@);
            let uri = trim(s.uri@);
            let uri_findings = opt(
                uri.len() == 0,
                err("ontology_pack.source_uri_required"@, "Ontology pack source URI is required"@),
            );
            if kind == "local"@ {
                (uri_findings, false)
            } else if kind == "remote"@ || kind == "registry"@ {
                (
                    uri_findings + opt(
                        !starts_with(uri, "https://"@),
                        err(
                            "ontology_pack.source_uri_insecure"@,
                            "Ontology pack "@ + kind + " source `"@ + uri
                                + "` must use an https:// URI"@,
                        ),
                    ),
                    true,
                )
            } else if kind.len() == 0 {
                (
                    uri_findings + seq![
                        err(
                            "ontology_pack.source_kind_required"@,
                            "Ontology pack source kind is required"@,
                        ),
                    ],
                    false,
                )
            } else {
                (
                    uri_findings + seq![
                        err(
                            "ontology_pack.source_kind_invalid"@,
                            "Ontology pack source kind `"@ + kind
                                + "` must be local, remote, or registry"@,
                        ),
                    ],
                    false,
                )
            }
        },
    }
}

pub open spec fn known_algorithm(a: Seq<char>) -> bool {
    a == "unsigned-dev"@ || a == "sha256"@ || a == "sigstore"@ || a == "minisign"@
}

pub open spec fn signature_findings(sig: Option<OntologyPackSignature>, remote: bool) -> Seq<
    FindingView,
> {
    match sig {
        Some(s) => {
            let algorithm = trim(s.algorithm@);
            opt(
                !known_algorithm(algorithm),
                err(
                    "ontology_pack.signature_algorithm_invalid"@,
                    "Ontology pack signature algorithm `"@ + s.algorithm@
                        + "` must be unsigned-dev, sha256, sigstore, or minisign"@,
                ),
            ) + opt(
                remote && algorithm == "unsigned-dev"@,
                err(
                    "ontology_pack.signature_unsigned_remote"@,
                    "Remote or registry ontology pack sources cannot use unsigned-dev signatures"@,
                ),
            ) + opt(
                trim(s.value@).len() == 0,
                err(
                    "ontology_pack.signature_value_required"@,
                    "Ontology pack signature value is required"@,
                ),
            ) + opt(
                algorithm == "sha256"@ && !starts_with(s.value@, "sha256:"@),
                err(
                    "ontology_pack.signature_sha256_invalid"@,
                    "Ontology pack sha256 signature value must start with `sha256:`"@,
                ),
            ) + opt(
                trim(s.signed_by@).len() == 0,
                err(
                    "ontology_pack.signature_signed_by_required"@,
                    "Ontology pack signature signedBy is required"@,
                ),
            )
        },
        None => if remote {
            seq![
                err(
                    "ontology_pack.signature_required_for_remote_source"@,
                    "Remote or registry ontology pack sources require signature metadata before installation"@,
                ),
            ]
        } else {
            seq![
                warn(
                    "ontology_pack.signature_missing"@,
                    "Ontology pack signature is not declared; use `unsigned-dev` only for local development packs"@,
                ),
            ]
        },
    }
}

pub open spec fn one_node_type_findings(t: Seq<char>, duplicate: bool) -> Seq<FindingView> {
    opt(
        duplicate,
        err(
            "ontology_pack.duplicate_node_type"@,
            "Pack declares node type `"@ + t + "` more than once"@,
        ),
    ) + opt(
        !node_type_name(t),
        err(
            "ontology_pack.invalid_node_type_name"@,
            "Node type `"@ + t
                + "` is invalid; use non-empty PascalCase ASCII identifier names"@,
        ),
    ) + opt(
        core_node_types().contains(t),
        warn("ontology_pack.duplicate_core_node_type"@, "Pack redefines core node type `"@ + t + "`"@),
    )
}

/// Findings on the declared node types, each checked against those before it.
pub open spec fn node_type_findings(ts: Seq<Seq<char>>) -> Seq<FindingView>
    decreases ts.len(),
{
    if ts.len() == 0 {
        Seq::empty()
    } else {
        node_type_findings(ts.drop_last()) + one_node_type_findings(
            ts.last(),
            ts.drop_last().contains(ts.last()),
        )
    }
}

pub open spec fn one_edge_type_findings(t: Seq<char>, duplicate: bool) -> Seq<FindingView> {
    opt(
        duplicate,
        err(
            "ontology_pack.duplicate_edge_type"@,
            "Pack declares edge type `"@ + t + "` more than once"@,
        ),
    ) + opt(
        !edge_type_name(t),
        err(
            "ontology_pack.invalid_edge_type_name"@,
            "Edge type `"@ + t + "` is invalid; use non-empty SCREAMING_SNAKE_CASE ASCII names"@,
        ),
    ) + opt(
        core_edge_types().contains(t),
        warn("ontology_pack.duplicate_core_edge_type"@, "Pack redefines core edge type `"@ + t + "`"@),
    )
}

pub open spec fn edge_type_findings(ts: Seq<Seq<char>>) -> Seq<FindingView>
    decreases ts.len(),
{
    if ts.len() == 0 {
        Seq::empty()
    } else {
        edge_type_findings(ts.drop_last()) + one_edge_type_findings(
            ts.last(),
            ts.drop_last().contains(ts.last()),
        )
    }
}

pub open spec fn one_migration_findings(m: OntologyMigration) -> Seq<FindingView> {
    opt(
        trim(m.from@).len() == 0,
        err("ontology_pack.migration_from_required"@, "Ontology migration `from` version is required"@),
    ) + opt(
        trim(m.to@).len() == 0,
        err("ontology_pack.migration_to_required"@, "Ontology migration `to` version is required"@),
    ) + opt(
        trim(m.description@).len() == 0,
        err(
            "ontology_pack.migration_description_required"@,
            "Ontology migration "@ + m.from@ + " -> "@ + m.to@ + " requires a description"@,
        ),
    ) + opt(
        trim(m.from@).len() != 0 && trim(m.to@).len() != 0 && m.from@ == m.to@,
        err(
            "ontology_pack.migration_noop"@,
            "Ontology migration cannot migrate from `"@ + m.from@ + "` to itself"@,
        ),
    )
}

pub open spec fn migration_findings(ms: Seq<OntologyMigration>) -> Seq<FindingView>
    decreases ms.len(),
{
    if ms.len() == 0 {
        Seq::empty()
    } else {
        migration_findings(ms.drop_last()) + one_migration_findings(ms.last())
    }
}

/// Every finding `validate_pack` reports on `pack`, in order.
pub open spec fn pack_findings(pack: OntologyPackManifest) -> Seq<FindingView> {
    let (source_part, remote) = source_findings(pack.source);
    identity_findings(pack.name@, pack.version@) + source_part + signature_findings(
        pack.signature,
        remote,
    ) + node_type_findings(strings_view(pack.node_types@)) + edge_type_findings(
        strings_view(pack.edge_types@),
    ) + migration_findings(pack.migrations@)
}

fn push_if(
    findings: &mut Vec<Finding>,
    cond: bool,
    code: &str,
    severity: FindingSeverity,
    message: String,
)
    ensures
        no_related(old(findings)@) ==> no_related(final(findings)@),
        findings_view(final(findings)@) == findings_view(old(findings)@) + opt(
            cond,
            (code@, severity, message@),
        ),
{
    let ghost before = findings_view(findings@);
    if cond {
        push_finding(findings, code, severity, message);
        assert(findings_view(findings@) =~= before + seq![(code@, severity, message@)]);
    } else {
        assert(before + Seq::<FindingView>::empty() =~= before);
    }
}

pub fn is_node_type_name(value: &str) -> (r: bool)
    ensures
        r == node_type_name(value@),
{
    let v = chars_of(value);
    if v.len() == 0 {
        return false;
    }
    if !('A' <= v[0] && v[0] <= 'Z') {
        return false;
    }
    let mut i: usize = 0;
    while i < v.len()
        invariant
            i <= v@.len(),
            v@ == value@,
            forall|k: int| 0 <= k < i ==> is_ascii_alnum(#[trigger] v@[k]),
        decreases v@.len() - i,
    {
        let c = v[i];
        if !(('a' <= c && c <= 'z') || ('A' <= c && c <= 'Z') || ('0' <= c && c <= '9')) {
            assert(!is_ascii_alnum(v@[i as int]));
            return false;
        }
        i = i + 1;
    }
    true
}

pub fn is_edge_type_name(value: &str) -> (r: bool)
    ensures
        r == edge_type_name(value@),
{
    let v = chars_of(value);
    if v.len() == 0 {
        return false;
    }
    let mut i: usize = 0;
    while i < v.len()
        invariant
            i <= v@.len(),
            v@ == value@,
            forall|k: int|
                0 <= k < i ==> is_ascii_upper(#[trigger] v@[k]) || is_ascii_digit(v@[k]) || v@[k]
                    == '_',
        decreases v@.len() - i,
    {
        let c = v[i];
        if !(('A' <= c && c <= 'Z') || ('0' <= c && c <= '9') || c == '_') {
            assert(!(is_ascii_upper(v@[i as int]) || is_ascii_digit(v@[i as int]) || v@[i as int] == '_'));
            return false;
        }
        i = i + 1;
    }
    ('A' <= v[0] && v[0] <= 'Z') && v[v.len() - 1] != '_' && !contains_str(&v, "__")
}

fn validate_source(source: &OntologyPackSource, findings: &mut Vec<Finding>) -> (remote: bool)
    ensures
        no_related(old(findings)@) ==> no_related(final(findings)@),
        findings_view(final(findings)@) == findings_view(old(findings)@) + source_findings(
            Some(*source),
        ).0,
        remote == source_findings(Some(*source)).1,
{
    let kind = trim_exec(&string_chars(&source.kind));
    let uri = trim_exec(&string_chars(&source.uri));
    let ghost before = findings_view(findings@);
    push_if(
        findings,
        uri.len() == 0,
        "ontology_pack.source_uri_required",
        FindingSeverity::Error,
        String::from_str("Ontology pack source URI is required"),
    );
    let ghost after_uri = findings_view(findings@);
    if eq_str(&kind, "local") {
        false
    } else if eq_str(&kind, "remote") || eq_str(&kind, "registry") {
        let secure = starts_with_str(&uri, "https://");
        push_if(
            findings,
            !secure,
            "ontology_pack.source_uri_insecure",
            FindingSeverity::Error,
            msg5("Ontology pack ", &kind, " source `", &uri, "` must use an https:// URI"),
        );
        assert(findings_view(findings@) =~= before + source_findings(Some(*source)).0);
        true
    } else if kind.len() == 0 {
        push_finding(
            findings,
            "ontology_pack.source_kind_required",
            FindingSeverity::Error,
            String::from_str("Ontology pack source kind is required"),
        );
        assert(findings_view(findings@) =~= before + source_findings(Some(*source)).0);
        false
    } else {
        push_finding(
            findings,
            "ontology_pack.source_kind_invalid",
            FindingSeverity::Error,
            msg3("Ontology pack source kind `", &kind, "` must be local, remote, or registry"),
        );
        assert(findings_view(findings@) =~= before + source_findings(Some(*source)).0);
        false
    }
}

fn validate_signature(
    signature: &OntologyPackSignature,
    remote_source: bool,
    findings: &mut Vec<Finding>,
)
    ensures
        no_related(old(findings)@) ==> no_related(final(findings)@),
        findings_view(final(findings)@) == findings_view(old(findings)@) + signature_findings(
            Some(*signature),
            remote_source,
        ),
{
    let ghost before = findings_view(findings@);
    let raw_algorithm = string_chars(&signature.algorithm);
    let algorithm = trim_exec(&raw_algorithm);
    let known = eq_str(&algorithm, "unsigned-dev") || eq_str(&algorithm, "sha256") || eq_str(
        &algorithm,
        "sigstore",
    ) || eq_str(&algorithm, "minisign");
    push_if(
        findings,
        !known,
        "ontology_pack.signature_algorithm_invalid",
        FindingSeverity::Error,
        msg3(
            "Ontology pack signature algorithm `",
            &raw_algorithm,
            "` must be unsigned-dev, sha256, sigstore, or minisign",
        ),
    );
    let ghost f1 = findings_view(findings@);
    push_if(
        findings,
        remote_source && eq_str(&algorithm, "unsigned-dev"),
        "ontology_pack.signature_unsigned_remote",
        FindingSeverity::Error,
        String::from_str(
            "Remote or registry ontology pack sources cannot use unsigned-dev signatures",
        ),
    );
    let ghost f2 = findings_view(findings@);
    let raw_value = string_chars(&signature.value);
    let value = trim_exec(&raw_value);
    push_if(
        findings,
        value.len() == 0,
        "ontology_pack.signature_value_required",
        FindingSeverity::Error,
        String::from_str("Ontology pack signature value is required"),
    );
    let ghost f3 = findings_view(findings@);
    push_if(
        findings,
        eq_str(&algorithm, "sha256") && !starts_with_str(&raw_value, "sha256:"),
        "ontology_pack.signature_sha256_invalid",
        FindingSeverity::Error,
        String::from_str("Ontology pack sha256 signature value must start with `sha256:`"),
    );
    let ghost f4 = findings_view(findings@);
    let signed_by = trim_exec(&string_chars(&signature.signed_by));
    push_if(
        findings,
        signed_by.len() == 0,
        "ontology_pack.signature_signed_by_required",
        FindingSeverity::Error,
        String::from_str("Ontology pack signature signedBy is required"),
    );
    assert(findings_view(findings@) =~= before + signature_findings(
        Some(*signature),
        remote_source,
    ));
}

fn validate_source_and_signature(pack: &OntologyPackManifest, findings: &mut Vec<Finding>)
    ensures
        no_related(old(findings)@) ==> no_related(final(findings)@),
        findings_view(final(findings)@) == findings_view(old(findings)@) + source_findings(
            pack.source,
        ).0 + signature_findings(pack.signature, source_findings(pack.source).1),
{
    let ghost before = findings_view(findings@);
    let remote_source = match &pack.source {
        Some(source) => validate_source(source, findings),
        None => {
            push_finding(
                findings,
                "ontology_pack.source_missing",
                FindingSeverity::Warning,
                String::from_str(
                    "Ontology pack source is not declared; local installs should record source kind and URI for lockfile provenance",
                ),
            );
            false
        },
    };
    let ghost mid = findings_view(findings@);
    assert(mid =~= before + source_findings(pack.source).0);
    match &pack.signature {
        Some(signature) => validate_signature(signature, remote_source, findings),
        None => {
            if remote_source {
                push_finding(
                    findings,
                    "ontology_pack.signature_required_for_remote_source",
                    FindingSeverity::Error,
                    String::from_str(
                        "Remote or registry ontology pack sources require signature metadata before installation",
                    ),
                );
            } else {
                push_finding(
                    findings,
                    "ontology_pack.signature_missing",
                    FindingSeverity::Warning,
                    String::from_str(
                        "Ontology pack signature is not declared; use `unsigned-dev` only for local development packs",
                    ),
                );
            }
        },
    }
    assert(findings_view(findings@) =~= before + source_findings(pack.source).0
        + signature_findings(pack.signature, source_findings(pack.source).1));
}

/// Whether `v[..i]` holds `x`.
fn prefix_contains(v: &Vec<String>, i: usize, x: &[char]) -> (r: bool)
    requires
        i <= v@.len(),
    ensures
        r == strings_view(v@).take(i as int).contains(x@),
{
    let mut k: usize = 0;
    while k < i
        invariant
            i <= v@.len(),
            k <= i,
            forall|j: int| 0 <= j < k ==> v@[j]@ != x@,
        decreases i - k,
    {
        let c = string_chars(&v[k]);
        if eq_chars(&c, x) {
            assert(strings_view(v@).take(i as int)[k as int] == x@);
            return true;
        }
        k = k + 1;
    }
    assert forall|j: int| 0 <= j < i implies strings_view(v@).take(i as int)[j] != x@ by {
        assert(strings_view(v@).take(i as int)[j] == v@[j]@);
    }
    false
}

proof fn lemma_take_step(v: Seq<String>, i: int)
    requires
        0 <= i < v.len(),
    ensures
        strings_view(v).take(i + 1).drop_last() == strings_view(v).take(i),
        strings_view(v).take(i + 1).last() == v[i]@,
{
    assert(strings_view(v).take(i + 1).drop_last() =~= strings_view(v).take(i));
}

fn validate_node_types(pack: &OntologyPackManifest, ontology: &MvpOntology, findings: &mut Vec<Finding>)
    requires
        ontology.node_type_set() == core_node_types(),
    ensures
        no_related(old(findings)@) ==> no_related(final(findings)@),
        findings_view(final(findings)@) == findings_view(old(findings)@) + node_type_findings(
            strings_view(pack.node_types@),
        ),
{
    let ghost before = findings_view(findings@);
    let mut i: usize = 0;
    assert(strings_view(pack.node_types@).take(0) =~= Seq::<Seq<char>>::empty());
    while i < pack.node_types.len()
        invariant
            no_related(old(findings)@) ==> no_related(findings@),
            i <= pack.node_types@.len(),
            ontology.node_type_set() == core_node_types(),
            findings_view(findings@) == before + node_type_findings(
                strings_view(pack.node_types@).take(i as int),
            ),
        decreases pack.node_types@.len() - i,
    {
        let t = string_chars(&pack.node_types[i]);
        proof {
            lemma_take_step(pack.node_types@, i as int);
        }
        let ghost mid = findings_view(findings@);
        let duplicate = prefix_contains(&pack.node_types, i, &t);
        push_if(
            findings,
            duplicate,
            "ontology_pack.duplicate_node_type",
            FindingSeverity::Error,
            msg3("Pack declares node type `", &t, "` more than once"),
        );
        push_if(
            findings,
            !is_node_type_name(pack.node_types[i].as_str()),
            "ontology_pack.invalid_node_type_name",
            FindingSeverity::Error,
            msg3(
                "Node type `",
                &t,
                "` is invalid; use non-empty PascalCase ASCII identifier names",
            ),
        );
        push_if(
            findings,
            ontology.is_node_type(pack.node_types[i].as_str()),
            "ontology_pack.duplicate_core_node_type",
            FindingSeverity::Warning,
            msg3("Pack redefines core node type `", &t, "`"),
        );
        assert(findings_view(findings@) =~= mid + one_node_type_findings(t@, duplicate));
        i = i + 1;
    }
    assert(strings_view(pack.node_types@).take(i as int) =~= strings_view(pack.node_types@));
}

fn validate_edge_types(pack: &OntologyPackManifest, ontology: &MvpOntology, findings: &mut Vec<Finding>)
    requires
        ontology.edge_type_set() == core_edge_types(),
    ensures
        no_related(old(findings)@) ==> no_related(final(findings)@),
        findings_view(final(findings)@) == findings_view(old(findings)@) + edge_type_findings(
            strings_view(pack.edge_types@),
        ),
{
    let ghost before = findings_view(findings@);
    let mut i: usize = 0;
    assert(strings_view(pack.edge_types@).take(0) =~= Seq::<Seq<char>>::empty());
    while i < pack.edge_types.len()
        invariant
            no_related(old(findings)@) ==> no_related(findings@),
            i <= pack.edge_types@.len(),
            ontology.edge_type_set() == core_edge_types(),
            findings_view(findings@) == before + edge_type_findings(
                strings_view(pack.edge_types@).take(i as int),
            ),
        decreases pack.edge_types@.len() - i,
    {
        let t = string_chars(&pack.edge_types[i]);
        proof {
            lemma_take_step(pack.edge_types@, i as int);
        }
        let ghost mid = findings_view(findings@);
        let duplicate = prefix_contains(&pack.edge_types, i, &t);
        push_if(
            findings,
            duplicate,
            "ontology_pack.duplicate_edge_type",
            FindingSeverity::Error,
            msg3("Pack declares edge type `", &t, "` more than once"),
        );
        push_if(
            findings,
            !is_edge_type_name(pack.edge_types[i].as_str()),
            "ontology_pack.invalid_edge_type_name",
            FindingSeverity::Error,
            msg3(
                "Edge type `",
                &t,
                "` is invalid; use non-empty SCREAMING_SNAKE_CASE ASCII names",
            ),
        );
        push_if(
            findings,
            ontology.is_edge_type(pack.edge_types[i].as_str()),
            "ontology_pack.duplicate_core_edge_type",
            FindingSeverity::Warning,
            msg3("Pack redefines core edge type `", &t, "`"),
        );
        assert(findings_view(findings@) =~= mid + one_edge_type_findings(t@, duplicate));
        i = i + 1;
    }
    assert(strings_view(pack.edge_types@).take(i as int) =~= strings_view(pack.edge_types@));
}

fn validate_migration(m: &OntologyMigration, findings: &mut Vec<Finding>)
    ensures
        no_related(old(findings)@) ==> no_related(final(findings)@),
        findings_view(final(findings)@) == findings_view(old(findings)@) + one_migration_findings(*m),
{
    let ghost before = findings_view(findings@);
    let from = string_chars(&m.from);
    let to = string_chars(&m.to);
    let from_blank = trim_exec(&from).len() == 0;
    let to_blank = trim_exec(&to).len() == 0;
    push_if(
        findings,
        from_blank,
        "ontology_pack.migration_from_required",
        FindingSeverity::Error,
        String::from_str("Ontology migration `from` version is required"),
    );
    push_if(
        findings,
        to_blank,
        "ontology_pack.migration_to_required",
        FindingSeverity::Error,
        String::from_str("Ontology migration `to` version is required"),
    );
    push_if(
        findings,
        trim_exec(&string_chars(&m.description)).len() == 0,
        "ontology_pack.migration_description_required",
        FindingSeverity::Error,
        msg5("Ontology migration ", &from, " -> ", &to, " requires a description"),
    );
    push_if(
        findings,
        !from_blank && !to_blank && eq_chars(&from, &to),
        "ontology_pack.migration_noop",
        FindingSeverity::Error,
        msg3("Ontology migration cannot migrate from `", &from, "` to itself"),
    );
    assert(findings_view(findings@) =~= before + one_migration_findings(*m));
}

/// Validate a pack manifest: identity, semantic version, source and signature
/// provenance, type names and duplicates, and migration entries.
pub fn validate_pack(pack: &OntologyPackManifest) -> (report: OntologyPackValidationReport)
    ensures
        no_related(report.findings@),
        report.pack@ == pack.name@,
        report.version@ == pack.version@,
        findings_view(report.findings@) == pack_findings(*pack),
{
    let ontology = MvpOntology::new();
    let mut findings: Vec<Finding> = Vec::new();
    let name = trim_exec(&string_chars(&pack.name));
    push_if(
        &mut findings,
        name.len() == 0,
        "ontology_pack.name_required",
        FindingSeverity::Error,
        String::from_str("Ontology pack name is required"),
    );
    let ghost after_name = findings_view(findings@);
    let version = string_chars(&pack.version);
    if trim_exec(&version).len() == 0 {
        push_finding(
            &mut findings,
            "ontology_pack.version_required",
            FindingSeverity::Error,
            String::from_str("Ontology pack version is required"),
        );
    } else {
        push_if(
            &mut findings,
            !is_simple_semver(pack.version.as_str()),
            "ontology_pack.version_invalid",
            FindingSeverity::Error,
            msg3(
                "Ontology pack version `",
                &version,
                "` must use `MAJOR.MINOR.PATCH` semantic version format",
            ),
        );
    }
    assert(findings_view(findings@) =~= identity_findings(pack.name@, pack.version@));
    validate_source_and_signature(pack, &mut findings);
    validate_node_types(pack, &ontology, &mut findings);
    validate_edge_types(pack, &ontology, &mut findings);
    let ghost before_migrations = findings_view(findings@);
    let mut i: usize = 0;
    assert(pack.migrations@.take(0) =~= Seq::<OntologyMigration>::empty());
    while i < pack.migrations.len()
        invariant
            no_related(findings@),
            i <= pack.migrations@.len(),
            findings_view(findings@) == before_migrations + migration_findings(
                pack.migrations@.take(i as int),
            ),
        decreases pack.migrations@.len() - i,
    {
        assert(pack.migrations@.take(i + 1).drop_last() =~= pack.migrations@.take(i as int));
        let ghost mid = findings_view(findings@);
        validate_migration(&pack.migrations[i], &mut findings);
        assert(findings_view(findings@) =~= mid + one_migration_findings(pack.migrations@[i as int]));
        i = i + 1;
    }
    assert(pack.migrations@.take(i as int) =~= pack.migrations@);
    assert(findings_view(findings@) =~= pack_findings(*pack));
    OntologyPackValidationReport {
        pack: pack.name.clone(),
        version: pack.version.clone(),
        findings,
    }
}


pub open spec fn migration_view(m: OntologyMigration) -> (Seq<char>, Seq<char>, Seq<char>) {
    (m.from@, m.to@, m.description@)
}

pub open spec fn migrations_view(ms: Seq<OntologyMigration>) -> Seq<(Seq<char>, Seq<char>, Seq<char>)> {
    ms.map_values(|m: OntologyMigration| migration_view(m))
}

/// The migrations of `ms` that go from `from` to `to`, in order.
pub open spec fn matching_migrations(ms: Seq<OntologyMigration>, from: Seq<char>, to: Seq<char>) -> Seq<
    (Seq<char>, Seq<char>, Seq<char>),
>
    decreases ms.len(),
{
    if ms.len() == 0 {
        Seq::empty()
    } else {
        let rest = matching_migrations(ms.drop_last(), from, to);
        if ms.last().from@ == from && ms.last().to@ == to {
            rest.push(migration_view(ms.last()))
        } else {
            rest
        }
    }
}

/// Warnings for the types of `current` that `target` no longer declares.
pub open spec fn removed_type_findings(
    current: Seq<Seq<char>>,
    target: Seq<Seq<char>>,
    pack: Seq<char>,
    kind: Seq<char>,
    code: Seq<char>,
) -> Seq<FindingView>
    decreases current.len(),
{
    if current.len() == 0 {
        Seq::empty()
    } else {
        removed_type_findings(current.drop_last(), target, pack, kind, code) + opt(
            !target.contains(current.last()),
            warn(
                code,
                "Pack `"@ + pack + "` upgrade removes "@ + kind + " type `"@ + current.last()
                    + "`; affected graph facts may require migration"@,
            ),
        )
    }
}

pub open spec fn compatibility_findings(current: OntologyPackManifest, target: OntologyPackManifest) -> Seq<
    FindingView,
> {
    removed_type_findings(
        strings_view(current.node_types@),
        strings_view(target.node_types@),
        target.name@,
        "node"@,
        "ontology_pack.compatibility.node_type_removed"@,
    ) + removed_type_findings(
        strings_view(current.edge_types@),
        strings_view(target.edge_types@),
        target.name@,
        "edge"@,
        "ontology_pack.compatibility.edge_type_removed"@,
    )
}

pub open spec fn installed(current: Option<&OntologyPackManifest>) -> Option<OntologyPackManifest> {
    match current {
        Some(c) => Some(*c),
        None => None,
    }
}

/// What moving from `current` to `target` does.
pub open spec fn planned_action(current: Option<OntologyPackManifest>, target: OntologyPackManifest) -> OntologyMigrationAction {
    match current {
        None => OntologyMigrationAction::Install,
        Some(c) => if c.name@ != target.name@ {
            OntologyMigrationAction::Replace
        } else {
            match semver_order(c.version@, target.version@) {
                Some(VersionOrder::Equal) => OntologyMigrationAction::Noop,
                Some(VersionOrder::Less) => OntologyMigrationAction::Upgrade,
                Some(VersionOrder::Greater) => OntologyMigrationAction::Downgrade,
                None => OntologyMigrationAction::Install,
            }
        },
    }
}

/// The migrations a plan carries: those matching an upgrade, else none.
pub open spec fn planned_migrations(current: Option<OntologyPackManifest>, target: OntologyPackManifest) -> Seq<
    (Seq<char>, Seq<char>, Seq<char>),
> {
    match current {
        Some(c) => if c.name@ == target.name@ && semver_order(c.version@, target.version@) == Some(
            VersionOrder::Less,
        ) {
            matching_migrations(target.migrations@, c.version@, target.version@)
        } else {
            Seq::empty()
        },
        None => Seq::empty(),
    }
}

/// Findings beyond those of the target pack itself.
pub open spec fn transition_findings(current: Option<OntologyPackManifest>, target: OntologyPackManifest) -> Seq<
    FindingView,
> {
    match current {
        None => Seq::empty(),
        Some(c) => if c.name@ != target.name@ {
            seq![
                err(
                    "ontology_pack.migration_pack_mismatch"@,
                    "Cannot plan migration from pack `"@ + c.name@ + "` to different pack `"@
                        + target.name@ + "`"@,
                ),
            ]
        } else {
            match semver_order(c.version@, target.version@) {
                Some(VersionOrder::Equal) => Seq::empty(),
                Some(VersionOrder::Less) => opt(
                    matching_migrations(target.migrations@, c.version@, target.version@).len()
                        == 0,
                    err(
                        "ontology_pack.migration_missing"@,
                        "Pack `"@ + target.name@ + "` upgrade "@ + c.version@ + " -> "@
                            + target.version@ + " requires a matching migration entry"@,
                    ),
                ) + compatibility_findings(c, target),
                Some(VersionOrder::Greater) => seq![
                    err(
                        "ontology_pack.migration_downgrade"@,
                        "Pack `"@ + target.name@ + "` downgrade "@ + c.version@ + " -> "@
                            + target.version@ + " is not supported"@,
                    ),
                ],
                None => seq![
                    err(
                        "ontology_pack.migration_version_uncomparable"@,
                        "Cannot compare pack versions `"@ + c.version@ + "` and `"@
                            + target.version@ + "` for migration planning"@,
                    ),
                ],
            }
        },
    }
}

fn clone_migration(m: &OntologyMigration) -> (r: OntologyMigration)
    ensures
        migration_view(r) == migration_view(*m),
{
    OntologyMigration { from: m.from.clone(), to: m.to.clone(), description: m.description.clone() }
}

fn collect_matching_migrations(target: &OntologyPackManifest, from: &[char], to: &[char]) -> (r: Vec<OntologyMigration>)
    ensures
        migrations_view(r@) == matching_migrations(target.migrations@, from@, to@),
{
    let mut out: Vec<OntologyMigration> = Vec::new();
    let mut i: usize = 0;
    assert(target.migrations@.take(0) =~= Seq::<OntologyMigration>::empty());
    while i < target.migrations.len()
        invariant
            i <= target.migrations@.len(),
            migrations_view(out@) == matching_migrations(target.migrations@.take(i as int), from@, to@),
        decreases target.migrations@.len() - i,
    {
        assert(target.migrations@.take(i + 1).drop_last() =~= target.migrations@.take(i as int));
        let m = &target.migrations[i];
        if eq_chars(&string_chars(&m.from), from) && eq_chars(&string_chars(&m.to), to) {
            let ghost prev = out@;
            out.push(clone_migration(m));
            assert(migrations_view(out@) =~= migrations_view(prev).push(migration_view(*m)));
        }
        i = i + 1;
    }
    assert(target.migrations@.take(i as int) =~= target.migrations@);
    out
}

fn removed_types(
    current: &Vec<String>,
    target: &Vec<String>,
    pack: &[char],
    kind: &str,
    code: &str,
    findings: &mut Vec<Finding>,
)
    ensures
        no_related(old(findings)@) ==> no_related(final(findings)@),
        findings_view(final(findings)@) == findings_view(old(findings)@) + removed_type_findings(
            strings_view(current@),
            strings_view(target@),
            pack@,
            kind@,
            code@,
        ),
{
    let ghost before = findings_view(findings@);
    let mut i: usize = 0;
    assert(strings_view(current@).take(0) =~= Seq::<Seq<char>>::empty());
    while i < current.len()
        invariant
            no_related(old(findings)@) ==> no_related(findings@),
            i <= current@.len(),
            findings_view(findings@) == before + removed_type_findings(
                strings_view(current@).take(i as int),
                strings_view(target@),
                pack@,
                kind@,
                code@,
            ),
        decreases current@.len() - i,
    {
        proof {
            lemma_take_step(current@, i as int);
        }
        let t = string_chars(&current[i]);
        let ghost mid = findings_view(findings@);
        let mut m = chars_of("Pack `");
        crate::text::append(&mut m, pack);
        crate::text::append_str(&mut m, "` upgrade removes ");
        crate::text::append_str(&mut m, kind);
        crate::text::append_str(&mut m, " type `");
        crate::text::append(&mut m, &t);
        crate::text::append_str(&mut m, "`; affected graph facts may require migration");
        push_if(
            findings,
            !crate::text::contains_string(target, current[i].as_str()),
            code,
            FindingSeverity::Warning,
            crate::text::string_of(&m),
        );
        i = i + 1;
    }
    assert(strings_view(current@).take(i as int) =~= strings_view(current@));
}

fn validate_type_compatibility(
    current: &OntologyPackManifest,
    target: &OntologyPackManifest,
    findings: &mut Vec<Finding>,
)
    ensures
        no_related(old(findings)@) ==> no_related(final(findings)@),
        findings_view(final(findings)@) == findings_view(old(findings)@) + compatibility_findings(
            *current,
            *target,
        ),
{
    let ghost before = findings_view(findings@);
    let name = string_chars(&target.name);
    removed_types(
        &current.node_types,
        &target.node_types,
        &name,
        "node",
        "ontology_pack.compatibility.node_type_removed",
        findings,
    );
    removed_types(
        &current.edge_types,
        &target.edge_types,
        &name,
        "edge",
        "ontology_pack.compatibility.edge_type_removed",
        findings,
    );
    assert(findings_view(findings@) =~= before + compatibility_findings(*current, *target));
}

/// Plan installing `target`, or moving to it from the installed `current`.
pub fn plan_pack_migration(current: Option<&OntologyPackManifest>, target: &OntologyPackManifest) -> (plan: OntologyMigrationPlan)
    ensures
        no_related(plan.findings@),
        plan.pack@ == target.name@,
        plan.to_version@ == target.version@,
        plan.from_version is Some == current is Some,
        current matches Some(c) ==> plan.from_version->0@ == c.version@,
        plan.action == planned_action(installed(current), *target),
        migrations_view(plan.migrations@) == planned_migrations(
            installed(current),
            *target,
        ),
        findings_view(plan.findings@) == pack_findings(*target) + transition_findings(
            installed(current),
            *target,
        ),
{
    let validation = validate_pack(target);
    let mut findings = validation.findings;
    let ghost base = findings_view(findings@);
    let mut migrations: Vec<OntologyMigration> = Vec::new();
    let mut action = OntologyMigrationAction::Install;
    let from_version = match current {
        Some(pack) => Some(pack.version.clone()),
        None => None,
    };
    if let Some(current) = current {
        let current_name = string_chars(&current.name);
        let target_name = string_chars(&target.name);
        let current_version = string_chars(&current.version);
        let target_version = string_chars(&target.version);
        if !eq_chars(&current_name, &target_name) {
            action = OntologyMigrationAction::Replace;
            push_finding(
                &mut findings,
                "ontology_pack.migration_pack_mismatch",
                FindingSeverity::Error,
                msg5(
                    "Cannot plan migration from pack `",
                    &current_name,
                    "` to different pack `",
                    &target_name,
                    "`",
                ),
            );
        } else {
            match compare_semver(current.version.as_str(), target.version.as_str()) {
                Some(VersionOrder::Equal) => {
                    action = OntologyMigrationAction::Noop;
                    assert(findings_view(findings@) =~= base + Seq::<FindingView>::empty());
                },
                Some(VersionOrder::Less) => {
                    action = OntologyMigrationAction::Upgrade;
                    let matching = collect_matching_migrations(target, &current_version, &target_version);
                    push_if(
                        &mut findings,
                        matching.len() == 0,
                        "ontology_pack.migration_missing",
                        FindingSeverity::Error,
                        msg7(
                            "Pack `",
                            &target_name,
                            "` upgrade ",
                            &current_version,
                            " -> ",
                            &target_version,
                            " requires a matching migration entry",
                        ),
                    );
                    migrations = matching;
                    validate_type_compatibility(current, target, &mut findings);
                },
                Some(VersionOrder::Greater) => {
                    action = OntologyMigrationAction::Downgrade;
                    push_finding(
                        &mut findings,
                        "ontology_pack.migration_downgrade",
                        FindingSeverity::Error,
                        msg7(
                            "Pack `",
                            &target_name,
                            "` downgrade ",
                            &current_version,
                            " -> ",
                            &target_version,
                            " is not supported",
                        ),
                    );
                },
                None => {
                    push_finding(
                        &mut findings,
                        "ontology_pack.migration_version_uncomparable",
                        FindingSeverity::Error,
                        msg5(
                            "Cannot compare pack versions `",
                            &current_version,
                            "` and `",
                            &target_version,
                            "` for migration planning",
                        ),
                    );
                },
            }
        }
        assert(findings_view(findings@) =~= base + transition_findings(Some(*current), *target));
    } else {
        assert(findings_view(findings@) =~= base + Seq::<FindingView>::empty());
    }
    OntologyMigrationPlan {
        pack: target.name.clone(),
        from_version,
        to_version: target.version.clone(),
        action,
        migrations,
        findings,
    }
}


proof fn lemma_removed_codes(current: Seq<Seq<char>>, target: Seq<Seq<char>>, pack: Seq<char>, kind: Seq<char>, code: Seq<char>)
    ensures
        forall|i: int|
            0 <= i < removed_type_findings(current, target, pack, kind, code).len() ==> (#[trigger] removed_type_findings(
                current,
                target,
                pack,
                kind,
                code,
            )[i]).0 == code,
    decreases current.len(),
{
    if current.len() > 0 {
        lemma_removed_codes(current.drop_last(), target, pack, kind, code);
        let a = removed_type_findings(current.drop_last(), target, pack, kind, code);
        let all = removed_type_findings(current, target, pack, kind, code);
        assert forall|i: int| 0 <= i < all.len() implies (#[trigger] all[i]).0 == code by {
            if i < a.len() {
                assert(all[i] == a[i]);
            }
        }
    }
}

/// The findings of `fs` that carry `code`.
pub open spec fn with_code(fs: Seq<FindingView>, code: Seq<char>) -> Seq<FindingView> {
    fs.filter(has_code(code))
}

/// Whether a finding carries `code`.
pub open spec fn has_code(code: Seq<char>) -> spec_fn(FindingView) -> bool {
    |f: FindingView| f.0 == code
}

proof fn lemma_opt_with_code(b: bool, f: FindingView, code: Seq<char>)
    ensures
        with_code(opt(b, f), code).len() == (if b && f.0 == code {
            1int
        } else {
            0int
        }),
{
    reveal_with_fuel(Seq::filter, 2);
    if b {
        let s = seq![f];
        assert(s.drop_last() =~= Seq::<FindingView>::empty());
        assert(s.last() == f);
        assert(with_code(s, code) == with_code(s.drop_last(), code) + (if f.0 == code {
            seq![f]
        } else {
            Seq::empty()
        }));
    }
}

proof fn lemma_one_node_type_duplicates(t: Seq<char>, duplicate: bool)
    ensures
        with_code(one_node_type_findings(t, duplicate), "ontology_pack.duplicate_node_type"@).len() == (if duplicate {
            1int
        } else {
            0int
        }),
{
    reveal_strlit("ontology_pack.duplicate_node_type");
    reveal_strlit("ontology_pack.invalid_node_type_name");
    reveal_strlit("ontology_pack.duplicate_core_node_type");
    let code = "ontology_pack.duplicate_node_type"@;
    let a = opt(
        duplicate,
        err(code, "Pack declares node type `"@ + t + "` more than once"@),
    );
    let b = opt(
        !node_type_name(t),
        err(
            "ontology_pack.invalid_node_type_name"@,
            "Node type `"@ + t + "` is invalid; use non-empty PascalCase ASCII identifier names"@,
        ),
    );
    let c = opt(
        core_node_types().contains(t),
        warn("ontology_pack.duplicate_core_node_type"@, "Pack redefines core node type `"@ + t + "`"@),
    );
    assert("ontology_pack.duplicate_node_type"@.len() == 33);
    assert("ontology_pack.invalid_node_type_name"@.len() == 36);
    assert("ontology_pack.duplicate_core_node_type"@.len() == 38);
    assert(one_node_type_findings(t, duplicate) == a + b + c);
    Seq::filter_distributes_over_add(a + b, c, has_code(code));
    Seq::filter_distributes_over_add(a, b, has_code(code));
    assert(with_code(a + b + c, code) == with_code(a, code) + with_code(b, code) + with_code(c, code));
    lemma_opt_with_code(duplicate, err(code, "Pack declares node type `"@ + t + "` more than once"@), code);
    lemma_opt_with_code(
        !node_type_name(t),
        err(
            "ontology_pack.invalid_node_type_name"@,
            "Node type `"@ + t + "` is invalid; use non-empty PascalCase ASCII identifier names"@,
        ),
        code,
    );
    lemma_opt_with_code(
        core_node_types().contains(t),
        warn("ontology_pack.duplicate_core_node_type"@, "Pack redefines core node type `"@ + t + "`"@),
        code,
    );
}

/// Whether every finding of `fs` carries one of the codes `allowed`.
pub open spec fn codes_from(fs: Seq<FindingView>, allowed: Seq<Seq<char>>) -> bool {
    forall|i: int| 0 <= i < fs.len() ==> allowed.contains((#[trigger] fs[i]).0)
}

pub open spec fn identity_codes() -> Seq<Seq<char>> {
    seq!["ontology_pack.name_required"@, "ontology_pack.version_required"@, "ontology_pack.version_invalid"@]
}

pub open spec fn source_codes() -> Seq<Seq<char>> {
    seq!["ontology_pack.source_missing"@, "ontology_pack.source_uri_required"@, "ontology_pack.source_uri_insecure"@, "ontology_pack.source_kind_required"@, "ontology_pack.source_kind_invalid"@]
}

pub open spec fn signature_codes() -> Seq<Seq<char>> {
    seq!["ontology_pack.signature_algorithm_invalid"@, "ontology_pack.signature_unsigned_remote"@, "ontology_pack.signature_value_required"@, "ontology_pack.signature_sha256_invalid"@, "ontology_pack.signature_signed_by_required"@, "ontology_pack.signature_required_for_remote_source"@, "ontology_pack.signature_missing"@]
}

pub open spec fn node_type_codes() -> Seq<Seq<char>> {
    seq!["ontology_pack.duplicate_node_type"@, "ontology_pack.invalid_node_type_name"@, "ontology_pack.duplicate_core_node_type"@]
}

pub open spec fn edge_type_codes() -> Seq<Seq<char>> {
    seq!["ontology_pack.duplicate_edge_type"@, "ontology_pack.invalid_edge_type_name"@, "ontology_pack.duplicate_core_edge_type"@]
}

pub open spec fn migration_codes() -> Seq<Seq<char>> {
    seq!["ontology_pack.migration_from_required"@, "ontology_pack.migration_to_required"@, "ontology_pack.migration_description_required"@, "ontology_pack.migration_noop"@]
}

proof fn lemma_codes_concat(a: Seq<FindingView>, b: Seq<FindingView>, allowed: Seq<Seq<char>>)
    requires
        codes_from(a, allowed),
        codes_from(b, allowed),
    ensures
        codes_from(a + b, allowed),
{
    assert forall|i: int| 0 <= i < (a + b).len() implies allowed.contains((#[trigger] (a + b)[i]).0) by {
        if i < a.len() {
            assert((a + b)[i] == a[i]);
        } else {
            assert((a + b)[i] == b[i - a.len()]);
        }
    }
}

proof fn lemma_codes_opt(b: bool, f: FindingView, allowed: Seq<Seq<char>>)
    requires
        allowed.contains(f.0),
    ensures
        codes_from(opt(b, f), allowed),
{
}

proof fn lemma_with_code_absent(fs: Seq<FindingView>, c: Seq<char>, allowed: Seq<Seq<char>>)
    requires
        codes_from(fs, allowed),
        !allowed.contains(c),
    ensures
        with_code(fs, c).len() == 0,
    decreases fs.len(),
{
    reveal(Seq::filter);
    if fs.len() > 0 {
        assert(fs.last() == fs[fs.len() - 1]);
        assert(allowed.contains(fs.last().0));
        assert forall|i: int| 0 <= i < fs.drop_last().len() implies allowed.contains((#[trigger] fs.drop_last()[i]).0) by {
            assert(fs.drop_last()[i] == fs[i]);
        }
        lemma_with_code_absent(fs.drop_last(), c, allowed);
    }
}

proof fn lemma_pack_code_names()
    ensures
        !identity_codes().contains("ontology_pack.duplicate_node_type"@),
        !identity_codes().contains("ontology_pack.migration_missing"@),
        !source_codes().contains("ontology_pack.duplicate_node_type"@),
        !source_codes().contains("ontology_pack.version_invalid"@),
        !source_codes().contains("ontology_pack.migration_missing"@),
        !signature_codes().contains("ontology_pack.duplicate_node_type"@),
        !signature_codes().contains("ontology_pack.version_invalid"@),
        !signature_codes().contains("ontology_pack.migration_missing"@),
        !node_type_codes().contains("ontology_pack.version_invalid"@),
        !node_type_codes().contains("ontology_pack.migration_missing"@),
        !edge_type_codes().contains("ontology_pack.duplicate_node_type"@),
        !edge_type_codes().contains("ontology_pack.version_invalid"@),
        !edge_type_codes().contains("ontology_pack.migration_missing"@),
        !migration_codes().contains("ontology_pack.duplicate_node_type"@),
        !migration_codes().contains("ontology_pack.version_invalid"@),
        !migration_codes().contains("ontology_pack.migration_missing"@),
{
    reveal_strlit("ontology_pack.name_required");
    reveal_strlit("ontology_pack.version_required");
    reveal_strlit("ontology_pack.version_invalid");
    reveal_strlit("ontology_pack.source_missing");
    reveal_strlit("ontology_pack.source_uri_required");
    reveal_strlit("ontology_pack.source_uri_insecure");
    reveal_strlit("ontology_pack.source_kind_required");
    reveal_strlit("ontology_pack.source_kind_invalid");
    reveal_strlit("ontology_pack.signature_algorithm_invalid");
    reveal_strlit("ontology_pack.signature_unsigned_remote");
    reveal_strlit("ontology_pack.signature_value_required");
    reveal_strlit("ontology_pack.signature_sha256_invalid");
    reveal_strlit("ontology_pack.signature_signed_by_required");
    reveal_strlit("ontology_pack.signature_required_for_remote_source");
    reveal_strlit("ontology_pack.signature_missing");
    reveal_strlit("ontology_pack.duplicate_node_type");
    reveal_strlit("ontology_pack.invalid_node_type_name");
    reveal_strlit("ontology_pack.duplicate_core_node_type");
    reveal_strlit("ontology_pack.duplicate_edge_type");
    reveal_strlit("ontology_pack.invalid_edge_type_name");
    reveal_strlit("ontology_pack.duplicate_core_edge_type");
    reveal_strlit("ontology_pack.migration_from_required");
    reveal_strlit("ontology_pack.migration_to_required");
    reveal_strlit("ontology_pack.migration_description_required");
    reveal_strlit("ontology_pack.migration_noop");
    reveal_strlit("ontology_pack.migration_missing");
    assert("ontology_pack.name_required"@.len() == 27);
    assert("ontology_pack.version_required"@.len() == 30);
    assert("ontology_pack.version_invalid"@.len() == 29);
    assert("ontology_pack.source_missing"@.len() == 28);
    assert("ontology_pack.source_uri_required"@.len() == 33);
    assert("ontology_pack.source_uri_insecure"@.len() == 33);
    assert("ontology_pack.source_kind_required"@.len() == 34);
    assert("ontology_pack.source_kind_invalid"@.len() == 33);
    assert("ontology_pack.signature_algorithm_invalid"@.len() == 41);
    assert("ontology_pack.signature_unsigned_remote"@.len() == 39);
    assert("ontology_pack.signature_value_required"@.len() == 38);
    assert("ontology_pack.signature_sha256_invalid"@.len() == 38);
    assert("ontology_pack.signature_signed_by_required"@.len() == 42);
    assert("ontology_pack.signature_required_for_remote_source"@.len() == 50);
    assert("ontology_pack.signature_missing"@.len() == 31);
    assert("ontology_pack.duplicate_node_type"@.len() == 33);
    assert("ontology_pack.invalid_node_type_name"@.len() == 36);
    assert("ontology_pack.duplicate_core_node_type"@.len() == 38);
    assert("ontology_pack.duplicate_edge_type"@.len() == 33);
    assert("ontology_pack.invalid_edge_type_name"@.len() == 36);
    assert("ontology_pack.duplicate_core_edge_type"@.len() == 38);
    assert("ontology_pack.migration_from_required"@.len() == 37);
    assert("ontology_pack.migration_to_required"@.len() == 35);
    assert("ontology_pack.migration_description_required"@.len() == 44);
    assert("ontology_pack.migration_noop"@.len() == 28);
    assert("ontology_pack.migration_missing"@.len() == 31);
    assert("ontology_pack.duplicate_node_type"@[14] == 'd' && "ontology_pack.duplicate_edge_type"@[24] == 'e');
    assert("ontology_pack.duplicate_node_type"@[24] == 'n');
    assert("ontology_pack.migration_missing"@[14] == 'm' && "ontology_pack.signature_missing"@[14] == 's');
}

proof fn lemma_identity_codes(name: Seq<char>, version: Seq<char>)
    ensures
        codes_from(identity_findings(name, version), identity_codes()),
{
    let a = identity_codes();
    assert(a[0] == "ontology_pack.name_required"@ && a[1] == "ontology_pack.version_required"@ && a[2]
        == "ontology_pack.version_invalid"@);
    let first = opt(trim(name).len() == 0, err("ontology_pack.name_required"@, "Ontology pack name is required"@));
    lemma_codes_opt(trim(name).len() == 0, err("ontology_pack.name_required"@, "Ontology pack name is required"@), a);
    let invalid = err(
        "ontology_pack.version_invalid"@,
        "Ontology pack version `"@ + version + "` must use `MAJOR.MINOR.PATCH` semantic version format"@,
    );
    let required = err("ontology_pack.version_required"@, "Ontology pack version is required"@);
    lemma_codes_opt(true, required, a);
    lemma_codes_opt(semver(version) is None, invalid, a);
    assert(seq![required] == opt(true, required));
    let second = if trim(version).len() == 0 {
        seq![required]
    } else {
        opt(semver(version) is None, invalid)
    };
    lemma_codes_concat(first, second, a);
    assert(identity_findings(name, version) == first + second);
}

proof fn lemma_source_codes(source: Option<OntologyPackSource>)
    ensures
        codes_from(source_findings(source).0, source_codes()),
{
    let a = source_codes();
    assert(a[0] == "ontology_pack.source_missing"@ && a[1] == "ontology_pack.source_uri_required"@ && a[2]
        == "ontology_pack.source_uri_insecure"@ && a[3] == "ontology_pack.source_kind_required"@ && a[4]
        == "ontology_pack.source_kind_invalid"@);
    let r = source_findings(source).0;
    assert forall|i: int| 0 <= i < r.len() implies a.contains((#[trigger] r[i]).0) by {
        let c = r[i].0;
        assert(c == a[0] || c == a[1] || c == a[2] || c == a[3] || c == a[4]);
    }
}

proof fn lemma_signature_codes(sig: Option<OntologyPackSignature>, remote: bool)
    ensures
        codes_from(signature_findings(sig, remote), signature_codes()),
{
    let a = signature_codes();
    assert(a[0] == "ontology_pack.signature_algorithm_invalid"@ && a[1] == "ontology_pack.signature_unsigned_remote"@
        && a[2] == "ontology_pack.signature_value_required"@ && a[3] == "ontology_pack.signature_sha256_invalid"@
        && a[4] == "ontology_pack.signature_signed_by_required"@ && a[5]
        == "ontology_pack.signature_required_for_remote_source"@ && a[6] == "ontology_pack.signature_missing"@);
    let r = signature_findings(sig, remote);
    assert forall|i: int| 0 <= i < r.len() implies a.contains((#[trigger] r[i]).0) by {
        let c = r[i].0;
        assert(c == a[0] || c == a[1] || c == a[2] || c == a[3] || c == a[4] || c == a[5] || c == a[6]);
    }
}

proof fn lemma_node_type_codes(ts: Seq<Seq<char>>)
    ensures
        codes_from(node_type_findings(ts), node_type_codes()),
    decreases ts.len(),
{
    if ts.len() > 0 {
        lemma_node_type_codes(ts.drop_last());
        let a = node_type_codes();
        assert(a[0] == "ontology_pack.duplicate_node_type"@ && a[1] == "ontology_pack.invalid_node_type_name"@ && a[2]
            == "ontology_pack.duplicate_core_node_type"@);
        let o = one_node_type_findings(ts.last(), ts.drop_last().contains(ts.last()));
        assert forall|i: int| 0 <= i < o.len() implies a.contains((#[trigger] o[i]).0) by {
            let c = o[i].0;
            assert(c == a[0] || c == a[1] || c == a[2]);
        }
        lemma_codes_concat(node_type_findings(ts.drop_last()), o, a);
    }
}

proof fn lemma_edge_type_codes(ts: Seq<Seq<char>>)
    ensures
        codes_from(edge_type_findings(ts), edge_type_codes()),
    decreases ts.len(),
{
    if ts.len() > 0 {
        lemma_edge_type_codes(ts.drop_last());
        let a = edge_type_codes();
        assert(a[0] == "ontology_pack.duplicate_edge_type"@ && a[1] == "ontology_pack.invalid_edge_type_name"@ && a[2]
            == "ontology_pack.duplicate_core_edge_type"@);
        let o = one_edge_type_findings(ts.last(), ts.drop_last().contains(ts.last()));
        assert forall|i: int| 0 <= i < o.len() implies a.contains((#[trigger] o[i]).0) by {
            let c = o[i].0;
            assert(c == a[0] || c == a[1] || c == a[2]);
        }
        lemma_codes_concat(edge_type_findings(ts.drop_last()), o, a);
    }
}

proof fn lemma_migration_codes(ms: Seq<OntologyMigration>)
    ensures
        codes_from(migration_findings(ms), migration_codes()),
    decreases ms.len(),
{
    if ms.len() > 0 {
        lemma_migration_codes(ms.drop_last());
        let a = migration_codes();
        assert(a[0] == "ontology_pack.migration_from_required"@ && a[1] == "ontology_pack.migration_to_required"@ && a[2]
            == "ontology_pack.migration_description_required"@ && a[3] == "ontology_pack.migration_noop"@);
        let o = one_migration_findings(ms.last());
        assert forall|i: int| 0 <= i < o.len() implies a.contains((#[trigger] o[i]).0) by {
            let c = o[i].0;
            assert(c == a[0] || c == a[1] || c == a[2] || c == a[3]);
        }
        lemma_codes_concat(migration_findings(ms.drop_last()), o, a);
    }
}

/// Among the node-type findings of a pack, the duplicate-node-type errors
/// number the declared node types minus the distinct ones.
pub proof fn node_type_duplicates_counted(ts: Seq<Seq<char>>)
    ensures
        with_code(node_type_findings(ts), "ontology_pack.duplicate_node_type"@).len() == ts.len() - ts.to_set().len(),
    decreases ts.len(),
{
    broadcast use vstd::set::group_set_axioms, vstd::seq_lib::seq_to_set_is_finite;
    let code = "ontology_pack.duplicate_node_type"@;
    if ts.len() == 0 {
        reveal(Seq::filter);
        assert(ts.to_set() =~= Set::<Seq<char>>::empty());
    } else {
        let init = ts.drop_last();
        node_type_duplicates_counted(init);
        lemma_one_node_type_duplicates(ts.last(), init.contains(ts.last()));
        Seq::filter_distributes_over_add(
            node_type_findings(init),
            one_node_type_findings(ts.last(), init.contains(ts.last())),
            has_code(code),
        );
        assert(ts.to_set() =~= init.to_set().insert(ts.last())) by {
            assert forall|x: Seq<char>| ts.to_set().contains(x) <==> init.to_set().insert(ts.last()).contains(x) by {
                if ts.contains(x) {
                    let k = choose|k: int| 0 <= k < ts.len() && ts[k] == x;
                    if k < ts.len() - 1 {
                        assert(init[k] == x);
                    }
                }
                if init.contains(x) {
                    let k = choose|k: int| 0 <= k < init.len() && init[k] == x;
                    assert(ts[k] == x);
                }
                assert(ts[ts.len() - 1] == ts.last());
            }
        }
        assert(init.to_set().contains(ts.last()) == init.contains(ts.last()));
    }
}

/// The version is reported invalid exactly when it is not blank and does not
/// parse as `MAJOR.MINOR.PATCH`; a blank version is reported as required instead.
pub proof fn version_invalid_when_unparsable(name: Seq<char>, version: Seq<char>)
    ensures
        with_code(identity_findings(name, version), "ontology_pack.version_invalid"@).len() == (if trim(version).len()
            != 0 && semver(version) is None {
            1int
        } else {
            0int
        }),
{
    reveal_strlit("ontology_pack.name_required");
    reveal_strlit("ontology_pack.version_required");
    reveal_strlit("ontology_pack.version_invalid");
    reveal(Seq::filter);
    let code = "ontology_pack.version_invalid"@;
    let a = opt(trim(name).len() == 0, err("ontology_pack.name_required"@, "Ontology pack name is required"@));
    let invalid = err(
        code,
        "Ontology pack version `"@ + version + "` must use `MAJOR.MINOR.PATCH` semantic version format"@,
    );
    let required = err("ontology_pack.version_required"@, "Ontology pack version is required"@);
    let b = if trim(version).len() == 0 {
        seq![required]
    } else {
        opt(semver(version) is None, invalid)
    };
    assert("ontology_pack.name_required"@.len() == 27);
    assert("ontology_pack.version_required"@.len() == 30);
    assert("ontology_pack.version_invalid"@.len() == 29);
    assert(identity_findings(name, version) == a + b);
    Seq::filter_distributes_over_add(a, b, has_code(code));
    lemma_opt_with_code(
        trim(name).len() == 0,
        err("ontology_pack.name_required"@, "Ontology pack name is required"@),
        code,
    );
    if trim(version).len() == 0 {
        lemma_opt_with_code(true, required, code);
        assert(seq![required] == opt(true, required));
    } else {
        lemma_opt_with_code(semver(version) is None, invalid, code);
    }
}

proof fn lemma_with_code_pack(p: OntologyPackManifest, c: Seq<char>)
    ensures
        with_code(pack_findings(p), c).len() == with_code(identity_findings(p.name@, p.version@), c).len()
            + with_code(source_findings(p.source).0, c).len() + with_code(
            signature_findings(p.signature, source_findings(p.source).1),
            c,
        ).len() + with_code(node_type_findings(strings_view(p.node_types@)), c).len() + with_code(
            edge_type_findings(strings_view(p.edge_types@)),
            c,
        ).len() + with_code(migration_findings(p.migrations@), c).len(),
{
    let i = identity_findings(p.name@, p.version@);
    let so = source_findings(p.source).0;
    let g = signature_findings(p.signature, source_findings(p.source).1);
    let n = node_type_findings(strings_view(p.node_types@));
    let e = edge_type_findings(strings_view(p.edge_types@));
    let m = migration_findings(p.migrations@);
    assert(pack_findings(p) == i + so + g + n + e + m);
    Seq::filter_distributes_over_add(i + so + g + n + e, m, has_code(c));
    Seq::filter_distributes_over_add(i + so + g + n, e, has_code(c));
    Seq::filter_distributes_over_add(i + so + g, n, has_code(c));
    Seq::filter_distributes_over_add(i + so, g, has_code(c));
    Seq::filter_distributes_over_add(i, so, has_code(c));
}

/// Over a whole validation report: the duplicate-node-type errors number the
/// declared node types minus the distinct ones; `version_invalid` is reported,
/// once, exactly when the version is not blank and does not parse as
/// `MAJOR.MINOR.PATCH`; and no finding is a missing-migration finding.
pub proof fn pack_report_duplicates_and_version(p: OntologyPackManifest)
    ensures
        with_code(pack_findings(p), "ontology_pack.duplicate_node_type"@).len() == p.node_types@.len() - strings_view(
            p.node_types@,
        ).to_set().len(),
        with_code(pack_findings(p), "ontology_pack.version_invalid"@).len() == (if trim(p.version@).len() != 0
            && semver(p.version@) is None {
            1int
        } else {
            0int
        }),
        with_code(pack_findings(p), "ontology_pack.migration_missing"@).len() == 0,
{
    let dup = "ontology_pack.duplicate_node_type"@;
    let vi = "ontology_pack.version_invalid"@;
    let mm = "ontology_pack.migration_missing"@;
    let ts = strings_view(p.node_types@);
    let remote = source_findings(p.source).1;
    lemma_pack_code_names();
    lemma_identity_codes(p.name@, p.version@);
    lemma_source_codes(p.source);
    lemma_signature_codes(p.signature, remote);
    lemma_node_type_codes(ts);
    lemma_edge_type_codes(strings_view(p.edge_types@));
    lemma_migration_codes(p.migrations@);
    lemma_with_code_pack(p, dup);
    lemma_with_code_pack(p, vi);
    lemma_with_code_pack(p, mm);
    node_type_duplicates_counted(ts);
    version_invalid_when_unparsable(p.name@, p.version@);
    lemma_with_code_absent(identity_findings(p.name@, p.version@), dup, identity_codes());
    lemma_with_code_absent(identity_findings(p.name@, p.version@), mm, identity_codes());
    lemma_with_code_absent(source_findings(p.source).0, dup, source_codes());
    lemma_with_code_absent(source_findings(p.source).0, vi, source_codes());
    lemma_with_code_absent(source_findings(p.source).0, mm, source_codes());
    lemma_with_code_absent(signature_findings(p.signature, remote), dup, signature_codes());
    lemma_with_code_absent(signature_findings(p.signature, remote), vi, signature_codes());
    lemma_with_code_absent(signature_findings(p.signature, remote), mm, signature_codes());
    lemma_with_code_absent(node_type_findings(ts), vi, node_type_codes());
    lemma_with_code_absent(node_type_findings(ts), mm, node_type_codes());
    lemma_with_code_absent(edge_type_findings(strings_view(p.edge_types@)), dup, edge_type_codes());
    lemma_with_code_absent(edge_type_findings(strings_view(p.edge_types@)), vi, edge_type_codes());
    lemma_with_code_absent(edge_type_findings(strings_view(p.edge_types@)), mm, edge_type_codes());
    lemma_with_code_absent(migration_findings(p.migrations@), dup, migration_codes());
    lemma_with_code_absent(migration_findings(p.migrations@), vi, migration_codes());
    lemma_with_code_absent(migration_findings(p.migrations@), mm, migration_codes());
    assert(ts.len() == p.node_types@.len());
}

/// On an upgrade, the whole plan reports a missing migration, once, exactly
/// when no migration of the target leads from the installed version to the
/// target's.
pub proof fn upgrade_reports_missing_migration(current: Option<OntologyPackManifest>, target: OntologyPackManifest)
    requires
        planned_action(current, target) == OntologyMigrationAction::Upgrade,
    ensures
        with_code(pack_findings(target) + transition_findings(current, target), "ontology_pack.migration_missing"@).len()
            == (if planned_migrations(current, target).len() == 0 {
            1int
        } else {
            0int
        }),
{
    let mm = "ontology_pack.migration_missing"@;
    pack_report_duplicates_and_version(target);
    pack_move_table(current, target);
    let c = current->0;
    let nr = "ontology_pack.compatibility.node_type_removed"@;
    let er = "ontology_pack.compatibility.edge_type_removed"@;
    reveal_strlit("ontology_pack.compatibility.node_type_removed");
    reveal_strlit("ontology_pack.compatibility.edge_type_removed");
    reveal_strlit("ontology_pack.migration_missing");
    assert(nr.len() == 45 && er.len() == 45 && mm.len() == 31);
    let allowed = seq![nr, er];
    let a = removed_type_findings(strings_view(c.node_types@), strings_view(target.node_types@), target.name@, "node"@, nr);
    let b = removed_type_findings(strings_view(c.edge_types@), strings_view(target.edge_types@), target.name@, "edge"@, er);
    lemma_removed_codes(strings_view(c.node_types@), strings_view(target.node_types@), target.name@, "node"@, nr);
    lemma_removed_codes(strings_view(c.edge_types@), strings_view(target.edge_types@), target.name@, "edge"@, er);
    assert(allowed[0] == nr && allowed[1] == er);
    assert(codes_from(a, allowed));
    assert(codes_from(b, allowed));
    lemma_codes_concat(a, b, allowed);
    assert(compatibility_findings(c, target) == a + b);
    lemma_with_code_absent(a + b, mm, allowed);
    let missing = err(
        mm,
        "Pack `"@ + target.name@ + "` upgrade "@ + c.version@ + " -> "@ + target.version@
            + " requires a matching migration entry"@,
    );
    let m = matching_migrations(target.migrations@, c.version@, target.version@);
    lemma_opt_with_code(m.len() == 0, missing, mm);
    assert(transition_findings(current, target) == opt(m.len() == 0, missing) + (a + b));
    Seq::filter_distributes_over_add(opt(m.len() == 0, missing), a + b, has_code(mm));
    Seq::filter_distributes_over_add(pack_findings(target), transition_findings(current, target), has_code(mm));
}

/// Moving an installed pack to a target: a first install when nothing is
/// installed, a replacement across pack names, and by semantic version a
/// no-op, an upgrade or a downgrade (an install again where a version does
/// not parse). An upgrade carries the target's migrations from the
/// installed version to the target's, and is reported as missing its
/// migration exactly when there is none.
pub proof fn pack_move_table(current: Option<OntologyPackManifest>, target: OntologyPackManifest)
    ensures
        planned_action(current, target) == match current {
            None => OntologyMigrationAction::Install,
            Some(c) => if c.name@ != target.name@ {
                OntologyMigrationAction::Replace
            } else {
                match semver_order(c.version@, target.version@) {
                    Some(VersionOrder::Equal) => OntologyMigrationAction::Noop,
                    Some(VersionOrder::Less) => OntologyMigrationAction::Upgrade,
                    Some(VersionOrder::Greater) => OntologyMigrationAction::Downgrade,
                    None => OntologyMigrationAction::Install,
                }
            },
        },
        planned_action(current, target) != OntologyMigrationAction::Upgrade ==> planned_migrations(current, target).len()
            == 0,
        planned_action(current, target) == OntologyMigrationAction::Upgrade ==> match current {
            Some(c) => planned_migrations(current, target) == matching_migrations(
                target.migrations@,
                c.version@,
                target.version@,
            ),
            None => false,
        },
        planned_action(current, target) == OntologyMigrationAction::Upgrade ==> (planned_migrations(current, target).len()
            == 0 <==> exists|i: int|
            0 <= i < transition_findings(current, target).len() && (#[trigger] transition_findings(current, target)[i]).0
                == "ontology_pack.migration_missing"@),
{
    if planned_action(current, target) == OntologyMigrationAction::Upgrade {
        let c = current->0;
        let first = opt(
            matching_migrations(target.migrations@, c.version@, target.version@).len() == 0,
            err(
                "ontology_pack.migration_missing"@,
                "Pack `"@ + target.name@ + "` upgrade "@ + c.version@ + " -> "@ + target.version@
                    + " requires a matching migration entry"@,
            ),
        );
        let rest = compatibility_findings(c, target);
        let all = transition_findings(current, target);
        assert(all == first + rest);
        let nc = "ontology_pack.compatibility.node_type_removed"@;
        let ec = "ontology_pack.compatibility.edge_type_removed"@;
        lemma_removed_codes(strings_view(c.node_types@), strings_view(target.node_types@), target.name@, "node"@, nc);
        lemma_removed_codes(strings_view(c.edge_types@), strings_view(target.edge_types@), target.name@, "edge"@, ec);
        reveal_strlit("ontology_pack.migration_missing");
        reveal_strlit("ontology_pack.compatibility.node_type_removed");
        reveal_strlit("ontology_pack.compatibility.edge_type_removed");
        let rn = removed_type_findings(strings_view(c.node_types@), strings_view(target.node_types@), target.name@, "node"@, nc);
        let re = removed_type_findings(strings_view(c.edge_types@), strings_view(target.edge_types@), target.name@, "edge"@, ec);
        assert(rest == rn + re);
        if matching_migrations(target.migrations@, c.version@, target.version@).len() == 0 {
            assert(all[0] == first[0]);
        } else {
            assert(first.len() == 0);
            assert forall|i: int| 0 <= i < all.len() implies (#[trigger] all[i]).0 != "ontology_pack.migration_missing"@ by {
                assert(all[i] == rest[i]);
                if i < rn.len() {
                    assert(rest[i] == rn[i]);
                    assert(rn[i].0.len() != "ontology_pack.migration_missing"@.len());
                } else {
                    assert(rest[i] == re[i - rn.len()]);
                    assert(re[i - rn.len()].0.len() != "ontology_pack.migration_missing"@.len());
                }
            }
        }
    }
}

} // verus!
