//! Architecture packs: named sets of forbidden layer dependencies.

use crate::model::{Finding, FindingSeverity, findings_view, no_related, push_finding};
use crate::policy::{blank, is_blank_string};
use crate::text::{eq_chars, string_chars};
use vstd::prelude::*;

verus! {

#[derive(Debug, Clone, PartialEq, Eq)]
pub struct ArchitecturePack {
    pub name: String,
    pub version: String,
    pub forbidden_dependencies: Vec<ForbiddenDependencyRule>,
}

#[derive(Debug, Clone, PartialEq, Eq)]
pub struct ForbiddenDependencyRule {
    pub from_layer: String,
    pub to_layer: String,
    pub reason: String,
}

/// A dependency between layers that the architecture graph forbids.
#[derive(Debug, Clone, PartialEq, Eq)]
pub struct ForbiddenDependency {
    pub from_layer: String,
    pub to_layer: String,
    pub reason: String,
}

#[derive(Debug, Clone, PartialEq, Eq)]
pub struct ArchitecturePackValidationReport {
    pub pack: String,
    pub version: String,
    pub findings: Vec<Finding>,
}

pub open spec fn rule_view(r: ForbiddenDependencyRule) -> (Seq<char>, Seq<char>, Seq<char>) {
    (r.from_layer@, r.to_layer@, r.reason@)
}

pub open spec fn dependency_view(d: ForbiddenDependency) -> (Seq<char>, Seq<char>, Seq<char>) {
    (d.from_layer@, d.to_layer@, d.reason@)
}

impl ArchitecturePack {
    /// The pack's rules as forbidden dependencies, in order.
    pub fn to_forbidden_dependencies(&self) -> (r: Vec<ForbiddenDependency>)
        ensures
            r@.map_values(|d: ForbiddenDependency| dependency_view(d))
                == self.forbidden_dependencies@.map_values(|x: ForbiddenDependencyRule| rule_view(x)),
    {
        let mut out: Vec<ForbiddenDependency> = Vec::new();
        let mut i: usize = 0;
        while i < self.forbidden_dependencies.len()
            invariant
                i <= self.forbidden_dependencies@.len(),
                out@.map_values(|d: ForbiddenDependency| dependency_view(d))
                    == self.forbidden_dependencies@.take(i as int).map_values(
                    |x: ForbiddenDependencyRule| rule_view(x),
                ),
            decreases self.forbidden_dependencies@.len() - i,
        {
            let rule = &self.forbidden_dependencies[i];
            let ghost before = out@.map_values(|d: ForbiddenDependency| dependency_view(d));
            out.push(
                ForbiddenDependency {
                    from_layer: rule.from_layer.clone(),
                    to_layer: rule.to_layer.clone(),
                    reason: rule.reason.clone(),
                },
            );
            assert(out@.map_values(|d: ForbiddenDependency| dependency_view(d)) =~= before.push(
                rule_view(*rule),
            ));
            assert(self.forbidden_dependencies@.take(i + 1).map_values(
                |x: ForbiddenDependencyRule| rule_view(x),
            ) =~= self.forbidden_dependencies@.take(i as int).map_values(
                |x: ForbiddenDependencyRule| rule_view(x),
            ).push(rule_view(*rule)));
            i = i + 1;
        }
        assert(self.forbidden_dependencies@.take(self.forbidden_dependencies@.len() as int)
            =~= self.forbidden_dependencies@);
        out
    }
}

pub open spec fn err(code: Seq<char>, message: Seq<char>) -> Seq<(Seq<char>, FindingSeverity, Seq<char>)> {
    seq![(code, FindingSeverity::Error, message)]
}

/// What one rule is reported for: a blank layer, then a rule from a layer
/// to itself.
pub open spec fn rule_findings(r: ForbiddenDependencyRule) -> Seq<(Seq<char>, FindingSeverity, Seq<char>)> {
    (if blank(r.from_layer@) || blank(r.to_layer@) {
        err(
            "architecture_pack.boundary_layers_required"@,
            "Forbidden dependency rules require fromLayer and toLayer. Remediation: name both layers."@,
        )
    } else {
        Seq::empty()
    }) + (if r.from_layer@ == r.to_layer@ {
        err(
            "architecture_pack.self_dependency_rule"@,
            "Forbidden dependency rule cannot target the same layer. Remediation: remove or rename the rule."@,
        )
    } else {
        Seq::empty()
    })
}

pub open spec fn rules_findings(rs: Seq<ForbiddenDependencyRule>) -> Seq<(Seq<char>, FindingSeverity, Seq<char>)>
    decreases rs.len(),
{
    if rs.len() == 0 {
        Seq::empty()
    } else {
        rules_findings(rs.drop_last()) + rule_findings(rs.last())
    }
}

/// Everything a pack is reported for: a blank name, a blank version, then
/// each rule's findings.
pub open spec fn pack_findings(p: ArchitecturePack) -> Seq<(Seq<char>, FindingSeverity, Seq<char>)> {
    (if blank(p.name@) {
        err(
            "architecture_pack.name_required"@,
            "Architecture pack name is required. Remediation: provide a stable pack name."@,
        )
    } else {
        Seq::empty()
    }) + (if blank(p.version@) {
        err(
            "architecture_pack.version_required"@,
            "Architecture pack version is required. Remediation: provide a semantic version."@,
        )
    } else {
        Seq::empty()
    }) + rules_findings(p.forbidden_dependencies@)
}

/// How many findings of `fs` carry `code`.
pub open spec fn code_count(fs: Seq<(Seq<char>, FindingSeverity, Seq<char>)>, code: Seq<char>) -> nat
    decreases fs.len(),
{
    if fs.len() == 0 {
        0
    } else {
        code_count(fs.drop_last(), code) + if fs.last().0 == code {
            1nat
        } else {
            0nat
        }
    }
}

/// How many rules forbid a layer from depending on itself.
pub open spec fn self_rule_count(rs: Seq<ForbiddenDependencyRule>) -> nat
    decreases rs.len(),
{
    if rs.len() == 0 {
        0
    } else {
        self_rule_count(rs.drop_last()) + if rs.last().from_layer@ == rs.last().to_layer@ {
            1nat
        } else {
            0nat
        }
    }
}

/// How many rules leave a layer blank.
pub open spec fn blank_layer_count(rs: Seq<ForbiddenDependencyRule>) -> nat
    decreases rs.len(),
{
    if rs.len() == 0 {
        0
    } else {
        blank_layer_count(rs.drop_last()) + if blank(rs.last().from_layer@) || blank(rs.last().to_layer@) {
            1nat
        } else {
            0nat
        }
    }
}

proof fn lemma_code_count_add(
    a: Seq<(Seq<char>, FindingSeverity, Seq<char>)>,
    b: Seq<(Seq<char>, FindingSeverity, Seq<char>)>,
    code: Seq<char>,
)
    ensures
        code_count(a + b, code) == code_count(a, code) + code_count(b, code),
    decreases b.len(),
{
    if b.len() > 0 {
        lemma_code_count_add(a, b.drop_last(), code);
        assert((a + b).drop_last() =~= a + b.drop_last());
    }
}

proof fn lemma_code_count_one(code: Seq<char>, message: Seq<char>, c: Seq<char>)
    ensures
        code_count(err(code, message), c) == (if code == c {
            1int
        } else {
            0int
        }),
{
    let e = err(code, message);
    assert(e.drop_last() =~= Seq::<(Seq<char>, FindingSeverity, Seq<char>)>::empty());
    assert(code_count(e.drop_last(), c) == 0);
    assert(e.last().0 == code);
}

proof fn lemma_rule_counts(r: ForbiddenDependencyRule)
    ensures
        code_count(rule_findings(r), "architecture_pack.self_dependency_rule"@) == (if r.from_layer@ == r.to_layer@ {
            1int
        } else {
            0int
        }),
        code_count(rule_findings(r), "architecture_pack.boundary_layers_required"@) == (if blank(r.from_layer@)
            || blank(r.to_layer@) {
            1int
        } else {
            0int
        }),
{
    reveal_strlit("architecture_pack.boundary_layers_required");
    reveal_strlit("architecture_pack.self_dependency_rule");
    let bc = "architecture_pack.boundary_layers_required"@;
    let sc = "architecture_pack.self_dependency_rule"@;
    assert(bc.len() == 42 && sc.len() == 38);
    let bm = "Forbidden dependency rules require fromLayer and toLayer. Remediation: name both layers."@;
    let sm = "Forbidden dependency rule cannot target the same layer. Remediation: remove or rename the rule."@;
    let a: Seq<(Seq<char>, FindingSeverity, Seq<char>)> = if blank(r.from_layer@) || blank(r.to_layer@) {
        err(bc, bm)
    } else {
        Seq::empty()
    };
    let b: Seq<(Seq<char>, FindingSeverity, Seq<char>)> = if r.from_layer@ == r.to_layer@ {
        err(sc, sm)
    } else {
        Seq::empty()
    };
    assert(rule_findings(r) == a + b);
    lemma_code_count_add(a, b, sc);
    lemma_code_count_add(a, b, bc);
    lemma_code_count_one(bc, bm, sc);
    lemma_code_count_one(bc, bm, bc);
    lemma_code_count_one(sc, sm, sc);
    lemma_code_count_one(sc, sm, bc);
}

proof fn lemma_rules_counts(rs: Seq<ForbiddenDependencyRule>)
    ensures
        code_count(rules_findings(rs), "architecture_pack.self_dependency_rule"@) == self_rule_count(rs),
        code_count(rules_findings(rs), "architecture_pack.boundary_layers_required"@) == blank_layer_count(rs),
    decreases rs.len(),
{
    if rs.len() > 0 {
        lemma_rules_counts(rs.drop_last());
        lemma_rule_counts(rs.last());
        lemma_code_count_add(
            rules_findings(rs.drop_last()),
            rule_findings(rs.last()),
            "architecture_pack.self_dependency_rule"@,
        );
        lemma_code_count_add(
            rules_findings(rs.drop_last()),
            rule_findings(rs.last()),
            "architecture_pack.boundary_layers_required"@,
        );
    }
}

proof fn lemma_code_count_absent(fs: Seq<(Seq<char>, FindingSeverity, Seq<char>)>, c: Seq<char>)
    requires
        forall|i: int| 0 <= i < fs.len() ==> (#[trigger] fs[i]).0 != c,
    ensures
        code_count(fs, c) == 0,
    decreases fs.len(),
{
    if fs.len() > 0 {
        assert(fs.last() == fs[fs.len() - 1]);
        assert forall|i: int| 0 <= i < fs.drop_last().len() implies (#[trigger] fs.drop_last()[i]).0 != c by {
            assert(fs.drop_last()[i] == fs[i]);
        }
        lemma_code_count_absent(fs.drop_last(), c);
    }
}

proof fn lemma_rules_shape(rs: Seq<ForbiddenDependencyRule>)
    ensures
        forall|i: int|
            0 <= i < rules_findings(rs).len() ==> (#[trigger] rules_findings(rs)[i]).1 == FindingSeverity::Error && (
            rules_findings(rs)[i].0 == "architecture_pack.boundary_layers_required"@ || rules_findings(rs)[i].0
                == "architecture_pack.self_dependency_rule"@),
    decreases rs.len(),
{
    if rs.len() > 0 {
        lemma_rules_shape(rs.drop_last());
        let prev = rules_findings(rs.drop_last());
        let cur = rule_findings(rs.last());
        assert(rules_findings(rs) == prev + cur);
        assert forall|i: int| 0 <= i < rules_findings(rs).len() implies (#[trigger] rules_findings(rs)[i]).1
            == FindingSeverity::Error && (rules_findings(rs)[i].0 == "architecture_pack.boundary_layers_required"@
            || rules_findings(rs)[i].0 == "architecture_pack.self_dependency_rule"@) by {
            if i < prev.len() {
                assert(rules_findings(rs)[i] == prev[i]);
            } else {
                assert(rules_findings(rs)[i] == cur[i - prev.len()]);
            }
        }
    }
}

/// A pack is reported once for a blank name, once for a blank version, once
/// for each rule from a layer to itself and once for each rule that leaves a
/// layer blank; every finding is an error with one of those four codes.
pub proof fn architecture_rule_findings_counted(p: ArchitecturePack)
    ensures
        code_count(pack_findings(p), "architecture_pack.self_dependency_rule"@) == self_rule_count(
            p.forbidden_dependencies@,
        ),
        code_count(pack_findings(p), "architecture_pack.boundary_layers_required"@) == blank_layer_count(
            p.forbidden_dependencies@,
        ),
        code_count(pack_findings(p), "architecture_pack.name_required"@) == (if blank(p.name@) {
            1int
        } else {
            0int
        }),
        code_count(pack_findings(p), "architecture_pack.version_required"@) == (if blank(p.version@) {
            1int
        } else {
            0int
        }),
        forall|i: int|
            0 <= i < pack_findings(p).len() ==> (#[trigger] pack_findings(p)[i]).1 == FindingSeverity::Error && (
            pack_findings(p)[i].0 == "architecture_pack.name_required"@ || pack_findings(p)[i].0
                == "architecture_pack.version_required"@ || pack_findings(p)[i].0
                == "architecture_pack.boundary_layers_required"@ || pack_findings(p)[i].0
                == "architecture_pack.self_dependency_rule"@),
{
    reveal_strlit("architecture_pack.boundary_layers_required");
    reveal_strlit("architecture_pack.self_dependency_rule");
    reveal_strlit("architecture_pack.name_required");
    reveal_strlit("architecture_pack.version_required");
    let bc = "architecture_pack.boundary_layers_required"@;
    let sc = "architecture_pack.self_dependency_rule"@;
    let nc = "architecture_pack.name_required"@;
    let vc = "architecture_pack.version_required"@;
    assert(bc.len() == 42 && sc.len() == 38 && nc.len() == 31 && vc.len() == 34);
    let nm = "Architecture pack name is required. Remediation: provide a stable pack name."@;
    let vm = "Architecture pack version is required. Remediation: provide a semantic version."@;
    let a: Seq<(Seq<char>, FindingSeverity, Seq<char>)> = if blank(p.name@) {
        err(nc, nm)
    } else {
        Seq::empty()
    };
    let b: Seq<(Seq<char>, FindingSeverity, Seq<char>)> = if blank(p.version@) {
        err(vc, vm)
    } else {
        Seq::empty()
    };
    let r = rules_findings(p.forbidden_dependencies@);
    assert(pack_findings(p) == a + b + r);
    lemma_rules_counts(p.forbidden_dependencies@);
    lemma_code_count_add(a + b, r, sc);
    lemma_code_count_add(a, b, sc);
    lemma_code_count_add(a + b, r, bc);
    lemma_code_count_add(a, b, bc);
    lemma_code_count_one(nc, nm, sc);
    lemma_code_count_one(nc, nm, bc);
    lemma_code_count_one(vc, vm, sc);
    lemma_code_count_one(vc, vm, bc);
    lemma_rules_shape(p.forbidden_dependencies@);
    lemma_code_count_absent(r, nc);
    lemma_code_count_absent(r, vc);
    lemma_code_count_add(a + b, r, nc);
    lemma_code_count_add(a, b, nc);
    lemma_code_count_add(a + b, r, vc);
    lemma_code_count_add(a, b, vc);
    lemma_code_count_one(nc, nm, nc);
    lemma_code_count_one(nc, nm, vc);
    lemma_code_count_one(vc, vm, nc);
    lemma_code_count_one(vc, vm, vc);
    assert forall|i: int| 0 <= i < pack_findings(p).len() implies (#[trigger] pack_findings(p)[i]).1
        == FindingSeverity::Error && (pack_findings(p)[i].0 == nc || pack_findings(p)[i].0 == vc || pack_findings(p)[i].0
        == bc || pack_findings(p)[i].0 == sc) by {
        if i < a.len() {
            assert(pack_findings(p)[i] == a[i]);
        } else if i < a.len() + b.len() {
            assert(pack_findings(p)[i] == b[i - a.len()]);
        } else {
            assert(pack_findings(p)[i] == r[i - a.len() - b.len()]);
        }
    }
}

pub fn validate_architecture_pack(pack: &ArchitecturePack) -> (report: ArchitecturePackValidationReport)
    ensures
        report.pack@ == pack.name@,
        report.version@ == pack.version@,
        findings_view(report.findings@) == pack_findings(*pack),
        no_related(report.findings@),
{
    let mut findings: Vec<Finding> = Vec::new();
    let ghost none = Seq::<(Seq<char>, FindingSeverity, Seq<char>)>::empty();
    if is_blank_string(&pack.name) {
        push_finding(
            &mut findings,
            "architecture_pack.name_required",
            FindingSeverity::Error,
            String::from_str(
                "Architecture pack name is required. Remediation: provide a stable pack name.",
            ),
        );
    }
    if is_blank_string(&pack.version) {
        push_finding(
            &mut findings,
            "architecture_pack.version_required",
            FindingSeverity::Error,
            String::from_str(
                "Architecture pack version is required. Remediation: provide a semantic version.",
            ),
        );
    }
    let ghost f0 = findings_view(findings@);
    assert(f0 =~= (if blank(pack.name@) {
        err(
            "architecture_pack.name_required"@,
            "Architecture pack name is required. Remediation: provide a stable pack name."@,
        )
    } else {
        none
    }) + (if blank(pack.version@) {
        err(
            "architecture_pack.version_required"@,
            "Architecture pack version is required. Remediation: provide a semantic version."@,
        )
    } else {
        none
    }));
    let ghost rs = pack.forbidden_dependencies@;
    let mut i: usize = 0;
    while i < pack.forbidden_dependencies.len()
        invariant
            i <= rs.len(),
            rs == pack.forbidden_dependencies@,
            findings_view(findings@) == f0 + rules_findings(rs.take(i as int)),
            no_related(findings@),
        decreases rs.len() - i,
    {
        let rule = &pack.forbidden_dependencies[i];
        let ghost ff = findings_view(findings@);
        if is_blank_string(&rule.from_layer) || is_blank_string(&rule.to_layer) {
            push_finding(
                &mut findings,
                "architecture_pack.boundary_layers_required",
                FindingSeverity::Error,
                String::from_str(
                    "Forbidden dependency rules require fromLayer and toLayer. Remediation: name both layers.",
                ),
            );
        }
        if eq_chars(&string_chars(&rule.from_layer), &string_chars(&rule.to_layer)) {
            push_finding(
                &mut findings,
                "architecture_pack.self_dependency_rule",
                FindingSeverity::Error,
                String::from_str(
                    "Forbidden dependency rule cannot target the same layer. Remediation: remove or rename the rule.",
                ),
            );
        }
        assert(findings_view(findings@) =~= ff + rule_findings(*rule));
        assert(rs.take(i + 1).drop_last() =~= rs.take(i as int));
        assert(f0 + rules_findings(rs.take(i + 1)) =~= f0 + rules_findings(rs.take(i as int))
            + rule_findings(rs[i as int]));
        i = i + 1;
    }
    assert(rs.take(rs.len() as int) =~= rs);
    ArchitecturePackValidationReport {
        pack: pack.name.clone(),
        version: pack.version.clone(),
        findings,
    }
}

} // verus!
