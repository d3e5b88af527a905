//! Adoption of an existing repository: its source files observed as code
//! file nodes.

use crate::code_indexer::{extension, extension_of};
use crate::ids::{fragment_view, node_id};
use crate::model::{
    GraphDelta, JsonV, JsonValue, Node, NodeV, json_fields_view, lemma_fields_push, make_node,
    text_attr,
};
use crate::keyed::views;
use crate::text::{append, append_str, chars_of, eq_str, string_chars, string_of};
use vstd::prelude::*;

verus! {

/// The adapter that records adoption observations: the adoption scanner's
/// id, in the `specgraph.adapter.<name>/v1` scheme of the adapter ids (such
/// as the migration observer's).
pub const ADOPTION_ADAPTER_ID: &'static str = "specgraph.adapter.adoption-scanner/v1";

pub const SOURCE_TRUST_OBSERVATION: &'static str = "Observation";

pub const TRUST_STATE_OBSERVED: &'static str = "Observed";

/// How strictly an adopted repository is held to the graph.
#[derive(Debug, Clone, Copy, PartialEq, Eq, Structural)]
pub enum AdoptionMode {
    Observe,
    Warn,
    EnforceNewWork,
    Strict,
}

/// The mode's name as recorded on nodes.
pub open spec fn mode_name(mode: AdoptionMode) -> Seq<char> {
    match mode {
        AdoptionMode::Observe => "observe"@,
        AdoptionMode::Warn => "warn"@,
        AdoptionMode::EnforceNewWork => "enforce-new-work"@,
        AdoptionMode::Strict => "strict"@,
    }
}

impl AdoptionMode {
    pub fn as_str(self) -> (r: &'static str)
        ensures
            r@ == mode_name(self),
    {
        match self {
            AdoptionMode::Observe => "observe",
            AdoptionMode::Warn => "warn",
            AdoptionMode::EnforceNewWork => "enforce-new-work",
            AdoptionMode::Strict => "strict",
        }
    }
}

pub open spec fn source_extension(e: Seq<char>) -> bool {
    e == "rs"@ || e == "ts"@ || e == "tsx"@ || e == "js"@ || e == "jsx"@ || e == "py"@ || e == "go"@
        || e == "java"@ || e == "kt"@ || e == "swift"@
}

/// A file whose extension marks it as source code.
pub open spec fn source_like(path: Seq<char>) -> bool {
    match extension(path) {
        Some(e) => source_extension(e),
        None => false,
    }
}

pub fn is_source_like(path: &str) -> (r: bool)
    ensures
        r == source_like(path@),
{
    match extension_of(&chars_of(path)) {
        Some(e) => eq_str(&e, "rs") || eq_str(&e, "ts") || eq_str(&e, "tsx") || eq_str(&e, "js")
            || eq_str(&e, "jsx") || eq_str(&e, "py") || eq_str(&e, "go") || eq_str(&e, "java")
            || eq_str(&e, "kt") || eq_str(&e, "swift"),
        None => false,
    }
}

/// A directory entry the scan does not descend into or record.
pub open spec fn skipped_entry(name: Seq<char>) -> bool {
    name == ".git"@ || name == ".specgraph"@ || name == "target"@ || name == "node_modules"@
}

pub fn is_skipped_entry(name: &str) -> (r: bool)
    ensures
        r == skipped_entry(name@),
{
    let n = chars_of(name);
    eq_str(&n, ".git") || eq_str(&n, ".specgraph") || eq_str(&n, "target") || eq_str(
        &n,
        "node_modules",
    )
}

/// The code file node an adoption scan records for `file`.
pub open spec fn code_file_node(file: Seq<char>, mode: AdoptionMode) -> NodeV {
    NodeV {
        id: "node"@ + "_"@ + fragment_view("code_file"@) + "_"@ + fragment_view(file),
        stable_key: "code-file:"@ + file,
        node_type: "CodeFile"@,
        attributes: seq![
            ("adoptionMode"@, JsonV::Text(mode_name(mode))),
            ("observedBy"@, JsonV::Text(ADOPTION_ADAPTER_ID@)),
            ("path"@, JsonV::Text(file)),
            ("sourceTrust"@, JsonV::Text(SOURCE_TRUST_OBSERVATION@)),
            ("trustState"@, JsonV::Text(TRUST_STATE_OBSERVED@)),
        ],
    }
}

fn adopted_file_node(file: &str, mode: AdoptionMode) -> (n: Node)
    ensures
        n@ == code_file_node(file@, mode),
{
    let mut attrs: Vec<(String, JsonValue)> = Vec::new();
    let a0 = text_attr("adoptionMode", mode.as_str());
    let a1 = text_attr("observedBy", ADOPTION_ADAPTER_ID);
    let a2 = text_attr("path", file);
    let a3 = text_attr("sourceTrust", SOURCE_TRUST_OBSERVATION);
    let a4 = text_attr("trustState", TRUST_STATE_OBSERVED);
    proof {
        lemma_fields_push(attrs@, a0);
    }
    attrs.push(a0);
    proof {
        lemma_fields_push(attrs@, a1);
    }
    attrs.push(a1);
    proof {
        lemma_fields_push(attrs@, a2);
    }
    attrs.push(a2);
    proof {
        lemma_fields_push(attrs@, a3);
    }
    attrs.push(a3);
    proof {
        lemma_fields_push(attrs@, a4);
    }
    attrs.push(a4);
    assert(json_fields_view(Seq::<(String, JsonValue)>::empty()) =~= Seq::empty());
    let mut key = chars_of("code-file:");
    append(&mut key, &chars_of(file));
    let n = make_node(node_id("code_file", file), string_of(&key), "CodeFile", attrs);
    assert(n@.attributes =~= code_file_node(file@, mode).attributes);
    n
}

/// The delta an adoption scan produces from the files it found: one code
/// file node per file, in the order found, and nothing else.
pub fn adoption_delta(files: &Vec<String>, mode: AdoptionMode) -> (d: GraphDelta)
    ensures
        views(d.create_nodes@) == files@.map_values(|f: String| code_file_node(f@, mode)),
        d.update_nodes@.len() == 0,
        d.delete_nodes@.len() == 0,
        d.create_edges@.len() == 0,
        d.update_edges@.len() == 0,
        d.delete_edges@.len() == 0,
{
    let mut d = GraphDelta::empty();
    let mut i: usize = 0;
    while i < files.len()
        invariant
            i <= files@.len(),
            views(d.create_nodes@) == files@.take(i as int).map_values(|f: String| code_file_node(f@, mode)),
            d.update_nodes@.len() == 0,
            d.delete_nodes@.len() == 0,
            d.create_edges@.len() == 0,
            d.update_edges@.len() == 0,
            d.delete_edges@.len() == 0,
        decreases files@.len() - i,
    {
        let n = adopted_file_node(files[i].as_str(), mode);
        let ghost before = views(d.create_nodes@);
        d.create_nodes.push(n);
        assert(views(d.create_nodes@) =~= before.push(code_file_node(files@[i as int]@, mode)));
        assert(files@.take(i + 1).map_values(|f: String| code_file_node(f@, mode)) =~= files@.take(
            i as int,
        ).map_values(|f: String| code_file_node(f@, mode)).push(code_file_node(files@[i as int]@, mode)));
        i = i + 1;
    }
    assert(files@.take(files@.len() as int) =~= files@);
    d
}

} // verus!
