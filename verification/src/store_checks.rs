//! What the store's consistency checks report of stored snapshots and
//! branch metadata, given what a replay of the event log gives back.

use crate::keyed::views;
use crate::model::{finding_full, new_finding, Finding, FindingSeverity};
use crate::store::BranchMetadata;
use crate::store_ops::{edge_id_list, edge_ids, node_id_list, node_ids, opt_view, Snapshot};
use crate::test_runner::{decimal_text, push_decimal};
use crate::text::{append, append_str, chars_of, string_chars, string_of, strings_view};
use vstd::prelude::*;

verus! {

pub type FullFinding = (Seq<char>, FindingSeverity, Seq<char>, Seq<Seq<char>>, Seq<Seq<char>>);

pub open spec fn plain_error(code: Seq<char>, message: Seq<char>) -> FullFinding {
    (code, FindingSeverity::Error, message, Seq::empty(), Seq::empty())
}

fn push_dec(m: &mut Vec<char>, n: u64)
    ensures
        final(m)@ == old(m)@ + decimal_text(n as nat),
{
    push_decimal(m, n);
}

// ------------------------------------------------------------ snapshots

/// A snapshot that claims an event the log does not reach.
pub open spec fn snapshot_ahead_message(id: Seq<char>, seq: u64, last: u64, file: Seq<char>) -> Seq<char> {
    "Snapshot `"@ + id + "` references event sequence "@ + decimal_text(seq as nat) + " but event log ends at "@
        + decimal_text(last as nat) + ". Remediation: delete and rebuild stale snapshot `"@ + file + "`."@
}

/// Where a snapshot's event sequence lies beyond the log's last event, the
/// finding that reports it; else none.
pub fn snapshot_sequence_finding(snapshot: &Snapshot, file: &str, last_sequence: u64) -> (r: Option<Finding>)
    ensures
        snapshot.event_sequence > last_sequence ==> (r matches Some(f) && finding_full(f) == plain_error(
            "snapshot.event_sequence_ahead"@,
            snapshot_ahead_message(snapshot.snapshot_id@, snapshot.event_sequence, last_sequence, file@),
        )),
        snapshot.event_sequence <= last_sequence ==> r is None,
{
    if snapshot.event_sequence <= last_sequence {
        return None;
    }
    let mut m = chars_of("Snapshot `");
    append(&mut m, &string_chars(&snapshot.snapshot_id));
    append_str(&mut m, "` references event sequence ");
    push_dec(&mut m, snapshot.event_sequence);
    append_str(&mut m, " but event log ends at ");
    push_dec(&mut m, last_sequence);
    append_str(&mut m, ". Remediation: delete and rebuild stale snapshot `");
    append_str(&mut m, file);
    append_str(&mut m, "`.");
    let f = new_finding("snapshot.event_sequence_ahead", FindingSeverity::Error, string_of(&m));
    assert(strings_view(f.related_nodes@) =~= Seq::<Seq<char>>::empty());
    assert(strings_view(f.related_edges@) =~= Seq::<Seq<char>>::empty());
    Some(f)
}

/// What a snapshot within the log is reported for: a state hash other than
/// the replay's at its event, then an embedded graph that hashes otherwise
/// than it declares (naming each of its nodes and edges).
pub open spec fn snapshot_hash_findings_of(
    id: Seq<char>,
    declared: Seq<char>,
    seq: u64,
    file: Seq<char>,
    replay_hash: Seq<char>,
    embedded_hash: Seq<char>,
    nodes: Seq<Seq<char>>,
    edges: Seq<Seq<char>>,
) -> Seq<FullFinding> {
    (if replay_hash != declared {
        seq![
            plain_error(
                "snapshot.replay_hash_mismatch"@,
                "Snapshot `"@ + id + "` stateHash `"@ + declared + "` does not match replay hash `"@ + replay_hash
                    + "` at event sequence "@ + decimal_text(seq as nat)
                    + ". Remediation: delete and rebuild snapshot `"@ + file + "` from the event log."@,
            ),
        ]
    } else {
        Seq::empty()
    }) + (if embedded_hash != declared {
        seq![
            (
                "snapshot.embedded_graph_hash_mismatch"@,
                FindingSeverity::Error,
                "Snapshot `"@ + id + "` embedded graph hashes to `"@ + embedded_hash + "` but declares `"@ + declared
                    + "`. Remediation: delete and rebuild snapshot `"@ + file + "` from the event log."@,
                nodes,
                edges,
            ),
        ]
    } else {
        Seq::empty()
    })
}

/// The hash findings of a snapshot within the log (see
/// `snapshot_hash_findings_of`), given the replay's state hash at the
/// snapshot's event and the hash of its embedded graph.
pub fn snapshot_hash_findings(snapshot: &Snapshot, file: &str, replay_hash: &String, embedded_hash: &String) -> (r: Vec<
    Finding,
>)
    ensures
        r@.map_values(|f: Finding| finding_full(f)) == snapshot_hash_findings_of(
            snapshot.snapshot_id@,
            snapshot.state_hash@,
            snapshot.event_sequence,
            file@,
            replay_hash@,
            embedded_hash@,
            node_ids(views(snapshot.nodes@)),
            edge_ids(views(snapshot.edges@)),
        ),
{
    let mut out: Vec<Finding> = Vec::new();
    let id = string_chars(&snapshot.snapshot_id);
    let declared = string_chars(&snapshot.state_hash);
    let replay = string_chars(replay_hash);
    let embedded = string_chars(embedded_hash);
    let ghost e0 = out@.map_values(|f: Finding| finding_full(f));
    assert(e0 =~= Seq::<FullFinding>::empty());
    if !crate::text::eq_chars(&replay, &declared) {
        let mut m = chars_of("Snapshot `");
        append(&mut m, &id);
        append_str(&mut m, "` stateHash `");
        append(&mut m, &declared);
        append_str(&mut m, "` does not match replay hash `");
        append(&mut m, &replay);
        append_str(&mut m, "` at event sequence ");
        push_dec(&mut m, snapshot.event_sequence);
        append_str(&mut m, ". Remediation: delete and rebuild snapshot `");
        append_str(&mut m, file);
        append_str(&mut m, "` from the event log.");
        let f = new_finding("snapshot.replay_hash_mismatch", FindingSeverity::Error, string_of(&m));
        assert(strings_view(f.related_nodes@) =~= Seq::<Seq<char>>::empty());
        assert(strings_view(f.related_edges@) =~= Seq::<Seq<char>>::empty());
        out.push(f);
    }
    let ghost e1 = out@.map_values(|f: Finding| finding_full(f));
    if !crate::text::eq_chars(&embedded, &declared) {
        let mut m = chars_of("Snapshot `");
        append(&mut m, &id);
        append_str(&mut m, "` embedded graph hashes to `");
        append(&mut m, &embedded);
        append_str(&mut m, "` but declares `");
        append(&mut m, &declared);
        append_str(&mut m, "`. Remediation: delete and rebuild snapshot `");
        append_str(&mut m, file);
        append_str(&mut m, "` from the event log.");
        let nodes = node_id_list(&snapshot.nodes);
        let edges = edge_id_list(&snapshot.edges);
        let f = Finding {
            code: String::from_str("snapshot.embedded_graph_hash_mismatch"),
            severity: FindingSeverity::Error,
            message: string_of(&m),
            related_nodes: nodes,
            related_edges: edges,
        };
        out.push(f);
    }
    assert(out@.map_values(|f: Finding| finding_full(f)) =~= snapshot_hash_findings_of(
        snapshot.snapshot_id@,
        snapshot.state_hash@,
        snapshot.event_sequence,
        file@,
        replay_hash@,
        embedded_hash@,
        node_ids(views(snapshot.nodes@)),
        edge_ids(views(snapshot.edges@)),
    ));
    out
}

// ------------------------------------------------------------ branch metadata

/// What `format!("{:?}", ..)` writes for an optional text.
pub uninterp spec fn option_debug(o: Option<Seq<char>>) -> Seq<char>;

/// `format!("{:?}", value)` of an optional text (`None`, or `Some("…")`
/// with the text escaped as Rust's `Debug` escapes strings). Stated only
/// through `option_debug`.
#[verifier::external_body]
fn debug_option_text(value: &Option<String>) -> (r: String)
    ensures
        r@ == option_debug(opt_view(*value)),
{
    format!("{value:?}")
}

/// What branch metadata is reported for, before any replay: a schema
/// version other than the current one, then a base event beyond the log's
/// last event.
pub open spec fn branch_static_findings(m: BranchMetadata, file: Seq<char>, last: u64) -> Seq<FullFinding> {
    (if m.schema_version@ != "specgraph.branch-metadata/v1"@ {
        seq![
            plain_error(
                "branch_metadata.schema_version"@,
                "Branch metadata `"@ + file + "` has unsupported schemaVersion `"@ + m.schema_version@
                    + "`. Remediation: rebuild branch metadata from the current graph branch binding."@,
            ),
        ]
    } else {
        Seq::empty()
    }) + (if m.base_event_sequence > last {
        seq![
            plain_error(
                "branch_metadata.sequence_ahead"@,
                "Branch `"@ + m.branch@ + "` base event sequence "@ + decimal_text(m.base_event_sequence as nat)
                    + " is ahead of event log sequence "@ + decimal_text(last as nat)
                    + ". Remediation: recreate the branch binding from a valid replay state."@,
            ),
        ]
    } else {
        Seq::empty()
    })
}

/// What branch metadata within the log is reported for against the replay
/// at its base event: a base state hash other than the replay's, then a
/// base event id other than the replay's last one.
pub open spec fn branch_replay_findings(m: BranchMetadata, replay_hash: Seq<char>, replay_event: Option<Seq<char>>) -> Seq<
    FullFinding,
> {
    (if replay_hash != m.base_state_hash@ {
        seq![
            plain_error(
                "branch_metadata.state_hash_mismatch"@,
                "Branch `"@ + m.branch@ + "` baseStateHash `"@ + m.base_state_hash@ + "` does not match replay hash `"@
                    + replay_hash + "` at sequence "@ + decimal_text(m.base_event_sequence as nat)
                    + ". Remediation: recreate the branch binding or rebuild branch metadata."@,
            ),
        ]
    } else {
        Seq::empty()
    }) + (if replay_event != opt_view(m.base_event_id) {
        seq![
            plain_error(
                "branch_metadata.event_id_mismatch"@,
                "Branch `"@ + m.branch@ + "` baseEventId `"@ + option_debug(opt_view(m.base_event_id))
                    + "` does not match replay event id `"@ + option_debug(replay_event) + "` at sequence "@
                    + decimal_text(m.base_event_sequence as nat)
                    + ". Remediation: recreate the branch binding from the canonical event log."@,
            ),
        ]
    } else {
        Seq::empty()
    })
}

fn push_error(out: &mut Vec<Finding>, code: &str, m: &Vec<char>)
    ensures
        final(out)@.map_values(|f: Finding| finding_full(f)) == old(out)@.map_values(|f: Finding| finding_full(f)).push(
            plain_error(code@, m@),
        ),
{
    let f = new_finding(code, FindingSeverity::Error, string_of(m));
    assert(strings_view(f.related_nodes@) =~= Seq::<Seq<char>>::empty());
    assert(strings_view(f.related_edges@) =~= Seq::<Seq<char>>::empty());
    let ghost before = out@;
    out.push(f);
    assert(out@.map_values(|f: Finding| finding_full(f)) =~= before.map_values(|f: Finding| finding_full(f)).push(
        plain_error(code@, m@),
    ));
}

/// The findings of branch metadata read from `file` that need no replay
/// (see `branch_static_findings`).
pub fn branch_metadata_static_findings(metadata: &BranchMetadata, file: &str, last_sequence: u64) -> (r: Vec<Finding>)
    ensures
        r@.map_values(|f: Finding| finding_full(f)) == branch_static_findings(*metadata, file@, last_sequence),
{
    let mut out: Vec<Finding> = Vec::new();
    assert(out@.map_values(|f: Finding| finding_full(f)) =~= Seq::<FullFinding>::empty());
    if !crate::text::eq_str(&string_chars(&metadata.schema_version), "specgraph.branch-metadata/v1") {
        let mut m = chars_of("Branch metadata `");
        append_str(&mut m, file);
        append_str(&mut m, "` has unsupported schemaVersion `");
        append(&mut m, &string_chars(&metadata.schema_version));
        append_str(&mut m, "`. Remediation: rebuild branch metadata from the current graph branch binding.");
        push_error(&mut out, "branch_metadata.schema_version", &m);
    }
    if metadata.base_event_sequence > last_sequence {
        let mut m = chars_of("Branch `");
        append(&mut m, &string_chars(&metadata.branch));
        append_str(&mut m, "` base event sequence ");
        push_dec(&mut m, metadata.base_event_sequence);
        append_str(&mut m, " is ahead of event log sequence ");
        push_dec(&mut m, last_sequence);
        append_str(&mut m, ". Remediation: recreate the branch binding from a valid replay state.");
        push_error(&mut out, "branch_metadata.sequence_ahead", &m);
    }
    assert(out@.map_values(|f: Finding| finding_full(f)) =~= branch_static_findings(*metadata, file@, last_sequence));
    out
}

/// The findings of branch metadata against the replay at its base event
/// (see `branch_replay_findings`).
pub fn branch_metadata_replay_findings(
    metadata: &BranchMetadata,
    replay_hash: &String,
    replay_event_id: &Option<String>,
) -> (r: Vec<Finding>)
    ensures
        r@.map_values(|f: Finding| finding_full(f)) == branch_replay_findings(
            *metadata,
            replay_hash@,
            opt_view(*replay_event_id),
        ),
{
    let mut out: Vec<Finding> = Vec::new();
    assert(out@.map_values(|f: Finding| finding_full(f)) =~= Seq::<FullFinding>::empty());
    if !crate::text::eq_chars(&string_chars(replay_hash), &string_chars(&metadata.base_state_hash)) {
        let mut m = chars_of("Branch `");
        append(&mut m, &string_chars(&metadata.branch));
        append_str(&mut m, "` baseStateHash `");
        append(&mut m, &string_chars(&metadata.base_state_hash));
        append_str(&mut m, "` does not match replay hash `");
        append(&mut m, &string_chars(replay_hash));
        append_str(&mut m, "` at sequence ");
        push_dec(&mut m, metadata.base_event_sequence);
        append_str(&mut m, ". Remediation: recreate the branch binding or rebuild branch metadata.");
        push_error(&mut out, "branch_metadata.state_hash_mismatch", &m);
    }
    let same = match (replay_event_id, &metadata.base_event_id) {
        (Some(a), Some(b)) => crate::text::eq_chars(&string_chars(a), &string_chars(b)),
        (None, None) => true,
        _ => false,
    };
    if !same {
        let mut m = chars_of("Branch `");
        append(&mut m, &string_chars(&metadata.branch));
        append_str(&mut m, "` baseEventId `");
        append(&mut m, &string_chars(&debug_option_text(&metadata.base_event_id)));
        append_str(&mut m, "` does not match replay event id `");
        append(&mut m, &string_chars(&debug_option_text(replay_event_id)));
        append_str(&mut m, "` at sequence ");
        push_dec(&mut m, metadata.base_event_sequence);
        append_str(&mut m, ". Remediation: recreate the branch binding from the canonical event log.");
        push_error(&mut out, "branch_metadata.event_id_mismatch", &m);
    }
    assert(out@.map_values(|f: Finding| finding_full(f)) =~= branch_replay_findings(
        *metadata,
        replay_hash@,
        opt_view(*replay_event_id),
    ));
    out
}

} // verus!
