//! Git repository facts and the graph node ids they are recorded under.

use crate::ids::{stable_view, stable_id1, stable_id2, stable_id3};
use crate::keyed::views;
use crate::model::{
    DeltaBuilder, Edge, EdgeV, Finding, FindingSeverity, Graph, GraphDelta, JsonV, JsonValue, Node, NodeV,
    attr_text, edge_of, fields_text, findings_full, json_fields_view, make_edge, make_node, opt_string_view,
    opt_text, push_opt, push_related_finding, push_text,
};
use crate::text::{eq_chars, eq_str, msg3, msg5, msg7, strings_view};
use crate::text::{append, append_str, chars_of, replace, replace_str, string_chars, string_of};
use vstd::prelude::*;

verus! {

pub const SOURCE_TRUST_OBSERVATION: &'static str = "Observation";

pub const TRUST_STATE_OBSERVED: &'static str = "Observed";

#[derive(Debug, Clone, PartialEq, Eq)]
pub struct GitGraphProjection {
    pub project_node_id: String,
    pub remotes: Vec<GitRemoteFact>,
    pub branches: Vec<GitBranchFact>,
    pub commits: Vec<GitCommitFact>,
    pub tags: Vec<GitTagFact>,
    pub merges: Vec<GitMergeFact>,
    pub releases: Vec<GitReleaseFact>,
    pub pull_requests: Vec<PullRequestFact>,
}

#[derive(Debug, Clone, PartialEq, Eq)]
pub struct GitRemoteFact {
    pub name: String,
    pub url: String,
}

#[derive(Debug, Clone, PartialEq, Eq)]
pub struct GitBranchFact {
    pub name: String,
    pub head: Option<String>,
    pub remote: Option<String>,
}

#[derive(Debug, Clone, PartialEq, Eq)]
pub struct GitCommitFact {
    pub sha: String,
    pub parent_shas: Vec<String>,
    pub message: Option<String>,
}

#[derive(Debug, Clone, PartialEq, Eq)]
pub struct GitTagFact {
    pub name: String,
    pub target: String,
}

#[derive(Debug, Clone, PartialEq, Eq)]
pub struct GitMergeFact {
    pub id: String,
    pub base: String,
    pub head: String,
    pub result: String,
}

#[derive(Debug, Clone, PartialEq, Eq)]
pub struct GitReleaseFact {
    pub version: String,
    pub tag: String,
    pub commit: String,
    pub spec: Option<String>,
    pub validation_run_id: Option<String>,
    pub url: Option<String>,
    pub evidence_path: Option<String>,
    pub evidence_file_hash: Option<String>,
    pub graph_snapshot_id: Option<String>,
    pub artifacts: Vec<ReleaseArtifactFact>,
}

#[derive(Debug, Clone, PartialEq, Eq)]
pub struct ReleaseArtifactFact {
    pub path: String,
    pub platform: String,
    pub checksum_algorithm: String,
    pub checksum_value: String,
    pub evidence_file_hash: String,
}

#[derive(Debug, Clone, PartialEq, Eq, Default)]
pub struct PullRequestFact {
    pub provider: String,
    pub number: String,
    pub branch: String,
    pub target_branch: String,
    pub state: String,
    pub title: Option<String>,
    pub url: Option<String>,
    pub author: Option<String>,
    pub head_sha: Option<String>,
    pub base_sha: Option<String>,
    pub validation_run_id: Option<String>,
    pub observed_by: Option<String>,
    pub observed_at: Option<String>,
}

/// Lower-case `-`-separated identifier fragment of `value`, `unknown` when empty.
pub fn stable(value: &str) -> (r: String)
    ensures
        r@ == stable_view(value@),
{
    crate::ids::stable(value)
}

pub fn remote_node_id(name: &str) -> (r: String)
    ensures
        r@ == "node_git_remote"@ + "_"@ + stable_view(name@),
{
    stable_id1("node_git_remote", name)
}

pub fn branch_node_id(name: &str) -> (r: String)
    ensures
        r@ == "node_git_branch"@ + "_"@ + stable_view(name@),
{
    stable_id1("node_git_branch", name)
}

pub fn commit_node_id(sha: &str) -> (r: String)
    ensures
        r@ == "node_git_commit"@ + "_"@ + stable_view(sha@),
{
    stable_id1("node_git_commit", sha)
}

pub fn tag_node_id(name: &str) -> (r: String)
    ensures
        r@ == "node_git_tag"@ + "_"@ + stable_view(name@),
{
    stable_id1("node_git_tag", name)
}

pub fn merge_node_id(id: &str) -> (r: String)
    ensures
        r@ == "node_git_merge"@ + "_"@ + stable_view(id@),
{
    stable_id1("node_git_merge", id)
}

pub fn pull_request_node_id(provider: &str, number: &str) -> (r: String)
    ensures
        r@ == "node_pull_request"@ + "_"@ + stable_view(provider@) + "_"@ + stable_view(number@),
{
    stable_id2("node_pull_request", provider, number)
}

pub fn release_node_id(version: &str) -> (r: String)
    ensures
        r@ == "node_release"@ + "_"@ + stable_view(version@),
{
    stable_id1("node_release", version)
}

pub fn graph_snapshot_node_id(snapshot_id: &str) -> (r: String)
    ensures
        r@ == "node_graph_snapshot"@ + "_"@ + stable_view(snapshot_id@),
{
    stable_id1("node_graph_snapshot", snapshot_id)
}

pub fn release_evidence_node_id(version: &str) -> (r: String)
    ensures
        r@ == "node_release_evidence"@ + "_"@ + stable_view(version@),
{
    stable_id1("node_release_evidence", version)
}

pub fn release_artifact_node_id(version: &str, path: &str) -> (r: String)
    ensures
        r@ == "node_release_artifact"@ + "_"@ + stable_view(version@) + "_"@ + stable_view(path@),
{
    stable_id2("node_release_artifact", version, path)
}

pub fn artifact_checksum_node_id(version: &str, path: &str, algorithm: &str) -> (r: String)
    ensures
        r@ == "node_artifact_checksum"@ + "_"@ + stable_view(version@) + "_"@ + stable_view(path@)
            + "_"@ + stable_view(algorithm@),
{
    stable_id3("node_artifact_checksum", version, path, algorithm)
}

/// `node_validation_run_` and the fragment of `run_id` with `-` turned into `_`.
pub fn validation_run_node_id(run_id: &str) -> (r: String)
    ensures
        r@ == "node_validation_run_"@ + replace(stable_view(run_id@), "-"@, "_"@),
{
    proof {
        reveal_strlit("-");
    }
    let s = crate::ids::stable(run_id);
    let replaced = replace_str(&string_chars(&s), "-", "_");
    let mut out = chars_of("node_validation_run_");
    crate::text::append(&mut out, &replaced);
    string_of(&out)
}

// ------------------------------------------------------------ projection

pub open spec fn remote_id(name: Seq<char>) -> Seq<char> {
    "node_git_remote"@ + "_"@ + stable_view(name)
}

pub open spec fn branch_id(name: Seq<char>) -> Seq<char> {
    "node_git_branch"@ + "_"@ + stable_view(name)
}

pub open spec fn commit_id(sha: Seq<char>) -> Seq<char> {
    "node_git_commit"@ + "_"@ + stable_view(sha)
}

pub open spec fn tag_id(name: Seq<char>) -> Seq<char> {
    "node_git_tag"@ + "_"@ + stable_view(name)
}

pub open spec fn merge_id(id: Seq<char>) -> Seq<char> {
    "node_git_merge"@ + "_"@ + stable_view(id)
}

pub open spec fn pr_id(provider: Seq<char>, number: Seq<char>) -> Seq<char> {
    "node_pull_request"@ + "_"@ + stable_view(provider) + "_"@ + stable_view(number)
}

pub open spec fn release_id(version: Seq<char>) -> Seq<char> {
    "node_release"@ + "_"@ + stable_view(version)
}

pub open spec fn snapshot_id(id: Seq<char>) -> Seq<char> {
    "node_graph_snapshot"@ + "_"@ + stable_view(id)
}

pub open spec fn evidence_id(version: Seq<char>) -> Seq<char> {
    "node_release_evidence"@ + "_"@ + stable_view(version)
}

pub open spec fn artifact_id(version: Seq<char>, path: Seq<char>) -> Seq<char> {
    "node_release_artifact"@ + "_"@ + stable_view(version) + "_"@ + stable_view(path)
}

pub open spec fn checksum_id(version: Seq<char>, path: Seq<char>, algorithm: Seq<char>) -> Seq<char> {
    "node_artifact_checksum"@ + "_"@ + stable_view(version) + "_"@ + stable_view(path) + "_"@ + stable_view(algorithm)
}

pub open spec fn run_id(run: Seq<char>) -> Seq<char> {
    "node_validation_run_"@ + replace(stable_view(run), "-"@, "_"@)
}

pub open spec fn osv(o: Option<String>) -> Option<Seq<char>> {
    opt_string_view(o)
}

pub open spec fn remote_nodev(name: Seq<char>, url: Seq<char>) -> NodeV {
    NodeV {
        id: remote_id(name),
        stable_key: "git-remote:"@ + stable_view(name),
        node_type: "GitRemote"@,
        attributes: seq![("name"@, JsonV::Text(name)), ("url"@, JsonV::Text(url))],
    }
}

pub open spec fn branch_nodev(name: Seq<char>, head: Option<Seq<char>>) -> NodeV {
    NodeV {
        id: branch_id(name),
        stable_key: "git-branch:"@ + name,
        node_type: "GitBranch"@,
        attributes: seq![("head"@, opt_text(head)), ("name"@, JsonV::Text(name))],
    }
}

pub open spec fn commit_nodev(sha: Seq<char>, message: Option<Seq<char>>) -> NodeV {
    NodeV {
        id: commit_id(sha),
        stable_key: "git-commit:"@ + sha,
        node_type: "GitCommit"@,
        attributes: seq![("message"@, opt_text(message)), ("sha"@, JsonV::Text(sha))],
    }
}

pub open spec fn tag_nodev(name: Seq<char>, target: Seq<char>) -> NodeV {
    NodeV {
        id: tag_id(name),
        stable_key: "git-tag:"@ + stable_view(name),
        node_type: "GitTag"@,
        attributes: seq![("name"@, JsonV::Text(name)), ("target"@, JsonV::Text(target))],
    }
}

pub open spec fn merge_nodev(m: GitMergeFact) -> NodeV {
    NodeV {
        id: merge_id(m.id@),
        stable_key: "git-merge:"@ + stable_view(m.id@),
        node_type: "GitMerge"@,
        attributes: seq![
            ("base"@, JsonV::Text(m.base@)),
            ("head"@, JsonV::Text(m.head@)),
            ("result"@, JsonV::Text(m.result@)),
        ],
    }
}

pub open spec fn release_nodev(r: GitReleaseFact) -> NodeV {
    NodeV {
        id: release_id(r.version@),
        stable_key: "release:"@ + stable_view(r.version@),
        node_type: "Release"@,
        attributes: seq![
            ("commit"@, JsonV::Text(r.commit@)),
            ("evidenceFileHash"@, opt_text(osv(r.evidence_file_hash))),
            ("evidencePath"@, opt_text(osv(r.evidence_path))),
            ("graphSnapshotId"@, opt_text(osv(r.graph_snapshot_id))),
            ("spec"@, opt_text(osv(r.spec))),
            ("tag"@, JsonV::Text(r.tag@)),
            ("url"@, opt_text(osv(r.url))),
            ("validationRunId"@, opt_text(osv(r.validation_run_id))),
            ("version"@, JsonV::Text(r.version@)),
        ],
    }
}

pub open spec fn snapshot_nodev(id: Seq<char>) -> NodeV {
    NodeV {
        id: snapshot_id(id),
        stable_key: "graph-snapshot:"@ + stable_view(id),
        node_type: "GraphSnapshot"@,
        attributes: seq![("snapshotId"@, JsonV::Text(id))],
    }
}

pub open spec fn evidence_nodev(r: GitReleaseFact) -> NodeV {
    NodeV {
        id: evidence_id(r.version@),
        stable_key: "release-evidence:"@ + stable_view(r.version@),
        node_type: "ReleaseEvidence"@,
        attributes: seq![
            ("evidenceFileHash"@, opt_text(osv(r.evidence_file_hash))),
            ("path"@, opt_text(osv(r.evidence_path))),
            ("version"@, JsonV::Text(r.version@)),
        ],
    }
}

pub open spec fn artifact_nodev(r: GitReleaseFact, a: ReleaseArtifactFact) -> NodeV {
    NodeV {
        id: artifact_id(r.version@, a.path@),
        stable_key: "release-artifact:"@ + stable_view(r.version@) + "/"@ + stable_view(a.path@),
        node_type: "ReleaseArtifact"@,
        attributes: seq![
            ("evidenceFileHash"@, JsonV::Text(a.evidence_file_hash@)),
            ("path"@, JsonV::Text(a.path@)),
            ("platform"@, JsonV::Text(a.platform@)),
            ("version"@, JsonV::Text(r.version@)),
        ],
    }
}

pub open spec fn checksum_nodev(r: GitReleaseFact, a: ReleaseArtifactFact) -> NodeV {
    NodeV {
        id: checksum_id(r.version@, a.path@, a.checksum_algorithm@),
        stable_key: "artifact-checksum:"@ + stable_view(r.version@) + "/"@ + stable_view(a.path@) + "/"@
            + stable_view(a.checksum_algorithm@),
        node_type: "ArtifactChecksum"@,
        attributes: seq![
            ("algorithm"@, JsonV::Text(a.checksum_algorithm@)),
            ("artifactPath"@, JsonV::Text(a.path@)),
            ("value"@, JsonV::Text(a.checksum_value@)),
            ("version"@, JsonV::Text(r.version@)),
        ],
    }
}

pub open spec fn pr_nodev(p: PullRequestFact) -> NodeV {
    NodeV {
        id: pr_id(p.provider@, p.number@),
        stable_key: "pull-request:"@ + stable_view(p.provider@) + "/"@ + stable_view(p.number@),
        node_type: "PullRequest"@,
        attributes: seq![
            ("author"@, opt_text(osv(p.author))),
            ("baseSha"@, opt_text(osv(p.base_sha))),
            ("headSha"@, opt_text(osv(p.head_sha))),
            ("number"@, JsonV::Text(p.number@)),
            ("observedAt"@, opt_text(osv(p.observed_at))),
            ("observedBy"@, JsonV::Text(match p.observed_by {
                Some(o) => o@,
                None => "adapter:hosting"@,
            })),
            ("provider"@, JsonV::Text(p.provider@)),
            ("sourceTrust"@, JsonV::Text(SOURCE_TRUST_OBSERVATION@)),
            ("state"@, JsonV::Text(p.state@)),
            ("title"@, opt_text(osv(p.title))),
            ("trustState"@, JsonV::Text(TRUST_STATE_OBSERVED@)),
            ("url"@, opt_text(osv(p.url))),
            ("validationRunId"@, opt_text(osv(p.validation_run_id))),
        ],
    }
}

pub open spec fn opt_seq<A>(o: Option<Seq<char>>, f: spec_fn(Seq<char>) -> A) -> Seq<A> {
    match o {
        Some(x) => seq![f(x)],
        None => Seq::empty(),
    }
}

pub open spec fn branch_edges(project: Seq<char>, name: Seq<char>, head: Option<Seq<char>>, remote: Option<Seq<char>>) -> Seq<EdgeV> {
    let bid = branch_id(name);
    seq![edge_of(project, "HAS_GIT_BRANCH"@, bid)] + match remote {
        Some(r) => seq![edge_of(bid, "TRACKS_REMOTE"@, remote_id(r))],
        None => Seq::empty(),
    } + match head {
        Some(h) => seq![edge_of(bid, "POINTS_TO_COMMIT"@, commit_id(h))],
        None => Seq::empty(),
    }
}

pub open spec fn parent_edges(cid: Seq<char>, parents: Seq<Seq<char>>) -> Seq<EdgeV>
    decreases parents.len(),
{
    if parents.len() == 0 {
        Seq::empty()
    } else {
        parent_edges(cid, parents.drop_last()).push(edge_of(cid, "PARENT_COMMIT"@, commit_id(parents.last())))
    }
}

pub open spec fn commit_edges(project: Seq<char>, sha: Seq<char>, parents: Seq<Seq<char>>) -> Seq<EdgeV> {
    seq![edge_of(project, "HAS_GIT_COMMIT"@, commit_id(sha))] + parent_edges(commit_id(sha), parents)
}

fn add_branch(b: &mut DeltaBuilder, project: &str, name: &str, head: &Option<String>, remote: &Option<String>)
    ensures
        final(b).node_log() == old(b).node_log().push(branch_nodev(name@, osv(*head))),
        final(b).edge_log() == old(b).edge_log() + branch_edges(project@, name@, osv(*head), osv(*remote)),
{
    let mut attrs: Vec<(String, JsonValue)> = Vec::new();
    assert(json_fields_view(attrs@) =~= Seq::empty());
    push_opt(&mut attrs, "head", head);
    push_text(&mut attrs, "name", name);
    let mut key = chars_of("git-branch:");
    append(&mut key, &chars_of(name));
    assert(json_fields_view(attrs@) =~= branch_nodev(name@, osv(*head)).attributes);
    let n = make_node(branch_node_id(name), string_of(&key), "GitBranch", attrs);
    assert(n@ == branch_nodev(name@, osv(*head)));
    b.add_node(n);
    let ghost e0 = b.edge_log();
    let bid = branch_node_id(name);
    b.add_edge(make_edge(project, "HAS_GIT_BRANCH", bid.as_str()));
    let ghost e1 = b.edge_log();
    if let Some(r) = remote {
        b.add_edge(make_edge(bid.as_str(), "TRACKS_REMOTE", remote_node_id(r.as_str()).as_str()));
    }
    let ghost e2 = b.edge_log();
    assert(e2 == e1 + match osv(*remote) {
        Some(r) => seq![edge_of(bid@, "TRACKS_REMOTE"@, remote_id(r))],
        None => Seq::<EdgeV>::empty(),
    });
    if let Some(h) = head {
        b.add_edge(make_edge(bid.as_str(), "POINTS_TO_COMMIT", commit_node_id(h.as_str()).as_str()));
    }
    assert(b.edge_log() =~= e0 + branch_edges(project@, name@, osv(*head), osv(*remote)));
}

fn add_commit(b: &mut DeltaBuilder, project: &str, sha: &str, parents: &Vec<String>, message: &Option<String>)
    ensures
        final(b).node_log() == old(b).node_log().push(commit_nodev(sha@, osv(*message))),
        final(b).edge_log() == old(b).edge_log() + commit_edges(project@, sha@, crate::text::strings_view(parents@)),
{
    let mut attrs: Vec<(String, JsonValue)> = Vec::new();
    assert(json_fields_view(attrs@) =~= Seq::empty());
    push_opt(&mut attrs, "message", message);
    push_text(&mut attrs, "sha", sha);
    let mut key = chars_of("git-commit:");
    append(&mut key, &chars_of(sha));
    assert(json_fields_view(attrs@) =~= commit_nodev(sha@, osv(*message)).attributes);
    let n = make_node(commit_node_id(sha), string_of(&key), "GitCommit", attrs);
    assert(n@ == commit_nodev(sha@, osv(*message)));
    b.add_node(n);
    let ghost e0 = b.edge_log();
    let cid = commit_node_id(sha);
    b.add_edge(make_edge(project, "HAS_GIT_COMMIT", cid.as_str()));
    let ghost e1 = b.edge_log();
    let ghost ps = crate::text::strings_view(parents@);
    let mut i: usize = 0;
    while i < parents.len()
        invariant
            i <= ps.len(),
            ps == crate::text::strings_view(parents@),
            cid@ == commit_id(sha@),
            b.node_log() == old(b).node_log().push(commit_nodev(sha@, osv(*message))),
            b.edge_log() == e1 + parent_edges(cid@, ps.take(i as int)),
        decreases ps.len() - i,
    {
        b.add_edge(make_edge(cid.as_str(), "PARENT_COMMIT", commit_node_id(parents[i].as_str()).as_str()));
        assert(ps.take(i + 1).drop_last() =~= ps.take(i as int));
        assert(ps[i as int] == parents@[i as int]@);
        i = i + 1;
    }
    assert(ps.take(ps.len() as int) =~= ps);
    assert(b.edge_log() =~= e0 + commit_edges(project@, sha@, ps));
}

fn add_tag_node(b: &mut DeltaBuilder, name: &str, target: &str)
    ensures
        final(b).node_log() == old(b).node_log().push(tag_nodev(name@, target@)),
        final(b).edge_log() == old(b).edge_log(),
{
    let mut attrs: Vec<(String, JsonValue)> = Vec::new();
    assert(json_fields_view(attrs@) =~= Seq::empty());
    push_text(&mut attrs, "name", name);
    push_text(&mut attrs, "target", target);
    let mut key = chars_of("git-tag:");
    append(&mut key, &string_chars(&stable(name)));
    assert(json_fields_view(attrs@) =~= tag_nodev(name@, target@).attributes);
    let n = make_node(tag_node_id(name), string_of(&key), "GitTag", attrs);
    b.add_node(n);
}

pub open spec fn remote_item_edges(project: Seq<char>, r: GitRemoteFact) -> Seq<EdgeV> {
    seq![edge_of(project, "HAS_GIT_REMOTE"@, remote_id(r.name@))]
}

pub open spec fn tag_item_edges(project: Seq<char>, t: GitTagFact) -> Seq<EdgeV> {
    seq![
        edge_of(project, "HAS_GIT_TAG"@, tag_id(t.name@)),
        edge_of(tag_id(t.name@), "TAGS_COMMIT"@, commit_id(t.target@)),
    ]
}

pub open spec fn merge_item_edges(m: GitMergeFact) -> Seq<EdgeV> {
    seq![
        edge_of(merge_id(m.id@), "MERGES_BASE"@, commit_id(m.base@)),
        edge_of(merge_id(m.id@), "MERGES_HEAD"@, commit_id(m.head@)),
        edge_of(merge_id(m.id@), "PRODUCES_COMMIT"@, commit_id(m.result@)),
    ]
}

pub open spec fn has_evidence(r: GitReleaseFact) -> bool {
    r.evidence_path is Some || r.evidence_file_hash is Some
}

pub open spec fn artifacts_nodes(r: GitReleaseFact, arts: Seq<ReleaseArtifactFact>) -> Seq<NodeV>
    decreases arts.len(),
{
    if arts.len() == 0 {
        Seq::empty()
    } else {
        artifacts_nodes(r, arts.drop_last()) + seq![artifact_nodev(r, arts.last()), checksum_nodev(r, arts.last())]
    }
}

pub open spec fn artifacts_edges(r: GitReleaseFact, arts: Seq<ReleaseArtifactFact>) -> Seq<EdgeV>
    decreases arts.len(),
{
    if arts.len() == 0 {
        Seq::empty()
    } else {
        let a = arts.last();
        let rid = release_id(r.version@);
        let aid = artifact_id(r.version@, a.path@);
        let cid = checksum_id(r.version@, a.path@, a.checksum_algorithm@);
        artifacts_edges(r, arts.drop_last()) + seq![
            edge_of(rid, "RELEASE_HAS_ARTIFACT"@, aid),
            edge_of(rid, "RELEASE_HAS_CHECKSUM"@, cid),
            edge_of(aid, "ARTIFACT_HAS_CHECKSUM"@, cid),
        ]
    }
}

pub open spec fn release_item_nodes(r: GitReleaseFact) -> Seq<NodeV> {
    seq![release_nodev(r), tag_nodev(r.tag@, r.commit@), commit_nodev(r.commit@, None)]
        + match osv(r.graph_snapshot_id) {
        Some(id) => seq![snapshot_nodev(id)],
        None => Seq::empty(),
    } + (if has_evidence(r) {
        seq![evidence_nodev(r)]
    } else {
        Seq::empty()
    }) + artifacts_nodes(r, r.artifacts@)
}

pub open spec fn release_item_edges(project: Seq<char>, r: GitReleaseFact) -> Seq<EdgeV> {
    let rid = release_id(r.version@);
    seq![
        edge_of(project, "HAS_RELEASE"@, rid),
        edge_of(rid, "RELEASES_TAG"@, tag_id(r.tag@)),
        edge_of(rid, "RELEASES_COMMIT"@, commit_id(r.commit@)),
    ] + match osv(r.validation_run_id) {
        Some(run) => seq![edge_of(rid, "RELEASE_HAS_VALIDATION_RUN"@, run_id(run))],
        None => Seq::empty(),
    } + match osv(r.graph_snapshot_id) {
        Some(id) => seq![edge_of(rid, "RELEASE_HAS_SNAPSHOT"@, snapshot_id(id))],
        None => Seq::empty(),
    } + (if has_evidence(r) {
        seq![edge_of(rid, "RELEASE_HAS_EVIDENCE"@, evidence_id(r.version@))]
    } else {
        Seq::empty()
    }) + artifacts_edges(r, r.artifacts@)
}

pub open spec fn pr_item_nodes(p: PullRequestFact) -> Seq<NodeV> {
    seq![branch_nodev(p.branch@, osv(p.head_sha)), branch_nodev(p.target_branch@, osv(p.base_sha))]
        + match osv(p.head_sha) {
        Some(h) => seq![commit_nodev(h, None)],
        None => Seq::empty(),
    } + match osv(p.base_sha) {
        Some(h) => seq![commit_nodev(h, None)],
        None => Seq::empty(),
    } + seq![pr_nodev(p)]
}

pub open spec fn pr_item_edges(project: Seq<char>, p: PullRequestFact) -> Seq<EdgeV> {
    let pid = pr_id(p.provider@, p.number@);
    branch_edges(project, p.branch@, osv(p.head_sha), None) + branch_edges(
        project,
        p.target_branch@,
        osv(p.base_sha),
        None,
    ) + match osv(p.head_sha) {
        Some(h) => commit_edges(project, h, Seq::empty()),
        None => Seq::empty(),
    } + match osv(p.base_sha) {
        Some(h) => commit_edges(project, h, Seq::empty()),
        None => Seq::empty(),
    } + seq![
        edge_of(project, "HAS_PULL_REQUEST"@, pid),
        edge_of(pid, "PR_FROM_BRANCH"@, branch_id(p.branch@)),
        edge_of(pid, "PR_TARGET_BRANCH"@, branch_id(p.target_branch@)),
    ] + match osv(p.head_sha) {
        Some(h) => seq![edge_of(pid, "PR_HEAD_COMMIT"@, commit_id(h))],
        None => Seq::empty(),
    } + match osv(p.base_sha) {
        Some(h) => seq![edge_of(pid, "PR_BASE_COMMIT"@, commit_id(h))],
        None => Seq::empty(),
    } + match osv(p.validation_run_id) {
        Some(run) => seq![edge_of(pid, "PR_HAS_VALIDATION_RUN"@, run_id(run))],
        None => Seq::empty(),
    }
}

fn add_remote(b: &mut DeltaBuilder, project: &str, r: &GitRemoteFact)
    ensures
        final(b).node_log() == old(b).node_log().push(remote_nodev(r.name@, r.url@)),
        final(b).edge_log() == old(b).edge_log() + remote_item_edges(project@, *r),
{
    let mut attrs: Vec<(String, JsonValue)> = Vec::new();
    assert(json_fields_view(attrs@) =~= Seq::empty());
    push_text(&mut attrs, "name", r.name.as_str());
    push_text(&mut attrs, "url", r.url.as_str());
    let mut key = chars_of("git-remote:");
    append(&mut key, &string_chars(&stable(r.name.as_str())));
    assert(json_fields_view(attrs@) =~= remote_nodev(r.name@, r.url@).attributes);
    b.add_node(make_node(remote_node_id(r.name.as_str()), string_of(&key), "GitRemote", attrs));
    let ghost e0 = b.edge_log();
    b.add_edge(make_edge(project, "HAS_GIT_REMOTE", remote_node_id(r.name.as_str()).as_str()));
    assert(b.edge_log() =~= e0 + remote_item_edges(project@, *r));
}

fn add_tag(b: &mut DeltaBuilder, project: &str, t: &GitTagFact)
    ensures
        final(b).node_log() == old(b).node_log().push(tag_nodev(t.name@, t.target@)),
        final(b).edge_log() == old(b).edge_log() + tag_item_edges(project@, *t),
{
    add_tag_node(b, t.name.as_str(), t.target.as_str());
    let ghost e0 = b.edge_log();
    let tid = tag_node_id(t.name.as_str());
    b.add_edge(make_edge(project, "HAS_GIT_TAG", tid.as_str()));
    b.add_edge(make_edge(tid.as_str(), "TAGS_COMMIT", commit_node_id(t.target.as_str()).as_str()));
    assert(b.edge_log() =~= e0 + tag_item_edges(project@, *t));
}

fn add_merge(b: &mut DeltaBuilder, m: &GitMergeFact)
    ensures
        final(b).node_log() == old(b).node_log().push(merge_nodev(*m)),
        final(b).edge_log() == old(b).edge_log() + merge_item_edges(*m),
{
    let mut attrs: Vec<(String, JsonValue)> = Vec::new();
    assert(json_fields_view(attrs@) =~= Seq::empty());
    push_text(&mut attrs, "base", m.base.as_str());
    push_text(&mut attrs, "head", m.head.as_str());
    push_text(&mut attrs, "result", m.result.as_str());
    let mut key = chars_of("git-merge:");
    append(&mut key, &string_chars(&stable(m.id.as_str())));
    assert(json_fields_view(attrs@) =~= merge_nodev(*m).attributes);
    b.add_node(make_node(merge_node_id(m.id.as_str()), string_of(&key), "GitMerge", attrs));
    let ghost e0 = b.edge_log();
    let mid = merge_node_id(m.id.as_str());
    b.add_edge(make_edge(mid.as_str(), "MERGES_BASE", commit_node_id(m.base.as_str()).as_str()));
    b.add_edge(make_edge(mid.as_str(), "MERGES_HEAD", commit_node_id(m.head.as_str()).as_str()));
    b.add_edge(make_edge(mid.as_str(), "PRODUCES_COMMIT", commit_node_id(m.result.as_str()).as_str()));
    assert(b.edge_log() =~= e0 + merge_item_edges(*m));
}

fn release_node(r: &GitReleaseFact) -> (n: Node)
    ensures
        n@ == release_nodev(*r),
{
    let mut attrs: Vec<(String, JsonValue)> = Vec::new();
    assert(json_fields_view(attrs@) =~= Seq::empty());
    push_text(&mut attrs, "commit", r.commit.as_str());
    push_opt(&mut attrs, "evidenceFileHash", &r.evidence_file_hash);
    push_opt(&mut attrs, "evidencePath", &r.evidence_path);
    push_opt(&mut attrs, "graphSnapshotId", &r.graph_snapshot_id);
    push_opt(&mut attrs, "spec", &r.spec);
    push_text(&mut attrs, "tag", r.tag.as_str());
    push_opt(&mut attrs, "url", &r.url);
    push_opt(&mut attrs, "validationRunId", &r.validation_run_id);
    push_text(&mut attrs, "version", r.version.as_str());
    let mut key = chars_of("release:");
    append(&mut key, &string_chars(&stable(r.version.as_str())));
    assert(json_fields_view(attrs@) =~= release_nodev(*r).attributes);
    make_node(release_node_id(r.version.as_str()), string_of(&key), "Release", attrs)
}

fn evidence_node(r: &GitReleaseFact) -> (n: Node)
    ensures
        n@ == evidence_nodev(*r),
{
    let mut attrs: Vec<(String, JsonValue)> = Vec::new();
    assert(json_fields_view(attrs@) =~= Seq::empty());
    push_opt(&mut attrs, "evidenceFileHash", &r.evidence_file_hash);
    push_opt(&mut attrs, "path", &r.evidence_path);
    push_text(&mut attrs, "version", r.version.as_str());
    let mut key = chars_of("release-evidence:");
    append(&mut key, &string_chars(&stable(r.version.as_str())));
    assert(json_fields_view(attrs@) =~= evidence_nodev(*r).attributes);
    make_node(release_evidence_node_id(r.version.as_str()), string_of(&key), "ReleaseEvidence", attrs)
}

fn snapshot_node(id: &str) -> (n: Node)
    ensures
        n@ == snapshot_nodev(id@),
{
    let mut attrs: Vec<(String, JsonValue)> = Vec::new();
    assert(json_fields_view(attrs@) =~= Seq::empty());
    push_text(&mut attrs, "snapshotId", id);
    let mut key = chars_of("graph-snapshot:");
    append(&mut key, &string_chars(&stable(id)));
    assert(json_fields_view(attrs@) =~= snapshot_nodev(id@).attributes);
    make_node(graph_snapshot_node_id(id), string_of(&key), "GraphSnapshot", attrs)
}

fn artifact_node(r: &GitReleaseFact, a: &ReleaseArtifactFact) -> (n: Node)
    ensures
        n@ == artifact_nodev(*r, *a),
{
    let mut attrs: Vec<(String, JsonValue)> = Vec::new();
    assert(json_fields_view(attrs@) =~= Seq::empty());
    push_text(&mut attrs, "evidenceFileHash", a.evidence_file_hash.as_str());
    push_text(&mut attrs, "path", a.path.as_str());
    push_text(&mut attrs, "platform", a.platform.as_str());
    push_text(&mut attrs, "version", r.version.as_str());
    let mut key = chars_of("release-artifact:");
    append(&mut key, &string_chars(&stable(r.version.as_str())));
    append_str(&mut key, "/");
    append(&mut key, &string_chars(&stable(a.path.as_str())));
    assert(json_fields_view(attrs@) =~= artifact_nodev(*r, *a).attributes);
    make_node(release_artifact_node_id(r.version.as_str(), a.path.as_str()), string_of(&key), "ReleaseArtifact", attrs)
}

fn checksum_node(r: &GitReleaseFact, a: &ReleaseArtifactFact) -> (n: Node)
    ensures
        n@ == checksum_nodev(*r, *a),
{
    let mut attrs: Vec<(String, JsonValue)> = Vec::new();
    assert(json_fields_view(attrs@) =~= Seq::empty());
    push_text(&mut attrs, "algorithm", a.checksum_algorithm.as_str());
    push_text(&mut attrs, "artifactPath", a.path.as_str());
    push_text(&mut attrs, "value", a.checksum_value.as_str());
    push_text(&mut attrs, "version", r.version.as_str());
    let mut key = chars_of("artifact-checksum:");
    append(&mut key, &string_chars(&stable(r.version.as_str())));
    append_str(&mut key, "/");
    append(&mut key, &string_chars(&stable(a.path.as_str())));
    append_str(&mut key, "/");
    append(&mut key, &string_chars(&stable(a.checksum_algorithm.as_str())));
    assert(json_fields_view(attrs@) =~= checksum_nodev(*r, *a).attributes);
    make_node(
        artifact_checksum_node_id(r.version.as_str(), a.path.as_str(), a.checksum_algorithm.as_str()),
        string_of(&key),
        "ArtifactChecksum",
        attrs,
    )
}

fn add_release(b: &mut DeltaBuilder, project: &str, r: &GitReleaseFact)
    ensures
        final(b).node_log() == old(b).node_log() + release_item_nodes(*r),
        final(b).edge_log() == old(b).edge_log() + release_item_edges(project@, *r),
{
    let ghost n0 = b.node_log();
    let ghost e0 = b.edge_log();
    let rid = release_node_id(r.version.as_str());
    b.add_node(release_node(r));
    b.add_edge(make_edge(project, "HAS_RELEASE", rid.as_str()));
    add_tag_node(b, r.tag.as_str(), r.commit.as_str());
    let no_message: Option<String> = None;
    let no_parents: Vec<String> = Vec::new();
    let mut attrs: Vec<(String, JsonValue)> = Vec::new();
    assert(json_fields_view(attrs@) =~= Seq::empty());
    push_opt(&mut attrs, "message", &no_message);
    push_text(&mut attrs, "sha", r.commit.as_str());
    let mut key = chars_of("git-commit:");
    append(&mut key, &string_chars(&r.commit));
    assert(json_fields_view(attrs@) =~= commit_nodev(r.commit@, None).attributes);
    b.add_node(make_node(commit_node_id(r.commit.as_str()), string_of(&key), "GitCommit", attrs));
    b.add_edge(make_edge(rid.as_str(), "RELEASES_TAG", tag_node_id(r.tag.as_str()).as_str()));
    b.add_edge(make_edge(rid.as_str(), "RELEASES_COMMIT", commit_node_id(r.commit.as_str()).as_str()));
    let ghost n1 = b.node_log();
    let ghost e1 = b.edge_log();
    if let Some(run) = &r.validation_run_id {
        b.add_edge(make_edge(rid.as_str(), "RELEASE_HAS_VALIDATION_RUN", validation_run_node_id(run.as_str()).as_str()));
    }
    let ghost e2 = b.edge_log();
    if let Some(snap) = &r.graph_snapshot_id {
        b.add_node(snapshot_node(snap.as_str()));
        b.add_edge(make_edge(rid.as_str(), "RELEASE_HAS_SNAPSHOT", graph_snapshot_node_id(snap.as_str()).as_str()));
    }
    let ghost n3 = b.node_log();
    let ghost e3 = b.edge_log();
    if r.evidence_path.is_some() || r.evidence_file_hash.is_some() {
        b.add_node(evidence_node(r));
        b.add_edge(make_edge(rid.as_str(), "RELEASE_HAS_EVIDENCE", release_evidence_node_id(r.version.as_str()).as_str()));
    }
    let ghost n4 = b.node_log();
    let ghost e4 = b.edge_log();
    let ghost arts = r.artifacts@;
    let mut i: usize = 0;
    while i < r.artifacts.len()
        invariant
            i <= arts.len(),
            arts == r.artifacts@,
            rid@ == release_id(r.version@),
            b.node_log() == n4 + artifacts_nodes(*r, arts.take(i as int)),
            b.edge_log() == e4 + artifacts_edges(*r, arts.take(i as int)),
        decreases arts.len() - i,
    {
        let a = &r.artifacts[i];
        let aid = release_artifact_node_id(r.version.as_str(), a.path.as_str());
        let cid = artifact_checksum_node_id(r.version.as_str(), a.path.as_str(), a.checksum_algorithm.as_str());
        b.add_node(artifact_node(r, a));
        b.add_node(checksum_node(r, a));
        b.add_edge(make_edge(rid.as_str(), "RELEASE_HAS_ARTIFACT", aid.as_str()));
        b.add_edge(make_edge(rid.as_str(), "RELEASE_HAS_CHECKSUM", cid.as_str()));
        b.add_edge(make_edge(aid.as_str(), "ARTIFACT_HAS_CHECKSUM", cid.as_str()));
        assert(arts.take(i + 1).drop_last() =~= arts.take(i as int));
        assert(b.node_log() =~= n4 + artifacts_nodes(*r, arts.take(i + 1)));
        assert(b.edge_log() =~= e4 + artifacts_edges(*r, arts.take(i + 1)));
        i = i + 1;
    }
    assert(arts.take(arts.len() as int) =~= arts);
    assert(b.node_log() =~= n0 + release_item_nodes(*r));
    assert(b.edge_log() =~= e0 + release_item_edges(project@, *r));
}

fn pr_node(p: &PullRequestFact) -> (n: Node)
    ensures
        n@ == pr_nodev(*p),
{
    let mut attrs: Vec<(String, JsonValue)> = Vec::new();
    assert(json_fields_view(attrs@) =~= Seq::empty());
    push_opt(&mut attrs, "author", &p.author);
    push_opt(&mut attrs, "baseSha", &p.base_sha);
    push_opt(&mut attrs, "headSha", &p.head_sha);
    push_text(&mut attrs, "number", p.number.as_str());
    push_opt(&mut attrs, "observedAt", &p.observed_at);
    match &p.observed_by {
        Some(o) => push_text(&mut attrs, "observedBy", o.as_str()),
        None => push_text(&mut attrs, "observedBy", "adapter:hosting"),
    }
    push_text(&mut attrs, "provider", p.provider.as_str());
    push_text(&mut attrs, "sourceTrust", SOURCE_TRUST_OBSERVATION);
    push_text(&mut attrs, "state", p.state.as_str());
    push_opt(&mut attrs, "title", &p.title);
    push_text(&mut attrs, "trustState", TRUST_STATE_OBSERVED);
    push_opt(&mut attrs, "url", &p.url);
    push_opt(&mut attrs, "validationRunId", &p.validation_run_id);
    let mut key = chars_of("pull-request:");
    append(&mut key, &string_chars(&stable(p.provider.as_str())));
    append_str(&mut key, "/");
    append(&mut key, &string_chars(&stable(p.number.as_str())));
    assert(json_fields_view(attrs@) =~= pr_nodev(*p).attributes);
    make_node(pull_request_node_id(p.provider.as_str(), p.number.as_str()), string_of(&key), "PullRequest", attrs)
}

fn add_pull_request(b: &mut DeltaBuilder, project: &str, p: &PullRequestFact)
    ensures
        final(b).node_log() == old(b).node_log() + pr_item_nodes(*p),
        final(b).edge_log() == old(b).edge_log() + pr_item_edges(project@, *p),
{
    let ghost n0 = b.node_log();
    let ghost e0 = b.edge_log();
    let none: Option<String> = None;
    let no_parents: Vec<String> = Vec::new();
    assert(crate::text::strings_view(no_parents@) =~= Seq::<Seq<char>>::empty());
    add_branch(b, project, p.branch.as_str(), &p.head_sha, &none);
    add_branch(b, project, p.target_branch.as_str(), &p.base_sha, &none);
    let ghost n1 = b.node_log();
    let ghost e1 = b.edge_log();
    if let Some(h) = &p.head_sha {
        add_commit(b, project, h.as_str(), &no_parents, &none);
    }
    let ghost n2 = b.node_log();
    let ghost e2 = b.edge_log();
    if let Some(h) = &p.base_sha {
        add_commit(b, project, h.as_str(), &no_parents, &none);
    }
    let ghost n3 = b.node_log();
    let ghost e3 = b.edge_log();
    b.add_node(pr_node(p));
    let pid = pull_request_node_id(p.provider.as_str(), p.number.as_str());
    b.add_edge(make_edge(project, "HAS_PULL_REQUEST", pid.as_str()));
    b.add_edge(make_edge(pid.as_str(), "PR_FROM_BRANCH", branch_node_id(p.branch.as_str()).as_str()));
    b.add_edge(make_edge(pid.as_str(), "PR_TARGET_BRANCH", branch_node_id(p.target_branch.as_str()).as_str()));
    let ghost e4 = b.edge_log();
    if let Some(h) = &p.head_sha {
        b.add_edge(make_edge(pid.as_str(), "PR_HEAD_COMMIT", commit_node_id(h.as_str()).as_str()));
    }
    let ghost e5 = b.edge_log();
    if let Some(h) = &p.base_sha {
        b.add_edge(make_edge(pid.as_str(), "PR_BASE_COMMIT", commit_node_id(h.as_str()).as_str()));
    }
    let ghost e6 = b.edge_log();
    if let Some(run) = &p.validation_run_id {
        b.add_edge(make_edge(pid.as_str(), "PR_HAS_VALIDATION_RUN", validation_run_node_id(run.as_str()).as_str()));
    }
    assert(b.node_log() =~= n0 + pr_item_nodes(*p));
    assert(b.edge_log() =~= e0 + pr_item_edges(project@, *p));
}

pub open spec fn remotes_nodes(rs: Seq<GitRemoteFact>) -> Seq<NodeV> decreases rs.len() {
    if rs.len() == 0 { Seq::empty() } else { remotes_nodes(rs.drop_last()).push(remote_nodev(rs.last().name@, rs.last().url@)) }
}

pub open spec fn remotes_edges(project: Seq<char>, rs: Seq<GitRemoteFact>) -> Seq<EdgeV> decreases rs.len() {
    if rs.len() == 0 { Seq::empty() } else { remotes_edges(project, rs.drop_last()) + remote_item_edges(project, rs.last()) }
}

pub open spec fn branches_nodes(bs: Seq<GitBranchFact>) -> Seq<NodeV> decreases bs.len() {
    if bs.len() == 0 { Seq::empty() } else { branches_nodes(bs.drop_last()).push(branch_nodev(bs.last().name@, osv(bs.last().head))) }
}

pub open spec fn branches_edges(project: Seq<char>, bs: Seq<GitBranchFact>) -> Seq<EdgeV> decreases bs.len() {
    if bs.len() == 0 {
        Seq::empty()
    } else {
        branches_edges(project, bs.drop_last()) + branch_edges(project, bs.last().name@, osv(bs.last().head), osv(bs.last().remote))
    }
}

pub open spec fn commits_nodes(cs: Seq<GitCommitFact>) -> Seq<NodeV> decreases cs.len() {
    if cs.len() == 0 { Seq::empty() } else { commits_nodes(cs.drop_last()).push(commit_nodev(cs.last().sha@, osv(cs.last().message))) }
}

pub open spec fn commits_edges(project: Seq<char>, cs: Seq<GitCommitFact>) -> Seq<EdgeV> decreases cs.len() {
    if cs.len() == 0 {
        Seq::empty()
    } else {
        commits_edges(project, cs.drop_last()) + commit_edges(project, cs.last().sha@, crate::text::strings_view(cs.last().parent_shas@))
    }
}

pub open spec fn tags_nodes(ts: Seq<GitTagFact>) -> Seq<NodeV> decreases ts.len() {
    if ts.len() == 0 { Seq::empty() } else { tags_nodes(ts.drop_last()).push(tag_nodev(ts.last().name@, ts.last().target@)) }
}

pub open spec fn tags_edges(project: Seq<char>, ts: Seq<GitTagFact>) -> Seq<EdgeV> decreases ts.len() {
    if ts.len() == 0 { Seq::empty() } else { tags_edges(project, ts.drop_last()) + tag_item_edges(project, ts.last()) }
}

pub open spec fn merges_nodes(ms: Seq<GitMergeFact>) -> Seq<NodeV> decreases ms.len() {
    if ms.len() == 0 { Seq::empty() } else { merges_nodes(ms.drop_last()).push(merge_nodev(ms.last())) }
}

pub open spec fn merges_edges(ms: Seq<GitMergeFact>) -> Seq<EdgeV> decreases ms.len() {
    if ms.len() == 0 { Seq::empty() } else { merges_edges(ms.drop_last()) + merge_item_edges(ms.last()) }
}

pub open spec fn releases_nodes(rs: Seq<GitReleaseFact>) -> Seq<NodeV> decreases rs.len() {
    if rs.len() == 0 { Seq::empty() } else { releases_nodes(rs.drop_last()) + release_item_nodes(rs.last()) }
}

pub open spec fn releases_edges(project: Seq<char>, rs: Seq<GitReleaseFact>) -> Seq<EdgeV> decreases rs.len() {
    if rs.len() == 0 { Seq::empty() } else { releases_edges(project, rs.drop_last()) + release_item_edges(project, rs.last()) }
}

pub open spec fn prs_nodes(ps: Seq<PullRequestFact>) -> Seq<NodeV> decreases ps.len() {
    if ps.len() == 0 { Seq::empty() } else { prs_nodes(ps.drop_last()) + pr_item_nodes(ps.last()) }
}

pub open spec fn prs_edges(project: Seq<char>, ps: Seq<PullRequestFact>) -> Seq<EdgeV> decreases ps.len() {
    if ps.len() == 0 { Seq::empty() } else { prs_edges(project, ps.drop_last()) + pr_item_edges(project, ps.last()) }
}

/// Every node the projection emits, in order: remotes, branches, commits,
/// tags, merges, releases (with their tag, commit, snapshot, evidence and
/// artifacts), then pull requests (with their branches and commits).
pub open spec fn git_nodes(g: GitGraphProjection) -> Seq<NodeV> {
    remotes_nodes(g.remotes@) + branches_nodes(g.branches@) + commits_nodes(g.commits@) + tags_nodes(g.tags@)
        + merges_nodes(g.merges@) + releases_nodes(g.releases@) + prs_nodes(g.pull_requests@)
}

/// Every edge the projection emits, in the same order.
pub open spec fn git_edges(g: GitGraphProjection) -> Seq<EdgeV> {
    let p = g.project_node_id@;
    remotes_edges(p, g.remotes@) + branches_edges(p, g.branches@) + commits_edges(p, g.commits@) + tags_edges(p, g.tags@)
        + merges_edges(g.merges@) + releases_edges(p, g.releases@) + prs_edges(p, g.pull_requests@)
}

proof fn lemma_remotes_at(project: Seq<char>, rs: Seq<GitRemoteFact>)
    ensures
        remotes_nodes(rs).len() == rs.len(),
        remotes_edges(project, rs).len() == rs.len(),
        forall|i: int| 0 <= i < rs.len() ==> #[trigger] remotes_nodes(rs)[i] == remote_nodev(rs[i].name@, rs[i].url@),
        forall|i: int|
            0 <= i < rs.len() ==> #[trigger] remotes_edges(project, rs)[i] == edge_of(
                project,
                "HAS_GIT_REMOTE"@,
                remote_id(rs[i].name@),
            ),
    decreases rs.len(),
{
    if rs.len() > 0 {
        lemma_remotes_at(project, rs.drop_last());
        assert forall|i: int| 0 <= i < rs.len() implies #[trigger] remotes_nodes(rs)[i] == remote_nodev(
            rs[i].name@,
            rs[i].url@,
        ) by {
            if i < rs.len() - 1 {
                assert(rs[i] == rs.drop_last()[i]);
            }
        }
        assert forall|i: int| 0 <= i < rs.len() implies #[trigger] remotes_edges(project, rs)[i] == edge_of(
            project,
            "HAS_GIT_REMOTE"@,
            remote_id(rs[i].name@),
        ) by {
            if i < rs.len() - 1 {
                assert(rs[i] == rs.drop_last()[i]);
            }
        }
    }
}

proof fn lemma_prs_hold(ps: Seq<PullRequestFact>)
    ensures
        forall|i: int| 0 <= i < ps.len() ==> prs_nodes(ps).contains(pr_nodev(#[trigger] ps[i])),
    decreases ps.len(),
{
    if ps.len() > 0 {
        lemma_prs_hold(ps.drop_last());
        let items = pr_item_nodes(ps.last());
        let all = prs_nodes(ps);
        let init = prs_nodes(ps.drop_last());
        assert(all == init + items);
        assert(all[all.len() - 1] == pr_nodev(ps.last()));
        assert forall|i: int| 0 <= i < ps.len() implies all.contains(pr_nodev(#[trigger] ps[i])) by {
            if i < ps.len() - 1 {
                assert(ps[i] == ps.drop_last()[i]);
                let j = choose|j: int| 0 <= j < init.len() && init[j] == pr_nodev(ps[i]);
                assert(all[j] == init[j]);
            } else {
                assert(ps[i] == ps.last());
            }
        }
    }
}

/// The delta of a projection creates a node for every node id it emits and an
/// edge for every edge id; in particular a GitRemote node and a
/// `HAS_GIT_REMOTE` edge from the project for each remote, and a
/// PullRequest node for each pull request.
pub proof fn git_delta_covers_facts(g: GitGraphProjection)
    ensures
        forall|i: int|
            0 <= i < git_nodes(g).len() ==> crate::keyed::first_wins::<Node>(Map::empty(), git_nodes(g)).contains_key(
                (#[trigger] git_nodes(g)[i]).id,
            ),
        forall|i: int|
            0 <= i < git_edges(g).len() ==> crate::keyed::first_wins::<crate::model::Edge>(
                Map::empty(),
                git_edges(g),
            ).contains_key((#[trigger] git_edges(g)[i]).id),
        forall|i: int|
            0 <= i < g.remotes@.len() ==> crate::keyed::first_wins::<Node>(Map::empty(), git_nodes(g)).contains_key(
                remote_id((#[trigger] g.remotes@[i]).name@),
            ) && crate::keyed::first_wins::<crate::model::Edge>(Map::empty(), git_edges(g)).contains_key(
                edge_of(g.project_node_id@, "HAS_GIT_REMOTE"@, remote_id(g.remotes@[i].name@)).id,
            ),
        forall|i: int|
            0 <= i < g.pull_requests@.len() ==> crate::keyed::first_wins::<Node>(Map::empty(), git_nodes(g)).contains_key(
                pr_id((#[trigger] g.pull_requests@[i]).provider@, g.pull_requests@[i].number@),
            ),
{
    let ns = git_nodes(g);
    let es = git_edges(g);
    let p = g.project_node_id@;
    crate::keyed::lemma_first_wins_covers::<Node>(Map::empty(), ns);
    crate::keyed::lemma_first_wins_covers::<crate::model::Edge>(Map::empty(), es);
    lemma_remotes_at(p, g.remotes@);
    lemma_prs_hold(g.pull_requests@);
    let rn = remotes_nodes(g.remotes@);
    let re = remotes_edges(p, g.remotes@);
    assert forall|i: int| 0 <= i < g.remotes@.len() implies crate::keyed::first_wins::<Node>(Map::empty(), ns).contains_key(
        remote_id((#[trigger] g.remotes@[i]).name@),
    ) && crate::keyed::first_wins::<crate::model::Edge>(Map::empty(), es).contains_key(
        edge_of(p, "HAS_GIT_REMOTE"@, remote_id(g.remotes@[i].name@)).id,
    ) by {
        assert(ns[i] == rn[i]);
        assert(es[i] == re[i]);
    }
    let head = remotes_nodes(g.remotes@) + branches_nodes(g.branches@) + commits_nodes(g.commits@) + tags_nodes(g.tags@)
        + merges_nodes(g.merges@) + releases_nodes(g.releases@);
    let tail = prs_nodes(g.pull_requests@);
    assert(ns == head + tail);
    assert forall|i: int| 0 <= i < g.pull_requests@.len() implies crate::keyed::first_wins::<Node>(Map::empty(), ns).contains_key(
        pr_id((#[trigger] g.pull_requests@[i]).provider@, g.pull_requests@[i].number@),
    ) by {
        assert(tail.contains(pr_nodev(g.pull_requests@[i])));
        let j = choose|j: int| 0 <= j < tail.len() && tail[j] == pr_nodev(g.pull_requests@[i]);
        assert(ns[head.len() + j] == tail[j]);
    }
}

impl GitGraphProjection {
    /// The repository facts as a delta that creates their nodes and edges,
    /// each id once (the first emitted wins), in id order.
    pub fn to_delta(&self) -> (d: GraphDelta)
        ensures
            crate::keyed::keyed_sorted::<Node>(crate::keyed::views(d.create_nodes@)),
            crate::keyed::keyed_sorted::<crate::model::Edge>(crate::keyed::views(d.create_edges@)),
            crate::keyed::keyed_map::<Node>(crate::keyed::views(d.create_nodes@)) == crate::keyed::first_wins::<Node>(Map::empty(), git_nodes(*self)),
            crate::keyed::keyed_map::<crate::model::Edge>(crate::keyed::views(d.create_edges@)) == crate::keyed::first_wins::<crate::model::Edge>(Map::empty(), git_edges(*self)),
            d.update_nodes@.len() == 0,
            d.delete_nodes@.len() == 0,
            d.update_edges@.len() == 0,
            d.delete_edges@.len() == 0,
    {
        let project = self.project_node_id.as_str();
        let ghost pv = self.project_node_id@;
        let mut b = DeltaBuilder::new();
        let mut i: usize = 0;
        while i < self.remotes.len()
            invariant
                i <= self.remotes@.len(),
                project@ == pv,
                b.node_log() == remotes_nodes(self.remotes@.take(i as int)),
                b.edge_log() == remotes_edges(pv, self.remotes@.take(i as int)),
            decreases self.remotes@.len() - i,
        {
            add_remote(&mut b, project, &self.remotes[i]);
            assert(self.remotes@.take(i + 1).drop_last() =~= self.remotes@.take(i as int));
            i = i + 1;
        }
        assert(self.remotes@.take(self.remotes@.len() as int) =~= self.remotes@);
        let ghost n0 = b.node_log();
        let ghost e0 = b.edge_log();
        let mut i: usize = 0;
        while i < self.branches.len()
            invariant
                i <= self.branches@.len(),
                project@ == pv,
                b.node_log() == n0 + branches_nodes(self.branches@.take(i as int)),
                b.edge_log() == e0 + branches_edges(pv, self.branches@.take(i as int)),
            decreases self.branches@.len() - i,
        {
            let br = &self.branches[i];
            add_branch(&mut b, project, br.name.as_str(), &br.head, &br.remote);
            assert(self.branches@.take(i + 1).drop_last() =~= self.branches@.take(i as int));
            assert(b.node_log() =~= n0 + branches_nodes(self.branches@.take(i + 1)));
            assert(b.edge_log() =~= e0 + branches_edges(pv, self.branches@.take(i + 1)));
            i = i + 1;
        }
        assert(self.branches@.take(self.branches@.len() as int) =~= self.branches@);
        let ghost n1 = b.node_log();
        let ghost e1 = b.edge_log();
        let mut i: usize = 0;
        while i < self.commits.len()
            invariant
                i <= self.commits@.len(),
                project@ == pv,
                b.node_log() == n1 + commits_nodes(self.commits@.take(i as int)),
                b.edge_log() == e1 + commits_edges(pv, self.commits@.take(i as int)),
            decreases self.commits@.len() - i,
        {
            let c = &self.commits[i];
            add_commit(&mut b, project, c.sha.as_str(), &c.parent_shas, &c.message);
            assert(self.commits@.take(i + 1).drop_last() =~= self.commits@.take(i as int));
            assert(b.node_log() =~= n1 + commits_nodes(self.commits@.take(i + 1)));
            assert(b.edge_log() =~= e1 + commits_edges(pv, self.commits@.take(i + 1)));
            i = i + 1;
        }
        assert(self.commits@.take(self.commits@.len() as int) =~= self.commits@);
        let ghost n2 = b.node_log();
        let ghost e2 = b.edge_log();
        let mut i: usize = 0;
        while i < self.tags.len()
            invariant
                i <= self.tags@.len(),
                project@ == pv,
                b.node_log() == n2 + tags_nodes(self.tags@.take(i as int)),
                b.edge_log() == e2 + tags_edges(pv, self.tags@.take(i as int)),
            decreases self.tags@.len() - i,
        {
            add_tag(&mut b, project, &self.tags[i]);
            assert(self.tags@.take(i + 1).drop_last() =~= self.tags@.take(i as int));
            assert(b.node_log() =~= n2 + tags_nodes(self.tags@.take(i + 1)));
            assert(b.edge_log() =~= e2 + tags_edges(pv, self.tags@.take(i + 1)));
            i = i + 1;
        }
        assert(self.tags@.take(self.tags@.len() as int) =~= self.tags@);
        let ghost n3 = b.node_log();
        let ghost e3 = b.edge_log();
        let mut i: usize = 0;
        while i < self.merges.len()
            invariant
                i <= self.merges@.len(),
                b.node_log() == n3 + merges_nodes(self.merges@.take(i as int)),
                b.edge_log() == e3 + merges_edges(self.merges@.take(i as int)),
            decreases self.merges@.len() - i,
        {
            add_merge(&mut b, &self.merges[i]);
            assert(self.merges@.take(i + 1).drop_last() =~= self.merges@.take(i as int));
            assert(b.node_log() =~= n3 + merges_nodes(self.merges@.take(i + 1)));
            assert(b.edge_log() =~= e3 + merges_edges(self.merges@.take(i + 1)));
            i = i + 1;
        }
        assert(self.merges@.take(self.merges@.len() as int) =~= self.merges@);
        let ghost n4 = b.node_log();
        let ghost e4 = b.edge_log();
        let mut i: usize = 0;
        while i < self.releases.len()
            invariant
                i <= self.releases@.len(),
                project@ == pv,
                b.node_log() == n4 + releases_nodes(self.releases@.take(i as int)),
                b.edge_log() == e4 + releases_edges(pv, self.releases@.take(i as int)),
            decreases self.releases@.len() - i,
        {
            add_release(&mut b, project, &self.releases[i]);
            assert(self.releases@.take(i + 1).drop_last() =~= self.releases@.take(i as int));
            assert(b.node_log() =~= n4 + releases_nodes(self.releases@.take(i + 1)));
            assert(b.edge_log() =~= e4 + releases_edges(pv, self.releases@.take(i + 1)));
            i = i + 1;
        }
        assert(self.releases@.take(self.releases@.len() as int) =~= self.releases@);
        let ghost n5 = b.node_log();
        let ghost e5 = b.edge_log();
        let mut i: usize = 0;
        while i < self.pull_requests.len()
            invariant
                i <= self.pull_requests@.len(),
                project@ == pv,
                b.node_log() == n5 + prs_nodes(self.pull_requests@.take(i as int)),
                b.edge_log() == e5 + prs_edges(pv, self.pull_requests@.take(i as int)),
            decreases self.pull_requests@.len() - i,
        {
            add_pull_request(&mut b, project, &self.pull_requests[i]);
            assert(self.pull_requests@.take(i + 1).drop_last() =~= self.pull_requests@.take(i as int));
            assert(b.node_log() =~= n5 + prs_nodes(self.pull_requests@.take(i + 1)));
            assert(b.edge_log() =~= e5 + prs_edges(pv, self.pull_requests@.take(i + 1)));
            i = i + 1;
        }
        assert(self.pull_requests@.take(self.pull_requests@.len() as int) =~= self.pull_requests@);
        assert(b.node_log() =~= git_nodes(*self));
        assert(b.edge_log() =~= git_edges(*self));
        b.finish()
    }
}

/// The nodes of `s`, in order, that are (or are not) in the graph.
pub open spec fn nodes_by_presence(s: Seq<NodeV>, nm: Map<Seq<char>, NodeV>, present: bool) -> Seq<NodeV>
    decreases s.len(),
{
    if s.len() == 0 {
        Seq::empty()
    } else if nm.contains_key(s.last().id) == present {
        nodes_by_presence(s.drop_last(), nm, present).push(s.last())
    } else {
        nodes_by_presence(s.drop_last(), nm, present)
    }
}

pub open spec fn edges_by_presence(s: Seq<EdgeV>, em: Map<Seq<char>, EdgeV>, present: bool) -> Seq<EdgeV>
    decreases s.len(),
{
    if s.len() == 0 {
        Seq::empty()
    } else if em.contains_key(s.last().id) == present {
        edges_by_presence(s.drop_last(), em, present).push(s.last())
    } else {
        edges_by_presence(s.drop_last(), em, present)
    }
}

/// The delta's created nodes and edges split by whether the graph has them
/// already: those it has become updates. The delta's own updates are not
/// carried over; its deletions are.
pub fn upsert_delta_for_graph(delta: GraphDelta, graph: &Graph) -> (out: GraphDelta)
    ensures
        views(out.create_nodes@) == nodes_by_presence(views(delta.create_nodes@), graph.node_map(), false),
        views(out.update_nodes@) == nodes_by_presence(views(delta.create_nodes@), graph.node_map(), true),
        views(out.create_edges@) == edges_by_presence(views(delta.create_edges@), graph.edge_map(), false),
        views(out.update_edges@) == edges_by_presence(views(delta.create_edges@), graph.edge_map(), true),
        strings_view(out.delete_nodes@) == strings_view(delta.delete_nodes@),
        strings_view(out.delete_edges@) == strings_view(delta.delete_edges@),
{
    let GraphDelta { create_nodes, update_nodes, delete_nodes, create_edges, update_edges, delete_edges } = delta;
    let ghost cn = views(create_nodes@);
    let ghost ce = views(create_edges@);
    let mut out = GraphDelta::empty();
    let mut i: usize = 0;
    while i < create_nodes.len()
        invariant
            i <= cn.len(),
            cn == views(create_nodes@),
            views(out.create_nodes@) == nodes_by_presence(cn.take(i as int), graph.node_map(), false),
            views(out.update_nodes@) == nodes_by_presence(cn.take(i as int), graph.node_map(), true),
            out.create_edges@.len() == 0,
            out.update_edges@.len() == 0,
            out.delete_nodes@.len() == 0,
            out.delete_edges@.len() == 0,
        decreases cn.len() - i,
    {
        let n = create_nodes[i].duplicate();
        assert(n@ == cn[i as int]);
        assert(cn.take(i + 1).drop_last() =~= cn.take(i as int));
        let present = graph.node(n.id.as_str()).is_some();
        if present {
            let ghost b = views(out.update_nodes@);
            out.update_nodes.push(n);
            assert(views(out.update_nodes@) =~= b.push(cn[i as int]));
        } else {
            let ghost b = views(out.create_nodes@);
            out.create_nodes.push(n);
            assert(views(out.create_nodes@) =~= b.push(cn[i as int]));
        }
        i = i + 1;
    }
    assert(cn.take(cn.len() as int) =~= cn);
    let mut i: usize = 0;
    while i < create_edges.len()
        invariant
            i <= ce.len(),
            ce == views(create_edges@),
            views(out.create_nodes@) == nodes_by_presence(cn, graph.node_map(), false),
            views(out.update_nodes@) == nodes_by_presence(cn, graph.node_map(), true),
            views(out.create_edges@) == edges_by_presence(ce.take(i as int), graph.edge_map(), false),
            views(out.update_edges@) == edges_by_presence(ce.take(i as int), graph.edge_map(), true),
            out.delete_nodes@.len() == 0,
            out.delete_edges@.len() == 0,
        decreases ce.len() - i,
    {
        let e = create_edges[i].duplicate();
        assert(e@ == ce[i as int]);
        assert(ce.take(i + 1).drop_last() =~= ce.take(i as int));
        let present = graph.edge(e.id.as_str()).is_some();
        if present {
            let ghost b = views(out.update_edges@);
            out.update_edges.push(e);
            assert(views(out.update_edges@) =~= b.push(ce[i as int]));
        } else {
            let ghost b = views(out.create_edges@);
            out.create_edges.push(e);
            assert(views(out.create_edges@) =~= b.push(ce[i as int]));
        }
        i = i + 1;
    }
    assert(ce.take(ce.len() as int) =~= ce);
    out.delete_nodes = delete_nodes;
    out.delete_edges = delete_edges;
    out
}

impl GitGraphProjection {
    /// The projection's delta made relative to a graph: what it has already
    /// is updated rather than created.
    pub fn to_upsert_delta(&self, graph: &Graph) -> (out: GraphDelta)
        ensures
            exists|d: GraphDelta|
                crate::keyed::keyed_map::<Node>(views(d.create_nodes@)) == crate::keyed::first_wins::<Node>(Map::empty(), git_nodes(*self))
                && crate::keyed::keyed_map::<Edge>(views(d.create_edges@)) == crate::keyed::first_wins::<Edge>(Map::empty(), git_edges(*self))
                && crate::keyed::keyed_sorted::<Node>(views(d.create_nodes@))
                && crate::keyed::keyed_sorted::<Edge>(views(d.create_edges@))
                && views(out.create_nodes@) == nodes_by_presence(views(d.create_nodes@), graph.node_map(), false)
                && views(out.update_nodes@) == nodes_by_presence(views(d.create_nodes@), graph.node_map(), true)
                && views(out.create_edges@) == edges_by_presence(views(d.create_edges@), graph.edge_map(), false)
                && views(out.update_edges@) == edges_by_presence(views(d.create_edges@), graph.edge_map(), true),
            out.delete_nodes@.len() == 0,
            out.delete_edges@.len() == 0,
    {
        let delta = self.to_delta();
        let ghost d = delta;
        let out = upsert_delta_for_graph(delta, graph);
        assert(strings_view(out.delete_nodes@).len() == 0);
        assert(strings_view(out.delete_edges@).len() == 0);
        out
    }
}

pub type FullFinding = (Seq<char>, FindingSeverity, Seq<char>, Seq<Seq<char>>, Seq<Seq<char>>);

/// An edge of type `et` from `id`.
pub open spec fn outgoing(es: Seq<EdgeV>, id: Seq<char>, et: Seq<char>) -> bool {
    exists|i: int| 0 <= i < es.len() && (#[trigger] es[i]).from == id && es[i].edge_type == et
}

pub open spec fn pr_err(id: Seq<char>, code: Seq<char>, message: Seq<char>) -> Seq<FullFinding> {
    seq![(code, FindingSeverity::Error, message, seq![id], Seq::empty())]
}

pub open spec fn valid_pr_state(s: Seq<char>) -> bool {
    s == "open"@ || s == "closed"@ || s == "merged"@ || s == "draft"@
}

/// What one pull request node is reported for: leaving the observed trust
/// boundary, each missing branch link, and a state outside the four known.
pub open spec fn pr_findings(n: NodeV, es: Seq<EdgeV>) -> Seq<FullFinding> {
    if n.node_type != "PullRequest"@ {
        Seq::empty()
    } else {
        let id = n.id;
        let state = match attr_text(n.attributes, "state"@) {
            Some(s) => s,
            None => Seq::empty(),
        };
        (if attr_text(n.attributes, "sourceTrust"@) != Some(SOURCE_TRUST_OBSERVATION@) || attr_text(
            n.attributes,
            "trustState"@,
        ) != Some(TRUST_STATE_OBSERVED@) {
            pr_err(
                id,
                "pr_hosting.trust_boundary"@,
                "PullRequest `"@ + id
                    + "` must remain observed/untrusted. Remediation: set sourceTrust=Observation and trustState=Observed; accept changes only through Operation Runtime."@,
            )
        } else {
            Seq::empty()
        }) + (if !outgoing(es, id, "PR_FROM_BRANCH"@) {
            pr_err(
                id,
                "pr_hosting.link_missing"@,
                "PullRequest `"@ + id + "` is missing source branch link `PR_FROM_BRANCH`. Remediation: sync provider metadata with branch bindings."@,
            )
        } else {
            Seq::empty()
        }) + (if !outgoing(es, id, "PR_TARGET_BRANCH"@) {
            pr_err(
                id,
                "pr_hosting.link_missing"@,
                "PullRequest `"@ + id + "` is missing target branch link `PR_TARGET_BRANCH`. Remediation: sync provider metadata with branch bindings."@,
            )
        } else {
            Seq::empty()
        }) + (if !valid_pr_state(state) {
            pr_err(
                id,
                "pr_hosting.state_invalid"@,
                "PullRequest `"@ + id + "` has invalid state `"@ + state + "`. Remediation: use open, closed, merged, or draft."@,
            )
        } else {
            Seq::empty()
        })
    }
}

pub open spec fn prs_findings(ns: Seq<NodeV>, es: Seq<EdgeV>) -> Seq<FullFinding>
    decreases ns.len(),
{
    if ns.len() == 0 {
        Seq::empty()
    } else {
        prs_findings(ns.drop_last(), es) + pr_findings(ns.last(), es)
    }
}

pub(crate) fn has_outgoing(edges: &Vec<Edge>, id: &String, et: &str) -> (r: bool)
    ensures
        r == outgoing(views(edges@), id@, et@),
{
    let ghost es = views(edges@);
    let idc = string_chars(id);
    let mut i: usize = 0;
    while i < edges.len()
        invariant
            i <= edges@.len(),
            es == views(edges@),
            idc@ == id@,
            forall|j: int| 0 <= j < i ==> !((#[trigger] es[j]).from == id@ && es[j].edge_type == et@),
        decreases edges@.len() - i,
    {
        assert(es[i as int] == edges@[i as int]@);
        if eq_chars(&string_chars(&edges[i].from), &idc) && eq_str(&string_chars(&edges[i].edge_type), et) {
            return true;
        }
        i = i + 1;
    }
    false
}

pub(crate) fn one_id(id: &String) -> (r: Vec<String>)
    ensures
        strings_view(r@) == seq![id@],
{
    let mut v: Vec<String> = Vec::new();
    v.push(id.clone());
    assert(strings_view(v@) =~= seq![id@]);
    v
}

pub(crate) fn no_ids() -> (r: Vec<String>)
    ensures
        strings_view(r@) == Seq::<Seq<char>>::empty(),
{
    let v: Vec<String> = Vec::new();
    assert(strings_view(v@) =~= Seq::<Seq<char>>::empty());
    v
}

/// Pull request nodes must stay observed, link both branches, and carry a
/// known state.
pub fn validate_pr_hosting_graph(graph: &Graph) -> (r: Vec<Finding>)
    ensures
        findings_full(r@) == prs_findings(graph.node_seq(), graph.edge_seq()),
{
    let nodes = graph.nodes();
    let edges = graph.edges();
    let ghost ns = views(nodes@);
    let ghost es = views(edges@);
    let mut findings: Vec<Finding> = Vec::new();
    assert(findings_full(findings@) =~= Seq::empty());
    let mut i: usize = 0;
    while i < nodes.len()
        invariant
            i <= nodes@.len(),
            ns == views(nodes@),
            es == views(edges@),
            ns == graph.node_seq(),
            es == graph.edge_seq(),
            findings_full(findings@) == prs_findings(ns.take(i as int), es),
        decreases nodes@.len() - i,
    {
        let n = &nodes[i];
        assert(ns[i as int] == n@);
        let ghost f0 = findings_full(findings@);
        if eq_str(&string_chars(&n.node_type), "PullRequest") {
            let id = string_chars(&n.id);
            let st = fields_text(&n.attributes, "sourceTrust");
            let ts = fields_text(&n.attributes, "trustState");
            let trusted_ok = match (&st, &ts) {
                (Some(a), Some(b)) => eq_str(&string_chars(a), SOURCE_TRUST_OBSERVATION) && eq_str(
                    &string_chars(b),
                    TRUST_STATE_OBSERVED,
                ),
                _ => false,
            };
            if !trusted_ok {
                push_related_finding(
                    &mut findings,
                    "pr_hosting.trust_boundary",
                    msg3(
                        "PullRequest `",
                        &id,
                        "` must remain observed/untrusted. Remediation: set sourceTrust=Observation and trustState=Observed; accept changes only through Operation Runtime.",
                    ),
                    one_id(&n.id),
                    no_ids(),
                );
            }
            if !has_outgoing(edges, &n.id, "PR_FROM_BRANCH") {
                push_related_finding(
                    &mut findings,
                    "pr_hosting.link_missing",
                    msg3(
                        "PullRequest `",
                        &id,
                        "` is missing source branch link `PR_FROM_BRANCH`. Remediation: sync provider metadata with branch bindings.",
                    ),
                    one_id(&n.id),
                    no_ids(),
                );
            }
            if !has_outgoing(edges, &n.id, "PR_TARGET_BRANCH") {
                push_related_finding(
                    &mut findings,
                    "pr_hosting.link_missing",
                    msg3(
                        "PullRequest `",
                        &id,
                        "` is missing target branch link `PR_TARGET_BRANCH`. Remediation: sync provider metadata with branch bindings.",
                    ),
                    one_id(&n.id),
                    no_ids(),
                );
            }
            let state = match fields_text(&n.attributes, "state") {
                Some(s) => string_chars(&s),
                None => Vec::new(),
            };
            if !(eq_str(&state, "open") || eq_str(&state, "closed") || eq_str(&state, "merged") || eq_str(
                &state,
                "draft",
            )) {
                push_related_finding(
                    &mut findings,
                    "pr_hosting.state_invalid",
                    msg5(
                        "PullRequest `",
                        &id,
                        "` has invalid state `",
                        &state,
                        "`. Remediation: use open, closed, merged, or draft.",
                    ),
                    one_id(&n.id),
                    no_ids(),
                );
            }
        }
        assert(findings_full(findings@) =~= f0 + pr_findings(ns[i as int], es));
        assert(ns.take(i + 1).drop_last() =~= ns.take(i as int));
        i = i + 1;
    }
    assert(ns.take(ns.len() as int) =~= ns);
    findings
}

} // verus!
