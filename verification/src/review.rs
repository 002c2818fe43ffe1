//! Whether the sources that a graph's claims rest on are as they were reviewed.

use vstd::prelude::*;

use crate::graph::{
    edge_views, evidence_views, node_views, EdgeView, EvidenceRef, EvidenceView, GraphView,
    NodeView, SecurityGraph,
};
use crate::hash::{content_hash, fingerprint};
use crate::ordered::{add_key, ascending, lemma_with_key, texts, with_key};
use crate::sources::{lemma_recorded_at, paths};
use crate::text::{lower, same_text, to_lower};

verus! {

/// The most bytes of a source file that is hashed.
pub const MAX_SOURCE_BYTES: usize = 2 * 1024 * 1024;

/// Why a source file cannot be verified.
#[derive(Debug, Clone, Copy, PartialEq, Eq, Structural)]
pub enum SourceError {
    /// The path leads out of the repository.
    Escapes,
    /// The path does not lead to a regular file.
    NotRegular,
    /// The file is larger than what is hashed.
    TooLarge,
}

/// The sentence for an error.
pub open spec fn source_error_text(e: SourceError) -> Seq<char> {
    match e {
        SourceError::Escapes => "source evidence escapes repository"@,
        SourceError::NotRegular => "source evidence must be a regular file"@,
        SourceError::TooLarge => "source file exceeds hashing limit"@,
    }
}

impl SourceError {
    /// The sentence for an error.
    pub fn message(&self) -> (r: String)
        ensures
            r@ == source_error_text(*self),
    {
        match self {
            SourceError::Escapes => "source evidence escapes repository".to_owned(),
            SourceError::NotRegular => "source evidence must be a regular file".to_owned(),
            SourceError::TooLarge => "source file exceeds hashing limit".to_owned(),
        }
    }
}

/// How many bytes of a source file are to be read at most. `inside` says whether
/// the path, with its links followed, stays in the repository, `regular` whether
/// it leads to a regular file. Nothing else is read.
pub fn admit_source(inside: bool, regular: bool) -> (r: Result<usize, SourceError>)
    ensures
        match r {
            Ok(limit) => inside && regular && limit == MAX_SOURCE_BYTES + 1,
            Err(e) => e == if !inside {
                SourceError::Escapes
            } else {
                SourceError::NotRegular
            } && !(inside && regular),
        },
{
    if !inside {
        Err(SourceError::Escapes)
    } else if !regular {
        Err(SourceError::NotRegular)
    } else {
        Ok(MAX_SOURCE_BYTES + 1)
    }
}

/// The hash of a source file of which `bytes` were read.
pub fn source_hash(bytes: &[u8]) -> (r: Result<String, SourceError>)
    ensures
        match r {
            Ok(hash) => bytes@.len() <= MAX_SOURCE_BYTES && hash@ == fingerprint(bytes@),
            Err(e) => bytes@.len() > MAX_SOURCE_BYTES && e == SourceError::TooLarge,
        },
{
    if bytes.len() > MAX_SOURCE_BYTES {
        Err(SourceError::TooLarge)
    } else {
        Ok(content_hash(bytes))
    }
}

/// How a source stands to what was reviewed.
#[derive(Debug, Clone, Copy, PartialEq, Eq, Structural)]
pub enum SourceState {
    /// No hash is recorded.
    Untracked,
    /// The file has the recorded hash.
    Matches,
    /// The file has another hash.
    Changed,
    /// The file cannot be verified.
    Unavailable,
}

/// A path with the state of its source.
#[derive(Debug, Clone, PartialEq, Eq)]
pub struct SourceStatus {
    pub path: String,
    pub state: SourceState,
}

/// The word for a state.
pub open spec fn state_name(state: SourceState) -> Seq<char> {
    match state {
        SourceState::Untracked => "untracked"@,
        SourceState::Matches => "matches"@,
        SourceState::Changed => "changed"@,
        SourceState::Unavailable => "unavailable"@,
    }
}

impl SourceState {
    /// The word for a state.
    pub fn name(&self) -> (r: &'static str)
        ensures
            r@ == state_name(*self),
    {
        match self {
            SourceState::Untracked => "untracked",
            SourceState::Matches => "matches",
            SourceState::Changed => "changed",
            SourceState::Unavailable => "unavailable",
        }
    }
}

/// The state of a source for which `expected` is recorded and which now has the
/// hash `actual`, if it can be verified. The case of the digits does not count.
pub open spec fn tracked_state(expected: Seq<char>, actual: Option<Seq<char>>) -> SourceState {
    match actual {
        None => SourceState::Unavailable,
        Some(actual) => if lower(actual) == lower(expected) {
            SourceState::Matches
        } else {
            SourceState::Changed
        },
    }
}

/// What a hash that may be missing says.
pub open spec fn hash_view(hash: Option<String>) -> Option<Seq<char>> {
    match hash {
        Some(hash) => Some(hash@),
        None => None,
    }
}

/// What a list of such hashes says.
pub open spec fn hash_views(hashes: Seq<Option<String>>) -> Seq<Option<Seq<char>>> {
    hashes.map_values(|h: Option<String>| hash_view(h))
}

/// The state of a source with a recorded hash.
pub fn source_state(expected: &str, actual: &Option<String>) -> (r: SourceState)
    ensures
        r == tracked_state(expected@, hash_view(*actual)),
{
    match actual {
        None => SourceState::Unavailable,
        Some(actual) => if same_text(
            to_lower(actual.as_str()).as_str(),
            to_lower(expected).as_str(),
        ) {
            SourceState::Matches
        } else {
            SourceState::Changed
        },
    }
}

/// The keys with the paths of a list of evidence among them.
pub open spec fn with_evidence(keys: Seq<Seq<char>>, evidence: Seq<EvidenceView>) -> Seq<Seq<char>>
    decreases evidence.len(),
{
    if evidence.len() == 0 {
        keys
    } else {
        with_key(with_evidence(keys, evidence.drop_last()), evidence.last().path)
    }
}

/// The keys with the paths of the nodes' evidence among them.
pub open spec fn with_nodes(keys: Seq<Seq<char>>, nodes: Seq<NodeView>) -> Seq<Seq<char>>
    decreases nodes.len(),
{
    if nodes.len() == 0 {
        keys
    } else {
        with_evidence(with_nodes(keys, nodes.drop_last()), nodes.last().evidence)
    }
}

/// The keys with the paths of the edges' evidence among them.
pub open spec fn with_edges(keys: Seq<Seq<char>>, edges: Seq<EdgeView>) -> Seq<Seq<char>>
    decreases edges.len(),
{
    if edges.len() == 0 {
        keys
    } else {
        with_evidence(with_edges(keys, edges.drop_last()), edges.last().evidence)
    }
}

/// Every path that a graph records or cites, once each, in the order of strings.
pub open spec fn reviewed(g: GraphView) -> Seq<Seq<char>> {
    with_edges(with_nodes(paths(g.source_files), g.nodes), g.edges)
}

/// A list of evidence cites the path.
pub open spec fn cites(evidence: Seq<EvidenceView>, path: Seq<char>) -> bool {
    exists|i: int| 0 <= i < evidence.len() && (#[trigger] evidence[i]).path == path
}

/// A graph records or cites the path.
pub open spec fn mentions(g: GraphView, path: Seq<char>) -> bool {
    ||| paths(g.source_files).contains(path)
    ||| exists|i: int| 0 <= i < g.nodes.len() && cites((#[trigger] g.nodes[i]).evidence, path)
    ||| exists|i: int| 0 <= i < g.edges.len() && cites((#[trigger] g.edges[i]).evidence, path)
}

proof fn lemma_with_evidence(keys: Seq<Seq<char>>, evidence: Seq<EvidenceView>)
    requires
        ascending(keys),
    ensures
        ascending(with_evidence(keys, evidence)),
        forall|p: Seq<char>| #[trigger]
            with_evidence(keys, evidence).contains(p) <==> keys.contains(p) || cites(evidence, p),
    decreases evidence.len(),
{
    if evidence.len() > 0 {
        let rest = evidence.drop_last();
        lemma_with_evidence(keys, rest);
        lemma_with_key(with_evidence(keys, rest), evidence.last().path);
        assert forall|p: Seq<char>| #[trigger]
            with_evidence(keys, evidence).contains(p) <==> keys.contains(p) || cites(
                evidence,
                p,
            ) by {
            assert(cites(evidence, p) <==> cites(rest, p) || evidence.last().path == p) by {
                if cites(rest, p) {
                    let i = choose|i: int| 0 <= i < rest.len() && (#[trigger] rest[i]).path == p;
                    assert(evidence[i].path == p);
                }
                if cites(evidence, p) {
                    let i = choose|i: int|
                        0 <= i < evidence.len() && (#[trigger] evidence[i]).path == p;
                    if i < rest.len() {
                        assert(rest[i].path == p);
                    }
                }
            }
            assert(with_evidence(keys, rest).contains(p) <==> keys.contains(p) || cites(rest, p));
        }
    }
}

proof fn lemma_with_nodes(keys: Seq<Seq<char>>, nodes: Seq<NodeView>)
    requires
        ascending(keys),
    ensures
        ascending(with_nodes(keys, nodes)),
        forall|p: Seq<char>| #[trigger]
            with_nodes(keys, nodes).contains(p) <==> keys.contains(p) || exists|i: int|
                0 <= i < nodes.len() && cites((#[trigger] nodes[i]).evidence, p),
    decreases nodes.len(),
{
    if nodes.len() > 0 {
        let rest = nodes.drop_last();
        lemma_with_nodes(keys, rest);
        lemma_with_evidence(with_nodes(keys, rest), nodes.last().evidence);
        assert forall|p: Seq<char>| #[trigger]
            with_nodes(keys, nodes).contains(p) <==> keys.contains(p) || exists|i: int|
                0 <= i < nodes.len() && cites((#[trigger] nodes[i]).evidence, p) by {
            assert(with_nodes(keys, rest).contains(p) <==> keys.contains(p) || exists|i: int|
                0 <= i < rest.len() && cites((#[trigger] rest[i]).evidence, p));
            if exists|i: int| 0 <= i < rest.len() && cites((#[trigger] rest[i]).evidence, p) {
                let i = choose|i: int|
                    0 <= i < rest.len() && cites((#[trigger] rest[i]).evidence, p);
                assert(cites(nodes[i].evidence, p));
            }
            if cites(nodes.last().evidence, p) {
                assert(cites(nodes[nodes.len() - 1].evidence, p));
            }
            if exists|i: int| 0 <= i < nodes.len() && cites((#[trigger] nodes[i]).evidence, p) {
                let i = choose|i: int|
                    0 <= i < nodes.len() && cites((#[trigger] nodes[i]).evidence, p);
                if i < rest.len() {
                    assert(cites(rest[i].evidence, p));
                }
            }
        }
    }
}

proof fn lemma_with_edges(keys: Seq<Seq<char>>, edges: Seq<EdgeView>)
    requires
        ascending(keys),
    ensures
        ascending(with_edges(keys, edges)),
        forall|p: Seq<char>| #[trigger]
            with_edges(keys, edges).contains(p) <==> keys.contains(p) || exists|i: int|
                0 <= i < edges.len() && cites((#[trigger] edges[i]).evidence, p),
    decreases edges.len(),
{
    if edges.len() > 0 {
        let rest = edges.drop_last();
        lemma_with_edges(keys, rest);
        lemma_with_evidence(with_edges(keys, rest), edges.last().evidence);
        assert forall|p: Seq<char>| #[trigger]
            with_edges(keys, edges).contains(p) <==> keys.contains(p) || exists|i: int|
                0 <= i < edges.len() && cites((#[trigger] edges[i]).evidence, p) by {
            assert(with_edges(keys, rest).contains(p) <==> keys.contains(p) || exists|i: int|
                0 <= i < rest.len() && cites((#[trigger] rest[i]).evidence, p));
            if exists|i: int| 0 <= i < rest.len() && cites((#[trigger] rest[i]).evidence, p) {
                let i = choose|i: int|
                    0 <= i < rest.len() && cites((#[trigger] rest[i]).evidence, p);
                assert(cites(edges[i].evidence, p));
            }
            if cites(edges.last().evidence, p) {
                assert(cites(edges[edges.len() - 1].evidence, p));
            }
            if exists|i: int| 0 <= i < edges.len() && cites((#[trigger] edges[i]).evidence, p) {
                let i = choose|i: int|
                    0 <= i < edges.len() && cites((#[trigger] edges[i]).evidence, p);
                if i < rest.len() {
                    assert(cites(rest[i].evidence, p));
                }
            }
        }
    }
}

/// The reviewed paths are those that a graph mentions, each once, in order.
pub proof fn reviewed_are_the_mentioned(g: GraphView)
    requires
        ascending(paths(g.source_files)),
    ensures
        ascending(reviewed(g)),
        forall|p: Seq<char>| #[trigger] reviewed(g).contains(p) <==> mentions(g, p),
{
    lemma_with_nodes(paths(g.source_files), g.nodes);
    lemma_with_edges(with_nodes(paths(g.source_files), g.nodes), g.edges);
}

fn add_evidence(keys: &mut Vec<String>, evidence: &Vec<EvidenceRef>)
    requires
        ascending(texts(old(keys)@)),
    ensures
        texts(final(keys)@) == with_evidence(texts(old(keys)@), evidence_views(evidence@)),
        ascending(texts(final(keys)@)),
{
    let ghost before = texts(keys@);
    let ghost all = evidence_views(evidence@);
    let mut i: usize = 0;
    assert(all.take(0) =~= seq![]);
    while i < evidence.len()
        invariant
            all == evidence_views(evidence@),
            i <= evidence@.len(),
            ascending(texts(keys@)),
            texts(keys@) == with_evidence(before, all.take(i as int)),
        decreases evidence.len() - i,
    {
        assert(all.take(i + 1).drop_last() =~= all.take(i as int));
        assert(all.take(i + 1).last() == evidence@[i as int]@);
        add_key(keys, evidence[i].path.as_str());
        i += 1;
    }
    assert(all.take(i as int) =~= all);
}

/// Every path that a graph records or cites, once each, in the order of strings.
pub fn reviewed_paths(graph: &SecurityGraph) -> (r: Vec<String>)
    ensures
        texts(r@) == reviewed(graph@),
        ascending(texts(r@)),
        forall|p: Seq<char>| #[trigger] texts(r@).contains(p) <==> mentions(graph@, p),
{
    let mut keys: Vec<String> = Vec::new();
    let n: usize = graph.source_files.len();
    proof {
        reviewed_are_the_mentioned(graph@);
    }
    let ghost recorded_paths = paths(graph.source_files@);
    let mut i: usize = 0;
    assert(texts(keys@) =~= recorded_paths.take(0));
    while i < n
        invariant
            n == graph.source_files@.len(),
            recorded_paths == paths(graph.source_files@),
            i <= n,
            texts(keys@) == recorded_paths.take(i as int),
        decreases n - i,
    {
        let ghost before = keys@;
        keys.push(graph.source_files.path(i).to_owned());
        assert(texts(keys@) =~= texts(before).push(recorded_paths[i as int]));
        assert(recorded_paths.take(i + 1) =~= recorded_paths.take(i as int).push(
            recorded_paths[i as int],
        ));
        i += 1;
    }
    assert(recorded_paths.take(i as int) =~= recorded_paths);

    let ghost nodes = node_views(graph.nodes@);
    let mut i: usize = 0;
    assert(nodes.take(0) =~= seq![]);
    while i < graph.nodes.len()
        invariant
            nodes == node_views(graph.nodes@),
            i <= graph.nodes@.len(),
            ascending(texts(keys@)),
            texts(keys@) == with_nodes(recorded_paths, nodes.take(i as int)),
        decreases graph.nodes.len() - i,
    {
        assert(nodes.take(i + 1).drop_last() =~= nodes.take(i as int));
        assert(nodes.take(i + 1).last() == graph.nodes@[i as int]@);
        add_evidence(&mut keys, &graph.nodes[i].evidence);
        i += 1;
    }
    assert(nodes.take(i as int) =~= nodes);

    let ghost before_edges = texts(keys@);
    let ghost edges = edge_views(graph.edges@);
    let mut i: usize = 0;
    assert(edges.take(0) =~= seq![]);
    while i < graph.edges.len()
        invariant
            edges == edge_views(graph.edges@),
            i <= graph.edges@.len(),
            ascending(texts(keys@)),
            texts(keys@) == with_edges(before_edges, edges.take(i as int)),
        decreases graph.edges.len() - i,
    {
        assert(edges.take(i + 1).drop_last() =~= edges.take(i as int));
        assert(edges.take(i + 1).last() == graph.edges@[i as int]@);
        add_evidence(&mut keys, &graph.edges[i].evidence);
        i += 1;
    }
    assert(edges.take(i as int) =~= edges);
    keys
}

/// The state of a path. `hashes` are those that the recorded source files now
/// have, in the order of their paths.
pub open spec fn state_of(g: GraphView, hashes: Seq<Option<Seq<char>>>, path: Seq<char>) -> SourceState {
    let known = paths(g.source_files);
    if known.contains(path) {
        let at = known.index_of(path);
        tracked_state(g.source_files[at].1, hashes[at])
    } else {
        SourceState::Untracked
    }
}

/// The state of every path that a graph mentions, in the order of strings.
pub open spec fn statuses(g: GraphView, hashes: Seq<Option<Seq<char>>>) -> Seq<
    (Seq<char>, SourceState),
> {
    reviewed(g).map_values(|p: Seq<char>| (p, state_of(g, hashes, p)))
}

/// What a list of statuses says.
pub open spec fn status_views(list: Seq<SourceStatus>) -> Seq<(Seq<char>, SourceState)> {
    list.map_values(|s: SourceStatus| (s.path@, s.state))
}

/// There are sources, and all are as they were reviewed.
pub open spec fn all_match(list: Seq<(Seq<char>, SourceState)>) -> bool {
    list.len() > 0 && forall|i: int|
        0 <= i < list.len() ==> (#[trigger] list[i]).1 == SourceState::Matches
}

/// The state of every path that a graph mentions.
pub fn review(graph: &SecurityGraph, hashes: &Vec<Option<String>>) -> (r: Vec<SourceStatus>)
    requires
        hashes@.len() == graph.source_files@.len(),
    ensures
        status_views(r@) == statuses(graph@, hash_views(hashes@)),
{
    let keys = reviewed_paths(graph);
    let ghost want = statuses(graph@, hash_views(hashes@));
    let mut out: Vec<SourceStatus> = Vec::new();
    let mut i: usize = 0;
    let n: usize = graph.source_files.len();
    assert(status_views(out@) =~= want.take(0));
    while i < keys.len()
        invariant
            want == statuses(graph@, hash_views(hashes@)),
            texts(keys@) == reviewed(graph@),
            ascending(paths(graph.source_files@)),
            n == graph.source_files@.len() == hashes@.len(),
            i <= keys@.len(),
            status_views(out@) == want.take(i as int),
        decreases keys.len() - i,
    {
        let path = keys[i].as_str();
        assert(texts(keys@)[i as int] == path@);
        let state = match graph.source_files.position(path) {
            Some(at) => {
                proof {
                    lemma_recorded_at(graph.source_files@, at as int);
                }
                assert(hash_views(hashes@)[at as int] == hash_view(hashes@[at as int]));
                source_state(graph.source_files.hash(at), &hashes[at])
            },
            None => SourceState::Untracked,
        };
        assert(state == state_of(graph@, hash_views(hashes@), path@));
        let ghost before = out@;
        out.push(SourceStatus { path: path.to_owned(), state });
        assert(status_views(out@) =~= status_views(before).push((path@, state)));
        assert(want.take(i + 1) =~= want.take(i as int).push(want[i as int]));
        i += 1;
    }
    assert(want.take(i as int) =~= want);
    out
}

/// Whether there are sources, and all are as they were reviewed.
pub fn sources_match(list: &Vec<SourceStatus>) -> (r: bool)
    ensures
        r == all_match(status_views(list@)),
{
    let ghost all = status_views(list@);
    let mut i: usize = 0;
    while i < list.len()
        invariant
            all == status_views(list@),
            i <= list@.len(),
            forall|j: int| 0 <= j < i ==> (#[trigger] all[j]).1 == SourceState::Matches,
        decreases list.len() - i,
    {
        assert(all[i as int].1 == list@[i as int].state);
        if list[i].state != SourceState::Matches {
            return false;
        }
        i += 1;
    }
    list.len() > 0
}

/// A source with a recorded hash is as it was reviewed.
pub open spec fn verified(g: GraphView, hashes: Seq<Option<Seq<char>>>, path: Seq<char>) -> bool {
    &&& paths(g.source_files).contains(path)
    &&& state_of(g, hashes, path) == SourceState::Matches
}

/// The sources match exactly when a graph mentions some path, has a hash recorded
/// for every path that it mentions, and each of those files still has that hash.
pub proof fn sources_match_when_all_are_verified(g: GraphView, hashes: Seq<Option<Seq<char>>>)
    requires
        ascending(paths(g.source_files)),
    ensures
        all_match(statuses(g, hashes)) <==> {
            &&& exists|p: Seq<char>| mentions(g, p)
            &&& forall|p: Seq<char>| #[trigger] mentions(g, p) ==> verified(g, hashes, p)
        },
{
    reviewed_are_the_mentioned(g);
    let all = reviewed(g);
    let list = statuses(g, hashes);
    if all_match(list) {
        assert(all.contains(all[0]));
        assert(mentions(g, all[0]));
        assert forall|p: Seq<char>| #[trigger] mentions(g, p) implies verified(g, hashes, p) by {
            assert(all.contains(p));
            let i = choose|i: int| 0 <= i < all.len() && all[i] == p;
            assert(list[i] == (p, state_of(g, hashes, p)));
        }
    }
    if (exists|p: Seq<char>| mentions(g, p)) && (forall|p: Seq<char>| #[trigger]
        mentions(g, p) ==> verified(g, hashes, p)) {
        let p = choose|p: Seq<char>| mentions(g, p);
        assert(all.contains(p));
        assert forall|i: int| 0 <= i < list.len() implies (#[trigger] list[i]).1
            == SourceState::Matches by {
            assert(all.contains(all[i]));
            assert(mentions(g, all[i]));
        }
    }
}

/// A file with the bytes that were reviewed matches.
pub proof fn unchanged_source_matches(reviewed_bytes: Seq<u8>)
    ensures
        tracked_state(fingerprint(reviewed_bytes), Some(fingerprint(reviewed_bytes)))
            == SourceState::Matches,
{
}

/// In a recorded hash the case of the digits does not count.
pub proof fn case_of_a_hash_does_not_count(a: Seq<char>, b: Seq<char>, actual: Option<Seq<char>>)
    requires
        lower(a) == lower(b),
    ensures
        tracked_state(a, actual) == tracked_state(b, actual),
{
}

} // verus!
