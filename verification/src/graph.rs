//! The security graph: its parts, what makes one sound, and how it is checked.
//!
//! A graph is advisory. Observed means recorded implementation or evidence,
//! inferred an unverified conclusion, proposed what is intended and not there.

use vstd::prelude::*;

use crate::error::{GraphError, GraphFault};
use crate::hash::is_sha256_hex;
use crate::path::{is_relative_path, parent_at, validate_relative_path};
use crate::sources::SourceFiles;
use crate::text::{blank, is_blank, is_hex_of_length, same_text, white_code};

verus! {

/// The version of the graph's schema.
pub const SCHEMA_VERSION: u32 = 1;

/// The most bytes that the file of a graph may have.
pub const MAX_GRAPH_BYTES: usize = 128 * 1024;

/// The most nodes of a graph.
pub const MAX_NODES: usize = 100;

/// The most edges of a graph.
pub const MAX_EDGES: usize = 300;

/// The most reviewed source files of a graph.
pub const MAX_SOURCES: usize = 100;

/// Repository security knowledge.
#[derive(Debug, Clone, PartialEq, Eq)]
pub struct SecurityGraph {
    pub schema_version: u32,
    pub id: String,
    pub description: String,
    /// SHA-256 of reviewed source files, relative to the repository root.
    pub source_files: SourceFiles,
    pub nodes: Vec<SecurityNode>,
    pub edges: Vec<SecurityEdge>,
}

#[derive(Debug, Clone, PartialEq, Eq)]
pub struct SecurityNode {
    pub id: String,
    pub kind: NodeKind,
    pub description: String,
    pub status: ClaimStatus,
    pub evidence: Vec<EvidenceRef>,
}

#[derive(Debug, Clone, Copy, PartialEq, Eq, Structural)]
pub enum NodeKind {
    Component,
    Dependency,
    Asset,
    TrustBoundary,
    Assumption,
    Threat,
    Control,
    Finding,
    Evidence,
}

/// Observation describes implementation or a tool result, not proof of safety.
#[derive(Debug, Clone, Copy, PartialEq, Eq, Structural)]
pub enum ClaimStatus {
    Observed,
    Inferred,
    Proposed,
}

#[derive(Debug, Clone, PartialEq, Eq)]
pub struct EvidenceRef {
    pub path: String,
    pub symbol: Option<String>,
    pub line: Option<u32>,
}

#[derive(Debug, Clone, PartialEq, Eq)]
pub struct SecurityEdge {
    pub from: String,
    pub to: String,
    pub kind: EdgeKind,
    pub status: ClaimStatus,
    pub evidence: Vec<EvidenceRef>,
}

#[derive(Debug, Clone, Copy, PartialEq, Eq, Structural, Hash)]
pub enum EdgeKind {
    Calls,
    DependsOn,
    FlowsTo,
    Inside,
    Crosses,
    DependsOnAssumption,
    Threatens,
    Violates,
    Mitigates,
    Protects,
    SupportedBy,
}

/// What an [`EvidenceRef`] says.
pub struct EvidenceView {
    pub path: Seq<char>,
    pub symbol: Option<Seq<char>>,
    pub line: Option<u32>,
}

/// What a [`SecurityNode`] says.
pub struct NodeView {
    pub id: Seq<char>,
    pub kind: NodeKind,
    pub description: Seq<char>,
    pub status: ClaimStatus,
    pub evidence: Seq<EvidenceView>,
}

/// What a [`SecurityEdge`] says.
pub struct EdgeView {
    pub from: Seq<char>,
    pub to: Seq<char>,
    pub kind: EdgeKind,
    pub status: ClaimStatus,
    pub evidence: Seq<EvidenceView>,
}

/// What a [`SecurityGraph`] says.
pub struct GraphView {
    pub schema_version: u32,
    pub id: Seq<char>,
    pub description: Seq<char>,
    pub source_files: Seq<(Seq<char>, Seq<char>)>,
    pub nodes: Seq<NodeView>,
    pub edges: Seq<EdgeView>,
}

impl View for EvidenceRef {
    type V = EvidenceView;

    open spec fn view(&self) -> EvidenceView {
        EvidenceView {
            path: self.path@,
            symbol: match self.symbol {
                Some(symbol) => Some(symbol@),
                None => None,
            },
            line: self.line,
        }
    }
}

/// What a list of evidence says.
pub open spec fn evidence_views(evidence: Seq<EvidenceRef>) -> Seq<EvidenceView> {
    evidence.map_values(|e: EvidenceRef| e@)
}

impl View for SecurityNode {
    type V = NodeView;

    open spec fn view(&self) -> NodeView {
        NodeView {
            id: self.id@,
            kind: self.kind,
            description: self.description@,
            status: self.status,
            evidence: evidence_views(self.evidence@),
        }
    }
}

impl View for SecurityEdge {
    type V = EdgeView;

    open spec fn view(&self) -> EdgeView {
        EdgeView {
            from: self.from@,
            to: self.to@,
            kind: self.kind,
            status: self.status,
            evidence: evidence_views(self.evidence@),
        }
    }
}

/// What a list of nodes says.
pub open spec fn node_views(nodes: Seq<SecurityNode>) -> Seq<NodeView> {
    nodes.map_values(|n: SecurityNode| n@)
}

/// What a list of edges says.
pub open spec fn edge_views(edges: Seq<SecurityEdge>) -> Seq<EdgeView> {
    edges.map_values(|e: SecurityEdge| e@)
}

impl View for SecurityGraph {
    type V = GraphView;

    open spec fn view(&self) -> GraphView {
        GraphView {
            schema_version: self.schema_version,
            id: self.id@,
            description: self.description@,
            source_files: self.source_files@,
            nodes: node_views(self.nodes@),
            edges: edge_views(self.edges@),
        }
    }
}

/// Some node bears the ID.
pub open spec fn is_node(nodes: Seq<NodeView>, id: Seq<char>) -> bool {
    exists|i: int| 0 <= i < nodes.len() && (#[trigger] nodes[i]).id == id
}

/// The two edges make the same claim: the same ends and the same kind.
pub open spec fn same_claim(a: EdgeView, b: EdgeView) -> bool {
    a.from == b.from && a.to == b.to && a.kind == b.kind
}

/// The evidence names a repository-relative path and, if a line, one from 1 on.
pub open spec fn sound_evidence(evidence: EvidenceView) -> bool {
    is_relative_path(evidence.path) && evidence.line != Some(0u32)
}

/// Every piece of the evidence is sound.
pub open spec fn all_sound_evidence(evidence: Seq<EvidenceView>) -> bool {
    forall|i: int| 0 <= i < evidence.len() ==> sound_evidence(#[trigger] evidence[i])
}

/// The graph follows the schema's rules.
pub open spec fn sound(g: GraphView) -> bool {
    &&& g.schema_version == SCHEMA_VERSION
    &&& !blank(g.id)
    &&& !blank(g.description)
    &&& 1 <= g.nodes.len() <= MAX_NODES
    &&& g.edges.len() <= MAX_EDGES
    &&& g.source_files.len() <= MAX_SOURCES
    // Nodes have an ID of their own and a description.
    &&& forall|i: int|
        0 <= i < g.nodes.len() ==> !blank((#[trigger] g.nodes[i]).id) && !blank(
            g.nodes[i].description,
        )
    &&& forall|i: int, j: int|
        0 <= i < j < g.nodes.len() ==> (#[trigger] g.nodes[i]).id != (#[trigger] g.nodes[j]).id
    // Edges lead from node to node, and each makes a claim of its own.
    &&& forall|i: int|
        0 <= i < g.edges.len() ==> is_node(g.nodes, (#[trigger] g.edges[i]).from) && is_node(
            g.nodes,
            g.edges[i].to,
        )
    &&& forall|i: int, j: int|
        0 <= i < j < g.edges.len() ==> !same_claim(#[trigger] g.edges[i], #[trigger] g.edges[j])
    // Paths stay in the repository and hashes have the form of a SHA-256.
    &&& forall|i: int|
        0 <= i < g.source_files.len() ==> is_relative_path((#[trigger] g.source_files[i]).0)
            && is_sha256_hex(g.source_files[i].1)
    &&& forall|i: int| 0 <= i < g.nodes.len() ==> all_sound_evidence((#[trigger] g.nodes[i]).evidence)
    &&& forall|i: int| 0 <= i < g.edges.len() ==> all_sound_evidence((#[trigger] g.edges[i]).evidence)
}

/// The fault of the first of `n` items that has one.
pub open spec fn first_fault(n: int, fault: spec_fn(int) -> Option<GraphFault>) -> Option<GraphFault>
    decreases n,
{
    if n <= 0 {
        None
    } else {
        match first_fault(n - 1, fault) {
            Some(f) => Some(f),
            None => fault(n - 1),
        }
    }
}

/// What is wrong with the graph's own fields.
pub open spec fn header_fault(g: GraphView) -> Option<GraphFault> {
    if g.schema_version != SCHEMA_VERSION {
        Some(GraphFault::UnsupportedSchema(g.schema_version))
    } else if blank(g.id) {
        Some(GraphFault::EmptyId)
    } else if blank(g.description) {
        Some(GraphFault::EmptyDescription)
    } else if g.nodes.len() == 0 || g.nodes.len() > MAX_NODES {
        Some(GraphFault::NodeCount)
    } else if g.edges.len() > MAX_EDGES {
        Some(GraphFault::TooManyEdges)
    } else if g.source_files.len() > MAX_SOURCES {
        Some(GraphFault::TooManySources)
    } else {
        None
    }
}

/// What is wrong with a node, given the nodes before it.
pub open spec fn node_fault(nodes: Seq<NodeView>, at: int) -> Option<GraphFault> {
    let node = nodes[at];
    if blank(node.id) {
        Some(GraphFault::EmptyNodeId)
    } else if is_node(nodes.take(at), node.id) {
        Some(GraphFault::DuplicateNode(node.id))
    } else if blank(node.description) {
        Some(GraphFault::UndescribedNode(node.id))
    } else {
        None
    }
}

/// An edge makes the claim of an edge before it.
pub open spec fn repeats_claim(edges: Seq<EdgeView>, at: int) -> bool {
    exists|i: int| 0 <= i < at && same_claim(#[trigger] edges[i], edges[at])
}

/// What is wrong with an edge, given the edges before it.
pub open spec fn edge_fault(nodes: Seq<NodeView>, edges: Seq<EdgeView>, at: int) -> Option<
    GraphFault,
> {
    let edge = edges[at];
    if !is_node(nodes, edge.from) || !is_node(nodes, edge.to) {
        Some(GraphFault::DanglingEdge(edge.from, edge.to))
    } else if repeats_claim(edges, at) {
        Some(GraphFault::DuplicateEdge(edge.from, edge.to))
    } else {
        None
    }
}

/// What is wrong with a recorded source file.
pub open spec fn source_fault(source: (Seq<char>, Seq<char>)) -> Option<GraphFault> {
    if !is_relative_path(source.0) {
        Some(GraphFault::UnsafePath(source.0))
    } else if !is_sha256_hex(source.1) {
        Some(GraphFault::InvalidHash(source.0))
    } else {
        None
    }
}

/// What is wrong with a piece of evidence.
pub open spec fn evidence_fault(evidence: EvidenceView) -> Option<GraphFault> {
    if !is_relative_path(evidence.path) {
        Some(GraphFault::UnsafePath(evidence.path))
    } else if evidence.line == Some(0u32) {
        Some(GraphFault::ZeroLine)
    } else {
        None
    }
}

/// What is wrong with a list of evidence.
pub open spec fn evidence_list_fault(evidence: Seq<EvidenceView>) -> Option<GraphFault> {
    first_fault(evidence.len() as int, |i: int| evidence_fault(evidence[i]))
}

/// What is wrong with the nodes, in order.
pub open spec fn nodes_fault(nodes: Seq<NodeView>) -> Option<GraphFault> {
    first_fault(nodes.len() as int, |i: int| node_fault(nodes, i))
}

/// What is wrong with the edges, in order.
pub open spec fn edges_fault(nodes: Seq<NodeView>, edges: Seq<EdgeView>) -> Option<GraphFault> {
    first_fault(edges.len() as int, |i: int| edge_fault(nodes, edges, i))
}

/// What is wrong with the source files, in the order of their paths.
pub open spec fn sources_fault(sources: Seq<(Seq<char>, Seq<char>)>) -> Option<GraphFault> {
    first_fault(sources.len() as int, |i: int| source_fault(sources[i]))
}

/// What is wrong with the evidence of the nodes, in order.
pub open spec fn node_evidence_fault(nodes: Seq<NodeView>) -> Option<GraphFault> {
    first_fault(nodes.len() as int, |i: int| evidence_list_fault(nodes[i].evidence))
}

/// What is wrong with the evidence of the edges, in order.
pub open spec fn edge_evidence_fault(edges: Seq<EdgeView>) -> Option<GraphFault> {
    first_fault(edges.len() as int, |i: int| evidence_list_fault(edges[i].evidence))
}

/// The first thing wrong with a graph: its own fields, then its nodes, edges,
/// source files and evidence.
pub open spec fn graph_fault(g: GraphView) -> Option<GraphFault> {
    if header_fault(g) is Some {
        header_fault(g)
    } else if nodes_fault(g.nodes) is Some {
        nodes_fault(g.nodes)
    } else if edges_fault(g.nodes, g.edges) is Some {
        edges_fault(g.nodes, g.edges)
    } else if sources_fault(g.source_files) is Some {
        sources_fault(g.source_files)
    } else if node_evidence_fault(g.nodes) is Some {
        node_evidence_fault(g.nodes)
    } else {
        edge_evidence_fault(g.edges)
    }
}

/// There is no first fault exactly when no item has a fault.
pub proof fn lemma_no_first_fault(n: int, fault: spec_fn(int) -> Option<GraphFault>)
    ensures
        first_fault(n, fault) is None <==> (forall|i: int|
            0 <= i < n ==> (#[trigger] fault(i)) is None),
    decreases n,
{
    if n > 0 {
        lemma_no_first_fault(n - 1, fault);
        if first_fault(n, fault) is None {
            assert forall|i: int| 0 <= i < n implies (#[trigger] fault(i)) is None by {
                if i < n - 1 {
                    assert(first_fault(n - 1, fault) is None);
                }
            }
        }
    }
}

/// The first fault stays the first, whatever items follow.
pub proof fn lemma_first_fault_stays(n: int, m: int, fault: spec_fn(int) -> Option<GraphFault>)
    requires
        n <= m,
        first_fault(n, fault) is Some,
    ensures
        first_fault(m, fault) == first_fault(n, fault),
    decreases m - n,
{
    if n < m {
        lemma_first_fault_stays(n, m - 1, fault);
    }
}

/// A graph has no fault exactly when it is sound.
pub proof fn faultless_is_sound(g: GraphView)
    ensures
        graph_fault(g) is None <==> sound(g),
{
    let nf = |i: int| node_fault(g.nodes, i);
    let ef = |i: int| edge_fault(g.nodes, g.edges, i);
    let sf = |i: int| source_fault(g.source_files[i]);
    let nev = |i: int| evidence_list_fault(g.nodes[i].evidence);
    let eev = |i: int| evidence_list_fault(g.edges[i].evidence);
    lemma_no_first_fault(g.nodes.len() as int, nf);
    lemma_no_first_fault(g.edges.len() as int, ef);
    lemma_no_first_fault(g.source_files.len() as int, sf);
    lemma_no_first_fault(g.nodes.len() as int, nev);
    lemma_no_first_fault(g.edges.len() as int, eev);
    assert forall|i: int| 0 <= i < g.nodes.len() implies ((#[trigger] nev(i)) is None
        <==> all_sound_evidence(g.nodes[i].evidence)) by {
        lemma_sound_evidence_list(g.nodes[i].evidence);
    }
    assert forall|i: int| 0 <= i < g.edges.len() implies ((#[trigger] eev(i)) is None
        <==> all_sound_evidence(g.edges[i].evidence)) by {
        lemma_sound_evidence_list(g.edges[i].evidence);
    }
    if graph_fault(g) is None {
        assert forall|i: int| 0 <= i < g.nodes.len() implies !blank((#[trigger] g.nodes[i]).id)
            && !blank(g.nodes[i].description) && all_sound_evidence(g.nodes[i].evidence) by {
            assert(nf(i) is None);
            assert(nev(i) is None);
        }
        assert forall|i: int, j: int| 0 <= i < j < g.nodes.len() implies (#[trigger] g.nodes[i]).id
            != (#[trigger] g.nodes[j]).id by {
            assert(nf(j) is None);
            assert(g.nodes.take(j)[i] == g.nodes[i]);
        }
        assert forall|i: int| 0 <= i < g.edges.len() implies is_node(
            g.nodes,
            (#[trigger] g.edges[i]).from,
        ) && is_node(g.nodes, g.edges[i].to) && all_sound_evidence(g.edges[i].evidence) by {
            assert(ef(i) is None);
            assert(eev(i) is None);
        }
        assert forall|i: int, j: int| 0 <= i < j < g.edges.len() implies !same_claim(
            #[trigger] g.edges[i],
            #[trigger] g.edges[j],
        ) by {
            assert(ef(j) is None);
        }
        assert forall|i: int| 0 <= i < g.source_files.len() implies is_relative_path(
            (#[trigger] g.source_files[i]).0,
        ) && is_sha256_hex(g.source_files[i].1) by {
            assert(sf(i) is None);
        }
    }
    if sound(g) {
        assert forall|i: int| 0 <= i < g.nodes.len() implies (#[trigger] nf(i)) is None by {
            if is_node(g.nodes.take(i), g.nodes[i].id) {
                let j = choose|j: int|
                    0 <= j < g.nodes.take(i).len() && (#[trigger] g.nodes.take(i)[j]).id
                        == g.nodes[i].id;
                assert(g.nodes[j].id == g.nodes[i].id);
            }
        }
        assert forall|i: int| 0 <= i < g.edges.len() implies (#[trigger] ef(i)) is None by {
            assert(is_node(g.nodes, g.edges[i].from));
        }
        assert forall|i: int| 0 <= i < g.source_files.len() implies (#[trigger] sf(i)) is None by {
            assert(is_relative_path(g.source_files[i].0));
        }
        assert forall|i: int| 0 <= i < g.nodes.len() implies (#[trigger] nev(i)) is None by {
            assert(all_sound_evidence(g.nodes[i].evidence));
        }
        assert forall|i: int| 0 <= i < g.edges.len() implies (#[trigger] eev(i)) is None by {
            assert(all_sound_evidence(g.edges[i].evidence));
        }
    }
}

proof fn lemma_sound_evidence_list(evidence: Seq<EvidenceView>)
    ensures
        evidence_list_fault(evidence) is None <==> all_sound_evidence(evidence),
{
    let f = |i: int| evidence_fault(evidence[i]);
    lemma_no_first_fault(evidence.len() as int, f);
    if evidence_list_fault(evidence) is None {
        assert forall|i: int| 0 <= i < evidence.len() implies sound_evidence(
            #[trigger] evidence[i],
        ) by {
            assert(f(i) is None);
        }
    }
    if all_sound_evidence(evidence) {
        assert forall|i: int| 0 <= i < evidence.len() implies (#[trigger] f(i)) is None by {
            assert(sound_evidence(evidence[i]));
        }
    }
}

/// Whether one of the first `count` nodes bears the ID.
fn has_node(nodes: &Vec<SecurityNode>, count: usize, id: &str) -> (r: bool)
    requires
        count <= nodes@.len(),
    ensures
        r == is_node(node_views(nodes@).take(count as int), id@),
{
    let ghost all = node_views(nodes@);
    let mut i: usize = 0;
    while i < count
        invariant
            all == node_views(nodes@),
            i <= count <= nodes@.len(),
            forall|j: int| 0 <= j < i ==> (#[trigger] all.take(count as int)[j]).id != id@,
        decreases count - i,
    {
        assert(all.take(count as int)[i as int] == nodes@[i as int]@);
        if same_text(nodes[i].id.as_str(), id) {
            return true;
        }
        i += 1;
    }
    false
}

fn check_nodes(nodes: &Vec<SecurityNode>) -> (r: Result<(), GraphError>)
    ensures
        match r {
            Ok(()) => nodes_fault(node_views(nodes@)) is None,
            Err(e) => nodes_fault(node_views(nodes@)) == Some(e@),
        },
{
    let ghost all = node_views(nodes@);
    let ghost fault = |i: int| node_fault(all, i);
    let mut i: usize = 0;
    while i < nodes.len()
        invariant
            all == node_views(nodes@),
            fault == (|i: int| node_fault(all, i)),
            i <= nodes@.len(),
            first_fault(i as int, fault) is None,
        decreases nodes.len() - i,
    {
        let node = &nodes[i];
        assert(all[i as int] == node@);
        let ghost here = first_fault(i + 1, fault);
        proof {
            assert(here == fault(i as int));
            if here is Some {
                lemma_first_fault_stays(i + 1, all.len() as int, fault);
            }
        }
        if is_blank(node.id.as_str()) {
            return Err(GraphError::EmptyNodeId);
        }
        if has_node(nodes, i, node.id.as_str()) {
            return Err(GraphError::DuplicateNode(node.id.clone()));
        }
        if is_blank(node.description.as_str()) {
            return Err(GraphError::UndescribedNode(node.id.clone()));
        }
        i += 1;
    }
    Ok(())
}

fn repeats(edges: &Vec<SecurityEdge>, at: usize) -> (r: bool)
    requires
        at < edges@.len(),
    ensures
        r == repeats_claim(edge_views(edges@), at as int),
{
    let ghost all = edge_views(edges@);
    let edge = &edges[at];
    assert(all[at as int] == edge@);
    let mut i: usize = 0;
    while i < at
        invariant
            all == edge_views(edges@),
            at < edges@.len(),
            i <= at,
            all[at as int] == edge@,
            forall|j: int| 0 <= j < i ==> !same_claim(#[trigger] all[j], all[at as int]),
        decreases at - i,
    {
        let other = &edges[i];
        assert(all[i as int] == other@);
        if same_text(other.from.as_str(), edge.from.as_str()) && same_text(
            other.to.as_str(),
            edge.to.as_str(),
        ) && other.kind == edge.kind {
            assert(same_claim(all[i as int], all[at as int]));
            return true;
        }
        i += 1;
    }
    false
}

fn check_edges(nodes: &Vec<SecurityNode>, edges: &Vec<SecurityEdge>) -> (r: Result<(), GraphError>)
    ensures
        match r {
            Ok(()) => edges_fault(node_views(nodes@), edge_views(edges@)) is None,
            Err(e) => edges_fault(node_views(nodes@), edge_views(edges@)) == Some(e@),
        },
{
    let ghost ids = node_views(nodes@);
    let ghost all = edge_views(edges@);
    let ghost fault = |i: int| edge_fault(ids, all, i);
    assert(ids.take(ids.len() as int) =~= ids);
    let mut i: usize = 0;
    while i < edges.len()
        invariant
            ids == node_views(nodes@),
            ids.take(ids.len() as int) == ids,
            all == edge_views(edges@),
            fault == (|i: int| edge_fault(ids, all, i)),
            i <= edges@.len(),
            first_fault(i as int, fault) is None,
        decreases edges.len() - i,
    {
        let edge = &edges[i];
        assert(all[i as int] == edge@);
        let ghost here = first_fault(i + 1, fault);
        proof {
            assert(here == fault(i as int));
            if here is Some {
                lemma_first_fault_stays(i + 1, all.len() as int, fault);
            }
        }
        if !has_node(nodes, nodes.len(), edge.from.as_str()) || !has_node(
            nodes,
            nodes.len(),
            edge.to.as_str(),
        ) {
            return Err(GraphError::DanglingEdge(edge.from.clone(), edge.to.clone()));
        }
        if repeats(edges, i) {
            return Err(GraphError::DuplicateEdge(edge.from.clone(), edge.to.clone()));
        }
        i += 1;
    }
    Ok(())
}

fn check_sources(sources: &SourceFiles) -> (r: Result<(), GraphError>)
    ensures
        match r {
            Ok(()) => sources_fault(sources@) is None,
            Err(e) => sources_fault(sources@) == Some(e@),
        },
{
    let ghost fault = |i: int| source_fault(sources@[i]);
    let n: usize = sources.len();
    let mut i: usize = 0;
    while i < n
        invariant
            n == sources@.len(),
            fault == (|i: int| source_fault(sources@[i])),
            i <= n,
            first_fault(i as int, fault) is None,
        decreases n - i,
    {
        let ghost here = first_fault(i + 1, fault);
        proof {
            assert(here == fault(i as int));
            if here is Some {
                lemma_first_fault_stays(i + 1, n as int, fault);
            }
        }
        let path = sources.path(i);
        validate_relative_path(path)?;
        if !is_hex_of_length(sources.hash(i), 64) {
            return Err(GraphError::InvalidHash(path.to_owned()));
        }
        i += 1;
    }
    Ok(())
}

fn check_evidence(evidence: &Vec<EvidenceRef>) -> (r: Result<(), GraphError>)
    ensures
        match r {
            Ok(()) => evidence_list_fault(evidence_views(evidence@)) is None,
            Err(e) => evidence_list_fault(evidence_views(evidence@)) == Some(e@),
        },
{
    let ghost all = evidence_views(evidence@);
    let ghost fault = |i: int| evidence_fault(all[i]);
    let mut i: usize = 0;
    while i < evidence.len()
        invariant
            all == evidence_views(evidence@),
            fault == (|i: int| evidence_fault(all[i])),
            i <= evidence@.len(),
            first_fault(i as int, fault) is None,
        decreases evidence.len() - i,
    {
        let item = &evidence[i];
        assert(all[i as int] == item@);
        let ghost here = first_fault(i + 1, fault);
        proof {
            assert(here == fault(i as int));
            if here is Some {
                lemma_first_fault_stays(i + 1, all.len() as int, fault);
            }
        }
        validate_relative_path(item.path.as_str())?;
        if let Some(line) = item.line {
            if line == 0 {
                return Err(GraphError::ZeroLine);
            }
        }
        i += 1;
    }
    Ok(())
}

fn check_node_evidence(nodes: &Vec<SecurityNode>) -> (r: Result<(), GraphError>)
    ensures
        match r {
            Ok(()) => node_evidence_fault(node_views(nodes@)) is None,
            Err(e) => node_evidence_fault(node_views(nodes@)) == Some(e@),
        },
{
    let ghost all = node_views(nodes@);
    let ghost fault = |i: int| evidence_list_fault(all[i].evidence);
    let mut i: usize = 0;
    while i < nodes.len()
        invariant
            all == node_views(nodes@),
            fault == (|i: int| evidence_list_fault(all[i].evidence)),
            i <= nodes@.len(),
            first_fault(i as int, fault) is None,
        decreases nodes.len() - i,
    {
        assert(all[i as int] == nodes@[i as int]@);
        proof {
            assert(first_fault(i + 1, fault) == fault(i as int));
            if fault(i as int) is Some {
                lemma_first_fault_stays(i + 1, all.len() as int, fault);
            }
        }
        check_evidence(&nodes[i].evidence)?;
        i += 1;
    }
    Ok(())
}

fn check_edge_evidence(edges: &Vec<SecurityEdge>) -> (r: Result<(), GraphError>)
    ensures
        match r {
            Ok(()) => edge_evidence_fault(edge_views(edges@)) is None,
            Err(e) => edge_evidence_fault(edge_views(edges@)) == Some(e@),
        },
{
    let ghost all = edge_views(edges@);
    let ghost fault = |i: int| evidence_list_fault(all[i].evidence);
    let mut i: usize = 0;
    while i < edges.len()
        invariant
            all == edge_views(edges@),
            fault == (|i: int| evidence_list_fault(all[i].evidence)),
            i <= edges@.len(),
            first_fault(i as int, fault) is None,
        decreases edges.len() - i,
    {
        assert(all[i as int] == edges@[i as int]@);
        proof {
            assert(first_fault(i + 1, fault) == fault(i as int));
            if fault(i as int) is Some {
                lemma_first_fault_stays(i + 1, all.len() as int, fault);
            }
        }
        check_evidence(&edges[i].evidence)?;
        i += 1;
    }
    Ok(())
}

impl SecurityGraph {
    /// Checks the structure of a graph, not its claims: the first fault, if there is one.
    pub fn validate(&self) -> (r: Result<(), GraphError>)
        ensures
            match r {
                Ok(()) => graph_fault(self@) is None,
                Err(e) => graph_fault(self@) == Some(e@),
            },
            r is Ok <==> sound(self@),
    {
        proof {
            faultless_is_sound(self@);
        }
        if self.schema_version != SCHEMA_VERSION {
            return Err(GraphError::UnsupportedSchema(self.schema_version));
        }
        if is_blank(self.id.as_str()) {
            return Err(GraphError::EmptyId);
        }
        if is_blank(self.description.as_str()) {
            return Err(GraphError::EmptyDescription);
        }
        if self.nodes.len() == 0 || self.nodes.len() > MAX_NODES {
            return Err(GraphError::NodeCount);
        }
        if self.edges.len() > MAX_EDGES {
            return Err(GraphError::TooManyEdges);
        }
        if self.source_files.len() > MAX_SOURCES {
            return Err(GraphError::TooManySources);
        }
        check_nodes(&self.nodes)?;
        check_edges(&self.nodes, &self.edges)?;
        check_sources(&self.source_files)?;
        check_node_evidence(&self.nodes)?;
        check_edge_evidence(&self.edges)
    }
}

/// The path of a piece of evidence or of a source file stays in the repository.
pub open spec fn in_repository(path: Seq<char>) -> bool {
    &&& path.len() > 0
    &&& forall|i: int| 0 <= i < path.len() ==> (#[trigger] path[i]) != '\\' && path[i] != ':'
    &&& path[0] != '/'
    &&& !(path[0] == '.' && (path.len() == 1 || path[1] == '/'))
    &&& !exists|i: int|
        {
            &&& 0 <= i < path.len() - 1
            &&& #[trigger] path[i] == '.'
            &&& path[i + 1] == '.'
            &&& i == 0 || path[i - 1] == '/'
            &&& i == path.len() - 2 || path[i + 2] == '/'
        }
}

/// The text is 64 hexadecimal digits.
pub open spec fn is_recordable(hash: Seq<char>) -> bool {
    hash.len() == 64 && forall|i: int|
        0 <= i < hash.len() ==> '0' <= (#[trigger] hash[i]) <= '9' || 'a' <= hash[i] <= 'f' || 'A'
            <= hash[i] <= 'F'
}

/// Something in the text is not white space.
pub open spec fn tells(s: Seq<char>) -> bool {
    exists|i: int| 0 <= i < s.len() && !white_code((#[trigger] s[i]) as int)
}

/// The paths that are accepted are those that stay in the repository.
pub proof fn accepted_paths_stay_in_the_repository(path: Seq<char>)
    ensures
        in_repository(path) <==> is_relative_path(path),
{
    if is_relative_path(path) {
        assert forall|i: int| 0 <= i < path.len() implies (#[trigger] path[i]) != '\\' && path[i]
            != ':' by {
            assert(path.contains(path[i]));
        }
        if exists|i: int|
            {
                &&& 0 <= i < path.len() - 1
                &&& #[trigger] path[i] == '.'
                &&& path[i + 1] == '.'
                &&& i == 0 || path[i - 1] == '/'
                &&& i == path.len() - 2 || path[i + 2] == '/'
            } {
            let i = choose|i: int|
                {
                    &&& 0 <= i < path.len() - 1
                    &&& #[trigger] path[i] == '.'
                    &&& path[i + 1] == '.'
                    &&& i == 0 || path[i - 1] == '/'
                    &&& i == path.len() - 2 || path[i + 2] == '/'
                };
            assert(parent_at(path, i));
        }
    }
    if in_repository(path) {
        assert forall|at: int| !parent_at(path, at) by {
            if parent_at(path, at) {
                assert(path[at] == '.');
            }
        }
    }
}

/// The graph follows every rule of the schema: its version is 1, its ID and its description
/// tell something, it has from 1 to 100 nodes, at most 300 edges and at most 100 source
/// files, every node has an ID of its own and a description, every edge leads from a node to
/// a node and makes a claim of its own, every path stays in the repository, every recorded
/// hash is 64 hexadecimal digits, and lines count from 1.
pub open spec fn lawful(g: GraphView) -> bool {
    &&& g.schema_version == 1
    &&& tells(g.id)
    &&& tells(g.description)
    &&& 1 <= g.nodes.len() <= 100
    &&& g.edges.len() <= 300
    &&& g.source_files.len() <= 100
    &&& forall|i: int|
        0 <= i < g.nodes.len() ==> tells((#[trigger] g.nodes[i]).id) && tells(
            g.nodes[i].description,
        )
    &&& forall|i: int, j: int|
        0 <= i < g.nodes.len() && 0 <= j < g.nodes.len() && i != j ==> (
        #[trigger] g.nodes[i]).id != (#[trigger] g.nodes[j]).id
    &&& forall|i: int|
        0 <= i < g.edges.len() ==> (exists|j: int|
            0 <= j < g.nodes.len() && (#[trigger] g.nodes[j]).id == (
            #[trigger] g.edges[i]).from) && (exists|j: int|
            0 <= j < g.nodes.len() && (#[trigger] g.nodes[j]).id == g.edges[i].to)
    &&& forall|i: int, j: int|
        0 <= i < g.edges.len() && 0 <= j < g.edges.len() && i != j ==> (
        #[trigger] g.edges[i]).from != (#[trigger] g.edges[j]).from || g.edges[i].to
            != g.edges[j].to || g.edges[i].kind != g.edges[j].kind
    &&& forall|i: int|
        0 <= i < g.source_files.len() ==> in_repository((#[trigger] g.source_files[i]).0)
            && is_recordable(g.source_files[i].1)
    &&& forall|i: int, j: int|
        0 <= i < g.nodes.len() && 0 <= j < g.nodes[i].evidence.len() ==> in_repository(
            (#[trigger] g.nodes[i].evidence[j]).path,
        ) && g.nodes[i].evidence[j].line != Some(0u32)
    &&& forall|i: int, j: int|
        0 <= i < g.edges.len() && 0 <= j < g.edges[i].evidence.len() ==> in_repository(
            (#[trigger] g.edges[i].evidence[j]).path,
        ) && g.edges[i].evidence[j].line != Some(0u32)
}

/// A graph is accepted exactly when it follows every rule of the schema.
pub proof fn accepted_graphs_follow_the_rules(g: GraphView)
    ensures
        graph_fault(g) is None <==> lawful(g),
{
    faultless_is_sound(g);
    assert forall|path: Seq<char>| #[trigger] in_repository(path) <==> is_relative_path(path) by {
        accepted_paths_stay_in_the_repository(path);
    }
    assert forall|s: Seq<char>| #[trigger] tells(s) <==> !blank(s) by {}
    assert forall|s: Seq<char>| #[trigger] is_recordable(s) <==> is_sha256_hex(s) by {}
    if sound(g) {
        assert forall|i: int| 0 <= i < g.source_files.len() implies in_repository(
            (#[trigger] g.source_files[i]).0,
        ) && is_recordable(g.source_files[i].1) by {
            accepted_paths_stay_in_the_repository(g.source_files[i].0);
        }
        assert forall|i: int, j: int|
            0 <= i < g.nodes.len() && 0 <= j < g.nodes[i].evidence.len() implies in_repository(
            (#[trigger] g.nodes[i].evidence[j]).path,
        ) && g.nodes[i].evidence[j].line != Some(0u32) by {
            assert(all_sound_evidence(g.nodes[i].evidence));
            assert(sound_evidence(g.nodes[i].evidence[j]));
            accepted_paths_stay_in_the_repository(g.nodes[i].evidence[j].path);
        }
        assert forall|i: int, j: int|
            0 <= i < g.edges.len() && 0 <= j < g.edges[i].evidence.len() implies in_repository(
            (#[trigger] g.edges[i].evidence[j]).path,
        ) && g.edges[i].evidence[j].line != Some(0u32) by {
            assert(all_sound_evidence(g.edges[i].evidence));
            assert(sound_evidence(g.edges[i].evidence[j]));
            accepted_paths_stay_in_the_repository(g.edges[i].evidence[j].path);
        }
        assert forall|i: int| 0 <= i < g.edges.len() implies (exists|j: int|
            0 <= j < g.nodes.len() && (#[trigger] g.nodes[j]).id == (#[trigger] g.edges[i]).from)
            && (exists|j: int|
            0 <= j < g.nodes.len() && (#[trigger] g.nodes[j]).id == g.edges[i].to) by {
            assert(is_node(g.nodes, g.edges[i].from));
            assert(is_node(g.nodes, g.edges[i].to));
        }
        assert forall|i: int, j: int|
            0 <= i < g.edges.len() && 0 <= j < g.edges.len() && i != j implies (
        #[trigger] g.edges[i]).from != (#[trigger] g.edges[j]).from || g.edges[i].to
            != g.edges[j].to || g.edges[i].kind != g.edges[j].kind by {
            if i < j {
                assert(!same_claim(g.edges[i], g.edges[j]));
            } else {
                assert(!same_claim(g.edges[j], g.edges[i]));
            }
        }
    }
}

proof fn lemma_first_fault_is_some(n: int, fault: spec_fn(int) -> Option<GraphFault>) -> (at: int)
    requires
        first_fault(n, fault) is Some,
    ensures
        0 <= at < n,
        fault(at) == first_fault(n, fault),
        forall|i: int| 0 <= i < at ==> (#[trigger] fault(i)) is None,
    decreases n,
{
    if first_fault(n - 1, fault) is Some {
        lemma_first_fault_is_some(n - 1, fault)
    } else {
        lemma_no_first_fault(n - 1, fault);
        n - 1
    }
}

/// Some piece of evidence of the graph is of this kind.
pub open spec fn some_evidence(g: GraphView, of: spec_fn(EvidenceView) -> bool) -> bool {
    ||| exists|i: int, j: int|
        0 <= i < g.nodes.len() && 0 <= j < g.nodes[i].evidence.len() && of(
            #[trigger] g.nodes[i].evidence[j],
        )
    ||| exists|i: int, j: int|
        0 <= i < g.edges.len() && 0 <= j < g.edges[i].evidence.len() && of(
            #[trigger] g.edges[i].evidence[j],
        )
}

/// What a graph is refused for is true of it.
pub proof fn fault_is_true_of_the_graph(g: GraphView)
    ensures
        graph_fault(g) matches Some(fault) ==> match fault {
            GraphFault::UnsupportedSchema(version) => version == g.schema_version && version != 1,
            GraphFault::EmptyId => !tells(g.id),
            GraphFault::EmptyDescription => !tells(g.description),
            GraphFault::NodeCount => g.nodes.len() == 0 || g.nodes.len() > 100,
            GraphFault::TooManyEdges => g.edges.len() > 300,
            GraphFault::TooManySources => g.source_files.len() > 100,
            GraphFault::EmptyNodeId => exists|i: int|
                0 <= i < g.nodes.len() && !tells((#[trigger] g.nodes[i]).id),
            GraphFault::DuplicateNode(id) => exists|i: int, j: int|
                0 <= i < j < g.nodes.len() && (#[trigger] g.nodes[i]).id == id && (
                #[trigger] g.nodes[j]).id == id,
            GraphFault::UndescribedNode(id) => exists|i: int|
                0 <= i < g.nodes.len() && (#[trigger] g.nodes[i]).id == id && !tells(
                    g.nodes[i].description,
                ),
            GraphFault::DanglingEdge(from, to) => (exists|i: int|
                0 <= i < g.edges.len() && (#[trigger] g.edges[i]).from == from && g.edges[i].to
                    == to) && ((forall|j: int|
                0 <= j < g.nodes.len() ==> (#[trigger] g.nodes[j]).id != from) || (forall|j: int|
                0 <= j < g.nodes.len() ==> (#[trigger] g.nodes[j]).id != to)),
            GraphFault::DuplicateEdge(from, to) => exists|i: int, j: int|
                0 <= i < j < g.edges.len() && (#[trigger] g.edges[i]).from == from && (
                #[trigger] g.edges[j]).from == from && g.edges[i].to == to && g.edges[j].to == to
                    && g.edges[i].kind == g.edges[j].kind,
            GraphFault::UnsafePath(path) => !in_repository(path) && ((exists|i: int|
                0 <= i < g.source_files.len() && (#[trigger] g.source_files[i]).0 == path)
                || some_evidence(g, |e: EvidenceView| e.path == path)),
            GraphFault::InvalidHash(path) => exists|i: int|
                0 <= i < g.source_files.len() && (#[trigger] g.source_files[i]).0 == path
                    && !is_recordable(g.source_files[i].1),
            GraphFault::ZeroLine => some_evidence(g, |e: EvidenceView| e.line == Some(0u32)),
            _ => false,
        },
{
    assert forall|s: Seq<char>| #[trigger] tells(s) <==> !blank(s) by {}
    assert forall|s: Seq<char>| #[trigger] is_recordable(s) <==> is_sha256_hex(s) by {}
    if header_fault(g) is Some {
    } else if nodes_fault(g.nodes) is Some {
        let at = lemma_first_fault_is_some(
            g.nodes.len() as int,
            |i: int| node_fault(g.nodes, i),
        );
        assert(node_fault(g.nodes, at) == nodes_fault(g.nodes));
        if is_node(g.nodes.take(at), g.nodes[at].id) {
            let i = choose|i: int|
                0 <= i < g.nodes.take(at).len() && (#[trigger] g.nodes.take(at)[i]).id
                    == g.nodes[at].id;
            assert(g.nodes[i].id == g.nodes[at].id);
        }
    } else if edges_fault(g.nodes, g.edges) is Some {
        let at = lemma_first_fault_is_some(
            g.edges.len() as int,
            |i: int| edge_fault(g.nodes, g.edges, i),
        );
        assert(edge_fault(g.nodes, g.edges, at) == edges_fault(g.nodes, g.edges));
        if repeats_claim(g.edges, at) {
            let i = choose|i: int| 0 <= i < at && same_claim(#[trigger] g.edges[i], g.edges[at]);
            assert(g.edges[i].from == g.edges[at].from);
        }
    } else if sources_fault(g.source_files) is Some {
        let at = lemma_first_fault_is_some(
            g.source_files.len() as int,
            |i: int| source_fault(g.source_files[i]),
        );
        assert(source_fault(g.source_files[at]) == sources_fault(g.source_files));
        accepted_paths_stay_in_the_repository(g.source_files[at].0);
    } else if node_evidence_fault(g.nodes) is Some {
        let at = lemma_first_fault_is_some(
            g.nodes.len() as int,
            |i: int| evidence_list_fault(g.nodes[i].evidence),
        );
        let evidence = g.nodes[at].evidence;
        assert(evidence_list_fault(evidence) == node_evidence_fault(g.nodes));
        let j = lemma_first_fault_is_some(
            evidence.len() as int,
            |i: int| evidence_fault(evidence[i]),
        );
        assert(evidence_fault(g.nodes[at].evidence[j]) == node_evidence_fault(g.nodes));
        accepted_paths_stay_in_the_repository(evidence[j].path);
    } else if edge_evidence_fault(g.edges) is Some {
        let at = lemma_first_fault_is_some(
            g.edges.len() as int,
            |i: int| evidence_list_fault(g.edges[i].evidence),
        );
        let evidence = g.edges[at].evidence;
        assert(evidence_list_fault(evidence) == edge_evidence_fault(g.edges));
        let j = lemma_first_fault_is_some(
            evidence.len() as int,
            |i: int| evidence_fault(evidence[i]),
        );
        assert(evidence_fault(g.edges[at].evidence[j]) == edge_evidence_fault(g.edges));
        accepted_paths_stay_in_the_repository(evidence[j].path);
    }
}

/// The fault that is told is the first: what is checked before it is in order. The graph's
/// own fields come before its nodes, these before its edges, these before its source files,
/// and all of them before the evidence.
pub proof fn fault_that_is_told_is_the_first(g: GraphView)
    ensures
        graph_fault(g) matches Some(fault) ==> {
            let header = fault is UnsupportedSchema || fault is EmptyId || fault is EmptyDescription
                || fault is NodeCount || fault is TooManyEdges || fault is TooManySources;
            let nodes = fault is EmptyNodeId || fault is DuplicateNode || fault is UndescribedNode;
            let edges = fault is DanglingEdge || fault is DuplicateEdge;
            &&& !(fault is UnsupportedSchema) ==> g.schema_version == 1
            &&& !(fault is UnsupportedSchema || fault is EmptyId) ==> tells(g.id)
            &&& !(fault is UnsupportedSchema || fault is EmptyId || fault is EmptyDescription)
                ==> tells(g.description)
            &&& !header || fault is TooManyEdges || fault is TooManySources ==> 1 <= g.nodes.len()
                <= 100
            &&& !header || fault is TooManySources ==> g.edges.len() <= 300
            &&& !header ==> g.source_files.len() <= 100
            &&& !header && !nodes ==> (forall|i: int|
                0 <= i < g.nodes.len() ==> tells((#[trigger] g.nodes[i]).id) && tells(
                    g.nodes[i].description,
                )) && (forall|i: int, j: int|
                0 <= i < j < g.nodes.len() ==> (#[trigger] g.nodes[i]).id != (
                #[trigger] g.nodes[j]).id)
            &&& !header && !nodes && !edges ==> (forall|i: int|
                0 <= i < g.edges.len() ==> is_node(g.nodes, (#[trigger] g.edges[i]).from)
                    && is_node(g.nodes, g.edges[i].to)) && (forall|i: int, j: int|
                0 <= i < j < g.edges.len() ==> (#[trigger] g.edges[i]).from != (
                #[trigger] g.edges[j]).from || g.edges[i].to != g.edges[j].to || g.edges[i].kind
                    != g.edges[j].kind)
            &&& fault is ZeroLine ==> forall|i: int|
                0 <= i < g.source_files.len() ==> in_repository((#[trigger] g.source_files[i]).0)
                    && is_recordable(g.source_files[i].1)
        },
{
    assert forall|s: Seq<char>| #[trigger] tells(s) <==> !blank(s) by {}
    fault_is_true_of_the_graph(g);
    let nf = |i: int| node_fault(g.nodes, i);
    let ef = |i: int| edge_fault(g.nodes, g.edges, i);
    let sf = |i: int| source_fault(g.source_files[i]);
    lemma_no_first_fault(g.nodes.len() as int, nf);
    lemma_no_first_fault(g.edges.len() as int, ef);
    lemma_no_first_fault(g.source_files.len() as int, sf);
    if nodes_fault(g.nodes) is Some {
        let at = lemma_first_fault_is_some(g.nodes.len() as int, nf);
    } else {
        assert forall|i: int| 0 <= i < g.nodes.len() implies tells((#[trigger] g.nodes[i]).id)
            && tells(g.nodes[i].description) by {
            assert(nf(i) is None);
        }
        assert forall|i: int, j: int| 0 <= i < j < g.nodes.len() implies (#[trigger] g.nodes[i]).id
            != (#[trigger] g.nodes[j]).id by {
            assert(nf(j) is None);
            assert(g.nodes.take(j)[i] == g.nodes[i]);
        }
        if edges_fault(g.nodes, g.edges) is Some {
            let at = lemma_first_fault_is_some(g.edges.len() as int, ef);
        } else {
            assert forall|i: int| 0 <= i < g.edges.len() implies is_node(
                g.nodes,
                (#[trigger] g.edges[i]).from,
            ) && is_node(g.nodes, g.edges[i].to) by {
                assert(ef(i) is None);
            }
            assert forall|i: int, j: int| 0 <= i < j < g.edges.len() implies (
            #[trigger] g.edges[i]).from != (#[trigger] g.edges[j]).from || g.edges[i].to
                != g.edges[j].to || g.edges[i].kind != g.edges[j].kind by {
                assert(ef(j) is None);
                assert(!same_claim(g.edges[i], g.edges[j]));
            }
            if sources_fault(g.source_files) is Some {
                let at = lemma_first_fault_is_some(g.source_files.len() as int, sf);
            } else {
                assert forall|i: int| 0 <= i < g.source_files.len() implies in_repository(
                    (#[trigger] g.source_files[i]).0,
                ) && is_recordable(g.source_files[i].1) by {
                    assert(sf(i) is None);
                    accepted_paths_stay_in_the_repository(g.source_files[i].0);
                }
            }
        }
    }
}

/// A node is in order: it has an ID that no node before it has, and a description.
pub open spec fn node_in_order(g: GraphView, at: int) -> bool {
    tells(g.nodes[at].id) && tells(g.nodes[at].description) && forall|j: int|
        0 <= j < at ==> (#[trigger] g.nodes[j]).id != g.nodes[at].id
}

/// An edge is in order: it leads from a node to a node, and no edge before it makes its claim.
pub open spec fn edge_in_order(g: GraphView, at: int) -> bool {
    is_node(g.nodes, g.edges[at].from) && is_node(g.nodes, g.edges[at].to) && forall|j: int|
        0 <= j < at ==> (#[trigger] g.edges[j]).from != g.edges[at].from || g.edges[j].to
            != g.edges[at].to || g.edges[j].kind != g.edges[at].kind
}

/// A node is the first that is not in order.
pub open spec fn first_faulty_node(g: GraphView, at: int) -> bool {
    0 <= at < g.nodes.len() && !node_in_order(g, at) && forall|i: int|
        0 <= i < at ==> #[trigger] node_in_order(g, i)
}

/// An edge is the first that is not in order.
pub open spec fn first_faulty_edge(g: GraphView, at: int) -> bool {
    0 <= at < g.edges.len() && !edge_in_order(g, at) && forall|i: int|
        0 <= i < at ==> #[trigger] edge_in_order(g, i)
}

/// Of several nodes, edges or source files with a fault, the first is told: everything
/// before it is in order.
pub proof fn first_faulty_part_is_told(g: GraphView)
    ensures
        graph_fault(g) == Some(GraphFault::EmptyNodeId) ==> exists|at: int| #[trigger]
            first_faulty_node(g, at) && !tells(g.nodes[at].id),
        graph_fault(g) matches Some(GraphFault::DuplicateNode(id)) ==> exists|at: int| #[trigger]
            first_faulty_node(g, at) && g.nodes[at].id == id && tells(id),
        graph_fault(g) matches Some(GraphFault::UndescribedNode(id)) ==> exists|at: int| #[trigger]
            first_faulty_node(g, at) && g.nodes[at].id == id && !tells(g.nodes[at].description),
        graph_fault(g) matches Some(GraphFault::DanglingEdge(from, to)) ==> exists|at: int|
            #[trigger]
            first_faulty_edge(g, at) && g.edges[at].from == from && g.edges[at].to == to,
        graph_fault(g) matches Some(GraphFault::DuplicateEdge(from, to)) ==> exists|at: int|
            #[trigger]
            first_faulty_edge(g, at) && g.edges[at].from == from && g.edges[at].to == to && is_node(
                g.nodes,
                from,
            ) && is_node(g.nodes, to),
        graph_fault(g) matches Some(GraphFault::InvalidHash(path)) ==> exists|at: int|
            {
                &&& 0 <= at < g.source_files.len()
                &&& (#[trigger] g.source_files[at]).0 == path
                &&& in_repository(path)
                &&& !is_recordable(g.source_files[at].1)
                &&& forall|i: int|
                    0 <= i < at ==> in_repository((#[trigger] g.source_files[i]).0)
                        && is_recordable(g.source_files[i].1)
            },
{
    assert forall|s: Seq<char>| #[trigger] tells(s) <==> !blank(s) by {}
    assert forall|s: Seq<char>| #[trigger] is_recordable(s) <==> is_sha256_hex(s) by {}
    fault_is_true_of_the_graph(g);
    if header_fault(g) is Some {
    } else if nodes_fault(g.nodes) is Some {
        let nf = |i: int| node_fault(g.nodes, i);
        let at = lemma_first_fault_is_some(g.nodes.len() as int, nf);
        assert forall|i: int| 0 <= i < g.nodes.len() implies (#[trigger] node_in_order(g, i)
            <==> node_fault(g.nodes, i) is None) by {
            lemma_node_in_order(g.nodes, i);
        }
        assert forall|i: int| 0 <= i < at implies #[trigger] node_in_order(g, i) by {
            assert(nf(i) is None);
        }
        assert(node_fault(g.nodes, at) == graph_fault(g));
        assert(first_faulty_node(g, at));
    } else if edges_fault(g.nodes, g.edges) is Some {
        let ef = |i: int| edge_fault(g.nodes, g.edges, i);
        let at = lemma_first_fault_is_some(g.edges.len() as int, ef);
        assert forall|i: int| 0 <= i < g.edges.len() implies (#[trigger] edge_in_order(g, i)
            <==> edge_fault(g.nodes, g.edges, i) is None) by {
            lemma_edge_in_order(g.nodes, g.edges, i);
        }
        assert forall|i: int| 0 <= i < at implies #[trigger] edge_in_order(g, i) by {
            assert(ef(i) is None);
        }
        assert(edge_fault(g.nodes, g.edges, at) == graph_fault(g));
        assert(first_faulty_edge(g, at));
    } else if sources_fault(g.source_files) is Some {
        let sf = |i: int| source_fault(g.source_files[i]);
        let at = lemma_first_fault_is_some(g.source_files.len() as int, sf);
        accepted_paths_stay_in_the_repository(g.source_files[at].0);
        assert forall|i: int| 0 <= i < at implies in_repository((#[trigger] g.source_files[i]).0)
            && is_recordable(g.source_files[i].1) by {
            assert(sf(i) is None);
            accepted_paths_stay_in_the_repository(g.source_files[i].0);
        }
        assert(source_fault(g.source_files[at]) == graph_fault(g));
    } else if node_evidence_fault(g.nodes) is Some {
        let at = lemma_first_fault_is_some(
            g.nodes.len() as int,
            |i: int| evidence_list_fault(g.nodes[i].evidence),
        );
        lemma_fault_of_evidence(g.nodes[at].evidence);
    } else if edge_evidence_fault(g.edges) is Some {
        let at = lemma_first_fault_is_some(
            g.edges.len() as int,
            |i: int| evidence_list_fault(g.edges[i].evidence),
        );
        lemma_fault_of_evidence(g.edges[at].evidence);
    }
}

proof fn lemma_fault_of_evidence(evidence: Seq<EvidenceView>)
    ensures
        evidence_list_fault(evidence) matches Some(fault) ==> fault is UnsafePath || fault is ZeroLine,
{
    if evidence_list_fault(evidence) is Some {
        let at = lemma_first_fault_is_some(
            evidence.len() as int,
            |i: int| evidence_fault(evidence[i]),
        );
    }
}

proof fn lemma_node_in_order(nodes: Seq<NodeView>, at: int)
    requires
        0 <= at < nodes.len(),
    ensures
        node_fault(nodes, at) is None <==> !blank(nodes[at].id) && !blank(nodes[at].description)
            && forall|j: int| 0 <= j < at ==> (#[trigger] nodes[j]).id != nodes[at].id,
{
    let before = nodes.take(at);
    if is_node(before, nodes[at].id) {
        let j = choose|j: int| 0 <= j < before.len() && (#[trigger] before[j]).id == nodes[at].id;
        assert(nodes[j].id == nodes[at].id);
    } else {
        assert forall|j: int| 0 <= j < at implies (#[trigger] nodes[j]).id != nodes[at].id by {
            assert(before[j] == nodes[j]);
        }
    }
}

proof fn lemma_edge_in_order(nodes: Seq<NodeView>, edges: Seq<EdgeView>, at: int)
    requires
        0 <= at < edges.len(),
    ensures
        edge_fault(nodes, edges, at) is None <==> is_node(nodes, edges[at].from) && is_node(
            nodes,
            edges[at].to,
        ) && forall|j: int|
            0 <= j < at ==> (#[trigger] edges[j]).from != edges[at].from || edges[j].to
                != edges[at].to || edges[j].kind != edges[at].kind,
{
    if !repeats_claim(edges, at) {
        assert forall|j: int| 0 <= j < at implies (#[trigger] edges[j]).from != edges[at].from
            || edges[j].to != edges[at].to || edges[j].kind != edges[at].kind by {
            assert(!same_claim(edges[j], edges[at]));
        }
    } else {
        let j = choose|j: int| 0 <= j < at && same_claim(#[trigger] edges[j], edges[at]);
        assert(edges[j].from == edges[at].from);
    }
}

} // verus!
