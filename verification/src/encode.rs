//! The JSON document of a security graph.

use vstd::prelude::*;

use crate::graph::{
    edge_views, evidence_views, node_views, ClaimStatus, EdgeKind, EdgeView, EvidenceRef,
    EvidenceView, GraphView, NodeKind, NodeView, SecurityEdge, SecurityGraph, SecurityNode,
};
use crate::json::{add_field, add_item, doc_fields, docs, list, record, text, Doc, Json};
use crate::sources::SourceFiles;

verus! {

/// The order in which the fields of a record are written.
#[derive(Debug, Clone, Copy, PartialEq, Eq, Structural)]
pub enum Layout {
    /// As the schema declares them.
    Declared,
    /// By their names, in the order of strings.
    ByName,
}

// The names of the schema's values.

/// The name of a node kind.
pub open spec fn node_kind_name(kind: NodeKind) -> Seq<char> {
    match kind {
        NodeKind::Component => "component"@,
        NodeKind::Dependency => "dependency"@,
        NodeKind::Asset => "asset"@,
        NodeKind::TrustBoundary => "trust_boundary"@,
        NodeKind::Assumption => "assumption"@,
        NodeKind::Threat => "threat"@,
        NodeKind::Control => "control"@,
        NodeKind::Finding => "finding"@,
        NodeKind::Evidence => "evidence"@,
    }
}

/// The name of a claim's status.
pub open spec fn status_name(status: ClaimStatus) -> Seq<char> {
    match status {
        ClaimStatus::Observed => "observed"@,
        ClaimStatus::Inferred => "inferred"@,
        ClaimStatus::Proposed => "proposed"@,
    }
}

/// The name of an edge kind.
pub open spec fn edge_kind_name(kind: EdgeKind) -> Seq<char> {
    match kind {
        EdgeKind::Calls => "calls"@,
        EdgeKind::DependsOn => "depends_on"@,
        EdgeKind::FlowsTo => "flows_to"@,
        EdgeKind::Inside => "inside"@,
        EdgeKind::Crosses => "crosses"@,
        EdgeKind::DependsOnAssumption => "depends_on_assumption"@,
        EdgeKind::Threatens => "threatens"@,
        EdgeKind::Violates => "violates"@,
        EdgeKind::Mitigates => "mitigates"@,
        EdgeKind::Protects => "protects"@,
        EdgeKind::SupportedBy => "supported_by"@,
    }
}

fn write_node_kind(kind: NodeKind) -> (r: Json)
    ensures
        r@ == Doc::Text(node_kind_name(kind)),
{
    match kind {
        NodeKind::Component => text("component"),
        NodeKind::Dependency => text("dependency"),
        NodeKind::Asset => text("asset"),
        NodeKind::TrustBoundary => text("trust_boundary"),
        NodeKind::Assumption => text("assumption"),
        NodeKind::Threat => text("threat"),
        NodeKind::Control => text("control"),
        NodeKind::Finding => text("finding"),
        NodeKind::Evidence => text("evidence"),
    }
}

fn write_status(status: ClaimStatus) -> (r: Json)
    ensures
        r@ == Doc::Text(status_name(status)),
{
    match status {
        ClaimStatus::Observed => text("observed"),
        ClaimStatus::Inferred => text("inferred"),
        ClaimStatus::Proposed => text("proposed"),
    }
}

fn write_edge_kind(kind: EdgeKind) -> (r: Json)
    ensures
        r@ == Doc::Text(edge_kind_name(kind)),
{
    match kind {
        EdgeKind::Calls => text("calls"),
        EdgeKind::DependsOn => text("depends_on"),
        EdgeKind::FlowsTo => text("flows_to"),
        EdgeKind::Inside => text("inside"),
        EdgeKind::Crosses => text("crosses"),
        EdgeKind::DependsOnAssumption => text("depends_on_assumption"),
        EdgeKind::Threatens => text("threatens"),
        EdgeKind::Violates => text("violates"),
        EdgeKind::Mitigates => text("mitigates"),
        EdgeKind::Protects => text("protects"),
        EdgeKind::SupportedBy => text("supported_by"),
    }
}

// Writing.

/// The document of a piece of evidence. A symbol or a line that is not there is left out.
pub open spec fn evidence_doc(e: EvidenceView, layout: Layout) -> Doc {
    let path = seq![("path"@, Doc::Text(e.path))];
    let symbol = match e.symbol {
        Some(symbol) => seq![("symbol"@, Doc::Text(symbol))],
        None => seq![],
    };
    let line = match e.line {
        Some(line) => seq![("line"@, Doc::Natural(line as u64))],
        None => seq![],
    };
    match layout {
        Layout::Declared => Doc::Record(path + symbol + line),
        Layout::ByName => Doc::Record(line + path + symbol),
    }
}

/// The document of a list of evidence.
pub open spec fn evidence_list_doc(evidence: Seq<EvidenceView>, layout: Layout) -> Doc {
    Doc::List(evidence.map_values(|e: EvidenceView| evidence_doc(e, layout)))
}

/// The document of a node.
pub open spec fn node_doc(n: NodeView, layout: Layout) -> Doc {
    let id = ("id"@, Doc::Text(n.id));
    let kind = ("kind"@, Doc::Text(node_kind_name(n.kind)));
    let description = ("description"@, Doc::Text(n.description));
    let status = ("status"@, Doc::Text(status_name(n.status)));
    let evidence = ("evidence"@, evidence_list_doc(n.evidence, layout));
    match layout {
        Layout::Declared => Doc::Record(seq![id, kind, description, status, evidence]),
        Layout::ByName => Doc::Record(seq![description, evidence, id, kind, status]),
    }
}

/// The document of an edge.
pub open spec fn edge_doc(e: EdgeView, layout: Layout) -> Doc {
    let from = ("from"@, Doc::Text(e.from));
    let to = ("to"@, Doc::Text(e.to));
    let kind = ("kind"@, Doc::Text(edge_kind_name(e.kind)));
    let status = ("status"@, Doc::Text(status_name(e.status)));
    let evidence = ("evidence"@, evidence_list_doc(e.evidence, layout));
    match layout {
        Layout::Declared => Doc::Record(seq![from, to, kind, status, evidence]),
        Layout::ByName => Doc::Record(seq![evidence, from, kind, status, to]),
    }
}

/// The document of the source files: a record from path to hash.
pub open spec fn sources_doc(sources: Seq<(Seq<char>, Seq<char>)>) -> Doc {
    Doc::Record(sources.map_values(|s: (Seq<char>, Seq<char>)| (s.0, Doc::Text(s.1))))
}

/// The document of a graph.
pub open spec fn graph_doc(g: GraphView, layout: Layout) -> Doc {
    let schema_version = ("schema_version"@, Doc::Natural(g.schema_version as u64));
    let id = ("id"@, Doc::Text(g.id));
    let description = ("description"@, Doc::Text(g.description));
    let source_files = ("source_files"@, sources_doc(g.source_files));
    let nodes = ("nodes"@, Doc::List(g.nodes.map_values(|n: NodeView| node_doc(n, layout))));
    let edges = ("edges"@, Doc::List(g.edges.map_values(|e: EdgeView| edge_doc(e, layout))));
    match layout {
        Layout::Declared => Doc::Record(
            seq![schema_version, id, description, source_files, nodes, edges],
        ),
        Layout::ByName => Doc::Record(
            seq![description, edges, id, nodes, schema_version, source_files],
        ),
    }
}

fn record_of(a: (&str, Json), b: (&str, Json), c: (&str, Json), d: (&str, Json), e: (&str, Json)) -> (r:
    Json)
    ensures
        r@ == Doc::Record(
            seq![(a.0@, a.1@), (b.0@, b.1@), (c.0@, c.1@), (d.0@, d.1@), (e.0@, e.1@)],
        ),
{
    let mut fields: Vec<(String, Json)> = Vec::new();
    assert(doc_fields(fields@) =~= seq![]);
    add_field(&mut fields, a.0, a.1);
    add_field(&mut fields, b.0, b.1);
    add_field(&mut fields, c.0, c.1);
    add_field(&mut fields, d.0, d.1);
    add_field(&mut fields, e.0, e.1);
    assert(doc_fields(fields@) =~= seq![
        (a.0@, a.1@),
        (b.0@, b.1@),
        (c.0@, c.1@),
        (d.0@, d.1@),
        (e.0@, e.1@),
    ]);
    record(fields)
}

fn write_line(fields: &mut Vec<(String, Json)>, line: Option<u32>)
    ensures
        doc_fields(final(fields)@) == doc_fields(old(fields)@) + match line {
            Some(line) => seq![("line"@, Doc::Natural(line as u64))],
            None => seq![],
        },
{
    match line {
        Some(line) => add_field(fields, "line", Json::Natural(line as u64)),
        None => {
            assert(doc_fields(fields@) =~= doc_fields(fields@) + seq![]);
        },
    }
}

fn write_symbol(fields: &mut Vec<(String, Json)>, symbol: &Option<String>)
    ensures
        doc_fields(final(fields)@) == doc_fields(old(fields)@) + match symbol {
            Some(symbol) => seq![("symbol"@, Doc::Text(symbol@))],
            None => seq![],
        },
{
    match symbol {
        Some(symbol) => add_field(fields, "symbol", text(symbol.as_str())),
        None => {
            assert(doc_fields(fields@) =~= doc_fields(fields@) + seq![]);
        },
    }
}

fn write_evidence(evidence: &EvidenceRef, layout: Layout) -> (r: Json)
    ensures
        r@ == evidence_doc(evidence@, layout),
{
    let mut fields: Vec<(String, Json)> = Vec::new();
    assert(doc_fields(fields@) =~= seq![]);
    match layout {
        Layout::Declared => {
            add_field(&mut fields, "path", text(evidence.path.as_str()));
            write_symbol(&mut fields, &evidence.symbol);
            write_line(&mut fields, evidence.line);
        },
        Layout::ByName => {
            write_line(&mut fields, evidence.line);
            add_field(&mut fields, "path", text(evidence.path.as_str()));
            write_symbol(&mut fields, &evidence.symbol);
        },
    }
    assert(doc_fields(fields@) =~= evidence_doc(evidence@, layout)->Record_0);
    record(fields)
}

fn write_evidence_list(evidence: &Vec<EvidenceRef>, layout: Layout) -> (r: Json)
    ensures
        r@ == evidence_list_doc(evidence_views(evidence@), layout),
{
    let ghost want = evidence_list_doc(evidence_views(evidence@), layout)->List_0;
    let mut out: Vec<Json> = Vec::new();
    let mut i: usize = 0;
    assert(docs(out@) =~= want.take(0));
    while i < evidence.len()
        invariant
            want == evidence_list_doc(evidence_views(evidence@), layout)->List_0,
            i <= evidence@.len(),
            docs(out@) == want.take(i as int),
        decreases evidence.len() - i,
    {
        add_item(&mut out, write_evidence(&evidence[i], layout));
        assert(want.take(i + 1) =~= want.take(i as int).push(want[i as int]));
        i += 1;
    }
    assert(want.take(i as int) =~= want);
    list(out)
}

fn write_node(node: &SecurityNode, layout: Layout) -> (r: Json)
    ensures
        r@ == node_doc(node@, layout),
{
    let id = ("id", text(node.id.as_str()));
    let kind = ("kind", write_node_kind(node.kind));
    let description = ("description", text(node.description.as_str()));
    let status = ("status", write_status(node.status));
    let evidence = ("evidence", write_evidence_list(&node.evidence, layout));
    match layout {
        Layout::Declared => record_of(id, kind, description, status, evidence),
        Layout::ByName => record_of(description, evidence, id, kind, status),
    }
}

fn write_edge(edge: &SecurityEdge, layout: Layout) -> (r: Json)
    ensures
        r@ == edge_doc(edge@, layout),
{
    let from = ("from", text(edge.from.as_str()));
    let to = ("to", text(edge.to.as_str()));
    let kind = ("kind", write_edge_kind(edge.kind));
    let status = ("status", write_status(edge.status));
    let evidence = ("evidence", write_evidence_list(&edge.evidence, layout));
    match layout {
        Layout::Declared => record_of(from, to, kind, status, evidence),
        Layout::ByName => record_of(evidence, from, kind, status, to),
    }
}

fn write_nodes(nodes: &Vec<SecurityNode>, layout: Layout) -> (r: Json)
    ensures
        r@ == Doc::List(node_views(nodes@).map_values(|n: NodeView| node_doc(n, layout))),
{
    let ghost want = node_views(nodes@).map_values(|n: NodeView| node_doc(n, layout));
    let mut out: Vec<Json> = Vec::new();
    let mut i: usize = 0;
    assert(docs(out@) =~= want.take(0));
    while i < nodes.len()
        invariant
            want == node_views(nodes@).map_values(|n: NodeView| node_doc(n, layout)),
            i <= nodes@.len(),
            docs(out@) == want.take(i as int),
        decreases nodes.len() - i,
    {
        add_item(&mut out, write_node(&nodes[i], layout));
        assert(want.take(i + 1) =~= want.take(i as int).push(want[i as int]));
        i += 1;
    }
    assert(want.take(i as int) =~= want);
    list(out)
}

fn write_edges(edges: &Vec<SecurityEdge>, layout: Layout) -> (r: Json)
    ensures
        r@ == Doc::List(edge_views(edges@).map_values(|e: EdgeView| edge_doc(e, layout))),
{
    let ghost want = edge_views(edges@).map_values(|e: EdgeView| edge_doc(e, layout));
    let mut out: Vec<Json> = Vec::new();
    let mut i: usize = 0;
    assert(docs(out@) =~= want.take(0));
    while i < edges.len()
        invariant
            want == edge_views(edges@).map_values(|e: EdgeView| edge_doc(e, layout)),
            i <= edges@.len(),
            docs(out@) == want.take(i as int),
        decreases edges.len() - i,
    {
        add_item(&mut out, write_edge(&edges[i], layout));
        assert(want.take(i + 1) =~= want.take(i as int).push(want[i as int]));
        i += 1;
    }
    assert(want.take(i as int) =~= want);
    list(out)
}

fn write_sources(sources: &SourceFiles) -> (r: Json)
    ensures
        r@ == sources_doc(sources@),
{
    let ghost want = sources_doc(sources@)->Record_0;
    let mut fields: Vec<(String, Json)> = Vec::new();
    let n: usize = sources.len();
    let mut i: usize = 0;
    assert(doc_fields(fields@) =~= want.take(0));
    while i < n
        invariant
            want == sources_doc(sources@)->Record_0,
            n == sources@.len(),
            i <= n,
            doc_fields(fields@) == want.take(i as int),
        decreases n - i,
    {
        add_field(&mut fields, sources.path(i), text(sources.hash(i)));
        i += 1;
        assert(doc_fields(fields@) =~= want.take(i as int));
    }
    assert(want.take(i as int) =~= want);
    record(fields)
}

impl SecurityGraph {
    /// The document of a graph.
    pub fn to_document(&self, layout: Layout) -> (r: Json)
        ensures
            r@ == graph_doc(self@, layout),
    {
        let schema_version = Json::Natural(self.schema_version as u64);
        let id = text(self.id.as_str());
        let description = text(self.description.as_str());
        let source_files = write_sources(&self.source_files);
        let nodes = write_nodes(&self.nodes, layout);
        let edges = write_edges(&self.edges, layout);
        let mut fields: Vec<(String, Json)> = Vec::new();
        assert(doc_fields(fields@) =~= seq![]);
        match layout {
            Layout::Declared => {
                add_field(&mut fields, "schema_version", schema_version);
                add_field(&mut fields, "id", id);
                add_field(&mut fields, "description", description);
                add_field(&mut fields, "source_files", source_files);
                add_field(&mut fields, "nodes", nodes);
                add_field(&mut fields, "edges", edges);
            },
            Layout::ByName => {
                add_field(&mut fields, "description", description);
                add_field(&mut fields, "edges", edges);
                add_field(&mut fields, "id", id);
                add_field(&mut fields, "nodes", nodes);
                add_field(&mut fields, "schema_version", schema_version);
                add_field(&mut fields, "source_files", source_files);
            },
        }
        assert(doc_fields(fields@) =~= graph_doc(self@, layout)->Record_0);
        record(fields)
    }
}

} // verus!
