//! Which JSON documents are read as a security graph.
//!
//! A record is read from exactly the fields of its schema: an unknown name, a
//! repeated name or a missing value that has no default refuses the document,
//! and so does an unknown value of an enumeration.

use vstd::prelude::*;

use crate::graph::{
    edge_views, evidence_views, node_views, ClaimStatus, EdgeKind, EdgeView, EvidenceRef,
    EvidenceView, GraphView, NodeKind, NodeView, SecurityEdge, SecurityGraph, SecurityNode,
};
use crate::json::{
    doc_fields, docs, field, fields_in, find_field, lemma_list_parts, lemma_record_parts, names_of,
    read_fields, read_tag, tag_of, Doc, Json,
};
use crate::sources::{with_entry, SourceFiles};
use crate::text::same_text;

verus! {

// The names of the schema's records, in the order in which it declares them.

pub open spec fn evidence_names() -> Seq<Seq<char>> {
    seq!["path"@, "symbol"@, "line"@]
}

pub open spec fn node_names() -> Seq<Seq<char>> {
    seq!["id"@, "kind"@, "description"@, "status"@, "evidence"@]
}

pub open spec fn edge_names() -> Seq<Seq<char>> {
    seq!["from"@, "to"@, "kind"@, "status"@, "evidence"@]
}

pub open spec fn graph_names() -> Seq<Seq<char>> {
    seq!["schema_version"@, "id"@, "description"@, "source_files"@, "nodes"@, "edges"@]
}

/// The string that a document is.
pub open spec fn text_of(doc: Option<Doc>) -> Option<Seq<char>> {
    match doc {
        Some(Doc::Text(s)) => Some(s),
        _ => None,
    }
}

/// The 32-bit number that a document is.
pub open spec fn number_of(doc: Option<Doc>) -> Option<u32> {
    match doc {
        Some(Doc::Natural(n)) => if n <= u32::MAX {
            Some(n as u32)
        } else {
            None
        },
        _ => None,
    }
}

/// The string that a document is, where null or no document stands for none.
pub open spec fn optional_text_of(doc: Option<Doc>) -> Option<Option<Seq<char>>> {
    match doc {
        None => Some(None),
        Some(Doc::Null) => Some(None),
        Some(Doc::Text(s)) => Some(Some(s)),
        _ => None,
    }
}

/// The number that a document is, where null or no document stands for none.
pub open spec fn optional_number_of(doc: Option<Doc>) -> Option<Option<u32>> {
    match doc {
        None => Some(None),
        Some(Doc::Null) => Some(None),
        _ => match number_of(doc) {
            Some(n) => Some(Some(n)),
            None => None,
        },
    }
}

/// The node kind of the given name.
pub open spec fn node_kind_named(name: Seq<char>) -> Option<NodeKind> {
    if name == "component"@ {
        Some(NodeKind::Component)
    } else if name == "dependency"@ {
        Some(NodeKind::Dependency)
    } else if name == "asset"@ {
        Some(NodeKind::Asset)
    } else if name == "trust_boundary"@ {
        Some(NodeKind::TrustBoundary)
    } else if name == "assumption"@ {
        Some(NodeKind::Assumption)
    } else if name == "threat"@ {
        Some(NodeKind::Threat)
    } else if name == "control"@ {
        Some(NodeKind::Control)
    } else if name == "finding"@ {
        Some(NodeKind::Finding)
    } else if name == "evidence"@ {
        Some(NodeKind::Evidence)
    } else {
        None
    }
}

/// The status of the given name.
pub open spec fn status_named(name: Seq<char>) -> Option<ClaimStatus> {
    if name == "observed"@ {
        Some(ClaimStatus::Observed)
    } else if name == "inferred"@ {
        Some(ClaimStatus::Inferred)
    } else if name == "proposed"@ {
        Some(ClaimStatus::Proposed)
    } else {
        None
    }
}

/// The edge kind of the given name.
pub open spec fn edge_kind_named(name: Seq<char>) -> Option<EdgeKind> {
    if name == "calls"@ {
        Some(EdgeKind::Calls)
    } else if name == "depends_on"@ {
        Some(EdgeKind::DependsOn)
    } else if name == "flows_to"@ {
        Some(EdgeKind::FlowsTo)
    } else if name == "inside"@ {
        Some(EdgeKind::Inside)
    } else if name == "crosses"@ {
        Some(EdgeKind::Crosses)
    } else if name == "depends_on_assumption"@ {
        Some(EdgeKind::DependsOnAssumption)
    } else if name == "threatens"@ {
        Some(EdgeKind::Threatens)
    } else if name == "violates"@ {
        Some(EdgeKind::Violates)
    } else if name == "mitigates"@ {
        Some(EdgeKind::Mitigates)
    } else if name == "protects"@ {
        Some(EdgeKind::Protects)
    } else if name == "supported_by"@ {
        Some(EdgeKind::SupportedBy)
    } else {
        None
    }
}

/// The node kind that a document names.
pub open spec fn node_kind_of(doc: Option<Doc>) -> Option<NodeKind> {
    match doc {
        Some(doc) => match tag_of(doc) {
            Some(name) => node_kind_named(name),
            None => None,
        },
        None => None,
    }
}

/// The status that a document names.
pub open spec fn status_of(doc: Option<Doc>) -> Option<ClaimStatus> {
    match doc {
        Some(doc) => match tag_of(doc) {
            Some(name) => status_named(name),
            None => None,
        },
        None => None,
    }
}

/// The edge kind that a document names.
pub open spec fn edge_kind_of(doc: Option<Doc>) -> Option<EdgeKind> {
    match doc {
        Some(doc) => match tag_of(doc) {
            Some(name) => edge_kind_named(name),
            None => None,
        },
        None => None,
    }
}

/// Every item as it is read, if every item can be read.
pub open spec fn read_all<T>(items: Seq<Doc>, read: spec_fn(Doc) -> Option<T>) -> Option<Seq<T>> {
    if forall|i: int| 0 <= i < items.len() ==> read(#[trigger] items[i]) is Some {
        Some(items.map_values(|d: Doc| read(d)->0))
    } else {
        None
    }
}

/// The piece of evidence that a document is.
pub open spec fn evidence_of(doc: Doc) -> Option<EvidenceView> {
    match fields_in(doc, evidence_names()) {
        None => None,
        Some(f) => {
            let path = text_of(field(f, "path"@));
            let symbol = optional_text_of(field(f, "symbol"@));
            let line = optional_number_of(field(f, "line"@));
            if path is Some && symbol is Some && line is Some {
                Some(EvidenceView { path: path->0, symbol: symbol->0, line: line->0 })
            } else {
                None
            }
        },
    }
}

/// The evidence that a document lists; none where there is no document.
pub open spec fn evidence_list_of(doc: Option<Doc>) -> Option<Seq<EvidenceView>> {
    match doc {
        None => Some(seq![]),
        Some(Doc::List(items)) => read_all(items, |d: Doc| evidence_of(d)),
        _ => None,
    }
}

/// The node that a document is.
pub open spec fn node_of(doc: Doc) -> Option<NodeView> {
    match fields_in(doc, node_names()) {
        None => None,
        Some(f) => {
            let id = text_of(field(f, "id"@));
            let kind = node_kind_of(field(f, "kind"@));
            let description = text_of(field(f, "description"@));
            let status = status_of(field(f, "status"@));
            let evidence = evidence_list_of(field(f, "evidence"@));
            if id is Some && kind is Some && description is Some && status is Some
                && evidence is Some {
                Some(
                    NodeView {
                        id: id->0,
                        kind: kind->0,
                        description: description->0,
                        status: status->0,
                        evidence: evidence->0,
                    },
                )
            } else {
                None
            }
        },
    }
}

/// The edge that a document is.
pub open spec fn edge_of(doc: Doc) -> Option<EdgeView> {
    match fields_in(doc, edge_names()) {
        None => None,
        Some(f) => {
            let from = text_of(field(f, "from"@));
            let to = text_of(field(f, "to"@));
            let kind = edge_kind_of(field(f, "kind"@));
            let status = status_of(field(f, "status"@));
            let evidence = evidence_list_of(field(f, "evidence"@));
            if from is Some && to is Some && kind is Some && status is Some && evidence is Some {
                Some(
                    EdgeView {
                        from: from->0,
                        to: to->0,
                        kind: kind->0,
                        status: status->0,
                        evidence: evidence->0,
                    },
                )
            } else {
                None
            }
        },
    }
}

/// The source files that fields record. Of a path that is repeated, the last hash counts.
pub open spec fn sources_from(fields: Seq<(Seq<char>, Doc)>) -> Option<
    Seq<(Seq<char>, Seq<char>)>,
>
    decreases fields.len(),
{
    if fields.len() == 0 {
        Some(seq![])
    } else {
        match (sources_from(fields.drop_last()), fields.last().1) {
            (Some(sources), Doc::Text(hash)) => Some(
                with_entry(sources, fields.last().0, hash),
            ),
            _ => None,
        }
    }
}

/// The source files that a document records; none where there is no document.
pub open spec fn sources_of(doc: Option<Doc>) -> Option<Seq<(Seq<char>, Seq<char>)>> {
    match doc {
        None => Some(seq![]),
        Some(Doc::Record(fields)) => sources_from(fields),
        _ => None,
    }
}

/// The nodes that a document lists.
pub open spec fn nodes_of(doc: Option<Doc>) -> Option<Seq<NodeView>> {
    match doc {
        Some(Doc::List(items)) => read_all(items, |d: Doc| node_of(d)),
        _ => None,
    }
}

/// The edges that a document lists.
pub open spec fn edges_of(doc: Option<Doc>) -> Option<Seq<EdgeView>> {
    match doc {
        Some(Doc::List(items)) => read_all(items, |d: Doc| edge_of(d)),
        _ => None,
    }
}

/// The graph that a document is.
pub open spec fn graph_of(doc: Doc) -> Option<GraphView> {
    match fields_in(doc, graph_names()) {
        None => None,
        Some(f) => {
            let schema_version = number_of(field(f, "schema_version"@));
            let id = text_of(field(f, "id"@));
            let description = text_of(field(f, "description"@));
            let source_files = sources_of(field(f, "source_files"@));
            let nodes = nodes_of(field(f, "nodes"@));
            let edges = edges_of(field(f, "edges"@));
            if schema_version is Some && id is Some && description is Some && source_files is Some
                && nodes is Some && edges is Some {
                Some(
                    GraphView {
                        schema_version: schema_version->0,
                        id: id->0,
                        description: description->0,
                        source_files: source_files->0,
                        nodes: nodes->0,
                        edges: edges->0,
                    },
                )
            } else {
                None
            }
        },
    }
}

/// What a document that may be missing says.
pub open spec fn seen(doc: Option<&Json>) -> Option<Doc> {
    match doc {
        Some(doc) => Some(doc@),
        None => None,
    }
}

fn read_text(doc: Option<&Json>) -> (r: Option<String>)
    ensures
        match r {
            Some(s) => text_of(seen(doc)) == Some(s@),
            None => text_of(seen(doc)) is None,
        },
{
    match doc {
        Some(Json::Text(s)) => Some(s.clone()),
        _ => None,
    }
}

fn read_number(doc: Option<&Json>) -> (r: Option<u32>)
    ensures
        r == number_of(seen(doc)),
{
    match doc {
        Some(Json::Natural(n)) => if *n <= u32::MAX as u64 {
            Some(*n as u32)
        } else {
            None
        },
        _ => None,
    }
}

fn read_optional_text(doc: Option<&Json>) -> (r: Option<Option<String>>)
    ensures
        match r {
            Some(Some(s)) => optional_text_of(seen(doc)) == Some(Some(s@)),
            Some(None) => optional_text_of(seen(doc)) == Some(None::<Seq<char>>),
            None => optional_text_of(seen(doc)) is None,
        },
{
    match doc {
        None => Some(None),
        Some(Json::Null) => Some(None),
        Some(Json::Text(s)) => Some(Some(s.clone())),
        _ => None,
    }
}

fn read_optional_number(doc: Option<&Json>) -> (r: Option<Option<u32>>)
    ensures
        r == optional_number_of(seen(doc)),
{
    match doc {
        None => Some(None),
        Some(Json::Null) => Some(None),
        _ => match read_number(doc) {
            Some(n) => Some(Some(n)),
            None => None,
        },
    }
}

fn read_node_kind(doc: Option<&Json>) -> (r: Option<NodeKind>)
    ensures
        r == node_kind_of(seen(doc)),
{
    let name = match doc {
        Some(doc) => match read_tag(doc) {
            Some(name) => name,
            None => return None,
        },
        None => return None,
    };
    if same_text(name, "component") {
        Some(NodeKind::Component)
    } else if same_text(name, "dependency") {
        Some(NodeKind::Dependency)
    } else if same_text(name, "asset") {
        Some(NodeKind::Asset)
    } else if same_text(name, "trust_boundary") {
        Some(NodeKind::TrustBoundary)
    } else if same_text(name, "assumption") {
        Some(NodeKind::Assumption)
    } else if same_text(name, "threat") {
        Some(NodeKind::Threat)
    } else if same_text(name, "control") {
        Some(NodeKind::Control)
    } else if same_text(name, "finding") {
        Some(NodeKind::Finding)
    } else if same_text(name, "evidence") {
        Some(NodeKind::Evidence)
    } else {
        None
    }
}

fn read_status(doc: Option<&Json>) -> (r: Option<ClaimStatus>)
    ensures
        r == status_of(seen(doc)),
{
    let name = match doc {
        Some(doc) => match read_tag(doc) {
            Some(name) => name,
            None => return None,
        },
        None => return None,
    };
    if same_text(name, "observed") {
        Some(ClaimStatus::Observed)
    } else if same_text(name, "inferred") {
        Some(ClaimStatus::Inferred)
    } else if same_text(name, "proposed") {
        Some(ClaimStatus::Proposed)
    } else {
        None
    }
}

fn read_edge_kind(doc: Option<&Json>) -> (r: Option<EdgeKind>)
    ensures
        r == edge_kind_of(seen(doc)),
{
    let name = match doc {
        Some(doc) => match read_tag(doc) {
            Some(name) => name,
            None => return None,
        },
        None => return None,
    };
    if same_text(name, "calls") {
        Some(EdgeKind::Calls)
    } else if same_text(name, "depends_on") {
        Some(EdgeKind::DependsOn)
    } else if same_text(name, "flows_to") {
        Some(EdgeKind::FlowsTo)
    } else if same_text(name, "inside") {
        Some(EdgeKind::Inside)
    } else if same_text(name, "crosses") {
        Some(EdgeKind::Crosses)
    } else if same_text(name, "depends_on_assumption") {
        Some(EdgeKind::DependsOnAssumption)
    } else if same_text(name, "threatens") {
        Some(EdgeKind::Threatens)
    } else if same_text(name, "violates") {
        Some(EdgeKind::Violates)
    } else if same_text(name, "mitigates") {
        Some(EdgeKind::Mitigates)
    } else if same_text(name, "protects") {
        Some(EdgeKind::Protects)
    } else if same_text(name, "supported_by") {
        Some(EdgeKind::SupportedBy)
    } else {
        None
    }
}

fn read_evidence(doc: &Json) -> (r: Option<EvidenceRef>)
    ensures
        match r {
            Some(e) => evidence_of(doc@) == Some(e@),
            None => evidence_of(doc@) is None,
        },
{
    let names: Vec<&str> = vec!["path", "symbol", "line"];
    assert(names_of(names@) =~= evidence_names());
    match read_fields(doc, &names) {
        None => None,
        Some(f) => {
            match (
                read_text(find_field(&f, "path")),
                read_optional_text(find_field(&f, "symbol")),
                read_optional_number(find_field(&f, "line")),
            ) {
                (Some(path), Some(symbol), Some(line)) => Some(EvidenceRef { path, symbol, line }),
                _ => None,
            }
        },
    }
}

fn read_evidence_list(doc: Option<&Json>) -> (r: Option<Vec<EvidenceRef>>)
    ensures
        match r {
            Some(list) => evidence_list_of(seen(doc)) == Some(evidence_views(list@)),
            None => evidence_list_of(seen(doc)) is None,
        },
{
    let mut out: Vec<EvidenceRef> = Vec::new();
    assert(evidence_views(out@) =~= seq![]);
    match doc {
        None => Some(out),
        Some(Json::List(items)) => {
            proof {
                lemma_list_parts(*items);
            }
            let ghost all = docs(items@);
            let mut i: usize = 0;
            while i < items.len()
                invariant
                    all == docs(items@),
                    seen(doc) == Some(Doc::List(all)),
                    i <= items@.len(),
                    out@.len() == i,
                    forall|j: int|
                        0 <= j < i ==> evidence_of(#[trigger] all[j]) == Some(out@[j]@),
                decreases items.len() - i,
            {
                assert(all[i as int] == items@[i as int]@);
                match read_evidence(&items[i]) {
                    Some(item) => out.push(item),
                    None => {
                        return None;
                    },
                }
                i += 1;
            }
            assert(evidence_views(out@) =~= all.map_values(
                |d: Doc| (|d: Doc| evidence_of(d))(d)->0,
            ));
            Some(out)
        },
        _ => None,
    }
}

fn read_node(doc: &Json) -> (r: Option<SecurityNode>)
    ensures
        match r {
            Some(n) => node_of(doc@) == Some(n@),
            None => node_of(doc@) is None,
        },
{
    let names: Vec<&str> = vec!["id", "kind", "description", "status", "evidence"];
    assert(names_of(names@) =~= node_names());
    match read_fields(doc, &names) {
        None => None,
        Some(f) => {
            match (
                read_text(find_field(&f, "id")),
                read_node_kind(find_field(&f, "kind")),
                read_text(find_field(&f, "description")),
                read_status(find_field(&f, "status")),
                read_evidence_list(find_field(&f, "evidence")),
            ) {
                (Some(id), Some(kind), Some(description), Some(status), Some(evidence)) => Some(
                    SecurityNode { id, kind, description, status, evidence },
                ),
                _ => None,
            }
        },
    }
}

fn read_edge(doc: &Json) -> (r: Option<SecurityEdge>)
    ensures
        match r {
            Some(e) => edge_of(doc@) == Some(e@),
            None => edge_of(doc@) is None,
        },
{
    let names: Vec<&str> = vec!["from", "to", "kind", "status", "evidence"];
    assert(names_of(names@) =~= edge_names());
    match read_fields(doc, &names) {
        None => None,
        Some(f) => {
            match (
                read_text(find_field(&f, "from")),
                read_text(find_field(&f, "to")),
                read_edge_kind(find_field(&f, "kind")),
                read_status(find_field(&f, "status")),
                read_evidence_list(find_field(&f, "evidence")),
            ) {
                (Some(from), Some(to), Some(kind), Some(status), Some(evidence)) => Some(
                    SecurityEdge { from, to, kind, status, evidence },
                ),
                _ => None,
            }
        },
    }
}

fn read_nodes(doc: Option<&Json>) -> (r: Option<Vec<SecurityNode>>)
    ensures
        match r {
            Some(list) => nodes_of(seen(doc)) == Some(node_views(list@)),
            None => nodes_of(seen(doc)) is None,
        },
{
    match doc {
        Some(Json::List(items)) => {
            proof {
                lemma_list_parts(*items);
            }
            let ghost all = docs(items@);
            let mut out: Vec<SecurityNode> = Vec::new();
            let mut i: usize = 0;
            while i < items.len()
                invariant
                    all == docs(items@),
                    seen(doc) == Some(Doc::List(all)),
                    i <= items@.len(),
                    out@.len() == i,
                    forall|j: int| 0 <= j < i ==> node_of(#[trigger] all[j]) == Some(out@[j]@),
                decreases items.len() - i,
            {
                assert(all[i as int] == items@[i as int]@);
                match read_node(&items[i]) {
                    Some(item) => out.push(item),
                    None => {
                        return None;
                    },
                }
                i += 1;
            }
            assert(node_views(out@) =~= all.map_values(|d: Doc| (|d: Doc| node_of(d))(d)->0));
            Some(out)
        },
        _ => None,
    }
}

fn read_edges(doc: Option<&Json>) -> (r: Option<Vec<SecurityEdge>>)
    ensures
        match r {
            Some(list) => edges_of(seen(doc)) == Some(edge_views(list@)),
            None => edges_of(seen(doc)) is None,
        },
{
    match doc {
        Some(Json::List(items)) => {
            proof {
                lemma_list_parts(*items);
            }
            let ghost all = docs(items@);
            let mut out: Vec<SecurityEdge> = Vec::new();
            let mut i: usize = 0;
            while i < items.len()
                invariant
                    all == docs(items@),
                    seen(doc) == Some(Doc::List(all)),
                    i <= items@.len(),
                    out@.len() == i,
                    forall|j: int| 0 <= j < i ==> edge_of(#[trigger] all[j]) == Some(out@[j]@),
                decreases items.len() - i,
            {
                assert(all[i as int] == items@[i as int]@);
                match read_edge(&items[i]) {
                    Some(item) => out.push(item),
                    None => {
                        return None;
                    },
                }
                i += 1;
            }
            assert(edge_views(out@) =~= all.map_values(|d: Doc| (|d: Doc| edge_of(d))(d)->0));
            Some(out)
        },
        _ => None,
    }
}

/// A part of the fields that cannot be read leaves the whole unread.
proof fn lemma_unread_sources(fields: Seq<(Seq<char>, Doc)>, n: int)
    requires
        0 <= n <= fields.len(),
        sources_from(fields.take(n)) is None,
    ensures
        sources_from(fields) is None,
    decreases fields.len() - n,
{
    if n == fields.len() {
        assert(fields.take(n) =~= fields);
    } else {
        assert(fields.take(n + 1).drop_last() =~= fields.take(n));
        lemma_unread_sources(fields, n + 1);
    }
}

fn read_sources(doc: Option<&Json>) -> (r: Option<SourceFiles>)
    ensures
        match r {
            Some(sources) => sources_of(seen(doc)) == Some(sources@),
            None => sources_of(seen(doc)) is None,
        },
{
    let mut out = SourceFiles::new();
    match doc {
        None => Some(out),
        Some(Json::Record(fields)) => {
            proof {
                lemma_record_parts(*fields);
            }
            let ghost all = doc_fields(fields@);
            let mut i: usize = 0;
            assert(all.take(0) =~= seq![]);
            while i < fields.len()
                invariant
                    all == doc_fields(fields@),
                    seen(doc) == Some(Doc::Record(all)),
                    i <= fields@.len(),
                    sources_from(all.take(i as int)) == Some(out@),
                decreases fields.len() - i,
            {
                assert(all.take(i + 1).drop_last() =~= all.take(i as int));
                assert(all.take(i + 1).last() == (fields@[i as int].0@, fields@[i as int].1@));
                match &fields[i].1 {
                    Json::Text(hash) => {
                        let _ = out.insert(fields[i].0.clone(), hash.clone());
                    },
                    _ => {
                        proof {
                            lemma_unread_sources(all, i + 1);
                        }
                        return None;
                    },
                }
                i += 1;
            }
            assert(all.take(i as int) =~= all);
            Some(out)
        },
        _ => None,
    }
}

impl SecurityGraph {
    /// The graph that a document is, if it is one. Its rules are not checked here.
    pub fn from_document(doc: &Json) -> (r: Option<SecurityGraph>)
        ensures
            match r {
                Some(g) => graph_of(doc@) == Some(g@),
                None => graph_of(doc@) is None,
            },
    {
        let names: Vec<&str> = vec![
            "schema_version",
            "id",
            "description",
            "source_files",
            "nodes",
            "edges",
        ];
        assert(names_of(names@) =~= graph_names());
        match read_fields(doc, &names) {
            None => None,
            Some(f) => {
                match (
                    read_number(find_field(&f, "schema_version")),
                    read_text(find_field(&f, "id")),
                    read_text(find_field(&f, "description")),
                    read_sources(find_field(&f, "source_files")),
                    read_nodes(find_field(&f, "nodes")),
                    read_edges(find_field(&f, "edges")),
                ) {
                    (
                        Some(schema_version),
                        Some(id),
                        Some(description),
                        Some(source_files),
                        Some(nodes),
                        Some(edges),
                    ) => Some(
                        SecurityGraph {
                            schema_version,
                            id,
                            description,
                            source_files,
                            nodes,
                            edges,
                        },
                    ),
                    _ => None,
                }
            },
        }
    }
}

/// An edge kind is read from a document exactly when that names it by one of eleven words,
/// as a string or as a record with nothing under that one name. Anything else is no kind.
proof fn edge_kind_is_one_of_eleven_words(doc: Option<&Json>, r: Option<EdgeKind>, word: Seq<char>)
    requires
        call_ensures(read_edge_kind, (doc,), r),
    ensures
        r is Some ==> (doc matches Some(d) && (d@ is Text || d@ is Record)),
        doc matches Some(d) ==> (d@ == Doc::Text(word) || (d@ matches Doc::Record(f) && f.len() == 1
            && f[0] == (word, Doc::Null))) ==> (r is Some <==> word == "calls"@ || word
            == "depends_on"@ || word == "flows_to"@ || word == "inside"@ || word == "crosses"@ || word
            == "depends_on_assumption"@ || word == "threatens"@ || word == "violates"@ || word
            == "mitigates"@ || word == "protects"@ || word == "supported_by"@),
{
}

/// The same of the nine words for a node's kind, and of the three for a status.
proof fn node_kind_is_one_of_nine_words(
    doc: Option<&Json>,
    kind: Option<NodeKind>,
    status: Option<ClaimStatus>,
    word: Seq<char>,
)
    requires
        call_ensures(read_node_kind, (doc,), kind),
        call_ensures(read_status, (doc,), status),
    ensures
        kind is Some || status is Some ==> (doc matches Some(d) && (d@ is Text || d@ is Record)),
        doc matches Some(d) ==> (d@ == Doc::Text(word) || (d@ matches Doc::Record(f) && f.len() == 1
            && f[0] == (word, Doc::Null))) ==> {
            &&& kind is Some <==> word == "component"@ || word == "dependency"@ || word == "asset"@
                || word == "trust_boundary"@ || word == "assumption"@ || word == "threat"@ || word
                == "control"@ || word == "finding"@ || word == "evidence"@
            &&& status is Some <==> word == "observed"@ || word == "inferred"@ || word
                == "proposed"@
        },
{
}

} // verus!
