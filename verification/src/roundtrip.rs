//! What is written of a graph is read back as it was, and nothing else is read.

use vstd::prelude::*;

use crate::decode::{
    edge_kind_named, edge_kind_of, edge_names, edge_of, edges_of, evidence_list_of, evidence_names,
    evidence_of, graph_names, graph_of, node_kind_named, node_kind_of, node_names, node_of,
    nodes_of, sources_of, status_named, status_of,
};
use crate::encode::{
    edge_doc, edge_kind_name, evidence_doc, evidence_list_doc, graph_doc, node_doc, node_kind_name,
    sources_doc, status_name, Layout,
};
use crate::graph::{ClaimStatus, EdgeKind, EdgeView, EvidenceView, GraphView, NodeKind, NodeView};
use crate::json::{distinctly_named, field, fields_in, plain, well_named, Doc};
use crate::ordered::{ascending, lemma_place, place};
use crate::sources::{paths, with_entry};
use crate::text::{text_less, text_less_irreflexive};

verus! {

/// A field that no field before it shares its name with is found under its name.
proof fn lemma_field_at(fields: Seq<(Seq<char>, Doc)>, at: int)
    requires
        0 <= at < fields.len(),
        forall|i: int| 0 <= i < at ==> (#[trigger] fields[i]).0 != fields[at].0,
    ensures
        field(fields, fields[at].0) == Some(fields[at].1),
    decreases at,
{
    if at > 0 {
        assert(fields[0].0 != fields[at].0);
        let rest = fields.drop_first();
        assert forall|i: int| 0 <= i < at - 1 implies (#[trigger] rest[i]).0 != rest[at - 1].0 by {
            assert(rest[i] == fields[i + 1]);
        }
        lemma_field_at(rest, at - 1);
    }
}

/// A name that no field has is not found.
proof fn lemma_no_field(fields: Seq<(Seq<char>, Doc)>, name: Seq<char>)
    requires
        forall|i: int| 0 <= i < fields.len() ==> (#[trigger] fields[i]).0 != name,
    ensures
        field(fields, name) is None,
    decreases fields.len(),
{
    if fields.len() > 0 {
        assert(fields[0].0 != name);
        let rest = fields.drop_first();
        assert forall|i: int| 0 <= i < rest.len() implies (#[trigger] rest[i]).0 != name by {
            assert(rest[i] == fields[i + 1]);
        }
        lemma_no_field(rest, name);
    }
}

/// The names of evidence fields differ from each other.
proof fn lemma_evidence_names()
    ensures
        "path"@ != "symbol"@,
        "path"@ != "line"@,
        "symbol"@ != "line"@,
        evidence_names().contains("path"@),
        evidence_names().contains("symbol"@),
        evidence_names().contains("line"@),
{
    reveal_strlit("path");
    assert("path"@.len() == 4);
    reveal_strlit("symbol");
    assert("symbol"@.len() == 6);
    reveal_strlit("line");
    assert("line"@.len() == 4);
    assert("path"@[0] != "line"@[0]);
    assert(evidence_names()[0] == "path"@);
    assert(evidence_names()[1] == "symbol"@);
    assert(evidence_names()[2] == "line"@);
}

proof fn lemma_evidence_read_back(e: EvidenceView, layout: Layout)
    ensures
        evidence_of(evidence_doc(e, layout)) == Some(e),
{
    lemma_evidence_names();
    let f = evidence_doc(e, layout)->Record_0;
    assert(well_named(f, evidence_names()));
    let path = if layout == Layout::Declared || e.line is None {
        0
    } else {
        1
    };
    assert(f[path] == ("path"@, Doc::Text(e.path)));
    lemma_field_at(f, path);
    match e.symbol {
        Some(symbol) => {
            let at = path + 1;
            assert(f[at] == ("symbol"@, Doc::Text(symbol)));
            lemma_field_at(f, at);
        },
        None => {
            lemma_no_field(f, "symbol"@);
        },
    }
    match e.line {
        Some(line) => {
            let at = if layout == Layout::ByName {
                0
            } else if e.symbol is Some {
                2
            } else {
                1
            };
            assert(f[at] == ("line"@, Doc::Natural(line as u64)));
            lemma_field_at(f, at);
        },
        None => {
            lemma_no_field(f, "line"@);
        },
    }
}

proof fn lemma_evidence_list_read_back(evidence: Seq<EvidenceView>, layout: Layout)
    ensures
        evidence_list_of(Some(evidence_list_doc(evidence, layout))) == Some(evidence),
{
    let items = evidence_list_doc(evidence, layout)->List_0;
    let read = |d: Doc| evidence_of(d);
    assert forall|i: int| 0 <= i < items.len() implies read(#[trigger] items[i]) == Some(
        evidence[i],
    ) by {
        lemma_evidence_read_back(evidence[i], layout);
    }
    assert(items.map_values(|d: Doc| read(d)->0) =~= evidence);
}

/// Every node kind is found by its name.
pub proof fn node_kind_has_its_name(kind: NodeKind)
    ensures
        node_kind_named(node_kind_name(kind)) == Some(kind),
{
    reveal_strlit("component");
    assert("component"@.len() == 9);
    reveal_strlit("dependency");
    assert("dependency"@.len() == 10);
    reveal_strlit("asset");
    assert("asset"@.len() == 5);
    reveal_strlit("trust_boundary");
    assert("trust_boundary"@.len() == 14);
    reveal_strlit("assumption");
    assert("assumption"@.len() == 10);
    reveal_strlit("threat");
    assert("threat"@.len() == 6);
    reveal_strlit("control");
    assert("control"@.len() == 7);
    reveal_strlit("finding");
    assert("finding"@.len() == 7);
    reveal_strlit("evidence");
    assert("evidence"@.len() == 8);
    assert("assumption"@[0] != "dependency"@[0]);
    assert("control"@[0] != "finding"@[0]);
}

/// Every status is found by its name.
pub proof fn status_has_its_name(status: ClaimStatus)
    ensures
        status_named(status_name(status)) == Some(status),
{
    reveal_strlit("observed");
    assert("observed"@.len() == 8);
    reveal_strlit("inferred");
    assert("inferred"@.len() == 8);
    reveal_strlit("proposed");
    assert("proposed"@.len() == 8);
    assert("observed"@[0] == 'o');
    assert("inferred"@[0] == 'i');
    assert("proposed"@[0] == 'p');
}

/// Every edge kind is found by its name.
pub proof fn edge_kind_has_its_name(kind: EdgeKind)
    ensures
        edge_kind_named(edge_kind_name(kind)) == Some(kind),
{
    reveal_strlit("calls");
    assert("calls"@.len() == 5);
    reveal_strlit("depends_on");
    assert("depends_on"@.len() == 10);
    reveal_strlit("flows_to");
    assert("flows_to"@.len() == 8);
    reveal_strlit("inside");
    assert("inside"@.len() == 6);
    reveal_strlit("crosses");
    assert("crosses"@.len() == 7);
    reveal_strlit("depends_on_assumption");
    assert("depends_on_assumption"@.len() == 21);
    reveal_strlit("threatens");
    assert("threatens"@.len() == 9);
    reveal_strlit("violates");
    assert("violates"@.len() == 8);
    reveal_strlit("mitigates");
    assert("mitigates"@.len() == 9);
    reveal_strlit("protects");
    assert("protects"@.len() == 8);
    reveal_strlit("supported_by");
    assert("supported_by"@.len() == 12);
    assert("flows_to"@[0] == 'f');
    assert("violates"@[0] == 'v');
    assert("protects"@[0] == 'p');
    assert("threatens"@[0] == 't');
    assert("mitigates"@[0] == 'm');
}

proof fn lemma_node_names()
    ensures
        "id"@ != "kind"@,
        "id"@ != "description"@,
        "id"@ != "status"@,
        "id"@ != "evidence"@,
        "kind"@ != "description"@,
        "kind"@ != "status"@,
        "kind"@ != "evidence"@,
        "description"@ != "status"@,
        "description"@ != "evidence"@,
        "status"@ != "evidence"@,
        node_names().contains("id"@),
        node_names().contains("kind"@),
        node_names().contains("description"@),
        node_names().contains("status"@),
        node_names().contains("evidence"@),
{
    reveal_strlit("id");
    assert("id"@.len() == 2);
    reveal_strlit("kind");
    assert("kind"@.len() == 4);
    reveal_strlit("description");
    assert("description"@.len() == 11);
    reveal_strlit("status");
    assert("status"@.len() == 6);
    reveal_strlit("evidence");
    assert("evidence"@.len() == 8);
    assert(node_names()[0] == "id"@);
    assert(node_names()[1] == "kind"@);
    assert(node_names()[2] == "description"@);
    assert(node_names()[3] == "status"@);
    assert(node_names()[4] == "evidence"@);
}

proof fn lemma_node_read_back(n: NodeView, layout: Layout)
    ensures
        node_of(node_doc(n, layout)) == Some(n),
{
    lemma_node_names();
    let f = node_doc(n, layout)->Record_0;
    assert(f.len() == 5);
    assert(well_named(f, node_names()));
    lemma_field_at(f, 0);
    lemma_field_at(f, 1);
    lemma_field_at(f, 2);
    lemma_field_at(f, 3);
    lemma_field_at(f, 4);
    node_kind_has_its_name(n.kind);
    status_has_its_name(n.status);
    lemma_evidence_list_read_back(n.evidence, layout);
}

proof fn lemma_edge_names()
    ensures
        "from"@ != "to"@,
        "from"@ != "kind"@,
        "from"@ != "status"@,
        "from"@ != "evidence"@,
        "to"@ != "kind"@,
        "to"@ != "status"@,
        "to"@ != "evidence"@,
        "kind"@ != "status"@,
        "kind"@ != "evidence"@,
        "status"@ != "evidence"@,
        edge_names().contains("from"@),
        edge_names().contains("to"@),
        edge_names().contains("kind"@),
        edge_names().contains("status"@),
        edge_names().contains("evidence"@),
{
    reveal_strlit("from");
    assert("from"@.len() == 4);
    reveal_strlit("to");
    assert("to"@.len() == 2);
    reveal_strlit("kind");
    assert("kind"@.len() == 4);
    reveal_strlit("status");
    assert("status"@.len() == 6);
    reveal_strlit("evidence");
    assert("evidence"@.len() == 8);
    assert("from"@[0] != "kind"@[0]);
    assert(edge_names()[0] == "from"@);
    assert(edge_names()[1] == "to"@);
    assert(edge_names()[2] == "kind"@);
    assert(edge_names()[3] == "status"@);
    assert(edge_names()[4] == "evidence"@);
}

proof fn lemma_edge_read_back(e: EdgeView, layout: Layout)
    ensures
        edge_of(edge_doc(e, layout)) == Some(e),
{
    lemma_edge_names();
    let f = edge_doc(e, layout)->Record_0;
    assert(f.len() == 5);
    assert(well_named(f, edge_names()));
    lemma_field_at(f, 0);
    lemma_field_at(f, 1);
    lemma_field_at(f, 2);
    lemma_field_at(f, 3);
    lemma_field_at(f, 4);
    edge_kind_has_its_name(e.kind);
    status_has_its_name(e.status);
    lemma_evidence_list_read_back(e.evidence, layout);
}

/// Entries that stand in order are recorded one behind the other.
proof fn lemma_sources_read_back(sources: Seq<(Seq<char>, Seq<char>)>)
    requires
        ascending(paths(sources)),
    ensures
        sources_of(Some(sources_doc(sources))) == Some(sources),
    decreases sources.len(),
{
    let fields = sources_doc(sources)->Record_0;
    if sources.len() == 0 {
        assert(fields =~= seq![]);
        assert(sources =~= seq![]);
    } else {
        let rest = sources.drop_last();
        let last = sources.last();
        let keys = paths(sources);
        assert(paths(rest) =~= keys.drop_last());
        assert(ascending(paths(rest))) by {
            assert forall|i: int, j: int| 0 <= i < j < paths(rest).len() implies text_less(
                #[trigger] paths(rest)[i],
                #[trigger] paths(rest)[j],
            ) by {
                assert(keys[i] == paths(rest)[i] && keys[j] == paths(rest)[j]);
            }
        }
        lemma_sources_read_back(rest);
        assert(fields.drop_last() =~= sources_doc(rest)->Record_0);
        assert(fields.last() == (last.0, Doc::Text(last.1)));
        lemma_place(paths(rest), last.0);
        let at = place(paths(rest), last.0);
        if at < rest.len() {
            assert(text_less(keys[at], keys[sources.len() - 1]));
            assert(paths(rest)[at] == keys[at]);
            assert(text_less(paths(rest)[at], last.0));
        }
        assert(with_entry(rest, last.0, last.1) =~= sources);
    }
}

proof fn lemma_graph_names()
    ensures
        "schema_version"@ != "id"@,
        "schema_version"@ != "description"@,
        "schema_version"@ != "source_files"@,
        "schema_version"@ != "nodes"@,
        "schema_version"@ != "edges"@,
        "id"@ != "description"@,
        "id"@ != "source_files"@,
        "id"@ != "nodes"@,
        "id"@ != "edges"@,
        "description"@ != "source_files"@,
        "description"@ != "nodes"@,
        "description"@ != "edges"@,
        "source_files"@ != "nodes"@,
        "source_files"@ != "edges"@,
        "nodes"@ != "edges"@,
        graph_names().contains("schema_version"@),
        graph_names().contains("id"@),
        graph_names().contains("description"@),
        graph_names().contains("source_files"@),
        graph_names().contains("nodes"@),
        graph_names().contains("edges"@),
{
    reveal_strlit("schema_version");
    assert("schema_version"@.len() == 14);
    reveal_strlit("id");
    assert("id"@.len() == 2);
    reveal_strlit("description");
    assert("description"@.len() == 11);
    reveal_strlit("source_files");
    assert("source_files"@.len() == 12);
    reveal_strlit("nodes");
    assert("nodes"@.len() == 5);
    reveal_strlit("edges");
    assert("edges"@.len() == 5);
    assert("nodes"@[0] != "edges"@[0]);
    assert(graph_names()[0] == "schema_version"@);
    assert(graph_names()[1] == "id"@);
    assert(graph_names()[2] == "description"@);
    assert(graph_names()[3] == "source_files"@);
    assert(graph_names()[4] == "nodes"@);
    assert(graph_names()[5] == "edges"@);
}

/// A graph that is written, in either layout, is read back as it was: its typed
/// relationships, its claims' status and its evidence.
pub proof fn written_graph_is_read_back(g: GraphView, layout: Layout)
    requires
        ascending(paths(g.source_files)),
    ensures
        graph_of(graph_doc(g, layout)) == Some(g),
{
    lemma_graph_names();
    let f = graph_doc(g, layout)->Record_0;
    assert(f.len() == 6);
    assert(well_named(f, graph_names()));
    lemma_field_at(f, 0);
    lemma_field_at(f, 1);
    lemma_field_at(f, 2);
    lemma_field_at(f, 3);
    lemma_field_at(f, 4);
    lemma_field_at(f, 5);
    lemma_sources_read_back(g.source_files);
    let read_node = |d: Doc| node_of(d);
    let nodes = g.nodes.map_values(|n: NodeView| node_doc(n, layout));
    assert forall|i: int| 0 <= i < nodes.len() implies read_node(#[trigger] nodes[i]) == Some(
        g.nodes[i],
    ) by {
        lemma_node_read_back(g.nodes[i], layout);
    }
    assert(nodes.map_values(|d: Doc| read_node(d)->0) =~= g.nodes);
    let read_edge = |d: Doc| edge_of(d);
    let edges = g.edges.map_values(|e: EdgeView| edge_doc(e, layout));
    assert forall|i: int| 0 <= i < edges.len() implies read_edge(#[trigger] edges[i]) == Some(
        g.edges[i],
    ) by {
        lemma_edge_read_back(g.edges[i], layout);
    }
    assert(edges.map_values(|d: Doc| read_edge(d)->0) =~= g.edges);
}

proof fn lemma_evidence_list_is_plain(evidence: Seq<EvidenceView>, layout: Layout, nesting: nat)
    requires
        nesting >= 2,
    ensures
        plain(evidence_list_doc(evidence, layout), nesting),
{
    lemma_evidence_names();
    let inner = (nesting - 1) as nat;
    let items = evidence_list_doc(evidence, layout)->List_0;
    assert forall|i: int| 0 <= i < items.len() implies plain(#[trigger] items[i], inner) by {
        let f = items[i]->Record_0;
        assert(items[i] == evidence_doc(evidence[i], layout));
        assert(distinctly_named(f));
        assert forall|j: int| 0 <= j < f.len() implies plain(
            (#[trigger] f[j]).1,
            (inner - 1) as nat,
        ) by {
            assert(f[j].1 is Text || f[j].1 is Natural);
        }
    }
}

proof fn lemma_sources_are_plain(sources: Seq<(Seq<char>, Seq<char>)>, nesting: nat)
    requires
        ascending(paths(sources)),
        nesting >= 1,
    ensures
        plain(sources_doc(sources), nesting),
{
    let f = sources_doc(sources)->Record_0;
    let keys = paths(sources);
    assert forall|i: int, j: int| 0 <= i < j < f.len() implies (#[trigger] f[i]).0 != (
    #[trigger] f[j]).0 by {
        assert(f[i].0 == keys[i] && f[j].0 == keys[j]);
        assert(text_less(keys[i], keys[j]));
        text_less_irreflexive(keys[i]);
    }
    assert(distinctly_named(f));
    assert forall|i: int| 0 <= i < f.len() implies plain(
        (#[trigger] f[i]).1,
        (nesting - 1) as nat,
    ) by {
        assert(f[i].1 is Text);
    }
}

proof fn lemma_node_is_plain(n: NodeView, layout: Layout, nesting: nat)
    requires
        nesting >= 3,
    ensures
        plain(node_doc(n, layout), nesting),
{
    lemma_node_names();
    lemma_evidence_list_is_plain(n.evidence, layout, (nesting - 1) as nat);
    let f = node_doc(n, layout)->Record_0;
    assert(f.len() == 5);
    assert(distinctly_named(f));
    assert forall|j: int| 0 <= j < f.len() implies plain(
        (#[trigger] f[j]).1,
        (nesting - 1) as nat,
    ) by {}
}

proof fn lemma_edge_is_plain(e: EdgeView, layout: Layout, nesting: nat)
    requires
        nesting >= 3,
    ensures
        plain(edge_doc(e, layout), nesting),
{
    lemma_edge_names();
    lemma_evidence_list_is_plain(e.evidence, layout, (nesting - 1) as nat);
    let f = edge_doc(e, layout)->Record_0;
    assert(f.len() == 5);
    assert(distinctly_named(f));
    assert forall|j: int| 0 <= j < f.len() implies plain(
        (#[trigger] f[j]).1,
        (nesting - 1) as nat,
    ) by {}
}

/// The document of a graph repeats no name and is nested five deep at most.
pub proof fn written_graph_is_plain(g: GraphView, layout: Layout, nesting: nat)
    requires
        ascending(paths(g.source_files)),
        nesting >= 5,
    ensures
        plain(graph_doc(g, layout), nesting),
{
    lemma_graph_names();
    let inner = (nesting - 1) as nat;
    let part = (nesting - 2) as nat;
    let nodes = g.nodes.map_values(|n: NodeView| node_doc(n, layout));
    assert forall|i: int| 0 <= i < nodes.len() implies plain(#[trigger] nodes[i], part) by {
        lemma_node_is_plain(g.nodes[i], layout, part);
    }
    assert(plain(Doc::List(nodes), inner));
    let edges = g.edges.map_values(|e: EdgeView| edge_doc(e, layout));
    assert forall|i: int| 0 <= i < edges.len() implies plain(#[trigger] edges[i], part) by {
        lemma_edge_is_plain(g.edges[i], layout, part);
    }
    assert(plain(Doc::List(edges), inner));
    lemma_sources_are_plain(g.source_files, inner);
    let f = graph_doc(g, layout)->Record_0;
    assert(f.len() == 6);
    assert(distinctly_named(f));
    assert forall|j: int| 0 <= j < f.len() implies plain((#[trigger] f[j]).1, inner) by {}
}

/// Graphs that differ are written as documents that differ.
pub proof fn different_graphs_have_different_documents(a: GraphView, b: GraphView, layout: Layout)
    requires
        ascending(paths(a.source_files)),
        ascending(paths(b.source_files)),
        a != b,
    ensures
        graph_doc(a, layout) != graph_doc(b, layout),
{
    written_graph_is_read_back(a, layout);
    written_graph_is_read_back(b, layout);
}

/// A record with a field that its schema does not name is refused, wherever it
/// stands: as a graph, a node, an edge or a piece of evidence.
pub proof fn unknown_fields_are_refused(fields: Seq<(Seq<char>, Doc)>, at: int)
    requires
        0 <= at < fields.len(),
    ensures
        !graph_names().contains(fields[at].0) ==> graph_of(Doc::Record(fields)) is None,
        !node_names().contains(fields[at].0) ==> node_of(Doc::Record(fields)) is None,
        !edge_names().contains(fields[at].0) ==> edge_of(Doc::Record(fields)) is None,
        !evidence_names().contains(fields[at].0) ==> evidence_of(Doc::Record(fields)) is None,
{
}

/// A record that names a field twice is refused.
pub proof fn repeated_fields_are_refused(fields: Seq<(Seq<char>, Doc)>, i: int, j: int)
    requires
        0 <= i < j < fields.len(),
        fields[i].0 == fields[j].0,
    ensures
        graph_of(Doc::Record(fields)) is None,
        node_of(Doc::Record(fields)) is None,
        edge_of(Doc::Record(fields)) is None,
        evidence_of(Doc::Record(fields)) is None,
{
}

/// A node or an edge whose kind or status is none that the schema names is refused.
pub proof fn unknown_values_are_refused(doc: Doc)
    ensures
        fields_in(doc, node_names()) matches Some(f) ==> node_kind_of(field(f, "kind"@)) is None
            || status_of(field(f, "status"@)) is None ==> node_of(doc) is None,
        fields_in(doc, edge_names()) matches Some(f) ==> edge_kind_of(field(f, "kind"@)) is None
            || status_of(field(f, "status"@)) is None ==> edge_of(doc) is None,
{
}

/// A graph with one node or edge that cannot be read cannot be read itself.
pub proof fn one_unreadable_part_refuses_the_graph(doc: Doc, items: Seq<Doc>, at: int)
    requires
        0 <= at < items.len(),
        fields_in(doc, graph_names()) is Some,
    ensures
        field(fields_in(doc, graph_names())->0, "nodes"@) == Some(Doc::List(items)) && node_of(
            items[at],
        ) is None ==> graph_of(doc) is None,
        field(fields_in(doc, graph_names())->0, "edges"@) == Some(Doc::List(items)) && edge_of(
            items[at],
        ) is None ==> graph_of(doc) is None,
{
    let read_node = |d: Doc| node_of(d);
    let read_edge = |d: Doc| edge_of(d);
    if node_of(items[at]) is None {
        assert(read_node(items[at]) is None);
        assert(nodes_of(Some(Doc::List(items))) is None);
    }
    if edge_of(items[at]) is None {
        assert(read_edge(items[at]) is None);
        assert(edges_of(Some(Doc::List(items))) is None);
    }
}

/// No schema names two of its fields alike.
pub proof fn names_differ()
    ensures
        evidence_names().no_duplicates(),
        node_names().no_duplicates(),
        edge_names().no_duplicates(),
        graph_names().no_duplicates(),
{
    lemma_evidence_names();
    lemma_node_names();
    lemma_edge_names();
    lemma_graph_names();
}

} // verus!
