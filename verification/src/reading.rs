//! What a document has to say to be read as a graph, part by part.

use vstd::prelude::*;

use crate::decode::{
    edge_kind_named, edge_names, edge_of, edges_of, evidence_list_of, evidence_names, evidence_of,
    graph_names, graph_of, node_kind_named, node_names, node_of, nodes_of, sources_from, sources_of,
    status_named,
};
use crate::encode::{
    edge_doc, edge_kind_name, evidence_doc, graph_doc, node_doc, node_kind_name, status_name, Layout,
};
use crate::graph::{ClaimStatus, EdgeKind, EdgeView, EvidenceView, GraphView, NodeKind, NodeView};
use crate::json::{
    collapsed, collapsed_fields, collapsed_items, distinctly_named, field, fields_in, lemma_put_at, put,
    tag_of, well_named, Doc,
};
use crate::ordered::{ascending, ascending_is_determined_by_its_keys};
use crate::roundtrip::{
    edge_kind_has_its_name, names_differ, node_kind_has_its_name, status_has_its_name,
};
use crate::sources::{lemma_recorded_at, paths, recorded, recording_changes_one_path};
use crate::text::text_less;

verus! {

/// One of the fields has the name and the value.
pub open spec fn says(fields: Seq<(Seq<char>, Doc)>, name: Seq<char>, value: Doc) -> bool {
    exists|i: int| 0 <= i < fields.len() && #[trigger] fields[i] == (name, value)
}

/// None of the fields has the name.
pub open spec fn lacks(fields: Seq<(Seq<char>, Doc)>, name: Seq<char>) -> bool {
    forall|i: int| 0 <= i < fields.len() ==> (#[trigger] fields[i]).0 != name
}

/// The document names a variant by the word: as a string, or as a record with nothing
/// under that one name.
pub open spec fn words(doc: Doc, word: Seq<char>) -> bool {
    doc == Doc::Text(word) || (doc matches Doc::Record(fields) && fields.len() == 1 && fields[0] == (
        word,
        Doc::Null,
    ))
}

/// One of the fields has the name, and names a variant by the word.
pub open spec fn says_word(fields: Seq<(Seq<char>, Doc)>, name: Seq<char>, word: Seq<char>) -> bool {
    exists|i: int|
        0 <= i < fields.len() && (#[trigger] fields[i]).0 == name && words(fields[i].1, word)
}

/// Where no two fields share a name, what one says is what is found.
proof fn lemma_field_says(fields: Seq<(Seq<char>, Doc)>, name: Seq<char>)
    ensures
        field(fields, name) matches Some(value) ==> says(fields, name, value),
        field(fields, name) is None <==> lacks(fields, name),
        distinctly_named(fields) ==> forall|value: Doc| #[trigger]
            says(fields, name, value) ==> field(fields, name) == Some(value),
    decreases fields.len(),
{
    if fields.len() > 0 {
        let rest = fields.drop_first();
        lemma_field_says(rest, name);
        if fields[0].0 == name {
            assert(fields[0] == (name, fields[0].1));
            if distinctly_named(fields) {
                assert forall|value: Doc| #[trigger] says(fields, name, value) implies field(
                    fields,
                    name,
                ) == Some(value) by {
                    let i = choose|i: int|
                        0 <= i < fields.len() && #[trigger] fields[i] == (name, value);
                    if i > 0 {
                        assert(fields[0].0 != fields[i].0);
                    }
                }
            }
        } else {
            if let Some(value) = field(rest, name) {
                let i = choose|i: int| 0 <= i < rest.len() && #[trigger] rest[i] == (name, value);
                assert(fields[i + 1] == (name, value));
            }
            if lacks(rest, name) {
                assert forall|i: int| 0 <= i < fields.len() implies (#[trigger] fields[i]).0
                    != name by {
                    if i > 0 {
                        assert(rest[i - 1] == fields[i]);
                    }
                }
            }
            if lacks(fields, name) {
                assert forall|i: int| 0 <= i < rest.len() implies (#[trigger] rest[i]).0 != name by {
                    assert(rest[i] == fields[i + 1]);
                }
            }
            if distinctly_named(fields) {
                assert(distinctly_named(rest)) by {
                    assert forall|i: int, j: int| 0 <= i < j < rest.len() implies (
                    #[trigger] rest[i]).0 != (#[trigger] rest[j]).0 by {
                        assert(rest[i] == fields[i + 1] && rest[j] == fields[j + 1]);
                    }
                }
                assert forall|value: Doc| #[trigger] says(fields, name, value) implies field(
                    fields,
                    name,
                ) == Some(value) by {
                    let i = choose|i: int|
                        0 <= i < fields.len() && #[trigger] fields[i] == (name, value);
                    assert(rest[i - 1] == (name, value));
                    assert(says(rest, name, value));
                }
            }
        }
    }
}

/// A node kind is read from the nine words of the schema alone, each the word that the
/// kind is written as.
pub proof fn node_kinds_have_nine_words(name: Seq<char>)
    ensures
        node_kind_named(name) is Some <==> name == "component"@ || name == "dependency"@ || name
            == "asset"@ || name == "trust_boundary"@ || name == "assumption"@ || name == "threat"@
            || name == "control"@ || name == "finding"@ || name == "evidence"@,
        node_kind_named(name) matches Some(kind) ==> node_kind_name(kind) == name,
{
}

/// A status is read from the three words of the schema alone, each the word that the
/// status is written as.
pub proof fn statuses_have_three_words(name: Seq<char>)
    ensures
        status_named(name) is Some <==> name == "observed"@ || name == "inferred"@ || name
            == "proposed"@,
        status_named(name) matches Some(status) ==> status_name(status) == name,
{
}

/// An edge kind is read from the eleven words of the schema alone, each the word that
/// the kind is written as.
pub proof fn edge_kinds_have_eleven_words(name: Seq<char>)
    ensures
        edge_kind_named(name) is Some <==> name == "calls"@ || name == "depends_on"@ || name
            == "flows_to"@ || name == "inside"@ || name == "crosses"@ || name
            == "depends_on_assumption"@ || name == "threatens"@ || name == "violates"@ || name
            == "mitigates"@ || name == "protects"@ || name == "supported_by"@,
        edge_kind_named(name) matches Some(kind) ==> edge_kind_name(kind) == name,
{
}

/// Every kind and every status has its own word.
pub proof fn kinds_and_statuses_have_their_words()
    ensures
        node_kind_named("component"@) == Some(NodeKind::Component),
        node_kind_named("dependency"@) == Some(NodeKind::Dependency),
        node_kind_named("asset"@) == Some(NodeKind::Asset),
        node_kind_named("trust_boundary"@) == Some(NodeKind::TrustBoundary),
        node_kind_named("assumption"@) == Some(NodeKind::Assumption),
        node_kind_named("threat"@) == Some(NodeKind::Threat),
        node_kind_named("control"@) == Some(NodeKind::Control),
        node_kind_named("finding"@) == Some(NodeKind::Finding),
        node_kind_named("evidence"@) == Some(NodeKind::Evidence),
        status_named("observed"@) == Some(ClaimStatus::Observed),
        status_named("inferred"@) == Some(ClaimStatus::Inferred),
        status_named("proposed"@) == Some(ClaimStatus::Proposed),
        edge_kind_named("calls"@) == Some(EdgeKind::Calls),
        edge_kind_named("depends_on"@) == Some(EdgeKind::DependsOn),
        edge_kind_named("flows_to"@) == Some(EdgeKind::FlowsTo),
        edge_kind_named("inside"@) == Some(EdgeKind::Inside),
        edge_kind_named("crosses"@) == Some(EdgeKind::Crosses),
        edge_kind_named("depends_on_assumption"@) == Some(EdgeKind::DependsOnAssumption),
        edge_kind_named("threatens"@) == Some(EdgeKind::Threatens),
        edge_kind_named("violates"@) == Some(EdgeKind::Violates),
        edge_kind_named("mitigates"@) == Some(EdgeKind::Mitigates),
        edge_kind_named("protects"@) == Some(EdgeKind::Protects),
        edge_kind_named("supported_by"@) == Some(EdgeKind::SupportedBy),
{
    node_kind_has_its_name(NodeKind::Component);
    node_kind_has_its_name(NodeKind::Dependency);
    node_kind_has_its_name(NodeKind::Asset);
    node_kind_has_its_name(NodeKind::TrustBoundary);
    node_kind_has_its_name(NodeKind::Assumption);
    node_kind_has_its_name(NodeKind::Threat);
    node_kind_has_its_name(NodeKind::Control);
    node_kind_has_its_name(NodeKind::Finding);
    node_kind_has_its_name(NodeKind::Evidence);
    status_has_its_name(ClaimStatus::Observed);
    status_has_its_name(ClaimStatus::Inferred);
    status_has_its_name(ClaimStatus::Proposed);
    edge_kind_has_its_name(EdgeKind::Calls);
    edge_kind_has_its_name(EdgeKind::DependsOn);
    edge_kind_has_its_name(EdgeKind::FlowsTo);
    edge_kind_has_its_name(EdgeKind::Inside);
    edge_kind_has_its_name(EdgeKind::Crosses);
    edge_kind_has_its_name(EdgeKind::DependsOnAssumption);
    edge_kind_has_its_name(EdgeKind::Threatens);
    edge_kind_has_its_name(EdgeKind::Violates);
    edge_kind_has_its_name(EdgeKind::Mitigates);
    edge_kind_has_its_name(EdgeKind::Protects);
    edge_kind_has_its_name(EdgeKind::SupportedBy);
}

/// The names of the fields are among the given ones, and differ.
pub open spec fn named_among(fields: Seq<(Seq<char>, Doc)>, names: Seq<Seq<char>>) -> bool {
    &&& forall|i: int| 0 <= i < fields.len() ==> names.contains((#[trigger] fields[i]).0)
    &&& forall|i: int, j: int|
        0 <= i < j < fields.len() ==> (#[trigger] fields[i]).0 != (#[trigger] fields[j]).0
}

/// The fields say of an optional text what it is: it stands under the name, or null or
/// nothing stands there.
pub open spec fn says_text(
    fields: Seq<(Seq<char>, Doc)>,
    name: Seq<char>,
    value: Option<Seq<char>>,
) -> bool {
    match value {
        Some(s) => says(fields, name, Doc::Text(s)),
        None => lacks(fields, name) || says(fields, name, Doc::Null),
    }
}

/// The same of an optional number.
pub open spec fn says_number(
    fields: Seq<(Seq<char>, Doc)>,
    name: Seq<char>,
    value: Option<u32>,
) -> bool {
    match value {
        Some(n) => says(fields, name, Doc::Natural(n as u64)),
        None => lacks(fields, name) || says(fields, name, Doc::Null),
    }
}

/// A record is read as a piece of evidence exactly when its fields, of the schema's three
/// names and each once, say what the evidence is.
pub proof fn evidence_is_what_its_record_says(fields: Seq<(Seq<char>, Doc)>, e: EvidenceView)
    ensures
        evidence_of(Doc::Record(fields)) == Some(e) <==> {
            &&& named_among(fields, seq!["path"@, "symbol"@, "line"@])
            &&& says(fields, "path"@, Doc::Text(e.path))
            &&& says_text(fields, "symbol"@, e.symbol)
            &&& says_number(fields, "line"@, e.line)
        },
{
    let names = seq!["path"@, "symbol"@, "line"@];
    assert(names =~= evidence_names());
    assert(named_among(fields, names) <==> well_named(fields, names));
    lemma_field_says(fields, "path"@);
    lemma_field_says(fields, "symbol"@);
    lemma_field_says(fields, "line"@);
}

/// The fields list the evidence: piece by piece under the name, or none where nothing
/// stands there.
pub open spec fn says_evidence(
    fields: Seq<(Seq<char>, Doc)>,
    evidence: Seq<EvidenceView>,
) -> bool {
    if lacks(fields, "evidence"@) {
        evidence.len() == 0
    } else {
        exists|items: Seq<Doc>| #[trigger]
            says(fields, "evidence"@, Doc::List(items)) && items.len() == evidence.len() && forall|
                i: int,
            |
                0 <= i < items.len() ==> evidence_of(#[trigger] items[i]) == Some(evidence[i])
    }
}

proof fn lemma_evidence_said(fields: Seq<(Seq<char>, Doc)>, evidence: Seq<EvidenceView>)
    requires
        distinctly_named(fields),
    ensures
        evidence_list_of(field(fields, "evidence"@)) == Some(evidence) <==> says_evidence(
            fields,
            evidence,
        ),
{
    lemma_field_says(fields, "evidence"@);
    let read = |d: Doc| evidence_of(d);
    match field(fields, "evidence"@) {
        None => {
            if evidence.len() == 0 {
                assert(evidence =~= seq![]);
            }
        },
        Some(Doc::List(items)) => {
            if evidence_list_of(field(fields, "evidence"@)) == Some(evidence) {
                assert forall|i: int| 0 <= i < items.len() implies evidence_of(#[trigger] items[i])
                    == Some(evidence[i]) by {
                    assert(read(items[i]) is Some);
                    assert(items.map_values(|d: Doc| read(d)->0)[i] == evidence[i]);
                }
            }
            if says_evidence(fields, evidence) {
                let said = choose|said: Seq<Doc>| #[trigger]
                    says(fields, "evidence"@, Doc::List(said)) && said.len() == evidence.len()
                        && forall|i: int|
                        0 <= i < said.len() ==> evidence_of(#[trigger] said[i]) == Some(evidence[i]);
                assert(said == items);
                assert forall|i: int| 0 <= i < items.len() implies read(#[trigger] items[i])
                    == Some(evidence[i]) by {
                    assert(evidence_of(items[i]) == Some(evidence[i]));
                }
                assert(items.map_values(|d: Doc| read(d)->0) =~= evidence);
            }
        },
        Some(_) => {},
    }
}

proof fn lemma_word_said(fields: Seq<(Seq<char>, Doc)>, name: Seq<char>, word: Seq<char>)
    requires
        distinctly_named(fields),
    ensures
        says_word(fields, name, word) <==> (field(fields, name) matches Some(doc) && words(
            doc,
            word,
        )),
{
    lemma_field_says(fields, name);
    if says_word(fields, name, word) {
        let i = choose|i: int|
            0 <= i < fields.len() && (#[trigger] fields[i]).0 == name && words(fields[i].1, word);
        assert(fields[i] == (name, fields[i].1));
        assert(says(fields, name, fields[i].1));
    }
    if let Some(doc) = field(fields, name) {
        if words(doc, word) {
            let i = choose|i: int| 0 <= i < fields.len() && #[trigger] fields[i] == (name, doc);
            assert(fields[i].0 == name && words(fields[i].1, word));
        }
    }
}

/// A record is read as a node exactly when its fields, of the schema's five names and
/// each once, say what the node is, its kind and its status by their words.
pub proof fn node_is_what_its_record_says(fields: Seq<(Seq<char>, Doc)>, n: NodeView)
    ensures
        node_of(Doc::Record(fields)) == Some(n) <==> {
            &&& named_among(fields, seq!["id"@, "kind"@, "description"@, "status"@, "evidence"@])
            &&& says(fields, "id"@, Doc::Text(n.id))
            &&& says_word(fields, "kind"@, node_kind_name(n.kind))
            &&& says(fields, "description"@, Doc::Text(n.description))
            &&& says_word(fields, "status"@, status_name(n.status))
            &&& says_evidence(fields, n.evidence)
        },
{
    let names = seq!["id"@, "kind"@, "description"@, "status"@, "evidence"@];
    assert(names =~= node_names());
    assert(named_among(fields, names) <==> well_named(fields, names));
    lemma_field_says(fields, "id"@);
    lemma_field_says(fields, "description"@);
    if distinctly_named(fields) {
        lemma_word_said(fields, "kind"@, node_kind_name(n.kind));
        lemma_word_said(fields, "status"@, status_name(n.status));
        lemma_evidence_said(fields, n.evidence);
        node_kind_has_its_name(n.kind);
        status_has_its_name(n.status);
        if let Some(doc) = field(fields, "kind"@) {
            lemma_tag_words(doc);
        }
        if let Some(doc) = field(fields, "status"@) {
            lemma_tag_words(doc);
        }
    }
}

proof fn lemma_tag_words(doc: Doc)
    ensures
        forall|word: Seq<char>| #[trigger]
            words(doc, word) <==> tag_of(doc) == Some(word),
{
}

/// A record is read as an edge exactly when its fields, of the schema's five names and
/// each once, say what the edge is, its kind and its status by their words.
pub proof fn edge_is_what_its_record_says(fields: Seq<(Seq<char>, Doc)>, e: EdgeView)
    ensures
        edge_of(Doc::Record(fields)) == Some(e) <==> {
            &&& named_among(fields, seq!["from"@, "to"@, "kind"@, "status"@, "evidence"@])
            &&& says(fields, "from"@, Doc::Text(e.from))
            &&& says(fields, "to"@, Doc::Text(e.to))
            &&& says_word(fields, "kind"@, edge_kind_name(e.kind))
            &&& says_word(fields, "status"@, status_name(e.status))
            &&& says_evidence(fields, e.evidence)
        },
{
    let names = seq!["from"@, "to"@, "kind"@, "status"@, "evidence"@];
    assert(names =~= edge_names());
    assert(named_among(fields, names) <==> well_named(fields, names));
    lemma_field_says(fields, "from"@);
    lemma_field_says(fields, "to"@);
    if distinctly_named(fields) {
        lemma_word_said(fields, "kind"@, edge_kind_name(e.kind));
        lemma_word_said(fields, "status"@, status_name(e.status));
        lemma_evidence_said(fields, e.evidence);
        edge_kind_has_its_name(e.kind);
        status_has_its_name(e.status);
        if let Some(doc) = field(fields, "kind"@) {
            lemma_tag_words(doc);
        }
        if let Some(doc) = field(fields, "status"@) {
            lemma_tag_words(doc);
        }
    }
}

/// The last of the fields with the name has the text under it.
pub open spec fn last_says(
    fields: Seq<(Seq<char>, Doc)>,
    name: Seq<char>,
    text: Seq<char>,
) -> bool {
    exists|i: int|
        0 <= i < fields.len() && #[trigger] fields[i] == (name, Doc::Text(text)) && forall|j: int|
            i < j < fields.len() ==> (#[trigger] fields[j]).0 != name
}

/// Every field has a text under it.
pub open spec fn all_texts(fields: Seq<(Seq<char>, Doc)>) -> bool {
    forall|i: int| 0 <= i < fields.len() ==> (#[trigger] fields[i]).1 is Text
}

proof fn lemma_last_says_step(fields: Seq<(Seq<char>, Doc)>, name: Seq<char>, text: Seq<char>)
    requires
        fields.len() > 0,
    ensures
        last_says(fields, name, text) <==> if fields.last().0 == name {
            fields.last().1 == Doc::Text(text)
        } else {
            last_says(fields.drop_last(), name, text)
        },
{
    let rest = fields.drop_last();
    let n = fields.len() - 1;
    if last_says(fields, name, text) {
        let i = choose|i: int|
            0 <= i < fields.len() && #[trigger] fields[i] == (name, Doc::Text(text)) && forall|
                j: int,
            |
                i < j < fields.len() ==> (#[trigger] fields[j]).0 != name;
        if i < n {
            assert(fields[n].0 != name);
            assert(rest[i] == fields[i]);
            assert forall|j: int| i < j < rest.len() implies (#[trigger] rest[j]).0 != name by {
                assert(rest[j] == fields[j]);
            }
        }
    }
    if fields[n].0 == name && fields[n].1 == Doc::Text(text) {
        assert(fields[n] == (name, Doc::Text(text)));
    }
    if fields[n].0 != name && last_says(rest, name, text) {
        let i = choose|i: int|
            0 <= i < rest.len() && #[trigger] rest[i] == (name, Doc::Text(text)) && forall|j: int|
                i < j < rest.len() ==> (#[trigger] rest[j]).0 != name;
        assert(fields[i] == (name, Doc::Text(text)));
        assert forall|j: int| i < j < fields.len() implies (#[trigger] fields[j]).0 != name by {
            if j < n {
                assert(rest[j] == fields[j]);
            }
        }
    }
}

/// A record is read as source files exactly when a text stands under every name. What is
/// recorded for a path is then what the last field of that name has, in the order of paths.
pub proof fn sources_are_what_their_record_says(fields: Seq<(Seq<char>, Doc)>)
    ensures
        sources_from(fields) is Some <==> all_texts(fields),
        sources_from(fields) matches Some(sources) ==> ascending(paths(sources)) && forall|
            path: Seq<char>,
            hash: Seq<char>,
        |
            recorded(sources, path) == Some(hash) <==> #[trigger] last_says(fields, path, hash),
    decreases fields.len(),
{
    if fields.len() == 0 {
        assert(paths(seq![]) =~= seq![]);
    } else {
        let rest = fields.drop_last();
        let last = fields.last();
        sources_are_what_their_record_says(rest);
        if all_texts(rest) && last.1 is Text {
            assert forall|i: int| 0 <= i < fields.len() implies (#[trigger] fields[i]).1 is Text by {
                if i < rest.len() {
                    assert(rest[i] == fields[i]);
                }
            }
        }
        if all_texts(fields) {
            assert(fields[fields.len() - 1].1 is Text);
            assert forall|i: int| 0 <= i < rest.len() implies (#[trigger] rest[i]).1 is Text by {
                assert(rest[i] == fields[i]);
            }
        }
        if let Some(sources) = sources_from(fields) {
            let before = sources_from(rest)->0;
            let hash = last.1->Text_0;
            recording_changes_one_path(before, last.0, hash, last.0);
            assert forall|path: Seq<char>, h: Seq<char>|
                recorded(sources, path) == Some(h) <==> #[trigger] last_says(fields, path, h) by {
                lemma_last_says_step(fields, path, h);
                recording_changes_one_path(before, last.0, hash, path);
                assert(recorded(before, path) == Some(h) <==> last_says(rest, path, h));
            }
        }
    }
}

/// Two ascending lists of entries that record the same are the same.
pub proof fn entries_are_what_they_record(
    a: Seq<(Seq<char>, Seq<char>)>,
    b: Seq<(Seq<char>, Seq<char>)>,
)
    requires
        ascending(paths(a)),
        ascending(paths(b)),
        forall|path: Seq<char>| #[trigger] recorded(a, path) == recorded(b, path),
    ensures
        a == b,
{
    assert forall|p: Seq<char>| #[trigger] paths(a).contains(p) <==> paths(b).contains(p) by {
        assert(recorded(a, p) == recorded(b, p));
    }
    ascending_is_determined_by_its_keys(paths(a), paths(b));
    assert forall|i: int| 0 <= i < a.len() implies #[trigger] a[i] == b[i] by {
        lemma_recorded_at(a, i);
        lemma_recorded_at(b, i);
        assert(paths(a)[i] == paths(b)[i]);
        assert(recorded(a, a[i].0) == recorded(b, a[i].0));
    }
    assert(paths(a).len() == paths(b).len());
    assert(a =~= b);
}

/// The fields record the source files: under the name, of each path the last text, or
/// none where nothing stands there.
pub open spec fn says_sources(
    fields: Seq<(Seq<char>, Doc)>,
    sources: Seq<(Seq<char>, Seq<char>)>,
) -> bool {
    if lacks(fields, "source_files"@) {
        sources.len() == 0
    } else {
        exists|said: Seq<(Seq<char>, Doc)>| #[trigger]
            says(fields, "source_files"@, Doc::Record(said)) && all_texts(said) && ascending(
                paths(sources),
            ) && forall|path: Seq<char>, hash: Seq<char>|
                recorded(sources, path) == Some(hash) <==> #[trigger] last_says(said, path, hash)
    }
}

proof fn lemma_sources_said(
    fields: Seq<(Seq<char>, Doc)>,
    sources: Seq<(Seq<char>, Seq<char>)>,
)
    requires
        distinctly_named(fields),
    ensures
        sources_of(field(fields, "source_files"@)) == Some(sources) <==> says_sources(
            fields,
            sources,
        ),
{
    lemma_field_says(fields, "source_files"@);
    match field(fields, "source_files"@) {
        None => {
            if sources.len() == 0 {
                assert(sources =~= seq![]);
            }
        },
        Some(Doc::Record(said)) => {
            sources_are_what_their_record_says(said);
            assert(says(fields, "source_files"@, Doc::Record(said)));
            if says_sources(fields, sources) {
                let other = choose|other: Seq<(Seq<char>, Doc)>| #[trigger]
                    says(fields, "source_files"@, Doc::Record(other)) && all_texts(other)
                        && ascending(paths(sources)) && forall|path: Seq<char>, hash: Seq<char>|
                        recorded(sources, path) == Some(hash) <==> #[trigger] last_says(
                            other,
                            path,
                            hash,
                        );
                assert(other == said);
                let read = sources_from(said)->0;
                assert forall|path: Seq<char>| #[trigger]
                    recorded(read, path) == recorded(sources, path) by {
                    if let Some(h) = recorded(read, path) {
                        assert(last_says(said, path, h));
                    }
                    if let Some(h) = recorded(sources, path) {
                        assert(last_says(said, path, h));
                    }
                }
                entries_are_what_they_record(read, sources);
            }
        },
        Some(_) => {},
    }
}

/// The fields list the nodes, one by one, under their name.
pub open spec fn says_nodes(fields: Seq<(Seq<char>, Doc)>, nodes: Seq<NodeView>) -> bool {
    exists|items: Seq<Doc>| #[trigger]
        says(fields, "nodes"@, Doc::List(items)) && items.len() == nodes.len() && forall|i: int|
            0 <= i < items.len() ==> node_of(#[trigger] items[i]) == Some(nodes[i])
}

/// The fields list the edges, one by one, under their name.
pub open spec fn says_edges(fields: Seq<(Seq<char>, Doc)>, edges: Seq<EdgeView>) -> bool {
    exists|items: Seq<Doc>| #[trigger]
        says(fields, "edges"@, Doc::List(items)) && items.len() == edges.len() && forall|i: int|
            0 <= i < items.len() ==> edge_of(#[trigger] items[i]) == Some(edges[i])
}

proof fn lemma_nodes_said(fields: Seq<(Seq<char>, Doc)>, nodes: Seq<NodeView>)
    requires
        distinctly_named(fields),
    ensures
        nodes_of(field(fields, "nodes"@)) == Some(nodes) <==> says_nodes(fields, nodes),
{
    lemma_field_says(fields, "nodes"@);
    let read = |d: Doc| node_of(d);
    if let Some(Doc::List(items)) = field(fields, "nodes"@) {
        if nodes_of(field(fields, "nodes"@)) == Some(nodes) {
            assert forall|i: int| 0 <= i < items.len() implies node_of(#[trigger] items[i]) == Some(
                nodes[i],
            ) by {
                assert(read(items[i]) is Some);
                assert(items.map_values(|d: Doc| read(d)->0)[i] == nodes[i]);
            }
        }
        if says_nodes(fields, nodes) {
            let said = choose|said: Seq<Doc>| #[trigger]
                says(fields, "nodes"@, Doc::List(said)) && said.len() == nodes.len() && forall|
                    i: int,
                |
                    0 <= i < said.len() ==> node_of(#[trigger] said[i]) == Some(nodes[i]);
            assert(said == items);
            assert forall|i: int| 0 <= i < items.len() implies read(#[trigger] items[i]) == Some(
                nodes[i],
            ) by {
                assert(node_of(items[i]) == Some(nodes[i]));
            }
            assert(items.map_values(|d: Doc| read(d)->0) =~= nodes);
        }
    }
}

proof fn lemma_edges_said(fields: Seq<(Seq<char>, Doc)>, edges: Seq<EdgeView>)
    requires
        distinctly_named(fields),
    ensures
        edges_of(field(fields, "edges"@)) == Some(edges) <==> says_edges(fields, edges),
{
    lemma_field_says(fields, "edges"@);
    let read = |d: Doc| edge_of(d);
    if let Some(Doc::List(items)) = field(fields, "edges"@) {
        if edges_of(field(fields, "edges"@)) == Some(edges) {
            assert forall|i: int| 0 <= i < items.len() implies edge_of(#[trigger] items[i]) == Some(
                edges[i],
            ) by {
                assert(read(items[i]) is Some);
                assert(items.map_values(|d: Doc| read(d)->0)[i] == edges[i]);
            }
        }
        if says_edges(fields, edges) {
            let said = choose|said: Seq<Doc>| #[trigger]
                says(fields, "edges"@, Doc::List(said)) && said.len() == edges.len() && forall|
                    i: int,
                |
                    0 <= i < said.len() ==> edge_of(#[trigger] said[i]) == Some(edges[i]);
            assert(said == items);
            assert forall|i: int| 0 <= i < items.len() implies read(#[trigger] items[i]) == Some(
                edges[i],
            ) by {
                assert(edge_of(items[i]) == Some(edges[i]));
            }
            assert(items.map_values(|d: Doc| read(d)->0) =~= edges);
        }
    }
}

/// A record is read as a graph exactly when its fields, of the schema's six names and
/// each once, say what the graph is.
pub proof fn graph_is_what_its_record_says(fields: Seq<(Seq<char>, Doc)>, g: GraphView)
    ensures
        graph_of(Doc::Record(fields)) == Some(g) <==> {
            &&& named_among(
                fields,
                seq!["schema_version"@, "id"@, "description"@, "source_files"@, "nodes"@, "edges"@],
            )
            &&& says(fields, "schema_version"@, Doc::Natural(g.schema_version as u64))
            &&& says(fields, "id"@, Doc::Text(g.id))
            &&& says(fields, "description"@, Doc::Text(g.description))
            &&& says_sources(fields, g.source_files)
            &&& says_nodes(fields, g.nodes)
            &&& says_edges(fields, g.edges)
        },
{
    let names = seq![
        "schema_version"@,
        "id"@,
        "description"@,
        "source_files"@,
        "nodes"@,
        "edges"@,
    ];
    assert(names =~= graph_names());
    assert(named_among(fields, names) <==> well_named(fields, names));
    lemma_field_says(fields, "schema_version"@);
    lemma_field_says(fields, "id"@);
    lemma_field_says(fields, "description"@);
    if distinctly_named(fields) {
        lemma_sources_said(fields, g.source_files);
        lemma_nodes_said(fields, g.nodes);
        lemma_edges_said(fields, g.edges);
    }
}

/// An edge whose kind is a string that is none of the schema's eleven words is no edge,
/// and a graph that lists it is refused. The same holds of the nine words for a node's
/// kind and the three for a status.
pub proof fn misspelt_words_refuse_the_graph(
    graph: Seq<(Seq<char>, Doc)>,
    items: Seq<Doc>,
    at: int,
    part: Seq<(Seq<char>, Doc)>,
    word: Seq<char>,
)
    requires
        0 <= at < items.len(),
        items[at] == Doc::Record(part),
    ensures
        says(part, "kind"@, Doc::Text(word)) && !(word == "calls"@ || word == "depends_on"@ || word
            == "flows_to"@ || word == "inside"@ || word == "crosses"@ || word
            == "depends_on_assumption"@ || word == "threatens"@ || word == "violates"@ || word
            == "mitigates"@ || word == "protects"@ || word == "supported_by"@) ==> {
            &&& edge_of(items[at]) is None
            &&& says(graph, "edges"@, Doc::List(items)) ==> graph_of(Doc::Record(graph)) is None
        },
        says(part, "kind"@, Doc::Text(word)) && !(word == "component"@ || word == "dependency"@
            || word == "asset"@ || word == "trust_boundary"@ || word == "assumption"@ || word
            == "threat"@ || word == "control"@ || word == "finding"@ || word == "evidence"@) ==> {
            &&& node_of(items[at]) is None
            &&& says(graph, "nodes"@, Doc::List(items)) ==> graph_of(Doc::Record(graph)) is None
        },
        says(part, "status"@, Doc::Text(word)) && !(word == "observed"@ || word == "inferred"@
            || word == "proposed"@) ==> {
            &&& edge_of(items[at]) is None
            &&& node_of(items[at]) is None
            &&& says(graph, "edges"@, Doc::List(items)) ==> graph_of(Doc::Record(graph)) is None
            &&& says(graph, "nodes"@, Doc::List(items)) ==> graph_of(Doc::Record(graph)) is None
        },
{
    lemma_field_says(part, "kind"@);
    lemma_field_says(part, "status"@);
    node_kinds_have_nine_words(word);
    edge_kinds_have_eleven_words(word);
    statuses_have_three_words(word);
    lemma_field_says(graph, "edges"@);
    lemma_field_says(graph, "nodes"@);
    let read_node = |d: Doc| node_of(d);
    let read_edge = |d: Doc| edge_of(d);
    if node_of(items[at]) is None {
        assert(read_node(items[at]) is None);
    }
    if edge_of(items[at]) is None {
        assert(read_edge(items[at]) is None);
    }
}

/// A list stands for the record whose first fields, in the order of the schema, have its
/// items under them.
pub open spec fn as_record(names: Seq<Seq<char>>, items: Seq<Doc>) -> Doc {
    Doc::Record(Seq::new(items.len(), |i: int| (names[i], items[i])))
}

/// A list with no more items than a schema has fields is read as the record that it
/// stands for, and any longer one is refused.
pub proof fn lists_are_read_as_records(items: Seq<Doc>)
    ensures
        graph_of(Doc::List(items)) == if items.len() <= 6 {
            graph_of(
                as_record(
                    seq![
                        "schema_version"@,
                        "id"@,
                        "description"@,
                        "source_files"@,
                        "nodes"@,
                        "edges"@,
                    ],
                    items,
                ),
            )
        } else {
            None
        },
        node_of(Doc::List(items)) == if items.len() <= 5 {
            node_of(
                as_record(seq!["id"@, "kind"@, "description"@, "status"@, "evidence"@], items),
            )
        } else {
            None
        },
        edge_of(Doc::List(items)) == if items.len() <= 5 {
            edge_of(as_record(seq!["from"@, "to"@, "kind"@, "status"@, "evidence"@], items))
        } else {
            None
        },
        evidence_of(Doc::List(items)) == if items.len() <= 3 {
            evidence_of(as_record(seq!["path"@, "symbol"@, "line"@], items))
        } else {
            None
        },
{
    names_differ();
    lemma_as_record(graph_names(), items);
    lemma_as_record(node_names(), items);
    lemma_as_record(edge_names(), items);
    lemma_as_record(evidence_names(), items);
}

proof fn lemma_as_record(names: Seq<Seq<char>>, items: Seq<Doc>)
    requires
        names.no_duplicates(),
    ensures
        items.len() <= names.len() ==> fields_in(Doc::List(items), names) == fields_in(
            as_record(names, items),
            names,
        ),
{
    if items.len() <= names.len() {
        let f = as_record(names, items)->Record_0;
        assert forall|i: int| 0 <= i < f.len() implies names.contains((#[trigger] f[i]).0) by {
            assert(f[i].0 == names[i]);
        }
        assert forall|i: int, j: int| 0 <= i < j < f.len() implies (#[trigger] f[i]).0 != (
        #[trigger] f[j]).0 by {
            assert(f[i].0 == names[i] && f[j].0 == names[j]);
        }
        assert(well_named(f, names));
    }
}

/// The last of the fields with the name has the document under it.
pub open spec fn lasts(fields: Seq<(Seq<char>, Doc)>, name: Seq<char>, doc: Doc) -> bool {
    exists|i: int|
        0 <= i < fields.len() && #[trigger] fields[i] == (name, doc) && forall|j: int|
            i < j < fields.len() ==> (#[trigger] fields[j]).0 != name
}

proof fn lemma_put_says(fields: Seq<(Seq<char>, Doc)>, name: Seq<char>, value: Doc)
    requires
        distinctly_named(fields),
    ensures
        distinctly_named(put(fields, name, value)),
        forall|n: Seq<char>, v: Doc| #[trigger]
            says(put(fields, name, value), n, v) <==> if n == name {
                v == value
            } else {
                says(fields, n, v)
            },
{
    let at = lemma_first_named(fields, name);
    lemma_put_at(fields, name, value, at);
    let new = put(fields, name, value);
    assert(new[at] == (name, value));
    assert forall|i: int, j: int| 0 <= i < j < new.len() implies (#[trigger] new[i]).0 != (
    #[trigger] new[j]).0 by {
        if i != at && j != at {
            assert(new[i] == fields[i] && new[j] == fields[j]);
        } else if i == at {
            assert(new[j] == fields[j]);
            assert(fields[at].0 != fields[j].0);
        } else {
            assert(new[i] == fields[i]);
        }
    }
    assert forall|n: Seq<char>, v: Doc| #[trigger] says(new, n, v) <==> if n == name {
        v == value
    } else {
        says(fields, n, v)
    } by {
        if says(new, n, v) {
            let i = choose|i: int| 0 <= i < new.len() && #[trigger] new[i] == (n, v);
            if n == name && i != at {
                assert(new[i].0 != new[at].0);
            }
            if n != name {
                assert(fields[i] == (n, v));
            }
        }
        if n == name && v == value {
            assert(new[at] == (n, v));
        }
        if n != name && says(fields, n, v) {
            let i = choose|i: int| 0 <= i < fields.len() && #[trigger] fields[i] == (n, v);
            assert(new[i] == (n, v));
        }
    }
}

proof fn lemma_first_named(fields: Seq<(Seq<char>, Doc)>, name: Seq<char>) -> (at: int)
    ensures
        0 <= at <= fields.len(),
        forall|j: int| 0 <= j < at ==> (#[trigger] fields[j]).0 != name,
        at < fields.len() ==> fields[at].0 == name,
    decreases fields.len(),
{
    if fields.len() == 0 {
        0
    } else {
        let rest = fields.drop_last();
        let at = lemma_first_named(rest, name);
        assert forall|j: int| 0 <= j < at implies (#[trigger] fields[j]).0 != name by {
            assert(rest[j] == fields[j]);
        }
        if at < rest.len() {
            at
        } else if fields.last().0 == name {
            rest.len() as int
        } else {
            fields.len() as int
        }
    }
}

/// Merging keeps of every name the last that stands under it, and repeats no name. It goes
/// through lists item by item, and leaves everything else.
pub proof fn merging_keeps_the_last(
    fields: Seq<(Seq<char>, Doc)>,
    items: Seq<Doc>,
    name: Seq<char>,
    value: Doc,
)
    ensures
        collapsed(Doc::Record(fields)) matches Doc::Record(merged) && distinctly_named(merged) && (
        says(merged, name, value) <==> exists|doc: Doc| #[trigger]
            lasts(fields, name, doc) && value == collapsed(doc)),
        collapsed(Doc::List(items)) matches Doc::List(merged) && merged.len() == items.len()
            && forall|i: int|
            0 <= i < items.len() ==> #[trigger] merged[i] == collapsed(items[i]),
        !(value is Record) && !(value is List) ==> collapsed(value) == value,
{
    lemma_collapsed_fields(fields);
    lemma_collapsed_items(items);
    assert(says(collapsed_fields(fields), name, value) <==> exists|doc: Doc| #[trigger]
        lasts(fields, name, doc) && value == collapsed(doc));
}

proof fn lemma_collapsed_items(items: Seq<Doc>)
    ensures
        collapsed_items(items).len() == items.len(),
        forall|i: int|
            0 <= i < items.len() ==> #[trigger] collapsed_items(items)[i] == collapsed(items[i]),
    decreases items.len(),
{
    if items.len() > 0 {
        let rest = items.subrange(0, items.len() - 1);
        lemma_collapsed_items(rest);
        assert forall|i: int| 0 <= i < items.len() implies #[trigger] collapsed_items(items)[i]
            == collapsed(items[i]) by {
            if i < rest.len() {
                assert(collapsed_items(rest)[i] == collapsed(rest[i]));
            }
        }
    }
}

proof fn lemma_collapsed_fields(fields: Seq<(Seq<char>, Doc)>)
    ensures
        distinctly_named(collapsed_fields(fields)),
        forall|n: Seq<char>, v: Doc| #[trigger]
            says(collapsed_fields(fields), n, v) <==> exists|doc: Doc| #[trigger]
                lasts(fields, n, doc) && v == collapsed(doc),
    decreases fields.len(),
{
    if fields.len() > 0 {
        let last = fields[fields.len() - 1];
        let rest = fields.subrange(0, fields.len() - 1);
        lemma_collapsed_fields(rest);
        lemma_put_says(collapsed_fields(rest), last.0, collapsed(last.1));
        assert forall|n: Seq<char>, v: Doc| #[trigger]
            says(collapsed_fields(fields), n, v) <==> exists|doc: Doc| #[trigger]
                lasts(fields, n, doc) && v == collapsed(doc) by {
            assert forall|doc: Doc| #[trigger] lasts(fields, n, doc) <==> if n == last.0 {
                doc == last.1
            } else {
                lasts(rest, n, doc)
            } by {
                lemma_lasts_step(fields, n, doc);
            }
            assert(says(collapsed_fields(rest), n, v) <==> exists|doc: Doc| #[trigger]
                lasts(rest, n, doc) && v == collapsed(doc));
            if n == last.0 {
                assert(lasts(fields, n, last.1));
            } else {
                if exists|doc: Doc| #[trigger] lasts(rest, n, doc) && v == collapsed(doc) {
                    let doc = choose|doc: Doc| #[trigger]
                        lasts(rest, n, doc) && v == collapsed(doc);
                    assert(lasts(fields, n, doc));
                }
                if exists|doc: Doc| #[trigger] lasts(fields, n, doc) && v == collapsed(doc) {
                    let doc = choose|doc: Doc| #[trigger]
                        lasts(fields, n, doc) && v == collapsed(doc);
                    assert(lasts(rest, n, doc));
                }
            }
        }
    }
}

proof fn lemma_lasts_step(fields: Seq<(Seq<char>, Doc)>, name: Seq<char>, doc: Doc)
    requires
        fields.len() > 0,
    ensures
        lasts(fields, name, doc) <==> if fields[fields.len() - 1].0 == name {
            fields[fields.len() - 1].1 == doc
        } else {
            lasts(fields.subrange(0, fields.len() - 1), name, doc)
        },
{
    let n = fields.len() - 1;
    let rest = fields.subrange(0, n);
    if lasts(fields, name, doc) {
        let i = choose|i: int|
            0 <= i < fields.len() && #[trigger] fields[i] == (name, doc) && forall|j: int|
                i < j < fields.len() ==> (#[trigger] fields[j]).0 != name;
        if i < n {
            assert(fields[n].0 != name);
            assert(rest[i] == fields[i]);
            assert forall|j: int| i < j < rest.len() implies (#[trigger] rest[j]).0 != name by {
                assert(rest[j] == fields[j]);
            }
        }
    }
    if fields[n].0 == name && fields[n].1 == doc {
        assert(fields[n] == (name, doc));
    }
    if fields[n].0 != name && lasts(rest, name, doc) {
        let i = choose|i: int|
            0 <= i < rest.len() && #[trigger] rest[i] == (name, doc) && forall|j: int|
                i < j < rest.len() ==> (#[trigger] rest[j]).0 != name;
        assert(fields[i] == (name, doc));
        assert forall|j: int| i < j < fields.len() implies (#[trigger] fields[j]).0 != name by {
            if j < n {
                assert(rest[j] == fields[j]);
            }
        }
    }
}

/// The names of the fields, in their order.
pub open spec fn names_in(doc: Doc) -> Seq<Seq<char>> {
    match doc {
        Doc::Record(fields) => fields.map_values(|f: (Seq<char>, Doc)| f.0),
        _ => seq![],
    }
}

/// As it is declared, every record has the fields of its schema in the schema's order; of a
/// piece of evidence those that there are.
pub proof fn declared_records_follow_the_schema(
    g: GraphView,
    n: NodeView,
    e: EdgeView,
    v: EvidenceView,
)
    ensures
        names_in(graph_doc(g, Layout::Declared)) == seq![
            "schema_version"@,
            "id"@,
            "description"@,
            "source_files"@,
            "nodes"@,
            "edges"@,
        ],
        names_in(node_doc(n, Layout::Declared)) == seq![
            "id"@,
            "kind"@,
            "description"@,
            "status"@,
            "evidence"@,
        ],
        names_in(edge_doc(e, Layout::Declared)) == seq![
            "from"@,
            "to"@,
            "kind"@,
            "status"@,
            "evidence"@,
        ],
        names_in(evidence_doc(v, Layout::Declared)) == seq!["path"@] + (if v.symbol is Some {
            seq!["symbol"@]
        } else {
            seq![]
        }) + (if v.line is Some {
            seq!["line"@]
        } else {
            seq![]
        }),
{
    assert(names_in(graph_doc(g, Layout::Declared)) =~= seq![
        "schema_version"@,
        "id"@,
        "description"@,
        "source_files"@,
        "nodes"@,
        "edges"@,
    ]);
}

/// By name, every record has the same fields in the order of strings.
pub proof fn records_by_name_are_in_order(g: GraphView, n: NodeView, e: EdgeView, v: EvidenceView)
    ensures
        names_in(graph_doc(g, Layout::ByName)) == seq![
            "description"@,
            "edges"@,
            "id"@,
            "nodes"@,
            "schema_version"@,
            "source_files"@,
        ],
        names_in(node_doc(n, Layout::ByName)) == seq![
            "description"@,
            "evidence"@,
            "id"@,
            "kind"@,
            "status"@,
        ],
        names_in(edge_doc(e, Layout::ByName)) == seq![
            "evidence"@,
            "from"@,
            "kind"@,
            "status"@,
            "to"@,
        ],
        names_in(evidence_doc(v, Layout::ByName)) == (if v.line is Some {
            seq!["line"@]
        } else {
            seq![]
        }) + seq!["path"@] + (if v.symbol is Some {
            seq!["symbol"@]
        } else {
            seq![]
        }),
        ascending(names_in(graph_doc(g, Layout::ByName))),
        ascending(names_in(node_doc(n, Layout::ByName))),
        ascending(names_in(edge_doc(e, Layout::ByName))),
        ascending(names_in(evidence_doc(v, Layout::ByName))),
{
    reveal_strlit("description");
    reveal_strlit("edges");
    reveal_strlit("id");
    reveal_strlit("nodes");
    reveal_strlit("schema_version");
    reveal_strlit("source_files");
    reveal_strlit("evidence");
    reveal_strlit("kind");
    reveal_strlit("status");
    reveal_strlit("from");
    reveal_strlit("to");
    reveal_strlit("line");
    reveal_strlit("path");
    reveal_strlit("symbol");
    assert("description"@[0] == 'd' && "description"@.len() == 11);
    assert("edges"@[0] == 'e' && "edges"@.len() == 5);
    assert("id"@[0] == 'i' && "id"@.len() == 2);
    assert("nodes"@[0] == 'n' && "nodes"@.len() == 5);
    assert("schema_version"@[0] == 's' && "schema_version"@.len() == 14);
    assert("source_files"@[0] == 's' && "source_files"@.len() == 12);
    assert("evidence"@[0] == 'e' && "evidence"@.len() == 8);
    assert("kind"@[0] == 'k' && "kind"@.len() == 4);
    assert("status"@[0] == 's' && "status"@.len() == 6);
    assert("from"@[0] == 'f' && "from"@.len() == 4);
    assert("to"@[0] == 't' && "to"@.len() == 2);
    assert("line"@[0] == 'l' && "line"@.len() == 4);
    assert("path"@[0] == 'p' && "path"@.len() == 4);
    assert("symbol"@[0] == 's' && "symbol"@.len() == 6);
    assert(text_less("schema_version"@, "source_files"@)) by {
        let a = "schema_version"@;
        let b = "source_files"@;
        assert(a[1] == 'c' && b[1] == 'o');
        assert(a.drop_first()[0] == 'c' && b.drop_first()[0] == 'o');
        reveal_with_fuel(text_less, 2);
    }
}

/// A record that is written has its lists and records under their names, all in the same
/// order of fields.
pub proof fn written_parts_are_in_one_layout(
    g: GraphView,
    n: NodeView,
    e: EdgeView,
    layout: Layout,
)
    ensures
        graph_doc(g, layout) matches Doc::Record(fields) && says(
            fields,
            "nodes"@,
            Doc::List(g.nodes.map_values(|node: NodeView| node_doc(node, layout))),
        ) && says(
            fields,
            "edges"@,
            Doc::List(g.edges.map_values(|edge: EdgeView| edge_doc(edge, layout))),
        ) && says(
            fields,
            "source_files"@,
            Doc::Record(
                g.source_files.map_values(|s: (Seq<char>, Seq<char>)| (s.0, Doc::Text(s.1))),
            ),
        ),
        node_doc(n, layout) matches Doc::Record(fields) && says(
            fields,
            "evidence"@,
            Doc::List(n.evidence.map_values(|v: EvidenceView| evidence_doc(v, layout))),
        ),
        edge_doc(e, layout) matches Doc::Record(fields) && says(
            fields,
            "evidence"@,
            Doc::List(e.evidence.map_values(|v: EvidenceView| evidence_doc(v, layout))),
        ),
{
    let f = graph_doc(g, layout)->Record_0;
    let of_node = node_doc(n, layout)->Record_0;
    let of_edge = edge_doc(e, layout)->Record_0;
    match layout {
        Layout::Declared => {
            assert(f[3].0 == "source_files"@ && f[4].0 == "nodes"@ && f[5].0 == "edges"@);
            assert(of_node[4].0 == "evidence"@ && of_edge[4].0 == "evidence"@);
        },
        Layout::ByName => {
            assert(f[5].0 == "source_files"@ && f[3].0 == "nodes"@ && f[1].0 == "edges"@);
            assert(of_node[1].0 == "evidence"@ && of_edge[0].0 == "evidence"@);
        },
    }
}

} // verus!
