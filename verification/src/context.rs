//! The security context of a repository, and how it is put together.

use std::path::PathBuf;
use vstd::prelude::*;
use vstd::utf8::encode_utf8;

use crate::decode::graph_of;
use crate::encode::{graph_doc, Layout};
use crate::error::{LoadError, LoadFault};
use crate::graph::{GraphView, SecurityGraph};
use crate::hash::{content_hash, fingerprint};
use crate::json::{
    compact_text, parsed, pretty_text, write_compact, write_pretty, Doc, MAX_NESTING,
};
use crate::prompt::{
    brackets_stand_at_the_tags, build_prompt, closing, context_closes_once,
    context_holds_the_whole_payload, context_tells_freshness, escaped, freshness, payload,
    payload_doc, payload_is_plain, preamble, prompt_text,
};
use crate::ordered::ascending;
use crate::reading::says;
use crate::review::{
    all_match, cites, hash_views, mentions, review, reviewed, reviewed_are_the_mentioned,
    sources_match, state_name, statuses, SourceState,
};
use crate::roundtrip::{written_graph_is_plain, written_graph_is_read_back};
use crate::sources::{lemma_recorded_at, paths};
use crate::text::{
    contains_text, decimal, lower_forgets_case_alone, occurs_at, same_but_for_case, text_less,
    to_decimal,
};

verus! {

/// Where a repository keeps its security graph.
pub const DEFAULT_GRAPH_PATH: &'static str = ".jcode/security-graph.json";

/// The most bytes of a security context.
pub const MAX_CONTEXT_BYTES: usize = 16 * 1024;

/// The context that is supplied before a request.
#[derive(Debug, Clone)]
pub struct SecurityContext {
    pub graph_path: PathBuf,
    pub graph_hash: String,
    pub node_count: usize,
    pub edge_count: usize,
    /// Source files match the recorded hashes; this is not a security verdict.
    pub sources_match: bool,
    pub prompt: String,
}

/// What a [`SecurityContext`] says.
pub struct ContextView {
    pub graph_path: PathBuf,
    pub graph_hash: Seq<char>,
    pub node_count: nat,
    pub edge_count: nat,
    pub sources_match: bool,
    pub prompt: Seq<char>,
}

impl View for SecurityContext {
    type V = ContextView;

    open spec fn view(&self) -> ContextView {
        ContextView {
            graph_path: self.graph_path,
            graph_hash: self.graph_hash@,
            node_count: self.node_count as nat,
            edge_count: self.edge_count as nat,
            sources_match: self.sources_match,
            prompt: self.prompt@,
        }
    }
}

/// Why there is no context where there should be one.
#[derive(Debug, Clone, PartialEq, Eq)]
pub enum ContextError {
    /// The working directory cannot be resolved.
    WorkingDirectory,
    /// The graph's path is given and empty.
    EmptyPath,
    /// Whether a directory has a graph cannot be told.
    Discovery,
    Graph(LoadError),
    /// The context is larger than what may be supplied.
    TooLarge,
    /// The context has no JSON.
    Unwritable,
}

/// What a [`ContextError`] says.
pub enum ContextFault {
    WorkingDirectory,
    EmptyPath,
    Discovery,
    Graph(LoadFault),
    TooLarge,
    Unwritable,
}

impl View for ContextError {
    type V = ContextFault;

    open spec fn view(&self) -> ContextFault {
        match self {
            ContextError::WorkingDirectory => ContextFault::WorkingDirectory,
            ContextError::EmptyPath => ContextFault::EmptyPath,
            ContextError::Discovery => ContextFault::Discovery,
            ContextError::Graph(e) => ContextFault::Graph(e@),
            ContextError::TooLarge => ContextFault::TooLarge,
            ContextError::Unwritable => ContextFault::Unwritable,
        }
    }
}

impl ContextFault {
    /// The sentence for a fault.
    pub open spec fn text(self) -> Seq<char> {
        match self {
            ContextFault::WorkingDirectory => "resolving security context working directory"@,
            ContextFault::EmptyPath => "security graph path is empty"@,
            ContextFault::Discovery => "discovering security graph"@,
            ContextFault::Graph(fault) => fault.text(),
            ContextFault::TooLarge => "security graph context exceeds "@ + decimal(
                MAX_CONTEXT_BYTES as nat,
            ) + " bytes; reduce the graph scope"@,
            ContextFault::Unwritable => "security context cannot be written as JSON"@,
        }
    }
}

impl ContextError {
    /// The sentence for an error.
    pub fn message(&self) -> (r: String)
        ensures
            r@ == self@.text(),
    {
        match self {
            ContextError::WorkingDirectory =>
                "resolving security context working directory".to_owned(),
            ContextError::EmptyPath => "security graph path is empty".to_owned(),
            ContextError::Discovery => "discovering security graph".to_owned(),
            ContextError::Graph(e) => e.message(),
            ContextError::TooLarge => {
                let mut out = "security graph context exceeds ".to_owned();
                out.append(to_decimal(MAX_CONTEXT_BYTES as u64).as_str());
                out.append(" bytes; reduce the graph scope");
                out
            },
            ContextError::Unwritable => "security context cannot be written as JSON".to_owned(),
        }
    }
}

/// The fingerprint of a graph: of its JSON without white space between its parts.
pub open spec fn graph_fingerprint(g: GraphView) -> Option<Seq<char>> {
    match compact_text(graph_doc(g, Layout::Declared)) {
        Some(s) => Some(fingerprint(encode_utf8(s))),
        None => None,
    }
}

/// The context of a graph whose recorded source files now have the given hashes.
pub open spec fn context_of(
    graph_path: PathBuf,
    g: GraphView,
    hashes: Seq<Option<Seq<char>>>,
) -> Result<ContextView, ContextFault> {
    match graph_fingerprint(g) {
        None => Err(ContextFault::Unwritable),
        Some(graph_hash) => {
            let status = statuses(g, hashes);
            match pretty_text(payload_doc(g, graph_hash, status)) {
                None => Err(ContextFault::Unwritable),
                Some(shown) => {
                    let prompt = prompt_text(all_match(status), shown);
                    if encode_utf8(prompt).len() > MAX_CONTEXT_BYTES {
                        Err(ContextFault::TooLarge)
                    } else {
                        Ok(
                            ContextView {
                                graph_path,
                                graph_hash,
                                node_count: g.nodes.len(),
                                edge_count: g.edges.len(),
                                sources_match: all_match(status),
                                prompt,
                            },
                        )
                    }
                },
            }
        },
    }
}

/// The prompt shows the document: a JSON text of it stands in the prompt, and what
/// stands there, with its angle brackets written as escapes, is parsed as the document.
pub open spec fn shows(prompt: Seq<char>, doc: Doc) -> bool {
    pretty_text(doc) matches Some(shown) && {
        &&& parsed(encode_utf8(shown)) == Some(doc)
        &&& parsed(encode_utf8(escaped(shown))) == Some(doc)
        &&& contains_text(prompt, escaped(shown))
    }
}

/// The hash is the fingerprint of the compact text of a document that is read as the
/// very graph, with its nodes, edges, evidence and source files.
pub open spec fn hashes_graph(hash: Seq<char>, g: GraphView) -> bool {
    exists|doc: Doc|
        {
            &&& #[trigger] graph_of(doc) == Some(g)
            &&& compact_text(doc) matches Some(s) && hash == fingerprint(encode_utf8(s))
        }
}

/// What is hashed determines the graph.
pub proof fn fingerprint_is_of_the_whole_graph(g: GraphView)
    requires
        ascending(paths(g.source_files)),
    ensures
        graph_fingerprint(g) matches Some(hash) ==> hashes_graph(hash, g),
{
    written_graph_is_read_back(g, Layout::Declared);
    assert(graph_of(graph_doc(g, Layout::Declared)) == Some(g));
}

/// Of graphs that differ, different documents are hashed.
pub proof fn different_graphs_are_hashed_from_different_documents(a: GraphView, b: GraphView)
    requires
        ascending(paths(a.source_files)),
        ascending(paths(b.source_files)),
        a != b,
        graph_fingerprint(a) is Some,
        graph_fingerprint(b) is Some,
    ensures
        exists|x: Doc, y: Doc|
            {
                &&& x != y
                &&& #[trigger] compact_text(x) matches Some(s) && graph_fingerprint(a) == Some(
                    fingerprint(encode_utf8(s)),
                )
                &&& #[trigger] compact_text(y) matches Some(t) && graph_fingerprint(b) == Some(
                    fingerprint(encode_utf8(t)),
                )
                &&& graph_of(x) == Some(a)
                &&& graph_of(y) == Some(b)
            },
{
    fingerprint_is_of_the_whole_graph(a);
    fingerprint_is_of_the_whole_graph(b);
    let x = choose|doc: Doc|
        {
            &&& #[trigger] graph_of(doc) == Some(a)
            &&& compact_text(doc) matches Some(s) && graph_fingerprint(a)->0 == fingerprint(
                encode_utf8(s),
            )
        };
    let y = choose|doc: Doc|
        {
            &&& #[trigger] graph_of(doc) == Some(b)
            &&& compact_text(doc) matches Some(s) && graph_fingerprint(b)->0 == fingerprint(
                encode_utf8(s),
            )
        };
    assert(compact_text(x) is Some && compact_text(y) is Some);
}

/// The record of a path and a word for its state has these two, under their names.
pub open spec fn tells_source(doc: Doc, path: Seq<char>, word: Seq<char>) -> bool {
    doc matches Doc::Record(fields) && fields.len() == 2 && says(fields, "path"@, Doc::Text(path))
        && says(fields, "state"@, Doc::Text(word))
}

/// The document has three fields. Under `graph` stands what is read as the graph, under
/// `graph_hash` its hash, and under `source_status` a record for each path and word told.
pub open spec fn tells_graph(
    doc: Doc,
    g: GraphView,
    graph_hash: Seq<char>,
    told: Seq<(Seq<char>, Seq<char>)>,
) -> bool {
    doc matches Doc::Record(fields) && {
        &&& fields.len() == 3
        &&& says(fields, "graph_hash"@, Doc::Text(graph_hash))
        &&& exists|shown: Doc| #[trigger] says(fields, "graph"@, shown) && graph_of(shown) == Some(g)
        &&& exists|items: Seq<Doc>| #[trigger]
            says(fields, "source_status"@, Doc::List(items)) && items.len() == told.len() && forall|
                i: int,
            |
                0 <= i < items.len() ==> tells_source(#[trigger] items[i], told[i].0, told[i].1)
    }
}

/// The graph records a hash for the path, or cites it as evidence.
pub open spec fn names_path(g: GraphView, path: Seq<char>) -> bool {
    ||| exists|k: int| 0 <= k < g.source_files.len() && (#[trigger] g.source_files[k]).0 == path
    ||| exists|i: int, j: int|
        0 <= i < g.nodes.len() && 0 <= j < g.nodes[i].evidence.len() && (
        #[trigger] g.nodes[i].evidence[j]).path == path
    ||| exists|i: int, j: int|
        0 <= i < g.edges.len() && 0 <= j < g.edges[i].evidence.len() && (
        #[trigger] g.edges[i].evidence[j]).path == path
}

/// Two texts are the same but for the case of their letters.
pub open spec fn same_ignoring_case(a: Seq<char>, b: Seq<char>) -> bool {
    a.len() == b.len() && forall|i: int|
        0 <= i < a.len() ==> same_but_for_case(#[trigger] a[i], b[i])
}

/// What is told are all the paths that the graph names, each once and in the order of
/// strings, with the word for its state: `untracked` where no hash is recorded,
/// `unavailable` where the file cannot be verified, `matches` where it has the recorded
/// hash, in whatever case, and `changed` where it has another.
pub open spec fn tells_sources(
    told: Seq<(Seq<char>, Seq<char>)>,
    g: GraphView,
    hashes: Seq<Option<Seq<char>>>,
) -> bool {
    &&& forall|path: Seq<char>|
        (exists|i: int| 0 <= i < told.len() && (#[trigger] told[i]).0 == path) <==> #[trigger]
        names_path(g, path)
    &&& forall|i: int, j: int|
        0 <= i < j < told.len() ==> text_less((#[trigger] told[i]).0, (#[trigger] told[j]).0)
    &&& forall|i: int|
        0 <= i < told.len() && (forall|k: int|
            0 <= k < g.source_files.len() ==> (#[trigger] g.source_files[k]).0 != told[i].0)
            ==> (#[trigger] told[i]).1 == "untracked"@
    &&& forall|i: int, k: int|
        0 <= i < told.len() && 0 <= k < g.source_files.len() && g.source_files[k].0 == told[i].0
            ==> (#[trigger] told[i]).1 == match #[trigger] hashes[k] {
            None => "unavailable"@,
            Some(hash) => if same_ignoring_case(hash, g.source_files[k].1) {
                "matches"@
            } else {
                "changed"@
            },
        }
}

/// The document that a context shows tells the whole graph, its hash and the state of
/// every source: nothing is left out for the state that it is in.
pub proof fn payload_tells_graph_and_sources(
    g: GraphView,
    graph_hash: Seq<char>,
    hashes: Seq<Option<Seq<char>>>,
) -> (told: Seq<(Seq<char>, Seq<char>)>)
    requires
        ascending(paths(g.source_files)),
        hashes.len() == g.source_files.len(),
    ensures
        tells_graph(payload_doc(g, graph_hash, statuses(g, hashes)), g, graph_hash, told),
        tells_sources(told, g, hashes),
        all_match(statuses(g, hashes)) <==> told.len() > 0 && forall|i: int|
            0 <= i < told.len() ==> (#[trigger] told[i]).1 == "matches"@,
{
    let status = statuses(g, hashes);
    let told = status.map_values(|s: (Seq<char>, SourceState)| (s.0, state_name(s.1)));
    let doc = payload_doc(g, graph_hash, status);
    let fields = doc->Record_0;
    let items = fields[2].1->List_0;
    written_graph_is_read_back(g, Layout::ByName);
    assert(fields[0] == ("graph"@, graph_doc(g, Layout::ByName)));
    assert(says(fields, "graph"@, graph_doc(g, Layout::ByName)));
    assert(fields[1] == ("graph_hash"@, Doc::Text(graph_hash)));
    assert(fields[2] == ("source_status"@, Doc::List(items)));
    assert(says(fields, "source_status"@, Doc::List(items)));
    assert forall|i: int| 0 <= i < items.len() implies tells_source(
        #[trigger] items[i],
        told[i].0,
        told[i].1,
    ) by {
        let f = items[i]->Record_0;
        assert(f[0] == ("path"@, Doc::Text(told[i].0)));
        assert(f[1] == ("state"@, Doc::Text(told[i].1)));
    }
    reviewed_are_the_mentioned(g);
    let all = reviewed(g);
    assert forall|path: Seq<char>|
        (exists|i: int| 0 <= i < told.len() && (#[trigger] told[i]).0 == path) <==> #[trigger]
        names_path(g, path) by {
        lemma_names_path(g, path);
        assert(all.contains(path) <==> mentions(g, path));
        if all.contains(path) {
            let i = choose|i: int| 0 <= i < all.len() && all[i] == path;
            assert(told[i].0 == path);
        }
        if exists|i: int| 0 <= i < told.len() && (#[trigger] told[i]).0 == path {
            let i = choose|i: int| 0 <= i < told.len() && (#[trigger] told[i]).0 == path;
            assert(all[i] == path);
        }
    }
    assert forall|i: int, j: int| 0 <= i < j < told.len() implies text_less(
        (#[trigger] told[i]).0,
        (#[trigger] told[j]).0,
    ) by {
        assert(told[i].0 == all[i] && told[j].0 == all[j]);
    }
    let keys = paths(g.source_files);
    assert forall|i: int|
        0 <= i < told.len() && (forall|k: int|
            0 <= k < g.source_files.len() ==> (#[trigger] g.source_files[k]).0 != told[i].0)
        implies (#[trigger] told[i]).1 == "untracked"@ by {
        if keys.contains(told[i].0) {
            let k = choose|k: int| 0 <= k < keys.len() && keys[k] == told[i].0;
            assert(g.source_files[k].0 == told[i].0);
        }
    }
    assert forall|i: int, k: int|
        0 <= i < told.len() && 0 <= k < g.source_files.len() && g.source_files[k].0 == told[i].0
        implies (#[trigger] told[i]).1 == match #[trigger] hashes[k] {
        None => "unavailable"@,
        Some(hash) => if same_ignoring_case(hash, g.source_files[k].1) {
            "matches"@
        } else {
            "changed"@
        },
    } by {
        lemma_recorded_at(g.source_files, k);
        if let Some(hash) = hashes[k] {
            lower_forgets_case_alone(hash, g.source_files[k].1);
        }
    }
    lemma_words_of_states();
    assert forall|i: int| 0 <= i < told.len() implies ((#[trigger] told[i]).1 == "matches"@
        <==> status[i].1 == SourceState::Matches) by {}
    if all_match(status) {
        assert forall|i: int| 0 <= i < told.len() implies (#[trigger] told[i]).1 == "matches"@ by {
            assert(status[i].1 == SourceState::Matches);
        }
    }
    if told.len() > 0 && forall|i: int|
        0 <= i < told.len() ==> (#[trigger] told[i]).1 == "matches"@ {
        assert forall|i: int| 0 <= i < status.len() implies (#[trigger] status[i]).1
            == SourceState::Matches by {
            assert(told[i].1 == "matches"@);
        }
    }
    told
}

proof fn lemma_words_of_states()
    ensures
        "matches"@ != "untracked"@,
        "matches"@ != "changed"@,
        "matches"@ != "unavailable"@,
{
    reveal_strlit("matches");
    reveal_strlit("untracked");
    reveal_strlit("changed");
    reveal_strlit("unavailable");
    assert("matches"@.len() == 7 && "untracked"@.len() == 9);
    assert("changed"@.len() == 7 && "unavailable"@.len() == 11);
    assert("matches"@[0] != "changed"@[0]);
}

/// The paths that a graph names are those that it mentions.
pub proof fn lemma_names_path(g: GraphView, path: Seq<char>)
    ensures
        names_path(g, path) <==> mentions(g, path),
{
    let keys = paths(g.source_files);
    if keys.contains(path) {
        let k = choose|k: int| 0 <= k < keys.len() && keys[k] == path;
        assert(g.source_files[k].0 == path);
    }
    if exists|k: int| 0 <= k < g.source_files.len() && (#[trigger] g.source_files[k]).0 == path {
        let k = choose|k: int|
            0 <= k < g.source_files.len() && (#[trigger] g.source_files[k]).0 == path;
        assert(keys[k] == path);
    }
    if exists|i: int| 0 <= i < g.nodes.len() && cites((#[trigger] g.nodes[i]).evidence, path) {
        let i = choose|i: int| 0 <= i < g.nodes.len() && cites((#[trigger] g.nodes[i]).evidence, path);
        let j = choose|j: int|
            0 <= j < g.nodes[i].evidence.len() && (#[trigger] g.nodes[i].evidence[j]).path == path;
        assert(g.nodes[i].evidence[j].path == path);
    }
    if exists|i: int| 0 <= i < g.edges.len() && cites((#[trigger] g.edges[i]).evidence, path) {
        let i = choose|i: int| 0 <= i < g.edges.len() && cites((#[trigger] g.edges[i]).evidence, path);
        let j = choose|j: int|
            0 <= j < g.edges[i].evidence.len() && (#[trigger] g.edges[i].evidence[j]).path == path;
        assert(g.edges[i].evidence[j].path == path);
    }
    if exists|i: int, j: int|
        0 <= i < g.nodes.len() && 0 <= j < g.nodes[i].evidence.len() && (
        #[trigger] g.nodes[i].evidence[j]).path == path {
        let (i, j) = choose|i: int, j: int|
            0 <= i < g.nodes.len() && 0 <= j < g.nodes[i].evidence.len() && (
            #[trigger] g.nodes[i].evidence[j]).path == path;
        assert(cites(g.nodes[i].evidence, path));
    }
    if exists|i: int, j: int|
        0 <= i < g.edges.len() && 0 <= j < g.edges[i].evidence.len() && (
        #[trigger] g.edges[i].evidence[j]).path == path {
        let (i, j) = choose|i: int, j: int|
            0 <= i < g.edges.len() && 0 <= j < g.edges[i].evidence.len() && (
            #[trigger] g.edges[i].evidence[j]).path == path;
        assert(cites(g.edges[i].evidence, path));
    }
}

impl SecurityGraph {
    /// The fingerprint of a graph, if it has one.
    pub fn graph_hash(&self) -> (r: Option<String>)
        ensures
            match r {
                Some(hash) => graph_fingerprint(self@) == Some(hash@),
                None => graph_fingerprint(self@) is None,
            },
            r matches Some(hash) ==> hashes_graph(hash@, self@),
    {
        let document = self.to_document(Layout::Declared);
        proof {
            use_type_invariant(&self.source_files);
            written_graph_is_plain(self@, Layout::Declared, MAX_NESTING as nat);
            fingerprint_is_of_the_whole_graph(self@);
        }
        match write_compact(&document) {
            Ok(s) => Some(content_hash(s.as_str().as_bytes())),
            Err(_) => None,
        }
    }
}

/// The context of a graph whose recorded source files now have the given hashes,
/// in the order of their paths; `None` stands for a file that cannot be verified. What
/// the context shows is parsed as the payload, whose graph is read as the graph.
pub fn build_context(graph_path: PathBuf, graph: &SecurityGraph, hashes: &Vec<Option<String>>) -> (r:
    Result<SecurityContext, ContextError>)
    requires
        hashes@.len() == graph.source_files@.len(),
    ensures
        match r {
            Ok(c) => context_of(graph_path, graph@, hash_views(hashes@)) == Ok::<_, ContextFault>(
                c@,
            ),
            Err(e) => context_of(graph_path, graph@, hash_views(hashes@)) == Err::<ContextView, _>(
                e@,
            ),
        },
        r matches Ok(c) ==> shows(
            c.prompt@,
            payload_doc(graph@, c.graph_hash@, statuses(graph@, hash_views(hashes@))),
        ),
        graph_of(graph_doc(graph@, Layout::ByName)) == Some(graph@),
        r matches Ok(c) ==> exists|doc: Doc, told: Seq<(Seq<char>, Seq<char>)>|
            {
                &&& #[trigger] shows(c.prompt@, doc)
                &&& #[trigger] tells_graph(doc, graph@, c.graph_hash@, told)
                &&& tells_sources(told, graph@, hash_views(hashes@))
                &&& hashes_graph(c.graph_hash@, graph@)
                &&& c.sources_match <==> told.len() > 0 && forall|i: int|
                    0 <= i < told.len() ==> (#[trigger] told[i]).1 == "matches"@
            },
        r matches Ok(c) ==> c.node_count == graph.nodes@.len() && c.edge_count
            == graph.edges@.len() && encode_utf8(c.prompt@).len() <= 16384,
{
    proof {
        use_type_invariant(&graph.source_files);
        written_graph_is_read_back(graph@, Layout::ByName);
    }
    let graph_hash = match graph.graph_hash() {
        Some(hash) => hash,
        None => {
            return Err(ContextError::Unwritable);
        },
    };
    let status = review(graph, hashes);
    let matching = sources_match(&status);
    let document = payload(graph, graph_hash.as_str(), &status);
    proof {
        payload_is_plain(
            graph@,
            graph_hash@,
            statuses(graph@, hash_views(hashes@)),
            MAX_NESTING as nat,
        );
    }
    let shown = match write_pretty(&document) {
        Ok(s) => s,
        Err(_) => {
            return Err(ContextError::Unwritable);
        },
    };
    let prompt = build_prompt(matching, shown.as_str());
    proof {
        context_holds_the_whole_payload(matching, shown@);
        let told = payload_tells_graph_and_sources(
            graph@,
            graph_hash@,
            hash_views(hashes@),
        );
        assert(shows(prompt@, document@));
        assert(tells_graph(document@, graph@, graph_hash@, told));
    }
    if prompt.as_str().as_bytes().len() > MAX_CONTEXT_BYTES {
        return Err(ContextError::TooLarge);
    }
    Ok(
        SecurityContext {
            graph_path,
            graph_hash,
            node_count: graph.nodes.len(),
            edge_count: graph.edges.len(),
            sources_match: matching,
            prompt,
        },
    )
}

/// A context is never larger than allowed.
pub proof fn context_is_bounded(graph_path: PathBuf, g: GraphView, hashes: Seq<Option<Seq<char>>>)
    ensures
        context_of(graph_path, g, hashes) matches Ok(c) ==> encode_utf8(c.prompt).len()
            <= MAX_CONTEXT_BYTES,
{
}

/// Nothing of a graph is left out of its context: the whole JSON of the graph and
/// of every source's state stands in it, or there is no context.
pub proof fn context_leaves_nothing_out(
    graph_path: PathBuf,
    g: GraphView,
    hashes: Seq<Option<Seq<char>>>,
)
    ensures
        context_of(graph_path, g, hashes) matches Ok(c) ==> {
            &&& pretty_text(payload_doc(g, c.graph_hash, statuses(g, hashes))) is Some
            &&& contains_text(
                c.prompt,
                escaped(
                    pretty_text(payload_doc(g, c.graph_hash, statuses(g, hashes)))->0,
                ),
            )
            &&& c.node_count == g.nodes.len()
            &&& c.edge_count == g.edges.len()
        },
{
    if let Ok(c) = context_of(graph_path, g, hashes) {
        let shown = pretty_text(payload_doc(g, c.graph_hash, statuses(g, hashes)))->0;
        context_holds_the_whole_payload(c.sources_match, shown);
    }
}

/// What happens to the sources does not change the graph's fingerprint.
pub proof fn sources_do_not_change_the_graph_hash(
    graph_path: PathBuf,
    g: GraphView,
    before: Seq<Option<Seq<char>>>,
    after: Seq<Option<Seq<char>>>,
)
    ensures
        context_of(graph_path, g, before) matches Ok(a) ==> context_of(
            graph_path,
            g,
            after,
        ) matches Ok(b) ==> a.graph_hash == b.graph_hash,
{
}

/// Whatever a graph says, its context is closed at its end and nowhere before.
pub proof fn no_graph_closes_its_context(
    graph_path: PathBuf,
    g: GraphView,
    hashes: Seq<Option<Seq<char>>>,
    at: int,
)
    ensures
        context_of(graph_path, g, hashes) matches Ok(c) ==> (occurs_at(
            c.prompt,
            closing(),
            at,
        ) <==> at == c.prompt.len() - closing().len()),
{
    if let Ok(c) = context_of(graph_path, g, hashes) {
        let shown = pretty_text(payload_doc(g, c.graph_hash, statuses(g, hashes)))->0;
        context_closes_once(c.sources_match, shown, at);
    }
}

/// Whatever a graph says, its context holds each angle bracket exactly twice: where
/// its two tags begin, and where they end.
pub proof fn no_graph_adds_brackets_to_its_context(
    graph_path: PathBuf,
    g: GraphView,
    hashes: Seq<Option<Seq<char>>>,
    at: int,
)
    ensures
        context_of(graph_path, g, hashes) matches Ok(c) ==> 0 <= at < c.prompt.len() ==> {
            &&& c.prompt[at] == '<' <==> at == 0 || at == c.prompt.len() - closing().len()
            &&& c.prompt[at] == '>' <==> at == "<security-context>"@.len() - 1 || at
                == c.prompt.len() - 1
        },
{
    if let Ok(c) = context_of(graph_path, g, hashes) {
        let shown = pretty_text(payload_doc(g, c.graph_hash, statuses(g, hashes)))->0;
        if 0 <= at < c.prompt.len() {
            brackets_stand_at_the_tags(c.sources_match, shown, at);
        }
    }
}

/// A context warns of its sources exactly when they do not all match.
pub proof fn context_warns_of_unmatched_sources(
    graph_path: PathBuf,
    g: GraphView,
    hashes: Seq<Option<Seq<char>>>,
)
    ensures
        context_of(graph_path, g, hashes) matches Ok(c) ==> {
            &&& c.sources_match == all_match(statuses(g, hashes))
            &&& occurs_at(
                c.prompt,
                freshness(c.sources_match),
                preamble().len() as int,
            )
        },
{
    if let Ok(c) = context_of(graph_path, g, hashes) {
        let shown = pretty_text(payload_doc(g, c.graph_hash, statuses(g, hashes)))->0;
        context_tells_freshness(c.sources_match, shown);
    }
}

/// A context is of its graph: it counts the nodes and edges, its hash is that of the whole
/// graph, its prompt holds the text of a document that tells the whole graph and the state
/// of every source, and the sources match exactly when there are some and all match.
pub proof fn context_is_of_its_graph(
    graph_path: PathBuf,
    g: GraphView,
    hashes: Seq<Option<Seq<char>>>,
)
    requires
        ascending(paths(g.source_files)),
        hashes.len() == g.source_files.len(),
    ensures
        context_of(graph_path, g, hashes) matches Ok(c) ==> {
            &&& c.graph_path == graph_path
            &&& c.node_count == g.nodes.len()
            &&& c.edge_count == g.edges.len()
            &&& hashes_graph(c.graph_hash, g)
            &&& encode_utf8(c.prompt).len() <= 16384
            &&& exists|doc: Doc, told: Seq<(Seq<char>, Seq<char>)>|
                {
                    &&& #[trigger] tells_graph(doc, g, c.graph_hash, told)
                    &&& tells_sources(told, g, hashes)
                    &&& pretty_text(doc) matches Some(shown) && contains_text(
                        c.prompt,
                        escaped(shown),
                    )
                    &&& c.sources_match <==> told.len() > 0 && forall|i: int|
                        0 <= i < told.len() ==> (#[trigger] told[i]).1 == "matches"@
                }
        },
{
    if let Ok(c) = context_of(graph_path, g, hashes) {
        fingerprint_is_of_the_whole_graph(g);
        let doc = payload_doc(g, c.graph_hash, statuses(g, hashes));
        let told = payload_tells_graph_and_sources(g, c.graph_hash, hashes);
        context_holds_the_whole_payload(c.sources_match, pretty_text(doc)->0);
        assert(tells_graph(doc, g, c.graph_hash, told));
    }
}

/// A context is refused only for its size, or where there is no JSON text of the graph or
/// of what is to be shown of it. The size is that of the prompt around the whole text.
pub proof fn context_is_refused_for_its_size_alone(
    graph_path: PathBuf,
    g: GraphView,
    hashes: Seq<Option<Seq<char>>>,
)
    requires
        ascending(paths(g.source_files)),
        hashes.len() == g.source_files.len(),
    ensures
        context_of(graph_path, g, hashes) matches Err(fault) ==> {
            ||| fault is Unwritable && exists|doc: Doc| #[trigger]
                graph_of(doc) == Some(g) && compact_text(doc) is None
            ||| fault is Unwritable && exists|
                doc: Doc,
                hash: Seq<char>,
                told: Seq<(Seq<char>, Seq<char>)>,
            | #[trigger] tells_graph(doc, g, hash, told) && pretty_text(doc) is None
            ||| fault is TooLarge && exists|
                doc: Doc,
                hash: Seq<char>,
                told: Seq<(Seq<char>, Seq<char>)>,
                sources_match: bool,
                shown: Seq<char>,
            |
                {
                    &&& #[trigger] tells_graph(doc, g, hash, told)
                    &&& hashes_graph(hash, g)
                    &&& tells_sources(told, g, hashes)
                    &&& pretty_text(doc) == Some(shown)
                    &&& encode_utf8(#[trigger] prompt_text(sources_match, shown)).len() > 16384
                    &&& sources_match <==> told.len() > 0 && forall|i: int|
                        0 <= i < told.len() ==> (#[trigger] told[i]).1 == "matches"@
                }
        },
{
    written_graph_is_read_back(g, Layout::Declared);
    fingerprint_is_of_the_whole_graph(g);
    if let Err(fault) = context_of(graph_path, g, hashes) {
        let declared = graph_doc(g, Layout::Declared);
        assert(graph_of(declared) == Some(g));
        if let Some(hash) = graph_fingerprint(g) {
            let status = statuses(g, hashes);
            let doc = payload_doc(g, hash, status);
            let told = payload_tells_graph_and_sources(g, hash, hashes);
            assert(tells_graph(doc, g, hash, told));
            if let Some(shown) = pretty_text(doc) {
                assert(encode_utf8(prompt_text(all_match(status), shown)).len() > 16384);
            }
        }
    }
}

} // verus!
