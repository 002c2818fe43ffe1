//! The file of a security graph: what is accepted from one, and what is put into one.

use vstd::prelude::*;
use vstd::utf8::encode_utf8;

use crate::decode::graph_of;
use crate::encode::{graph_doc, Layout};
use crate::error::{GraphError, GraphFault, LoadError, LoadFault};
use crate::graph::{
    faultless_is_sound, graph_fault, sound, GraphView, SecurityGraph, MAX_GRAPH_BYTES,
};
use crate::json::{
    collapse, collapsed, parse, parsed, plain, plain_is_collapsed, pretty_text, same_doc,
    write_pretty, Doc, Json, MAX_NESTING,
};
use crate::ordered::ascending;
use crate::roundtrip::{written_graph_is_plain, written_graph_is_read_back};
use crate::sources::paths;

verus! {

/// The graph that is read from bytes. Parsing keeps only the last of the fields that
/// an object repeats, and a graph repeats none: so it counts only where `kept`, the
/// document of the same bytes with every field kept, is one of a graph as well. With
/// its repeated fields merged, `kept` is what is parsed.
pub open spec fn read_graph(bytes: Seq<u8>, kept: Option<Doc>) -> Result<GraphView, GraphFault> {
    if bytes.len() > MAX_GRAPH_BYTES {
        Err(GraphFault::TooLarge)
    } else {
        match (parsed(bytes), kept) {
            (Some(doc), Some(kept)) => if collapsed(kept) != doc {
                Err(GraphFault::InvalidJson)
            } else {
                match (graph_of(doc), graph_of(kept)) {
                    (Some(g), Some(_)) => match graph_fault(g) {
                        Some(fault) => Err(fault),
                        None => Ok(g),
                    },
                    _ => Err(GraphFault::InvalidJson),
                }
            },
            _ => Err(GraphFault::InvalidJson),
        }
    }
}

/// The bytes that a graph is saved as.
pub open spec fn saved_graph(g: GraphView) -> Result<Seq<u8>, GraphFault> {
    match graph_fault(g) {
        Some(fault) => Err(fault),
        None => match pretty_text(graph_doc(g, Layout::Declared)) {
            None => Err(GraphFault::Unwritable),
            Some(s) => if encode_utf8(s).len() > MAX_GRAPH_BYTES {
                Err(GraphFault::TooLarge)
            } else {
                Ok(encode_utf8(s))
            },
        },
    }
}

/// The beginning of a file, up to a limit.
pub open spec fn bounded_read(contents: Seq<u8>, limit: int) -> Seq<u8> {
    if contents.len() <= limit {
        contents
    } else {
        contents.take(limit)
    }
}

/// What a document that may be missing says.
pub open spec fn doc_view(doc: Option<&Json>) -> Option<Doc> {
    match doc {
        Some(doc) => Some(doc@),
        None => None,
    }
}

/// What came of reading a graph's file.
#[derive(Debug, Clone, PartialEq, Eq)]
pub enum FileRead {
    /// It cannot be examined or read: what the system says of it.
    Failed(String),
    /// It is no regular file.
    NotRegular,
    /// It cannot be opened.
    Unopened,
    /// These are its first bytes, up to what [`SecurityGraph::admit_file`] allows.
    Bytes(Vec<u8>),
}

/// The graph of a file of which `found` was read.
pub open spec fn loaded_graph(shown_path: Seq<char>, found: FileRead, kept: Option<Doc>) -> Result<
    GraphView,
    LoadFault,
> {
    match found {
        FileRead::Failed(said) => Err(LoadFault::Io(said@)),
        FileRead::NotRegular => Err(LoadFault::NotRegular),
        FileRead::Unopened => Err(LoadFault::Unopened(shown_path)),
        FileRead::Bytes(bytes) => match read_graph(bytes@, kept) {
            Ok(g) => Ok(g),
            Err(cause) => Err(LoadFault::Refused { shown_path, cause }),
        },
    }
}

impl SecurityGraph {
    /// How many bytes of a graph's file are to be read at most. Only a regular file is read.
    pub fn admit_file(regular: bool) -> (r: Result<usize, LoadError>)
        ensures
            match r {
                Ok(limit) => regular && limit == MAX_GRAPH_BYTES + 1,
                Err(e) => !regular && e@ == LoadFault::NotRegular,
            },
    {
        if regular {
            Ok(MAX_GRAPH_BYTES + 1)
        } else {
            Err(LoadError::NotRegular)
        }
    }

    /// Refuses the bytes of a graph's file that are too many to be parsed.
    pub fn admit_size(bytes: &[u8]) -> (r: Result<(), GraphError>)
        ensures
            match r {
                Ok(()) => bytes@.len() <= MAX_GRAPH_BYTES,
                Err(e) => bytes@.len() > MAX_GRAPH_BYTES && e@ == GraphFault::TooLarge,
            },
    {
        if bytes.len() > MAX_GRAPH_BYTES {
            Err(GraphError::TooLarge)
        } else {
            Ok(())
        }
    }

    /// The graph of a file's bytes. `kept` is the document of the same bytes in which
    /// every field of an object is kept, also a repeated one; `None` where there is none.
    pub fn from_json(bytes: &[u8], kept: Option<&Json>) -> (r: Result<SecurityGraph, GraphError>)
        ensures
            match r {
                Ok(g) => read_graph(bytes@, doc_view(kept)) == Ok::<_, GraphFault>(g@),
                Err(e) => read_graph(bytes@, doc_view(kept)) == Err::<GraphView, _>(e@),
            },
            r matches Ok(g) ==> sound(g@),
    {
        SecurityGraph::admit_size(bytes)?;
        let kept = match kept {
            Some(kept) => kept,
            None => {
                return Err(GraphError::InvalidJson);
            },
        };
        let doc = match parse(bytes) {
            Ok(doc) => doc,
            Err(_) => {
                return Err(GraphError::InvalidJson);
            },
        };
        if !same_doc(&collapse(kept), &doc) {
            return Err(GraphError::InvalidJson);
        }
        match (SecurityGraph::from_document(&doc), SecurityGraph::from_document(kept)) {
            (Some(graph), Some(_)) => {
                graph.validate()?;
                Ok(graph)
            },
            _ => Err(GraphError::InvalidJson),
        }
    }

    /// The graph of the file at a path, as it is displayed, of which `found` was read.
    /// `kept` is as for [`SecurityGraph::from_json`].
    pub fn load(shown_path: &str, found: &FileRead, kept: Option<&Json>) -> (r: Result<
        SecurityGraph,
        LoadError,
    >)
        ensures
            match r {
                Ok(g) => loaded_graph(shown_path@, *found, doc_view(kept)) == Ok::<_, LoadFault>(
                    g@,
                ),
                Err(e) => loaded_graph(shown_path@, *found, doc_view(kept)) == Err::<GraphView, _>(
                    e@,
                ),
            },
    {
        match found {
            FileRead::Failed(said) => Err(LoadError::Io(said.clone())),
            FileRead::NotRegular => Err(LoadError::NotRegular),
            FileRead::Unopened => Err(LoadError::Unopened(shown_path.to_owned())),
            FileRead::Bytes(bytes) => match SecurityGraph::from_json(bytes.as_slice(), kept) {
                Ok(graph) => Ok(graph),
                Err(cause) => Err(
                    LoadError::Refused { shown_path: shown_path.to_owned(), cause },
                ),
            },
        }
    }

    /// The bytes to save a graph as: the graph is checked first, and refused where
    /// its file would be too large to be loaded again. The caller owns review.
    ///
    /// What is saved is loaded back: the bytes are read as this graph, with its typed
    /// relationships, its claims' status, its evidence and its source files, by every
    /// reading of them that is one of a graph, and never as another graph.
    pub fn save(&self) -> (r: Result<Vec<u8>, GraphError>)
        ensures
            match r {
                Ok(bytes) => saved_graph(self@) == Ok::<_, GraphFault>(bytes@),
                Err(e) => saved_graph(self@) == Err::<Seq<u8>, _>(e@),
            },
            r matches Ok(bytes) ==> parsed(bytes@) == Some(graph_doc(self@, Layout::Declared)),
            r matches Ok(bytes) ==> read_graph(
                bytes@,
                Some(graph_doc(self@, Layout::Declared)),
            ) == Ok::<_, GraphFault>(self@),
            r matches Ok(bytes) ==> forall|kept: Doc|
                collapsed(kept) == graph_doc(self@, Layout::Declared) && graph_of(kept) is Some
                    ==> #[trigger] read_graph(bytes@, Some(kept)) == Ok::<_, GraphFault>(self@),
            r matches Ok(bytes) ==> forall|shown_path: Seq<char>, file: Vec<u8>|
                file@ == bytes@ ==> #[trigger] loaded_graph(
                    shown_path,
                    FileRead::Bytes(file),
                    Some(graph_doc(self@, Layout::Declared)),
                ) == Ok::<_, LoadFault>(self@),
            r matches Ok(bytes) ==> forall|kept: Option<Doc>|
                (#[trigger] read_graph(bytes@, kept)) matches Ok(h) ==> h == self@,
    {
        self.validate()?;
        let document = self.to_document(Layout::Declared);
        proof {
            use_type_invariant(&self.source_files);
            written_graph_is_plain(self@, Layout::Declared, MAX_NESTING as nat);
            plain_is_collapsed(document@, MAX_NESTING as nat);
            written_graph_is_read_back(self@, Layout::Declared);
        }
        match write_pretty(&document) {
            Err(_) => Err(GraphError::Unwritable),
            Ok(s) => {
                let bytes = s.as_str().as_bytes_vec();
                if bytes.len() > MAX_GRAPH_BYTES {
                    Err(GraphError::TooLarge)
                } else {
                    Ok(bytes)
                }
            },
        }
    }
}

/// A reading of bytes that repeats no name is what is parsed, so it makes no difference:
/// the graph is the one that the parsed document is.
pub proof fn unrepeated_reading_is_the_parsed(bytes: Seq<u8>, kept: Doc, nesting: nat)
    requires
        plain(kept, nesting),
    ensures
        read_graph(bytes, Some(kept)) matches Ok(g) ==> parsed(bytes) == Some(kept) && graph_of(kept)
            == Some(g),
        parsed(bytes) == Some(kept) && bytes.len() <= MAX_GRAPH_BYTES ==> read_graph(
            bytes,
            Some(kept),
        ) == match graph_of(kept) {
            None => Err::<GraphView, _>(GraphFault::InvalidJson),
            Some(g) => match graph_fault(g) {
                Some(fault) => Err(fault),
                None => Ok(g),
            },
        },
{
    plain_is_collapsed(kept, nesting);
}

/// Only sound graphs are saved.
pub proof fn saved_graph_is_sound(g: GraphView)
    ensures
        saved_graph(g) is Ok ==> sound(g),
{
    faultless_is_sound(g);
}

/// Reading one byte more than a limit is enough to tell a file that exceeds it,
/// and gives the whole of one that does not.
pub proof fn bounded_read_tells_excess(contents: Seq<u8>, limit: int)
    requires
        0 <= limit,
    ensures
        bounded_read(contents, limit + 1).len() > limit <==> contents.len() > limit,
        contents.len() <= limit ==> bounded_read(contents, limit + 1) == contents,
{
}

/// Bytes are accepted as a graph exactly when they are at most 128 KiB, the document that
/// they parse as is read as that graph, the reading with every field kept is one of the same
/// document and of a graph, and nothing is wrong with the graph. Otherwise the error says
/// which of these failed first.
pub proof fn accepted_bytes_are_those_of_a_sound_graph(
    bytes: Seq<u8>,
    kept: Option<Doc>,
    g: GraphView,
)
    ensures
        read_graph(bytes, kept) == Ok::<_, GraphFault>(g) <==> {
            &&& bytes.len() <= 131072
            &&& parsed(bytes) matches Some(doc) && graph_of(doc) == Some(g) && (kept matches Some(k)
                && collapsed(k) == doc && graph_of(k) is Some)
            &&& graph_fault(g) is None
        },
        read_graph(bytes, kept) matches Err(fault) ==> {
            ||| bytes.len() > 131072 && fault is TooLarge
            ||| bytes.len() <= 131072 && fault is InvalidJson && !(parsed(bytes) matches Some(doc)
                && graph_of(doc) is Some && (kept matches Some(k) && collapsed(k) == doc && graph_of(
                k,
            ) is Some))
            ||| bytes.len() <= 131072 && (parsed(bytes) matches Some(doc) && (graph_of(
                doc,
            ) matches Some(h) && graph_fault(h) == Some(fault)))
        },
{
}

/// A graph is saved as the text of a document that is read as it, in at most 128 KiB. It is
/// refused exactly for what is wrong with it, or where that text is larger or is not there.
pub proof fn saved_bytes_are_those_of_the_whole_graph(g: GraphView)
    requires
        ascending(paths(g.source_files)),
    ensures
        saved_graph(g) matches Ok(bytes) ==> {
            &&& graph_fault(g) is None
            &&& bytes.len() <= 131072
            &&& exists|doc: Doc| #[trigger]
                graph_of(doc) == Some(g) && (pretty_text(doc) matches Some(s) && bytes
                    == encode_utf8(s))
        },
        graph_fault(g) matches Some(fault) ==> saved_graph(g) == Err::<Seq<u8>, _>(fault),
        saved_graph(g) matches Err(fault) ==> graph_fault(g) == Some(fault) || exists|doc: Doc|
            #[trigger]
            graph_of(doc) == Some(g) && (match pretty_text(doc) {
                None => fault is Unwritable,
                Some(s) => fault is TooLarge && encode_utf8(s).len() > 131072,
            }),
{
    written_graph_is_read_back(g, Layout::Declared);
    assert(graph_of(graph_doc(g, Layout::Declared)) == Some(g));
}

/// A graph's file gives the graph that its bytes are accepted as. Each way in which it gives
/// none has its own error, and the error of refused bytes names the path and the cause.
pub proof fn file_gives_the_graph_of_its_bytes(
    shown_path: Seq<char>,
    said: String,
    bytes: Vec<u8>,
    kept: Option<Doc>,
)
    ensures
        loaded_graph(shown_path, FileRead::Failed(said), kept) == Err::<GraphView, _>(
            LoadFault::Io(said@),
        ),
        loaded_graph(shown_path, FileRead::NotRegular, kept) == Err::<GraphView, _>(
            LoadFault::NotRegular,
        ),
        loaded_graph(shown_path, FileRead::Unopened, kept) == Err::<GraphView, _>(
            LoadFault::Unopened(shown_path),
        ),
        read_graph(bytes@, kept) matches Ok(g) ==> loaded_graph(
            shown_path,
            FileRead::Bytes(bytes),
            kept,
        ) == Ok::<_, LoadFault>(g),
        read_graph(bytes@, kept) matches Err(cause) ==> loaded_graph(
            shown_path,
            FileRead::Bytes(bytes),
            kept,
        ) == Err::<GraphView, _>(LoadFault::Refused { shown_path, cause }),
{
}

} // verus!
