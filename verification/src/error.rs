//! What can be wrong with a security graph, and how it is said.

use vstd::prelude::*;

use crate::text::{decimal, to_decimal};

verus! {

/// What is wrong with a security graph.
#[derive(Debug, Clone, PartialEq, Eq)]
pub enum GraphError {
    /// The file holds more bytes than a graph may have.
    TooLarge,
    /// The bytes are not the JSON of a graph.
    InvalidJson,
    /// The graph has no JSON.
    Unwritable,
    UnsupportedSchema(u32),
    EmptyId,
    EmptyDescription,
    NodeCount,
    TooManyEdges,
    TooManySources,
    EmptyNodeId,
    DuplicateNode(String),
    UndescribedNode(String),
    /// The ends of an edge of which at least one is no node.
    DanglingEdge(String, String),
    DuplicateEdge(String, String),
    UnsafePath(String),
    /// The path whose recorded hash is no SHA-256.
    InvalidHash(String),
    ZeroLine,
}

/// What a [`GraphError`] says.
pub enum GraphFault {
    TooLarge,
    InvalidJson,
    Unwritable,
    UnsupportedSchema(u32),
    EmptyId,
    EmptyDescription,
    NodeCount,
    TooManyEdges,
    TooManySources,
    EmptyNodeId,
    DuplicateNode(Seq<char>),
    UndescribedNode(Seq<char>),
    DanglingEdge(Seq<char>, Seq<char>),
    DuplicateEdge(Seq<char>, Seq<char>),
    UnsafePath(Seq<char>),
    InvalidHash(Seq<char>),
    ZeroLine,
}

impl View for GraphError {
    type V = GraphFault;

    open spec fn view(&self) -> GraphFault {
        match self {
            GraphError::TooLarge => GraphFault::TooLarge,
            GraphError::InvalidJson => GraphFault::InvalidJson,
            GraphError::Unwritable => GraphFault::Unwritable,
            GraphError::UnsupportedSchema(version) => GraphFault::UnsupportedSchema(*version),
            GraphError::EmptyId => GraphFault::EmptyId,
            GraphError::EmptyDescription => GraphFault::EmptyDescription,
            GraphError::NodeCount => GraphFault::NodeCount,
            GraphError::TooManyEdges => GraphFault::TooManyEdges,
            GraphError::TooManySources => GraphFault::TooManySources,
            GraphError::EmptyNodeId => GraphFault::EmptyNodeId,
            GraphError::DuplicateNode(id) => GraphFault::DuplicateNode(id@),
            GraphError::UndescribedNode(id) => GraphFault::UndescribedNode(id@),
            GraphError::DanglingEdge(from, to) => GraphFault::DanglingEdge(from@, to@),
            GraphError::DuplicateEdge(from, to) => GraphFault::DuplicateEdge(from@, to@),
            GraphError::UnsafePath(path) => GraphFault::UnsafePath(path@),
            GraphError::InvalidHash(path) => GraphFault::InvalidHash(path@),
            GraphError::ZeroLine => GraphFault::ZeroLine,
        }
    }
}

/// The text that the `Debug` format of std gives a string: the string in double
/// quotes, with escapes.
pub uninterp spec fn debug_text(s: Seq<char>) -> Seq<char>;

/// `format!("{:?}", s)`, the `Debug` format of a string. The text depends on the
/// string alone; its escapes are not stated.
#[verifier::external_body]
fn to_debug(s: &str) -> (r: String)
    ensures
        r@ == debug_text(s@),
{
    format!("{:?}", s)
}

impl GraphFault {
    /// The sentence for a fault.
    pub open spec fn text(self) -> Seq<char> {
        match self {
            GraphFault::TooLarge => "security graph exceeds size limit"@,
            GraphFault::InvalidJson => "invalid security graph JSON"@,
            GraphFault::Unwritable => "security graph cannot be written as JSON"@,
            GraphFault::UnsupportedSchema(version) => "unsupported security graph schema version "@
                + decimal(version as nat),
            GraphFault::EmptyId => "security graph ID is empty"@,
            GraphFault::EmptyDescription => "security graph description is empty"@,
            GraphFault::NodeCount => "security graph must contain 1..100 nodes"@,
            GraphFault::TooManyEdges => "security graph exceeds 300 edges"@,
            GraphFault::TooManySources => "security graph exceeds 100 source files"@,
            GraphFault::EmptyNodeId => "security node ID is empty"@,
            GraphFault::DuplicateNode(id) => "duplicate security node ID: "@ + id,
            GraphFault::UndescribedNode(id) => "security node "@ + id + " has no description"@,
            GraphFault::DanglingEdge(from, to) => "dangling security edge: "@ + from + " -> "@ + to,
            GraphFault::DuplicateEdge(from, to) => "duplicate security edge: "@ + from + " -> "@
                + to,
            GraphFault::UnsafePath(path) =>
                "source path must be repository-relative without parent traversal: "@ + debug_text(
                path,
            ),
            GraphFault::InvalidHash(path) => "invalid SHA-256 for "@ + path,
            GraphFault::ZeroLine => "evidence lines are 1-based"@,
        }
    }
}

/// `first` and `second` with `between` between them, after `start`.
fn sentence(start: &str, first: &str, between: &str, second: &str) -> (r: String)
    ensures
        r@ == start@ + first@ + between@ + second@,
{
    let mut out = start.to_owned();
    out.append(first);
    out.append(between);
    out.append(second);
    out
}

impl GraphError {
    /// The sentence for an error.
    pub fn message(&self) -> (r: String)
        ensures
            r@ == self@.text(),
    {
        match self {
            GraphError::TooLarge => "security graph exceeds size limit".to_owned(),
            GraphError::InvalidJson => "invalid security graph JSON".to_owned(),
            GraphError::Unwritable => "security graph cannot be written as JSON".to_owned(),
            GraphError::UnsupportedSchema(version) => {
                let mut out = "unsupported security graph schema version ".to_owned();
                out.append(to_decimal(*version as u64).as_str());
                out
            },
            GraphError::EmptyId => "security graph ID is empty".to_owned(),
            GraphError::EmptyDescription => "security graph description is empty".to_owned(),
            GraphError::NodeCount => "security graph must contain 1..100 nodes".to_owned(),
            GraphError::TooManyEdges => "security graph exceeds 300 edges".to_owned(),
            GraphError::TooManySources => "security graph exceeds 100 source files".to_owned(),
            GraphError::EmptyNodeId => "security node ID is empty".to_owned(),
            GraphError::DuplicateNode(id) => {
                let mut out = "duplicate security node ID: ".to_owned();
                out.append(id.as_str());
                out
            },
            GraphError::UndescribedNode(id) => {
                let mut out = "security node ".to_owned();
                out.append(id.as_str());
                out.append(" has no description");
                out
            },
            GraphError::DanglingEdge(from, to) => sentence(
                "dangling security edge: ",
                from.as_str(),
                " -> ",
                to.as_str(),
            ),
            GraphError::DuplicateEdge(from, to) => sentence(
                "duplicate security edge: ",
                from.as_str(),
                " -> ",
                to.as_str(),
            ),
            GraphError::UnsafePath(path) => {
                let mut out =
                    "source path must be repository-relative without parent traversal: ".to_owned();
                out.append(to_debug(path.as_str()).as_str());
                out
            },
            GraphError::InvalidHash(path) => {
                let mut out = "invalid SHA-256 for ".to_owned();
                out.append(path.as_str());
                out
            },
            GraphError::ZeroLine => "evidence lines are 1-based".to_owned(),
        }
    }
}

/// Why a graph's file gives no graph.
#[derive(Debug, Clone, PartialEq, Eq)]
pub enum LoadError {
    /// The file cannot be examined or read: what the system says of it.
    Io(String),
    /// The path does not lead to a regular file.
    NotRegular,
    /// The file at the path, as it is displayed, cannot be opened.
    Unopened(String),
    /// What the file at the path, as it is displayed, holds is no graph.
    Refused { shown_path: String, cause: GraphError },
}

/// What a [`LoadError`] says.
pub enum LoadFault {
    Io(Seq<char>),
    NotRegular,
    Unopened(Seq<char>),
    Refused { shown_path: Seq<char>, cause: GraphFault },
}

impl View for LoadError {
    type V = LoadFault;

    open spec fn view(&self) -> LoadFault {
        match self {
            LoadError::Io(said) => LoadFault::Io(said@),
            LoadError::NotRegular => LoadFault::NotRegular,
            LoadError::Unopened(shown_path) => LoadFault::Unopened(shown_path@),
            LoadError::Refused { shown_path, cause } => LoadFault::Refused {
                shown_path: shown_path@,
                cause: cause@,
            },
        }
    }
}

impl LoadFault {
    /// The sentence for a fault. The cause of a refusal has a sentence of its own.
    pub open spec fn text(self) -> Seq<char> {
        match self {
            LoadFault::Io(said) => said,
            LoadFault::NotRegular => "security graph must be a regular file"@,
            LoadFault::Unopened(shown_path) => "reading security graph "@ + shown_path,
            LoadFault::Refused { shown_path, .. } => "loading "@ + shown_path,
        }
    }
}

impl LoadError {
    /// The sentence for an error. The cause of a refusal has a sentence of its own.
    pub fn message(&self) -> (r: String)
        ensures
            r@ == self@.text(),
    {
        match self {
            LoadError::Io(said) => said.clone(),
            LoadError::NotRegular => "security graph must be a regular file".to_owned(),
            LoadError::Unopened(shown_path) => {
                let mut out = "reading security graph ".to_owned();
                out.append(shown_path.as_str());
                out
            },
            LoadError::Refused { shown_path, .. } => {
                let mut out = "loading ".to_owned();
                out.append(shown_path.as_str());
                out
            },
        }
    }
}

/// The sentence for a fault tells what it is about.
pub proof fn sentences_tell_their_subject(
    version: u32,
    a: Seq<char>,
    b: Seq<char>,
    cause: GraphFault,
)
    ensures
        decimal(version as nat).is_suffix_of(GraphFault::UnsupportedSchema(version).text()),
        a.is_suffix_of(GraphFault::DuplicateNode(a).text()),
        (a + " has no description"@).is_suffix_of(GraphFault::UndescribedNode(a).text()),
        (a + " -> "@ + b).is_suffix_of(GraphFault::DanglingEdge(a, b).text()),
        (a + " -> "@ + b).is_suffix_of(GraphFault::DuplicateEdge(a, b).text()),
        debug_text(a).is_suffix_of(GraphFault::UnsafePath(a).text()),
        a.is_suffix_of(GraphFault::InvalidHash(a).text()),
        LoadFault::Io(a).text() == a,
        a.is_suffix_of(LoadFault::Unopened(a).text()),
        a.is_suffix_of(LoadFault::Refused { shown_path: a, cause }.text()),
{
    lemma_ends(GraphFault::UnsupportedSchema(version).text(), decimal(version as nat));
    lemma_ends(GraphFault::DuplicateNode(a).text(), a);
    lemma_ends(GraphFault::UndescribedNode(a).text(), a + " has no description"@);
    lemma_ends(GraphFault::DanglingEdge(a, b).text(), a + " -> "@ + b);
    lemma_ends(GraphFault::DuplicateEdge(a, b).text(), a + " -> "@ + b);
    lemma_ends(GraphFault::UnsafePath(a).text(), debug_text(a));
    lemma_ends(GraphFault::InvalidHash(a).text(), a);
    lemma_ends(LoadFault::Unopened(a).text(), a);
    lemma_ends(LoadFault::Refused { shown_path: a, cause }.text(), a);
}

proof fn lemma_ends(whole: Seq<char>, end: Seq<char>)
    ensures
        whole.len() >= end.len() && whole.subrange(whole.len() - end.len(), whole.len() as int)
            =~= end ==> end.is_suffix_of(whole),
{
}

} // verus!
