//! Loading the security context: which graph is looked for, and where.
//!
//! Loading alternates between what only the caller can find out about the file
//! system and what follows from it. A [`ContextLoad`] says what it asks next
//! with [`ContextLoad::request`] and goes on with [`ContextLoad::answer`], until
//! it has an outcome.

use std::path::PathBuf;
use vstd::prelude::*;

use crate::context::{
    build_context, context_of, ContextError, ContextFault, ContextView, SecurityContext,
    DEFAULT_GRAPH_PATH,
};
use crate::error::{LoadError, LoadFault};
use crate::graph::{GraphView, SecurityGraph};
use crate::location::{join, joined, path_named, to_path};
use crate::options::ContextOptions;
use crate::review::{hash_view, hash_views};

verus! {

/// Whether there is a graph at a path.
#[derive(Debug, Clone, Copy, PartialEq, Eq, Structural)]
pub enum Probe {
    Found,
    Missing,
    /// It cannot be told.
    Failed,
}

/// What a load asks of its caller.
#[derive(Debug, Clone, PartialEq, Eq)]
pub enum Request {
    /// The working directory with its links followed, and the directories above it.
    ResolveWorkingDir,
    /// Whether the path is empty, and whether it is absolute.
    InspectPath(PathBuf),
    /// Whether there is anything at the path of a graph.
    ProbeGraph(PathBuf),
    /// Whether the path, that of a repository's `.git`, leads to a file or a directory.
    ProbeGit(PathBuf),
    /// The graph of the file at the path.
    LoadGraph(PathBuf),
    /// The hash of a source file: the repository's directory, and the path in it.
    HashSource(PathBuf, String),
    /// Nothing: the load has an outcome.
    Nothing,
}

/// What a caller answers.
pub enum Answer {
    /// The directories from the working directory up to the root; none where the
    /// working directory cannot be resolved.
    WorkingDir(Vec<PathBuf>),
    PathShape { empty: bool, absolute: bool },
    Graph(Probe),
    Git(bool),
    Loaded(Result<SecurityGraph, LoadError>),
    /// The hash; `None` where the file cannot be verified.
    Hashed(Option<String>),
}

/// What an [`Answer`] says.
pub enum AnswerView {
    WorkingDir(Seq<PathBuf>),
    PathShape { empty: bool, absolute: bool },
    Graph(Probe),
    Git(bool),
    Loaded(Result<GraphView, LoadFault>),
    Hashed(Option<Seq<char>>),
}

impl View for Answer {
    type V = AnswerView;

    open spec fn view(&self) -> AnswerView {
        match self {
            Answer::WorkingDir(directories) => AnswerView::WorkingDir(directories@),
            Answer::PathShape { empty, absolute } => AnswerView::PathShape {
                empty: *empty,
                absolute: *absolute,
            },
            Answer::Graph(probe) => AnswerView::Graph(*probe),
            Answer::Git(git) => AnswerView::Git(*git),
            Answer::Loaded(graph) => AnswerView::Loaded(
                match graph {
                    Ok(g) => Ok(g@),
                    Err(e) => Err(e@),
                },
            ),
            Answer::Hashed(hash) => AnswerView::Hashed(hash_view(*hash)),
        }
    }
}

enum Stage {
    WorkingDir { given: Option<PathBuf> },
    Path { given: PathBuf, directory: PathBuf },
    Graph { level: usize, directories: Vec<PathBuf> },
    Git { level: usize, directories: Vec<PathBuf> },
    Loading { graph_path: PathBuf, repository: PathBuf },
    Hashing {
        graph_path: PathBuf,
        repository: PathBuf,
        graph: SecurityGraph,
        hashes: Vec<Option<String>>,
    },
    Done(Result<Option<SecurityContext>, ContextError>),
}

/// How far a load has come.
pub enum LoadState {
    /// The working directory is being resolved; the graph's path is given or not.
    WorkingDir { given: Option<PathBuf> },
    /// The given path is being inspected.
    Path { given: PathBuf, directory: PathBuf },
    /// One of the directories is being probed for a graph: the working directory is at
    /// level 0, its parent at level 1, and so on.
    Graph { level: usize, directories: Seq<PathBuf> },
    /// A directory without a graph is being probed for the root of a repository.
    Git { level: usize, directories: Seq<PathBuf> },
    /// The graph at a path, about the repository in a directory, is being loaded.
    Loading { graph_path: PathBuf, repository: PathBuf },
    /// The recorded source files of the repository are being hashed; so far they have
    /// these hashes.
    Hashing {
        graph_path: PathBuf,
        repository: PathBuf,
        graph: GraphView,
        hashes: Seq<Option<Seq<char>>>,
    },
    /// There is an outcome.
    Done(Result<Option<ContextView>, ContextFault>),
}

/// What an outcome says.
pub open spec fn outcome_view(outcome: Result<Option<SecurityContext>, ContextError>) -> Result<
    Option<ContextView>,
    ContextFault,
> {
    match outcome {
        Ok(Some(c)) => Ok(Some(c@)),
        Ok(None) => Ok(None),
        Err(e) => Err(e@),
    }
}

/// A load of the security context that is under way.
pub struct ContextLoad {
    stage: Stage,
}

impl View for ContextLoad {
    type V = LoadState;

    closed spec fn view(&self) -> LoadState {
        match self.stage {
            Stage::WorkingDir { given } => LoadState::WorkingDir { given },
            Stage::Path { given, directory } => LoadState::Path { given, directory },
            Stage::Graph { level, directories } => LoadState::Graph {
                level,
                directories: directories@,
            },
            Stage::Git { level, directories } => LoadState::Git { level, directories: directories@ },
            Stage::Loading { graph_path, repository } => LoadState::Loading {
                graph_path,
                repository,
            },
            Stage::Hashing { graph_path, repository, graph, hashes } => LoadState::Hashing {
                graph_path,
                repository,
                graph: graph@,
                hashes: hash_views(hashes@),
            },
            Stage::Done(outcome) => LoadState::Done(outcome_view(outcome)),
        }
    }
}

/// Where the repository in a directory keeps its graph.
pub open spec fn default_graph(directory: PathBuf) -> PathBuf {
    joined(directory, path_named(DEFAULT_GRAPH_PATH@))
}

/// What makes a directory the root of a repository.
pub open spec fn git_entry(directory: PathBuf) -> PathBuf {
    joined(directory, path_named(".git"@))
}

/// A load begins with the working directory, or is done at once where it is switched off.
pub open spec fn first_state(options: ContextOptions) -> LoadState {
    if options.enabled {
        LoadState::WorkingDir { given: options.graph_path }
    } else {
        LoadState::Done(Ok(None))
    }
}

/// With a graph and the hashes of its first source files, the next file is hashed;
/// with those of all, there is a context.
pub open spec fn with_hashes(
    graph_path: PathBuf,
    repository: PathBuf,
    graph: GraphView,
    hashes: Seq<Option<Seq<char>>>,
) -> LoadState {
    if hashes.len() < graph.source_files.len() {
        LoadState::Hashing { graph_path, repository, graph, hashes }
    } else {
        LoadState::Done(
            match context_of(graph_path, graph, hashes) {
                Ok(c) => Ok(Some(c)),
                Err(e) => Err(e),
            },
        )
    }
}

/// The directory of a level is probed for a graph, if there is such a directory.
pub open spec fn at_level(level: int, directories: Seq<PathBuf>) -> LoadState {
    if level < directories.len() {
        LoadState::Graph { level: level as usize, directories }
    } else {
        LoadState::Done(Ok(None))
    }
}

/// How a load goes on. An answer to something else than what was asked changes nothing.
///
/// A graph that is looked for is that of a directory, and about the repository there. A
/// given one is at the given path, which is relative to the working directory where it
/// is not absolute, and about the repository in the working directory.
pub open spec fn next_state(state: LoadState, answer: AnswerView) -> LoadState {
    match (state, answer) {
        (LoadState::WorkingDir { given }, AnswerView::WorkingDir(directories)) => {
            if directories.len() == 0 {
                LoadState::Done(Err(ContextFault::WorkingDirectory))
            } else {
                match given {
                    Some(given) => LoadState::Path { given, directory: directories[0] },
                    None => at_level(0, directories),
                }
            }
        },
        (LoadState::Path { given, directory }, AnswerView::PathShape { empty, absolute }) => {
            if empty {
                LoadState::Done(Err(ContextFault::EmptyPath))
            } else if absolute {
                LoadState::Loading { graph_path: given, repository: directory }
            } else {
                LoadState::Loading { graph_path: joined(directory, given), repository: directory }
            }
        },
        (LoadState::Graph { level, directories }, AnswerView::Graph(probe)) => match probe {
            Probe::Found => LoadState::Loading {
                graph_path: default_graph(directories[level as int]),
                repository: directories[level as int],
            },
            Probe::Missing => LoadState::Git { level, directories },
            Probe::Failed => LoadState::Done(Err(ContextFault::Discovery)),
        },
        (LoadState::Git { level, directories }, AnswerView::Git(git)) => if git {
            LoadState::Done(Ok(None))
        } else {
            at_level(level + 1, directories)
        },
        (LoadState::Loading { graph_path, repository }, AnswerView::Loaded(found)) => match found {
            Ok(graph) => with_hashes(graph_path, repository, graph, seq![]),
            Err(fault) => LoadState::Done(Err(ContextFault::Graph(fault))),
        },
        (
            LoadState::Hashing { graph_path, repository, graph, hashes },
            AnswerView::Hashed(hash),
        ) => with_hashes(graph_path, repository, graph, hashes.push(hash)),
        (state, _) => state,
    }
}

impl ContextLoad {
    #[verifier::type_invariant]
    spec fn has_work(self) -> bool {
        match self.stage {
            Stage::Graph { level, directories } => level < directories@.len(),
            Stage::Git { level, directories } => level < directories@.len(),
            Stage::Hashing { graph_path, repository, graph, hashes } => hashes@.len()
                < graph.source_files@.len(),
            _ => true,
        }
    }

    /// Begins a load. Where it is switched off, nothing is asked.
    pub fn start(options: &ContextOptions) -> (r: ContextLoad)
        ensures
            r@ == first_state(*options),
    {
        if options.enabled {
            let given = match &options.graph_path {
                Some(path) => Some(path.clone()),
                None => None,
            };
            ContextLoad { stage: Stage::WorkingDir { given } }
        } else {
            ContextLoad { stage: Stage::Done(Ok(None)) }
        }
    }

    /// What the load asks next.
    pub fn request(&self) -> (r: Request)
        ensures
            match self@ {
                LoadState::WorkingDir { .. } => r == Request::ResolveWorkingDir,
                LoadState::Path { given, .. } => r == Request::InspectPath(given),
                LoadState::Graph { level, directories } => level < directories.len() && r
                    == Request::ProbeGraph(default_graph(directories[level as int])),
                LoadState::Git { level, directories } => level < directories.len() && r
                    == Request::ProbeGit(git_entry(directories[level as int])),
                LoadState::Loading { graph_path, .. } => r == Request::LoadGraph(graph_path),
                LoadState::Hashing { repository, graph, hashes, .. } => r matches
                    Request::HashSource(directory, path) && directory == repository && hashes.len()
                    < graph.source_files.len() && path@
                    == graph.source_files[hashes.len() as int].0,
                LoadState::Done(_) => r == Request::Nothing,
            },
    {
        proof {
            use_type_invariant(self);
        }
        match &self.stage {
            Stage::WorkingDir { .. } => Request::ResolveWorkingDir,
            Stage::Path { given, .. } => Request::InspectPath(given.clone()),
            Stage::Graph { level, directories } => Request::ProbeGraph(
                join(&directories[*level], &to_path(DEFAULT_GRAPH_PATH)),
            ),
            Stage::Git { level, directories } => Request::ProbeGit(
                join(&directories[*level], &to_path(".git")),
            ),
            Stage::Loading { graph_path, .. } => Request::LoadGraph(graph_path.clone()),
            Stage::Hashing { repository, graph, hashes, .. } => Request::HashSource(
                repository.clone(),
                graph.source_files.path(hashes.len()).to_owned(),
            ),
            Stage::Done(_) => Request::Nothing,
        }
    }

    fn probe(level: usize, directories: Vec<PathBuf>) -> (r: ContextLoad)
        ensures
            r@ == at_level(level as int, directories@),
    {
        if level < directories.len() {
            ContextLoad { stage: Stage::Graph { level, directories } }
        } else {
            ContextLoad { stage: Stage::Done(Ok(None)) }
        }
    }

    fn hash_next(
        graph_path: PathBuf,
        repository: PathBuf,
        graph: SecurityGraph,
        hashes: Vec<Option<String>>,
    ) -> (r: ContextLoad)
        requires
            hashes@.len() <= graph.source_files@.len(),
        ensures
            r@ == with_hashes(graph_path, repository, graph@, hash_views(hashes@)),
    {
        if hashes.len() < graph.source_files.len() {
            ContextLoad { stage: Stage::Hashing { graph_path, repository, graph, hashes } }
        } else {
            match build_context(graph_path, &graph, &hashes) {
                Ok(c) => ContextLoad { stage: Stage::Done(Ok(Some(c))) },
                Err(e) => ContextLoad { stage: Stage::Done(Err(e)) },
            }
        }
    }

    /// Goes on with an answer to what was asked.
    pub fn answer(self, answer: Answer) -> (r: ContextLoad)
        ensures
            r@ == next_state(self@, answer@),
    {
        proof {
            use_type_invariant(&self);
        }
        match (self.stage, answer) {
            (Stage::WorkingDir { given }, Answer::WorkingDir(directories)) => {
                if directories.len() == 0 {
                    ContextLoad { stage: Stage::Done(Err(ContextError::WorkingDirectory)) }
                } else {
                    match given {
                        Some(given) => {
                            let directory = directories[0].clone();
                            ContextLoad { stage: Stage::Path { given, directory } }
                        },
                        None => ContextLoad::probe(0, directories),
                    }
                }
            },
            (Stage::Path { given, directory }, Answer::PathShape { empty, absolute }) => {
                if empty {
                    ContextLoad { stage: Stage::Done(Err(ContextError::EmptyPath)) }
                } else {
                    let graph_path = if absolute {
                        given
                    } else {
                        join(&directory, &given)
                    };
                    ContextLoad { stage: Stage::Loading { graph_path, repository: directory } }
                }
            },
            (Stage::Graph { level, directories }, Answer::Graph(probe)) => match probe {
                Probe::Found => {
                    let repository = directories[level].clone();
                    let graph_path = join(&repository, &to_path(DEFAULT_GRAPH_PATH));
                    ContextLoad { stage: Stage::Loading { graph_path, repository } }
                },
                Probe::Missing => ContextLoad { stage: Stage::Git { level, directories } },
                Probe::Failed => ContextLoad { stage: Stage::Done(Err(ContextError::Discovery)) },
            },
            (Stage::Git { level, directories }, Answer::Git(git)) => if git || directories.len() - level
                == 1 {
                ContextLoad { stage: Stage::Done(Ok(None)) }
            } else {
                ContextLoad::probe(level + 1, directories)
            },
            (Stage::Loading { graph_path, repository }, Answer::Loaded(found)) => match found {
                Ok(graph) => {
                    let hashes: Vec<Option<String>> = Vec::new();
                    assert(hash_views(hashes@) =~= seq![]);
                    ContextLoad::hash_next(graph_path, repository, graph, hashes)
                },
                Err(e) => ContextLoad { stage: Stage::Done(Err(ContextError::Graph(e))) },
            },
            (Stage::Hashing { graph_path, repository, graph, hashes }, Answer::Hashed(hash)) => {
                let mut hashes = hashes;
                let ghost before = hashes@;
                hashes.push(hash);
                assert(hash_views(hashes@) =~= hash_views(before).push(hash_view(hash)));
                ContextLoad::hash_next(graph_path, repository, graph, hashes)
            },
            (stage, _) => ContextLoad { stage },
        }
    }

    /// The outcome, once nothing is asked any more.
    pub fn outcome(self) -> (r: Option<Result<Option<SecurityContext>, ContextError>>)
        ensures
            match r {
                Some(outcome) => self@ == LoadState::Done(outcome_view(outcome)),
                None => !(self@ is Done),
            },
    {
        match self.stage {
            Stage::Done(outcome) => Some(outcome),
            _ => None,
        }
    }
}

/// Wherever there is a directory at a level, however high, it is probed; the search ends
/// without a context only where there is none.
proof fn every_level_is_probed(level: usize, directories: Vec<PathBuf>, r: ContextLoad)
    requires
        call_ensures(ContextLoad::probe, (level, directories), r),
    ensures
        level < directories@.len() ==> r@ == (LoadState::Graph {
            level,
            directories: directories@,
        }),
        level >= directories@.len() ==> r@ == LoadState::Done(Ok(None)),
{
}

} // verus!
