//! What a whole load comes to, for a file system that stays as it is.

use std::path::PathBuf;
use vstd::prelude::*;

use crate::context::{context_of, ContextFault, ContextView};
use crate::error::LoadFault;
use crate::graph::GraphView;
use crate::load::{
    at_level, default_graph, first_state, git_entry, next_state, with_hashes, AnswerView,
    LoadState, Probe,
};
use crate::location::{joined, path_named};
use crate::options::ContextOptions;

verus! {

/// What a caller finds out about a file system.
pub struct Workspace {
    /// The directories from the working directory up to the root; none where the working
    /// directory cannot be resolved.
    pub directories: Seq<PathBuf>,
    /// The path is empty.
    pub empty: spec_fn(PathBuf) -> bool,
    /// The path is absolute.
    pub absolute: spec_fn(PathBuf) -> bool,
    /// Whether there is a graph at a path.
    pub graph_at: spec_fn(PathBuf) -> Probe,
    /// Whether a path leads to a file or a directory.
    pub present: spec_fn(PathBuf) -> bool,
    /// The graph of the file at a path.
    pub graph: spec_fn(PathBuf) -> Result<GraphView, LoadFault>,
    /// The hash of a source file in a directory, if it can be verified.
    pub hash: spec_fn(PathBuf, Seq<char>) -> Option<Seq<char>>,
}

/// Whether the directory of a level has a graph.
pub open spec fn has_graph(ws: Workspace, level: int) -> Probe {
    (ws.graph_at)(default_graph(ws.directories[level]))
}

/// The directory of a level is the root of a repository.
pub open spec fn is_root(ws: Workspace, level: int) -> bool {
    (ws.present)(git_entry(ws.directories[level]))
}

/// What a caller answers to what a load asks.
pub open spec fn reply(ws: Workspace, state: LoadState) -> AnswerView {
    match state {
        LoadState::WorkingDir { .. } => AnswerView::WorkingDir(ws.directories),
        LoadState::Path { given, .. } => AnswerView::PathShape {
            empty: (ws.empty)(given),
            absolute: (ws.absolute)(given),
        },
        LoadState::Graph { level, directories } => AnswerView::Graph(
            (ws.graph_at)(default_graph(directories[level as int])),
        ),
        LoadState::Git { level, directories } => AnswerView::Git(
            (ws.present)(git_entry(directories[level as int])),
        ),
        LoadState::Loading { graph_path, .. } => AnswerView::Loaded((ws.graph)(graph_path)),
        LoadState::Hashing { repository, graph, hashes, .. } => AnswerView::Hashed(
            (ws.hash)(repository, graph.source_files[hashes.len() as int].0),
        ),
        LoadState::Done(_) => AnswerView::Git(false),
    }
}

/// The load after a number of answers.
pub open spec fn run(ws: Workspace, state: LoadState, answers: nat) -> LoadState
    decreases answers,
{
    if answers == 0 {
        state
    } else {
        run(ws, next_state(state, reply(ws, state)), (answers - 1) as nat)
    }
}

/// What a search for a graph comes to.
pub enum Search {
    /// The directory of a level has one.
    Found(int),
    Nothing,
    Failed,
}

/// The search from a level on: the nearest graph, not beyond the root of the repository.
pub open spec fn search(ws: Workspace, level: int) -> Search
    decreases ws.directories.len() - level,
{
    if level < 0 || level >= ws.directories.len() {
        Search::Nothing
    } else {
        match has_graph(ws, level) {
            Probe::Found => Search::Found(level),
            Probe::Failed => Search::Failed,
            Probe::Missing => if is_root(ws, level) {
                Search::Nothing
            } else {
                search(ws, level + 1)
            },
        }
    }
}

/// The hashes of all source files of a graph, in the repository of a directory.
pub open spec fn all_hashes(ws: Workspace, repository: PathBuf, g: GraphView) -> Seq<
    Option<Seq<char>>,
> {
    g.source_files.map_values(|s: (Seq<char>, Seq<char>)| (ws.hash)(repository, s.0))
}

/// The context of the graph at a path, about the repository in a directory.
pub open spec fn context_at(ws: Workspace, graph_path: PathBuf, repository: PathBuf) -> Result<
    Option<ContextView>,
    ContextFault,
> {
    match (ws.graph)(graph_path) {
        Err(fault) => Err(ContextFault::Graph(fault)),
        Ok(g) => match context_of(graph_path, g, all_hashes(ws, repository, g)) {
            Ok(c) => Ok(Some(c)),
            Err(fault) => Err(fault),
        },
    }
}

/// What the search from a level on leads to: the graph of a directory is at its default
/// path, and about the repository there.
pub open spec fn searched(ws: Workspace, level: int) -> Result<Option<ContextView>, ContextFault> {
    match search(ws, level) {
        Search::Found(at) => context_at(
            ws,
            default_graph(ws.directories[at]),
            ws.directories[at],
        ),
        Search::Nothing => Ok(None),
        Search::Failed => Err(ContextFault::Discovery),
    }
}

/// Where a given graph is: a path that is not absolute is relative to the working directory.
pub open spec fn given_graph(ws: Workspace, given: PathBuf) -> PathBuf {
    if (ws.absolute)(given) {
        given
    } else {
        joined(ws.directories[0], given)
    }
}

/// What a load comes to.
pub open spec fn loaded(ws: Workspace, options: ContextOptions) -> Result<
    Option<ContextView>,
    ContextFault,
> {
    if !options.enabled {
        Ok(None)
    } else if ws.directories.len() == 0 {
        Err(ContextFault::WorkingDirectory)
    } else {
        match options.graph_path {
            Some(given) => if (ws.empty)(given) {
                Err(ContextFault::EmptyPath)
            } else {
                context_at(ws, given_graph(ws, given), ws.directories[0])
            },
            None => searched(ws, 0),
        }
    }
}

proof fn lemma_one_answer(ws: Workspace, state: LoadState, rest: nat)
    ensures
        run(ws, state, rest + 1) == run(ws, next_state(state, reply(ws, state)), rest),
{
}

/// From some hashes on, the others follow one by one, up to the context.
proof fn lemma_hashing(ws: Workspace, graph_path: PathBuf, repository: PathBuf, n: int) -> (answers:
    nat)
    requires
        (ws.graph)(graph_path) is Ok,
        0 <= n <= ((ws.graph)(graph_path)->Ok_0).source_files.len(),
    ensures
        ({
            let g = (ws.graph)(graph_path)->Ok_0;
            run(
                ws,
                with_hashes(graph_path, repository, g, all_hashes(ws, repository, g).take(n)),
                answers,
            ) == LoadState::Done(context_at(ws, graph_path, repository))
        }),
    decreases ((ws.graph)(graph_path)->Ok_0).source_files.len() - n,
{
    let g = (ws.graph)(graph_path)->Ok_0;
    let hashes = all_hashes(ws, repository, g);
    if n == g.source_files.len() {
        assert(hashes.take(n) =~= hashes);
        0
    } else {
        let rest = lemma_hashing(ws, graph_path, repository, n + 1);
        let state = with_hashes(graph_path, repository, g, hashes.take(n));
        assert(hashes.take(n + 1) =~= hashes.take(n).push(hashes[n]));
        lemma_one_answer(ws, state, rest);
        rest + 1
    }
}

proof fn lemma_loading(ws: Workspace, graph_path: PathBuf, repository: PathBuf) -> (answers: nat)
    ensures
        run(ws, LoadState::Loading { graph_path, repository }, answers) == LoadState::Done(
            context_at(ws, graph_path, repository),
        ),
{
    let state = LoadState::Loading { graph_path, repository };
    match (ws.graph)(graph_path) {
        Err(fault) => {
            lemma_one_answer(ws, state, 0);
            1
        },
        Ok(g) => {
            let rest = lemma_hashing(ws, graph_path, repository, 0);
            assert(all_hashes(ws, repository, g).take(0) =~= seq![]);
            lemma_one_answer(ws, state, rest);
            rest + 1
        },
    }
}

proof fn lemma_searching(ws: Workspace, level: int) -> (answers: nat)
    requires
        0 <= level <= ws.directories.len() <= usize::MAX,
    ensures
        run(ws, at_level(level, ws.directories), answers) == LoadState::Done(searched(ws, level)),
    decreases ws.directories.len() - level,
{
    if level == ws.directories.len() {
        0
    } else {
        let directory = ws.directories[level];
        let state = LoadState::Graph { level: level as usize, directories: ws.directories };
        match has_graph(ws, level) {
            Probe::Found => {
                let rest = lemma_loading(ws, default_graph(directory), directory);
                lemma_one_answer(ws, state, rest);
                rest + 1
            },
            Probe::Failed => {
                lemma_one_answer(ws, state, 0);
                1
            },
            Probe::Missing => {
                let git = LoadState::Git { level: level as usize, directories: ws.directories };
                if is_root(ws, level) {
                    lemma_one_answer(ws, git, 0);
                    lemma_one_answer(ws, state, 1);
                    2
                } else {
                    let rest = lemma_searching(ws, level + 1);
                    lemma_one_answer(ws, git, rest);
                    lemma_one_answer(ws, state, rest + 1);
                    rest + 2
                }
            },
        }
    }
}

/// A load whose every request is answered comes to its outcome.
pub proof fn load_comes_to_its_outcome(ws: Workspace, options: ContextOptions) -> (answers: nat)
    requires
        ws.directories.len() <= usize::MAX,
    ensures
        run(ws, first_state(options), answers) == LoadState::Done(loaded(ws, options)),
{
    let state = first_state(options);
    if !options.enabled {
        0
    } else if ws.directories.len() == 0 {
        lemma_one_answer(ws, state, 0);
        1
    } else {
        match options.graph_path {
            Some(given) => {
                let directory = ws.directories[0];
                let path = LoadState::Path { given, directory };
                let rest = if (ws.empty)(given) {
                    lemma_one_answer(ws, path, 0);
                    1
                } else {
                    let rest = lemma_loading(ws, given_graph(ws, given), directory);
                    lemma_one_answer(ws, path, rest);
                    rest + 1
                };
                lemma_one_answer(ws, state, rest);
                rest + 1
            },
            None => {
                let rest = lemma_searching(ws, 0);
                lemma_one_answer(ws, state, rest);
                rest + 1
            },
        }
    }
}

/// A load that is switched off asks nothing: it is done at its beginning, without
/// a context, whatever graph there is.
pub proof fn switched_off_asks_nothing(options: ContextOptions)
    requires
        !options.enabled,
    ensures
        first_state(options) == LoadState::Done(Ok(None)),
{
}

/// A context is of the graph that was looked for: the given one, at its path as it is or
/// below the working directory, or the one at the default path of the directory where
/// the search found it.
pub proof fn context_tells_its_path(ws: Workspace, options: ContextOptions)
    ensures
        loaded(ws, options) matches Ok(Some(c)) ==> match options.graph_path {
            Some(given) => c.graph_path == given_graph(ws, given),
            None => search(ws, 0) matches Search::Found(at) && c.graph_path == default_graph(
                ws.directories[at],
            ),
        },
{
}

/// The graph that is found is the nearest, and no directory below it is the root
/// of a repository.
pub proof fn nearest_graph_is_found(ws: Workspace, level: int)
    requires
        0 <= level,
    ensures
        search(ws, level) matches Search::Found(at) ==> {
            &&& level <= at < ws.directories.len()
            &&& has_graph(ws, at) == Probe::Found
            &&& forall|below: int|
                level <= below < at ==> (#[trigger] has_graph(ws, below)) == Probe::Missing
                    && !is_root(ws, below)
        },
    decreases ws.directories.len() - level,
{
    if level < ws.directories.len() {
        nearest_graph_is_found(ws, level + 1);
    }
}

/// The search never goes beyond the root of a repository: what is above it makes
/// no difference.
pub proof fn search_stops_at_the_repository(
    ws: Workspace,
    other: Workspace,
    root: int,
    level: int,
)
    requires
        0 <= level <= root < ws.directories.len(),
        root < other.directories.len(),
        is_root(ws, root),
        forall|l: int|
            0 <= l <= root ==> (#[trigger] has_graph(ws, l)) == has_graph(other, l) && is_root(ws, l)
                == is_root(other, l),
    ensures
        search(ws, level) == search(other, level),
        search(ws, level) matches Search::Found(at) ==> at <= root,
    decreases root - level,
{
    assert(has_graph(ws, level) == has_graph(other, level));
    if level < root && has_graph(ws, level) == Probe::Missing && !is_root(ws, level) {
        search_stops_at_the_repository(ws, other, root, level + 1);
    }
}

/// A graph that is selected explicitly is never silently lost: a load comes to a
/// context or to an error.
pub proof fn explicit_graph_is_never_lost(ws: Workspace, options: ContextOptions)
    requires
        options.enabled,
        options.graph_path is Some,
    ensures
        loaded(ws, options) != Ok::<_, ContextFault>(None::<ContextView>),
{
}

/// A graph that is found and cannot be used is an error, not a missing context.
pub proof fn faulty_graph_is_an_error(ws: Workspace, graph_path: PathBuf, repository: PathBuf)
    ensures
        (ws.graph)(graph_path) matches Err(fault) ==> context_at(ws, graph_path, repository)
            == Err::<Option<ContextView>, _>(ContextFault::Graph(fault)),
        context_at(ws, graph_path, repository) != Ok::<_, ContextFault>(None::<ContextView>),
{
}

/// The sources of a graph that is selected explicitly are those of the working
/// directory, wherever the graph itself is, and the sources of one that is found are
/// those of the directory that it was found for: no other directory makes a difference.
pub proof fn sources_are_those_of_the_repository(
    ws: Workspace,
    other: Workspace,
    options: ContextOptions,
    repository: PathBuf,
)
    requires
        other == (Workspace { hash: other.hash, ..ws }),
        ws.directories.len() > 0,
        repository == match options.graph_path {
            Some(_) => ws.directories[0],
            None => match search(ws, 0) {
                Search::Found(at) => ws.directories[at],
                _ => ws.directories[0],
            },
        },
        forall|path: Seq<char>| #[trigger]
            (ws.hash)(repository, path) == (other.hash)(repository, path),
    ensures
        loaded(ws, options) == loaded(other, options),
{
    lemma_same_search(ws, other, 0);
    assert forall|g: GraphView| #[trigger]
        all_hashes(ws, repository, g) == all_hashes(other, repository, g) by {
        assert(all_hashes(ws, repository, g) =~= all_hashes(other, repository, g));
    }
}

proof fn lemma_same_search(ws: Workspace, other: Workspace, level: int)
    requires
        other == (Workspace { hash: other.hash, ..ws }),
    ensures
        search(ws, level) == search(other, level),
    decreases ws.directories.len() - level,
{
    if 0 <= level < ws.directories.len() {
        lemma_same_search(ws, other, level + 1);
    }
}

/// A load whose every request is answered comes, after some answers, to the outcome.
pub open spec fn comes_to(
    ws: Workspace,
    options: ContextOptions,
    outcome: Result<Option<ContextView>, ContextFault>,
) -> bool {
    exists|answers: nat| #[trigger]
        run(ws, first_state(options), answers) == LoadState::Done(outcome)
}

proof fn lemma_done_stays(
    ws: Workspace,
    outcome: Result<Option<ContextView>, ContextFault>,
    answers: nat,
)
    ensures
        run(ws, LoadState::Done(outcome), answers) == LoadState::Done(outcome),
    decreases answers,
{
    if answers > 0 {
        lemma_done_stays(ws, outcome, (answers - 1) as nat);
    }
}

proof fn lemma_run_goes_on(ws: Workspace, state: LoadState, first: nat, then_: nat)
    ensures
        run(ws, state, first + then_) == run(ws, run(ws, state, first), then_),
    decreases first,
{
    if first > 0 {
        lemma_run_goes_on(ws, next_state(state, reply(ws, state)), (first - 1) as nat, then_);
    }
}

/// A load comes to one outcome and no other.
pub proof fn load_comes_to_one_outcome(
    ws: Workspace,
    options: ContextOptions,
    a: Result<Option<ContextView>, ContextFault>,
    b: Result<Option<ContextView>, ContextFault>,
)
    requires
        comes_to(ws, options, a),
        comes_to(ws, options, b),
    ensures
        a == b,
{
    let state = first_state(options);
    let m = choose|answers: nat| #[trigger] run(ws, state, answers) == LoadState::Done(a);
    let n = choose|answers: nat| #[trigger] run(ws, state, answers) == LoadState::Done(b);
    if m <= n {
        lemma_run_goes_on(ws, state, m, (n - m) as nat);
        lemma_done_stays(ws, a, (n - m) as nat);
    } else {
        lemma_run_goes_on(ws, state, n, (m - n) as nat);
        lemma_done_stays(ws, b, (m - n) as nat);
    }
}

/// Where the repository in the directory of a level keeps its graph.
pub open spec fn graph_of_level(ws: Workspace, level: int) -> PathBuf {
    joined(ws.directories[level], path_named(".jcode/security-graph.json"@))
}

/// The directory of a level has no graph, and is no root of a repository.
pub open spec fn is_passed(ws: Workspace, level: int) -> bool {
    (ws.graph_at)(graph_of_level(ws, level)) == Probe::Missing && !(ws.present)(
        joined(ws.directories[level], path_named(".git"@)),
    )
}

proof fn lemma_level(ws: Workspace, level: int)
    ensures
        has_graph(ws, level) == (ws.graph_at)(graph_of_level(ws, level)),
        is_root(ws, level) == (ws.present)(joined(ws.directories[level], path_named(".git"@))),
        default_graph(ws.directories[level]) == graph_of_level(ws, level),
{
}

proof fn lemma_search_passes(ws: Workspace, from: int, to: int)
    requires
        0 <= from <= to <= ws.directories.len(),
        forall|l: int| from <= l < to ==> #[trigger] is_passed(ws, l),
    ensures
        search(ws, from) == search(ws, to),
    decreases to - from,
{
    if from < to {
        lemma_level(ws, from);
        assert(is_passed(ws, from));
        lemma_search_passes(ws, from + 1, to);
    }
}

/// The graph that there is is found: where a directory, however far above the working
/// directory, has one, and those below it have none and are no root of a repository, a load
/// comes to the context of that graph, about the repository in that directory.
pub proof fn graph_that_there_is_is_found(ws: Workspace, options: ContextOptions, at: int)
    requires
        options.enabled,
        options.graph_path is None,
        0 <= at < ws.directories.len() <= usize::MAX,
        (ws.graph_at)(graph_of_level(ws, at)) == Probe::Found,
        forall|l: int| 0 <= l < at ==> #[trigger] is_passed(ws, l),
    ensures
        comes_to(
            ws,
            options,
            context_at(ws, graph_of_level(ws, at), ws.directories[at]),
        ),
{
    let answers = load_comes_to_its_outcome(ws, options);
    lemma_search_passes(ws, 0, at);
    lemma_level(ws, at);
}

/// Where it cannot be told whether a directory has a graph, and those below it have none
/// and are no root, a load comes to an error.
pub proof fn failing_search_is_an_error(ws: Workspace, options: ContextOptions, at: int)
    requires
        options.enabled,
        options.graph_path is None,
        0 <= at < ws.directories.len() <= usize::MAX,
        (ws.graph_at)(graph_of_level(ws, at)) == Probe::Failed,
        forall|l: int| 0 <= l < at ==> #[trigger] is_passed(ws, l),
    ensures
        comes_to(ws, options, Err(ContextFault::Discovery)),
{
    let answers = load_comes_to_its_outcome(ws, options);
    lemma_search_passes(ws, 0, at);
    lemma_level(ws, at);
}

/// A search that passes every directory, or comes to a root without a graph, leads to no
/// context.
pub proof fn search_without_a_graph_gives_no_context(
    ws: Workspace,
    options: ContextOptions,
    end: int,
)
    requires
        options.enabled,
        options.graph_path is None,
        0 < ws.directories.len() <= usize::MAX,
        0 <= end <= ws.directories.len(),
        forall|l: int| 0 <= l < end ==> #[trigger] is_passed(ws, l),
        end < ws.directories.len() ==> (ws.graph_at)(graph_of_level(ws, end)) == Probe::Missing && (
        ws.present)(joined(ws.directories[end], path_named(".git"@))),
    ensures
        comes_to(ws, options, Ok(None)),
{
    let answers = load_comes_to_its_outcome(ws, options);
    lemma_search_passes(ws, 0, end);
    if end < ws.directories.len() {
        lemma_level(ws, end);
    }
}

proof fn lemma_search_ends(ws: Workspace, from: int) -> (end: int)
    requires
        0 <= from <= ws.directories.len(),
        search(ws, from) is Nothing,
    ensures
        from <= end <= ws.directories.len(),
        forall|l: int| from <= l < end ==> #[trigger] is_passed(ws, l),
        end < ws.directories.len() ==> (ws.graph_at)(graph_of_level(ws, end)) == Probe::Missing && (
        ws.present)(joined(ws.directories[end], path_named(".git"@))),
    decreases ws.directories.len() - from,
{
    if from == ws.directories.len() {
        from
    } else {
        lemma_level(ws, from);
        if is_root(ws, from) {
            from
        } else {
            lemma_search_ends(ws, from + 1)
        }
    }
}

/// There is no context only where there is no graph to find: every directory up to the
/// last was passed, or up to a root of a repository that has none.
pub proof fn no_context_only_without_a_graph(ws: Workspace, options: ContextOptions) -> (end: int)
    requires
        options.enabled,
        ws.directories.len() <= usize::MAX,
        comes_to(ws, options, Ok(None)),
    ensures
        options.graph_path is None,
        0 <= end <= ws.directories.len(),
        forall|l: int| 0 <= l < end ==> #[trigger] is_passed(ws, l),
        end < ws.directories.len() ==> (ws.graph_at)(graph_of_level(ws, end)) == Probe::Missing && (
        ws.present)(joined(ws.directories[end], path_named(".git"@))),
{
    let answers = load_comes_to_its_outcome(ws, options);
    load_comes_to_one_outcome(ws, options, Ok(None), loaded(ws, options));
    lemma_search_ends(ws, 0)
}

/// A graph that is selected explicitly is the one that a load comes to: at its path where
/// that is absolute, and below the working directory where it is not. It is about the
/// repository in the working directory. An empty path is an error.
pub proof fn given_graph_is_loaded(ws: Workspace, options: ContextOptions, given: PathBuf)
    requires
        options.enabled,
        options.graph_path == Some(given),
        0 < ws.directories.len() <= usize::MAX,
    ensures
        (ws.empty)(given) ==> comes_to(ws, options, Err(ContextFault::EmptyPath)),
        !(ws.empty)(given) && (ws.absolute)(given) ==> comes_to(
            ws,
            options,
            context_at(ws, given, ws.directories[0]),
        ),
        !(ws.empty)(given) && !(ws.absolute)(given) ==> comes_to(
            ws,
            options,
            context_at(ws, joined(ws.directories[0], given), ws.directories[0]),
        ),
{
    let answers = load_comes_to_its_outcome(ws, options);
}

/// A load that is switched off comes to no context, and one whose working directory cannot
/// be resolved to an error.
pub proof fn load_needs_a_working_directory(ws: Workspace, options: ContextOptions)
    requires
        ws.directories.len() <= usize::MAX,
    ensures
        !options.enabled ==> comes_to(ws, options, Ok(None)),
        options.enabled && ws.directories.len() == 0 ==> comes_to(
            ws,
            options,
            Err(ContextFault::WorkingDirectory),
        ),
{
    let answers = load_comes_to_its_outcome(ws, options);
}

/// The context of a graph is made of the graph that its file gives and of what its source
/// files in the repository hash to, file by file; where the file gives none, the error says why.
pub proof fn context_is_of_the_file_and_its_sources(
    ws: Workspace,
    graph_path: PathBuf,
    repository: PathBuf,
) -> (hashes: Seq<Option<Seq<char>>>)
    ensures
        (ws.graph)(graph_path) matches Err(fault) ==> context_at(ws, graph_path, repository)
            == Err::<Option<ContextView>, _>(ContextFault::Graph(fault)),
        (ws.graph)(graph_path) matches Ok(g) ==> {
            &&& hashes.len() == g.source_files.len()
            &&& forall|k: int|
                0 <= k < hashes.len() ==> #[trigger] hashes[k] == (ws.hash)(
                    repository,
                    g.source_files[k].0,
                )
            &&& context_of(graph_path, g, hashes) matches Ok(c) ==> context_at(
                ws,
                graph_path,
                repository,
            ) == Ok::<_, ContextFault>(Some(c))
            &&& context_of(graph_path, g, hashes) matches Err(fault) ==> context_at(
                ws,
                graph_path,
                repository,
            ) == Err::<Option<ContextView>, _>(fault)
        },
{
    match (ws.graph)(graph_path) {
        Ok(g) => all_hashes(ws, repository, g),
        Err(_) => seq![],
    }
}

} // verus!
