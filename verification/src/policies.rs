//! What the steps of a load, the policy for writes and an agent's requests come to, in terms
//! of what they are given.

use std::path::PathBuf;
use vstd::prelude::*;
use vstd::utf8::encode_utf8;

use crate::agent::{
    block_context, context_is_all_from_the_marker_on, has_context, inputs_of, marker,
    message_context, message_has_one_context, reminded, request_event, request_trace,
    skill_prompt_is_that_of_the_first, traces_tell_what_events_tell, Agent, ContentBlock,
    ContextPlan, ContextReport, MemoryUpdate, Message, PromptInputs, RequestReport, Role, Skill,
    SplitSystemPrompt,
};
use crate::context::{context_of, ContextError, ContextFault, SecurityContext};
use crate::error::{debug_text, GraphError, LoadError};
use crate::graph::GraphView;
use crate::hash::fingerprint;
use crate::lint::{
    assess_python_write, compare_scans, finding_views, format_reason, gate,
    introduced_is_new, introduced_keeps_the_order, is_python, reason_lines,
    refusal_is_made_of_its_lines, Assessment, Finding, FindingView, GateOutcome, Scans,
};
use crate::load::{Answer, ContextLoad, LoadState, Probe, Request};
use crate::location::{joined, path_named};
use crate::options::{switch_has_six_words, ContextOptions, EnvText, OptionsError};
use crate::review::{hash_view, SourceError, SourceState};
use crate::scan::{
    accept_run, admit_target, admitted_targets_never_climb_out, copy_step, count,
    eight_directories_are_skipped, findings_are_those_of_every_run, findings_stand_in_order,
    is_finding_of, located_in_runs, parse_sarif, resolve_binary, scan_target, skips_directory, CopyStep,
    PathPart, SarifLog, ScanError,
};
use crate::text::{
    blank_is_trimmed_to_nothing, decimal, first_occurrence, lower, occurs_at, to_decimal, trimmed,
};
use crate::write_gate::{python_write_refusal, target_path_display, Refusal};

verus! {

// The steps of a load.

/// A load begins with the working directory, or is done at once where it is switched off.
pub proof fn load_begins_with_the_working_directory(options: ContextOptions, r: ContextLoad)
    requires
        call_ensures(ContextLoad::start, (&options,), r),
    ensures
        options.enabled ==> r@ == (LoadState::WorkingDir { given: options.graph_path }),
        !options.enabled ==> r@ == LoadState::Done(Ok(None)),
{
}

/// A search probes the working directory first, and where a directory has no graph and is no
/// root of a repository, the directory above it, level by level to the last.
pub proof fn search_goes_on_to_the_last_directory(
    load: ContextLoad,
    answer: Answer,
    r: ContextLoad,
    level: usize,
    directories: Seq<PathBuf>,
)
    requires
        call_ensures(ContextLoad::answer, (load, answer), r),
        directories.len() <= usize::MAX,
    ensures
        load@ == (LoadState::WorkingDir { given: None }) ==> (answer matches Answer::WorkingDir(
            found,
        ) ==> {
            &&& found@.len() == 0 ==> r@ == LoadState::Done(Err(ContextFault::WorkingDirectory))
            &&& found@.len() > 0 ==> r@ == (LoadState::Graph { level: 0, directories: found@ })
        }),
        load@ == (LoadState::Graph { level, directories }) && answer == Answer::Graph(Probe::Missing)
            ==> r@ == (LoadState::Git { level, directories }),
        load@ == (LoadState::Git { level, directories }) && answer == Answer::Git(false) && level + 1
            < directories.len() ==> r@ == (LoadState::Graph {
            level: (level + 1) as usize,
            directories,
        }),
        load@ == (LoadState::Git { level, directories }) && answer == Answer::Git(false) && level + 1
            == directories.len() ==> r@ == LoadState::Done(Ok(None)),
        load@ == (LoadState::Git { level, directories }) && answer == Answer::Git(true) ==> r@
            == LoadState::Done(Ok(None)),
        load@ == (LoadState::Graph { level, directories }) && answer == Answer::Graph(Probe::Failed)
            ==> r@ == LoadState::Done(Err(ContextFault::Discovery)),
        load@ == (LoadState::Graph { level, directories }) && answer == Answer::Graph(Probe::Found)
            ==> r@ == (LoadState::Loading {
            graph_path: joined(
                directories[level as int],
                path_named(".jcode/security-graph.json"@),
            ),
            repository: directories[level as int],
        }),
{
}

/// A graph that is selected explicitly is looked for at its path, which is below the working
/// directory where it is not absolute, and is about the repository there. An empty path is an
/// error.
pub proof fn given_path_is_taken(
    load: ContextLoad,
    answer: Answer,
    r: ContextLoad,
    given: PathBuf,
    directory: PathBuf,
    empty: bool,
    absolute: bool,
)
    requires
        call_ensures(ContextLoad::answer, (load, answer), r),
    ensures
        load@ == (LoadState::WorkingDir { given: Some(given) }) ==> (answer matches
            Answer::WorkingDir(found) ==> {
            &&& found@.len() == 0 ==> r@ == LoadState::Done(Err(ContextFault::WorkingDirectory))
            &&& found@.len() > 0 ==> r@ == (LoadState::Path { given, directory: found@[0] })
        }),
        load@ == (LoadState::Path { given, directory }) && answer == (Answer::PathShape {
            empty,
            absolute,
        }) ==> {
            &&& empty ==> r@ == LoadState::Done(Err(ContextFault::EmptyPath))
            &&& !empty && absolute ==> r@ == (LoadState::Loading {
                graph_path: given,
                repository: directory,
            })
            &&& !empty && !absolute ==> r@ == (LoadState::Loading {
                graph_path: joined(directory, given),
                repository: directory,
            })
        },
{
}

/// Of a graph that is loaded every source file is hashed, one after the other, and the
/// context is made with the hashes of all. A graph that cannot be loaded is an error.
pub proof fn every_source_is_hashed(
    load: ContextLoad,
    answer: Answer,
    r: ContextLoad,
    graph_path: PathBuf,
    repository: PathBuf,
    graph: GraphView,
    hashes: Seq<Option<Seq<char>>>,
)
    requires
        call_ensures(ContextLoad::answer, (load, answer), r),
    ensures
        load@ == (LoadState::Loading { graph_path, repository }) ==> (answer matches Answer::Loaded(
            Err(error),
        ) ==> r@ == LoadState::Done(Err(ContextFault::Graph(error@)))),
        load@ == (LoadState::Loading { graph_path, repository }) ==> (answer matches Answer::Loaded(
            Ok(found),
        ) ==> {
            &&& found@.source_files.len() > 0 ==> r@ == (LoadState::Hashing {
                graph_path,
                repository,
                graph: found@,
                hashes: seq![],
            })
            &&& found@.source_files.len() == 0 ==> match context_of(graph_path, found@, seq![]) {
                Ok(c) => r@ == LoadState::Done(Ok(Some(c))),
                Err(fault) => r@ == LoadState::Done(Err(fault)),
            }
        }),
        load@ == (LoadState::Hashing { graph_path, repository, graph, hashes }) ==> (answer matches
            Answer::Hashed(hash) ==> {
            let more = hashes.push(hash_view(hash));
            &&& more.len() < graph.source_files.len() ==> r@ == (LoadState::Hashing {
                graph_path,
                repository,
                graph,
                hashes: more,
            })
            &&& more.len() == graph.source_files.len() ==> match context_of(
                graph_path,
                graph,
                more,
            ) {
                Ok(c) => r@ == LoadState::Done(Ok(Some(c))),
                Err(fault) => r@ == LoadState::Done(Err(fault)),
            }
        }),
{
}

/// An answer to something else than what was asked changes nothing, and a load that has an
/// outcome keeps it.
pub proof fn unasked_answer_changes_nothing(load: ContextLoad, answer: Answer, r: ContextLoad)
    requires
        call_ensures(ContextLoad::answer, (load, answer), r),
    ensures
        load@ is WorkingDir && !(answer is WorkingDir) ==> r@ == load@,
        load@ is Path && !(answer is PathShape) ==> r@ == load@,
        load@ is Graph && !(answer is Graph) ==> r@ == load@,
        load@ is Git && !(answer is Git) ==> r@ == load@,
        load@ is Loading && !(answer is Loaded) ==> r@ == load@,
        load@ is Hashing && !(answer is Hashed) ==> r@ == load@,
        load@ is Done ==> r@ == load@,
{
}

/// A load asks for what it needs next, and for nothing once it has an outcome.
pub proof fn load_asks_for_what_it_needs(
    load: ContextLoad,
    r: Request,
    outcome: Option<Result<Option<SecurityContext>, ContextError>>,
)
    requires
        call_ensures(ContextLoad::request, (&load,), r),
        call_ensures(ContextLoad::outcome, (load,), outcome),
    ensures
        match load@ {
            LoadState::WorkingDir { .. } => r == Request::ResolveWorkingDir,
            LoadState::Path { given, .. } => r == Request::InspectPath(given),
            LoadState::Graph { level, directories } => r == Request::ProbeGraph(
                joined(directories[level as int], path_named(".jcode/security-graph.json"@)),
            ),
            LoadState::Git { level, directories } => r == Request::ProbeGit(
                joined(directories[level as int], path_named(".git"@)),
            ),
            LoadState::Loading { graph_path, .. } => r == Request::LoadGraph(graph_path),
            LoadState::Hashing { repository, graph, hashes, .. } => r matches Request::HashSource(
                directory,
                path,
            ) && directory == repository && path@ == graph.source_files[hashes.len() as int].0,
            LoadState::Done(_) => r == Request::Nothing,
        },
        outcome is Some <==> load@ is Done,
        outcome matches Some(o) ==> match o {
            Ok(Some(c)) => load@ == LoadState::Done(Ok(Some(c@))),
            Ok(None) => load@ == LoadState::Done(Ok(None)),
            Err(e) => load@ == LoadState::Done(Err(e@)),
        },
{
}

/// What a context says holds every field of it.
pub proof fn view_of_a_context_holds_everything(c: SecurityContext)
    ensures
        c@.graph_path == c.graph_path,
        c@.graph_hash == c.graph_hash@,
        c@.node_count == c.node_count,
        c@.edge_count == c.edge_count,
        c@.sources_match == c.sources_match,
        c@.prompt == c.prompt@,
{
}

// Options.

/// The environment switches the context on by three words or by nothing, and off by three
/// others, whatever their case and the white space around them. Every other text, and what is
/// not Unicode, is an error. The graph's path is handed on.
pub proof fn environment_has_six_words(
    found: EnvText,
    graph_path: Option<PathBuf>,
    r: Result<ContextOptions, OptionsError>,
)
    requires
        call_ensures(ContextOptions::from_env, (&found, graph_path), r),
    ensures
        r matches Ok(options) ==> options.graph_path == graph_path,
        found is Absent ==> (r matches Ok(options) && options.enabled),
        found matches EnvText::NotUnicode(shown) ==> r == Err::<ContextOptions, _>(
            OptionsError::NotUnicode(shown),
        ),
        found matches EnvText::Text(value) ==> {
            let word = lower(trimmed(value@));
            &&& word == "1"@ || word == "true"@ || word == "on"@ ==> (r matches Ok(options)
                && options.enabled)
            &&& word == "0"@ || word == "false"@ || word == "off"@ ==> (r matches Ok(options)
                && !options.enabled)
            &&& !(word == "1"@ || word == "true"@ || word == "on"@ || word == "0"@ || word
                == "false"@ || word == "off"@) ==> r == Err::<ContextOptions, _>(
                OptionsError::UnknownSwitch,
            )
        },
{
    if let EnvText::Text(value) = found {
        switch_has_six_words(value, value);
    }
}

// Scans.

/// The analyser is the configured one where it exists, `tiny_taint` where none is configured,
/// and an error that names it where the configured one does not exist.
pub proof fn configured_analyser_is_run(
    configured: Option<String>,
    present: bool,
    r: Result<String, ScanError>,
)
    requires
        call_ensures(resolve_binary, (configured, present), r),
    ensures
        configured is None ==> (r matches Ok(binary) && binary@ == "tiny_taint"@),
        configured matches Some(path) ==> r == if present {
            Ok::<String, ScanError>(path)
        } else {
            Err::<String, ScanError>(ScanError::MissingAnalyser(path))
        },
{
}

/// A report counts exactly where the analyser ended with success; otherwise the error tells
/// its name, its status and what it said.
pub proof fn report_counts_with_success(
    binary: &str,
    success: bool,
    status: &str,
    said: &str,
    r: Result<(), ScanError>,
)
    requires
        call_ensures(accept_run, (binary, success, status, said), r),
    ensures
        r is Ok <==> success,
        !success ==> (r matches Err(ScanError::Failed { binary: b, status: s, said: t }) && b@
            == binary@ && s@ == status@ && t@ == said@),
{
}

/// A target is admitted exactly where the paths are Unicode, it is below the working
/// directory, its path begins nowhere anew, and no beginning of it leads up more often than
/// down.
pub proof fn target_is_admitted_below_the_directory(
    unicode: bool,
    parts: Option<&Vec<PathPart>>,
    r: Result<(), ScanError>,
)
    requires
        call_ensures(admit_target, (unicode, parts), r),
    ensures
        r is Ok <==> unicode && (parts matches Some(p) && !p@.contains(PathPart::Root) && forall|
            n: int,
        |
            0 <= n <= p@.len() ==> count(#[trigger] p@.take(n), PathPart::Away) <= count(
                p@.take(n),
                PathPart::Name,
            )),
        !unicode ==> r == Err::<(), _>(ScanError::NotUnicode),
        unicode && r is Err ==> r == Err::<(), _>(ScanError::OutsideTarget),
{
    admitted_targets_never_climb_out(unicode, parts);
}

/// Without an analyser, or with a target that is refused, nothing is scanned and the error is
/// the one of those; otherwise the scans are what the scan comes to.
pub proof fn admitted_target_is_scanned<F: FnOnce(String) -> Result<Scans, ScanError>>(
    binary: Result<String, ScanError>,
    unicode: bool,
    parts: Option<&Vec<PathPart>>,
    scan: F,
    r: Result<Scans, ScanError>,
    admitted: Result<(), ScanError>,
)
    requires
        call_ensures(scan_target::<F>, (binary, unicode, parts, scan), r),
        call_ensures(admit_target, (unicode, parts), admitted),
    ensures
        match (binary, admitted) {
            (Err(e), _) => r == Err::<Scans, _>(e),
            (Ok(_), Err(e)) => r == Err::<Scans, _>(e),
            (Ok(analyser), Ok(())) => call_ensures(scan, (analyser,), r),
        },
{
}

/// Files are copied, directories entered unless their name is one of eight, and everything
/// else is left out.
pub proof fn copy_leaves_out_eight_directories(
    name: &str,
    skipped: bool,
    directory: bool,
    file: bool,
    r: CopyStep,
)
    requires
        call_ensures(skips_directory, (name,), skipped),
        call_ensures(copy_step, (directory, file, name), r),
    ensures
        skipped <==> seq![
            ".git"@,
            "__pycache__"@,
            ".mypy_cache"@,
            ".pytest_cache"@,
            "venv"@,
            ".venv"@,
            "node_modules"@,
            "target"@,
        ].contains(name@),
        r == CopyStep::Descend <==> directory && !skipped,
        r == CopyStep::Copy <==> !directory && file,
        r == CopyStep::Skip <==> directory && skipped || !directory && !file,
{
    eight_directories_are_skipped(name@);
}

/// A finding is reported exactly when some result of some run has it at the first of its
/// places, and there are as many findings as results with a place.
pub proof fn every_result_with_a_place_is_reported(log: SarifLog, r: Vec<Finding>, f: FindingView)
    requires
        call_ensures(parse_sarif, (&log,), r),
    ensures
        (exists|k: int| 0 <= k < r@.len() && (#[trigger] r@[k])@ == f) <==> exists|n: int, i: int|
            0 <= n < log.runs@.len() && 0 <= i < log.runs@[n].results@.len() && is_finding_of(
                f,
                #[trigger] log.runs@[n].results@[i],
            ),
        r@.len() == located_in_runs(log.runs@),
{
    findings_are_those_of_every_run(log.runs@, f);
    let found = finding_views(r@);
    if found.contains(f) {
        let k = choose|k: int| 0 <= k < found.len() && found[k] == f;
        assert(r@[k]@ == f);
    }
    if exists|k: int| 0 <= k < r@.len() && (#[trigger] r@[k])@ == f {
        let k = choose|k: int| 0 <= k < r@.len() && (#[trigger] r@[k])@ == f;
        assert(found[k] == f);
    }
}

/// The findings of a report whose runs are those of two others are the findings of the one
/// and then those of the other.
pub proof fn findings_are_reported_in_order(
    a: SarifLog,
    b: SarifLog,
    whole: SarifLog,
    x: Vec<Finding>,
    y: Vec<Finding>,
    z: Vec<Finding>,
)
    requires
        call_ensures(parse_sarif, (&a,), x),
        call_ensures(parse_sarif, (&b,), y),
        call_ensures(parse_sarif, (&whole,), z),
        whole.runs@ == a.runs@ + b.runs@,
    ensures
        z@.len() == x@.len() + y@.len(),
        forall|i: int| 0 <= i < x@.len() ==> (#[trigger] z@[i])@ == x@[i]@,
        forall|i: int| 0 <= i < y@.len() ==> z@[x@.len() + i]@ == (#[trigger] y@[i])@,
{
    let run = arbitrary();
    let result = arbitrary();
    findings_stand_in_order(a.runs@, b.runs@, seq![], seq![], run, result);
    let p = finding_views(x@);
    let q = finding_views(y@);
    let s = finding_views(z@);
    assert(s == p + q);
    assert(p.len() == x@.len() && q.len() == y@.len() && s.len() == z@.len());
    assert forall|i: int| 0 <= i < x@.len() implies (#[trigger] z@[i])@ == x@[i]@ by {
        assert(s[i] == p[i]);
    }
    assert forall|i: int| 0 <= i < y@.len() implies z@[x@.len() + i]@ == (#[trigger] y@[i])@ by {
        assert(s[x@.len() + i] == q[i]);
    }
}

// The policy for writes.

/// What a finding says holds every field of it, and two findings are the same exactly when
/// they say the same.
pub proof fn view_of_a_finding_holds_everything(f: Finding, g: Finding, r: bool)
    requires
        call_ensures(Finding::same, (&f, &g), r),
    ensures
        f@.rule_id == f.rule_id@,
        f@.message == f.message@,
        f@.uri == f.uri@,
        f@.line == f.line,
        f@.column == f.column,
        r <==> f.rule_id@ == g.rule_id@ && f.message@ == g.message@ && f.uri@ == g.uri@ && f.line
            == g.line && f.column == g.column,
{
}

/// The line for a finding tells where it is, its rule and its message.
pub proof fn finding_is_told_in_full(f: Finding, r: String, line: String, column: String)
    requires
        call_ensures(Finding::text, (&f,), r),
        call_ensures(to_decimal, (f.line,), line),
        call_ensures(to_decimal, (f.column,), column),
    ensures
        r@ == f.uri@ + ":"@ + line@ + ":"@ + column@ + ": ["@ + f.rule_id@ + "] "@ + f.message@,
{
}

/// What a write introduces are the findings of the second scan that the first does not have,
/// each time that they are found.
pub proof fn comparison_tells_what_is_new(scans: Scans, r: Assessment, f: FindingView)
    requires
        call_ensures(compare_scans, (&scans,), r),
    ensures
        (exists|k: int| 0 <= k < r.new_findings@.len() && (#[trigger] r.new_findings@[k])@ == f)
            <==> (exists|k: int|
            0 <= k < scans.candidate@.len() && (#[trigger] scans.candidate@[k])@ == f) && !(exists|
            k: int,
        |
            0 <= k < scans.baseline@.len() && (#[trigger] scans.baseline@[k])@ == f),
{
    let before = finding_views(scans.baseline@);
    let after = finding_views(scans.candidate@);
    introduced_is_new(before, after, f);
    lemma_found(scans.baseline, f);
    lemma_found(scans.candidate, f);
    lemma_found(r.new_findings, f);
}

proof fn lemma_found(findings: Vec<Finding>, f: FindingView)
    ensures
        finding_views(findings@).contains(f) <==> exists|k: int|
            0 <= k < findings@.len() && (#[trigger] findings@[k])@ == f,
{
    let all = finding_views(findings@);
    if all.contains(f) {
        let k = choose|k: int| 0 <= k < all.len() && all[k] == f;
        assert(findings@[k]@ == f);
    }
    if exists|k: int| 0 <= k < findings@.len() && (#[trigger] findings@[k])@ == f {
        let k = choose|k: int| 0 <= k < findings@.len() && (#[trigger] findings@[k])@ == f;
        assert(all[k] == f);
    }
}

/// Findings are compared in order: those of a second scan in two parts are what the first
/// part introduces and then what the other does.
pub proof fn comparison_keeps_the_order(
    a: Scans,
    b: Scans,
    whole: Scans,
    x: Assessment,
    y: Assessment,
    z: Assessment,
)
    requires
        call_ensures(compare_scans, (&a,), x),
        call_ensures(compare_scans, (&b,), y),
        call_ensures(compare_scans, (&whole,), z),
        finding_views(a.baseline@) == finding_views(whole.baseline@),
        finding_views(b.baseline@) == finding_views(whole.baseline@),
        finding_views(whole.candidate@) == finding_views(a.candidate@) + finding_views(
            b.candidate@,
        ),
    ensures
        finding_views(z.new_findings@) == finding_views(x.new_findings@) + finding_views(
            y.new_findings@,
        ),
{
    let f = arbitrary();
    introduced_keeps_the_order(
        finding_views(whole.baseline@),
        finding_views(a.candidate@),
        finding_views(b.candidate@),
        f,
    );
}

/// A Python file is one whose extension is `py`. A write of one is assessed by its scans;
/// where it is none, or there are no scans, nothing is new.
pub proof fn python_writes_are_assessed(
    extension: Option<&str>,
    python: bool,
    scans: Option<&Scans>,
    r: Assessment,
    given: Scans,
    compared: Assessment,
)
    requires
        call_ensures(is_python, (extension,), python),
        call_ensures(assess_python_write, (extension, scans), r),
        call_ensures(compare_scans, (&given,), compared),
    ensures
        python <==> (extension matches Some(e) && e@ == "py"@),
        !python || scans is None ==> r.new_findings@.len() == 0,
        python && scans == Some(&given) ==> finding_views(r.new_findings@) == finding_views(
            compared.new_findings@,
        ),
{
    let all = finding_views(r.new_findings@);
    assert(all.len() == r.new_findings@.len());
}

/// A write is allowed exactly when it introduces nothing, and refused for the reason that
/// tells its findings.
pub proof fn write_is_refused_for_what_it_introduces(
    assessment: Assessment,
    r: GateOutcome,
    findings: &[Finding],
    reason: String,
)
    requires
        call_ensures(gate, (&assessment,), r),
        call_ensures(format_reason, (findings,), reason),
        findings@ == assessment.new_findings@,
    ensures
        r is Allow <==> assessment.new_findings@.len() == 0,
        r matches GateOutcome::Deny { reason: told } ==> told@ == reason@,
{
}

/// The reason of a refusal is its first sentence, a line for every finding in order, and its
/// last sentence.
pub proof fn reason_has_a_line_for_every_finding(
    a: &[Finding],
    f: Finding,
    whole: &[Finding],
    x: String,
    y: String,
    line: String,
) -> (lines: Seq<char>)
    requires
        call_ensures(format_reason, (a,), x),
        call_ensures(format_reason, (whole,), y),
        call_ensures(Finding::text, (&f,), line),
        whole@ == a@.push(f),
    ensures
        x@
            == "blocked: this write introduces new taint-analysis findings (tiny_taint) not present in the project before:\n"@
            + lines
            + "Fix the flagged data flow (e.g. sanitize/validate before it reaches the sink) and retry the write."@,
        y@
            == "blocked: this write introduces new taint-analysis findings (tiny_taint) not present in the project before:\n"@
            + (lines + "  - "@ + line@ + "\n"@)
            + "Fix the flagged data flow (e.g. sanitize/validate before it reaches the sink) and retry the write."@,
        a@.len() == 0 ==> lines.len() == 0,
{
    let all = finding_views(a@);
    refusal_is_made_of_its_lines(all, seq![f@], f@);
    refusal_is_made_of_its_lines(all.push(f@), seq![], f@);
    assert(finding_views(whole@) =~= all.push(f@));
    assert(all.push(f@) =~= all + seq![f@]);
    assert(reason_lines(all.push(f@)) =~= reason_lines(all) + "  - "@ + line@ + "\n"@);
    if a@.len() == 0 {
        assert(all =~= seq![]);
    }
    reason_lines(all)
}

/// A write is refused exactly when its assessment has findings, for the reason that tells
/// them, and the warning names the file of the first.
pub proof fn refusal_tells_its_findings(
    assessment: Assessment,
    r: Option<Refusal>,
    none: Option<Refusal>,
    outcome: GateOutcome,
    shown: String,
)
    requires
        call_ensures(python_write_refusal, (Some(&assessment),), r),
        call_ensures(python_write_refusal, (None,), none),
        call_ensures(gate, (&assessment,), outcome),
        call_ensures(target_path_display, (&assessment,), shown),
    ensures
        none is None,
        r is Some <==> assessment.new_findings@.len() > 0,
        r matches Some(refusal) ==> (outcome matches GateOutcome::Deny { reason } && refusal.reason@
            == reason@) && refusal.warning@
            == "[security-lint] blocked write introducing new taint findings: "@
            + assessment.new_findings@[0].uri@,
        assessment.new_findings@.len() > 0 ==> shown@ == assessment.new_findings@[0].uri@,
        assessment.new_findings@.len() == 0 ==> shown@.len() == 0,
{
}

// An agent's requests.

/// A message of the user has the one text.
pub proof fn user_message_has_one_text(s: &str, r: Message)
    requires
        call_ensures(Message::user, (s,), r),
    ensures
        r.role == Role::User,
        r.content@.len() == 1,
        r.content@[0] matches ContentBlock::Text { text } && text@ == s@,
{
}

/// A context is loaded with the agent's own options where it has some, and otherwise with
/// those of the environment, in the session's directory. Where they are switched off, or are
/// an error, nothing is loaded.
pub proof fn own_options_come_first(
    agent: Agent,
    found: EnvText,
    graph_path: Option<PathBuf>,
    r: Result<Option<ContextPlan>, OptionsError>,
    env: Result<ContextOptions, OptionsError>,
)
    requires
        call_ensures(Agent::security_context_plan, (&agent, &found, graph_path), r),
        call_ensures(ContextOptions::from_env, (&found, graph_path), env),
    ensures
        match (agent.security_graph_options, env) {
            (Some(own), _) => if own.enabled {
                r matches Ok(Some(plan)) && plan.options == own && plan.working_dir
                    == agent.session.working_dir
            } else {
                r matches Ok(None)
            },
            (None, Ok(options)) => if options.enabled {
                r matches Ok(Some(plan)) && plan.options == options && plan.working_dir
                    == agent.session.working_dir
            } else {
                r matches Ok(None)
            },
            (None, Err(e)) => r == Err::<Option<ContextPlan>, _>(e),
        },
{
}

/// A context is supplied as it is, in one message of the user. The event and the trace tell
/// the session, the graph's path, its hash and counts, and of the context its hash, its size
/// and whether its sources match.
pub proof fn context_is_supplied_and_recorded(
    agent: Agent,
    context: SecurityContext,
    shown_path: &str,
    r: ContextReport,
)
    requires
        call_ensures(Agent::security_context_message, (&agent, &context, shown_path), r),
    ensures
        r.message.role == Role::User,
        r.message.content@.len() == 1,
        r.message.content@[0] matches ContentBlock::Text { text } && text@ == context.prompt@,
        r.event.name@ == "SECURITY_CONTEXT"@,
        r.event.fields@.len() == 8,
        ({
            let logged = |at: int, name: Seq<char>, value: Seq<char>|
                r.event.fields@[at].0@ == name && r.event.fields@[at].1@ == value;
            &&& logged(0, "session_id"@, agent.session.id@)
            &&& logged(1, "graph_path"@, shown_path@)
            &&& logged(2, "graph_hash"@, context.graph_hash@)
            &&& logged(3, "context_hash"@, fingerprint(encode_utf8(context.prompt@)))
            &&& logged(4, "nodes"@, decimal(context.node_count as nat))
            &&& logged(5, "edges"@, decimal(context.edge_count as nat))
            &&& logged(
                6,
                "sources_match"@,
                if context.sources_match {
                    "true"@
                } else {
                    "false"@
                },
            )
            &&& logged(7, "context_bytes"@, decimal(encode_utf8(context.prompt@).len()))
        }),
        r.trace@ == "[trace] security_graph loaded"@ + " session="@ + agent.session.id@ + " path="@
            + shown_path@ + " graph_hash="@ + context.graph_hash@ + " context_hash="@
            + fingerprint(encode_utf8(context.prompt@)) + " nodes="@ + decimal(
            context.node_count as nat,
        ) + " edges="@ + decimal(context.edge_count as nat) + " sources_match="@ + (if context.sources_match {
            "true"@
        } else {
            "false"@
        }) + " bytes="@ + decimal(encode_utf8(context.prompt@).len()),
{
    let s = seq![];
    traces_tell_what_events_tell(agent.session.id@, shown_path@, context@, s, s, s);
    let told = r.event@.fields;
    assert(told.len() == r.event.fields@.len());
    assert forall|i: int| 0 <= i < told.len() implies (#[trigger] told[i]).0
        == r.event.fields@[i].0@ && told[i].1 == r.event.fields@[i].1@ by {}
    assert(told[0].0 == "session_id"@ && told[1].0 == "graph_path"@ && told[2].0 == "graph_hash"@);
    assert(told[3].0 == "context_hash"@ && told[4].0 == "nodes"@ && told[5].0 == "edges"@);
    assert(told[6].0 == "sources_match"@ && told[7].0 == "context_bytes"@);
}

/// A request is recorded exactly when the marker stands in one of the texts of its message.
/// What is recorded is the session, the stage, the model, and of all from the first marker on
/// of the first such text the hash and the size.
pub proof fn request_with_a_context_is_recorded(
    agent: Agent,
    message: Message,
    stage: &str,
    model: &str,
    r: Option<RequestReport>,
    none: Option<RequestReport>,
    block: int,
    text: String,
    at: int,
)
    requires
        call_ensures(
            Agent::log_security_context_request,
            (&agent, Some(&message), stage, model),
            r,
        ),
        call_ensures(Agent::log_security_context_request, (&agent, None, stage, model), none),
        0 <= block < message.content@.len(),
        message.content@[block] == (ContentBlock::Text { text }),
        occurs_at(text@, "<security-context>"@, at),
        forall|earlier: int|
            0 <= earlier < at ==> !occurs_at(text@, "<security-context>"@, earlier),
        forall|i: int, other: String, p: int|
            #![trigger message.content@[i], occurs_at(other@, "<security-context>"@, p)]
            0 <= i < block && message.content@[i] == (ContentBlock::Text { text: other })
                ==> !occurs_at(other@, "<security-context>"@, p),
    ensures
        none is None,
        r matches Some(report) && {
            let context = text@.subrange(at, text@.len() as int);
            let logged = |k: int, name: Seq<char>, value: Seq<char>|
                report.event.fields@[k].0@ == name && report.event.fields@[k].1@ == value;
            &&& report.event.name@ == "SECURITY_CONTEXT_REQUEST"@
            &&& report.event.fields@.len() == 5
            &&& logged(0, "session_id"@, agent.session.id@)
            &&& logged(1, "stage"@, stage@)
            &&& logged(2, "context_hash"@, fingerprint(encode_utf8(context)))
            &&& logged(3, "model"@, model@)
            &&& logged(4, "context_bytes"@, decimal(encode_utf8(context).len()))
            &&& report.trace@ == "[trace] security_graph "@ + stage@ + " session="@
                + agent.session.id@ + " model="@ + model@ + " context_hash="@ + fingerprint(
                encode_utf8(context),
            ) + " bytes="@ + decimal(encode_utf8(context).len())
        },
{
    let context = text@.subrange(at, text@.len() as int);
    context_is_all_from_the_marker_on(message.content@, block, text, at);
    assert(has_context(message.content@[block]));
    let report = r->0;
    let found = choose|found: Seq<char>| #[trigger]
        message_context(message.content@, found) && report.event@ == request_event(
            agent.session.id@,
            stage@,
            model@,
            found,
        ) && report.trace@ == request_trace(agent.session.id@, stage@, model@, found);
    message_has_one_context(message.content@, context, found);
    let told = report.event@.fields;
    assert(told.len() == report.event.fields@.len());
    assert forall|i: int| 0 <= i < told.len() implies (#[trigger] told[i]).0
        == report.event.fields@[i].0@ && told[i].1 == report.event.fields@[i].1@ by {}
    assert(told[0].0 == "session_id"@ && told[1].0 == "stage"@ && told[2].0 == "context_hash"@);
    assert(told[3].0 == "model"@ && told[4].0 == "context_bytes"@);
}

/// A request without the marker in any text of its message is not recorded.
pub proof fn request_without_a_context_is_not_recorded(
    agent: Agent,
    message: Message,
    stage: &str,
    model: &str,
    r: Option<RequestReport>,
)
    requires
        call_ensures(
            Agent::log_security_context_request,
            (&agent, Some(&message), stage, model),
            r,
        ),
        forall|i: int, text: String, p: int|
            #![trigger message.content@[i], occurs_at(text@, "<security-context>"@, p)]
            0 <= i < message.content@.len() && message.content@[i] == (ContentBlock::Text { text })
                ==> !occurs_at(text@, "<security-context>"@, p),
    ensures
        r is None,
{
    if let Some(report) = r {
        let found = choose|found: Seq<char>| #[trigger]
            message_context(message.content@, found) && report.event@ == request_event(
                agent.session.id@,
                stage@,
                model@,
                found,
            ) && report.trace@ == request_trace(agent.session.id@, stage@, model@, found);
        let at = choose|at: int|
            0 <= at < message.content@.len() && block_context(
                #[trigger] message.content@[at],
                found,
            ) && forall|i: int| 0 <= i < at ==> !has_context(#[trigger] message.content@[i]);
        let text = message.content@[at]->text;
        let p = choose|p: int|
            first_occurrence(text@, marker(), p) && found == #[trigger] text@.subrange(
                p,
                text@.len() as int,
            );
        assert(message.content@[at] == (ContentBlock::Text { text }));
        assert(occurs_at(text@, "<security-context>"@, p));
    }
}

/// The accounting tells the two sizes and their sum.
pub proof fn accounting_is_told_in_full(agent: Agent, system: usize, tools: usize, r: String)
    requires
        call_ensures(Agent::log_prompt_prefix_accounting, (&agent, system, tools), r),
        system + tools <= usize::MAX,
    ensures
        r@ == "Prompt prefix estimate: total="@ + decimal((system + tools) as nat)
            + " tokens (system="@ + decimal(system as nat) + " tools="@ + decimal(tools as nat)
            + ")"@,
{
}

/// Memory is asked exactly at the beginning of a turn of the user where it is on, for the
/// session and its directory.
pub proof fn memory_is_asked_once_a_turn(agent: Agent, fresh: bool, r: Option<MemoryUpdate>)
    requires
        call_ensures(Agent::build_memory_prompt_nonblocking_shared, (&agent, fresh), r),
    ensures
        r is Some <==> agent.memory_enabled && fresh,
        r matches Some(update) ==> update.session_id == agent.session.id && update.working_dir
            == agent.session.working_dir,
{
}

/// The inputs of a system prompt hold every skill by name and description, the prompt of the
/// first one with the active name, what memory gives, and what the session and the project
/// give.
pub proof fn prompt_inputs_hold_everything(
    agent: Agent,
    skills: Vec<Skill>,
    memory_prompt: Option<&str>,
    r: PromptInputs,
    at: int,
)
    requires
        call_ensures(Agent::prompt_inputs, (&agent, &skills, memory_prompt), r),
    ensures
        r.available_skills@.len() == skills@.len(),
        0 <= at < skills@.len() ==> r.available_skills@[at].name == skills@[at].name
            && r.available_skills@[at].description == skills@[at].description,
        agent.active_skill is None ==> r.skill_prompt is None,
        agent.active_skill matches Some(name) ==> {
            &&& (0 <= at < skills@.len() && skills@[at].name@ == name@ && forall|j: int|
                0 <= j < at ==> (#[trigger] skills@[j]).name@ != name@) ==> (
            r.skill_prompt matches Some(prompt) && prompt@ == skills@[at].prompt@)
            &&& (forall|j: int| 0 <= j < skills@.len() ==> (#[trigger] skills@[j]).name@ != name@)
                ==> r.skill_prompt is None
        },
        r.is_canary == agent.session.is_canary,
        memory_prompt is None ==> r.memory_prompt is None,
        memory_prompt matches Some(m) ==> (r.memory_prompt matches Some(p) && p@ == m@),
        r.working_dir == agent.session.working_dir,
        r.agents_md == agent.agents_md_snapshot,
{
    if 0 <= at < skills@.len() {
        assert(r.available_skills@[at].name == skills@[at].name);
    }
    if let Some(name) = agent.active_skill {
        skill_prompt_is_that_of_the_first(skills@, name@, at);
    }
}

/// A reminder of the current turn leaves the part that can be cached as it is. A blank one,
/// or none, leaves the other part too; any other one is put behind it, under its heading and
/// without the white space around it.
pub proof fn reminder_is_put_behind_the_changing_part(agent: Agent, split: &mut SplitSystemPrompt)
    requires
        call_ensures(Agent::append_current_turn_system_reminder, (&agent, split), ()),
    ensures
        final(split).static_part == old(split).static_part,
        agent.current_turn_system_reminder is None ==> final(split).dynamic_part@ == old(
            split,
        ).dynamic_part@,
        agent.current_turn_system_reminder matches Some(reminder) ==> {
            let told = trimmed(reminder@);
            &&& told.len() == 0 ==> final(split).dynamic_part@ == old(split).dynamic_part@
            &&& told.len() > 0 ==> final(split).dynamic_part@ == old(split).dynamic_part@ + (
            if old(split).dynamic_part@.len() > 0 {
                "\n\n"@
            } else {
                seq![]
            }) + "# System Reminder\n\n"@ + told
        },
{
    if let Some(reminder) = agent.current_turn_system_reminder {
        blank_is_trimmed_to_nothing(reminder@);
        let start = old(split).dynamic_part@;
        if start.len() == 0 {
            assert(start + Seq::<char>::empty() + "# System Reminder\n\n"@
                =~= "# System Reminder\n\n"@);
        }
    }
}

/// Overriding the options of an agent changes nothing else of it.
pub proof fn override_changes_the_options_alone(agent: &mut Agent, options: ContextOptions)
    requires
        call_ensures(Agent::set_security_graph_options, (agent, options), ()),
    ensures
        final(agent).security_graph_options == Some(options),
        final(agent).session == old(agent).session,
        final(agent).memory_enabled == old(agent).memory_enabled,
        final(agent).current_turn_system_reminder == old(agent).current_turn_system_reminder,
        final(agent).system_prompt_override == old(agent).system_prompt_override,
        final(agent).active_skill == old(agent).active_skill,
        final(agent).agents_md_snapshot == old(agent).agents_md_snapshot,
{
}

/// An override is the whole system prompt. Otherwise it is composed of its inputs, the
/// reminder of the current turn is put behind it, and what the model's effort asks for last.
pub proof fn system_prompt_is_composed_in_order<
    C: FnOnce(PromptInputs) -> SplitSystemPrompt,
    D: FnOnce(SplitSystemPrompt, Option<String>) -> SplitSystemPrompt,
>(
    agent: Agent,
    skills: Vec<Skill>,
    memory_prompt: Option<&str>,
    effort: Option<String>,
    compose: C,
    append_directive: D,
    r: SplitSystemPrompt,
)
    requires
        call_ensures(
            Agent::build_system_prompt_split::<C, D>,
            (&agent, &skills, memory_prompt, effort, compose, append_directive),
            r,
        ),
    ensures
        agent.system_prompt_override matches Some(prompt) ==> r.static_part@ == prompt@
            && r.dynamic_part@.len() == 0,
        agent.system_prompt_override is None ==> exists|
            inputs: PromptInputs,
            composed: SplitSystemPrompt,
            finished: SplitSystemPrompt,
        |
            {
                &&& #[trigger] inputs_of(agent, skills@, memory_prompt, inputs)
                &&& call_ensures(compose, (inputs,), composed)
                &&& #[trigger] reminded(agent, composed, finished)
                &&& call_ensures(append_directive, (finished, effort), r)
            },
{
}

// Sentences.

/// Every fault of a graph has its sentence, which names what it is about.
pub proof fn graph_errors_have_their_sentences(e: GraphError, r: String)
    requires
        call_ensures(GraphError::message, (&e,), r),
    ensures
        r@ == match e {
            GraphError::TooLarge => "security graph exceeds size limit"@,
            GraphError::InvalidJson => "invalid security graph JSON"@,
            GraphError::Unwritable => "security graph cannot be written as JSON"@,
            GraphError::UnsupportedSchema(version) => "unsupported security graph schema version "@
                + decimal(version as nat),
            GraphError::EmptyId => "security graph ID is empty"@,
            GraphError::EmptyDescription => "security graph description is empty"@,
            GraphError::NodeCount => "security graph must contain 1..100 nodes"@,
            GraphError::TooManyEdges => "security graph exceeds 300 edges"@,
            GraphError::TooManySources => "security graph exceeds 100 source files"@,
            GraphError::EmptyNodeId => "security node ID is empty"@,
            GraphError::DuplicateNode(id) => "duplicate security node ID: "@ + id@,
            GraphError::UndescribedNode(id) => "security node "@ + id@ + " has no description"@,
            GraphError::DanglingEdge(from, to) => "dangling security edge: "@ + from@ + " -> "@ + to@,
            GraphError::DuplicateEdge(from, to) => "duplicate security edge: "@ + from@ + " -> "@
                + to@,
            GraphError::UnsafePath(path) =>
                "source path must be repository-relative without parent traversal: "@ + debug_text(
                path@,
            ),
            GraphError::InvalidHash(path) => "invalid SHA-256 for "@ + path@,
            GraphError::ZeroLine => "evidence lines are 1-based"@,
        },
{
}

/// Every way in which a file gives no graph has its sentence, and so has every way in which
/// there is no context.
pub proof fn load_errors_have_their_sentences(e: LoadError, r: String, c: ContextError, s: String)
    requires
        call_ensures(LoadError::message, (&e,), r),
        call_ensures(ContextError::message, (&c,), s),
    ensures
        r@ == match e {
            LoadError::Io(said) => said@,
            LoadError::NotRegular => "security graph must be a regular file"@,
            LoadError::Unopened(path) => "reading security graph "@ + path@,
            LoadError::Refused { shown_path, .. } => "loading "@ + shown_path@,
        },
        c is WorkingDirectory ==> s@ == "resolving security context working directory"@,
        c is EmptyPath ==> s@ == "security graph path is empty"@,
        c is Discovery ==> s@ == "discovering security graph"@,
        c == ContextError::Graph(e) ==> s@ == r@,
        c is TooLarge ==> s@ == "security graph context exceeds "@ + decimal(16384)
            + " bytes; reduce the graph scope"@,
        c is Unwritable ==> s@ == "security context cannot be written as JSON"@,
{
}

/// The errors of sources, options and scans have their sentences, and the states of sources
/// their words.
pub proof fn other_errors_have_their_sentences(
    source: SourceError,
    a: String,
    state: SourceState,
    word: &'static str,
    options: OptionsError,
    b: String,
    scan: ScanError,
    c: String,
)
    requires
        call_ensures(SourceError::message, (&source,), a),
        call_ensures(SourceState::name, (&state,), word),
        call_ensures(OptionsError::message, (&options,), b),
        call_ensures(ScanError::message, (&scan,), c),
    ensures
        a@ == match source {
            SourceError::Escapes => "source evidence escapes repository"@,
            SourceError::NotRegular => "source evidence must be a regular file"@,
            SourceError::TooLarge => "source file exceeds hashing limit"@,
        },
        word@ == match state {
            SourceState::Untracked => "untracked"@,
            SourceState::Matches => "matches"@,
            SourceState::Changed => "changed"@,
            SourceState::Unavailable => "unavailable"@,
        },
        b@ == match options {
            OptionsError::UnknownSwitch =>
                "JCODE_SECURITY_GRAPH must be on/off, true/false, or 1/0"@,
            OptionsError::NotUnicode(shown) => "environment variable was not valid unicode: "@
                + shown@,
        },
        c@ == match scan {
            ScanError::MissingAnalyser(binary) => "JCODE_TAINT_BIN="@ + binary@
                + " does not exist"@,
            ScanError::Failed { binary, status, said } => binary@ + " exited with "@ + status@
                + ": "@ + said@,
            ScanError::OutsideTarget => "target file is outside the working directory"@,
            ScanError::NotUnicode => "path is not valid Unicode"@,
            ScanError::Broken(said) => said@,
        },
{
}

} // verus!
