//! Running the taint analyser: which program, on which files, and what its report says.

use vstd::prelude::*;

use crate::lint::{finding_views, Finding, FindingView, Scans};
use crate::text::same_text;

verus! {

/// Why a scan did not come about.
#[derive(Debug, Clone, PartialEq, Eq)]
pub enum ScanError {
    /// The configured analyser does not exist.
    MissingAnalyser(String),
    /// The analyser ended without success: its name, its status and what it said.
    Failed { binary: String, status: String, said: String },
    /// The target is not below the working directory.
    OutsideTarget,
    /// The path of the working directory or of the target is not Unicode.
    NotUnicode,
    /// The project could not be copied, changed or scanned: what the system says of it.
    Broken(String),
}

/// The sentence for a configured analyser that does not exist.
pub open spec fn missing_text(binary: Seq<char>) -> Seq<char> {
    "JCODE_TAINT_BIN="@ + binary + " does not exist"@
}

/// The sentence for an analyser that ended without success.
pub open spec fn failed_text(binary: Seq<char>, status: Seq<char>, said: Seq<char>) -> Seq<char> {
    binary + " exited with "@ + status + ": "@ + said
}

impl ScanError {
    /// The sentence for an error.
    pub fn message(&self) -> (r: String)
        ensures
            match self {
                ScanError::MissingAnalyser(binary) => r@ == missing_text(binary@),
                ScanError::Failed { binary, status, said } => r@ == failed_text(
                    binary@,
                    status@,
                    said@,
                ),
                ScanError::OutsideTarget => r@ == "target file is outside the working directory"@,
                ScanError::NotUnicode => r@ == "path is not valid Unicode"@,
                ScanError::Broken(said) => r@ == said@,
            },
    {
        match self {
            ScanError::MissingAnalyser(binary) => {
                let mut out = "JCODE_TAINT_BIN=".to_owned();
                out.append(binary.as_str());
                out.append(" does not exist");
                out
            },
            ScanError::Failed { binary, status, said } => {
                let mut out = binary.clone();
                out.append(" exited with ");
                out.append(status.as_str());
                out.append(": ");
                out.append(said.as_str());
                out
            },
            ScanError::OutsideTarget => "target file is outside the working directory".to_owned(),
            ScanError::NotUnicode => "path is not valid Unicode".to_owned(),
            ScanError::Broken(said) => said.clone(),
        }
    }
}

/// The analyser to run. `configured` is the variable `JCODE_TAINT_BIN`, where it is
/// set to a Unicode text, and `exists` says whether that path exists; otherwise
/// `tiny_taint` is looked up like any program.
pub fn resolve_binary(configured: Option<String>, exists: bool) -> (r: Result<String, ScanError>)
    ensures
        match configured {
            None => r matches Ok(binary) && binary@ == "tiny_taint"@,
            Some(path) => if exists {
                r == Ok::<_, ScanError>(path)
            } else {
                r == Err::<String, _>(ScanError::MissingAnalyser(path))
            },
        },
{
    match configured {
        Some(path) => if exists {
            Ok(path)
        } else {
            Err(ScanError::MissingAnalyser(path))
        },
        None => Ok("tiny_taint".to_owned()),
    }
}

/// Whether the report of an analyser counts: only where it ended with success.
pub fn accept_run(binary: &str, success: bool, status: &str, said: &str) -> (r: Result<
    (),
    ScanError,
>)
    ensures
        match r {
            Ok(()) => success,
            Err(e) => !success && (e matches ScanError::Failed { binary: b, status: s, said: t }
                && b@ == binary@ && s@ == status@ && t@ == said@),
        },
{
    if success {
        Ok(())
    } else {
        Err(
            ScanError::Failed {
                binary: binary.to_owned(),
                status: status.to_owned(),
                said: said.to_owned(),
            },
        )
    }
}

/// A part of a target's path, relative to the working directory.
#[derive(Debug, Clone, Copy, PartialEq, Eq, Structural)]
pub enum PathPart {
    /// A name, which leads down.
    Name,
    /// `.`, which leads nowhere.
    Here,
    /// `..`, which leads up.
    Away,
    /// A root or a drive, from which the path begins anew.
    Root,
}

/// How far below the working directory the first `n` parts of a path lead.
pub open spec fn depth(parts: Seq<PathPart>, n: int) -> int
    decreases n,
{
    if n <= 0 {
        0
    } else {
        depth(parts, n - 1) + match parts[n - 1] {
            PathPart::Name => 1int,
            PathPart::Away => -1int,
            _ => 0int,
        }
    }
}

/// The target stays below the working directory: its path begins with that of the
/// working directory, and what follows, `parts`, never leads out of it.
pub open spec fn stays_inside(parts: Option<&Vec<PathPart>>) -> bool {
    parts matches Some(parts) && {
        &&& forall|i: int| 0 <= i < parts@.len() ==> (#[trigger] parts@[i]) != PathPart::Root
        &&& forall|n: int| 0 <= n <= parts@.len() ==> (#[trigger] depth(parts@, n)) >= 0
    }
}

/// Why a target is not scanned, if it is not. `unicode` says whether the paths of the
/// working directory and of the target are Unicode.
pub open spec fn target_fault(unicode: bool, parts: Option<&Vec<PathPart>>) -> Option<ScanError> {
    if !unicode {
        Some(ScanError::NotUnicode)
    } else if !stays_inside(parts) {
        Some(ScanError::OutsideTarget)
    } else {
        None
    }
}

/// Refuses a target that could not be replaced inside a copy of the working directory.
/// `parts` are what follows the working directory in the target's path, `None` where
/// that does not begin with the working directory.
pub fn admit_target(unicode: bool, parts: Option<&Vec<PathPart>>) -> (r: Result<(), ScanError>)
    ensures
        match r {
            Ok(()) => target_fault(unicode, parts) is None,
            Err(e) => target_fault(unicode, parts) == Some(e),
        },
        r is Ok <==> unicode && stays_inside(parts),
{
    if !unicode {
        return Err(ScanError::NotUnicode);
    }
    let rest = match parts {
        Some(parts) => parts,
        None => {
            return Err(ScanError::OutsideTarget);
        },
    };
    let mut below: usize = 0;
    let mut i: usize = 0;
    while i < rest.len()
        invariant
            parts == Some(rest),
            unicode,
            i <= rest@.len(),
            below <= i,
            below == depth(rest@, i as int),
            forall|j: int| 0 <= j < i ==> (#[trigger] rest@[j]) != PathPart::Root,
            forall|n: int| 0 <= n <= i ==> (#[trigger] depth(rest@, n)) >= 0,
        decreases rest.len() - i,
    {
        match rest[i] {
            PathPart::Name => {
                below += 1;
            },
            PathPart::Here => {},
            PathPart::Away => {
                if below == 0 {
                    assert(depth(rest@, i + 1) < 0);
                    return Err(ScanError::OutsideTarget);
                }
                below -= 1;
            },
            PathPart::Root => {
                assert(rest@[i as int] == PathPart::Root);
                return Err(ScanError::OutsideTarget);
            },
        }
        i += 1;
    }
    Ok(())
}

/// The scans of a project before and after its target is replaced. Without an analyser,
/// or with a target that is refused, nothing is scanned; otherwise they are what `scan`,
/// which is handed the analyser, comes to.
pub fn scan_target<F>(
    binary: Result<String, ScanError>,
    unicode: bool,
    parts: Option<&Vec<PathPart>>,
    scan: F,
) -> (r: Result<Scans, ScanError>) where F: FnOnce(String) -> Result<Scans, ScanError>
    requires
        forall|analyser: String| call_requires(scan, (analyser,)),
    ensures
        match binary {
            Err(e) => r == Err::<Scans, _>(e),
            Ok(analyser) => match target_fault(unicode, parts) {
                Some(e) => r == Err::<Scans, _>(e),
                None => call_ensures(scan, (analyser,), r),
            },
        },
{
    let analyser = match binary {
        Ok(analyser) => analyser,
        Err(e) => {
            return Err(e);
        },
    };
    match admit_target(unicode, parts) {
        Err(e) => Err(e),
        Ok(()) => scan(analyser),
    }
}

/// Directories that are never worth scanning: version control, dependencies, build
/// output and caches.
pub open spec fn is_skipped(name: Seq<char>) -> bool {
    ||| name == ".git"@
    ||| name == "__pycache__"@
    ||| name == ".mypy_cache"@
    ||| name == ".pytest_cache"@
    ||| name == "venv"@
    ||| name == ".venv"@
    ||| name == "node_modules"@
    ||| name == "target"@
}

/// Whether a directory is never worth scanning.
pub fn skips_directory(name: &str) -> (r: bool)
    ensures
        r == is_skipped(name@),
{
    same_text(name, ".git") || same_text(name, "__pycache__") || same_text(name, ".mypy_cache")
        || same_text(name, ".pytest_cache") || same_text(name, "venv") || same_text(name, ".venv")
        || same_text(name, "node_modules") || same_text(name, "target")
}

/// What is done with an entry of a directory that is copied for a scan.
#[derive(Debug, Clone, Copy, PartialEq, Eq, Structural)]
pub enum CopyStep {
    /// It is left out.
    Skip,
    /// It is copied as a directory, entry by entry.
    Descend,
    /// It is copied as a file.
    Copy,
}

/// What is done with an entry. What is neither a directory nor a file, such as a
/// link, is left out: it is not source text, and following it could leave the copy.
pub fn copy_step(directory: bool, file: bool, name: &str) -> (r: CopyStep)
    ensures
        r == if directory && is_skipped(name@) {
            CopyStep::Skip
        } else if directory {
            CopyStep::Descend
        } else if file {
            CopyStep::Copy
        } else {
            CopyStep::Skip
        },
{
    if directory {
        if skips_directory(name) {
            CopyStep::Skip
        } else {
            CopyStep::Descend
        }
    } else if file {
        CopyStep::Copy
    } else {
        CopyStep::Skip
    }
}

/// A place in a source file.
#[derive(Debug, Clone, PartialEq, Eq)]
pub struct SarifLocation {
    pub uri: String,
    pub line: u64,
    /// The column; the report may leave it out.
    pub column: Option<u64>,
}

/// A result of an analyser's report, with the places it is about.
#[derive(Debug, Clone, PartialEq, Eq)]
pub struct SarifResult {
    pub rule_id: String,
    pub message: String,
    pub locations: Vec<SarifLocation>,
}

/// A run of an analyser.
#[derive(Debug, Clone, PartialEq, Eq)]
pub struct SarifRun {
    pub results: Vec<SarifResult>,
}

/// An analyser's report: the parts of a SARIF log that make findings.
#[derive(Debug, Clone, PartialEq, Eq)]
pub struct SarifLog {
    pub runs: Vec<SarifRun>,
}

/// The finding of a result: at the first of its places, in column 0 where that has no
/// column. A result without a place is none.
pub open spec fn result_finding(result: SarifResult) -> Option<FindingView> {
    if result.locations@.len() == 0 {
        None
    } else {
        Some(
            FindingView {
                rule_id: result.rule_id@,
                message: result.message@,
                uri: result.locations@[0].uri@,
                line: result.locations@[0].line,
                column: match result.locations@[0].column {
                    Some(column) => column,
                    None => 0,
                },
            },
        )
    }
}

/// The findings of results, in order.
pub open spec fn result_findings(results: Seq<SarifResult>) -> Seq<FindingView>
    decreases results.len(),
{
    if results.len() == 0 {
        seq![]
    } else {
        let before = result_findings(results.drop_last());
        match result_finding(results.last()) {
            Some(f) => before.push(f),
            None => before,
        }
    }
}

/// The findings of runs, in order.
pub open spec fn run_findings(runs: Seq<SarifRun>) -> Seq<FindingView>
    decreases runs.len(),
{
    if runs.len() == 0 {
        seq![]
    } else {
        run_findings(runs.drop_last()) + result_findings(runs.last().results@)
    }
}

fn add_findings(findings: &mut Vec<Finding>, results: &Vec<SarifResult>)
    ensures
        finding_views(final(findings)@) == finding_views(old(findings)@) + result_findings(
            results@,
        ),
{
    let ghost before = finding_views(findings@);
    let mut i: usize = 0;
    assert(results@.take(0) =~= seq![]);
    assert(before =~= before + result_findings(results@.take(0)));
    while i < results.len()
        invariant
            i <= results@.len(),
            finding_views(findings@) == before + result_findings(results@.take(i as int)),
        decreases results.len() - i,
    {
        let result = &results[i];
        assert(results@.take(i + 1).drop_last() =~= results@.take(i as int));
        assert(results@.take(i + 1).last() == result);
        let ghost so_far = findings@;
        if result.locations.len() > 0 {
            let place = &result.locations[0];
            let finding = Finding {
                rule_id: result.rule_id.clone(),
                message: result.message.clone(),
                uri: place.uri.clone(),
                line: place.line,
                column: match place.column {
                    Some(column) => column,
                    None => 0,
                },
            };
            assert(result_finding(*result) == Some(finding@));
            findings.push(finding);
            assert(finding_views(findings@) =~= finding_views(so_far).push(finding@));
        }
        i += 1;
        assert(finding_views(findings@) =~= before + result_findings(results@.take(i as int)));
    }
    assert(results@.take(i as int) =~= results@);
}

/// The findings of an analyser's report: those of every run, in order.
pub fn parse_sarif(log: &SarifLog) -> (r: Vec<Finding>)
    ensures
        finding_views(r@) == run_findings(log.runs@),
{
    let mut findings: Vec<Finding> = Vec::new();
    let mut i: usize = 0;
    assert(log.runs@.take(0) =~= seq![]);
    assert(finding_views(findings@) =~= seq![]);
    while i < log.runs.len()
        invariant
            i <= log.runs@.len(),
            finding_views(findings@) == run_findings(log.runs@.take(i as int)),
        decreases log.runs.len() - i,
    {
        assert(log.runs@.take(i + 1).drop_last() =~= log.runs@.take(i as int));
        add_findings(&mut findings, &log.runs[i].results);
        i += 1;
    }
    assert(log.runs@.take(i as int) =~= log.runs@);
    findings
}

/// Every finding of a report is that of one of its results.
pub proof fn findings_come_from_results(results: Seq<SarifResult>, f: FindingView)
    ensures
        result_findings(results).contains(f) <==> exists|i: int|
            0 <= i < results.len() && result_finding(#[trigger] results[i]) == Some(f),
    decreases results.len(),
{
    if results.len() > 0 {
        let rest = results.drop_last();
        let before = result_findings(rest);
        findings_come_from_results(rest, f);
        if exists|i: int| 0 <= i < rest.len() && result_finding(#[trigger] rest[i]) == Some(f) {
            let i = choose|i: int|
                0 <= i < rest.len() && result_finding(#[trigger] rest[i]) == Some(f);
            assert(result_finding(results[i]) == Some(f));
        }
        if exists|i: int| 0 <= i < results.len() && result_finding(#[trigger] results[i]) == Some(
            f,
        ) {
            let i = choose|i: int|
                0 <= i < results.len() && result_finding(#[trigger] results[i]) == Some(f);
            if i < rest.len() {
                assert(result_finding(rest[i]) == Some(f));
            }
        }
        match result_finding(results.last()) {
            Some(g) => {
                assert(before.push(g)[before.len() as int] == g);
                if before.contains(f) {
                    let j = choose|j: int| 0 <= j < before.len() && before[j] == f;
                    assert(before.push(g)[j] == f);
                }
                if before.push(g).contains(f) {
                    let j = choose|j: int|
                        0 <= j < before.push(g).len() && before.push(g)[j] == f;
                    if j < before.len() {
                        assert(before[j] == f);
                    } else {
                        assert(result_finding(results[results.len() - 1]) == Some(f));
                    }
                }
            },
            None => {},
        }
    }
}

/// The finding is that of the result: what it says, at the first of its places.
pub open spec fn is_finding_of(f: FindingView, result: SarifResult) -> bool {
    &&& result.locations@.len() > 0
    &&& f.rule_id == result.rule_id@
    &&& f.message == result.message@
    &&& f.uri == result.locations@[0].uri@
    &&& f.line == result.locations@[0].line
    &&& f.column == match result.locations@[0].column {
        Some(column) => column,
        None => 0,
    }
}

/// How many results have a place.
pub open spec fn located(results: Seq<SarifResult>) -> nat {
    results.filter(|r: SarifResult| r.locations@.len() > 0).len()
}

/// How many results of the runs have a place.
pub open spec fn located_in_runs(runs: Seq<SarifRun>) -> nat
    decreases runs.len(),
{
    if runs.len() == 0 {
        0
    } else {
        located_in_runs(runs.drop_last()) + located(runs.last().results@)
    }
}

proof fn lemma_located(results: Seq<SarifResult>)
    ensures
        result_findings(results).len() == located(results),
    decreases results.len(),
{
    reveal(Seq::filter);
    if results.len() > 0 {
        lemma_located(results.drop_last());
    }
}

/// A finding is among those of a report exactly when some result of some run has it at the
/// first of its places, and there are as many findings as there are results with a place.
pub proof fn findings_are_those_of_every_run(runs: Seq<SarifRun>, f: FindingView)
    ensures
        run_findings(runs).contains(f) <==> exists|r: int, i: int|
            0 <= r < runs.len() && 0 <= i < runs[r].results@.len() && is_finding_of(
                f,
                #[trigger] runs[r].results@[i],
            ),
        run_findings(runs).len() == located_in_runs(runs),
    decreases runs.len(),
{
    if runs.len() > 0 {
        let rest = runs.drop_last();
        let results = runs.last().results@;
        let before = run_findings(rest);
        let found = result_findings(results);
        let n = runs.len() - 1;
        findings_are_those_of_every_run(rest, f);
        findings_come_from_results(results, f);
        lemma_located(results);
        if before.contains(f) {
            let (r, i) = choose|r: int, i: int|
                0 <= r < rest.len() && 0 <= i < rest[r].results@.len() && is_finding_of(
                    f,
                    #[trigger] rest[r].results@[i],
                );
            assert(is_finding_of(f, runs[r].results@[i]));
            let k = choose|k: int| 0 <= k < before.len() && before[k] == f;
            assert((before + found)[k] == f);
        }
        if found.contains(f) {
            let i = choose|i: int|
                0 <= i < results.len() && result_finding(#[trigger] results[i]) == Some(f);
            assert(is_finding_of(f, runs[n].results@[i]));
            let k = choose|k: int| 0 <= k < found.len() && found[k] == f;
            assert((before + found)[before.len() + k] == f);
        }
        if (before + found).contains(f) {
            let k = choose|k: int| 0 <= k < (before + found).len() && (before + found)[k] == f;
            if k < before.len() {
                assert(before[k] == f);
            } else {
                assert(found[k - before.len()] == f);
            }
        }
        if exists|r: int, i: int|
            0 <= r < runs.len() && 0 <= i < runs[r].results@.len() && is_finding_of(
                f,
                #[trigger] runs[r].results@[i],
            ) {
            let (r, i) = choose|r: int, i: int|
                0 <= r < runs.len() && 0 <= i < runs[r].results@.len() && is_finding_of(
                    f,
                    #[trigger] runs[r].results@[i],
                );
            if r < n {
                assert(is_finding_of(f, rest[r].results@[i]));
            } else {
                assert(result_finding(results[i]) == Some(f));
            }
        }
    }
}

proof fn lemma_results_join(a: Seq<SarifResult>, b: Seq<SarifResult>)
    ensures
        result_findings(a + b) == result_findings(a) + result_findings(b),
    decreases b.len(),
{
    if b.len() == 0 {
        assert(a + b =~= a);
        assert(result_findings(a) + result_findings(b) =~= result_findings(a));
    } else {
        lemma_results_join(a, b.drop_last());
        assert((a + b).drop_last() =~= a + b.drop_last());
        assert((a + b).last() == b.last());
        assert(result_findings(a + b) =~= result_findings(a) + result_findings(b));
    }
}

/// Findings stand in the order of the report: those of one part of the runs, or of the
/// results of a run, come before those of the next.
pub proof fn findings_stand_in_order(
    a: Seq<SarifRun>,
    b: Seq<SarifRun>,
    x: Seq<SarifResult>,
    y: Seq<SarifResult>,
    run: SarifRun,
    result: SarifResult,
)
    ensures
        run_findings(a + b) == run_findings(a) + run_findings(b),
        run.results@ == x + y ==> run_findings(seq![run]) == result_findings(x)
            + result_findings(y),
        result_findings(seq![result]).len() == if result.locations@.len() > 0 {
            1nat
        } else {
            0
        },
        result.locations@.len() > 0 ==> is_finding_of(result_findings(seq![result])[0], result),
    decreases b.len(),
{
    reveal_with_fuel(run_findings, 2);
    reveal_with_fuel(result_findings, 2);
    lemma_results_join(x, y);
    let one = seq![run];
    assert(one.drop_last() =~= seq![]);
    assert(one.last() == run);
    assert(Seq::<FindingView>::empty() + result_findings(run.results@) =~= result_findings(
        run.results@,
    ));
    let alone = seq![result];
    assert(alone.drop_last() =~= seq![]);
    assert(alone.last() == result);
    if b.len() == 0 {
        assert(a + b =~= a);
        assert(run_findings(a) + run_findings(b) =~= run_findings(a));
    } else {
        findings_stand_in_order(a, b.drop_last(), x, y, run, result);
        assert((a + b).drop_last() =~= a + b.drop_last());
        assert((a + b).last() == b.last());
        assert(run_findings(a + b) =~= run_findings(a) + run_findings(b));
    }
}

/// How many of the parts are the given one.
pub open spec fn count(parts: Seq<PathPart>, part: PathPart) -> nat {
    parts.filter(|p: PathPart| p == part).len()
}

proof fn lemma_depth_counts(parts: Seq<PathPart>, n: int)
    requires
        0 <= n <= parts.len(),
    ensures
        depth(parts, n) == count(parts.take(n), PathPart::Name) - count(
            parts.take(n),
            PathPart::Away,
        ),
    decreases n,
{
    reveal(Seq::filter);
    if n > 0 {
        lemma_depth_counts(parts, n - 1);
        assert(parts.take(n).drop_last() =~= parts.take(n - 1));
        assert(parts.take(n).last() == parts[n - 1]);
    } else {
        assert(parts.take(0) =~= seq![]);
    }
}

/// A target is admitted exactly when the paths are Unicode, its path begins with that of the
/// working directory, and what follows begins nowhere anew and never leads up further than
/// it has come down.
pub proof fn admitted_targets_never_climb_out(unicode: bool, parts: Option<&Vec<PathPart>>)
    ensures
        target_fault(unicode, parts) is None <==> unicode && (parts matches Some(p) && !p@.contains(
            PathPart::Root,
        ) && forall|n: int|
            0 <= n <= p@.len() ==> count(#[trigger] p@.take(n), PathPart::Away) <= count(
                p@.take(n),
                PathPart::Name,
            )),
        target_fault(unicode, parts) == Some(ScanError::NotUnicode) <==> !unicode,
        target_fault(unicode, parts) is Some && unicode ==> target_fault(unicode, parts) == Some(
            ScanError::OutsideTarget,
        ),
{
    if let Some(p) = parts {
        assert forall|n: int| 0 <= n <= p@.len() implies (#[trigger] depth(p@, n)) == count(
            p@.take(n),
            PathPart::Name,
        ) - count(p@.take(n), PathPart::Away) by {
            lemma_depth_counts(p@, n);
        }
        if stays_inside(parts) {
            assert forall|n: int| 0 <= n <= p@.len() implies count(
                #[trigger] p@.take(n),
                PathPart::Away,
            ) <= count(p@.take(n), PathPart::Name) by {
                assert(depth(p@, n) >= 0);
            }
            if p@.contains(PathPart::Root) {
                let i = choose|i: int| 0 <= i < p@.len() && p@[i] == PathPart::Root;
                assert(p@[i] != PathPart::Root);
            }
        }
        if !p@.contains(PathPart::Root) && forall|n: int|
            0 <= n <= p@.len() ==> count(#[trigger] p@.take(n), PathPart::Away) <= count(
                p@.take(n),
                PathPart::Name,
            ) {
            assert forall|n: int| 0 <= n <= p@.len() implies (#[trigger] depth(p@, n)) >= 0 by {
                assert(count(p@.take(n), PathPart::Away) <= count(p@.take(n), PathPart::Name));
            }
            assert forall|i: int| 0 <= i < p@.len() implies (#[trigger] p@[i])
                != PathPart::Root by {
                assert(p@.contains(p@[i]));
            }
        }
    }
}

/// Eight directories are left out of the copy for a scan, by their names, and no other.
pub proof fn eight_directories_are_skipped(name: Seq<char>)
    ensures
        is_skipped(name) <==> seq![
            ".git"@,
            "__pycache__"@,
            ".mypy_cache"@,
            ".pytest_cache"@,
            "venv"@,
            ".venv"@,
            "node_modules"@,
            "target"@,
        ].contains(name),
{
    let names = seq![
        ".git"@,
        "__pycache__"@,
        ".mypy_cache"@,
        ".pytest_cache"@,
        "venv"@,
        ".venv"@,
        "node_modules"@,
        "target"@,
    ];
    assert(names[0] == ".git"@ && names[1] == "__pycache__"@ && names[2] == ".mypy_cache"@);
    assert(names[3] == ".pytest_cache"@ && names[4] == "venv"@ && names[5] == ".venv"@);
    assert(names[6] == "node_modules"@ && names[7] == "target"@);
}

/// The sentences for scans that did not come about tell the analyser and what it said.
pub proof fn scan_sentences_tell_the_analyser(
    binary: Seq<char>,
    status: Seq<char>,
    said: Seq<char>,
)
    ensures
        missing_text(binary) == "JCODE_TAINT_BIN="@ + binary + " does not exist"@,
        (binary + " exited with "@ + status).is_prefix_of(failed_text(binary, status, said)),
        (": "@ + said).is_suffix_of(failed_text(binary, status, said)),
        failed_text(binary, status, said).len() == (binary + " exited with "@ + status).len() + (
        ": "@ + said).len(),
{
    let whole = failed_text(binary, status, said);
    let start = binary + " exited with "@ + status;
    let end = ": "@ + said;
    assert(whole =~= start + end);
    assert(whole.subrange(0, start.len() as int) =~= start);
    assert(whole.subrange(whole.len() - end.len(), whole.len() as int) =~= end);
}

} // verus!
