//! The security policy for writes of Python files: what a proposed write adds to
//! the findings of a taint analysis, and whether it may proceed.

use vstd::prelude::*;

use crate::text::{decimal, occurs_at, same_text, to_decimal};

verus! {

/// One taint-analysis finding: what is needed to compare two scans and to explain
/// a refusal.
#[derive(Debug, Clone, PartialEq, Eq, Hash)]
pub struct Finding {
    pub rule_id: String,
    pub message: String,
    pub uri: String,
    pub line: u64,
    pub column: u64,
}

/// What a [`Finding`] says.
pub struct FindingView {
    pub rule_id: Seq<char>,
    pub message: Seq<char>,
    pub uri: Seq<char>,
    pub line: u64,
    pub column: u64,
}

impl View for Finding {
    type V = FindingView;

    open spec fn view(&self) -> FindingView {
        FindingView {
            rule_id: self.rule_id@,
            message: self.message@,
            uri: self.uri@,
            line: self.line,
            column: self.column,
        }
    }
}

/// What a list of findings says.
pub open spec fn finding_views(findings: Seq<Finding>) -> Seq<FindingView> {
    findings.map_values(|f: Finding| f@)
}

/// The line for a finding.
pub open spec fn finding_text(f: FindingView) -> Seq<char> {
    f.uri + ":"@ + decimal(f.line as nat) + ":"@ + decimal(f.column as nat) + ": ["@ + f.rule_id
        + "] "@ + f.message
}

impl Finding {
    /// The line for a finding.
    pub fn text(&self) -> (r: String)
        ensures
            r@ == finding_text(self@),
    {
        let mut out = self.uri.clone();
        out.append(":");
        out.append(to_decimal(self.line).as_str());
        out.append(":");
        out.append(to_decimal(self.column).as_str());
        out.append(": [");
        out.append(self.rule_id.as_str());
        out.append("] ");
        out.append(self.message.as_str());
        out
    }

    /// Whether two findings are the same.
    pub fn same(&self, other: &Finding) -> (r: bool)
        ensures
            r == (self@ == other@),
    {
        self.line == other.line && self.column == other.column && same_text(
            self.rule_id.as_str(),
            other.rule_id.as_str(),
        ) && same_text(self.message.as_str(), other.message.as_str()) && same_text(
            self.uri.as_str(),
            other.uri.as_str(),
        )
    }
}

/// What comparing a scan of the project as it is with one of the project as it
/// would be comes to.
#[derive(Debug, Clone)]
pub struct Assessment {
    /// Findings of the second scan that the first does not have: what the write
    /// under consideration introduces.
    pub new_findings: Vec<Finding>,
}

impl Default for Assessment {
    fn default() -> (r: Assessment)
        ensures
            r.new_findings@.len() == 0,
    {
        Assessment { new_findings: Vec::new() }
    }
}

impl Assessment {
    /// Nothing new.
    pub fn empty() -> (r: Assessment)
        ensures
            r.new_findings@.len() == 0,
    {
        Assessment { new_findings: Vec::new() }
    }
}

/// Whether a write may proceed. A refusal is the whole of it: the writer sees the reason
/// and can try again with a fix.
#[derive(Debug, Clone, PartialEq, Eq)]
pub enum GateOutcome {
    Allow,
    Deny { reason: String },
}

/// The lines for findings, each set in and ended.
pub open spec fn reason_lines(findings: Seq<FindingView>) -> Seq<char>
    decreases findings.len(),
{
    if findings.len() == 0 {
        seq![]
    } else {
        reason_lines(findings.drop_last()) + "  - "@ + finding_text(findings.last()) + "\n"@
    }
}

/// The reason for refusing a write that introduces the findings.
pub open spec fn reason_text(findings: Seq<FindingView>) -> Seq<char> {
    "blocked: this write introduces new taint-analysis findings (tiny_taint) not present in the project before:\n"@
        + reason_lines(findings)
        + "Fix the flagged data flow (e.g. sanitize/validate before it reaches the sink) and retry the write."@
}

/// The reason for refusing a write that introduces the findings.
pub fn format_reason(findings: &[Finding]) -> (r: String)
    ensures
        r@ == reason_text(finding_views(findings@)),
{
    let ghost head =
        "blocked: this write introduces new taint-analysis findings (tiny_taint) not present in the project before:\n"@;
    let ghost all = finding_views(findings@);
    let mut out =
        "blocked: this write introduces new taint-analysis findings (tiny_taint) not present in the project before:\n".to_owned();
    let mut i: usize = 0;
    assert(all.take(0) =~= seq![]);
    assert(out@ =~= head + reason_lines(all.take(0)));
    while i < findings.len()
        invariant
            all == finding_views(findings@),
            i <= findings@.len(),
            out@ == head + reason_lines(all.take(i as int)),
        decreases findings.len() - i,
    {
        assert(all.take(i + 1).drop_last() =~= all.take(i as int));
        assert(all.take(i + 1).last() == findings@[i as int]@);
        out.append("  - ");
        out.append(findings[i].text().as_str());
        out.append("\n");
        i += 1;
        assert(out@ =~= head + reason_lines(all.take(i as int)));
    }
    assert(all.take(i as int) =~= all);
    out.append(
        "Fix the flagged data flow (e.g. sanitize/validate before it reaches the sink) and retry the write.",
    );
    out
}

/// Allows a write that introduces nothing, and refuses any other.
pub fn gate(assessment: &Assessment) -> (r: GateOutcome)
    ensures
        match r {
            GateOutcome::Allow => assessment.new_findings@.len() == 0,
            GateOutcome::Deny { reason } => assessment.new_findings@.len() > 0 && reason@
                == reason_text(finding_views(assessment.new_findings@)),
        },
{
    if assessment.new_findings.len() == 0 {
        return GateOutcome::Allow;
    }
    GateOutcome::Deny { reason: format_reason(assessment.new_findings.as_slice()) }
}

/// The findings of two scans: of the project as it is, and of the project with one
/// file replaced by what is to be written.
#[derive(Debug, Clone)]
pub struct Scans {
    pub baseline: Vec<Finding>,
    pub candidate: Vec<Finding>,
}

/// The findings that the candidate has and the baseline has not, in order.
pub open spec fn introduced(baseline: Seq<FindingView>, candidate: Seq<FindingView>) -> Seq<
    FindingView,
> {
    candidate.filter(|f: FindingView| !baseline.contains(f))
}

fn has_finding(findings: &Vec<Finding>, finding: &Finding) -> (r: bool)
    ensures
        r == finding_views(findings@).contains(finding@),
{
    let ghost all = finding_views(findings@);
    let mut i: usize = 0;
    while i < findings.len()
        invariant
            all == finding_views(findings@),
            i <= findings@.len(),
            forall|j: int| 0 <= j < i ==> (#[trigger] all[j]) != finding@,
        decreases findings.len() - i,
    {
        assert(all[i as int] == findings@[i as int]@);
        if findings[i].same(finding) {
            return true;
        }
        i += 1;
    }
    false
}

fn copy_finding(finding: &Finding) -> (r: Finding)
    ensures
        r@ == finding@,
{
    Finding {
        rule_id: finding.rule_id.clone(),
        message: finding.message.clone(),
        uri: finding.uri.clone(),
        line: finding.line,
        column: finding.column,
    }
}

/// What two scans say of the write between them.
pub fn compare_scans(scans: &Scans) -> (r: Assessment)
    ensures
        finding_views(r.new_findings@) == introduced(
            finding_views(scans.baseline@),
            finding_views(scans.candidate@),
        ),
{
    let ghost known = finding_views(scans.baseline@);
    let ghost all = finding_views(scans.candidate@);
    let ghost is_new = |f: FindingView| !known.contains(f);
    let mut new_findings: Vec<Finding> = Vec::new();
    let mut i: usize = 0;
    proof {
        reveal(Seq::filter);
        assert(finding_views(new_findings@) =~= all.take(0).filter(is_new));
    }
    while i < scans.candidate.len()
        invariant
            known == finding_views(scans.baseline@),
            all == finding_views(scans.candidate@),
            is_new == (|f: FindingView| !known.contains(f)),
            i <= scans.candidate@.len(),
            finding_views(new_findings@) == all.take(i as int).filter(is_new),
        decreases scans.candidate.len() - i,
    {
        let finding = &scans.candidate[i];
        proof {
            reveal(Seq::filter);
            assert(all.take(i + 1).drop_last() =~= all.take(i as int));
            assert(all.take(i + 1).last() == finding@);
        }
        if !has_finding(&scans.baseline, finding) {
            let ghost before = new_findings@;
            new_findings.push(copy_finding(finding));
            assert(finding_views(new_findings@) =~= finding_views(before).push(finding@));
        }
        i += 1;
    }
    assert(all.take(i as int) =~= all);
    Assessment { new_findings }
}

/// Whether the file extension is that of a Python file, the one kind that is analysed.
pub fn is_python(extension: Option<&str>) -> (r: bool)
    ensures
        r == (extension matches Some(e) && e@ == "py"@),
{
    match extension {
        Some(e) => same_text(e, "py"),
        None => false,
    }
}

/// Assesses a proposed write to a file with the given extension. `scans` are the
/// findings before and after; `None` where the analyser could not run.
///
/// Fails open: a missing or broken analyser means no policy, not that every write
/// is refused.
pub fn assess_python_write(extension: Option<&str>, scans: Option<&Scans>) -> (r: Assessment)
    ensures
        finding_views(r.new_findings@) == match (extension, scans) {
            (Some(e), Some(scans)) => if e@ == "py"@ {
                introduced(finding_views(scans.baseline@), finding_views(scans.candidate@))
            } else {
                seq![]
            },
            _ => seq![],
        },
{
    let none = Assessment::empty();
    assert(finding_views(none.new_findings@) =~= seq![]);
    if !is_python(extension) {
        return none;
    }
    match scans {
        Some(scans) => compare_scans(scans),
        None => none,
    }
}

/// A write is refused exactly for what it introduces: each finding that is told
/// was found after it and not before.
pub proof fn introduced_is_new(baseline: Seq<FindingView>, candidate: Seq<FindingView>, f: FindingView)
    ensures
        introduced(baseline, candidate).contains(f) <==> candidate.contains(f)
            && !baseline.contains(f),
{
    let is_new = |f: FindingView| !baseline.contains(f);
    if introduced(baseline, candidate).contains(f) {
        let i = choose|i: int|
            0 <= i < introduced(baseline, candidate).len() && introduced(baseline, candidate)[i]
                == f;
        candidate.lemma_filter_pred(is_new, i);
        candidate.lemma_filter_contains_rev(is_new, f);
    }
    if candidate.contains(f) && !baseline.contains(f) {
        let i = choose|i: int| 0 <= i < candidate.len() && candidate[i] == f;
        candidate.lemma_filter_contains(is_new, i);
    }
}

/// A write that leaves the findings of a project within those it had is allowed.
pub proof fn nothing_new_is_allowed(baseline: Seq<FindingView>, candidate: Seq<FindingView>)
    requires
        forall|f: FindingView| #[trigger] candidate.contains(f) ==> baseline.contains(f),
    ensures
        introduced(baseline, candidate).len() == 0,
{
    if introduced(baseline, candidate).len() > 0 {
        let f = introduced(baseline, candidate)[0];
        assert(introduced(baseline, candidate).contains(f));
        introduced_is_new(baseline, candidate, f);
    }
}

/// A write that leads to a finding that was not there is refused.
pub proof fn something_new_is_refused(
    baseline: Seq<FindingView>,
    candidate: Seq<FindingView>,
    f: FindingView,
)
    requires
        candidate.contains(f),
        !baseline.contains(f),
    ensures
        introduced(baseline, candidate).len() > 0,
{
    introduced_is_new(baseline, candidate, f);
}

/// What a write introduces stands in the order of the second scan, each time that it is
/// found there.
pub proof fn introduced_keeps_the_order(
    baseline: Seq<FindingView>,
    a: Seq<FindingView>,
    b: Seq<FindingView>,
    f: FindingView,
)
    ensures
        introduced(baseline, a + b) == introduced(baseline, a) + introduced(baseline, b),
        introduced(baseline, seq![f]) == if baseline.contains(f) {
            seq![]
        } else {
            seq![f]
        },
    decreases b.len(),
{
    reveal(Seq::filter);
    reveal_with_fuel(Seq::filter, 2);
    let one = seq![f];
    assert(one.drop_last() =~= seq![]);
    assert(one.last() == f);
    assert(introduced(baseline, one) =~= if baseline.contains(f) {
        seq![]
    } else {
        seq![f]
    });
    if b.len() == 0 {
        assert(a + b =~= a);
        assert(introduced(baseline, a) + introduced(baseline, b) =~= introduced(baseline, a));
    } else {
        introduced_keeps_the_order(baseline, a, b.drop_last(), f);
        assert((a + b).drop_last() =~= a + b.drop_last());
        assert((a + b).last() == b.last());
        assert(introduced(baseline, a + b) =~= introduced(baseline, a) + introduced(baseline, b));
    }
}

proof fn lemma_lines_join(a: Seq<FindingView>, b: Seq<FindingView>)
    ensures
        reason_lines(a + b) == reason_lines(a) + reason_lines(b),
    decreases b.len(),
{
    if b.len() == 0 {
        assert(a + b =~= a);
        assert(reason_lines(a) + reason_lines(b) =~= reason_lines(a));
    } else {
        lemma_lines_join(a, b.drop_last());
        assert((a + b).drop_last() =~= a + b.drop_last());
        assert((a + b).last() == b.last());
        assert(reason_lines(a + b) =~= reason_lines(a) + reason_lines(b));
    }
}

/// A refusal tells every finding, on a line of its own that begins with a dash.
pub proof fn refusal_tells_every_finding(findings: Seq<FindingView>, at: int) -> (place: int)
    requires
        0 <= at < findings.len(),
    ensures
        occurs_at(
            reason_text(findings),
            "  - "@ + finding_text(findings[at]) + "\n"@,
            place,
        ),
{
    let before = findings.take(at);
    let here = seq![findings[at]];
    let after = findings.skip(at + 1);
    let line = "  - "@ + finding_text(findings[at]) + "\n"@;
    assert(findings =~= before + here + after);
    lemma_lines_join(before + here, after);
    lemma_lines_join(before, here);
    reveal_with_fuel(reason_lines, 2);
    assert(here.drop_last() =~= seq![]);
    assert(reason_lines(here) =~= line);
    let head =
        "blocked: this write introduces new taint-analysis findings (tiny_taint) not present in the project before:\n"@;
    let tail =
        "Fix the flagged data flow (e.g. sanitize/validate before it reaches the sink) and retry the write."@;
    let place = (head + reason_lines(before)).len() as int;
    assert(reason_text(findings) =~= head + reason_lines(before) + line + (reason_lines(after)
        + tail));
    assert(reason_text(findings).subrange(place, place + line.len()) =~= line);
    place
}

/// A refusal tells its findings in order and nothing else between its first and its last
/// sentence, one line for each.
pub proof fn refusal_is_made_of_its_lines(a: Seq<FindingView>, b: Seq<FindingView>, f: FindingView)
    ensures
        reason_lines(a + b) == reason_lines(a) + reason_lines(b),
        reason_lines(seq![f]) == "  - "@ + finding_text(f) + "\n"@,
        reason_lines(Seq::<FindingView>::empty()) == Seq::<char>::empty(),
        reason_text(a)
            == "blocked: this write introduces new taint-analysis findings (tiny_taint) not present in the project before:\n"@
            + reason_lines(a)
            + "Fix the flagged data flow (e.g. sanitize/validate before it reaches the sink) and retry the write."@,
{
    lemma_lines_join(a, b);
    reveal_with_fuel(reason_lines, 2);
    let here = seq![f];
    assert(here.drop_last() =~= seq![]);
    assert(reason_lines(here) =~= "  - "@ + finding_text(f) + "\n"@);
}

/// The line for a finding begins with where it is and ends with its rule and its message.
pub proof fn finding_line_tells_the_finding(f: FindingView)
    ensures
        (f.uri + ":"@ + decimal(f.line as nat) + ":"@ + decimal(f.column as nat)).is_prefix_of(
            finding_text(f),
        ),
        (": ["@ + f.rule_id + "] "@ + f.message).is_suffix_of(finding_text(f)),
        finding_text(f).len() == (f.uri + ":"@ + decimal(f.line as nat) + ":"@ + decimal(
            f.column as nat,
        )).len() + (": ["@ + f.rule_id + "] "@ + f.message).len(),
{
    let start = f.uri + ":"@ + decimal(f.line as nat) + ":"@ + decimal(f.column as nat);
    let end = ": ["@ + f.rule_id + "] "@ + f.message;
    let whole = finding_text(f);
    assert(whole =~= start + end);
    assert(whole.subrange(0, start.len() as int) =~= start);
    assert(whole.subrange(whole.len() - end.len(), whole.len() as int) =~= end);
}

} // verus!
