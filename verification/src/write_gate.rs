//! The refusal of a `write` or `edit` of a Python file that would introduce a taint
//! path. It fails open: a missing or broken analyser refuses nothing.

use vstd::prelude::*;

use crate::lint::{finding_views, gate, reason_text, Assessment, GateOutcome};

verus! {

/// A write that is refused.
#[derive(Debug, Clone, PartialEq, Eq)]
pub struct Refusal {
    /// What the writer is told.
    pub reason: String,
    /// What is logged.
    pub warning: String,
}

/// The file that a refusal is about: where the first new finding is.
pub open spec fn first_uri(assessment: Assessment) -> Seq<char> {
    if assessment.new_findings@.len() > 0 {
        assessment.new_findings@[0].uri@
    } else {
        seq![]
    }
}

/// The file that a refusal is about.
pub fn target_path_display(assessment: &Assessment) -> (r: String)
    ensures
        r@ == first_uri(*assessment),
{
    if assessment.new_findings.len() > 0 {
        assessment.new_findings[0].uri.clone()
    } else {
        String::new()
    }
}

/// The refusal of a proposed write, if it is refused. `assessment` is that of the
/// write; `None` where there is no working directory to assess it in, or where the
/// assessment was cut short.
pub fn python_write_refusal(assessment: Option<&Assessment>) -> (r: Option<Refusal>)
    ensures
        match r {
            Some(refusal) => assessment matches Some(a) && a.new_findings@.len() > 0
                && refusal.reason@ == reason_text(finding_views(a.new_findings@))
                && refusal.warning@
                == "[security-lint] blocked write introducing new taint findings: "@ + first_uri(
                *a,
            ),
            None => assessment matches Some(a) ==> a.new_findings@.len() == 0,
        },
{
    match assessment {
        None => None,
        Some(assessment) => match gate(assessment) {
            GateOutcome::Allow => None,
            GateOutcome::Deny { reason } => {
                let mut warning =
                    "[security-lint] blocked write introducing new taint findings: ".to_owned();
                warning.append(target_path_display(assessment).as_str());
                Some(Refusal { reason, warning })
            },
        },
    }
}

/// A refusal is about the file of its first finding.
pub proof fn refusal_is_about_its_first_finding(assessment: Assessment)
    ensures
        assessment.new_findings@.len() > 0 ==> first_uri(assessment)
            == assessment.new_findings@[0].uri@,
        assessment.new_findings@.len() == 0 ==> first_uri(assessment).len() == 0,
{
}

} // verus!
