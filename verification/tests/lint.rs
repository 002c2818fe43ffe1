//! The policy for writes of Python files.

use jcode_security::lint::{
    assess_python_write, compare_scans, format_reason, gate, is_python, Assessment, Finding,
    GateOutcome, Scans,
};
use jcode_security::scan::{
    accept_run, admit_target, copy_step, parse_sarif, resolve_binary, scan_target, CopyStep,
    PathPart, SarifLocation, SarifLog, SarifResult, SarifRun, ScanError,
};
use jcode_security::write_gate::{python_write_refusal, target_path_display};

fn finding(rule: &str, line: u64) -> Finding {
    Finding {
        rule_id: rule.into(),
        message: "tainted data reaches `eval`".into(),
        uri: "app.py".into(),
        line,
        column: 5,
    }
}

fn result(rule: &str, locations: Vec<SarifLocation>) -> SarifResult {
    SarifResult { rule_id: rule.into(), message: "tainted data reaches `eval`".into(), locations }
}

fn at(uri: &str, line: u64, column: u64) -> SarifLocation {
    SarifLocation { uri: uri.into(), line, column: Some(column) }
}

#[test]
fn parses_sarif_results() {
    let log = SarifLog {
        runs: vec![SarifRun { results: vec![result("PYTAINT001", vec![at("app.py", 10, 5)])] }],
    };
    let findings = parse_sarif(&log);
    assert_eq!(findings.len(), 1);
    assert_eq!(findings[0].rule_id, "PYTAINT001");
    assert_eq!(findings[0].uri, "app.py");
    assert_eq!(findings[0].line, 10);
    assert_eq!(findings[0], finding("PYTAINT001", 10));
}

#[test]
fn results_count_at_their_first_location_and_not_without_one() {
    let log = SarifLog {
        runs: vec![
            SarifRun {
                results: vec![
                    result("A", vec![]),
                    result("B", vec![at("x.py", 1, 2), at("y.py", 3, 4)]),
                ],
            },
            SarifRun { results: vec![] },
            SarifRun {
                results: vec![result(
                    "C",
                    vec![SarifLocation { uri: "z.py".into(), line: 9, column: None }],
                )],
            },
        ],
    };
    let told: Vec<String> = parse_sarif(&log).iter().map(|f| f.text()).collect();
    assert_eq!(
        told,
        [
            "x.py:1:2: [B] tainted data reaches `eval`",
            "z.py:9:0: [C] tainted data reaches `eval`"
        ]
    );
    assert!(parse_sarif(&SarifLog { runs: vec![] }).is_empty());
}

#[test]
fn non_python_files_are_not_applicable() {
    let scans = Scans { baseline: vec![], candidate: vec![finding("A", 1)] };
    let assessment = assess_python_write(Some("rs"), Some(&scans));
    assert!(assessment.new_findings.is_empty());
    assert!(assess_python_write(None, Some(&scans)).new_findings.is_empty());
    assert!(assess_python_write(Some("PY"), Some(&scans)).new_findings.is_empty());
    assert_eq!(assess_python_write(Some("py"), Some(&scans)).new_findings.len(), 1);
    assert!(is_python(Some("py")));
    assert!(!is_python(Some("pyc")));
}

#[test]
fn missing_binary_fails_open() {
    let missing = resolve_binary(Some("/nonexistent/tiny_taint".into()), false);
    assert_eq!(missing, Err(ScanError::MissingAnalyser("/nonexistent/tiny_taint".into())));
    assert_eq!(
        missing.unwrap_err().message(),
        "JCODE_TAINT_BIN=/nonexistent/tiny_taint does not exist"
    );
    let binary = resolve_binary(Some("/nonexistent/tiny_taint".into()), false);
    let scans = scan_target(binary, true, Some(&vec![PathPart::Name]), |_| {
        panic!("nothing is scanned without an analyser")
    });
    assert!(scans.is_err());
    let assessment = assess_python_write(Some("py"), scans.as_ref().ok());
    assert!(assessment.new_findings.is_empty(), "must fail open");
}

#[test]
fn the_configured_analyser_is_run_where_it_exists() {
    assert_eq!(resolve_binary(Some("/bin/taint".into()), true), Ok("/bin/taint".to_string()));
    assert_eq!(resolve_binary(None, false), Ok("tiny_taint".to_string()));
    assert_eq!(accept_run("taint", true, "exit status: 0", "noise"), Ok(()));
    assert_eq!(
        accept_run("taint", false, "exit status: 2", "no such file").unwrap_err().message(),
        "taint exited with exit status: 2: no such file"
    );
}

#[test]
fn only_targets_below_the_working_directory_are_scanned() {
    let inside = vec![PathPart::Name, PathPart::Name];
    let away = vec![PathPart::Away, PathPart::Name];
    assert_eq!(admit_target(true, Some(&inside)), Ok(()));
    assert_eq!(admit_target(true, Some(&away)), Err(ScanError::OutsideTarget));
    assert_eq!(admit_target(true, None), Err(ScanError::OutsideTarget));
    // What climbs and stays inside is admitted.
    let name = PathPart::Name;
    let up = PathPart::Away;
    assert_eq!(admit_target(true, Some(&vec![name, up, name])), Ok(()));
    assert_eq!(admit_target(true, Some(&vec![PathPart::Here, name])), Ok(()));
    assert_eq!(admit_target(true, Some(&vec![])), Ok(()));
    assert_eq!(
        admit_target(true, Some(&vec![name, up, up, name, name])),
        Err(ScanError::OutsideTarget)
    );
    assert_eq!(
        admit_target(true, Some(&vec![name, PathPart::Root, name])),
        Err(ScanError::OutsideTarget)
    );
    assert_eq!(admit_target(false, Some(&inside)), Err(ScanError::NotUnicode));
    assert_eq!(
        ScanError::OutsideTarget.message(),
        "target file is outside the working directory"
    );
    assert_eq!(ScanError::NotUnicode.message(), "path is not valid Unicode");
    for (unicode, parts) in [(true, Some(&away)), (true, None), (false, Some(&inside))] {
        let scans = scan_target(Ok("taint".into()), unicode, parts, |_| {
            panic!("a refused target is not scanned")
        });
        assert!(scans.is_err());
    }
    let scans = scan_target(Ok("taint".into()), true, Some(&inside), |analyser| {
        assert_eq!(analyser, "taint");
        Ok(Scans { baseline: vec![], candidate: vec![finding("A", 1)] })
    });
    assert_eq!(scans.unwrap().candidate.len(), 1);
    let broken = scan_target(Ok("taint".into()), true, Some(&inside), |_| {
        Err(ScanError::Broken("disk full".into()))
    });
    assert_eq!(broken.unwrap_err().message(), "disk full");
}

#[test]
fn only_what_a_write_introduces_counts() {
    let scans = Scans {
        baseline: vec![finding("A", 1), finding("B", 2)],
        candidate: vec![finding("C", 3), finding("B", 2), finding("A", 4), finding("C", 3)],
    };
    let new = compare_scans(&scans).new_findings;
    assert_eq!(new, [finding("C", 3), finding("A", 4), finding("C", 3)]);
    let same = Scans { baseline: scans.candidate.clone(), candidate: scans.candidate.clone() };
    assert!(compare_scans(&same).new_findings.is_empty());
}

#[test]
fn a_write_is_refused_exactly_for_new_findings() {
    assert_eq!(gate(&Assessment::empty()), GateOutcome::Allow);
    assert_eq!(gate(&Assessment::default()), GateOutcome::Allow);
    let assessment = Assessment { new_findings: vec![finding("A", 1), finding("B", 22)] };
    let reason = "blocked: this write introduces new taint-analysis findings (tiny_taint) not present in the project before:\n  - app.py:1:5: [A] tainted data reaches `eval`\n  - app.py:22:5: [B] tainted data reaches `eval`\nFix the flagged data flow (e.g. sanitize/validate before it reaches the sink) and retry the write.";
    assert_eq!(gate(&assessment), GateOutcome::Deny { reason: reason.into() });
    assert_eq!(format_reason(&assessment.new_findings), reason);
    let refusal = python_write_refusal(Some(&assessment)).unwrap();
    assert_eq!(refusal.reason, reason);
    assert_eq!(
        refusal.warning,
        "[security-lint] blocked write introducing new taint findings: app.py"
    );
    assert_eq!(python_write_refusal(Some(&Assessment::empty())), None);
    assert_eq!(python_write_refusal(None), None);
    assert_eq!(target_path_display(&assessment), "app.py");
    assert_eq!(target_path_display(&Assessment::empty()), "");
}

#[test]
fn the_copy_for_a_scan_leaves_out_what_is_no_source() {
    for name in [
        ".git", "__pycache__", ".mypy_cache", ".pytest_cache", "venv", ".venv", "node_modules",
        "target",
    ] {
        assert_eq!(copy_step(true, false, name), CopyStep::Skip, "{name}");
        assert_eq!(copy_step(false, true, name), CopyStep::Copy, "{name}");
    }
    assert_eq!(copy_step(true, false, "src"), CopyStep::Descend);
    assert_eq!(copy_step(true, false, "targets"), CopyStep::Descend);
    assert_eq!(copy_step(false, true, "app.py"), CopyStep::Copy);
    // A link is neither.
    assert_eq!(copy_step(false, false, "app.py"), CopyStep::Skip);
}
