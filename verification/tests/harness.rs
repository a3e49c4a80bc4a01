use preliminaries::assertions::{assert_equal, assert_equal_formatted, assert_true};
use preliminaries::engine::{run, run_all};
use preliminaries::outcome::{classify, Outcome, Signal, Termination};
use preliminaries::registry::{Registry, TestCase, TestCaseHandle};
use preliminaries::report::{RecordError, Report, ReportBuilder};
use preliminaries::reporter::{exit_status, render};
use preliminaries::text::{decimal_text, substitute};
use preliminaries::value::{format_all, Value};

type Procedure = fn() -> Termination;

fn completes() -> Termination {
    Termination::Returned
}

fn raises() -> Termination {
    Termination::Raised(Signal { message: Some("boom".to_string()) })
}

fn raises_silently() -> Termination {
    Termination::Raised(Signal { message: None })
}

fn aborts() -> Termination {
    Termination::Aborted
}

fn names(list: &[&str]) -> Vec<String> {
    list.iter().map(|n| n.to_string()).collect()
}

fn listed(report: &Report) -> Vec<(String, Outcome)> {
    report.entries().clone()
}

fn passed(name: &str) -> (String, Outcome) {
    (name.to_string(), Outcome::Passed)
}

#[test]
fn a_duplicate_name_is_refused_and_changes_nothing() {
    let mut registry: Registry<Procedure> = Registry::new();
    assert_eq!(registry.register("a".to_string(), completes, false).unwrap(), TestCaseHandle { index: 0 });
    assert_eq!(registry.register("b".to_string(), raises, true).unwrap(), TestCaseHandle { index: 1 });
    let error = registry.register("a".to_string(), aborts, true).unwrap_err();
    assert_eq!(error.name, "a");
    assert_eq!(registry.len(), 2);
    assert_eq!(registry.case_names(), names(&["a", "b"]));
    let first = registry.get(TestCaseHandle { index: 0 }).unwrap();
    assert!(!first.expect_abnormal_termination);
    assert!(matches!((first.procedure)(), Termination::Returned));
}

#[test]
fn the_registry_keeps_registration_order() {
    let mut registry: Registry<Procedure> = Registry::new();
    assert_eq!(registry.len(), 0);
    assert!(registry.get(TestCaseHandle { index: 0 }).is_none());
    for name in ["c", "a", "b"] {
        assert!(!registry.contains(&name.to_string()));
        registry.register(name.to_string(), completes, false).unwrap();
        assert!(registry.contains(&name.to_string()));
    }
    let once: Vec<&str> = registry.all().iter().map(|c| c.name.as_str()).collect();
    let again: Vec<&str> = registry.all().iter().map(|c| c.name.as_str()).collect();
    assert_eq!(once, vec!["c", "a", "b"]);
    assert_eq!(again, once);
    assert!(registry.get(TestCaseHandle { index: 3 }).is_none());
    assert_eq!(registry.get(TestCaseHandle { index: 2 }).unwrap().name, "b");
}

#[test]
fn a_normal_return_passes() {
    let case = TestCase { name: "t".to_string(), procedure: completes, expect_abnormal_termination: false };
    assert_eq!(run(&case), Outcome::Passed);
}

#[test]
fn an_expected_abnormal_termination_passes() {
    let case = TestCase { name: "t".to_string(), procedure: raises, expect_abnormal_termination: true };
    assert_eq!(run(&case), Outcome::Passed);
}

#[test]
fn a_missing_abnormal_termination_fails() {
    let case = TestCase { name: "t".to_string(), procedure: completes, expect_abnormal_termination: true };
    assert_eq!(
        run(&case),
        Outcome::Failed {
            message: "expected abnormal termination but procedure completed normally".to_string()
        }
    );
}

#[test]
fn an_unexpected_abnormal_termination_keeps_its_message() {
    let case = TestCase { name: "t".to_string(), procedure: raises, expect_abnormal_termination: false };
    assert_eq!(run(&case), Outcome::AbnormallyTerminated { message: "boom".to_string() });
    let silent =
        TestCase { name: "t".to_string(), procedure: raises_silently, expect_abnormal_termination: false };
    assert_eq!(run(&silent), Outcome::AbnormallyTerminated { message: "no message".to_string() });
}

#[test]
fn a_fatal_abort_is_classified_whatever_was_expected() {
    assert_eq!(classify(false, Termination::Aborted), Outcome::ProcessAborted);
    assert_eq!(classify(true, Termination::Aborted), Outcome::ProcessAborted);
    assert_eq!(classify(true, raises_silently()), Outcome::Passed);
}

#[test]
fn a_result_stands_for_a_termination() {
    assert_eq!(classify(false, Termination::from_result(Ok(()))), Outcome::Passed);
    let raised = Termination::from_result(Err(Signal { message: Some("m".to_string()) }));
    assert_eq!(classify(false, raised), Outcome::AbnormallyTerminated { message: "m".to_string() });
}

#[test]
fn equal_values_never_raise() {
    let values = vec![
        Value::Bool(true),
        Value::Bool(false),
        Value::Integer(0),
        Value::Integer(-7),
        Value::Integer(i64::MIN),
        Value::Text(String::new()),
        Value::Text("x≠y".to_string()),
    ];
    for x in values.iter() {
        assert!(assert_equal(x, x, None).is_ok());
        assert!(assert_equal(x, x, Some("with a message")).is_ok());
        assert!(assert_equal_formatted(x, x, "{}", &vec![Value::Integer(1)]).is_ok());
    }
}

#[test]
fn values_of_different_kinds_differ() {
    assert!(assert_equal(&Value::Integer(1), &Value::Text("1".to_string()), None).is_err());
    assert!(assert_equal(&Value::Bool(true), &Value::Text("true".to_string()), None).is_err());
    assert!(assert_equal(&Value::Bool(false), &Value::Integer(0), None).is_err());
    assert!(assert_equal(&Value::Text("a".to_string()), &Value::Text("b".to_string()), None).is_err());
}

#[test]
fn three_is_not_four() {
    let signal = assert_equal(&Value::Integer(3), &Value::Integer(4), None).unwrap_err();
    let message = signal.message.unwrap();
    assert!(message.contains('3'));
    assert!(message.contains('4'));
    assert_eq!(message, "expected 4, got 3");
}

#[test]
fn a_message_goes_in_front_of_the_values() {
    let signal =
        assert_equal(&Value::Integer(-3), &Value::Text("four".to_string()), Some("sizes")).unwrap_err();
    assert_eq!(signal.message.unwrap(), "sizes: expected four, got -3");
}

#[test]
fn a_template_takes_its_arguments_in_order() {
    let signal = assert_equal_formatted(
        &Value::Integer(1),
        &Value::Integer(2),
        "row {} of {} ({})",
        &vec![Value::Integer(5), Value::Text("table".to_string()), Value::Bool(false)],
    )
    .unwrap_err();
    assert_eq!(signal.message.unwrap(), "row 5 of table (false): expected 2, got 1");
}

#[test]
fn assert_true_raises_on_false_only() {
    assert!(assert_true(true, None).is_ok());
    assert!(assert_true(true, Some("unused")).is_ok());
    assert_eq!(
        assert_true(false, None).unwrap_err().message.unwrap(),
        "assertion failed: condition is false"
    );
    assert_eq!(assert_true(false, Some("must hold")).unwrap_err().message.unwrap(), "must hold");
}

#[test]
fn decimal_numerals() {
    assert_eq!(decimal_text(0), "0");
    assert_eq!(decimal_text(7), "7");
    assert_eq!(decimal_text(10), "10");
    assert_eq!(decimal_text(1234567890), "1234567890");
    assert_eq!(decimal_text(u64::MAX), "18446744073709551615");
}

#[test]
fn values_as_written() {
    let texts = format_all(&vec![
        Value::Bool(true),
        Value::Bool(false),
        Value::Integer(0),
        Value::Integer(42),
        Value::Integer(-1),
        Value::Integer(i64::MAX),
        Value::Integer(i64::MIN),
        Value::Text("as it stands".to_string()),
    ]);
    assert_eq!(
        texts,
        names(&[
            "true",
            "false",
            "0",
            "42",
            "-1",
            "9223372036854775807",
            "-9223372036854775808",
            "as it stands"
        ])
    );
    assert_eq!(Value::Integer(-120).format(), "-120");
    assert!(Value::Integer(5).same(&Value::Integer(5)));
    assert!(!Value::Integer(5).same(&Value::Integer(6)));
}

#[test]
fn substitution_fills_slots_from_the_left() {
    assert_eq!(substitute("", &names(&["x"])), "");
    assert_eq!(substitute("no slots", &names(&["x"])), "no slots");
    assert_eq!(substitute("{}", &names(&["x"])), "x");
    assert_eq!(substitute("a {} b {} c", &names(&["x", "yy"])), "a x b yy c");
    assert_eq!(substitute("{}{}", &names(&["x", "y", "unused"])), "xy");
    assert_eq!(substitute("{} and {}", &names(&["x"])), "x and {}");
    assert_eq!(substitute("{ } {", &names(&["x"])), "{ } {");
    assert_eq!(substitute("{{}}", &names(&["x"])), "{x}");
    assert_eq!(substitute("é≠{}≠é", &names(&["ü"])), "é≠ü≠é");
    assert_eq!(substitute("{}", &names(&["{}"])), "{}");
}

#[test]
fn the_report_is_in_registration_order_whatever_the_schedule() {
    let schedules: [[&str; 3]; 6] = [
        ["A", "B", "C"],
        ["A", "C", "B"],
        ["B", "A", "C"],
        ["B", "C", "A"],
        ["C", "A", "B"],
        ["C", "B", "A"],
    ];
    for schedule in schedules.iter() {
        let mut builder = ReportBuilder::begin(names(&["A", "B", "C"]));
        for name in schedule.iter() {
            let outcome = match *name {
                "A" => Outcome::Passed,
                "B" => Outcome::Failed { message: "b".to_string() },
                _ => Outcome::AbnormallyTerminated { message: "c".to_string() },
            };
            assert_eq!(builder.record(&name.to_string(), outcome), Ok(()));
        }
        let report = builder.finish();
        assert_eq!(
            listed(&report),
            vec![
                passed("A"),
                ("B".to_string(), Outcome::Failed { message: "b".to_string() }),
                ("C".to_string(), Outcome::AbnormallyTerminated { message: "c".to_string() }),
            ]
        );
        assert_eq!(report.passed(), 1);
        assert_eq!(report.failed(), 1);
        assert_eq!(report.abnormally_terminated(), 1);
        assert!(!report.truncated());
    }
}

#[test]
fn a_case_without_an_outcome_is_absent() {
    let mut builder = ReportBuilder::begin(names(&["A", "B", "C"]));
    assert_eq!(builder.record(&"C".to_string(), Outcome::Passed), Ok(()));
    let report = builder.finish();
    assert_eq!(listed(&report), vec![passed("C")]);
    assert_eq!(report.passed(), 1);
    assert_eq!(exit_status(&report), 0);
}

#[test]
fn an_empty_run() {
    let report = ReportBuilder::begin(Vec::new()).finish();
    assert!(listed(&report).is_empty());
    assert_eq!(exit_status(&report), 0);
    assert_eq!(render(&report), "passed: 0, failed: 0, abnormally terminated: 0\n");
}

#[test]
fn each_way_a_record_is_refused() {
    let mut builder = ReportBuilder::begin(names(&["A", "B", "C"]));
    assert_eq!(builder.record(&"D".to_string(), Outcome::Passed), Err(RecordError::UnknownCase));
    assert_eq!(builder.record(&"A".to_string(), Outcome::Passed), Ok(()));
    assert_eq!(
        builder.record(&"A".to_string(), Outcome::Failed { message: "late".to_string() }),
        Err(RecordError::AlreadyRecorded)
    );
    assert_eq!(builder.record(&"B".to_string(), Outcome::ProcessAborted), Ok(()));
    assert_eq!(builder.record(&"C".to_string(), Outcome::Passed), Err(RecordError::RunAborted));
    assert_eq!(builder.record(&"D".to_string(), Outcome::Passed), Err(RecordError::RunAborted));
    let report = builder.finish();
    assert_eq!(listed(&report), vec![passed("A"), ("B".to_string(), Outcome::ProcessAborted)]);
    assert!(report.truncated());
    assert_eq!(report.passed(), 1);
    assert_eq!(report.failed(), 0);
    assert_eq!(report.abnormally_terminated(), 0);
    assert_eq!(exit_status(&report), 1);
}

#[test]
fn a_failure_gives_status_one_and_shows_its_message() {
    let mut builder = ReportBuilder::begin(names(&["A", "B"]));
    builder.record(&"A".to_string(), Outcome::Passed).unwrap();
    builder.record(&"B".to_string(), Outcome::Failed { message: "x≠y".to_string() }).unwrap();
    let report = builder.finish();
    assert_eq!(exit_status(&report), 1);
    let text = render(&report);
    assert!(text.contains("x≠y"));
    assert_eq!(text, "A: passed\nB: failed: x≠y\npassed: 1, failed: 1, abnormally terminated: 0\n");
}

#[test]
fn only_passed_outcomes_give_status_zero() {
    let mut builder = ReportBuilder::begin(names(&["A", "B"]));
    builder.record(&"B".to_string(), Outcome::Passed).unwrap();
    builder.record(&"A".to_string(), Outcome::Passed).unwrap();
    let report = builder.finish();
    assert_eq!(exit_status(&report), 0);
    assert_eq!(render(&report), "A: passed\nB: passed\npassed: 2, failed: 0, abnormally terminated: 0\n");

    let mut builder = ReportBuilder::begin(names(&["A", "B"]));
    builder.record(&"A".to_string(), Outcome::Passed).unwrap();
    builder
        .record(&"B".to_string(), Outcome::AbnormallyTerminated { message: "m".to_string() })
        .unwrap();
    assert_eq!(exit_status(&builder.finish()), 1);
}

#[test]
fn a_run_in_registration_order() {
    let mut registry: Registry<Procedure> = Registry::new();
    registry.register("A".to_string(), completes, false).unwrap();
    registry.register("B".to_string(), raises, false).unwrap();
    registry.register("C".to_string(), completes, true).unwrap();
    registry.register("D".to_string(), raises, true).unwrap();
    let report = run_all(&registry);
    assert_eq!(
        render(&report),
        "A: passed\n\
         B: abnormally terminated: boom\n\
         C: failed: expected abnormal termination but procedure completed normally\n\
         D: passed\n\
         passed: 2, failed: 1, abnormally terminated: 1\n"
    );
    assert_eq!(exit_status(&report), 1);
    assert!(!report.truncated());
}

#[test]
fn a_run_of_passing_cases_has_status_zero() {
    let mut registry: Registry<Procedure> = Registry::new();
    registry.register("A".to_string(), completes, false).unwrap();
    registry.register("B".to_string(), raises_silently, true).unwrap();
    let report = run_all(&registry);
    assert_eq!(listed(&report), vec![passed("A"), passed("B")]);
    assert_eq!(exit_status(&report), 0);
}

#[test]
fn a_fatal_abort_cuts_the_run_short() {
    let mut registry: Registry<Procedure> = Registry::new();
    registry.register("A".to_string(), completes, false).unwrap();
    registry.register("B".to_string(), aborts, false).unwrap();
    registry.register("C".to_string(), completes, false).unwrap();
    let report = run_all(&registry);
    assert_eq!(listed(&report), vec![passed("A"), ("B".to_string(), Outcome::ProcessAborted)]);
    assert!(report.truncated());
    assert_ne!(exit_status(&report), 0);
    assert_eq!(
        render(&report),
        "A: passed\nB: process aborted\npassed: 1, failed: 0, abnormally terminated: 0, run aborted\n"
    );
}
