use uebuild::errors::Error;
use uebuild::process::{complete_run, exit_outcome, stderr_tag, ProcessInvocation};

fn strings(v: &[&str]) -> Vec<String> {
    v.iter().map(|s| s.to_string()).collect()
}

#[test]
fn run_with_zero_exit_succeeds_and_keeps_output_order() {
    let out = strings(&["first", "second", "third"]);
    let err = strings(&["warning"]);
    let (relayed, marked, outcome) = complete_run(0, out.clone(), err);
    assert!(outcome.is_ok());
    assert_eq!(relayed, out);
    assert_eq!(marked, strings(&["[ERROR] warning"]));
}

#[test]
fn run_with_nonzero_exit_carries_exact_code() {
    let (_, _, outcome) = complete_run(7, strings(&["partial"]), Vec::new());
    assert!(matches!(outcome, Err(Error::NonZeroExit(7))));
}

#[test]
fn exit_outcome_is_success_only_on_zero() {
    assert!(exit_outcome(0).is_ok());
    assert!(matches!(exit_outcome(-1), Err(Error::NonZeroExit(-1))));
    assert!(matches!(exit_outcome(101), Err(Error::NonZeroExit(101))));
}

#[test]
fn stderr_lines_are_marked() {
    assert_eq!(stderr_tag("boom").as_str(), "[ERROR] boom");
}

#[test]
fn log_line_names_program_arguments_and_directory() {
    let mut inv = ProcessInvocation::new("prog".to_string(), Some("/work".to_string()));
    inv.arg("alpha".to_string());
    inv.arg("beta".to_string());
    assert_eq!(inv.log_line().as_str(), "Executing \"prog alpha beta\" in Some(\"/work\")");
}

#[test]
fn log_line_without_directory() {
    let mut inv = ProcessInvocation::new("chmod".to_string(), None);
    inv.arg("777".to_string());
    assert_eq!(inv.log_line().as_str(), "Executing \"chmod 777\" in None");
}
