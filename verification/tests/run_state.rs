use rackit::config_engine::orchestrator::{AbortCause, Cursor, DeviceRun, Plan, RunPhase};
use rackit::config_engine::types::{CommandStep, ErrorAction, StepType};
use rackit::config_engine::ExecutionResult;
use rackit::error::Error;

fn step(name: &str, on_error: ErrorAction, retry_count: Option<u32>) -> CommandStep {
    CommandStep {
        name: name.to_string(),
        step_type: StepType::Command { command: format!("show {}", name), expected_prompt: None },
        timeout_seconds: None,
        retry_count,
        on_error,
        description: None,
    }
}

fn at(index: usize, retries: u32, jumps: u128) -> RunPhase {
    RunPhase::Executing(Cursor { index, retries, jumps })
}

fn good(text: &str) -> Result<String, Error> {
    Ok(text.to_string())
}

fn bad() -> Result<String, Error> {
    Err(Error::Timeout)
}

fn started<'a>(steps: &'a Vec<CommandStep>, extra: &'a Vec<CommandStep>, max_retries: u32) -> DeviceRun<'a> {
    let plan = Plan::new(steps, extra).unwrap();
    let mut run = DeviceRun::new("r1".to_string(), plan, max_retries);
    run.begin();
    run.connected();
    run
}

fn names(result: &ExecutionResult) -> (Vec<String>, Vec<String>) {
    (
        result.successful_commands.iter().map(|c| c.command_name.clone()).collect(),
        result.failed_commands.iter().map(|c| c.command_name.clone()).collect(),
    )
}

fn texts(list: &[&str]) -> Vec<String> {
    list.iter().map(|s| s.to_string()).collect()
}

#[test]
fn a_run_goes_from_idle_over_connecting_to_its_first_step() {
    let steps = vec![step("a", ErrorAction::Stop, None)];
    let none = vec![];
    let plan = Plan::new(&steps, &none).unwrap();
    assert_eq!(plan.len(), 1);
    assert_eq!(plan.get(0).name, "a");
    let mut run = DeviceRun::new("r1".to_string(), plan, 3);
    assert_eq!(run.phase(), RunPhase::Idle);
    assert!(run.current_step().is_none());
    run.connected();
    assert_eq!(run.phase(), RunPhase::Idle);
    run.record(good("ignored"));
    assert_eq!(run.phase(), RunPhase::Idle);
    run.begin();
    assert_eq!(run.phase(), RunPhase::Connecting);
    run.begin();
    assert_eq!(run.phase(), RunPhase::Connecting);
    run.connected();
    assert_eq!(run.phase(), at(0, 0, 0));
    assert_eq!(run.current_step().unwrap().name, "a");
    assert!(run.previous_output().is_none());
    run.connection_failed();
    assert_eq!(run.phase(), at(0, 0, 0));
    let result = run.finish();
    assert_eq!(result, ExecutionResult::new("r1".to_string()));
}

#[test]
fn a_run_whose_session_fails_is_aborted() {
    let steps = vec![step("a", ErrorAction::Stop, None)];
    let none = vec![];
    let mut run = DeviceRun::new("r1".to_string(), Plan::new(&steps, &none).unwrap(), 3);
    run.connection_failed();
    assert_eq!(run.phase(), RunPhase::Idle);
    run.begin();
    run.connection_failed();
    assert_eq!(run.phase(), RunPhase::Aborted(AbortCause::ConnectionFailed));
    run.record(good("ignored"));
    assert_eq!(run.phase(), RunPhase::Aborted(AbortCause::ConnectionFailed));
    let result = run.conclude().unwrap();
    assert_eq!(result.success_count() + result.error_count(), 0);
}

#[test]
fn a_run_without_steps_is_complete_at_once() {
    let steps = vec![];
    let none = vec![];
    let run = started(&steps, &none, 3);
    assert_eq!(run.phase(), RunPhase::Completed);
    assert!(run.conclude().unwrap().is_success());
}

#[test]
fn successes_walk_the_plan_to_its_end() {
    let steps = vec![step("a", ErrorAction::Stop, None), step("b", ErrorAction::Stop, None)];
    let extra = vec![step("c", ErrorAction::Stop, None)];
    let mut run = started(&steps, &extra, 3);
    run.record(good("1"));
    assert_eq!(run.phase(), at(1, 0, 0));
    assert_eq!(run.previous_output().unwrap(), "1");
    run.record(good("2"));
    assert_eq!(run.phase(), at(2, 0, 0));
    assert_eq!(run.current_step().unwrap().name, "c");
    run.record(good("3"));
    assert_eq!(run.phase(), RunPhase::Completed);
    assert!(run.current_step().is_none());
    run.record(good("4"));
    assert_eq!(run.phase(), RunPhase::Completed);
    let result = run.conclude().unwrap();
    assert_eq!(names(&result), (texts(&["a", "b", "c"]), vec![]));
    assert_eq!(result.successful_commands[2].output, "3");
}

#[test]
fn a_failure_under_stop_aborts_and_later_steps_are_in_neither_list() {
    let steps = vec![
        step("a", ErrorAction::Continue, None),
        step("b", ErrorAction::Continue, None),
        step("c", ErrorAction::Stop, None),
        step("d", ErrorAction::Continue, None),
        step("e", ErrorAction::Continue, None),
    ];
    let none = vec![];
    let mut run = started(&steps, &none, 3);
    run.record(good("1"));
    run.record(bad());
    run.record(bad());
    assert_eq!(run.phase(), RunPhase::Aborted(AbortCause::StepFailed));
    assert!(run.previous_output().is_none());
    run.record(good("late"));
    let result = run.conclude().unwrap();
    assert_eq!(result.success_count() + result.error_count(), 3);
    assert_eq!(names(&result), (texts(&["a"]), texts(&["b", "c"])));
    assert_eq!(result.failed_commands[1].error_message, "Таймаут операции");
}

#[test]
fn a_failure_under_continue_goes_on_with_the_next_step() {
    let steps = vec![step("a", ErrorAction::Continue, None), step("b", ErrorAction::Stop, None)];
    let none = vec![];
    let mut run = started(&steps, &none, 3);
    run.record(bad());
    assert_eq!(run.phase(), at(1, 0, 0));
    run.record(good("2"));
    assert_eq!(run.phase(), RunPhase::Completed);
    let result = run.finish();
    assert_eq!(names(&result), (texts(&["b"]), texts(&["a"])));
    assert_eq!(result.success_count() + result.error_count(), 2);
}

#[test]
fn a_failure_under_retry_stays_until_the_count_is_spent() {
    let steps = vec![step("a", ErrorAction::Retry, Some(2)), step("b", ErrorAction::Stop, None)];
    let none = vec![];
    let mut run = started(&steps, &none, 7);
    run.record(bad());
    assert_eq!(run.phase(), at(0, 1, 0));
    run.record(bad());
    assert_eq!(run.phase(), at(0, 2, 0));
    run.record(bad());
    assert_eq!(run.phase(), RunPhase::Aborted(AbortCause::RetriesExhausted));
    let result = run.conclude().unwrap();
    assert_eq!(names(&result), (vec![], texts(&["a", "a", "a"])));

    let mut run = started(&steps, &none, 7);
    run.record(bad());
    run.record(good("now"));
    assert_eq!(run.phase(), at(1, 0, 0));

    let steps = vec![step("a", ErrorAction::Retry, None)];
    let mut run = started(&steps, &none, 1);
    run.record(bad());
    assert_eq!(run.phase(), at(0, 1, 0));
    run.record(bad());
    assert_eq!(run.phase(), RunPhase::Aborted(AbortCause::RetriesExhausted));
}

#[test]
fn a_failure_under_goto_jumps_to_the_first_step_of_that_name() {
    let steps = vec![
        step("a", ErrorAction::GotoStep("c".to_string()), None),
        step("b", ErrorAction::Stop, None),
        step("c", ErrorAction::GotoStep("a".to_string()), None),
        step("c", ErrorAction::Stop, None),
    ];
    let none = vec![];
    let mut run = started(&steps, &none, 1);
    assert_eq!(run.find("c"), Some(2));
    assert_eq!(run.find("b"), Some(1));
    assert_eq!(run.find("z"), None);
    run.record(bad());
    assert_eq!(run.phase(), at(2, 0, 1));
    run.record(bad());
    assert_eq!(run.phase(), at(0, 0, 2));
    run.record(bad());
    assert_eq!(run.phase(), at(2, 0, 3));
    run.record(bad());
    assert_eq!(run.phase(), at(0, 0, 4));
    run.record(bad());
    assert_eq!(run.phase(), RunPhase::Aborted(AbortCause::JumpLimit));
    assert_eq!(
        run.conclude().unwrap_err(),
        Error::ConfigValidation("Превышен лимит переходов между шагами".to_string())
    );
}

#[test]
fn a_goto_without_a_budget_cannot_jump() {
    let steps = vec![
        step("a", ErrorAction::GotoStep("b".to_string()), None),
        step("b", ErrorAction::Stop, None),
    ];
    let none = vec![];
    let mut run = started(&steps, &none, 0);
    run.record(bad());
    assert_eq!(run.phase(), RunPhase::Aborted(AbortCause::JumpLimit));
}

#[test]
fn a_goto_to_a_name_that_no_step_has_aborts_the_run() {
    let steps = vec![
        step("a", ErrorAction::Stop, None),
        step("b", ErrorAction::GotoStep("nowhere".to_string()), None),
    ];
    let none = vec![];
    let mut run = started(&steps, &none, 3);
    run.record(good("1"));
    run.record(bad());
    assert_eq!(run.phase(), RunPhase::Aborted(AbortCause::UnknownTarget(1)));
    assert_eq!(
        run.conclude().unwrap_err(),
        Error::ConfigValidation("Шаг 'nowhere' для перехода не найден".to_string())
    );
}

#[test]
fn a_goto_may_lead_into_the_steps_of_a_scenario() {
    let steps = vec![step("a", ErrorAction::GotoStep("fix".to_string()), None)];
    let extra = vec![step("check", ErrorAction::Stop, None), step("fix", ErrorAction::Stop, None)];
    let mut run = started(&steps, &extra, 3);
    run.record(bad());
    assert_eq!(run.phase(), at(2, 0, 1));
    run.record(good("fixed"));
    assert_eq!(run.phase(), RunPhase::Completed);
}

#[test]
fn results_count_what_they_hold() {
    let mut result = ExecutionResult::new("r1".to_string());
    assert!(result.is_success());
    assert_eq!(result.success_count(), 0);
    assert_eq!(result.error_count(), 0);
    assert_eq!(result.device_id, "r1");
    assert_eq!(result.execution_time, 0);
    result.add_success("a".to_string(), "out".to_string());
    assert!(result.is_success());
    assert_eq!(result.success_count(), 1);
    assert_eq!(result.successful_commands[0].command_name, "a");
    assert_eq!(result.successful_commands[0].output, "out");
    assert_eq!(result.successful_commands[0].execution_time, 0);
    result.add_error("b".to_string(), "why".to_string());
    assert!(!result.is_success());
    assert_eq!(result.success_count(), 1);
    assert_eq!(result.error_count(), 1);
    assert_eq!(result.failed_commands[0].command_name, "b");
    assert_eq!(result.failed_commands[0].error_message, "why");
}
