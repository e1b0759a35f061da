use agent_core::agent::AgentState;
use agent_core::error::{ExecutionError, GatewayError};
use agent_core::run::{AbortReason, RunAbort, RunPolicy, RunState};

fn running(agent: usize, of: usize, attempts: usize, last_failure: Option<ExecutionError>) -> RunState {
    RunState::Running { agent, of, attempts, last_failure }
}

fn aborted(agent: usize, reason: AbortReason) -> RunState {
    RunState::Aborted(RunAbort { agent, reason })
}

fn three_attempts() -> RunPolicy {
    RunPolicy { max_attempts: 3, deadline_ms: None }
}

#[test]
fn default_policy_is_three_attempts_without_deadline() {
    assert_eq!(RunPolicy::default(), RunPolicy { max_attempts: 3, deadline_ms: None });
}

#[test]
fn policy_without_deadline_never_expires() {
    let policy = RunPolicy { max_attempts: 3, deadline_ms: None };
    assert!(!policy.expired_after(0));
    assert!(!policy.expired_after(1));
    assert!(!policy.expired_after(u128::MAX));
}

#[test]
fn deadline_has_passed_once_the_time_is_over() {
    let policy = RunPolicy { max_attempts: 3, deadline_ms: Some(250) };
    assert!(!policy.expired_after(0));
    assert!(!policy.expired_after(249));
    assert!(policy.expired_after(250));
    assert!(policy.expired_after(251));
    assert!(policy.expired_after(u128::MAX));
    let longest = RunPolicy { max_attempts: 3, deadline_ms: Some(u64::MAX) };
    assert!(!longest.expired_after(u128::from(u64::MAX) - 1));
    assert!(longest.expired_after(u128::from(u64::MAX)));
}

#[test]
fn deadline_of_zero_has_passed_from_the_start() {
    let policy = RunPolicy { max_attempts: 3, deadline_ms: Some(0) };
    assert!(policy.expired_after(0));
    assert!(policy.expired_after(1));
}

#[test]
fn start_without_agents_completes() {
    assert_eq!(RunState::NotStarted.start(0), RunState::Completed);
}

#[test]
fn start_with_agents_runs_at_the_first() {
    assert_eq!(RunState::NotStarted.start(1), running(0, 1, 0, None));
    assert_eq!(RunState::NotStarted.start(4), running(0, 4, 0, None));
}

#[test]
fn start_leaves_a_started_run_alone() {
    assert_eq!(RunState::Completed.start(2), RunState::Completed);
    assert_eq!(running(1, 3, 2, None).start(5), running(1, 3, 2, None));
    assert_eq!(aborted(0, AbortReason::Unfinished).start(1), aborted(0, AbortReason::Unfinished));
}

#[test]
fn terminal_states_are_completed_and_aborted() {
    assert!(!RunState::NotStarted.is_terminal());
    assert!(!running(0, 1, 0, None).is_terminal());
    assert!(RunState::Completed.is_terminal());
    assert!(aborted(0, AbortReason::DeadlineExceeded).is_terminal());
}

#[test]
fn current_agent_is_known_while_running() {
    assert_eq!(RunState::NotStarted.current_agent(), None);
    assert_eq!(running(2, 5, 1, None).current_agent(), Some(2));
    assert_eq!(RunState::Completed.current_agent(), None);
    assert_eq!(aborted(2, AbortReason::Unfinished).current_agent(), None);
}

#[test]
fn finished_agent_is_passed_over() {
    let policy = three_attempts();
    assert_eq!(
        running(0, 3, 0, None).visit(&policy, AgentState::Finished, false),
        (running(1, 3, 0, None), false)
    );
    let failed = Some(ExecutionError::Internal("earlier".to_string()));
    assert_eq!(
        running(1, 3, 2, failed).visit(&policy, AgentState::Finished, false),
        (running(2, 3, 0, None), false)
    );
}

#[test]
fn finished_last_agent_completes_the_run() {
    let policy = three_attempts();
    assert_eq!(
        running(2, 3, 1, None).visit(&policy, AgentState::Finished, false),
        (RunState::Completed, false)
    );
    assert_eq!(
        running(0, 1, 3, None).visit(&policy, AgentState::Finished, true),
        (RunState::Completed, false)
    );
}

#[test]
fn unfinished_agent_is_invoked_while_attempts_are_left() {
    let policy = three_attempts();
    for observed in [AgentState::Discovery, AgentState::Working, AgentState::UnitTesting] {
        assert_eq!(
            running(0, 2, 0, None).visit(&policy, observed, false),
            (running(0, 2, 1, None), true)
        );
        assert_eq!(
            running(1, 2, 2, None).visit(&policy, observed, false),
            (running(1, 2, 3, None), true)
        );
    }
}

#[test]
fn used_up_attempts_abort_with_the_last_failure() {
    let policy = three_attempts();
    let failure = ExecutionError::Gateway(GatewayError::TransportFailure);
    assert_eq!(
        running(1, 2, 3, Some(failure.clone())).visit(&policy, AgentState::Working, false),
        (aborted(1, AbortReason::Failed(failure)), false)
    );
    assert_eq!(
        running(1, 2, 3, None).visit(&policy, AgentState::Working, false),
        (aborted(1, AbortReason::Unfinished), false)
    );
}

#[test]
fn no_attempts_at_all_abort_at_the_first_unfinished_agent() {
    let policy = RunPolicy { max_attempts: 0, deadline_ms: None };
    assert_eq!(
        running(0, 1, 0, None).visit(&policy, AgentState::Discovery, false),
        (aborted(0, AbortReason::Unfinished), false)
    );
}

#[test]
fn passed_deadline_aborts_an_unfinished_agent() {
    let policy = RunPolicy { max_attempts: 3, deadline_ms: Some(10) };
    assert_eq!(
        running(0, 2, 1, None).visit(&policy, AgentState::Working, true),
        (aborted(0, AbortReason::DeadlineExceeded), false)
    );
    let failure = Some(ExecutionError::Internal("too slow".to_string()));
    assert_eq!(
        running(1, 2, 3, failure).visit(&policy, AgentState::Discovery, true),
        (aborted(1, AbortReason::DeadlineExceeded), false)
    );
}

#[test]
fn visit_outside_a_run_changes_nothing() {
    let policy = three_attempts();
    assert_eq!(
        RunState::NotStarted.visit(&policy, AgentState::Discovery, false),
        (RunState::NotStarted, false)
    );
    assert_eq!(
        RunState::Completed.visit(&policy, AgentState::Discovery, false),
        (RunState::Completed, false)
    );
    assert_eq!(
        aborted(0, AbortReason::Unfinished).visit(&policy, AgentState::Discovery, true),
        (aborted(0, AbortReason::Unfinished), false)
    );
}

#[test]
fn record_keeps_the_failure_of_the_latest_invocation() {
    let failure = ExecutionError::Internal("no plan".to_string());
    assert_eq!(
        running(0, 1, 1, None).record(Err(failure.clone())),
        running(0, 1, 1, Some(failure.clone()))
    );
    assert_eq!(running(0, 1, 2, Some(failure.clone())).record(Ok(())), running(0, 1, 2, None));
    let newer = ExecutionError::Gateway(GatewayError::MalformedResponse);
    assert_eq!(
        running(0, 1, 2, Some(failure)).record(Err(newer.clone())),
        running(0, 1, 2, Some(newer))
    );
    assert_eq!(RunState::Completed.record(Ok(())), RunState::Completed);
    assert_eq!(RunState::NotStarted.record(Ok(())), RunState::NotStarted);
}

#[test]
fn machine_alone_drives_a_failing_agent_to_the_bound() {
    let policy = three_attempts();
    let mut state = RunState::NotStarted.start(2);
    let mut invocations = 0;
    while !state.is_terminal() {
        let (next, invoke) = state.visit(&policy, AgentState::Discovery, false);
        state = next;
        if invoke {
            invocations += 1;
            state = state.record(Err(ExecutionError::Gateway(GatewayError::TransportFailure)));
        }
    }
    assert_eq!(invocations, 3);
    assert_eq!(
        state,
        aborted(0, AbortReason::Failed(ExecutionError::Gateway(GatewayError::TransportFailure)))
    );
}

#[test]
fn outcome_is_known_once_the_run_has_ended() {
    assert_eq!(RunState::NotStarted.outcome(), None);
    assert_eq!(running(0, 1, 0, None).outcome(), None);
    assert_eq!(RunState::Completed.outcome(), Some(Ok(())));
    assert_eq!(
        aborted(2, AbortReason::DeadlineExceeded).outcome(),
        Some(Err(RunAbort { agent: 2, reason: AbortReason::DeadlineExceeded }))
    );
}
