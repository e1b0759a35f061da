use agent_core::agent::{AgentState, BasicAgent, BasicTraits, SpecialFunctions};
use agent_core::error::{ExecutionError, GatewayError};
use agent_core::factsheet::FactSheet;
use agent_core::manager::ManagingAgent;
use agent_core::run::{AbortReason, RunAbort, RunPolicy};

/// What a scripted agent does at one invocation.
#[derive(Debug, Clone)]
struct Step {
    write: Option<(String, String)>,
    move_to: Option<AgentState>,
    result: Result<(), ExecutionError>,
}

impl Step {
    fn finish_writing(name: &str, value: &str) -> Step {
        Step {
            write: Some((name.to_string(), value.to_string())),
            move_to: Some(AgentState::Finished),
            result: Ok(()),
        }
    }

    fn advance(state: AgentState) -> Step {
        Step { write: None, move_to: Some(state), result: Ok(()) }
    }

    fn idle() -> Step {
        Step { write: None, move_to: None, result: Ok(()) }
    }

    fn fail(error: ExecutionError) -> Step {
        Step { write: None, move_to: None, result: Err(error) }
    }
}

/// An agent that plays its steps in turn and repeats the last one for ever.
#[derive(Debug)]
struct Scripted {
    attributes: BasicAgent,
    steps: Vec<Step>,
    invocations: usize,
}

impl Scripted {
    fn new(position: &str, steps: Vec<Step>) -> Scripted {
        Scripted {
            attributes: BasicAgent::new("follow the script".to_string(), position.to_string()),
            steps,
            invocations: 0,
        }
    }

    fn finished(position: &str) -> Scripted {
        let mut agent = Scripted::new(position, vec![Step::finish_writing("touched", position)]);
        agent.attributes.update_state(AgentState::Finished);
        agent
    }
}

impl SpecialFunctions for Scripted {
    fn get_attributes_from_agent(&self) -> &BasicAgent {
        &self.attributes
    }

    fn execute(&mut self, factsheet: &mut FactSheet) -> Result<(), ExecutionError> {
        let index = self.invocations.min(self.steps.len() - 1);
        let step = self.steps[index].clone();
        self.invocations += 1;
        if let Some((name, value)) = step.write {
            factsheet.write(&name, value);
        }
        if let Some(state) = step.move_to {
            self.attributes.update_state(state);
        }
        step.result
    }
}

fn manager_of(agents: Vec<Scripted>) -> ManagingAgent<Scripted> {
    let mut manager = ManagingAgent::new("build a CLI calculator".to_string());
    for agent in agents {
        manager.add_agent(agent);
    }
    manager
}

fn invocations(manager: &ManagingAgent<Scripted>, index: usize) -> usize {
    manager.agent(index).unwrap().invocations
}

fn state_of(manager: &ManagingAgent<Scripted>, index: usize) -> AgentState {
    *manager.agent(index).unwrap().get_attributes_from_agent().get_state()
}

#[test]
fn new_manager_has_its_objective_and_nothing_else() {
    let manager: ManagingAgent<Scripted> = ManagingAgent::new("build a CLI calculator".to_string());
    assert_eq!(manager.get_attributes().get_objective(), "build a CLI calculator");
    assert_eq!(manager.get_attributes().get_position(), "Managing Agent");
    assert_eq!(*manager.get_attributes().get_state(), AgentState::Discovery);
    assert!(manager.get_attributes().get_memory().is_empty());
    assert!(manager.factsheet().is_empty());
    assert_eq!(manager.agent_count(), 0);
    assert!(manager.agent(0).is_none());
    assert_eq!(manager.get_policy(), RunPolicy { max_attempts: 3, deadline_ms: None });
}

#[test]
fn single_agent_writes_its_field_and_the_run_completes() {
    let agent = Scripted::new(
        "Solutions Architect",
        vec![Step::finish_writing("spec", "CLI calculator spec")],
    );
    let mut manager = manager_of(vec![agent]);
    let end = manager.run();
    assert_eq!(end, Ok(()));
    assert_eq!(manager.factsheet().read("spec"), Some(&"CLI calculator spec".to_string()));
    assert_eq!(manager.factsheet().len(), 1);
    assert_eq!(invocations(&manager, 0), 1);
    assert_eq!(state_of(&manager, 0), AgentState::Finished);
}

#[test]
fn empty_collection_completes_at_once_and_keeps_the_sheet() {
    let mut sheet = FactSheet::new();
    sheet.write("project", "calculator".to_string());
    sheet.write("language", "Rust".to_string());
    let before = sheet.clone();
    let mut manager = manager_of(vec![]);
    manager.set_factsheet(sheet);
    let end = manager.run();
    assert_eq!(end, Ok(()));
    assert_eq!(*manager.factsheet(), before);
    assert_eq!(manager.into_factsheet(), before);
}

#[test]
fn later_registered_agent_wins_the_field() {
    let first = Scripted::new("first", vec![Step::finish_writing("spec", "from the first")]);
    let second = Scripted::new("second", vec![Step::finish_writing("spec", "from the second")]);
    let mut manager = manager_of(vec![first, second]);
    assert_eq!(manager.run(), Ok(()));
    assert_eq!(manager.factsheet().read("spec"), Some(&"from the second".to_string()));

    let first = Scripted::new("first", vec![Step::finish_writing("spec", "from the first")]);
    let second = Scripted::new("second", vec![Step::finish_writing("spec", "from the second")]);
    let mut swapped = manager_of(vec![second, first]);
    assert_eq!(swapped.run(), Ok(()));
    assert_eq!(swapped.factsheet().read("spec"), Some(&"from the first".to_string()));
}

#[test]
fn finished_agent_is_never_invoked() {
    let mut sheet = FactSheet::new();
    sheet.write("spec", "kept".to_string());
    let before = sheet.clone();
    let mut manager = manager_of(vec![Scripted::finished("done"), Scripted::finished("also done")]);
    manager.set_factsheet(sheet);
    assert_eq!(manager.run(), Ok(()));
    assert_eq!(*manager.factsheet(), before);
    assert_eq!(invocations(&manager, 0), 0);
    assert_eq!(invocations(&manager, 1), 0);
}

#[test]
fn second_run_after_completion_changes_nothing() {
    let agent = Scripted::new("writer", vec![Step::finish_writing("spec", "CLI calculator spec")]);
    let mut manager = manager_of(vec![agent]);
    assert_eq!(manager.run(), Ok(()));
    let after_first = manager.factsheet().clone();
    assert_eq!(manager.run(), Ok(()));
    assert_eq!(*manager.factsheet(), after_first);
    assert_eq!(invocations(&manager, 0), 1);
}

#[test]
fn always_failing_agent_aborts_after_exactly_the_bound() {
    let failing = Scripted::new(
        "failing",
        vec![Step::fail(ExecutionError::Internal("no plan".to_string()))],
    );
    let never = Scripted::new("never", vec![Step::finish_writing("code", "fn main() {}")]);
    let mut manager = manager_of(vec![failing, never]);
    let end = manager.run();
    assert_eq!(
        end,
        Err(RunAbort {
            agent: 0,
            reason: AbortReason::Failed(ExecutionError::Internal("no plan".to_string())),
        })
    );
    assert_eq!(invocations(&manager, 0), 3);
    assert_eq!(invocations(&manager, 1), 0);
    assert!(manager.factsheet().is_empty());
    assert_eq!(state_of(&manager, 1), AgentState::Discovery);
}

#[test]
fn retry_bound_is_configurable() {
    for bound in [0usize, 1, 2, 5] {
        let failing = Scripted::new(
            "failing",
            vec![Step::fail(ExecutionError::Gateway(GatewayError::TransportFailure))],
        );
        let mut manager = manager_of(vec![failing]);
        manager.set_policy(RunPolicy { max_attempts: bound, deadline_ms: None });
        let end = manager.run();
        let reason = if bound == 0 {
            AbortReason::Unfinished
        } else {
            AbortReason::Failed(ExecutionError::Gateway(GatewayError::TransportFailure))
        };
        assert_eq!(end, Err(RunAbort { agent: 0, reason }));
        assert_eq!(invocations(&manager, 0), bound);
    }
}

#[test]
fn agent_that_never_finishes_aborts_the_run() {
    let first = Scripted::new("first", vec![Step::finish_writing("spec", "done")]);
    let stuck = Scripted::new("stuck", vec![Step::advance(AgentState::Working), Step::idle()]);
    let last = Scripted::new("last", vec![Step::finish_writing("code", "never written")]);
    let mut manager = manager_of(vec![first, stuck, last]);
    let end = manager.run();
    assert_eq!(end, Err(RunAbort { agent: 1, reason: AbortReason::Unfinished }));
    assert_eq!(invocations(&manager, 0), 1);
    assert_eq!(invocations(&manager, 1), 3);
    assert_eq!(invocations(&manager, 2), 0);
    assert_eq!(state_of(&manager, 1), AgentState::Working);
    assert_eq!(manager.factsheet().read("spec"), Some(&"done".to_string()));
    assert!(!manager.factsheet().contains("code"));
}

#[test]
fn agent_is_reinvoked_until_it_finishes() {
    let refining = Scripted::new(
        "refining",
        vec![
            Step::advance(AgentState::Working),
            Step::advance(AgentState::UnitTesting),
            Step::finish_writing("code", "fn main() {}"),
        ],
    );
    let mut manager = manager_of(vec![refining]);
    assert_eq!(manager.run(), Ok(()));
    assert_eq!(invocations(&manager, 0), 3);
    assert_eq!(manager.factsheet().read("code"), Some(&"fn main() {}".to_string()));
}

#[test]
fn failure_followed_by_success_does_not_abort() {
    let shaky = Scripted::new(
        "shaky",
        vec![
            Step::fail(ExecutionError::Gateway(GatewayError::MalformedResponse)),
            Step::fail(ExecutionError::Gateway(GatewayError::MalformedResponse)),
            Step::finish_writing("spec", "third time lucky"),
        ],
    );
    let mut manager = manager_of(vec![shaky]);
    assert_eq!(manager.run(), Ok(()));
    assert_eq!(invocations(&manager, 0), 3);
}

#[test]
fn success_without_finishing_hides_the_earlier_failure() {
    let agent = Scripted::new(
        "agent",
        vec![Step::fail(ExecutionError::Internal("first".to_string())), Step::idle()],
    );
    let mut manager = manager_of(vec![agent]);
    assert_eq!(manager.run(), Err(RunAbort { agent: 0, reason: AbortReason::Unfinished }));
}

#[test]
fn passed_deadline_aborts_before_any_invocation() {
    let agent = Scripted::new("writer", vec![Step::finish_writing("spec", "late")]);
    let mut manager = manager_of(vec![Scripted::finished("done"), agent]);
    manager.set_policy(RunPolicy { max_attempts: 3, deadline_ms: Some(0) });
    let end = manager.run();
    assert_eq!(end, Err(RunAbort { agent: 1, reason: AbortReason::DeadlineExceeded }));
    assert_eq!(invocations(&manager, 1), 0);
    assert!(manager.factsheet().is_empty());
}

#[test]
fn distant_deadline_lets_the_run_complete() {
    let agent = Scripted::new("writer", vec![Step::finish_writing("spec", "in time")]);
    let mut manager = manager_of(vec![agent]);
    manager.set_policy(RunPolicy { max_attempts: 1, deadline_ms: Some(3_600_000) });
    assert_eq!(manager.run(), Ok(()));
    assert_eq!(manager.factsheet().read("spec"), Some(&"in time".to_string()));
}

#[test]
fn run_after_abort_gives_the_agent_a_fresh_budget() {
    let slow = Scripted::new(
        "slow",
        vec![
            Step::idle(),
            Step::idle(),
            Step::idle(),
            Step::finish_writing("spec", "at last"),
        ],
    );
    let mut manager = manager_of(vec![slow]);
    assert_eq!(manager.run(), Err(RunAbort { agent: 0, reason: AbortReason::Unfinished }));
    assert_eq!(manager.run(), Ok(()));
    assert_eq!(invocations(&manager, 0), 4);
}
