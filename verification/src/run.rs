//! The run of a manager over its agents, as a state machine.
//!
//! A run visits the agents in the order of their registration. At each visit
//! the agent shows its lifecycle state and the clock is read; the machine
//! then skips the agent, has it invoked, or aborts the run. Whoever performs
//! the invocations, in whatever way, follows these transitions:
//! [`RunState::start`], then [`RunState::visit`] before and
//! [`RunState::record`] after each invocation, until the state is terminal.

use crate::agent::AgentState;
use crate::error::ExecutionError;
use vstd::prelude::*;

verus! {

/// The limits of a run.
#[derive(Debug, Clone, Copy, PartialEq, Eq)]
pub struct RunPolicy {
    /// How often one agent may be invoked before the run gives up on it.
    pub max_attempts: usize,
    /// Milliseconds after which the run is aborted, if any.
    pub deadline_ms: Option<u64>,
}

impl RunPolicy {
    /// Whether the deadline has passed once `elapsed_ms` milliseconds of the
    /// run are over: there is a deadline, and the time that is over is no
    /// less than it.
    pub open spec fn expires_after(self, elapsed_ms: u128) -> bool {
        match self.deadline_ms {
            Some(limit) => elapsed_ms >= limit,
            None => false,
        }
    }

    /// Whether the deadline has passed once `elapsed_ms` milliseconds of the
    /// run are over. Without a deadline it never has; a deadline of zero
    /// has passed from the start.
    pub fn expired_after(&self, elapsed_ms: u128) -> (expired: bool)
        ensures
            expired == self.expires_after(elapsed_ms),
    {
        match self.deadline_ms {
            Some(limit) => elapsed_ms >= limit as u128,
            None => false,
        }
    }
}

impl Default for RunPolicy {
    /// Three attempts for each agent, and no deadline.
    fn default() -> (policy: RunPolicy)
        ensures
            policy == (RunPolicy { max_attempts: 3, deadline_ms: None }),
    {
        RunPolicy { max_attempts: 3, deadline_ms: None }
    }
}

/// Why a run was aborted.
#[derive(Debug, PartialEq, Eq)]
pub enum AbortReason {
    /// The agent's last permitted invocation failed with this error.
    Failed(ExecutionError),
    /// The agent's invocations were used up without it reaching `Finished`,
    /// though the last of them, if there was one, succeeded.
    Unfinished,
    /// The run's deadline passed while the agent was not finished.
    DeadlineExceeded,
}

/// The end of a run that did not complete: at which agent, by its index in
/// the order of registration, the manager gave up, and why.
#[derive(Debug, PartialEq, Eq)]
pub struct RunAbort {
    pub agent: usize,
    pub reason: AbortReason,
}

/// Where a run stands.
#[derive(Debug, PartialEq, Eq)]
pub enum RunState {
    /// No agent has been looked at.
    NotStarted,
    /// The agent at index `agent`, one of `of` agents, is being driven. It
    /// has been given `attempts` invocations, and `last_failure` is the
    /// error of the latest one that has returned, if that one failed.
    Running { agent: usize, of: usize, attempts: usize, last_failure: Option<ExecutionError> },
    /// Every agent was seen finished.
    Completed,
    /// The run gave up.
    Aborted(RunAbort),
}

impl AbortReason {
    /// Why a run gives up on an agent whose attempts are used up:
    /// `last_failure` is the error of its latest invocation, if that failed.
    pub open spec fn exhausted(last_failure: Option<ExecutionError>) -> AbortReason {
        match last_failure {
            Some(error) => AbortReason::Failed(error),
            None => AbortReason::Unfinished,
        }
    }
}

impl RunState {
    /// The state in which a run over `agents` agents begins its visits.
    pub open spec fn opening(agents: usize) -> RunState {
        if agents == 0 {
            RunState::Completed
        } else {
            RunState::Running { agent: 0, of: agents, attempts: 0, last_failure: None }
        }
    }

    /// The state after the run has been started.
    pub open spec fn started(self, agents: usize) -> RunState {
        match self {
            RunState::NotStarted => RunState::opening(agents),
            _ => self,
        }
    }

    /// Whether the run has ended.
    pub open spec fn terminal(self) -> bool {
        self is Completed || self is Aborted
    }

    /// The agents that the run has not passed yet.
    pub open spec fn agents_left(self) -> nat {
        match self {
            RunState::Running { agent, of, .. } => if agent < of {
                (of - agent) as nat
            } else {
                0
            },
            _ => 0,
        }
    }

    /// The invocations that the agent under the cursor may still get.
    pub open spec fn attempts_left(self, policy: RunPolicy) -> nat {
        match self {
            RunState::Running { attempts, .. } => if attempts < policy.max_attempts {
                (policy.max_attempts - attempts) as nat
            } else {
                0
            },
            _ => 0,
        }
    }

    /// Whether a visit in this state, at which the agent shows `observed`
    /// and the deadline has passed or not, leads to an invocation: the agent
    /// is not finished, there is time left, and so is an attempt.
    pub open spec fn invokes(self, policy: RunPolicy, observed: AgentState, expired: bool) -> bool {
        &&& self matches RunState::Running { attempts, .. }
        &&& observed != AgentState::Finished
        &&& !expired
        &&& attempts < policy.max_attempts
    }

    /// The state after a visit.
    ///
    /// A finished agent is passed over, and after the last agent the run is
    /// complete. An unfinished agent aborts the run once the deadline has
    /// passed or its attempts are used up; otherwise one more attempt is
    /// counted, and the invocation is due.
    pub open spec fn visited(self, policy: RunPolicy, observed: AgentState, expired: bool) -> RunState {
        match self {
            RunState::Running { agent, of, attempts, last_failure } => {
                if observed == AgentState::Finished {
                    if agent + 1 < of {
                        RunState::Running {
                            agent: (agent + 1) as usize,
                            of,
                            attempts: 0,
                            last_failure: None,
                        }
                    } else {
                        RunState::Completed
                    }
                } else if expired {
                    RunState::Aborted(RunAbort { agent, reason: AbortReason::DeadlineExceeded })
                } else if attempts >= policy.max_attempts {
                    RunState::Aborted(
                        RunAbort { agent, reason: AbortReason::exhausted(last_failure) },
                    )
                } else {
                    RunState::Running { agent, of, attempts: (attempts + 1) as usize, last_failure }
                }
            },
            _ => self,
        }
    }

    /// The state after an invocation has returned `result`.
    pub open spec fn recorded(self, result: Result<(), ExecutionError>) -> RunState {
        match self {
            RunState::Running { agent, of, attempts, last_failure } => RunState::Running {
                agent,
                of,
                attempts,
                last_failure: match result {
                    Ok(_) => None,
                    Err(error) => Some(error),
                },
            },
            _ => self,
        }
    }

    /// Starts a run over `agents` agents. A run without agents is complete
    /// at once; a run that has been started stays as it is.
    pub fn start(self, agents: usize) -> (next: RunState)
        ensures
            next == self.started(agents),
    {
        match self {
            RunState::NotStarted => {
                if agents == 0 {
                    RunState::Completed
                } else {
                    RunState::Running { agent: 0, of: agents, attempts: 0, last_failure: None }
                }
            },
            other => other,
        }
    }

    /// Whether the run has ended.
    pub fn is_terminal(&self) -> (ended: bool)
        ensures
            ended == self.terminal(),
    {
        match self {
            RunState::Completed => true,
            RunState::Aborted(_) => true,
            _ => false,
        }
    }

    /// How the run ended, once it has: `Ok` for a completed run, and the
    /// abort for an aborted one.
    pub open spec fn ended(self) -> Option<Result<(), RunAbort>> {
        match self {
            RunState::Completed => Some(Ok(())),
            RunState::Aborted(abort) => Some(Err(abort)),
            _ => None,
        }
    }

    /// The state in which a run with the given end stands.
    pub open spec fn closing(end: Result<(), RunAbort>) -> RunState {
        match end {
            Ok(_) => RunState::Completed,
            Err(abort) => RunState::Aborted(abort),
        }
    }

    /// How the run ended, if it has.
    pub fn outcome(self) -> (end: Option<Result<(), RunAbort>>)
        ensures
            end == self.ended(),
            end matches Some(result) ==> self == RunState::closing(result),
    {
        match self {
            RunState::Completed => Some(Ok(())),
            RunState::Aborted(abort) => Some(Err(abort)),
            _ => None,
        }
    }

    /// The index of the agent to visit next, while the run is under way.
    pub fn current_agent(&self) -> (current: Option<usize>)
        ensures
            match *self {
                RunState::Running { agent, .. } => current == Some(agent),
                _ => current is None,
            },
    {
        match self {
            RunState::Running { agent, .. } => Some(*agent),
            _ => None,
        }
    }

    /// Takes the decision of one visit: the agent under the cursor has shown
    /// the lifecycle state `observed`, and `expired` says whether the run's
    /// deadline has passed. Returns the next state, and whether the agent is
    /// to be invoked now; the result of that invocation goes to
    /// [`RunState::record`].
    pub fn visit(self, policy: &RunPolicy, observed: AgentState, expired: bool) -> (next: (
        RunState,
        bool,
    ))
        ensures
            next.0 == self.visited(*policy, observed, expired),
            next.1 == self.invokes(*policy, observed, expired),
    {
        match self {
            RunState::Running { agent, of, attempts, last_failure } => {
                if observed.is_finished() {
                    if of > 0 && agent < of - 1 {
                        (
                            RunState::Running {
                                agent: agent + 1,
                                of,
                                attempts: 0,
                                last_failure: None,
                            },
                            false,
                        )
                    } else {
                        (RunState::Completed, false)
                    }
                } else if expired {
                    let abort = RunAbort { agent, reason: AbortReason::DeadlineExceeded };
                    (RunState::Aborted(abort), false)
                } else if attempts >= policy.max_attempts {
                    let reason = match last_failure {
                        Some(error) => AbortReason::Failed(error),
                        None => AbortReason::Unfinished,
                    };
                    (RunState::Aborted(RunAbort { agent, reason }), false)
                } else {
                    (RunState::Running { agent, of, attempts: attempts + 1, last_failure }, true)
                }
            },
            other => (other, false),
        }
    }

    /// Notes the result of the invocation that the last visit asked for.
    pub fn record(self, result: Result<(), ExecutionError>) -> (next: RunState)
        ensures
            next == self.recorded(result),
    {
        match self {
            RunState::Running { agent, of, attempts, last_failure: _ } => {
                let last_failure = match result {
                    Ok(_) => None,
                    Err(error) => Some(error),
                };
                RunState::Running { agent, of, attempts, last_failure }
            },
            other => other,
        }
    }
}

} // verus!
