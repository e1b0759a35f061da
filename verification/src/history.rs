//! The history of a run as a mathematical object.
//!
//! A run is a sequence of visits. Each visit looks at the agent under the
//! cursor and, if the run's rules ask for it, invokes that agent once on the
//! fact sheet. The definitions here say which sequences of visits are runs;
//! the manager's contract and the laws of a run are stated over them.

use crate::agent::{AgentState, BasicAgentView, SpecialFunctions};
use crate::error::ExecutionError;
use crate::factsheet::FactSheet;
use crate::run::{RunPolicy, RunState};
use vstd::prelude::*;

verus! {

/// How one invocation ended: the agent and the sheet as it left them, and
/// what it returned.
pub struct Invocation<A> {
    pub after: A,
    pub sheet_after: FactSheet,
    pub result: Result<(), ExecutionError>,
}

/// One visit to the agent under the cursor: the attributes it showed,
/// whether the deadline had passed, and the invocation if one followed.
pub struct Visit<A> {
    pub shown: BasicAgentView,
    pub expired: bool,
    pub invocation: Option<Invocation<A>>,
}

/// Everything a run owns at one moment: the agents in the order of their
/// registration, the fact sheet, and the state of the run.
pub struct Stage<A> {
    pub agents: Seq<A>,
    pub sheet: FactSheet,
    pub state: RunState,
}

impl<A: SpecialFunctions> Stage<A> {
    /// Whether `visit` can happen at this stage: the run is under way, the
    /// agent under the cursor shows what the visit saw, whether the deadline
    /// has passed is the policy's verdict on some reading of the clock, and
    /// the agent is invoked exactly when the rules of the run say so, on the
    /// sheet as it stands.
    pub open spec fn admits(self, policy: RunPolicy, visit: Visit<A>) -> bool {
        &&& self.state matches RunState::Running { agent, .. }
        &&& agent < self.agents.len()
        &&& self.agents[agent as int].shows(visit.shown)
        &&& exists|elapsed_ms: u128| visit.expired == #[trigger] policy.expires_after(elapsed_ms)
        &&& if self.state.invokes(policy, visit.shown.state, visit.expired) {
            &&& visit.invocation matches Some(invocation)
            &&& self.agents[agent as int].executed(
                self.sheet,
                invocation.after,
                invocation.sheet_after,
                invocation.result,
            )
        } else {
            visit.invocation is None
        }
    }

    /// The stage that `visit` leaves behind. Without an invocation only the
    /// state of the run moves. An invocation also replaces the invoked agent
    /// and the sheet by what it left; every other agent stays as it was.
    pub open spec fn after(self, policy: RunPolicy, visit: Visit<A>) -> Stage<A> {
        let visited = self.state.visited(policy, visit.shown.state, visit.expired);
        match (self.state, visit.invocation) {
            (RunState::Running { agent, .. }, Some(invocation)) => Stage {
                agents: self.agents.update(agent as int, invocation.after),
                sheet: invocation.sheet_after,
                state: visited.recorded(invocation.result),
            },
            _ => Stage { agents: self.agents, sheet: self.sheet, state: visited },
        }
    }

    /// The stage reached from `self` by `visits`, one after the other.
    pub open spec fn replay(self, policy: RunPolicy, visits: Seq<Visit<A>>) -> Stage<A>
        decreases visits.len(),
    {
        if visits.len() == 0 {
            self
        } else {
            self.replay(policy, visits.drop_last()).after(policy, visits.last())
        }
    }

    /// Whether `visits` can happen one after the other, starting from
    /// `self`.
    pub open spec fn lawful(self, policy: RunPolicy, visits: Seq<Visit<A>>) -> bool
        decreases visits.len(),
    {
        visits.len() == 0 || {
            &&& self.lawful(policy, visits.drop_last())
            &&& self.replay(policy, visits.drop_last()).admits(policy, visits.last())
        }
    }

    /// Whether a run can begin here: the state is the opening state for the
    /// agents at hand.
    pub open spec fn begins(self) -> bool {
        &&& self.agents.len() <= usize::MAX
        &&& self.state == RunState::opening(self.agents.len() as usize)
    }

    /// How far the run has come: the index of the agent that it is driving
    /// or at which it was aborted, and the number of agents once it is
    /// complete. All agents before the cursor have been passed.
    pub open spec fn cursor(self) -> int {
        match self.state {
            RunState::NotStarted => 0,
            RunState::Running { agent, .. } => agent as int,
            RunState::Completed => self.agents.len() as int,
            RunState::Aborted(abort) => abort.agent as int,
        }
    }

    /// The stage at which the `k`-th of `visits` happens, counted from 0.
    /// For `k == visits.len()` it is the stage that the visits lead to.
    pub open spec fn before(self, policy: RunPolicy, visits: Seq<Visit<A>>, k: int) -> Stage<A> {
        self.replay(policy, visits.take(k))
    }

    /// How often `visits` invoke the agent at index `agent`.
    pub open spec fn invocations_of(self, policy: RunPolicy, visits: Seq<Visit<A>>, agent: int) -> nat
        decreases visits.len(),
    {
        if visits.len() == 0 {
            0
        } else {
            let earlier = self.invocations_of(policy, visits.drop_last(), agent);
            if visits.last().invocation is Some && self.replay(policy, visits.drop_last()).cursor()
                == agent {
                earlier + 1
            } else {
                earlier
            }
        }
    }

    /// The error of the latest invocation of the agent at index `agent`
    /// among `visits`, if there was an invocation and it failed.
    pub open spec fn last_failure_of(
        self,
        policy: RunPolicy,
        visits: Seq<Visit<A>>,
        agent: int,
    ) -> Option<ExecutionError>
        decreases visits.len(),
    {
        if visits.len() == 0 {
            None
        } else if visits.last().invocation is Some && self.replay(policy, visits.drop_last()).cursor()
            == agent {
            match visits.last().invocation->Some_0.result {
                Ok(_) => None,
                Err(error) => Some(error),
            }
        } else {
            self.last_failure_of(policy, visits.drop_last(), agent)
        }
    }

    /// Whether one of `visits` found the agent at index `agent` finished.
    pub open spec fn seen_finished(self, policy: RunPolicy, visits: Seq<Visit<A>>, agent: int) -> bool {
        exists|k: int|
            0 <= k < visits.len() && #[trigger] self.before(policy, visits, k).cursor() == agent
                && visits[k].shown.state == AgentState::Finished
    }

    /// Whether `visits` is a whole run from `self` to `end`: every visit is
    /// admitted where it happens, the visits lead to `end`, and there the
    /// run has ended.
    pub open spec fn drives(self, policy: RunPolicy, visits: Seq<Visit<A>>, end: Stage<A>) -> bool {
        &&& self.lawful(policy, visits)
        &&& self.replay(policy, visits) == end
        &&& end.state.terminal()
    }
}

/// Whether `agent`, as it stands, shows itself finished.
pub open spec fn shows_finished<A: SpecialFunctions>(agent: A) -> bool {
    exists|attributes: BasicAgentView| #[trigger]
        agent.shows(attributes) && attributes.state == AgentState::Finished
}

/// Whether `agent`, as it stands, shows itself finished whenever it is
/// looked at.
pub open spec fn shows_only_finished<A: SpecialFunctions>(agent: A) -> bool {
    forall|attributes: BasicAgentView| #[trigger]
        agent.shows(attributes) ==> attributes.state == AgentState::Finished
}

} // verus!
