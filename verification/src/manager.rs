//! The managing agent: owner of the fact sheet and of the agents, and driver
//! of the run.

use crate::agent::{BasicAgent, BasicAgentView, BasicTraits, SpecialFunctions};
use crate::factsheet::FactSheet;
use crate::history::{shows_finished, shows_only_finished, Invocation, Stage, Visit};
use crate::laws::{law_empty_run, law_finished_agents_make_no_change, lemma_orderly};
use crate::run::{RunAbort, RunPolicy, RunState};
use std::time::{Duration, Instant};
use vstd::pervasive::unreached;
use vstd::prelude::*;
use vstd::string::StringExecFns;

verus! {

/// `std::time::Instant`, a reading of the monotonic clock. Its content is
/// hidden.
#[verifier::external_type_specification]
#[verifier::external_body]
pub struct ExInstant(Instant);

/// `Instant::now` of the standard library: the current reading of the
/// monotonic clock. Nothing is stated of it.
pub assume_specification[ Instant::now ]() -> (now: Instant)
;

/// `Instant::saturating_duration_since` of the standard library: the time
/// from `earlier` to `later`, or none if `earlier` is the later of the two.
/// Nothing is stated of it.
pub assume_specification[ Instant::saturating_duration_since ](
    later: &Instant,
    earlier: Instant,
) -> (elapsed: Duration)
;

/// `Duration::as_millis` of the standard library: the duration in whole
/// milliseconds. Nothing is stated of it.
pub assume_specification[ Duration::as_millis ](duration: &Duration) -> (millis: u128)
;

/// The supervisor of a task: it has an identity of its own, owns the fact
/// sheet, and owns the agents in the order in which they were registered.
#[derive(Debug)]
pub struct ManagingAgent<A: SpecialFunctions> {
    attributes: BasicAgent,
    factsheet: FactSheet,
    agents: Vec<A>,
    policy: RunPolicy,
}

impl<A: SpecialFunctions> ManagingAgent<A> {
    /// The role label of every managing agent.
    pub open spec fn position_label() -> Seq<char> {
        "Managing Agent"@
    }

    /// The manager's own attributes.
    pub closed spec fn attributes(self) -> BasicAgentView {
        self.attributes@
    }

    /// The fact sheet as it stands.
    pub closed spec fn sheet(self) -> FactSheet {
        self.factsheet
    }

    /// The agents in the order of their registration.
    pub closed spec fn agents(self) -> Seq<A> {
        self.agents@
    }

    /// The limits that runs of this manager observe.
    pub closed spec fn policy(self) -> RunPolicy {
        self.policy
    }

    /// What the manager owns, as the stage of a run in state `state`.
    pub open spec fn stage(self, state: RunState) -> Stage<A> {
        Stage { agents: self.agents(), sheet: self.sheet(), state }
    }

    /// A manager for `objective`, with an empty fact sheet, no agents, and
    /// the default limits.
    pub fn new(objective: String) -> (manager: ManagingAgent<A>)
        ensures
            manager.attributes() == BasicAgentView::fresh(objective@, Self::position_label()),
            manager.sheet()@ == Map::<Seq<char>, Seq<char>>::empty(),
            manager.agents() == Seq::<A>::empty(),
            manager.policy() == (RunPolicy { max_attempts: 3, deadline_ms: None }),
    {
        ManagingAgent {
            attributes: BasicAgent::new(objective, String::from_str("Managing Agent")),
            factsheet: FactSheet::new(),
            agents: Vec::new(),
            policy: RunPolicy::default(),
        }
    }

    /// Replaces the limits that later runs observe.
    pub fn set_policy(&mut self, policy: RunPolicy)
        ensures
            final(self).policy() == policy,
            final(self).attributes() == old(self).attributes(),
            final(self).sheet() == old(self).sheet(),
            final(self).agents() == old(self).agents(),
    {
        self.policy = policy;
    }

    /// Replaces the fact sheet from which later runs begin.
    pub fn set_factsheet(&mut self, factsheet: FactSheet)
        ensures
            final(self).sheet() == factsheet,
            final(self).attributes() == old(self).attributes(),
            final(self).policy() == old(self).policy(),
            final(self).agents() == old(self).agents(),
    {
        self.factsheet = factsheet;
    }

    /// Registers `agent` behind the agents registered so far.
    pub fn add_agent(&mut self, agent: A)
        ensures
            final(self).agents() == old(self).agents().push(agent),
            final(self).attributes() == old(self).attributes(),
            final(self).sheet() == old(self).sheet(),
            final(self).policy() == old(self).policy(),
    {
        self.agents.push(agent);
    }

    /// The manager's own attributes.
    pub fn get_attributes(&self) -> (attributes: &BasicAgent)
        ensures
            attributes@ == self.attributes(),
    {
        &self.attributes
    }

    /// The limits that runs observe.
    pub fn get_policy(&self) -> (policy: RunPolicy)
        ensures
            policy == self.policy(),
    {
        self.policy
    }

    /// The fact sheet as it stands.
    pub fn factsheet(&self) -> (sheet: &FactSheet)
        ensures
            *sheet == self.sheet(),
    {
        &self.factsheet
    }

    /// Gives up the manager for its fact sheet, the output of its runs.
    pub fn into_factsheet(self) -> (sheet: FactSheet)
        ensures
            sheet == self.sheet(),
    {
        self.factsheet
    }

    /// Number of registered agents.
    pub fn agent_count(&self) -> (count: usize)
        ensures
            count == self.agents().len(),
    {
        self.agents.len()
    }

    /// The agent registered at `index`, if there is one.
    pub fn agent(&self, index: usize) -> (agent: Option<&A>)
        ensures
            match agent {
                Some(found) => index < self.agents().len() && *found == self.agents()[index as int],
                None => index >= self.agents().len(),
            },
    {
        if index < self.agents.len() {
            Some(&self.agents[index])
        } else {
            None
        }
    }

    /// Whether the deadline of the run that began at `clock` has passed:
    /// the policy's verdict on the milliseconds that the clock counts since
    /// then. A run that took no reading at its start counts none.
    fn deadline_passed(&self, clock: &Option<Instant>) -> (expired: bool)
        ensures
            match *clock {
                Some(_) => exists|elapsed_ms: u128|
                    expired == #[trigger] self.policy().expires_after(elapsed_ms),
                None => expired == self.policy().expires_after(0),
            },
    {
        let elapsed_ms: u128 = match clock {
            Some(started) => Instant::now().saturating_duration_since(*started).as_millis(),
            None => 0,
        };
        self.policy.expired_after(elapsed_ms)
    }

    /// Performs one run: visits the agents in the order of their
    /// registration, invokes each unfinished agent on the fact sheet until
    /// it shows itself finished, and gives up when an agent has used up its
    /// attempts or the deadline has passed.
    ///
    /// Returns `Ok` when every agent was seen finished, and otherwise the
    /// abort. Either way the fact sheet is left as the last invocation left
    /// it. What happened in between is a history of visits that the rules
    /// of a run admit, from the opening stage to the stage at the end; the
    /// laws of a run say what follows from that. Some of it is repeated
    /// here: a run without agents, or over agents that only show themselves
    /// finished, changes nothing; after a completed run every agent shows
    /// itself finished; and an abort leaves the agents behind the failing
    /// one as they were.
    pub fn run(&mut self) -> (end: Result<(), RunAbort>)
        ensures
            final(self).attributes() == old(self).attributes(),
            final(self).policy() == old(self).policy(),
            final(self).agents().len() == old(self).agents().len(),
            exists|visits: Seq<Visit<A>>|
                #[trigger] old(self).stage(RunState::opening(old(self).agents().len() as usize)).drives(
                    old(self).policy(),
                    visits,
                    final(self).stage(RunState::closing(end)),
                ),
            old(self).agents().len() == 0 ==> end is Ok && final(self).sheet() == old(self).sheet(),
            (forall|i: int|
                0 <= i < old(self).agents().len() ==> shows_only_finished(
                    #[trigger] old(self).agents()[i],
                )) ==> {
                &&& end is Ok
                &&& final(self).sheet() == old(self).sheet()
                &&& final(self).agents() == old(self).agents()
            },
            end is Ok ==> forall|i: int|
                0 <= i < final(self).agents().len() ==> shows_finished(
                    #[trigger] final(self).agents()[i],
                ),
            end matches Err(abort) ==> {
                &&& abort.agent < old(self).agents().len()
                &&& forall|i: int|
                    abort.agent < i < old(self).agents().len() ==> #[trigger] final(self).agents()[i]
                        == old(self).agents()[i]
            },
    {
        let count = self.agents.len();
        let clock = match self.policy.deadline_ms {
            Some(_) => Some(Instant::now()),
            None => None,
        };
        let mut state = RunState::NotStarted.start(count);
        let ghost start = self.stage(state);
        let ghost policy = self.policy;
        let ghost mut visits: Seq<Visit<A>> = Seq::empty();
        loop
            invariant
                self.policy == policy,
                self.attributes == old(self).attributes,
                self.agents@.len() == count,
                start.lawful(policy, visits),
                start.replay(policy, visits) == self.stage(state),
                !(state is NotStarted),
                state matches RunState::Running { agent, of, attempts, .. } ==> agent < of && of
                    == count && attempts <= policy.max_attempts,
            ensures
                state.terminal(),
            decreases state.agents_left(), state.attempts_left(policy),
        {
            let agent = match state.current_agent() {
                Some(agent) => agent,
                None => {
                    break;
                },
            };
            let attributes = self.agents[agent].get_attributes_from_agent();
            let ghost shown = attributes@;
            let observed = *attributes.get_state();
            let expired = self.deadline_passed(&clock);
            let ghost before = self.stage(state);
            let (next, invoke) = state.visit(&self.policy, observed, expired);
            if invoke {
                let result = self.agents[agent].execute(&mut self.factsheet);
                proof {
                    let visit = Visit {
                        shown,
                        expired,
                        invocation: Some(
                            Invocation {
                                after: self.agents@[agent as int],
                                sheet_after: self.factsheet,
                                result,
                            },
                        ),
                    };
                    assert(visits.push(visit).drop_last() =~= visits);
                    assert(self.agents@ =~= before.agents.update(
                        agent as int,
                        self.agents@[agent as int],
                    ));
                    visits = visits.push(visit);
                }
                state = next.record(result);
            } else {
                proof {
                    let visit = Visit { shown, expired, invocation: None };
                    assert(visits.push(visit).drop_last() =~= visits);
                    visits = visits.push(visit);
                }
                state = next;
            }
        }
        proof {
            assert(start.drives(policy, visits, self.stage(state)));
            lemma_orderly(start, policy, visits);
            if count == 0 {
                law_empty_run(start, policy, visits, self.stage(state));
            }
            if forall|i: int|
                0 <= i < start.agents.len() ==> shows_only_finished(#[trigger] start.agents[i]) {
                law_finished_agents_make_no_change(start, policy, visits, self.stage(state));
            }
        }
        match state.outcome() {
            Some(end) => end,
            None => unreached(),
        }
    }
}

} // verus!
