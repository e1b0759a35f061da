//! The laws of a run.
//!
//! Each law is a theorem about every history that the rules of a run admit,
//! whatever the agents do. The manager's `run` promises such a history, so
//! each law holds of every run that the manager performs.

use crate::agent::{AgentState, SpecialFunctions};
use crate::history::{shows_finished, shows_only_finished, Stage, Visit};
use crate::run::{AbortReason, RunAbort, RunPolicy, RunState};
use vstd::prelude::*;

verus! {

/// Every beginning of a lawful history is lawful, and each visit is admitted
/// at the stage before it and leads to the stage before the next.
pub proof fn lemma_prefix<A: SpecialFunctions>(
    start: Stage<A>,
    policy: RunPolicy,
    visits: Seq<Visit<A>>,
    k: int,
)
    requires
        start.lawful(policy, visits),
        0 <= k <= visits.len(),
    ensures
        start.lawful(policy, visits.take(k)),
        k < visits.len() ==> start.before(policy, visits, k).admits(policy, visits[k]),
        k < visits.len() ==> start.before(policy, visits, k + 1) == start.before(
            policy,
            visits,
            k,
        ).after(policy, visits[k]),
    decreases visits.len(),
{
    if k == visits.len() {
        assert(visits.take(k) =~= visits);
    } else {
        let front = visits.drop_last();
        if k == visits.len() - 1 {
            assert(visits.take(k) =~= front);
            assert(visits.take(k + 1) =~= visits);
        } else {
            lemma_prefix(start, policy, front, k);
            assert(visits.take(k) =~= front.take(k));
            assert(visits.take(k + 1) =~= front.take(k + 1));
        }
    }
}

/// An agent that was never invoked has no failure on record.
proof fn lemma_never_invoked_never_failed<A: SpecialFunctions>(
    start: Stage<A>,
    policy: RunPolicy,
    visits: Seq<Visit<A>>,
    agent: int,
)
    requires
        start.invocations_of(policy, visits, agent) == 0,
    ensures
        start.last_failure_of(policy, visits, agent) is None,
    decreases visits.len(),
{
    if visits.len() > 0 {
        lemma_never_invoked_never_failed(start, policy, visits.drop_last(), agent);
    }
}

/// What holds at the end of every lawful history that starts at the
/// beginning of a run.
///
/// The cursor is where the counts say: the agent under the cursor has been
/// invoked as often as the state has it, and its latest failure is the one
/// on record; an abort that is not due to the deadline comes exactly when
/// the attempts are used up; agents behind the cursor were never invoked and
/// are as they were; no visit was further on than the cursor is; and every
/// agent that the cursor has passed was seen finished and shows it still.
pub proof fn lemma_orderly<A: SpecialFunctions>(
    start: Stage<A>,
    policy: RunPolicy,
    visits: Seq<Visit<A>>,
)
    requires
        start.begins(),
        start.lawful(policy, visits),
    ensures
        ({
            let end = start.replay(policy, visits);
            let n = start.agents.len();
            &&& end.agents.len() == n
            &&& !(end.state is NotStarted)
            &&& 0 <= end.cursor() <= n
            &&& (end.state matches RunState::Running { agent, of, attempts, last_failure } ==> {
                &&& of == n
                &&& agent < n
                &&& attempts <= policy.max_attempts
                &&& attempts == start.invocations_of(policy, visits, agent as int)
                &&& last_failure == start.last_failure_of(policy, visits, agent as int)
            })
            &&& (end.state matches RunState::Aborted(RunAbort { agent, reason }) ==> {
                &&& agent < n
                &&& visits.len() > 0
                &&& start.before(policy, visits, visits.len() - 1).cursor() == agent
                &&& visits.last().invocation is None
                &&& visits.last().shown.state != AgentState::Finished
                &&& reason is DeadlineExceeded <==> visits.last().expired
                &&& !visits.last().expired ==> {
                    &&& start.invocations_of(policy, visits, agent as int) == policy.max_attempts
                    &&& reason == AbortReason::exhausted(
                        start.last_failure_of(policy, visits, agent as int),
                    )
                }
            })
            &&& forall|i: int|
                end.cursor() < i < n ==> #[trigger] start.invocations_of(policy, visits, i) == 0
            &&& forall|i: int|
                0 <= i < n ==> #[trigger] start.invocations_of(policy, visits, i)
                    <= policy.max_attempts
            &&& forall|i: int| end.cursor() < i < n ==> #[trigger] end.agents[i] == start.agents[i]
            &&& forall|k: int|
                0 <= k < visits.len() ==> #[trigger] start.before(policy, visits, k).cursor()
                    <= end.cursor()
            &&& forall|i: int| 0 <= i < end.cursor() ==> shows_finished(#[trigger] end.agents[i])
            &&& forall|i: int|
                0 <= i < end.cursor() ==> #[trigger] start.seen_finished(policy, visits, i)
        }),
    decreases visits.len(),
{
    let n = start.agents.len();
    if visits.len() == 0 {
        assert(start.replay(policy, visits) == start);
    } else {
        let front = visits.drop_last();
        let visit = visits.last();
        let last = visits.len() - 1;
        let stage = start.replay(policy, front);
        let end = start.replay(policy, visits);
        lemma_orderly(start, policy, front);
        assert(stage.admits(policy, visit));
        assert(end == stage.after(policy, visit));
        let at = stage.cursor();
        assert(visits.take(last) =~= front);
        assert(start.before(policy, visits, last) == stage);
        assert forall|k: int| 0 <= k < visits.len() implies #[trigger] start.before(
            policy,
            visits,
            k,
        ).cursor() <= end.cursor() by {
            if k < last {
                assert(visits.take(k) =~= front.take(k));
                assert(start.before(policy, front, k).cursor() <= stage.cursor());
            }
        }
        assert forall|i: int| 0 <= i < end.cursor() implies #[trigger] start.seen_finished(
            policy,
            visits,
            i,
        ) by {
            if i < at {
                assert(start.seen_finished(policy, front, i));
                let k = choose|k: int|
                    0 <= k < front.len() && #[trigger] start.before(policy, front, k).cursor() == i
                        && front[k].shown.state == AgentState::Finished;
                assert(visits.take(k) =~= front.take(k));
                assert(start.before(policy, visits, k).cursor() == i);
            } else {
                assert(start.before(policy, visits, last).cursor() == i);
            }
        }
        assert forall|i: int| 0 <= i < end.cursor() implies shows_finished(
            #[trigger] end.agents[i],
        ) by {
            if i < at {
                assert(end.agents[i] == stage.agents[i]);
                assert(shows_finished(stage.agents[i]));
            } else {
                assert(stage.agents[at].shows(visit.shown));
            }
        }
        assert forall|i: int| end.cursor() < i < n implies #[trigger] start.invocations_of(
            policy,
            visits,
            i,
        ) == 0 by {
            assert(start.invocations_of(policy, front, i) == 0);
        }
        assert forall|i: int| end.cursor() < i < n implies #[trigger] end.agents[i]
            == start.agents[i] by {
            assert(stage.agents[i] == start.agents[i]);
        }
        assert forall|i: int| 0 <= i < n implies #[trigger] start.invocations_of(policy, visits, i)
            <= policy.max_attempts by {
            assert(start.invocations_of(policy, front, i) <= policy.max_attempts);
        }
        if end.state is Running {
            if end.cursor() == at + 1 {
                assert(start.invocations_of(policy, front, at + 1) == 0);
                lemma_never_invoked_never_failed(start, policy, front, at + 1);
            } else {
                assert(end.cursor() == at);
                assert(visit.invocation is Some);
            }
        }
    }
}

/// A run without agents is complete before it visits anyone: the history is
/// empty, and the fact sheet at the end is the fact sheet at the start.
pub proof fn law_empty_run<A: SpecialFunctions>(
    start: Stage<A>,
    policy: RunPolicy,
    visits: Seq<Visit<A>>,
    end: Stage<A>,
)
    requires
        start.begins(),
        start.agents.len() == 0,
        start.drives(policy, visits, end),
    ensures
        visits.len() == 0,
        end.state == RunState::Completed,
        end.sheet == start.sheet,
        end.agents == start.agents,
{
    if visits.len() > 0 {
        lemma_prefix(start, policy, visits, 0);
        assert(visits.take(0) =~= Seq::<Visit<A>>::empty());
        assert(start.before(policy, visits, 0) == start);
    }
}

/// Agents are visited in the order of their registration: of two visits,
/// the earlier one is to the agent registered first, or both are to the
/// same agent.
pub proof fn law_registration_order<A: SpecialFunctions>(
    start: Stage<A>,
    policy: RunPolicy,
    visits: Seq<Visit<A>>,
    i: int,
    j: int,
)
    requires
        start.begins(),
        start.lawful(policy, visits),
        0 <= i <= j < visits.len(),
    ensures
        start.before(policy, visits, i).cursor() <= start.before(policy, visits, j).cursor(),
{
    if i < j {
        lemma_prefix(start, policy, visits, j);
        let front = visits.take(j);
        lemma_orderly(start, policy, front);
        assert(front.take(i) =~= visits.take(i));
        assert(start.before(policy, front, i).cursor() <= start.replay(policy, front).cursor());
    }
}

/// The fact sheet is threaded through the visits. An invocation works on
/// the sheet exactly as the visit before left it, and leaves the sheet for
/// the visit after it; a visit without an invocation changes neither the
/// sheet nor any agent. So no write is lost, and what an earlier agent wrote
/// is there for every later one to read or replace.
pub proof fn law_sheet_is_threaded<A: SpecialFunctions>(
    start: Stage<A>,
    policy: RunPolicy,
    visits: Seq<Visit<A>>,
    k: int,
)
    requires
        start.lawful(policy, visits),
        0 <= k < visits.len(),
    ensures
        start.before(policy, visits, 0) == start,
        ({
            let stage = start.before(policy, visits, k);
            let next = start.before(policy, visits, k + 1);
            match visits[k].invocation {
                Some(invocation) => {
                    &&& 0 <= stage.cursor() < stage.agents.len()
                    &&& stage.agents[stage.cursor()].executed(
                        stage.sheet,
                        invocation.after,
                        invocation.sheet_after,
                        invocation.result,
                    )
                    &&& next.sheet == invocation.sheet_after
                    &&& next.agents == stage.agents.update(stage.cursor(), invocation.after)
                },
                None => next.sheet == stage.sheet && next.agents == stage.agents,
            }
        }),
{
    lemma_prefix(start, policy, visits, k);
    assert(visits.take(0) =~= Seq::<Visit<A>>::empty());
}

/// The fact sheet at the end of a history is the sheet as the last
/// invocation left it. With the order of the visits this says whose write
/// stands when two agents write the same field: that of the agent registered
/// later, for its invocations come after all those of the other.
pub proof fn law_last_invocation_leaves_the_sheet<A: SpecialFunctions>(
    start: Stage<A>,
    policy: RunPolicy,
    visits: Seq<Visit<A>>,
    k: int,
)
    requires
        start.lawful(policy, visits),
        0 <= k < visits.len(),
        visits[k].invocation is Some,
        forall|j: int| k < j < visits.len() ==> (#[trigger] visits[j]).invocation is None,
    ensures
        start.replay(policy, visits).sheet == visits[k].invocation->Some_0.sheet_after,
    decreases visits.len(),
{
    if k < visits.len() - 1 {
        let front = visits.drop_last();
        assert(visits[visits.len() - 1].invocation is None);
        assert forall|j: int| k < j < front.len() implies (#[trigger] front[j]).invocation is None by {
            assert(front[j] == visits[j]);
        }
        law_last_invocation_leaves_the_sheet(start, policy, front, k);
    }
}

/// A finished agent is passed over: a visit that finds the agent finished
/// invokes nobody and leaves the fact sheet and all agents as they are.
pub proof fn law_finished_agent_is_skipped<A: SpecialFunctions>(
    stage: Stage<A>,
    policy: RunPolicy,
    visit: Visit<A>,
)
    requires
        stage.admits(policy, visit),
        visit.shown.state == AgentState::Finished,
    ensures
        visit.invocation is None,
        stage.after(policy, visit).sheet == stage.sheet,
        stage.after(policy, visit).agents == stage.agents,
{
}

/// An agent is only ever invoked when it has just shown itself unfinished.
pub proof fn law_invoked_agents_are_unfinished<A: SpecialFunctions>(
    start: Stage<A>,
    policy: RunPolicy,
    visits: Seq<Visit<A>>,
    k: int,
)
    requires
        start.lawful(policy, visits),
        0 <= k < visits.len(),
        visits[k].invocation is Some,
    ensures
        visits[k].shown.state != AgentState::Finished,
        !visits[k].expired,
{
    lemma_prefix(start, policy, visits, k);
}

/// A run over agents that show themselves finished whenever they are looked
/// at invokes nobody: it completes, and the fact sheet and the agents are
/// at the end what they were at the start.
pub proof fn law_finished_agents_make_no_change<A: SpecialFunctions>(
    start: Stage<A>,
    policy: RunPolicy,
    visits: Seq<Visit<A>>,
    end: Stage<A>,
)
    requires
        start.begins(),
        start.drives(policy, visits, end),
        forall|i: int| 0 <= i < start.agents.len() ==> shows_only_finished(#[trigger] start.agents[i]),
    ensures
        end.state == RunState::Completed,
        end.sheet == start.sheet,
        end.agents == start.agents,
        forall|k: int| 0 <= k < visits.len() ==> (#[trigger] visits[k]).invocation is None,
{
    lemma_all_skipped(start, policy, visits);
    lemma_orderly(start, policy, visits);
}

/// Visits to agents that only ever show themselves finished change nothing
/// but the cursor.
proof fn lemma_all_skipped<A: SpecialFunctions>(
    start: Stage<A>,
    policy: RunPolicy,
    visits: Seq<Visit<A>>,
)
    requires
        start.lawful(policy, visits),
        forall|i: int| 0 <= i < start.agents.len() ==> shows_only_finished(#[trigger] start.agents[i]),
    ensures
        start.replay(policy, visits).sheet == start.sheet,
        start.replay(policy, visits).agents == start.agents,
        forall|k: int| 0 <= k < visits.len() ==> (#[trigger] visits[k]).invocation is None,
        visits.len() > 0 ==> visits.last().shown.state == AgentState::Finished,
    decreases visits.len(),
{
    if visits.len() > 0 {
        let front = visits.drop_last();
        lemma_all_skipped(start, policy, front);
        let stage = start.replay(policy, front);
        assert(stage.admits(policy, visits.last()));
        assert(shows_only_finished(start.agents[stage.cursor()]));
        assert forall|k: int| 0 <= k < visits.len() implies (#[trigger] visits[k]).invocation is None by {
            if k < front.len() {
                assert(front[k] == visits[k]);
            }
        }
    }
}

/// No agent is invoked more often than the policy permits, so a run over
/// `n` agents makes at most `n` times that many invocations.
pub proof fn law_attempts_are_bounded<A: SpecialFunctions>(
    start: Stage<A>,
    policy: RunPolicy,
    visits: Seq<Visit<A>>,
    agent: int,
)
    requires
        start.begins(),
        start.lawful(policy, visits),
        0 <= agent < start.agents.len(),
    ensures
        start.invocations_of(policy, visits, agent) <= policy.max_attempts,
{
    lemma_orderly(start, policy, visits);
}

/// When a run is complete, every agent has been seen finished, has not been
/// invoked since, and shows itself finished as the run leaves it.
pub proof fn law_completed_run_finished_all<A: SpecialFunctions>(
    start: Stage<A>,
    policy: RunPolicy,
    visits: Seq<Visit<A>>,
    end: Stage<A>,
    agent: int,
)
    requires
        start.begins(),
        start.drives(policy, visits, end),
        end.state == RunState::Completed,
        0 <= agent < start.agents.len(),
    ensures
        end.agents.len() == start.agents.len(),
        start.seen_finished(policy, visits, agent),
        shows_finished(end.agents[agent]),
{
    lemma_orderly(start, policy, visits);
}

/// When a run is aborted, it is aborted at the agent that it visited last,
/// and that agent was not finished. Unless the deadline has passed, the
/// agent has been invoked exactly as often as the policy permits, and the
/// reason is the failure of its latest invocation, or that it succeeded
/// without finishing. The agents registered behind it were never invoked
/// and are as they were at the start.
pub proof fn law_aborted_run<A: SpecialFunctions>(
    start: Stage<A>,
    policy: RunPolicy,
    visits: Seq<Visit<A>>,
    end: Stage<A>,
)
    requires
        start.begins(),
        start.drives(policy, visits, end),
        end.state is Aborted,
    ensures
        end.agents.len() == start.agents.len(),
        0 <= end.cursor() < start.agents.len(),
        visits.len() > 0,
        start.before(policy, visits, visits.len() - 1).cursor() == end.cursor(),
        visits.last().shown.state != AgentState::Finished,
        end.state->Aborted_0.reason is DeadlineExceeded <==> visits.last().expired,
        !visits.last().expired ==> {
            &&& start.invocations_of(policy, visits, end.cursor()) == policy.max_attempts
            &&& end.state->Aborted_0.reason == AbortReason::exhausted(
                start.last_failure_of(policy, visits, end.cursor()),
            )
        },
        forall|i: int|
            end.cursor() < i < start.agents.len() ==> #[trigger] start.invocations_of(
                policy,
                visits,
                i,
            ) == 0,
        forall|i: int|
            end.cursor() < i < start.agents.len() ==> #[trigger] end.agents[i] == start.agents[i],
{
    lemma_orderly(start, policy, visits);
}

/// If each of the first `m` visits that invokes the agent at index `agent`
/// ends in failure, then after those visits the agent has a failure on
/// record as soon as it has been invoked at all.
proof fn lemma_failures_stay_on_record<A: SpecialFunctions>(
    start: Stage<A>,
    policy: RunPolicy,
    visits: Seq<Visit<A>>,
    agent: int,
    m: int,
)
    requires
        0 <= m <= visits.len(),
        forall|k: int|
            0 <= k < visits.len() && #[trigger] start.before(policy, visits, k).cursor() == agent
                && visits[k].invocation is Some ==> visits[k].invocation->Some_0.result is Err,
    ensures
        start.invocations_of(policy, visits.take(m), agent) > 0 ==> start.last_failure_of(
            policy,
            visits.take(m),
            agent,
        ) is Some,
    decreases m,
{
    if m > 0 {
        lemma_failures_stay_on_record(start, policy, visits, agent, m - 1);
        assert(visits.take(m).drop_last() =~= visits.take(m - 1));
        assert(visits.take(m).last() == visits[m - 1]);
        if visits[m - 1].invocation is Some && start.before(policy, visits, m - 1).cursor() == agent {
            assert(visits[m - 1].invocation->Some_0.result is Err);
        }
    }
}

/// An agent that always fails exhausts its attempts and ends the run. Take
/// an agent that the run reaches, that is unfinished whenever it is visited,
/// whose every invocation fails, and during whose visits the deadline does
/// not pass. Then the run is aborted at that agent after exactly as many
/// invocations of it as the policy permits, on account of its last failure,
/// and no agent registered behind it is ever visited or invoked.
pub proof fn law_retry_exhaustion<A: SpecialFunctions>(
    start: Stage<A>,
    policy: RunPolicy,
    visits: Seq<Visit<A>>,
    end: Stage<A>,
    agent: int,
)
    requires
        start.begins(),
        start.drives(policy, visits, end),
        0 <= agent < start.agents.len(),
        agent <= end.cursor(),
        forall|k: int|
            0 <= k < visits.len() && #[trigger] start.before(policy, visits, k).cursor() == agent
                ==> visits[k].shown.state != AgentState::Finished && !visits[k].expired,
        forall|k: int|
            0 <= k < visits.len() && #[trigger] start.before(policy, visits, k).cursor() == agent
                && visits[k].invocation is Some ==> visits[k].invocation->Some_0.result is Err,
    ensures
        end.state is Aborted,
        end.state->Aborted_0.agent == agent,
        if policy.max_attempts == 0 {
            end.state->Aborted_0.reason is Unfinished
        } else {
            end.state->Aborted_0.reason is Failed
        },
        end.state->Aborted_0.reason == AbortReason::exhausted(
            start.last_failure_of(policy, visits, agent),
        ),
        start.invocations_of(policy, visits, agent) == policy.max_attempts,
        forall|k: int|
            0 <= k < visits.len() ==> #[trigger] start.before(policy, visits, k).cursor() <= agent,
        forall|i: int|
            agent < i < start.agents.len() ==> #[trigger] start.invocations_of(policy, visits, i)
                == 0,
        forall|i: int|
            agent < i < start.agents.len() ==> #[trigger] end.agents[i] == start.agents[i],
{
    lemma_orderly(start, policy, visits);
    if agent < end.cursor() {
        assert(start.seen_finished(policy, visits, agent));
    }
    assert(end.cursor() == agent);
    assert(end.state is Aborted);
    assert(start.before(policy, visits, visits.len() - 1).cursor() == agent);
    assert(!visits.last().expired);
    lemma_failures_stay_on_record(start, policy, visits, agent, visits.len() as int);
    assert(visits.take(visits.len() as int) =~= visits);
    if policy.max_attempts == 0 {
        lemma_never_invoked_never_failed(start, policy, visits, agent);
    }
}

} // verus!
