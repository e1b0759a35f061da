//! Lifecycle and identity data held by every agent.

use crate::error::ExecutionError;
use crate::factsheet::FactSheet;
use crate::message::{conversation_view, Message, MessageView};
use vstd::prelude::*;

verus! {

/// Where an agent stands in its lifecycle.
///
/// An agent starts in `Discovery` and is done once it reaches `Finished`.
/// Only the agent itself moves the marker; a manager merely reads it.
#[derive(Clone, Copy, PartialEq, Eq, Structural, Debug)]
pub enum AgentState {
    Discovery,
    Working,
    UnitTesting,
    Finished,
}

impl AgentState {
    /// Whether the agent needs no further invocation.
    pub fn is_finished(&self) -> (finished: bool)
        ensures
            finished == (*self == AgentState::Finished),
    {
        match self {
            AgentState::Finished => true,
            _ => false,
        }
    }
}

/// Mathematical content of a [`BasicAgent`].
pub struct BasicAgentView {
    pub objective: Seq<char>,
    pub position: Seq<char>,
    pub state: AgentState,
    pub memory: Seq<MessageView>,
}

impl BasicAgentView {
    /// The content of an agent that has just been built for `objective` and
    /// `position`.
    pub open spec fn fresh(objective: Seq<char>, position: Seq<char>) -> BasicAgentView {
        BasicAgentView {
            objective,
            position,
            state: AgentState::Discovery,
            memory: Seq::empty(),
        }
    }

    /// Whether `self` can be reached from `earlier` by state changes and by
    /// remembering further messages: the identity is the same and the earlier
    /// memory is a prefix of the later one.
    pub open spec fn continues(self, earlier: BasicAgentView) -> bool {
        &&& self.objective == earlier.objective
        &&& self.position == earlier.position
        &&& earlier.memory.is_prefix_of(self.memory)
    }
}

/// What every agent must offer, whatever its behaviour: construction from an
/// objective and a position, read access to its four attributes, and one
/// mutator for its lifecycle state.
pub trait BasicTraits: Sized {
    /// The attributes as mathematical values.
    spec fn basic(&self) -> BasicAgentView;

    /// Builds an agent in state `Discovery` with an empty memory.
    fn new(objective: String, position: String) -> (agent: Self)
        ensures
            agent.basic() == BasicAgentView::fresh(objective@, position@),
    ;

    /// Sets the lifecycle state and nothing else.
    fn update_state(&mut self, new_state: AgentState)
        ensures
            final(self).basic() == (BasicAgentView { state: new_state, ..old(self).basic() }),
    ;

    fn get_objective(&self) -> (objective: &String)
        ensures
            objective@ == self.basic().objective,
    ;

    fn get_position(&self) -> (position: &String)
        ensures
            position@ == self.basic().position,
    ;

    fn get_state(&self) -> (state: &AgentState)
        ensures
            *state == self.basic().state,
    ;

    fn get_memory(&self) -> (memory: &Vec<Message>)
        ensures
            conversation_view(memory@) == self.basic().memory,
    ;
}

/// What a manager needs from an agent, whatever the agent does: a look at
/// its attributes, and one operation that performs a unit of work on the
/// fact sheet.
///
/// The two relations are how an implementation says what these operations
/// do. Left as they are, they say nothing, and nothing is assumed of the
/// implementation. The manager's own contract is stated over them, so it
/// holds of every implementation and is as precise as the implementation's
/// relations are.
pub trait SpecialFunctions: Sized {
    /// Whether the agent, as it stands, may show `attributes`.
    open spec fn shows(&self, attributes: BasicAgentView) -> bool {
        true
    }

    /// Whether one invocation that starts from `self` and `sheet` may end
    /// with the agent as `after`, the sheet as `sheet_after`, and `result`.
    open spec fn executed(
        &self,
        sheet: FactSheet,
        after: Self,
        sheet_after: FactSheet,
        result: Result<(), ExecutionError>,
    ) -> bool {
        true
    }

    /// Lets the manager read the agent's attributes.
    fn get_attributes_from_agent(&self) -> (attributes: &BasicAgent)
        ensures
            self.shows(attributes@),
    ;

    /// Performs the agent's work for one invocation. The agent holds the
    /// fact sheet exclusively until it returns. It may write to the sheet,
    /// extend its memory and move its own state on; an error says that the
    /// invocation made no progress, though what it wrote before it failed
    /// stays written.
    fn execute(&mut self, factsheet: &mut FactSheet) -> (result: Result<(), ExecutionError>)
        ensures
            old(self).executed(*old(factsheet), *final(self), *final(factsheet), result),
    ;
}

/// The data common to all agents: what the agent is for, which role it
/// plays, where it stands, and what it has said and heard so far.
///
/// The objective and the position are fixed at construction. The memory is
/// append-only: [`BasicAgent::remember`] is the only way to change it.
#[derive(Debug, PartialEq, Eq)]
pub struct BasicAgent {
    objective: String,
    position: String,
    state: AgentState,
    memory: Vec<Message>,
}

impl View for BasicAgent {
    type V = BasicAgentView;

    closed spec fn view(&self) -> BasicAgentView {
        BasicAgentView {
            objective: self.objective@,
            position: self.position@,
            state: self.state,
            memory: conversation_view(self.memory@),
        }
    }
}

impl BasicTraits for BasicAgent {
    open spec fn basic(&self) -> BasicAgentView {
        self@
    }

    fn new(objective: String, position: String) -> (agent: BasicAgent) {
        let agent = BasicAgent {
            objective,
            position,
            state: AgentState::Discovery,
            memory: Vec::new(),
        };
        assert(agent@.memory =~= Seq::empty());
        agent
    }

    fn update_state(&mut self, new_state: AgentState)
        ensures
            final(self)@.continues(old(self)@),
    {
        self.state = new_state;
    }

    fn get_objective(&self) -> (objective: &String) {
        &self.objective
    }

    fn get_position(&self) -> (position: &String) {
        &self.position
    }

    fn get_state(&self) -> (state: &AgentState) {
        &self.state
    }

    fn get_memory(&self) -> (memory: &Vec<Message>) {
        &self.memory
    }
}

impl BasicAgent {
    /// Appends `message` to the memory. Nothing already remembered is
    /// touched, and the rest of the agent is unchanged.
    pub fn remember(&mut self, message: Message)
        ensures
            final(self)@ == (BasicAgentView {
                memory: old(self)@.memory.push(message@),
                ..old(self)@
            }),
            final(self)@.continues(old(self)@),
    {
        self.memory.push(message);
        assert(conversation_view(self.memory@) =~= conversation_view(old(self).memory@).push(
            message@,
        ));
    }
}

impl Clone for BasicAgent {
    /// An agent with the same attributes.
    fn clone(&self) -> (copy: BasicAgent)
        ensures
            copy@ == self@,
    {
        let mut memory: Vec<Message> = Vec::new();
        let mut i: usize = 0;
        while i < self.memory.len()
            invariant
                i <= self.memory@.len(),
                memory@ == self.memory@.take(i as int),
            decreases self.memory@.len() - i,
        {
            let message = self.memory[i].clone();
            assert(self.memory@.take(i as int).push(message) =~= self.memory@.take(i + 1));
            memory.push(message);
            i += 1;
        }
        assert(memory@ =~= self.memory@);
        BasicAgent {
            objective: self.objective.clone(),
            position: self.position.clone(),
            state: self.state,
            memory,
        }
    }
}

} // verus!
