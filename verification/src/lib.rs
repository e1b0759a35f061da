//! Coordination core of a multi-agent task runner.
//!
//! A managing agent drives an ordered collection of worker agents. Each worker
//! receives exclusive access to a shared fact sheet for the duration of one
//! invocation, reports success or failure, and moves itself through a small
//! lifecycle. The manager only reads that lifecycle: it skips finished agents,
//! re-invokes unfinished ones within a bounded number of attempts, and aborts
//! the run when an agent exhausts its attempts or the run's deadline passes.
//!
//! Every function of this crate is verified. Contracts are stated over the
//! views of the data types and over the run's transition function, so the
//! ordering, skip and retry rules are theorems rather than conventions. What
//! is taken on trust, of the `http` crate's header values and of the
//! standard library's clock, is declared where it is used.
//!
//! The modules, from the leaves up:
//!
//! - [`message`]: roles and messages of a conversation;
//! - [`error`]: the errors of the gateway and of an invocation;
//! - [`agent`]: the lifecycle state, the data common to all agents, and the
//!   two traits that agents implement;
//! - [`factsheet`]: the shared record of named fields;
//! - [`gateway`]: the decisions around one completion request;
//! - [`run`]: the state machine of a run;
//! - [`history`] and [`laws`]: what a run is, and what holds of every run;
//! - [`manager`]: the managing agent, which performs runs.

pub mod agent;
pub mod error;
pub mod factsheet;
pub mod gateway;
pub mod history;
pub mod laws;
pub mod manager;
pub mod message;
pub mod run;

