//! A blocking work queue and a fixed-size worker pool that drains it, stated
//! as the state machines that run under their locks.
//!
//! Every operation on a queue or a pool happens while its one lock is held,
//! so a run of the whole system, whatever its threads, is a sequence of these
//! operations applied one after another to one state. The modules hold that
//! state, its operations, and what is true of every such sequence:
//!
//! - [`queue`]: the pending items and the shutdown flag;
//! - [`history`]: first in, first out; nothing lost or doubled; graceful
//!   drain;
//! - [`parking`]: no consumer sleeps on work;
//! - [`pool`]: the dispatch channel and the workers' loop, and that every task
//!   runs exactly once;
//! - [`prime`]: the primality test that counting workers apply;
//! - [`reply`]: what serving workers answer to a request.
//!
//! Locks, condition variables and threads are the caller's: the operations
//! say when a consumer has to park and whom a call has to wake.

pub mod prime;
pub mod queue;
pub mod history;
pub mod parking;
pub mod pool;
pub mod reply;
