//! A single-writer database-access core.
//!
//! Many producers issue operations against one non-thread-safe connection.
//! All operations are funnelled through a single owner that executes them
//! strictly one at a time, in arrival order, and hands each result back to
//! the caller that submitted it.
//!
//! The modules here hold the verified heart of that design: the envelope and
//! queue discipline ([`actor`]), the single-use reply slot ([`reply`]), a
//! small counter connection used to exercise the actor ([`counter`]), and the
//! result union the surrounding system speaks in ([`query_output`]).

pub mod actor;
pub mod counter;
pub mod query_output;
pub mod reply;
