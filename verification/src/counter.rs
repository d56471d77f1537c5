//! A counter connection: the smallest resource worth serializing.
//!
//! [`Counter`] stands in for a live session that must never be touched by
//! two operations at once; [`CounterOp`] is a closed set of operations on
//! it. Together they give the actor a concrete, fully specified workload:
//! tests drive the actor with these and check arrival-order execution,
//! delivery, and backpressure against exact expected values.

use vstd::prelude::*;
use crate::actor::DbOperation;

verus! {

/// A connection holding nothing but one counter value.
#[derive(Debug, Clone, Copy, PartialEq, Eq, Structural)]
pub struct Counter {
    pub value: u64,
}

/// The operations a caller may run against a [`Counter`].
#[derive(Debug, Clone, Copy, PartialEq, Eq, Structural)]
pub enum CounterOp {
    /// Add one to the counter, wrapping at the top, and return the new
    /// value.
    Increment,
    /// Return the current counter value, leaving the connection untouched.
    Read,
    /// Return the given payload unchanged, leaving the connection
    /// untouched — a query whose answer identifies its own caller, used to
    /// tell concurrent submissions apart.
    Echo(u64),
}

impl DbOperation<Counter> for CounterOp {
    type Output = u64;

    open spec fn effect(self, conn: Counter) -> (Counter, u64) {
        match self {
            CounterOp::Increment => {
                let bumped: u64 = if conn.value == u64::MAX {
                    0u64
                } else {
                    (conn.value + 1) as u64
                };
                (Counter { value: bumped }, bumped)
            },
            CounterOp::Read => (conn, conn.value),
            CounterOp::Echo(payload) => (conn, payload),
        }
    }

    fn run(self, conn: &mut Counter) -> (out: u64) {
        match self {
            CounterOp::Increment => {
                if conn.value == u64::MAX {
                    conn.value = 0;
                } else {
                    conn.value = conn.value + 1;
                }
                conn.value
            },
            CounterOp::Read => conn.value,
            CounterOp::Echo(payload) => payload,
        }
    }
}

} // verus!
