//! The single-writer connection actor.
//!
//! One [`Actor`] owns one connection, exclusively and for its whole life.
//! Callers never see the connection; they hand the actor an operation and
//! later receive that operation's output. Operations wait in a bounded FIFO
//! queue and are executed strictly one at a time, in arrival order, each with
//! exclusive mutable access to the connection.
//!
//! The contracts here pin down the protocol the surrounding asynchronous
//! plumbing must live by:
//! - submission ([`Actor::try_submit`]) never touches the connection, hands
//!   out a fresh ticket, and refuses (without dropping or reordering
//!   anything) once the queue is at capacity — that is the backpressure
//!   point;
//! - execution ([`Actor::step`], [`Actor::run_all`]) always takes the head of
//!   the queue, applies its effect to the connection, and pairs the output
//!   with that submission's ticket and nobody else's.

use vstd::prelude::*;

verus! {

/// How many submissions may wait in the inbound queue before producers are
/// pushed back on. A tunable constant of the design.
pub const QUEUE_CAPACITY: usize = 50;

/// One deferred unit of work against the connection.
///
/// This is the sole extension point for new query behaviours: a value that,
/// consumed exactly once, is given exclusive mutable access to the connection
/// and yields one output. `effect` is its meaning: the connection it leaves
/// behind and the output it produces, as a function of the connection it was
/// given. `run` is held to exactly that meaning.
pub trait DbOperation<Conn>: Sized {
    /// What running this operation returns to the caller.
    type Output;

    /// The meaning of the operation: the connection state it leaves behind,
    /// and the output it yields, given the connection state it runs against.
    spec fn effect(self, conn: Conn) -> (Conn, Self::Output);

    /// Execute the operation, exactly once, with exclusive access to the
    /// connection.
    fn run(self, conn: &mut Conn) -> (out: Self::Output)
        ensures
            *final(conn) == self.effect(*old(conn)).0,
            out == self.effect(*old(conn)).1,
    ;
}

/// One queued submission: an operation together with the ticket that routes
/// its output back to the one caller that submitted it, and the identity of
/// the handle it arrived through.
///
/// The `source` field records which clone of the handle the submission came
/// through, only so that it can be stated that execution is blind to it:
/// see [`lemma_cloned_handle_equivalence`].
pub struct Envelope<Op> {
    /// Fresh per submission; pairs the eventual output with its caller.
    pub ticket: u64,
    /// Which handle clone the submission arrived through.
    pub source: u64,
    /// The deferred work itself.
    pub op: Op,
}

/// The abstract state of an actor: the connection it owns, the envelopes
/// waiting in arrival order, the next ticket it will hand out, and the
/// queue's capacity.
pub struct ActorView<Conn, Op> {
    pub conn: Conn,
    pub pending: Seq<Envelope<Op>>,
    pub next_ticket: u64,
    pub capacity: usize,
}

/// Well-formedness of an actor's state: the queue respects its bound, and
/// tickets grow strictly along the queue and stay below the next one to be
/// issued — so no two pending submissions ever share a ticket.
pub open spec fn inv<Conn, Op>(v: ActorView<Conn, Op>) -> bool {
    &&& 1 <= v.capacity
    &&& v.pending.len() <= v.capacity
    &&& (forall|i: int, j: int|
        0 <= i < j < v.pending.len() ==> (#[trigger] v.pending[i]).ticket < (#[trigger] v.pending[j]).ticket)
    &&& (forall|i: int|
        0 <= i < v.pending.len() ==> (#[trigger] v.pending[i]).ticket < v.next_ticket)
}

/// The exclusive custodian of one connection.
///
/// The connection is a private field and no method returns a reference to
/// it: the only way it is ever read or written is by the head operation
/// inside [`Actor::step`]. That structural fact is what makes "single
/// writer" hold.
pub struct Actor<Conn, Op> {
    conn: Conn,
    queue: Vec<Envelope<Op>>,
    next_ticket: u64,
    capacity: usize,
}

impl<Conn, Op> View for Actor<Conn, Op> {
    type V = ActorView<Conn, Op>;

    closed spec fn view(&self) -> ActorView<Conn, Op> {
        ActorView {
            conn: self.conn,
            pending: self.queue@,
            next_ticket: self.next_ticket,
            capacity: self.capacity,
        }
    }
}

impl<Conn, Op> Actor<Conn, Op> {
    /// Well-formedness, established by the constructors and preserved by
    /// every method.
    pub open spec fn wf(self) -> bool {
        inv(self@)
    }

    /// Take ownership of a connection and stand up an actor around it with
    /// the given queue bound. The caller gives up its access: from here on
    /// only this actor ever touches the connection.
    pub fn with_capacity(conn: Conn, capacity: usize) -> (actor: Self)
        requires
            1 <= capacity,
        ensures
            actor.wf(),
            actor@.conn == conn,
            actor@.pending == Seq::<Envelope<Op>>::empty(),
            actor@.next_ticket == 0,
            actor@.capacity == capacity,
    {
        Actor { conn, queue: Vec::new(), next_ticket: 0, capacity }
    }

    /// [`Actor::with_capacity`] with the default queue bound.
    pub fn new(conn: Conn) -> (actor: Self)
        ensures
            actor.wf(),
            actor@.conn == conn,
            actor@.pending == Seq::<Envelope<Op>>::empty(),
            actor@.next_ticket == 0,
            actor@.capacity == QUEUE_CAPACITY,
    {
        Self::with_capacity(conn, QUEUE_CAPACITY)
    }

    /// How many submissions are waiting.
    pub fn pending_len(&self) -> (n: usize)
        ensures
            n == self@.pending.len(),
    {
        self.queue.len()
    }

    /// The queue bound this actor was built with.
    pub fn capacity(&self) -> (n: usize)
        ensures
            n == self@.capacity,
    {
        self.capacity
    }

    /// Accept one submission, or push back.
    ///
    /// Acceptance appends the envelope at the back of the queue — behind
    /// everything already waiting, ahead of nothing — and hands the caller a
    /// fresh ticket no other submission shares. The connection is not
    /// touched. When the queue is at capacity the submission is refused and
    /// the actor is left exactly as it was: backpressure never drops or
    /// reorders work already accepted.
    pub fn try_submit(&mut self, source: u64, op: Op) -> (r: Option<u64>)
        requires
            old(self).wf(),
            old(self)@.next_ticket < u64::MAX,
        ensures
            final(self).wf(),
            final(self)@.conn == old(self)@.conn,
            final(self)@.capacity == old(self)@.capacity,
            match r {
                Some(ticket) => {
                    &&& old(self)@.pending.len() < old(self)@.capacity
                    &&& ticket == old(self)@.next_ticket
                    &&& final(self)@.next_ticket == old(self)@.next_ticket + 1
                    &&& final(self)@.pending == old(self)@.pending.push(
                        (Envelope { ticket, source, op }),
                    )
                },
                None => {
                    &&& old(self)@.pending.len() == old(self)@.capacity
                    &&& *final(self) == *old(self)
                },
            },
    {
        if self.queue.len() < self.capacity {
            let ticket = self.next_ticket;
            self.next_ticket = self.next_ticket + 1;
            self.queue.push(Envelope { ticket, source, op });
            proof {
                assert(self@.pending =~= old(self)@.pending.push(
                    (Envelope { ticket, source, op }),
                ));
            }
            Some(ticket)
        } else {
            None
        }
    }

    /// Tear the actor down and release the connection it owned. Whatever was
    /// still queued is discarded unrun, as when the inbound queue closes
    /// while work is outstanding.
    pub fn into_connection(self) -> (conn: Conn)
        ensures
            conn == self@.conn,
    {
        self.conn
    }
}

impl<Conn, Op: DbOperation<Conn>> Actor<Conn, Op> {
    /// Execute exactly the head of the queue, if any.
    ///
    /// The head operation — first submitted, first executed — runs with
    /// exclusive access to the connection; its output is paired with its own
    /// ticket. Nothing else in the queue moves or runs, so execution order
    /// is exactly arrival order.
    pub fn step(&mut self) -> (r: Option<(u64, Op::Output)>)
        requires
            old(self).wf(),
        ensures
            final(self).wf(),
            final(self)@.next_ticket == old(self)@.next_ticket,
            final(self)@.capacity == old(self)@.capacity,
            match r {
                Some(reply) => {
                    &&& old(self)@.pending.len() > 0
                    &&& reply.0 == old(self)@.pending[0].ticket
                    &&& reply.1 == old(self)@.pending[0].op.effect(old(self)@.conn).1
                    &&& final(self)@.conn == old(self)@.pending[0].op.effect(old(self)@.conn).0
                    &&& final(self)@.pending == old(self)@.pending.drop_first()
                },
                None => {
                    &&& old(self)@.pending.len() == 0
                    &&& *final(self) == *old(self)
                },
            },
    {
        if self.queue.len() == 0 {
            return None;
        }
        let env = self.queue.remove(0);
        let out = env.op.run(&mut self.conn);
        proof {
            assert(self@.pending =~= old(self)@.pending.drop_first());
        }
        Some((env.ticket, out))
    }
}

/// The operations of a queue of envelopes, in arrival order.
pub open spec fn ops_of<Op>(pending: Seq<Envelope<Op>>) -> Seq<Op> {
    pending.map_values(|env: Envelope<Op>| env.op)
}

/// The connection state left behind after running `ops` in order, starting
/// from `conn` — each operation's effect applied to the state its
/// predecessors produced.
pub open spec fn conn_after<Conn, Op: DbOperation<Conn>>(conn: Conn, ops: Seq<Op>) -> Conn
    decreases ops.len(),
{
    if ops.len() == 0 {
        conn
    } else {
        conn_after(ops[0].effect(conn).0, ops.drop_first())
    }
}

/// The outputs produced by running `ops` in order, starting from `conn`:
/// one output per operation, each computed against the connection state its
/// predecessors produced.
pub open spec fn outputs_of<Conn, Op: DbOperation<Conn>>(conn: Conn, ops: Seq<Op>) -> Seq<
    Op::Output,
>
    decreases ops.len(),
{
    if ops.len() == 0 {
        Seq::<Op::Output>::empty()
    } else {
        seq![ops[0].effect(conn).1] + outputs_of(ops[0].effect(conn).0, ops.drop_first())
    }
}

/// Running `ops` produces exactly one output per operation.
pub proof fn lemma_outputs_len<Conn, Op: DbOperation<Conn>>(conn: Conn, ops: Seq<Op>)
    ensures
        outputs_of(conn, ops).len() == ops.len(),
    decreases ops.len(),
{
    if ops.len() > 0 {
        lemma_outputs_len(ops[0].effect(conn).0, ops.drop_first());
    }
}

/// Folding the connection through `left + right` is folding it through
/// `left`, then through `right` from where `left` ended.
pub proof fn lemma_conn_after_append<Conn, Op: DbOperation<Conn>>(
    conn: Conn,
    left: Seq<Op>,
    right: Seq<Op>,
)
    ensures
        conn_after(conn, left + right) == conn_after(conn_after(conn, left), right),
    decreases left.len(),
{
    if left.len() == 0 {
        assert(left + right =~= right);
    } else {
        assert((left + right).drop_first() =~= left.drop_first() + right);
        lemma_conn_after_append(left[0].effect(conn).0, left.drop_first(), right);
    }
}

/// The outputs of `left + right` are the outputs of `left` followed by the
/// outputs of `right`, the latter computed from the connection state `left`
/// left behind.
pub proof fn lemma_outputs_append<Conn, Op: DbOperation<Conn>>(
    conn: Conn,
    left: Seq<Op>,
    right: Seq<Op>,
)
    ensures
        outputs_of(conn, left + right) == outputs_of(conn, left) + outputs_of(
            conn_after(conn, left),
            right,
        ),
    decreases left.len(),
{
    if left.len() == 0 {
        assert(left + right =~= right);
        assert(outputs_of(conn, left + right) =~= outputs_of(conn, left) + outputs_of(
            conn_after(conn, left),
            right,
        ));
    } else {
        assert((left + right).drop_first() =~= left.drop_first() + right);
        lemma_outputs_append(left[0].effect(conn).0, left.drop_first(), right);
        assert(outputs_of(conn, left + right) =~= outputs_of(conn, left) + outputs_of(
            conn_after(conn, left),
            right,
        ));
    }
}

/// Serialization: the operation at position `k` runs against the connection
/// state produced by exactly the operations before it, all of which have
/// completed, and none of those after it — an operation submitted earlier
/// finishes strictly before a later one begins.
pub proof fn lemma_serial_execution<Conn, Op: DbOperation<Conn>>(conn: Conn, ops: Seq<Op>, k: int)
    requires
        0 <= k < ops.len(),
    ensures
        outputs_of(conn, ops).len() == ops.len(),
        outputs_of(conn, ops)[k] == ops[k].effect(conn_after(conn, ops.take(k))).1,
        conn_after(conn, ops.take(k + 1)) == ops[k].effect(conn_after(conn, ops.take(k))).0,
{
    lemma_outputs_len(conn, ops);
    let before = ops.take(k);
    let from_k = ops.skip(k);
    assert(ops =~= before + from_k);
    lemma_outputs_append(conn, before, from_k);
    lemma_outputs_len(conn, before);
    let mid = conn_after(conn, before);
    assert(from_k[0] == ops[k]);
    assert(outputs_of(conn, ops)[k] == outputs_of(mid, from_k)[0]);
    assert(outputs_of(mid, from_k)[0] == ops[k].effect(mid).1);
    assert(ops.take(k + 1) =~= before + seq![ops[k]]);
    lemma_conn_after_append(conn, before, seq![ops[k]]);
    assert(conn_after(mid, seq![ops[k]]) == conn_after(
        ops[k].effect(mid).0,
        seq![ops[k]].drop_first(),
    ));
    assert(seq![ops[k]].drop_first() =~= Seq::<Op>::empty());
}

impl<Conn, Op: DbOperation<Conn>> Actor<Conn, Op> {
    /// Drain the queue: execute every pending operation, strictly in arrival
    /// order, and return each output paired with its submission's ticket, in
    /// that same order.
    ///
    /// Nothing accepted is dropped and nothing is reordered: the `i`-th
    /// reply belongs to the `i`-th pending submission and carries the output
    /// of running its operation against the connection state produced by the
    /// submissions before it.
    pub fn run_all(&mut self) -> (replies: Vec<(u64, Op::Output)>)
        requires
            old(self).wf(),
        ensures
            final(self).wf(),
            final(self)@.next_ticket == old(self)@.next_ticket,
            final(self)@.capacity == old(self)@.capacity,
            final(self)@.pending.len() == 0,
            final(self)@.conn == conn_after(old(self)@.conn, ops_of(old(self)@.pending)),
            replies@.len() == old(self)@.pending.len(),
            forall|i: int|
                0 <= i < replies@.len() ==> (#[trigger] replies@[i]).0 == old(
                    self,
                )@.pending[i].ticket && replies@[i].1 == outputs_of(
                    old(self)@.conn,
                    ops_of(old(self)@.pending),
                )[i],
    {
        let ghost conn0 = self@.conn;
        let ghost pending0 = self@.pending;
        let ghost all_ops = ops_of(pending0);
        let mut replies: Vec<(u64, Op::Output)> = Vec::new();
        proof {
            lemma_outputs_len(conn0, all_ops);
            assert(pending0.skip(0) =~= pending0);
            assert(all_ops.take(0) =~= Seq::<Op>::empty());
        }
        while self.pending_len() > 0
            invariant
                self.wf(),
                self@.next_ticket == old(self)@.next_ticket,
                self@.capacity == old(self)@.capacity,
                conn0 == old(self)@.conn,
                pending0 == old(self)@.pending,
                all_ops == ops_of(pending0),
                replies@.len() <= pending0.len(),
                self@.pending == pending0.skip(replies@.len() as int),
                self@.conn == conn_after(conn0, all_ops.take(replies@.len() as int)),
                forall|i: int|
                    0 <= i < replies@.len() ==> (#[trigger] replies@[i]).0 == pending0[i].ticket
                        && replies@[i].1 == outputs_of(conn0, all_ops)[i],
            decreases self@.pending.len(),
        {
            let ghost k: int = replies@.len() as int;
            let r = self.step();
            match r {
                Some(reply) => {
                    proof {
                        assert(pending0.skip(k)[0] == pending0[k]);
                        assert(ops_of(pending0)[k] == pending0[k].op);
                        lemma_serial_execution(conn0, all_ops, k);
                        assert(pending0.skip(k).drop_first() =~= pending0.skip(k + 1));
                        assert(all_ops.take(k).push(all_ops[k]) =~= all_ops.take(k + 1));
                    }
                    replies.push(reply);
                },
                None => {
                    proof {
                        assert(false);
                    }
                },
            }
        }
        proof {
            assert(pending0.skip(replies@.len() as int).len() == 0);
            assert(replies@.len() == pending0.len());
            assert(all_ops.take(replies@.len() as int) =~= all_ops);
        }
        replies
    }
}

/// Exactly-once delivery: in a full drain of a well-formed actor, every
/// accepted submission is answered once and only once. The reply at each
/// submission's own position carries that submission's ticket and exactly
/// the output of running its operation against the connection as it stood
/// when the operation was dequeued; and no two replies share a ticket, so
/// no ticket is ever answered a second time.
///
/// The `replies` argument is constrained to exactly what
/// [`Actor::run_all`] ensures of its result.
pub proof fn lemma_exactly_once_delivery<Conn, Op: DbOperation<Conn>>(
    v: ActorView<Conn, Op>,
    replies: Seq<(u64, Op::Output)>,
)
    requires
        inv(v),
        replies.len() == v.pending.len(),
        forall|i: int|
            0 <= i < replies.len() ==> (#[trigger] replies[i]).0 == v.pending[i].ticket
                && replies[i].1 == outputs_of(v.conn, ops_of(v.pending))[i],
    ensures
        forall|i: int|
            0 <= i < v.pending.len() ==> (#[trigger] replies[i]).0 == v.pending[i].ticket
                && replies[i].1 == ops_of(v.pending)[i].effect(
                conn_after(v.conn, ops_of(v.pending).take(i)),
            ).1,
        forall|i: int, j: int|
            0 <= i < replies.len() && 0 <= j < replies.len() && (#[trigger] replies[i]).0 == (
            #[trigger] replies[j]).0 ==> i == j,
{
    assert forall|i: int| 0 <= i < v.pending.len() implies (#[trigger] replies[i]).0
        == v.pending[i].ticket && replies[i].1 == ops_of(v.pending)[i].effect(
        conn_after(v.conn, ops_of(v.pending).take(i)),
    ).1 by {
        lemma_serial_execution(v.conn, ops_of(v.pending), i);
    }
    assert forall|i: int, j: int|
        0 <= i < replies.len() && 0 <= j < replies.len() && (#[trigger] replies[i]).0 == (
        #[trigger] replies[j]).0 implies i == j by {
        if i < j {
            assert(v.pending[i].ticket < v.pending[j].ticket);
        }
        if j < i {
            assert(v.pending[j].ticket < v.pending[i].ticket);
        }
    }
}

/// No cross-talk: in a full drain of a well-formed actor, the only reply
/// that carries the `i`-th caller's ticket is reply `i` itself, and it holds
/// exactly the output of that caller's own operation, run against the
/// connection state left by the submissions before it. No caller can ever
/// receive another's result.
pub proof fn lemma_no_cross_talk<Conn, Op: DbOperation<Conn>>(
    v: ActorView<Conn, Op>,
    replies: Seq<(u64, Op::Output)>,
)
    requires
        inv(v),
        replies.len() == v.pending.len(),
        forall|i: int|
            0 <= i < replies.len() ==> (#[trigger] replies[i]).0 == v.pending[i].ticket
                && replies[i].1 == outputs_of(v.conn, ops_of(v.pending))[i],
    ensures
        forall|i: int, j: int|
            0 <= i < v.pending.len() && 0 <= j < replies.len() && (#[trigger] replies[j]).0 == (
            #[trigger] v.pending[i]).ticket ==> j == i && replies[j].1 == outputs_of(
                v.conn,
                ops_of(v.pending),
            )[i],
{
    assert forall|i: int, j: int|
        0 <= i < v.pending.len() && 0 <= j < replies.len() && (#[trigger] replies[j]).0 == (
        #[trigger] v.pending[i]).ticket implies j == i && replies[j].1 == outputs_of(
        v.conn,
        ops_of(v.pending),
    )[i] by {
        if j < i {
            assert(v.pending[j].ticket < v.pending[i].ticket);
        }
        if i < j {
            assert(v.pending[i].ticket < v.pending[j].ticket);
        }
    }
}

/// Connection exclusivity, rendered over the serial model: the connection
/// state the operation at position `k` runs against is fully determined by
/// the `k` operations completed before it. Submissions still queued behind
/// it — whatever they are — leave no trace on that state: an operation never
/// observes a partial or concurrent effect of another.
pub proof fn lemma_connection_exclusivity<Conn, Op: DbOperation<Conn>>(
    conn: Conn,
    ops1: Seq<Op>,
    ops2: Seq<Op>,
    k: int,
)
    requires
        0 <= k <= ops1.len(),
        k <= ops2.len(),
        forall|i: int| 0 <= i < k ==> ops1[i] == ops2[i],
    ensures
        conn_after(conn, ops1.take(k)) == conn_after(conn, ops2.take(k)),
{
    assert(ops1.take(k) =~= ops2.take(k));
}

/// Cloned-handle equivalence: execution never looks at which handle a
/// submission arrived through. Two queues that hold the same operations in
/// the same arrival order — however their envelopes' `source` labels differ —
/// drive the connection through the same states and produce the same
/// outputs: all clones of a handle feed one single global order.
pub proof fn lemma_cloned_handle_equivalence<Conn, Op: DbOperation<Conn>>(
    conn: Conn,
    pending1: Seq<Envelope<Op>>,
    pending2: Seq<Envelope<Op>>,
)
    requires
        pending1.len() == pending2.len(),
        forall|i: int| 0 <= i < pending1.len() ==> (#[trigger] pending1[i]).op == pending2[i].op,
    ensures
        outputs_of(conn, ops_of(pending1)) == outputs_of(conn, ops_of(pending2)),
        conn_after(conn, ops_of(pending1)) == conn_after(conn, ops_of(pending2)),
{
    assert(ops_of(pending1) =~= ops_of(pending2));
}

/// Find the reply addressed to `ticket` in a drained actor's reply list:
/// the index of the first pair carrying that ticket, if any. Together with
/// [`lemma_no_cross_talk`] this is how a caller recovers its own output and
/// can never recover anybody else's.
pub fn find_reply<Output>(replies: &Vec<(u64, Output)>, ticket: u64) -> (r: Option<usize>)
    ensures
        match r {
            Some(i) => {
                &&& i < replies@.len()
                &&& replies@[i as int].0 == ticket
                &&& forall|j: int| 0 <= j < i ==> (#[trigger] replies@[j]).0 != ticket
            },
            None => forall|j: int| 0 <= j < replies@.len() ==> (#[trigger] replies@[j]).0 != ticket,
        },
{
    let mut i: usize = 0;
    while i < replies.len()
        invariant
            i <= replies@.len(),
            forall|j: int| 0 <= j < i ==> (#[trigger] replies@[j]).0 != ticket,
        decreases replies@.len() - i,
    {
        if replies[i].0 == ticket {
            return Some(i);
        }
        i = i + 1;
    }
    None
}

} // verus!
