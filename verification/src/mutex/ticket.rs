//! A FIFO-fair ticket mutex with exponential backoff.

use vstd::arithmetic::div_mod::{lemma_add_mod_noop, lemma_mod_pos_bound, lemma_small_mod};
use vstd::prelude::*;

use crate::backoff::Backoff;
use crate::mutex::RawMutex;

verus! {

/// The successor of a counter value with machine-word wraparound, as a
/// `fetch_add` of one computes it.
pub open spec fn wadd1(x: usize) -> usize {
    if x == usize::MAX {
        0usize
    } else {
        (x + 1) as usize
    }
}

/// One more than the largest counter value: counters count modulo this.
pub open spec fn counter_range() -> int {
    usize::MAX as int + 1
}

/// `n` reduced modulo the counter range.
pub open spec fn mod_range(n: int) -> int {
    n % counter_range()
}

/// The two counters of a ticket mutex, as one plain value.
pub struct TicketState {
    /// The ticket the next arriving waiter will draw.
    pub next_ticket: usize,
    /// The ticket currently being served.
    pub next_serving: usize,
}

/// A fresh ticket mutex's counters.
pub open spec fn ticket_init() -> TicketState {
    TicketState { next_ticket: 0, next_serving: 0 }
}

/// The counters never drift more than one apart: the holder's ticket, if
/// any, is the one being served.
pub open spec fn ticket_wf(s: TicketState) -> bool {
    s.next_ticket == s.next_serving || s.next_ticket == wadd1(s.next_serving)
}

/// Whether a grant is outstanding: the counters differ.
pub open spec fn ticket_locked(s: TicketState) -> bool {
    s.next_ticket != s.next_serving
}

/// A fair ticket lock with exponential backoff.
///
/// Each arriving waiter draws a ticket by incrementing `next_ticket` and
/// then spins until `next_serving` reaches its ticket; release increments
/// `next_serving`. Tickets are therefore served strictly in the order they
/// were drawn ([`lemma_ticket_fifo`]).
pub struct RawTicketMutex {
    next_ticket: usize,
    next_serving: usize,
}

impl View for RawTicketMutex {
    type V = TicketState;

    closed spec fn view(&self) -> TicketState {
        TicketState { next_ticket: self.next_ticket, next_serving: self.next_serving }
    }
}

impl RawTicketMutex {
    /// The counters never drift more than one apart.
    pub open spec fn wf(&self) -> bool {
        ticket_wf(self@)
    }

    /// A fresh, unlocked ticket mutex.
    pub fn new() -> (m: Self)
        ensures
            m.wf(),
            !m.locked(),
            m@ == ticket_init(),
    {
        RawTicketMutex { next_ticket: 0, next_serving: 0 }
    }

    /// Draw a ticket and spin until it is served.
    pub fn lock(&mut self)
        requires
            old(self).wf(),
            !old(self).locked(),
        ensures
            final(self).wf(),
            final(self).locked(),
            final(self)@ == ticket_step(old(self)@, TicketOp::Lock),
            final(self)@.next_ticket == wadd1(old(self)@.next_ticket),
            final(self)@.next_serving == old(self)@.next_serving,
    {
        let ticket = self.next_ticket;
        self.next_ticket = self.next_ticket.wrapping_add(1);

        let mut backoff = Backoff::new();
        while self.next_serving != ticket
            invariant
                backoff.wf(),
                self.next_serving == old(self)@.next_serving,
                self.next_ticket == wadd1(old(self)@.next_ticket),
                ticket == old(self)@.next_ticket,
                old(self)@.next_ticket == old(self)@.next_serving,
            decreases 0int,
        {
            backoff.snooze();
        }
    }

    /// Draw a ticket only if it would be served immediately.
    pub fn try_lock(&mut self) -> (acquired: bool)
        requires
            old(self).wf(),
        ensures
            final(self).wf(),
            acquired == !old(self).locked(),
            acquired == ticket_grants(old(self)@, TicketOp::TryLock),
            final(self)@ == ticket_step(old(self)@, TicketOp::TryLock),
            acquired ==> final(self).locked(),
            !acquired ==> *final(self) == *old(self),
    {
        let ticket = self.next_ticket;
        if self.next_serving == ticket {
            self.next_ticket = ticket.wrapping_add(1);
            true
        } else {
            false
        }
    }

    /// Serve the next ticket. Only the holder may call this.
    pub fn unlock(&mut self)
        requires
            old(self).wf(),
            old(self).locked(),
        ensures
            final(self).wf(),
            !final(self).locked(),
            final(self)@ == ticket_step(old(self)@, TicketOp::Unlock),
            final(self)@.next_serving == wadd1(old(self)@.next_serving),
            final(self)@.next_ticket == old(self)@.next_ticket,
    {
        self.next_serving = self.next_serving.wrapping_add(1);
    }

    /// Whether a grant is outstanding.
    pub fn is_locked(&self) -> (r: bool)
        ensures
            r == self.locked(),
    {
        let ticket = self.next_ticket;
        self.next_serving != ticket
    }

    /// Release the lock fairly: for a ticket lock, the plain release already
    /// hands the lock to the longest waiter.
    pub fn unlock_fair(&mut self)
        requires
            old(self).wf(),
            old(self).locked(),
        ensures
            final(self).wf(),
            !final(self).locked(),
            final(self)@.next_serving == wadd1(old(self)@.next_serving),
            final(self)@.next_ticket == old(self)@.next_ticket,
    {
        self.unlock();
    }

    /// Yield to the queue: if other tickets are waiting, release the lock
    /// and draw a fresh ticket. Only the holder may call this. With no
    /// waiter present the state is left untouched; on a single execution
    /// context no waiter can be present, so this never changes the state.
    pub fn bump(&mut self)
        requires
            old(self).wf(),
            old(self).locked(),
        ensures
            *final(self) == *old(self),
    {
        let ticket = self.next_ticket;
        let serving = self.next_serving;
        if serving.wrapping_add(1) != ticket {
            self.unlock_fair();
            self.lock();
        }
    }
}

impl RawMutex for RawTicketMutex {
    open spec fn inv(&self) -> bool {
        self.wf()
    }

    open spec fn locked(&self) -> bool {
        ticket_locked(self@)
    }

    fn init() -> (m: Self) {
        RawTicketMutex::new()
    }

    fn lock(&mut self) {
        RawTicketMutex::lock(self)
    }

    fn try_lock(&mut self) -> (acquired: bool) {
        RawTicketMutex::try_lock(self)
    }

    fn unlock(&mut self) {
        RawTicketMutex::unlock(self)
    }

    fn is_locked(&self) -> (r: bool) {
        RawTicketMutex::is_locked(self)
    }
}

/// One operation on a ticket mutex, for reasoning about whole executions.
pub enum TicketOp {
    Lock,
    TryLock,
    Unlock,
    UnlockFair,
    Bump,
}

/// Whether `op` may run in state `s`.
pub open spec fn ticket_enabled(s: TicketState, op: TicketOp) -> bool {
    match op {
        TicketOp::Lock => !ticket_locked(s),
        TicketOp::TryLock => true,
        TicketOp::Unlock => ticket_locked(s),
        TicketOp::UnlockFair => ticket_locked(s),
        TicketOp::Bump => ticket_locked(s),
    }
}

/// The counters after `op` runs in state `s`; exactly the transitions the
/// executable operations' contracts state.
pub open spec fn ticket_step(s: TicketState, op: TicketOp) -> TicketState {
    match op {
        TicketOp::Lock => TicketState { next_ticket: wadd1(s.next_ticket), ..s },
        TicketOp::TryLock => if !ticket_locked(s) {
            TicketState { next_ticket: wadd1(s.next_ticket), ..s }
        } else {
            s
        },
        TicketOp::Unlock => TicketState { next_serving: wadd1(s.next_serving), ..s },
        TicketOp::UnlockFair => TicketState { next_serving: wadd1(s.next_serving), ..s },
        TicketOp::Bump => s,
    }
}

/// Whether `op` grants the lock when run in state `s`; the grantee's ticket
/// is `s.next_ticket`.
pub open spec fn ticket_grants(s: TicketState, op: TicketOp) -> bool {
    match op {
        TicketOp::Lock => true,
        TicketOp::TryLock => !ticket_locked(s),
        TicketOp::Unlock => false,
        TicketOp::UnlockFair => false,
        TicketOp::Bump => false,
    }
}

/// Whether `op` releases the lock.
pub open spec fn ticket_releases(s: TicketState, op: TicketOp) -> bool {
    match op {
        TicketOp::Unlock => true,
        TicketOp::UnlockFair => true,
        _ => false,
    }
}

/// Whether a whole sequence of operations is a valid execution from `s`.
pub open spec fn ticket_valid(s: TicketState, ops: Seq<TicketOp>) -> bool
    decreases ops.len(),
{
    ops.len() == 0 || {
        ticket_enabled(s, ops[0]) && ticket_valid(
            ticket_step(s, ops[0]),
            ops.subrange(1, ops.len() as int),
        )
    }
}

/// The counters after running `ops` from `s`.
pub open spec fn ticket_run(s: TicketState, ops: Seq<TicketOp>) -> TicketState
    decreases ops.len(),
{
    if ops.len() == 0 {
        s
    } else {
        ticket_run(ticket_step(s, ops[0]), ops.subrange(1, ops.len() as int))
    }
}

/// Grants minus releases over the course of `ops` run from `s`.
pub open spec fn ticket_outstanding(s: TicketState, ops: Seq<TicketOp>) -> int
    decreases ops.len(),
{
    if ops.len() == 0 {
        0
    } else {
        (if ticket_grants(s, ops[0]) { 1int } else { 0 })
            - (if ticket_releases(s, ops[0]) { 1int } else { 0 })
            + ticket_outstanding(ticket_step(s, ops[0]), ops.subrange(1, ops.len() as int))
    }
}

/// The tickets handed out over the course of `ops` run from `s`, in grant
/// order.
pub open spec fn ticket_grant_seq(s: TicketState, ops: Seq<TicketOp>) -> Seq<usize>
    decreases ops.len(),
{
    if ops.len() == 0 {
        Seq::empty()
    } else {
        let rest = ticket_grant_seq(ticket_step(s, ops[0]), ops.subrange(1, ops.len() as int));
        if ticket_grants(s, ops[0]) {
            seq![s.next_ticket] + rest
        } else {
            rest
        }
    }
}

proof fn lemma_mod_range_succ(n: int)
    requires
        n >= 0,
    ensures
        0 <= mod_range(n) <= usize::MAX,
        mod_range(n + 1) == wadd1(mod_range(n) as usize),
{
    let r = counter_range();
    lemma_mod_pos_bound(n, r);
    lemma_add_mod_noop(n, 1, r);
    lemma_small_mod(1nat, r as nat);
    if n % r == usize::MAX as int {
        assert(mod_range(n + 1) == r % r) by {
            lemma_add_mod_noop(n % r, 1, r);
        }
        lemma_mod_pos_bound(r, r);
        assert(r % r == 0) by {
            lemma_small_mod(0nat, r as nat);
            lemma_add_mod_noop(0, r, r);
        }
    } else {
        lemma_small_mod((n % r + 1) as nat, r as nat);
    }
}

proof fn lemma_ticket_outstanding_is_state(s: TicketState, ops: Seq<TicketOp>)
    requires
        ticket_valid(s, ops),
        ticket_wf(s),
    ensures
        ticket_wf(ticket_run(s, ops)),
        ticket_outstanding(s, ops) == (if ticket_locked(ticket_run(s, ops)) { 1int } else { 0 })
            - (if ticket_locked(s) { 1int } else { 0 }),
    decreases ops.len(),
{
    if ops.len() > 0 {
        lemma_ticket_outstanding_is_state(ticket_step(s, ops[0]), ops.subrange(1, ops.len() as int));
    }
}

proof fn lemma_ticket_valid_prefix(s: TicketState, ops: Seq<TicketOp>, i: int)
    requires
        ticket_valid(s, ops),
        0 <= i <= ops.len(),
    ensures
        ticket_valid(s, ops.take(i)),
    decreases i,
{
    if i > 0 {
        lemma_ticket_valid_prefix(ticket_step(s, ops[0]), ops.subrange(1, ops.len() as int), i - 1);
        assert(ops.take(i).subrange(1, i) =~= ops.subrange(1, ops.len() as int).take(i - 1));
    }
}

/// Mutual exclusion for the ticket mutex: in every valid execution from a
/// fresh lock, at most one grant is outstanding after every prefix.
pub proof fn lemma_ticket_mutual_exclusion(ops: Seq<TicketOp>, i: int)
    requires
        ticket_valid(ticket_init(), ops),
        0 <= i <= ops.len(),
    ensures
        0 <= ticket_outstanding(ticket_init(), ops.take(i)) <= 1,
{
    lemma_ticket_valid_prefix(ticket_init(), ops, i);
    lemma_ticket_outstanding_is_state(ticket_init(), ops.take(i));
}

proof fn lemma_ticket_grant_seq_mod(s: TicketState, ops: Seq<TicketOp>, g: int, r: int)
    requires
        ticket_valid(s, ops),
        0 <= r <= g <= r + 1,
        s.next_ticket == mod_range(g),
        s.next_serving == mod_range(r),
    ensures
        forall|k: int|
            0 <= k < ticket_grant_seq(s, ops).len() ==> #[trigger] ticket_grant_seq(s, ops)[k]
                == mod_range(g + k),
    decreases ops.len(),
{
    if ops.len() > 0 {
        let rest = ops.subrange(1, ops.len() as int);
        let s1 = ticket_step(s, ops[0]);
        let grants = ticket_grants(s, ops[0]);
        lemma_mod_range_succ(g);
        lemma_mod_range_succ(r);
        if g == r + 1 && s.next_ticket == s.next_serving {
            // mod_range(r + 1) is the wrapping successor of mod_range(r), and a
            // wrapping successor never equals its argument.
            assert(false);
        }
        match ops[0] {
            TicketOp::Lock => {
                lemma_ticket_grant_seq_mod(s1, rest, g + 1, r);
            },
            TicketOp::TryLock => {
                if !ticket_locked(s) {
                    lemma_ticket_grant_seq_mod(s1, rest, g + 1, r);
                } else {
                    lemma_ticket_grant_seq_mod(s1, rest, g, r);
                }
            },
            TicketOp::Unlock => {
                lemma_ticket_grant_seq_mod(s1, rest, g, r + 1);
            },
            TicketOp::UnlockFair => {
                lemma_ticket_grant_seq_mod(s1, rest, g, r + 1);
            },
            TicketOp::Bump => {
                lemma_ticket_grant_seq_mod(s1, rest, g, r);
            },
        }
        if grants {
            assert forall|k: int| 0 <= k < ticket_grant_seq(s, ops).len() implies #[trigger] ticket_grant_seq(s, ops)[k] == mod_range(g + k) by {
                if k > 0 {
                    assert(ticket_grant_seq(s, ops)[k] == ticket_grant_seq(s1, rest)[k - 1]);
                }
            }
        }
    }
}

/// FIFO service: in every valid execution from a fresh lock, the `k`-th
/// grant hands out ticket `k` (modulo the counter range) — tickets are
/// served in exactly the order they were drawn, so a waiter whose draw
/// precedes another's is granted the lock first.
pub proof fn lemma_ticket_fifo(ops: Seq<TicketOp>, k: int)
    requires
        ticket_valid(ticket_init(), ops),
        0 <= k < ticket_grant_seq(ticket_init(), ops).len(),
    ensures
        ticket_grant_seq(ticket_init(), ops)[k] == mod_range(k),
{
    lemma_small_mod(0nat, counter_range() as nat);
    lemma_ticket_grant_seq_mod(ticket_init(), ops, 0, 0);
}

proof fn lemma_ticket_take_succ(s: TicketState, ops: Seq<TicketOp>, m: int)
    requires
        0 <= m < ops.len(),
    ensures
        ticket_run(s, ops.take(m + 1)) == ticket_step(ticket_run(s, ops.take(m)), ops[m]),
        ticket_outstanding(s, ops.take(m + 1)) == ticket_outstanding(s, ops.take(m)) + (
        if ticket_grants(ticket_run(s, ops.take(m)), ops[m]) {
            1int
        } else {
            0
        }) - (if ticket_releases(ticket_run(s, ops.take(m)), ops[m]) {
            1int
        } else {
            0
        }),
    decreases m,
{
    if m == 0 {
        let single = ops.take(1);
        assert(ops.take(0) =~= Seq::<TicketOp>::empty());
        assert(single.subrange(1, 1) =~= Seq::<TicketOp>::empty());
        assert(single[0] == ops[0]);
        assert(ticket_run(s, ops.take(0)) == s);
        assert(ticket_run(ticket_step(s, ops[0]), single.subrange(1, 1)) == ticket_step(s, ops[0]));
        assert(ticket_run(s, single) == ticket_step(s, ops[0]));
        assert(ticket_outstanding(ticket_step(s, ops[0]), single.subrange(1, 1)) == 0);
        assert(ticket_outstanding(s, ops.take(0)) == 0);
    } else {
        let s1 = ticket_step(s, ops[0]);
        let rest = ops.subrange(1, ops.len() as int);
        lemma_ticket_take_succ(s1, rest, m - 1);
        assert(ops.take(m + 1).subrange(1, m + 1) =~= rest.take(m));
        assert(ops.take(m).subrange(1, m) =~= rest.take(m - 1));
        assert(rest[m - 1] == ops[m]);
    }
}

proof fn lemma_ticket_out_monotone(ops: Seq<TicketOp>, a: int, b: int)
    requires
        0 <= a <= b <= ops.len(),
        forall|k: int|
            a <= k < b ==> !ticket_releases(
                #[trigger] ticket_run(ticket_init(), ops.take(k)),
                ops[k],
            ),
    ensures
        ticket_outstanding(ticket_init(), ops.take(b)) >= ticket_outstanding(
            ticket_init(),
            ops.take(a),
        ),
    decreases b - a,
{
    if a < b {
        lemma_ticket_take_succ(ticket_init(), ops, b - 1);
        lemma_ticket_out_monotone(ops, a, b - 1);
    }
}

/// FIFO critical sections: between any two grants stands a release, so the
/// earlier grantee's critical section completes before the later one begins.
pub proof fn lemma_ticket_alternation(ops: Seq<TicketOp>, i: int, j: int)
    requires
        ticket_valid(ticket_init(), ops),
        0 <= i < j < ops.len(),
        ticket_grants(ticket_run(ticket_init(), ops.take(i)), ops[i]),
        ticket_grants(ticket_run(ticket_init(), ops.take(j)), ops[j]),
    ensures
        exists|k: int|
            i < k < j && ticket_releases(#[trigger] ticket_run(ticket_init(), ops.take(k)), ops[k]),
{
    let s0 = ticket_init();
    if forall|k: int|
        i < k < j ==> !ticket_releases(#[trigger] ticket_run(s0, ops.take(k)), ops[k]) {
        lemma_ticket_take_succ(s0, ops, i);
        lemma_ticket_take_succ(s0, ops, j);
        lemma_ticket_mutual_exclusion(ops, i);
        lemma_ticket_mutual_exclusion(ops, i + 1);
        lemma_ticket_mutual_exclusion(ops, j);
        lemma_ticket_mutual_exclusion(ops, j + 1);
        lemma_ticket_out_monotone(ops, i + 1, j);
        // The balance of grants over releases rose to one at the first grant,
        // never fell in between, and yet must be zero for the second grant to
        // keep it at one: a contradiction.
        assert(false);
    }
}

} // verus!
