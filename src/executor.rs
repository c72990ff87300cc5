//! Serialised access to a resource owned by one execution context.
//!
//! Callers submit tasks to a [`SingleThreadExecutor`], which hands them to the
//! owning context one at a time in submission order. Each submission yields a
//! [`TaskHandle`] whose ticket names the task; the owner files each result
//! under its ticket on a [`ResultBoard`], and a handle only ever takes the
//! result filed under its own ticket.
use vstd::prelude::*;
use std::collections::VecDeque;
use std::sync::Arc;
use std::sync::atomic::{AtomicBool, Ordering};

verus! {

/// The queue of submitted tasks, each with its ticket.
pub struct SingleThreadExecutor<T> {
    pending: VecDeque<(u64, T)>,
    next_ticket: u64,
}

/// Names one submitted task.
#[derive(Clone, Copy, Debug, PartialEq, Eq)]
pub struct TaskHandle {
    pub ticket: u64,
}

/// Results filed by the owning context, each under its task's ticket.
pub struct ResultBoard<R> {
    entries: Vec<(u64, R)>,
}

impl<T> SingleThreadExecutor<T> {
    /// The tasks waiting to run, oldest first, with their tickets.
    pub closed spec fn pending(&self) -> Seq<(u64, T)> {
        self.pending@
    }

    /// The ticket the next submission will get.
    pub closed spec fn next(&self) -> u64 {
        self.next_ticket
    }

    /// Tickets of waiting tasks increase strictly and precede the next one.
    pub open spec fn wf(&self) -> bool {
        &&& forall|i: int, j: int|
            0 <= i < j < self.pending().len() ==> #[trigger] self.pending()[i].0 < #[trigger] self.pending()[j].0
        &&& forall|i: int| 0 <= i < self.pending().len() ==> #[trigger] self.pending()[i].0 < self.next()
    }

    /// An executor with nothing submitted.
    pub fn new() -> (r: Self)
        ensures
            r.wf(),
            r.pending() == Seq::<(u64, T)>::empty(),
            r.next() == 0,
    {
        SingleThreadExecutor { pending: VecDeque::new(), next_ticket: 0 }
    }

    /// Whether another task can still get a ticket.
    pub fn has_tickets(&self) -> (r: bool)
        ensures
            r == (self.next() < u64::MAX),
    {
        self.next_ticket < u64::MAX
    }

    /// Submits `task`: it joins the end of the queue under a fresh ticket,
    /// which the returned handle names.
    pub fn run(&mut self, task: T) -> (r: TaskHandle)
        requires
            old(self).wf(),
            old(self).next() < u64::MAX,
        ensures
            final(self).wf(),
            r.ticket == old(self).next(),
            final(self).pending() == old(self).pending().push((r.ticket, task)),
            final(self).next() == old(self).next() + 1,
    {
        let ticket = self.next_ticket;
        self.pending.push_back((ticket, task));
        self.next_ticket = ticket + 1;
        proof {
            let p = self.pending();
            assert forall|i: int, j: int| 0 <= i < j < p.len() implies #[trigger] p[i].0 < #[trigger] p[j].0 by {
                if j < p.len() - 1 {
                    assert(p[i] == old(self).pending()[i]);
                    assert(p[j] == old(self).pending()[j]);
                } else {
                    assert(p[i] == old(self).pending()[i]);
                }
            }
            assert forall|i: int| 0 <= i < p.len() implies #[trigger] p[i].0 < self.next() by {
                if i < p.len() - 1 {
                    assert(p[i] == old(self).pending()[i]);
                }
            }
        }
        TaskHandle { ticket }
    }

    /// Hands out the oldest waiting task with its ticket, if any.
    pub fn next_task(&mut self) -> (r: Option<(u64, T)>)
        requires
            old(self).wf(),
        ensures
            final(self).wf(),
            final(self).next() == old(self).next(),
            old(self).pending().len() == 0 ==> r.is_none() && final(self).pending() == old(self).pending(),
            old(self).pending().len() > 0 ==> r == Some(old(self).pending()[0])
                && final(self).pending() == old(self).pending().drop_first(),
    {
        let r = self.pending.pop_front();
        proof {
            if old(self).pending().len() > 0 {
                assert forall|i: int, j: int|
                    0 <= i < j < self.pending().len() implies #[trigger] self.pending()[i].0
                    < #[trigger] self.pending()[j].0 by {
                    assert(self.pending()[i] == old(self).pending()[i + 1]);
                    assert(self.pending()[j] == old(self).pending()[j + 1]);
                }
                assert forall|i: int| 0 <= i < self.pending().len() implies #[trigger] self.pending()[i].0
                    < self.next() by {
                    assert(self.pending()[i] == old(self).pending()[i + 1]);
                }
            }
        }
        r
    }
}

impl<R> ResultBoard<R> {
    /// The filed results, in filing order, with their tickets.
    pub closed spec fn entries(&self) -> Seq<(u64, R)> {
        self.entries@
    }

    /// A board with nothing filed.
    pub fn new() -> (r: Self)
        ensures
            r.entries() == Seq::<(u64, R)>::empty(),
    {
        ResultBoard { entries: Vec::new() }
    }

    /// Files `result` under `ticket`.
    pub fn post(&mut self, ticket: u64, result: R)
        ensures
            final(self).entries() == old(self).entries().push((ticket, result)),
    {
        self.entries.push((ticket, result));
    }
}

/// The earliest result filed under `ticket` among `entries`, if any.
pub open spec fn filed_result<R>(entries: Seq<(u64, R)>, ticket: u64) -> Option<R>
    decreases entries.len(),
{
    if entries.len() == 0 {
        None
    } else if entries[0].0 == ticket {
        Some(entries[0].1)
    } else {
        filed_result(entries.drop_first(), ticket)
    }
}

/// Entries filed under other tickets in front of position `i` do not change
/// which result a ticket finds.
proof fn lemma_filed_skip<R>(entries: Seq<(u64, R)>, ticket: u64, i: int)
    requires
        0 <= i <= entries.len(),
        forall|j: int| 0 <= j < i ==> (#[trigger] entries[j]).0 != ticket,
    ensures
        filed_result(entries, ticket) == filed_result(entries.skip(i), ticket),
    decreases i,
{
    if i == 0 {
        assert(entries.skip(0) =~= entries);
    } else {
        lemma_filed_skip(entries, ticket, i - 1);
        let rest = entries.skip(i - 1);
        assert(rest[0] == entries[i - 1]);
        assert(rest.drop_first() =~= entries.skip(i));
    }
}

impl TaskHandle {
    /// Takes the earliest result filed under this handle's ticket, if one has
    /// been filed; results of other tasks are never taken.
    pub fn wait<R>(self, board: &mut ResultBoard<R>) -> (r: Option<R>)
        ensures
            r == filed_result(old(board).entries(), self.ticket),
            match r {
                Some(v) => exists|i: int|
                    #![trigger old(board).entries()[i]]
                    0 <= i < old(board).entries().len()
                    && old(board).entries()[i] == (self.ticket, v)
                    && (forall|j: int| 0 <= j < i ==> (#[trigger] old(board).entries()[j]).0 != self.ticket)
                    && final(board).entries() == old(board).entries().remove(i),
                None => (forall|i: int|
                    0 <= i < old(board).entries().len() ==> (#[trigger] old(board).entries()[i]).0 != self.ticket)
                    && final(board).entries() == old(board).entries(),
            },
    {
        let mut i: usize = 0;
        while i < board.entries.len()
            invariant
                i <= board.entries@.len(),
                board.entries@ == old(board).entries(),
                forall|j: int| 0 <= j < i ==> (#[trigger] board.entries@[j]).0 != self.ticket,
            decreases board.entries@.len() - i,
        {
            if board.entries[i].0 == self.ticket {
                proof {
                    lemma_filed_skip(board.entries@, self.ticket, i as int);
                    assert(board.entries@.skip(i as int)[0] == board.entries@[i as int]);
                }
                let entry = board.entries.remove(i);
                assert(old(board).entries()[i as int] == entry);
                return Some(entry.1);
            }
            i = i + 1;
        }
        proof {
            lemma_filed_skip(board.entries@, self.ticket, i as int);
            assert(board.entries@.skip(i as int).len() == 0);
        }
        None
    }
}

/// Tasks submitted one after the other leave the queue in the order they were
/// submitted: after submitting `a` then `b`, the queue holds what was waiting,
/// then `a`, then `b`, under tickets that increase strictly along it, so `a`
/// is handed out before `b` and no two tasks share a ticket.
pub proof fn lemma_submission_order<T>(e: SingleThreadExecutor<T>, a: T, b: T)
    requires
        e.wf(),
        e.next() < u64::MAX - 1,
    ensures
        ({
            let n: int = e.pending().len() as int;
            let q = e.pending().push((e.next(), a)).push(((e.next() + 1) as u64, b));
            &&& q[n] == (e.next(), a)
            &&& q[n + 1] == ((e.next() + 1) as u64, b)
            &&& forall|i: int, j: int| 0 <= i < j < q.len() ==> #[trigger] q[i].0 < #[trigger] q[j].0
        }),
{
    let n = e.pending().len();
    let q = e.pending().push((e.next(), a)).push(((e.next() + 1) as u64, b));
    assert forall|i: int, j: int| 0 <= i < j < q.len() implies #[trigger] q[i].0 < #[trigger] q[j].0 by {
        if i < n {
            assert(q[i] == e.pending()[i]);
            if j < n {
                assert(q[j] == e.pending()[j]);
            }
        }
    }
}

/// Results of two tasks with different tickets never reach the other task's
/// handle: whichever of the two is filed first, waiting on each ticket finds
/// exactly that task's own result.
pub proof fn lemma_own_results<R>(ta: u64, ra: R, tb: u64, rb: R)
    requires
        ta != tb,
    ensures
        ({
            let ab = Seq::<(u64, R)>::empty().push((ta, ra)).push((tb, rb));
            let ba = Seq::<(u64, R)>::empty().push((tb, rb)).push((ta, ra));
            &&& filed_result(ab, ta) == Some(ra)
            &&& filed_result(ab, tb) == Some(rb)
            &&& filed_result(ba, ta) == Some(ra)
            &&& filed_result(ba, tb) == Some(rb)
        }),
{
    let ab = Seq::<(u64, R)>::empty().push((ta, ra)).push((tb, rb));
    let ba = Seq::<(u64, R)>::empty().push((tb, rb)).push((ta, ra));
    assert(ab.drop_first() =~= Seq::<(u64, R)>::empty().push((tb, rb)));
    assert(ba.drop_first() =~= Seq::<(u64, R)>::empty().push((ta, ra)));
    reveal_with_fuel(filed_result, 3);
}

/// A flag shared by its clones: once lit by any of them, all of them see it
/// lit.
#[derive(Clone)]
pub struct Signal {
    lit: Arc<AtomicBool>,
}

impl Signal {
    /// A new, unlit flag.
    pub fn new() -> (r: Self) {
        Signal { lit: Arc::new(AtomicBool::new(false)) }
    }

    /// Lights the flag for every clone.
    pub fn lit_up(&self) {
        self.lit.store(true, Ordering::SeqCst)
    }

    /// Whether any clone has lit the flag.
    pub fn is_lit(&self) -> (r: bool) {
        self.lit.load(Ordering::SeqCst)
    }
}

} // verus!
