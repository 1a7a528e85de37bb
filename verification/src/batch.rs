//! Collecting the next steps of several sequences into one batch.
//!
//! A window opens with its first request and closes when as many have joined as
//! there are busy slots, or when its time is up. Times are nanoseconds on one
//! clock that does not go back.

use vstd::prelude::*;

use crate::kv_cache::KvCache;

verus! {

/// How long a window stays open, in nanoseconds.
pub const MAX_BATCH_WAIT_NANOS: u64 = 4_000_000;

/// How often a waiting request looks again, in nanoseconds.
pub const POLL_INTERVAL_NANOS: u64 = 1_000_000;

/// What a model needs to pick the best token itself. The penalty is a
/// single-precision value, held as bits.
#[derive(Debug)]
pub struct OwnedGreedySample {
    pub recent_tokens: Vec<u32>,
    pub repeat_penalty: u32,
}

/// The next step of one sequence.
pub struct BatchDecodeRequest {
    pub cache: KvCache,
    pub token: u32,
    pub start_pos: usize,
    pub greedy_sample: Option<OwnedGreedySample>,
}

/// What a model made of a step: the token that it picked, or the scores of all
/// tokens, as bits.
#[derive(Debug)]
pub enum ForwardOutcome {
    Token(u32),
    Logits(Vec<u32>),
}

/// The answer to a request: its cache, and what came of the step.
pub struct BatchDecodeResponse {
    pub cache: KvCache,
    pub outcome: Result<ForwardOutcome, String>,
}

/// A request that waits, with the ticket that its answer is addressed to.
pub struct Waiting {
    pub ticket: u64,
    pub request: BatchDecodeRequest,
}

/// The window that is open, if one is.
pub struct BatchCoordinator {
    pending: Vec<Waiting>,
    deadline: Option<u64>,
}

/// Whether a window is to be closed now: it is open, and either as many requests
/// wait as slots are busy, or its time is up.
pub open spec fn closes(waiting: nat, deadline: Option<u64>, busy: nat, now: u64) -> bool {
    match deadline {
        Some(d) => waiting >= (if busy >= 1 {
            busy
        } else {
            1
        }) || now >= d,
        None => false,
    }
}

/// When a window closes that a request joins at `now`: the time of an open one
/// stays, and a new one gets the full wait.
pub open spec fn deadline_after(waiting: nat, deadline: Option<u64>, now: u64) -> Option<u64> {
    if waiting == 0 {
        Some((now + MAX_BATCH_WAIT_NANOS) as u64)
    } else {
        deadline
    }
}

impl BatchCoordinator {
    /// The requests that wait, in the order in which they came.
    pub closed spec fn waiting(&self) -> Seq<Waiting> {
        self.pending@
    }

    /// When the window closes.
    pub closed spec fn deadline(&self) -> Option<u64> {
        self.deadline
    }

    #[verifier::type_invariant]
    spec fn open_while_waited_for(self) -> bool {
        self.deadline is Some <==> self.pending@.len() > 0
    }

    /// No window is open.
    pub fn new() -> (r: Self)
        ensures
            r.waiting() == Seq::<Waiting>::empty(),
            r.deadline() is None,
    {
        BatchCoordinator { pending: Vec::new(), deadline: None }
    }

    /// Lets a request join the window, or open one.
    pub fn join(&mut self, ticket: u64, request: BatchDecodeRequest, now: u64)
        requires
            now + MAX_BATCH_WAIT_NANOS <= u64::MAX,
        ensures
            final(self).waiting() == old(self).waiting().push(Waiting { ticket, request }),
            final(self).deadline() == deadline_after(
                old(self).waiting().len(),
                old(self).deadline(),
                now,
            ),
            final(self).deadline() is Some,
    {
        proof {
            use_type_invariant(&*self);
        }
        let deadline: u64 = match self.deadline {
            Some(d) => d,
            None => now + MAX_BATCH_WAIT_NANOS,
        };
        let mut held = BatchCoordinator { pending: Vec::new(), deadline: None };
        std::mem::swap(&mut held, self);
        let mut pending = held.pending;
        pending.push(Waiting { ticket, request });
        *self = BatchCoordinator { pending, deadline: Some(deadline) };
    }

    /// Closes the window if it is to be closed now, and takes all that waited in it.
    pub fn close(&mut self, busy: usize, now: u64) -> (r: Option<Vec<Waiting>>)
        ensures
            match r {
                Some(batch) => {
                    &&& closes(
                        old(self).waiting().len(),
                        old(self).deadline(),
                        busy as nat,
                        now,
                    )
                    &&& batch@ == old(self).waiting()
                    &&& final(self).waiting() == Seq::<Waiting>::empty()
                    &&& final(self).deadline() is None
                },
                None => {
                    &&& !closes(
                        old(self).waiting().len(),
                        old(self).deadline(),
                        busy as nat,
                        now,
                    )
                    &&& final(self).waiting() == old(self).waiting()
                    &&& final(self).deadline() == old(self).deadline()
                },
            },
    {
        proof {
            use_type_invariant(&*self);
        }
        let target: usize = if busy >= 1 {
            busy
        } else {
            1
        };
        match self.deadline {
            None => None,
            Some(deadline) => {
                if self.pending.len() >= target || now >= deadline {
                    let mut fresh = BatchCoordinator { pending: Vec::new(), deadline: None };
                    std::mem::swap(&mut fresh, self);
                    Some(fresh.pending)
                } else {
                    None
                }
            },
        }
    }
}

/// The answer that a request gets.
pub struct Answer {
    pub ticket: u64,
    pub response: BatchDecodeResponse,
}

/// Hands the outcomes of a batch out: the first to the request that came first,
/// and so on. Where the step failed, all of them are told so.
pub fn hand_out(batch: Vec<Waiting>, outcomes: Result<Vec<ForwardOutcome>, String>) -> (out: Vec<
    Answer,
>)
    ensures
        out@.len() == (match outcomes {
            Ok(list) => if list@.len() <= batch@.len() {
                list@.len()
            } else {
                batch@.len()
            },
            Err(_) => batch@.len(),
        }),
        forall|i: int|
            0 <= i < out@.len() ==> {
                &&& (#[trigger] out@[i]).ticket == batch@[i].ticket
                &&& out@[i].response.cache == batch@[i].request.cache
                &&& match outcomes {
                    Ok(list) => out@[i].response.outcome == Ok::<ForwardOutcome, String>(list@[i]),
                    Err(e) => out@[i].response.outcome is Err && out@[i].response.outcome->Err_0@
                        == e@,
                }
            },
{
    let ghost all = batch@;
    let mut batch = batch;
    let mut out: Vec<Answer> = Vec::new();
    match outcomes {
        Ok(list) => {
            let ghost given = list@;
            let mut list = list;
            let ghost mut i: int = 0;
            while list.len() > 0 && batch.len() > 0
                invariant
                    0 <= i <= all.len(),
                    i <= given.len(),
                    batch@ == all.skip(i),
                    list@ == given.skip(i),
                    out@.len() == i,
                    forall|k: int|
                        0 <= k < i ==> {
                            &&& (#[trigger] out@[k]).ticket == all[k].ticket
                            &&& out@[k].response.cache == all[k].request.cache
                            &&& out@[k].response.outcome == Ok::<ForwardOutcome, String>(given[k])
                        },
                decreases list@.len(),
            {
                let waiting = batch.remove(0);
                let outcome = list.remove(0);
                assert(waiting == all[i] && outcome == given[i]);
                out.push(
                    Answer {
                        ticket: waiting.ticket,
                        response: BatchDecodeResponse {
                            cache: waiting.request.cache,
                            outcome: Ok(outcome),
                        },
                    },
                );
                proof {
                    i = i + 1;
                    assert(batch@ =~= all.skip(i));
                    assert(list@ =~= given.skip(i));
                }
            }
        },
        Err(e) => {
            let ghost mut i: int = 0;
            while batch.len() > 0
                invariant
                    0 <= i <= all.len(),
                    batch@ == all.skip(i),
                    out@.len() == i,
                    forall|k: int|
                        0 <= k < i ==> {
                            &&& (#[trigger] out@[k]).ticket == all[k].ticket
                            &&& out@[k].response.cache == all[k].request.cache
                            &&& out@[k].response.outcome is Err
                            &&& out@[k].response.outcome->Err_0@ == e@
                        },
                decreases batch@.len(),
            {
                let waiting = batch.remove(0);
                assert(waiting == all[i]);
                out.push(
                    Answer {
                        ticket: waiting.ticket,
                        response: BatchDecodeResponse {
                            cache: waiting.request.cache,
                            outcome: Err(e.clone()),
                        },
                    },
                );
                proof {
                    i = i + 1;
                    assert(batch@ =~= all.skip(i));
                }
            }
        },
    }
    out
}

/// Whether a window closes within the wait from `t` on.
pub open spec fn closes_by(waiting: nat, deadline: Option<u64>, t: u64) -> bool {
    waiting > 0 ==> (deadline is Some && deadline->0 <= t + MAX_BATCH_WAIT_NANOS)
}

/// No request waits longer than the wait: the window that it joins closes within
/// the wait, later requests do not put that off, and whoever looks then closes it.
pub proof fn no_request_waits_longer(
    waiting: nat,
    deadline: Option<u64>,
    joined: u64,
    later: u64,
    busy: nat,
)
    requires
        closes_by(waiting, deadline, joined),
        joined <= later,
        later + MAX_BATCH_WAIT_NANOS <= u64::MAX,
    ensures
        closes_by(waiting + 1, deadline_after(waiting, deadline, joined), joined),
        ({
            let d = deadline_after(waiting, deadline, joined);
            &&& deadline_after(waiting + 1, d, later) == d
            &&& later >= joined + MAX_BATCH_WAIT_NANOS ==> closes(waiting + 1, d, busy, later)
        }),
{
}

/// A window that is open closes once its time is up; before that, as soon as a request waits
/// and no fewer wait than slots are busy. One that is not open does not close. It is open for
/// four milliseconds from its first request on.
pub proof fn windows_close_when_full_or_late(
    waiting: nat,
    deadline: u64,
    busy: nat,
    now: u64,
    before: Option<u64>,
)
    requires
        now + 4_000_000 <= u64::MAX,
    ensures
        now >= deadline ==> closes(waiting, Some(deadline), busy, now),
        now < deadline ==> (closes(waiting, Some(deadline), busy, now) <==> waiting > 0 && waiting
            >= busy),
        !closes(waiting, None, busy, now),
        deadline_after(0, before, now) == Some((now + 4_000_000) as u64),
        waiting > 0 ==> deadline_after(waiting, before, now) == before,
{
}

} // verus!
