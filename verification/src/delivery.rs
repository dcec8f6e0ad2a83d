//! The delivery worker: claims one queued task at a time, retries the send
//! with growing backoff up to a hard ceiling, and retires the task exactly
//! when it was sent or deliberately dropped.
//!
//! The worker's outside work — the actual sends, the sleeps — happens
//! beyond this library; a cycle receives the send outcomes as a list of
//! events and decides everything else here. A cycle that aborts at the
//! backoff ceiling models a rolled-back transaction: the store, including
//! the task's previous retry counters, is left exactly as it was.

use vstd::prelude::*;

use crate::domain::SubscriberEmail;
use crate::domain::is_valid_email;
use crate::store::BACKOFF_CEILING_SECONDS;
use crate::store::Store;
use crate::store::StoreView;
use crate::store::TaskView;
use crate::store::has_issue;
use crate::store::has_task;
use crate::store::issue_for;
use crate::store::store_view_wf;
use crate::store::task_wf;

verus! {

/// An issue as the worker loads it: what the emails are built from.
#[derive(Debug)]
pub struct Newsletter {
    pub title: String,
    pub content: String,
}

/// What one worker cycle reports back to the loop around it.
#[derive(Debug)]
pub enum DeliveryOutcome {
    NoTasksLeft,
    TasksLeft,
}

/// Why a worker cycle aborted. An abort rolls the cycle's transaction
/// back, so the task survives with its previous counters.
#[derive(Debug)]
pub enum DeliveryError {
    /// The claimed task references an issue that does not exist.
    MissingIssue,
    /// The accumulated backoff passed the hard ceiling after this many
    /// retries.
    RetryCeiling { retries: u32 },
}

/// Load the issue a task points at.
pub fn get_issue(store: &Store, issue_id: u128) -> (r: Result<Newsletter, DeliveryError>)
    requires
        store.wf(),
    ensures
        match r {
            Ok(n) => has_issue(store@.issues, issue_id) && n.title@ == issue_for(
                store@.issues,
                issue_id,
            ).title && n.content@ == issue_for(store@.issues, issue_id).content,
            Err(e) => e is MissingIssue && !has_issue(store@.issues, issue_id),
        },
{
    match store.find_issue_index(issue_id) {
        Some(i) => {
            proof {
                crate::store::lemma_issue_at(store@.issues, issue_id, i as int);
            }
            Ok(
                Newsletter {
                    title: store.issues[i].title.clone(),
                    content: store.issues[i].content.clone(),
                },
            )
        },
        None => Err(DeliveryError::MissingIssue),
    }
}

/// Dequeue one task, any task no other worker holds. The model is
/// sequential, so this is the front of the queue; with "skip locked"
/// semantics no fairness beyond that is promised.
pub fn start_delivery(store: &Store) -> (r: Option<(u128, String)>)
    ensures
        match r {
            Some(t) => store@.queue.len() > 0 && t.0 == store@.queue[0].issue_id && t.1@
                == store@.queue[0].recipient,
            None => store@.queue.len() == 0,
        },
{
    if store.queue.len() == 0 {
        None
    } else {
        Some((store.queue[0].issue_id, store.queue[0].recipient.clone()))
    }
}

/// The index of the task for (issue, recipient); meaningful only when
/// [`has_task`].
pub open spec fn task_index(queue: Seq<TaskView>, issue_id: u128, recipient: Seq<char>) -> int {
    choose|i: int|
        0 <= i < queue.len() && queue[i].issue_id == issue_id && queue[i].recipient == recipient
}

/// With unique task keys, a matching index is the one [`task_index`]
/// speaks of.
pub proof fn lemma_task_at(queue: Seq<TaskView>, issue_id: u128, recipient: Seq<char>, i: int)
    requires
        forall|p: int, q: int|
            0 <= p < q < queue.len() ==> !(queue[p].issue_id == queue[q].issue_id
                && queue[p].recipient == queue[q].recipient),
        0 <= i < queue.len(),
        queue[i].issue_id == issue_id,
        queue[i].recipient == recipient,
    ensures
        has_task(queue, issue_id, recipient),
        task_index(queue, issue_id, recipient) == i,
{
    let j = task_index(queue, issue_id, recipient);
    if i < j {
        assert(!(queue[i].issue_id == queue[j].issue_id && queue[i].recipient
            == queue[j].recipient));
    } else if j < i {
        assert(!(queue[j].issue_id == queue[i].issue_id && queue[j].recipient
            == queue[i].recipient));
    }
}

/// Removing one task keeps the store well-formed.
proof fn lemma_remove_task_wf(v: StoreView, idx: int)
    requires
        store_view_wf(v),
        0 <= idx < v.queue.len(),
    ensures
        store_view_wf(StoreView { queue: v.queue.remove(idx), ..v }),
{
    let q2 = v.queue.remove(idx);
    assert forall|i: int| 0 <= i < q2.len() implies task_wf(#[trigger] q2[i]) && has_issue(
        v.issues,
        q2[i].issue_id,
    ) by {
        if i < idx {
            assert(q2[i] == v.queue[i]);
        } else {
            assert(q2[i] == v.queue[i + 1]);
        }
    }
    assert forall|i: int, j: int|
        0 <= i < j < q2.len() implies !(q2[i].issue_id == q2[j].issue_id && q2[i].recipient
        == q2[j].recipient) by {
        let oi: int = if i < idx { i } else { i + 1 };
        let oj: int = if j < idx { j } else { j + 1 };
        assert(q2[i] == v.queue[oi]);
        assert(q2[j] == v.queue[oj]);
        assert(!(v.queue[oi].issue_id == v.queue[oj].issue_id && v.queue[oi].recipient
            == v.queue[oj].recipient));
    }
}

/// Delete the task for (issue, recipient) and commit — the last action of
/// a successful or deliberately-dropped delivery. Deleting an absent task
/// changes nothing.
pub fn finish_delivery(store: &mut Store, issue_id: u128, subscriber_email: &str)
    requires
        old(store).wf(),
    ensures
        final(store).wf(),
        ({
            if has_task(old(store)@.queue, issue_id, subscriber_email@) {
                final(store)@ == (StoreView {
                    queue: old(store)@.queue.remove(
                        task_index(old(store)@.queue, issue_id, subscriber_email@),
                    ),
                    ..old(store)@
                })
            } else {
                final(store)@ == old(store)@
            }
        }),
{
    let ghost old_v = store@;
    let mut i: usize = 0;
    while i < store.queue.len()
        invariant
            old_v == old(store)@,
            store_view_wf(old_v),
            store@ == old_v,
            i <= old_v.queue.len(),
            forall|j: int|
                0 <= j < i ==> !(old_v.queue[j].issue_id == issue_id && old_v.queue[j].recipient
                    == subscriber_email@),
        decreases old_v.queue.len() - i,
    {
        if store.queue[i].issue_id == issue_id && string_eq_str(
            &store.queue[i].recipient,
            subscriber_email,
        ) {
            proof {
                lemma_task_at(old_v.queue, issue_id, subscriber_email@, i as int);
            }
            store.queue.remove(i);
            proof {
                assert(store@.queue =~= old_v.queue.remove(i as int));
                assert(store@ =~= (StoreView { queue: old_v.queue.remove(i as int), ..old_v }));
                lemma_remove_task_wf(old_v, i as int);
            }
            return ;
        }
        i = i + 1;
    }
}

/// Whether a `String` and a `&str` hold the same characters.
fn string_eq_str(s: &String, t: &str) -> (r: bool)
    ensures
        r == (s@ == t@),
{
    let owned = String::from_str(t);
    *s == owned
}

/// The retry counters of the task for (issue, recipient), if it is
/// queued: what a test of the queue's state reads.
pub fn find_task(store: &Store, issue_id: u128, recipient: &str) -> (r: Option<(u32, u32)>)
    requires
        store.wf(),
    ensures
        match r {
            Some(c) => has_task(store@.queue, issue_id, recipient@) && c.0 == store@.queue[
                task_index(store@.queue, issue_id, recipient@)
            ].retry_count && c.1 == store@.queue[
                task_index(store@.queue, issue_id, recipient@)
            ].backoff_seconds,
            None => !has_task(store@.queue, issue_id, recipient@),
        },
{
    let mut i: usize = 0;
    while i < store.queue.len()
        invariant
            store.wf(),
            i <= store@.queue.len(),
            forall|j: int|
                0 <= j < i ==> !(store@.queue[j].issue_id == issue_id && store@.queue[j].recipient
                    == recipient@),
        decreases store@.queue.len() - i,
    {
        if store.queue[i].issue_id == issue_id && string_eq_str(&store.queue[i].recipient, recipient) {
            proof {
                lemma_task_at(store@.queue, issue_id, recipient@, i as int);
            }
            return Some((store.queue[i].retry_count, store.queue[i].backoff_seconds));
        }
        i = i + 1;
    }
    None
}

/// What a send cycle concluded, given the task's counters and the
/// sequence of send outcomes.
#[derive(Debug, PartialEq, Eq, Structural)]
pub enum SendVerdict {
    /// Some attempt succeeded before the ceiling was reached.
    Delivered,
    /// The delay after this many retries passed the ceiling; the cycle
    /// aborts.
    CeilingExceeded { retries: u32 },
    /// The outcomes ran out with the send still failing; the counters are
    /// where the cycle would have persisted them so far.
    Undecided { retry_count: u32, backoff_seconds: u32 },
}

/// The verdict of the in-transaction retry loop: walk the send outcomes;
/// a success delivers, a failure bumps the retry counter and scales the
/// accumulated backoff by it, and a delay beyond the ceiling aborts.
pub open spec fn spec_send_verdict(
    retry_count: u32,
    backoff_seconds: u32,
    events: Seq<bool>,
) -> SendVerdict
    decreases events.len(),
{
    if events.len() == 0 {
        SendVerdict::Undecided { retry_count, backoff_seconds }
    } else if events[0] {
        SendVerdict::Delivered
    } else {
        let retries = retry_count as int + 1;
        let seconds = retries * (backoff_seconds as int);
        if seconds > BACKOFF_CEILING_SECONDS as int {
            SendVerdict::CeilingExceeded { retries: retries as u32 }
        } else {
            spec_send_verdict(retries as u32, seconds as u32, events.drop_first())
        }
    }
}

/// Run the inner send/backoff/retry loop of one claimed task, consuming
/// the send outcomes in order. Pure bookkeeping: the caller performs the
/// sends and sleeps that the outcomes stand for.
pub fn run_send_attempts(retry_count: u32, backoff_seconds: u32, send_results: &Vec<bool>) -> (v:
    SendVerdict)
    requires
        retry_count <= BACKOFF_CEILING_SECONDS,
        1 <= backoff_seconds <= BACKOFF_CEILING_SECONDS,
    ensures
        v == spec_send_verdict(retry_count, backoff_seconds, send_results@),
{
    let ghost events = send_results@;
    let mut rc: u32 = retry_count;
    let mut backoff: u32 = backoff_seconds;
    let mut i: usize = 0;
    proof {
        assert(events.skip(0) =~= events);
    }
    while i < send_results.len()
        invariant
            i <= events.len(),
            events == send_results@,
            rc <= BACKOFF_CEILING_SECONDS,
            1 <= backoff <= BACKOFF_CEILING_SECONDS,
            spec_send_verdict(retry_count, backoff_seconds, events) == spec_send_verdict(
                rc,
                backoff,
                events.skip(i as int),
            ),
        decreases events.len() - i,
    {
        proof {
            assert(events.skip(i as int)[0] == events[i as int]);
            assert(events.skip(i as int).drop_first() =~= events.skip(i as int + 1));
        }
        if send_results[i] {
            return SendVerdict::Delivered;
        }
        let retries: u32 = rc + 1;
        proof {
            assert((retries as u64) * (backoff as u64) <= 5001 * 5000) by (nonlinear_arith)
                requires
                    retries <= 5001,
                    backoff <= 5000,
            ;
        }
        let seconds: u64 = (retries as u64) * (backoff as u64);
        if seconds > BACKOFF_CEILING_SECONDS {
            return SendVerdict::CeilingExceeded { retries };
        }
        proof {
            assert(retries as u64 <= seconds && 1 <= seconds) by (nonlinear_arith)
                requires
                    seconds == (retries as u64) * (backoff as u64),
                    1 <= retries,
                    1 <= backoff,
            ;
        }
        rc = retries;
        backoff = seconds as u32;
        i = i + 1;
    }
    proof {
        assert(events.skip(events.len() as int) =~= Seq::<bool>::empty());
    }
    SendVerdict::Undecided { retry_count: rc, backoff_seconds: backoff }
}

/// One worker cycle: claim the front task, load its issue, validate the
/// recipient, and run the send loop on the given outcomes. The outcomes
/// must decide the cycle — end in a success or pass the ceiling — since
/// the worker's inner loop never gives up any other way.
///
/// - An invalid recipient address is dropped deliberately: the task is
///   deleted without consuming a single send outcome.
/// - A delivered send deletes the task — even after earlier failures, so
///   a retry that eventually succeeds leaves no trace in the queue.
/// - Hitting the backoff ceiling aborts the cycle: the error reports the
///   retry count, and the store — the task and its previous counters
///   included — is exactly as before the cycle. The task stays claimable.
pub fn try_send_email(store: &mut Store, send_results: &Vec<bool>) -> (r: Result<
    DeliveryOutcome,
    DeliveryError,
>)
    requires
        old(store).wf(),
        old(store)@.queue.len() > 0 ==> !(spec_send_verdict(
            old(store)@.queue[0].retry_count,
            old(store)@.queue[0].backoff_seconds,
            send_results@,
        ) is Undecided),
    ensures
        final(store).wf(),
        ({
            let q = old(store)@.queue;
            if q.len() == 0 {
                r matches Ok(DeliveryOutcome::NoTasksLeft) && final(store)@ == old(store)@
            } else {
                let verdict = spec_send_verdict(
                    q[0].retry_count,
                    q[0].backoff_seconds,
                    send_results@,
                );
                if !is_valid_email(q[0].recipient) {
                    r matches Ok(DeliveryOutcome::TasksLeft) && final(store)@ == (StoreView {
                        queue: q.remove(0),
                        ..old(store)@
                    })
                } else if verdict is Delivered {
                    r matches Ok(DeliveryOutcome::TasksLeft) && final(store)@ == (StoreView {
                        queue: q.remove(0),
                        ..old(store)@
                    })
                } else {
                    r matches Err(DeliveryError::RetryCeiling { retries }) && verdict == (
                    SendVerdict::CeilingExceeded { retries }) && final(store)@ == old(store)@
                }
            }
        }),
{
    let claimed = start_delivery(store);
    if claimed.is_none() {
        return Ok(DeliveryOutcome::NoTasksLeft);
    }
    let (issue_id, email) = claimed.unwrap();
    let _issue = match get_issue(store, issue_id) {
        Ok(issue) => issue,
        Err(e) => {
            proof {
                assert(has_issue(store@.issues, store@.queue[0].issue_id));
            }
            return Err(e);
        },
    };
    proof {
        lemma_task_at(store@.queue, issue_id, email@, 0);
        assert(task_wf(store@.queue[0]));
    }
    match SubscriberEmail::parse(email.clone()) {
        Ok(_) => {
            let rc = store.queue[0].retry_count;
            let backoff = store.queue[0].backoff_seconds;
            match run_send_attempts(rc, backoff, send_results) {
                SendVerdict::Delivered => {
                    finish_delivery(store, issue_id, email.as_str());
                    Ok(DeliveryOutcome::TasksLeft)
                },
                SendVerdict::CeilingExceeded { retries } => Err(
                    DeliveryError::RetryCeiling { retries },
                ),
                SendVerdict::Undecided { .. } => {
                    // The precondition demands a deciding trace, so this
                    // arm is unreachable.
                    proof {
                        assert(false);
                    }
                    Err(DeliveryError::MissingIssue)
                },
            }
        },
        Err(_) => {
            finish_delivery(store, issue_id, email.as_str());
            Ok(DeliveryOutcome::TasksLeft)
        },
    }
}

/// How long the worker loop sleeps after a cycle: a short breather after
/// an error, a long one on an empty queue, none while tasks remain.
pub fn next_delay(outcome: &Result<DeliveryOutcome, DeliveryError>) -> (r: u64)
    ensures
        r == (match outcome {
            Err(_) => 1u64,
            Ok(DeliveryOutcome::NoTasksLeft) => 10u64,
            Ok(DeliveryOutcome::TasksLeft) => 0u64,
        }),
{
    match outcome {
        Err(_) => 1,
        Ok(DeliveryOutcome::NoTasksLeft) => 10,
        Ok(DeliveryOutcome::TasksLeft) => 0,
    }
}

/// A first failure whose delay stays within the ceiling, followed by a
/// success, delivers: the task is then deleted, with no residual failure
/// state — `try_send_email` removes it from the queue.
pub proof fn lemma_retry_then_success(retry_count: u32, backoff_seconds: u32, events: Seq<bool>)
    requires
        events.len() == 2,
        !events[0],
        events[1],
        retry_count <= BACKOFF_CEILING_SECONDS,
        1 <= backoff_seconds <= BACKOFF_CEILING_SECONDS,
        (retry_count + 1) * backoff_seconds <= BACKOFF_CEILING_SECONDS,
    ensures
        spec_send_verdict(retry_count, backoff_seconds, events) is Delivered,
{
    let retries = retry_count as int + 1;
    let seconds = retries * (backoff_seconds as int);
    assert(0 <= seconds) by (nonlinear_arith)
        requires
            seconds == retries * (backoff_seconds as int),
            1 <= retries,
            1 <= backoff_seconds,
    ;
    assert(spec_send_verdict(retry_count, backoff_seconds, events) == spec_send_verdict(
        retries as u32,
        seconds as u32,
        events.drop_first(),
    ));
    assert(events.drop_first()[0]);
}

/// A failure whose next delay would pass the ceiling aborts the cycle
/// with the bumped retry count — and `try_send_email` then leaves the
/// store untouched, so the task survives with its previous counters.
pub proof fn lemma_retry_ceiling(retry_count: u32, backoff_seconds: u32, events: Seq<bool>)
    requires
        events.len() > 0,
        !events[0],
        (retry_count + 1) * backoff_seconds > BACKOFF_CEILING_SECONDS,
        retry_count < u32::MAX,
    ensures
        spec_send_verdict(retry_count, backoff_seconds, events) == (SendVerdict::CeilingExceeded {
            retries: (retry_count + 1) as u32,
        }),
{
    let retries = retry_count as int + 1;
    let seconds = retries * (backoff_seconds as int);
    assert(seconds > BACKOFF_CEILING_SECONDS as int);
}

} // verus!
