//! The idempotency store: one record per (actor, key), acting as a
//! cross-replica mutex plus a cache of the final response.
//!
//! `try_save_response` models the claiming insert: on a fresh key it hands
//! back a [`StoreTransaction`], the scoped unit of work that the caller
//! fills and then commits through `save_response`; on a key that already
//! committed it hands back the saved response, which is the idempotence
//! guarantee visible to callers. A transaction that is dropped without
//! `save_response` leaves the store exactly as it was — the model of a
//! rollback after a crash — because a claim takes the store by shared
//! reference and buffers every write inside the transaction value.

use vstd::prelude::*;

use crate::response::HandlerError;
use crate::response::ResponseView;
use crate::response::StoredResponse;
use crate::response::error_500;
use crate::store::DeliveryTask;
use crate::store::EntryView;
use crate::store::IdempotencyEntry;
use crate::store::IdempotencyRecord;
use crate::store::Issue;
use crate::store::IssueView;
use crate::store::RecordView;
use crate::store::Store;
use crate::store::StoreView;
use crate::store::store_view_wf;
use crate::store::TaskView;
use crate::store::has_issue;
use crate::store::has_record;
use crate::store::lemma_record_at;
use crate::store::record_for;
use crate::store::task_wf;
use crate::idempotency_key::IdempotencyKey;

verus! {

/// The writes a claiming transaction has buffered but not yet committed:
/// the claimed key itself, and at most one issue with its fan-out of
/// delivery tasks.
pub struct StoreTransaction {
    pub actor: u128,
    pub key: String,
    pub created_at: u64,
    pub issue: Option<Issue>,
    pub tasks: Vec<DeliveryTask>,
}

/// The mathematical value of a [`StoreTransaction`].
#[verifier::ext_equal]
pub struct TransactionView {
    pub actor: u128,
    pub key: Seq<char>,
    pub created_at: u64,
    pub issue: Option<IssueView>,
    pub tasks: Seq<TaskView>,
}

impl View for StoreTransaction {
    type V = TransactionView;

    open spec fn view(&self) -> TransactionView {
        TransactionView {
            actor: self.actor,
            key: self.key@,
            created_at: self.created_at,
            issue: match self.issue {
                Some(i) => Some(i@),
                None => None,
            },
            tasks: Seq::new(self.tasks@.len(), |i: int| self.tasks@[i]@),
        }
    }
}

impl TransactionView {
    /// Shape of a transaction as the publish flow builds it: tasks exist
    /// only for the transaction's own issue, recipients are distinct, and
    /// counters are freshly initialised.
    pub open spec fn wf(self) -> bool {
        &&& (self.tasks.len() > 0 ==> self.issue is Some)
        &&& (forall|i: int|
            0 <= i < self.tasks.len() ==> (match self.issue {
                Some(iss) => (#[trigger] self.tasks[i]).issue_id == iss.id,
                None => false,
            }))
        &&& (forall|i: int| 0 <= i < self.tasks.len() ==> task_wf(#[trigger] self.tasks[i]))
        &&& (forall|i: int, j: int|
            0 <= i < j < self.tasks.len() ==> self.tasks[i].recipient != self.tasks[j].recipient)
    }
}

/// What the claiming insert decides: either the caller now owns the key and
/// must fill and commit the returned transaction, or the key already
/// committed and the saved response is returned for replay.
pub enum NextAction {
    StartProcessing(StoreTransaction),
    ReturnSavedResponse(StoredResponse),
}

/// Claim (actor, key): on a fresh key, begin a transaction that owns it; on
/// a committed key, hand back the saved response.
///
/// Two genuinely concurrent claims on one key are linearised by the
/// database's row lock; in this sequential model the loser simply runs
/// after the winner's commit and takes the saved-response branch.
pub fn try_save_response(store: &Store, user_id: u128, key: &IdempotencyKey, now: u64) -> (r:
    NextAction)
    requires
        store.wf(),
    ensures
        ({
            if has_record(store@.records, user_id, key@) {
                r matches NextAction::ReturnSavedResponse(resp) && resp@ == record_for(
                    store@.records,
                    user_id,
                    key@,
                ).response
            } else {
                r matches NextAction::StartProcessing(t) && t@ == (TransactionView {
                    actor: user_id,
                    key: key@,
                    created_at: now,
                    issue: None,
                    tasks: Seq::empty(),
                })
            }
        }),
{
    let key_string = key.to_string_value();
    match store.find_record_index(user_id, &key_string) {
        Some(i) => {
            proof {
                lemma_record_at(store@.records, user_id, key@, i as int);
            }
            NextAction::ReturnSavedResponse(store.records[i].record.response.duplicate())
        },
        None => {
            let t = StoreTransaction {
                actor: user_id,
                key: key_string,
                created_at: now,
                issue: None,
                tasks: Vec::new(),
            };
            proof {
                assert(t@.tasks =~= Seq::<TaskView>::empty());
                assert(t@ =~= (TransactionView {
                    actor: user_id,
                    key: key@,
                    created_at: now,
                    issue: None,
                    tasks: Seq::empty(),
                }));
            }
            NextAction::StartProcessing(t)
        },
    }
}

/// Fetch the saved response for (actor, key), if that key has committed.
pub fn get_saved_response(store: &Store, user_id: u128, key: &IdempotencyKey) -> (r: Option<
    StoredResponse,
>)
    requires
        store.wf(),
    ensures
        match r {
            Some(resp) => has_record(store@.records, user_id, key@) && resp@ == record_for(
                store@.records,
                user_id,
                key@,
            ).response,
            None => !has_record(store@.records, user_id, key@),
        },
{
    let key_string = key.to_string_value();
    match store.find_record_index(user_id, &key_string) {
        Some(i) => {
            proof {
                lemma_record_at(store@.records, user_id, key@, i as int);
            }
            Some(store.records[i].record.response.duplicate())
        },
        None => None,
    }
}

/// A commit fails exactly when the database's uniqueness constraints would
/// reject it: the claimed key was committed meanwhile, or the new issue id
/// already exists.
pub open spec fn commit_conflict(v: StoreView, t: TransactionView) -> bool {
    ||| has_record(v.records, t.actor, t.key)
    ||| (t.issue matches Some(iss) && has_issue(v.issues, iss.id))
}

/// The store after a successful commit: the buffered issue and tasks become
/// visible, and the idempotency record appears already completed with the
/// response — the only way a record is ever seen by other transactions.
pub open spec fn committed_store(v: StoreView, t: TransactionView, resp: ResponseView) -> StoreView {
    StoreView {
        records: v.records.push(
            EntryView {
                actor: t.actor,
                key: t.key,
                record: RecordView { created_at: t.created_at, response: resp },
            },
        ),
        issues: match t.issue {
            Some(iss) => v.issues.push(iss),
            None => v.issues,
        },
        queue: v.queue + t.tasks,
        subscriptions: v.subscriptions,
        tokens: v.tokens,
    }
}

/// Commit the transaction: atomically make the issue, its delivery tasks
/// and the completed idempotency record visible, and return the response.
/// This is the last statement of the unit of work — the transaction value
/// is consumed either way.
pub fn save_response(
    store: &mut Store,
    txn: StoreTransaction,
    response: StoredResponse,
) -> (r: Result<StoredResponse, HandlerError>)
    requires
        old(store).wf(),
        txn@.wf(),
    ensures
        final(store).wf(),
        ({
            if commit_conflict(old(store)@, txn@) {
                r matches Err(e) && e.status == 500 && final(store)@ == old(store)@
            } else {
                r matches Ok(resp) && resp@ == response@ && final(store)@ == committed_store(
                    old(store)@,
                    txn@,
                    response@,
                )
            }
        }),
{
    let ghost old_v = store@;
    if let Some(_) = store.find_record_index(txn.actor, &txn.key) {
        return Err(error_500(String::from_str("idempotency key committed concurrently")));
    }
    let StoreTransaction { actor, key, created_at, issue, tasks } = txn;
    let ghost txn_v = TransactionView {
        actor,
        key: key@,
        created_at,
        issue: match issue {
            Some(ref i) => Some(i@),
            None => None,
        },
        tasks: Seq::new(tasks@.len(), |i: int| tasks@[i]@),
    };
    match issue {
        Some(iss) => {
            if let Some(_) = store.find_issue_index(iss.id) {
                return Err(error_500(String::from_str("issue id already present")));
            }
            let ghost iss_v = iss@;
            store.issues.push(iss);
            proof {
                assert(store@.issues =~= old_v.issues.push(iss_v));
                assert(store@.records =~= old_v.records);
                assert(store@.queue =~= old_v.queue);
                assert(store@.subscriptions =~= old_v.subscriptions);
                assert(store@.tokens =~= old_v.tokens);
            }
        },
        None => {},
    }
    let ghost mid_v = store@;
    let ghost task_views = txn_v.tasks;
    let mut i: usize = 0;
    while i < tasks.len()
        invariant
            i <= tasks.len(),
            task_views == Seq::new(tasks@.len(), |k: int| tasks@[k]@),
            store@.queue == mid_v.queue + task_views.take(i as int),
            store@.records == mid_v.records,
            store@.issues == mid_v.issues,
            store@.subscriptions == mid_v.subscriptions,
            store@.tokens == mid_v.tokens,
        decreases tasks.len() - i,
    {
        let t = tasks[i].clone_task();
        let ghost pre_q = store@.queue;
        store.queue.push(t);
        proof {
            assert(store@.queue =~= pre_q.push(task_views[i as int]));
            assert(store@.queue =~= mid_v.queue + task_views.take(i as int + 1));
            assert(store@.records =~= mid_v.records);
            assert(store@.issues =~= mid_v.issues);
            assert(store@.subscriptions =~= mid_v.subscriptions);
            assert(store@.tokens =~= mid_v.tokens);
        }
        i = i + 1;
    }
    proof {
        assert(task_views.take(tasks@.len() as int) =~= task_views);
    }
    let stored = response.duplicate();
    let entry = IdempotencyEntry {
        actor,
        key,
        record: IdempotencyRecord { created_at, response: stored },
    };
    let ghost pre_r = store@.records;
    store.records.push(entry);
    proof {
        assert(store@.records =~= pre_r.push(
            EntryView {
                actor: txn_v.actor,
                key: txn_v.key,
                record: RecordView { created_at: txn_v.created_at, response: response@ },
            },
        ));
        assert(store@.issues =~= mid_v.issues);
        assert(store@.queue =~= mid_v.queue + task_views);
        assert(store@.subscriptions =~= mid_v.subscriptions);
        assert(store@.tokens =~= mid_v.tokens);
        assert(store@ =~= committed_store(old_v, txn_v, response@));
        lemma_commit_preserves_wf(old_v, txn_v, response@);
    }
    Ok(response)
}

/// A conflict-free commit keeps the store well-formed.
pub proof fn lemma_commit_preserves_wf(v: StoreView, t: TransactionView, resp: ResponseView)
    requires
        t.wf(),
        !commit_conflict(v, t),
        store_view_wf(v),
    ensures
        store_view_wf(committed_store(v, t, resp)),
{
    let c = committed_store(v, t, resp);
    // records: the claimed key is absent from v, so the pushed entry is new.
    assert forall|i: int, j: int|
        0 <= i < j < c.records.len() implies !(c.records[i].actor == c.records[j].actor
        && c.records[i].key == c.records[j].key) by {
        if j == v.records.len() {
            if c.records[i].actor == t.actor && c.records[i].key == t.key {
                assert(has_record(v.records, t.actor, t.key));
            }
        }
    }
    // issues: the new issue id is absent from v.
    assert forall|i: int, j: int| 0 <= i < j < c.issues.len() implies c.issues[i].id
        != c.issues[j].id by {
        match t.issue {
            Some(iss) => {
                if j == v.issues.len() {
                    if c.issues[i].id == iss.id {
                        assert(has_issue(v.issues, iss.id));
                    }
                }
            },
            None => {},
        }
    }
    // queue: old tasks reference existing issues, new tasks the fresh one.
    assert forall|i: int, j: int|
        0 <= i < j < c.queue.len() implies !(c.queue[i].issue_id == c.queue[j].issue_id
        && c.queue[i].recipient == c.queue[j].recipient) by {
        if i < v.queue.len() && j >= v.queue.len() {
            match t.issue {
                Some(iss) => {
                    if c.queue[i].issue_id == c.queue[j].issue_id {
                        assert(has_issue(v.issues, v.queue[i].issue_id));
                        assert(c.queue[j].issue_id == iss.id);
                        assert(has_issue(v.issues, iss.id));
                    }
                },
                None => {},
            }
        }
    }
    assert forall|i: int| 0 <= i < c.queue.len() implies task_wf(#[trigger] c.queue[i]) by {
        if i < v.queue.len() {
        } else {
            assert(task_wf(t.tasks[i - v.queue.len()]));
        }
    }
    assert forall|i: int| 0 <= i < c.queue.len() implies has_issue(
        c.issues,
        #[trigger] c.queue[i].issue_id,
    ) by {
        if i < v.queue.len() {
            let w = choose|w: int|
                0 <= w < v.issues.len() && v.issues[w].id == v.queue[i].issue_id;
            assert(c.issues[w].id == c.queue[i].issue_id);
        } else {
            match t.issue {
                Some(iss) => {
                    assert(c.issues[c.issues.len() - 1].id == iss.id);
                    assert(c.queue[i].issue_id == iss.id);
                },
                None => {},
            }
        }
    }
}

} // verus!
