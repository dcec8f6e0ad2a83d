//! The shared database, modelled as one value.
//!
//! Every process of the system — request handlers, the delivery worker, the
//! expiry sweeper — coordinates only through the relational database. The
//! library models that database as a [`Store`]: idempotency records, issues,
//! the delivery queue, subscriptions and their confirmation tokens. A
//! transition on the store stands for a committed transaction; everything a
//! transaction buffers before its commit lives outside the store, so a
//! dropped transaction leaves the store untouched.

use vstd::prelude::*;

use crate::response::ResponseView;
use crate::response::StoredResponse;

verus! {

/// A completed idempotency record: when the claim was made and the response
/// that was committed with it.
///
/// A record only ever becomes visible fully populated, because the claiming
/// transaction commits the response together with the row. The
/// "claimed but empty" in-flight state is therefore not representable here;
/// it lives in the uncommitted transaction value instead.
pub struct IdempotencyRecord {
    pub created_at: u64,
    pub response: StoredResponse,
}

/// The mathematical value of an [`IdempotencyRecord`].
#[verifier::ext_equal]
pub struct RecordView {
    pub created_at: u64,
    pub response: ResponseView,
}

impl View for IdempotencyRecord {
    type V = RecordView;

    open spec fn view(&self) -> RecordView {
        RecordView { created_at: self.created_at, response: self.response@ }
    }
}

/// One row of the idempotency table, keyed by (actor, client-supplied key).
pub struct IdempotencyEntry {
    pub actor: u128,
    pub key: String,
    pub record: IdempotencyRecord,
}

/// The mathematical value of an [`IdempotencyEntry`].
#[verifier::ext_equal]
pub struct EntryView {
    pub actor: u128,
    pub key: Seq<char>,
    pub record: RecordView,
}

impl View for IdempotencyEntry {
    type V = EntryView;

    open spec fn view(&self) -> EntryView {
        EntryView { actor: self.actor, key: self.key@, record: self.record@ }
    }
}

/// A published newsletter issue. Created once per successful claim and
/// immutable afterwards.
pub struct Issue {
    pub id: u128,
    pub title: String,
    pub content: String,
    pub published_at: u64,
}

/// The mathematical value of an [`Issue`].
#[verifier::ext_equal]
pub struct IssueView {
    pub id: u128,
    pub title: Seq<char>,
    pub content: Seq<char>,
    pub published_at: u64,
}

impl View for Issue {
    type V = IssueView;

    open spec fn view(&self) -> IssueView {
        IssueView {
            id: self.id,
            title: self.title@,
            content: self.content@,
            published_at: self.published_at,
        }
    }
}

/// One pending delivery, keyed by (issue, recipient). Its existence means
/// delivery to that recipient has neither been confirmed nor deliberately
/// abandoned. `backoff_seconds` is the accumulated backoff unit that the
/// next retry delay is scaled from.
pub struct DeliveryTask {
    pub issue_id: u128,
    pub recipient: String,
    pub retry_count: u32,
    pub backoff_seconds: u32,
}

/// The mathematical value of a [`DeliveryTask`].
#[verifier::ext_equal]
pub struct TaskView {
    pub issue_id: u128,
    pub recipient: Seq<char>,
    pub retry_count: u32,
    pub backoff_seconds: u32,
}

impl View for DeliveryTask {
    type V = TaskView;

    open spec fn view(&self) -> TaskView {
        TaskView {
            issue_id: self.issue_id,
            recipient: self.recipient@,
            retry_count: self.retry_count,
            backoff_seconds: self.backoff_seconds,
        }
    }
}

impl DeliveryTask {
    /// An exact copy of the task.
    pub fn clone_task(&self) -> (r: DeliveryTask)
        ensures
            r@ == self@,
    {
        DeliveryTask {
            issue_id: self.issue_id,
            recipient: self.recipient.clone(),
            retry_count: self.retry_count,
            backoff_seconds: self.backoff_seconds,
        }
    }
}

/// Where a subscriber stands: freshly signed up, or confirmed by following
/// the emailed link. Only confirmed subscribers receive issues.
#[derive(Clone, Copy, Debug, PartialEq, Eq, Structural)]
pub enum SubscriberStatus {
    PendingConfirmation,
    Confirmed,
}

/// One subscriber row.
pub struct Subscription {
    pub id: u128,
    pub email: String,
    pub name: String,
    pub status: SubscriberStatus,
}

/// The mathematical value of a [`Subscription`].
#[verifier::ext_equal]
pub struct SubscriptionView {
    pub id: u128,
    pub email: Seq<char>,
    pub name: Seq<char>,
    pub status: SubscriberStatus,
}

impl View for Subscription {
    type V = SubscriptionView;

    open spec fn view(&self) -> SubscriptionView {
        SubscriptionView {
            id: self.id,
            email: self.email@,
            name: self.name@,
            status: self.status,
        }
    }
}

/// One confirmation token, pointing at the subscriber it was issued for.
pub struct SubscriptionToken {
    pub token: String,
    pub subscriber_id: u128,
}

/// The mathematical value of a [`SubscriptionToken`].
#[verifier::ext_equal]
pub struct TokenView {
    pub token: Seq<char>,
    pub subscriber_id: u128,
}

impl View for SubscriptionToken {
    type V = TokenView;

    open spec fn view(&self) -> TokenView {
        TokenView { token: self.token@, subscriber_id: self.subscriber_id }
    }
}

/// The committed state of the database.
pub struct Store {
    pub records: Vec<IdempotencyEntry>,
    pub issues: Vec<Issue>,
    pub queue: Vec<DeliveryTask>,
    pub subscriptions: Vec<Subscription>,
    pub tokens: Vec<SubscriptionToken>,
}

/// The mathematical value of a [`Store`].
#[verifier::ext_equal]
pub struct StoreView {
    pub records: Seq<EntryView>,
    pub issues: Seq<IssueView>,
    pub queue: Seq<TaskView>,
    pub subscriptions: Seq<SubscriptionView>,
    pub tokens: Seq<TokenView>,
}

impl View for Store {
    type V = StoreView;

    open spec fn view(&self) -> StoreView {
        StoreView {
            records: Seq::new(self.records@.len(), |i: int| self.records@[i]@),
            issues: Seq::new(self.issues@.len(), |i: int| self.issues@[i]@),
            queue: Seq::new(self.queue@.len(), |i: int| self.queue@[i]@),
            subscriptions: Seq::new(self.subscriptions@.len(), |i: int| self.subscriptions@[i]@),
            tokens: Seq::new(self.tokens@.len(), |i: int| self.tokens@[i]@),
        }
    }
}

/// Whether the idempotency table holds a row for (actor, key).
pub open spec fn has_record(records: Seq<EntryView>, actor: u128, key: Seq<char>) -> bool {
    exists|i: int| 0 <= i < records.len() && records[i].actor == actor && records[i].key == key
}

/// The record stored for (actor, key); meaningful only when [`has_record`].
pub open spec fn record_for(records: Seq<EntryView>, actor: u128, key: Seq<char>) -> RecordView {
    records[choose|i: int|
        0 <= i < records.len() && records[i].actor == actor && records[i].key == key].record
}

/// Whether an issue with this id exists.
pub open spec fn has_issue(issues: Seq<IssueView>, id: u128) -> bool {
    exists|i: int| 0 <= i < issues.len() && issues[i].id == id
}

/// The issue with this id; meaningful only when [`has_issue`].
pub open spec fn issue_for(issues: Seq<IssueView>, id: u128) -> IssueView {
    issues[choose|i: int| 0 <= i < issues.len() && issues[i].id == id]
}

/// Whether the delivery queue holds a task for (issue, recipient).
pub open spec fn has_task(queue: Seq<TaskView>, issue_id: u128, recipient: Seq<char>) -> bool {
    exists|i: int|
        0 <= i < queue.len() && queue[i].issue_id == issue_id && queue[i].recipient == recipient
}

/// Whether a subscription with this email exists.
pub open spec fn has_subscription_email(subs: Seq<SubscriptionView>, email: Seq<char>) -> bool {
    exists|i: int| 0 <= i < subs.len() && subs[i].email == email
}

/// The subscription with this email; meaningful only when
/// [`has_subscription_email`].
pub open spec fn subscription_for_email(
    subs: Seq<SubscriptionView>,
    email: Seq<char>,
) -> SubscriptionView {
    subs[choose|i: int| 0 <= i < subs.len() && subs[i].email == email]
}

/// Whether a subscription with this id exists.
pub open spec fn has_subscription_id(subs: Seq<SubscriptionView>, id: u128) -> bool {
    exists|i: int| 0 <= i < subs.len() && subs[i].id == id
}

/// The subscription with this id; meaningful only when
/// [`has_subscription_id`].
pub open spec fn subscription_for_id(subs: Seq<SubscriptionView>, id: u128) -> SubscriptionView {
    subs[choose|i: int| 0 <= i < subs.len() && subs[i].id == id]
}

/// Whether this token string has been issued.
pub open spec fn has_token(tokens: Seq<TokenView>, token: Seq<char>) -> bool {
    exists|i: int| 0 <= i < tokens.len() && tokens[i].token == token
}

/// The token row for this token string; meaningful only when [`has_token`].
pub open spec fn token_row_for(tokens: Seq<TokenView>, token: Seq<char>) -> TokenView {
    tokens[choose|i: int| 0 <= i < tokens.len() && tokens[i].token == token]
}

/// Whether some token has been issued for this subscriber.
pub open spec fn has_token_for_subscriber(tokens: Seq<TokenView>, id: u128) -> bool {
    exists|i: int| 0 <= i < tokens.len() && tokens[i].subscriber_id == id
}

/// The first token issued for this subscriber; meaningful only when
/// [`has_token_for_subscriber`].
pub open spec fn first_token_for_subscriber(tokens: Seq<TokenView>, id: u128) -> Seq<char> {
    tokens[first_token_index(tokens, id)].token
}

/// The index of the first token row for this subscriber.
pub open spec fn first_token_index(tokens: Seq<TokenView>, id: u128) -> int
    decreases tokens.len(),
{
    if tokens.len() == 0 {
        0
    } else if tokens[0].subscriber_id == id {
        0
    } else {
        1 + first_token_index(tokens.drop_first(), id)
    }
}

/// The hard cap on a task's accumulated backoff, in seconds: a send cycle
/// whose next delay would exceed it is aborted.
pub const BACKOFF_CEILING_SECONDS: u64 = 5000;

/// The backoff unit a freshly enqueued task starts from, in seconds.
pub const INITIAL_BACKOFF_SECONDS: u32 = 1;

/// How long idempotency records are retained, in seconds: 24 hours.
pub const RETENTION_SECONDS: u64 = 86400;

/// Well-formedness of a single queued task: counters stay within what the
/// ceiling admits, so retry arithmetic cannot overflow.
pub open spec fn task_wf(t: TaskView) -> bool {
    &&& t.retry_count <= BACKOFF_CEILING_SECONDS
    &&& 1 <= t.backoff_seconds <= BACKOFF_CEILING_SECONDS
}

/// The store's invariant, stated over its mathematical value: every table
/// is keyed uniquely, every queued task points at an existing issue and
/// carries well-formed counters, and subscriber emails are unique.
pub open spec fn store_view_wf(v: StoreView) -> bool {
    &&& (forall|i: int, j: int|
        0 <= i < j < v.records.len() ==> !(v.records[i].actor == v.records[j].actor
            && v.records[i].key == v.records[j].key))
    &&& (forall|i: int, j: int| 0 <= i < j < v.issues.len() ==> v.issues[i].id != v.issues[j].id)
    &&& (forall|i: int, j: int|
        0 <= i < j < v.queue.len() ==> !(v.queue[i].issue_id == v.queue[j].issue_id
            && v.queue[i].recipient == v.queue[j].recipient))
    &&& (forall|i: int| 0 <= i < v.queue.len() ==> task_wf(#[trigger] v.queue[i]))
    &&& (forall|i: int|
        0 <= i < v.queue.len() ==> has_issue(v.issues, #[trigger] v.queue[i].issue_id))
    &&& (forall|i: int, j: int|
        0 <= i < j < v.subscriptions.len() ==> v.subscriptions[i].id != v.subscriptions[j].id)
    &&& (forall|i: int, j: int|
        0 <= i < j < v.subscriptions.len() ==> v.subscriptions[i].email
            != v.subscriptions[j].email)
    &&& (forall|i: int, j: int|
        0 <= i < j < v.tokens.len() ==> v.tokens[i].token != v.tokens[j].token)
}

impl Store {
    /// The store's invariant; see [`store_view_wf`].
    pub open spec fn wf(self) -> bool {
        store_view_wf(self@)
    }

    /// An empty database.
    pub fn new() -> (s: Store)
        ensures
            s.wf(),
            s@.records == Seq::<EntryView>::empty(),
            s@.issues == Seq::<IssueView>::empty(),
            s@.queue == Seq::<TaskView>::empty(),
            s@.subscriptions == Seq::<SubscriptionView>::empty(),
            s@.tokens == Seq::<TokenView>::empty(),
    {
        let s = Store {
            records: Vec::new(),
            issues: Vec::new(),
            queue: Vec::new(),
            subscriptions: Vec::new(),
            tokens: Vec::new(),
        };
        proof {
            assert(s@.records =~= Seq::<EntryView>::empty());
            assert(s@.issues =~= Seq::<IssueView>::empty());
            assert(s@.queue =~= Seq::<TaskView>::empty());
            assert(s@.subscriptions =~= Seq::<SubscriptionView>::empty());
            assert(s@.tokens =~= Seq::<TokenView>::empty());
        }
        s
    }

    /// Find the position of the idempotency row for (actor, key), if any.
    pub fn find_record_index(&self, actor: u128, key: &String) -> (r: Option<usize>)
        ensures
            match r {
                Some(i) => i < self@.records.len() && self@.records[i as int].actor == actor
                    && self@.records[i as int].key == key@ && has_record(self@.records, actor, key@),
                None => !has_record(self@.records, actor, key@),
            },
    {
        let mut i: usize = 0;
        while i < self.records.len()
            invariant
                i <= self@.records.len(),
                forall|j: int|
                    0 <= j < i ==> !(self@.records[j].actor == actor && self@.records[j].key
                        == key@),
            decreases self@.records.len() - i,
        {
            if self.records[i].actor == actor && self.records[i].key == *key {
                return Some(i);
            }
            i = i + 1;
        }
        None
    }

    /// How many idempotency records the store holds.
    pub fn record_count(&self) -> (r: usize)
        ensures
            r == self@.records.len(),
    {
        self.records.len()
    }

    /// How many issues the store holds.
    pub fn issue_count(&self) -> (r: usize)
        ensures
            r == self@.issues.len(),
    {
        self.issues.len()
    }

    /// How many delivery tasks are queued.
    pub fn task_count(&self) -> (r: usize)
        ensures
            r == self@.queue.len(),
    {
        self.queue.len()
    }

    /// How many subscriptions the store holds.
    pub fn subscription_count(&self) -> (r: usize)
        ensures
            r == self@.subscriptions.len(),
    {
        self.subscriptions.len()
    }

    /// How many confirmation tokens are stored.
    pub fn token_count(&self) -> (r: usize)
        ensures
            r == self@.tokens.len(),
    {
        self.tokens.len()
    }

    /// The status of the subscriber with this id, if one exists.
    pub fn subscription_status(&self, id: u128) -> (r: Option<SubscriberStatus>)
        requires
            self.wf(),
        ensures
            match r {
                Some(s) => has_subscription_id(self@.subscriptions, id) && s
                    == subscription_for_id(self@.subscriptions, id).status,
                None => !has_subscription_id(self@.subscriptions, id),
            },
    {
        match self.find_subscription_index(id) {
            Some(i) => {
                proof {
                    lemma_subscription_at_id(self@.subscriptions, id, i as int);
                }
                Some(self.subscriptions[i].status)
            },
            None => None,
        }
    }

    /// Find the position of the subscription with this id, if any.
    pub fn find_subscription_index(&self, id: u128) -> (r: Option<usize>)
        ensures
            match r {
                Some(i) => i < self@.subscriptions.len() && self@.subscriptions[i as int].id == id
                    && has_subscription_id(self@.subscriptions, id),
                None => !has_subscription_id(self@.subscriptions, id),
            },
    {
        let mut i: usize = 0;
        while i < self.subscriptions.len()
            invariant
                i <= self@.subscriptions.len(),
                forall|j: int| 0 <= j < i ==> self@.subscriptions[j].id != id,
            decreases self@.subscriptions.len() - i,
        {
            if self.subscriptions[i].id == id {
                return Some(i);
            }
            i = i + 1;
        }
        None
    }

    /// Find the position of the issue with this id, if any.
    pub fn find_issue_index(&self, id: u128) -> (r: Option<usize>)
        ensures
            match r {
                Some(i) => i < self@.issues.len() && self@.issues[i as int].id == id && has_issue(
                    self@.issues,
                    id,
                ),
                None => !has_issue(self@.issues, id),
            },
    {
        let mut i: usize = 0;
        while i < self.issues.len()
            invariant
                i <= self@.issues.len(),
                forall|j: int| 0 <= j < i ==> self@.issues[j].id != id,
            decreases self@.issues.len() - i,
        {
            if self.issues[i].id == id {
                return Some(i);
            }
            i = i + 1;
        }
        None
    }
}

/// With unique record keys, a matching index is the one [`record_for`]
/// speaks of.
pub proof fn lemma_record_at(records: Seq<EntryView>, actor: u128, key: Seq<char>, i: int)
    requires
        forall|p: int, q: int|
            0 <= p < q < records.len() ==> !(records[p].actor == records[q].actor && records[p].key
                == records[q].key),
        0 <= i < records.len(),
        records[i].actor == actor,
        records[i].key == key,
    ensures
        has_record(records, actor, key),
        record_for(records, actor, key) == records[i].record,
{
    let j = choose|j: int|
        0 <= j < records.len() && records[j].actor == actor && records[j].key == key;
    if i < j {
        assert(!(records[i].actor == records[j].actor && records[i].key == records[j].key));
    } else if j < i {
        assert(!(records[j].actor == records[i].actor && records[j].key == records[i].key));
    }
}

/// With unique issue ids, a matching index is the one [`issue_for`] speaks
/// of.
pub proof fn lemma_issue_at(issues: Seq<IssueView>, id: u128, i: int)
    requires
        forall|p: int, q: int| 0 <= p < q < issues.len() ==> issues[p].id != issues[q].id,
        0 <= i < issues.len(),
        issues[i].id == id,
    ensures
        has_issue(issues, id),
        issue_for(issues, id) == issues[i],
{
    let j = choose|j: int| 0 <= j < issues.len() && issues[j].id == id;
    if i < j {
        assert(issues[i].id != issues[j].id);
    } else if j < i {
        assert(issues[j].id != issues[i].id);
    }
}

/// With unique subscriber emails, a matching index is the one
/// [`subscription_for_email`] speaks of.
pub proof fn lemma_subscription_at_email(subs: Seq<SubscriptionView>, email: Seq<char>, i: int)
    requires
        forall|p: int, q: int| 0 <= p < q < subs.len() ==> subs[p].email != subs[q].email,
        0 <= i < subs.len(),
        subs[i].email == email,
    ensures
        has_subscription_email(subs, email),
        subscription_for_email(subs, email) == subs[i],
{
    let j = choose|j: int| 0 <= j < subs.len() && subs[j].email == email;
    if i < j {
        assert(subs[i].email != subs[j].email);
    } else if j < i {
        assert(subs[j].email != subs[i].email);
    }
}

/// With unique subscriber ids, a matching index is the one
/// [`subscription_for_id`] speaks of.
pub proof fn lemma_subscription_at_id(subs: Seq<SubscriptionView>, id: u128, i: int)
    requires
        forall|p: int, q: int| 0 <= p < q < subs.len() ==> subs[p].id != subs[q].id,
        0 <= i < subs.len(),
        subs[i].id == id,
    ensures
        has_subscription_id(subs, id),
        subscription_for_id(subs, id) == subs[i],
{
    let j = choose|j: int| 0 <= j < subs.len() && subs[j].id == id;
    if i < j {
        assert(subs[i].id != subs[j].id);
    } else if j < i {
        assert(subs[j].id != subs[i].id);
    }
}

} // verus!
