//! Publishing a newsletter: the idempotent command orchestrator.
//!
//! `publish_newsletter` validates the client's idempotency key, claims it,
//! and — on a fresh claim — buffers the new issue plus one delivery task
//! per currently confirmed subscriber into the claimed transaction, then
//! commits the whole unit atomically together with the cached response.
//! A replayed key gets the original response back and changes nothing.

use vstd::prelude::*;

use crate::idempotency::NextAction;
use crate::idempotency::StoreTransaction;
use crate::idempotency::TransactionView;
use crate::idempotency::lemma_commit_preserves_wf;
use crate::idempotency::committed_store;
use crate::idempotency::save_response;
use crate::idempotency::try_save_response;
use crate::idempotency_key::IdempotencyKey;
use crate::idempotency_key::key_valid;
use crate::domain::SubscriberEmail;
use crate::domain::is_valid_email;
use crate::response::HandlerError;
use crate::response::HeaderPair;
use crate::response::HeaderPairView;
use crate::response::StoredResponse;
use crate::response::error_400;
use crate::response::spec_status_response;
use crate::response::status_response;
use crate::response::spec_redirect;
use crate::response::redirect;
use crate::store::INITIAL_BACKOFF_SECONDS;
use crate::store::DeliveryTask;
use crate::store::Issue;
use crate::store::IssueView;
use crate::store::Store;
use crate::store::SubscriberStatus;
use crate::store::SubscriptionView;
use crate::store::TaskView;
use crate::store::has_issue;
use crate::store::has_record;
use crate::store::lemma_record_at;
use crate::store::store_view_wf;
use crate::store::StoreView;
use crate::store::RecordView;
use crate::response::ResponseView;
use crate::store::record_for;
use crate::store::task_wf;

verus! {

/// What the publish form delivers: a title, the issue's content, and the
/// client-supplied idempotency key.
pub struct NewsletterForm {
    pub title: String,
    pub content: String,
    pub idempotency_key: String,
}

/// The delivery tasks that publishing an issue fans out: one per confirmed
/// subscriber, in subscription order, with fresh retry counters.
pub open spec fn fanout_tasks(subs: Seq<SubscriptionView>, issue_id: u128) -> Seq<TaskView>
    decreases subs.len(),
{
    if subs.len() == 0 {
        Seq::empty()
    } else {
        let rest = fanout_tasks(subs.drop_last(), issue_id);
        if subs.last().status is Confirmed {
            rest.push(
                TaskView {
                    issue_id,
                    recipient: subs.last().email,
                    retry_count: 0,
                    backoff_seconds: INITIAL_BACKOFF_SECONDS,
                },
            )
        } else {
            rest
        }
    }
}

/// How many subscribers are confirmed: the number of tasks a publish
/// enqueues.
pub open spec fn confirmed_count(subs: Seq<SubscriptionView>) -> nat
    decreases subs.len(),
{
    if subs.len() == 0 {
        0
    } else {
        confirmed_count(subs.drop_last()) + if subs.last().status is Confirmed {
            1nat
        } else {
            0nat
        }
    }
}

/// Whether some confirmed subscriber has this email — where every fan-out
/// recipient comes from.
pub open spec fn confirmed_recipient(subs: Seq<SubscriptionView>, r: Seq<char>) -> bool {
    exists|i: int| 0 <= i < subs.len() && subs[i].status is Confirmed && subs[i].email == r
}

/// The fan-out enqueues exactly one task per confirmed subscriber, each for
/// the published issue, with fresh well-formed counters and pairwise
/// distinct recipients (subscriber emails are unique).
pub proof fn lemma_fanout_tasks(subs: Seq<SubscriptionView>, issue_id: u128)
    requires
        forall|i: int, j: int| 0 <= i < j < subs.len() ==> subs[i].email != subs[j].email,
    ensures
        fanout_tasks(subs, issue_id).len() == confirmed_count(subs),
        forall|k: int|
            0 <= k < fanout_tasks(subs, issue_id).len() ==> (#[trigger] fanout_tasks(
                subs,
                issue_id,
            )[k]).issue_id == issue_id,
        forall|k: int|
            0 <= k < fanout_tasks(subs, issue_id).len() ==> task_wf(
                #[trigger] fanout_tasks(subs, issue_id)[k],
            ),
        forall|k: int|
            0 <= k < fanout_tasks(subs, issue_id).len() ==> confirmed_recipient(
                subs,
                (#[trigger] fanout_tasks(subs, issue_id)[k]).recipient,
            ),
        forall|k: int, l: int|
            0 <= k < l < fanout_tasks(subs, issue_id).len() ==> fanout_tasks(subs, issue_id)[k].recipient
                != fanout_tasks(subs, issue_id)[l].recipient,
    decreases subs.len(),
{
    if subs.len() == 0 {
    } else {
        let rest = subs.drop_last();
        lemma_fanout_tasks(rest, issue_id);
        let f = fanout_tasks(subs, issue_id);
        let fr = fanout_tasks(rest, issue_id);
        assert forall|k: int|
            0 <= k < f.len() implies confirmed_recipient(subs, (#[trigger] f[k]).recipient) by {
            if k < fr.len() {
                assert(f[k] == fr[k]);
                assert(confirmed_recipient(rest, fr[k].recipient));
                let i = choose|i: int|
                    0 <= i < rest.len() && rest[i].status is Confirmed && rest[i].email
                        == fr[k].recipient;
                assert(subs[i].status is Confirmed && subs[i].email == f[k].recipient);
            } else {
                let w = subs.len() - 1;
                assert(subs[w].status is Confirmed && subs[w].email == f[k].recipient);
            }
        }
        assert forall|k: int, l: int| 0 <= k < l < f.len() implies f[k].recipient
            != f[l].recipient by {
            if l < fr.len() {
            } else if subs.last().status is Confirmed && l == f.len() - 1 {
                assert(f[k] == fr[k]);
                assert(confirmed_recipient(rest, fr[k].recipient));
                let i = choose|i: int|
                    0 <= i < rest.len() && rest[i].status is Confirmed && rest[i].email
                        == fr[k].recipient;
                assert(subs[i].email != subs[subs.len() - 1].email);
            }
        }
    }
}

impl NewsletterForm {
    /// Buffer the new issue row into the claiming transaction. Mirrors the
    /// `INSERT INTO newsletter_issues` that runs inside the claimed
    /// transaction.
    pub fn insert_issue(
        &self,
        transaction: &mut StoreTransaction,
        issue_id: u128,
        now: u64,
    )
        ensures
            final(transaction)@ == (TransactionView {
                issue: Some(
                    IssueView {
                        id: issue_id,
                        title: self.title@,
                        content: self.content@,
                        published_at: now,
                    },
                ),
                ..old(transaction)@
            }),
    {
        transaction.issue = Some(
            Issue {
                id: issue_id,
                title: self.title.clone(),
                content: self.content.clone(),
                published_at: now,
            },
        );
        proof {
            assert(transaction@ =~= (TransactionView {
                issue: Some(
                    IssueView {
                        id: issue_id,
                        title: self.title@,
                        content: self.content@,
                        published_at: now,
                    },
                ),
                ..old(transaction)@
            }));
        }
    }
}

/// Buffer one delivery task per currently confirmed subscriber into the
/// claiming transaction — the bulk insert sourced from the subscriber
/// table, evaluated at this instant. Subscribers confirmed later are not
/// retroactively included.
pub fn enqueue_delivery_tasks(
    transaction: &mut StoreTransaction,
    store: &Store,
    issue_id: u128,
)
    requires
        old(transaction)@.tasks.len() == 0,
    ensures
        final(transaction)@ == (TransactionView {
            tasks: fanout_tasks(store@.subscriptions, issue_id),
            ..old(transaction)@
        }),
{
    let ghost subs = store@.subscriptions;
    let mut i: usize = 0;
    while i < store.subscriptions.len()
        invariant
            i <= subs.len(),
            subs == store@.subscriptions,
            transaction@ == (TransactionView {
                tasks: fanout_tasks(subs.take(i as int), issue_id),
                ..old(transaction)@
            }),
        decreases subs.len() - i,
    {
        proof {
            assert(subs.take(i as int + 1).drop_last() =~= subs.take(i as int));
            assert(subs.take(i as int + 1).last() == subs[i as int]);
        }
        let ghost pre = transaction@;
        if matches!(store.subscriptions[i].status, SubscriberStatus::Confirmed) {
            let task = DeliveryTask {
                issue_id,
                recipient: store.subscriptions[i].email.clone(),
                retry_count: 0,
                backoff_seconds: INITIAL_BACKOFF_SECONDS,
            };
            transaction.tasks.push(task);
            proof {
                assert(transaction@.tasks =~= pre.tasks.push(task@));
                assert(transaction@ =~= (TransactionView {
                    tasks: fanout_tasks(subs.take(i as int + 1), issue_id),
                    ..old(transaction)@
                }));
            }
        } else {
            proof {
                assert(transaction@ =~= (TransactionView {
                    tasks: fanout_tasks(subs.take(i as int + 1), issue_id),
                    ..old(transaction)@
                }));
            }
        }
        i = i + 1;
    }
    proof {
        assert(subs.take(subs.len() as int) =~= subs);
    }
}

/// The transaction a fresh publish commits: the claimed key, the new issue,
/// and the fan-out over the subscribers confirmed at claim time.
pub open spec fn publish_transaction(
    user_id: u128,
    key: Seq<char>,
    issue_id: u128,
    title: Seq<char>,
    content: Seq<char>,
    now: u64,
    subs: Seq<SubscriptionView>,
) -> TransactionView {
    TransactionView {
        actor: user_id,
        key,
        created_at: now,
        issue: Some(IssueView { id: issue_id, title, content, published_at: now }),
        tasks: fanout_tasks(subs, issue_id),
    }
}

/// Everything `publish_newsletter` promises, in one statement: an
/// invalid key is a client error and a no-op; a committed key replays its
/// recorded response and changes nothing; a clashing issue id is a server
/// error and a no-op; otherwise the caller gets the redirect and the
/// store gains the issue, its fan-out and the completed record in one
/// atomic step.
pub open spec fn publish_post(
    old_v: StoreView,
    new_v: StoreView,
    r: Result<StoredResponse, HandlerError>,
    user_id: u128,
    key: Seq<char>,
    issue_id: u128,
    title: Seq<char>,
    content: Seq<char>,
    now: u64,
) -> bool {
    if !key_valid(key) {
        r matches Err(e) && e.status == 400 && new_v == old_v
    } else if has_record(old_v.records, user_id, key) {
        r matches Ok(resp) && resp@ == record_for(old_v.records, user_id, key).response && new_v
            == old_v
    } else if has_issue(old_v.issues, issue_id) {
        r matches Err(e) && e.status == 500 && new_v == old_v
    } else {
        r matches Ok(resp) && resp@ == spec_redirect("/admin/newsletters"@) && new_v
            == committed_store(
            old_v,
            publish_transaction(user_id, key, issue_id, title, content, now, old_v.subscriptions),
            spec_redirect("/admin/newsletters"@),
        )
    }
}

/// Publish a newsletter issue, exactly once per (actor, idempotency key).
///
/// - An invalid key is rejected with a client error before anything runs.
/// - A key that already committed replays the saved response verbatim and
///   leaves the store untouched, whatever title and content accompany it.
/// - Otherwise the issue, its delivery tasks and the completed idempotency
///   record become visible in one atomic step, and the caller gets the
///   redirect that was cached for replays.
/// - A clash on the freshly drawn issue id is a server error and changes
///   nothing.
///
/// The caller supplies the freshly drawn `issue_id` and the claim
/// timestamp `now`; `publish_newsletter_with_fresh_id` draws the id itself.
pub fn publish_newsletter(
    store: &mut Store,
    user_id: u128,
    form: &NewsletterForm,
    issue_id: u128,
    now: u64,
) -> (r: Result<StoredResponse, HandlerError>)
    requires
        old(store).wf(),
    ensures
        final(store).wf(),
        publish_post(
            old(store)@,
            final(store)@,
            r,
            user_id,
            form.idempotency_key@,
            issue_id,
            form.title@,
            form.content@,
            now,
        ),
{
    let key = match IdempotencyKey::try_from(form.idempotency_key.clone()) {
        Err(m) => {
            return Err(error_400(m));
        },
        Ok(k) => k,
    };
    match try_save_response(store, user_id, &key, now) {
        NextAction::ReturnSavedResponse(saved) => Ok(saved),
        NextAction::StartProcessing(mut txn) => {
            form.insert_issue(&mut txn, issue_id, now);
            enqueue_delivery_tasks(&mut txn, store, issue_id);
            proof {
                lemma_fanout_tasks(store@.subscriptions, issue_id);
                assert(txn@.wf());
                assert(txn@ =~= publish_transaction(
                    user_id,
                    form.idempotency_key@,
                    issue_id,
                    form.title@,
                    form.content@,
                    now,
                    store@.subscriptions,
                ));
            }
            let resp = redirect("/admin/newsletters");
            save_response(store, txn, resp)
        },
    }
}

/// Relies on uuid's `Uuid::new_v4`: a randomly generated identifier.
/// Nothing is promised of the value.
#[verifier::external_body]
fn fresh_issue_id() -> (id: u128)
{
    uuid::Uuid::new_v4().as_u128()
}

/// Publish with a freshly drawn random issue id. Whatever identifier the
/// draw produced, the outcome is exactly `publish_newsletter`'s for that
/// identifier.
pub fn publish_newsletter_with_fresh_id(
    store: &mut Store,
    user_id: u128,
    form: &NewsletterForm,
    now: u64,
) -> (r: Result<StoredResponse, HandlerError>)
    requires
        old(store).wf(),
    ensures
        final(store).wf(),
        exists|issue_id: u128|
            #[trigger] publish_post(
                old(store)@,
                final(store)@,
                r,
                user_id,
                form.idempotency_key@,
                issue_id,
                form.title@,
                form.content@,
                now,
            ),
{
    let issue_id = fresh_issue_id();
    let r = publish_newsletter(store, user_id, form, issue_id, now);
    proof {
        assert(publish_post(
            old(store)@,
            store@,
            r,
            user_id,
            form.idempotency_key@,
            issue_id,
            form.title@,
            form.content@,
            now,
        ));
    }
    r
}

/// An issue as submitted for immediate sending: a title and the content
/// used for both the HTML and the text body.
pub struct Newsletter {
    pub title: String,
    pub content: String,
}

/// Why an immediate publish failed.
#[derive(Debug)]
pub enum PublishError {
    /// Authentication failed; the payload carries the underlying message.
    AuthError(String),
    /// Anything else; the payload carries the underlying message.
    UnexpectedError(String),
}

/// The view of the challenge response an authentication failure is
/// answered with: status 401 and a `www-authenticate` header naming the
/// basic scheme and its realm.
pub open spec fn spec_auth_challenge() -> ResponseView {
    ResponseView {
        status: 401,
        headers: seq![
            HeaderPairView {
                name: "www-authenticate"@,
                value: vstd::utf8::encode_utf8("Basic realm=\"publish\""@),
            },
        ],
        body: Seq::empty(),
    }
}

impl PublishError {
    /// The message shown for the error.
    pub fn message(&self) -> (r: String)
        ensures
            match self {
                PublishError::AuthError(_) => r@ == "Authentication failed"@,
                PublishError::UnexpectedError(e) => r@ == e@,
            },
    {
        match self {
            PublishError::AuthError(_) => String::from_str("Authentication failed"),
            PublishError::UnexpectedError(e) => e.clone(),
        }
    }

    /// The response the error is answered with: a challenge for failed
    /// authentication, a bare server error otherwise.
    pub fn error_response(&self) -> (r: StoredResponse)
        ensures
            match self {
                PublishError::AuthError(_) => r@ == spec_auth_challenge(),
                PublishError::UnexpectedError(_) => r@ == spec_status_response(500),
            },
    {
        match self {
            PublishError::AuthError(_) => {
                let pair = HeaderPair {
                    name: String::from_str("www-authenticate"),
                    value: vstd::slice::slice_to_vec("Basic realm=\"publish\"".as_bytes()),
                };
                let r = StoredResponse { status: 401, headers: vec![pair], body: Vec::new() };
                proof {
                    assert(r@.headers =~= spec_auth_challenge().headers);
                    assert(r@ =~= spec_auth_challenge());
                }
                r
            },
            PublishError::UnexpectedError(_) => status_response(500),
        }
    }
}

/// The emails of the subscribers confirmed right now, in subscription
/// order.
pub open spec fn confirmed_emails(subs: Seq<SubscriptionView>) -> Seq<Seq<char>>
    decreases subs.len(),
{
    if subs.len() == 0 {
        Seq::empty()
    } else {
        let rest = confirmed_emails(subs.drop_last());
        if subs.last().status is Confirmed {
            rest.push(subs.last().email)
        } else {
            rest
        }
    }
}

/// The confirmed subscribers' addresses, each parsed: the caller decides
/// what to do with the ones that no longer pass validation.
pub fn get_confirmed_subscribers(store: &Store) -> (r: Vec<Result<SubscriberEmail, String>>)
    ensures
        r@.len() == confirmed_emails(store@.subscriptions).len(),
        forall|k: int|
            0 <= k < r@.len() ==> (match #[trigger] r@[k] {
                Ok(e) => is_valid_email(confirmed_emails(store@.subscriptions)[k]) && e@
                    == confirmed_emails(store@.subscriptions)[k],
                Err(_) => !is_valid_email(confirmed_emails(store@.subscriptions)[k]),
            }),
{
    let ghost subs = store@.subscriptions;
    let mut r: Vec<Result<SubscriberEmail, String>> = Vec::new();
    let mut i: usize = 0;
    while i < store.subscriptions.len()
        invariant
            subs == store@.subscriptions,
            i <= subs.len(),
            r@.len() == confirmed_emails(subs.take(i as int)).len(),
            forall|k: int|
                0 <= k < r@.len() ==> (match #[trigger] r@[k] {
                    Ok(e) => is_valid_email(confirmed_emails(subs.take(i as int))[k]) && e@
                        == confirmed_emails(subs.take(i as int))[k],
                    Err(_) => !is_valid_email(confirmed_emails(subs.take(i as int))[k]),
                }),
        decreases subs.len() - i,
    {
        proof {
            assert(subs.take(i as int + 1).drop_last() =~= subs.take(i as int));
            assert(subs.take(i as int + 1).last() == subs[i as int]);
        }
        if matches!(store.subscriptions[i].status, SubscriberStatus::Confirmed) {
            let parsed = SubscriberEmail::parse(store.subscriptions[i].email.clone());
            r.push(parsed);
        }
        i = i + 1;
    }
    proof {
        assert(subs.take(subs.len() as int) =~= subs);
    }
    r
}

/// *Idempotence*: once a publish has committed for (actor, key), the
/// store's record for that key holds exactly the response the publish
/// returned. A second `publish_newsletter` with the same key — whatever
/// title and content accompany it — therefore takes the replay branch of
/// its contract: it returns this identical response and leaves the store
/// unchanged, so no second issue and no further delivery tasks ever come
/// from the same key.
pub proof fn lemma_publish_idempotent(
    v: StoreView,
    user_id: u128,
    key: Seq<char>,
    issue_id: u128,
    title: Seq<char>,
    content: Seq<char>,
    now: u64,
)
    requires
        store_view_wf(v),
        !has_record(v.records, user_id, key),
        !has_issue(v.issues, issue_id),
    ensures
        ({
            let t = publish_transaction(user_id, key, issue_id, title, content, now, v.subscriptions);
            let resp = spec_redirect("/admin/newsletters"@);
            let c = committed_store(v, t, resp);
            &&& store_view_wf(c)
            &&& has_record(c.records, user_id, key)
            &&& record_for(c.records, user_id, key) == (RecordView {
                created_at: now,
                response: resp,
            })
        }),
{
    let t = publish_transaction(user_id, key, issue_id, title, content, now, v.subscriptions);
    let resp = spec_redirect("/admin/newsletters"@);
    let c = committed_store(v, t, resp);
    lemma_fanout_tasks(v.subscriptions, issue_id);
    lemma_commit_preserves_wf(v, t, resp);
    lemma_record_at(c.records, user_id, key, v.records.len() as int);
}

/// *Concurrency safety*: two simultaneous publishes with one key are
/// linearised by the database's row lock, so the loser runs against the
/// winner's committed store. There the issue exists exactly once and the
/// key's record holds the winner's response, so by
/// `publish_newsletter`'s contract the loser returns a byte-identical
/// response and adds nothing.
pub proof fn lemma_publish_linearised_duplicate(
    v: StoreView,
    user_id: u128,
    key: Seq<char>,
    issue_id: u128,
    title: Seq<char>,
    content: Seq<char>,
    now: u64,
)
    requires
        store_view_wf(v),
        !has_record(v.records, user_id, key),
        !has_issue(v.issues, issue_id),
    ensures
        ({
            let t = publish_transaction(user_id, key, issue_id, title, content, now, v.subscriptions);
            let resp = spec_redirect("/admin/newsletters"@);
            let c = committed_store(v, t, resp);
            &&& record_for(c.records, user_id, key).response == resp
            &&& c.issues.len() == v.issues.len() + 1
            &&& c.issues[v.issues.len() as int].id == issue_id
            &&& forall|i: int| 0 <= i < v.issues.len() ==> c.issues[i].id != issue_id
        }),
{
    let t = publish_transaction(user_id, key, issue_id, title, content, now, v.subscriptions);
    let resp = spec_redirect("/admin/newsletters"@);
    let c = committed_store(v, t, resp);
    lemma_publish_idempotent(v, user_id, key, issue_id, title, content, now);
    assert forall|i: int| 0 <= i < v.issues.len() implies c.issues[i].id != issue_id by {
        if c.issues[i].id == issue_id {
            assert(has_issue(v.issues, issue_id));
        }
    }
}

/// *Fan-out correctness*: a commit enqueues exactly one delivery task per
/// subscriber confirmed at claim time — with no confirmed subscribers the
/// queue does not grow at all, so the worker finds nothing to send.
pub proof fn lemma_publish_fanout(
    v: StoreView,
    user_id: u128,
    key: Seq<char>,
    issue_id: u128,
    title: Seq<char>,
    content: Seq<char>,
    now: u64,
)
    requires
        store_view_wf(v),
    ensures
        ({
            let t = publish_transaction(user_id, key, issue_id, title, content, now, v.subscriptions);
            let c = committed_store(v, t, spec_redirect("/admin/newsletters"@));
            &&& c.queue.len() == v.queue.len() + confirmed_count(v.subscriptions)
            &&& (confirmed_count(v.subscriptions) == 0 ==> c.queue == v.queue)
            &&& forall|k: int|
                v.queue.len() <= k < c.queue.len() ==> confirmed_recipient(
                    v.subscriptions,
                    (#[trigger] c.queue[k]).recipient,
                )
        }),
{
    let t = publish_transaction(user_id, key, issue_id, title, content, now, v.subscriptions);
    let c = committed_store(v, t, spec_redirect("/admin/newsletters"@));
    lemma_fanout_tasks(v.subscriptions, issue_id);
    assert(c.queue == v.queue + t.tasks);
    if confirmed_count(v.subscriptions) == 0 {
        assert(c.queue =~= v.queue);
    }
    assert forall|k: int| v.queue.len() <= k < c.queue.len() implies confirmed_recipient(
        v.subscriptions,
        (#[trigger] c.queue[k]).recipient,
    ) by {
        assert(c.queue[k] == t.tasks[k - v.queue.len()]);
    }
}

} // verus!
