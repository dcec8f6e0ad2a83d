//! The idempotent publish flow: replay, linearised duplicates, fan-out.

use zero_to_prod::delivery::DeliveryOutcome;
use zero_to_prod::delivery::find_task;
use zero_to_prod::delivery::try_send_email;
use zero_to_prod::domain::NewSubscriber;
use zero_to_prod::newsletters::NewsletterForm;
use zero_to_prod::newsletters::publish_newsletter;
use zero_to_prod::newsletters::publish_newsletter_with_fresh_id;
use zero_to_prod::response::StoredResponse;
use zero_to_prod::store::Store;
use zero_to_prod::store::SubscriberStatus;
use zero_to_prod::subscriptions::FormData;
use zero_to_prod::subscriptions::insert_subscriber;
use zero_to_prod::subscriptions_confirm::confirm_subscriber;

fn responses_equal(a: &StoredResponse, b: &StoredResponse) -> bool {
    if a.status != b.status || a.body != b.body || a.headers.len() != b.headers.len() {
        return false;
    }
    for (x, y) in a.headers.iter().zip(b.headers.iter()) {
        if x.name != y.name || x.value != y.value {
            return false;
        }
    }
    true
}

fn add_subscriber(store: &mut Store, id: u128, email: &str, confirmed: bool) {
    let ns = NewSubscriber::try_from(FormData {
        name: "John".to_string(),
        email: email.to_string(),
    })
    .unwrap();
    insert_subscriber(store, &ns, id).unwrap();
    if confirmed {
        confirm_subscriber(store, id);
    }
}

fn form(title: &str, content: &str, key: &str) -> NewsletterForm {
    NewsletterForm {
        title: title.to_string(),
        content: content.to_string(),
        idempotency_key: key.to_string(),
    }
}

#[test]
fn publish_is_idempotent() {
    let mut store = Store::new();
    add_subscriber(&mut store, 1, "john@foo.com", true);
    let first = publish_newsletter(&mut store, 7, &form("Title", "Body", "key-1"), 100, 1000)
        .unwrap();
    assert_eq!(store.issue_count(), 1);
    assert_eq!(store.task_count(), 1);
    // A replay with different title and content must not publish again.
    let second = publish_newsletter(&mut store, 7, &form("Other", "Changed", "key-1"), 101, 2000)
        .unwrap();
    assert!(responses_equal(&first, &second));
    assert_eq!(store.issue_count(), 1);
    assert_eq!(store.task_count(), 1);
}

#[test]
fn concurrent_publishes_get_identical_responses() {
    // Two racing requests are linearised by the database's row lock; the
    // loser observes the winner's committed record.
    let mut store = Store::new();
    add_subscriber(&mut store, 1, "john@foo.com", true);
    let winner = publish_newsletter(&mut store, 7, &form("T", "C", "shared-key"), 100, 1000)
        .unwrap();
    let loser = publish_newsletter(&mut store, 7, &form("T", "C", "shared-key"), 102, 1001)
        .unwrap();
    assert!(responses_equal(&winner, &loser));
    assert_eq!(store.issue_count(), 1);
}

#[test]
fn no_confirmed_subscribers_no_tasks() {
    let mut store = Store::new();
    add_subscriber(&mut store, 1, "john@foo.com", false);
    publish_newsletter(&mut store, 7, &form("T", "C", "key-1"), 100, 1000).unwrap();
    assert_eq!(store.issue_count(), 1);
    assert_eq!(store.task_count(), 0);
    // With an empty queue the worker performs no send at all.
    let outcome = try_send_email(&mut store, &vec![true]).unwrap();
    assert!(matches!(outcome, DeliveryOutcome::NoTasksLeft));
}

#[test]
fn one_confirmed_subscriber_one_send() {
    let mut store = Store::new();
    add_subscriber(&mut store, 1, "john@foo.com", true);
    add_subscriber(&mut store, 2, "jane@foo.com", false);
    publish_newsletter(&mut store, 7, &form("T", "C", "key-1"), 100, 1000).unwrap();
    assert_eq!(store.task_count(), 1);
    assert!(find_task(&store, 100, "john@foo.com").is_some());
    assert!(find_task(&store, 100, "jane@foo.com").is_none());
    // Exactly one send consumes the one task.
    let outcome = try_send_email(&mut store, &vec![true]).unwrap();
    assert!(matches!(outcome, DeliveryOutcome::TasksLeft));
    assert_eq!(store.task_count(), 0);
}

#[test]
fn fanout_enqueues_every_confirmed_subscriber() {
    let mut store = Store::new();
    add_subscriber(&mut store, 1, "a@foo.com", true);
    add_subscriber(&mut store, 2, "b@foo.com", true);
    add_subscriber(&mut store, 3, "c@foo.com", false);
    publish_newsletter(&mut store, 7, &form("T", "C", "key-1"), 100, 1000).unwrap();
    assert_eq!(store.task_count(), 2);
    let (retries, backoff) = find_task(&store, 100, "a@foo.com").unwrap();
    assert_eq!(retries, 0);
    assert_eq!(backoff, 1);
    assert!(find_task(&store, 100, "b@foo.com").is_some());
    assert!(find_task(&store, 100, "c@foo.com").is_none());
}

#[test]
fn publish_response_is_the_redirect() {
    let mut store = Store::new();
    let resp = publish_newsletter(&mut store, 7, &form("T", "C", "key-1"), 100, 1000).unwrap();
    assert_eq!(resp.status, 303);
    assert_eq!(resp.headers.len(), 1);
    assert_eq!(resp.headers[0].name, "location");
    assert_eq!(resp.headers[0].value, b"/admin/newsletters".to_vec());
    assert!(resp.body.is_empty());
}

#[test]
fn empty_key_rejected() {
    let mut store = Store::new();
    let e = publish_newsletter(&mut store, 7, &form("T", "C", ""), 100, 1000).unwrap_err();
    assert_eq!(e.status, 400);
    assert_eq!(store.issue_count(), 0);
}

#[test]
fn overlong_key_rejected() {
    let mut store = Store::new();
    let key = "k".repeat(51);
    let e = publish_newsletter(&mut store, 7, &form("T", "C", &key), 100, 1000).unwrap_err();
    assert_eq!(e.status, 400);
    let key50 = "k".repeat(50);
    assert!(publish_newsletter(&mut store, 7, &form("T", "C", &key50), 100, 1000).is_ok());
}

#[test]
fn issue_id_clash_is_server_error() {
    let mut store = Store::new();
    publish_newsletter(&mut store, 7, &form("T", "C", "key-1"), 100, 1000).unwrap();
    let e = publish_newsletter(&mut store, 7, &form("T", "C", "key-2"), 100, 1000).unwrap_err();
    assert_eq!(e.status, 500);
    assert_eq!(store.issue_count(), 1);
    assert_eq!(store.record_count(), 1);
}

#[test]
fn different_keys_publish_separately() {
    let mut store = Store::new();
    add_subscriber(&mut store, 1, "john@foo.com", true);
    publish_newsletter(&mut store, 7, &form("A", "C", "key-1"), 100, 1000).unwrap();
    publish_newsletter(&mut store, 7, &form("B", "C", "key-2"), 101, 1001).unwrap();
    assert_eq!(store.issue_count(), 2);
    assert_eq!(store.task_count(), 2);
}

#[test]
fn subscribers_confirmed_after_publish_not_included() {
    let mut store = Store::new();
    add_subscriber(&mut store, 1, "john@foo.com", true);
    add_subscriber(&mut store, 2, "late@foo.com", false);
    publish_newsletter(&mut store, 7, &form("T", "C", "key-1"), 100, 1000).unwrap();
    confirm_subscriber(&mut store, 2);
    assert_eq!(store.subscription_status(2), Some(SubscriberStatus::Confirmed));
    assert_eq!(store.task_count(), 1);
    assert!(find_task(&store, 100, "late@foo.com").is_none());
}

#[test]
fn publish_with_fresh_id_draws_a_usable_id() {
    let mut store = Store::new();
    add_subscriber(&mut store, 1, "john@foo.com", true);
    let resp = publish_newsletter_with_fresh_id(&mut store, 7, &form("T", "C", "key-1"), 1000)
        .unwrap();
    assert_eq!(resp.status, 303);
    assert_eq!(store.issue_count(), 1);
    assert_eq!(store.task_count(), 1);
    // The replay branch works across the id draw too.
    let again = publish_newsletter_with_fresh_id(&mut store, 7, &form("X", "Y", "key-1"), 2000)
        .unwrap();
    assert!(responses_equal(&resp, &again));
    assert_eq!(store.issue_count(), 1);
}
