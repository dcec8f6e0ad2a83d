//! The delivery worker: retries, the backoff ceiling, and task retirement.

use zero_to_prod::delivery::DeliveryError;
use zero_to_prod::delivery::DeliveryOutcome;
use zero_to_prod::delivery::Newsletter;
use zero_to_prod::delivery::SendVerdict;
use zero_to_prod::delivery::find_task;
use zero_to_prod::delivery::get_issue;
use zero_to_prod::delivery::next_delay;
use zero_to_prod::delivery::run_send_attempts;
use zero_to_prod::delivery::start_delivery;
use zero_to_prod::delivery::try_send_email;
use zero_to_prod::domain::NewSubscriber;
use zero_to_prod::newsletters::NewsletterForm;
use zero_to_prod::newsletters::publish_newsletter;
use zero_to_prod::store::DeliveryTask;
use zero_to_prod::store::Issue;
use zero_to_prod::store::Store;
use zero_to_prod::subscriptions::FormData;
use zero_to_prod::subscriptions::insert_subscriber;
use zero_to_prod::subscriptions_confirm::confirm_subscriber;

fn store_with_one_task(email: &str) -> Store {
    let mut store = Store::new();
    let ns = NewSubscriber::try_from(FormData {
        name: "John".to_string(),
        email: email.to_string(),
    })
    .unwrap();
    insert_subscriber(&mut store, &ns, 1).unwrap();
    confirm_subscriber(&mut store, 1);
    let f = NewsletterForm {
        title: "T".to_string(),
        content: "C".to_string(),
        idempotency_key: "key-1".to_string(),
    };
    publish_newsletter(&mut store, 7, &f, 100, 1000).unwrap();
    store
}

#[test]
fn retry_then_success_retires_the_task() {
    let mut store = store_with_one_task("john@foo.com");
    let outcome = try_send_email(&mut store, &vec![false, true]).unwrap();
    assert!(matches!(outcome, DeliveryOutcome::TasksLeft));
    // Delivered: the task is gone, with no residual failure state.
    assert_eq!(store.task_count(), 0);
    assert!(find_task(&store, 100, "john@foo.com").is_none());
}

#[test]
fn retry_ceiling_aborts_and_keeps_the_task() {
    let mut store = store_with_one_task("john@foo.com");
    // Failures accumulate backoff 1, 2, 6, 24, 120, 720; the seventh
    // retry would sleep 5040 s, past the 5000 s ceiling.
    let events = vec![false; 7];
    let e = try_send_email(&mut store, &events).unwrap_err();
    assert!(matches!(e, DeliveryError::RetryCeiling { retries: 7 }));
    // The cycle rolled back: the task survives with its previous counters.
    assert_eq!(store.task_count(), 1);
    assert_eq!(find_task(&store, 100, "john@foo.com"), Some((0, 1)));
    // A later cycle can still deliver it.
    let outcome = try_send_email(&mut store, &vec![true]).unwrap();
    assert!(matches!(outcome, DeliveryOutcome::TasksLeft));
    assert_eq!(store.task_count(), 0);
}

#[test]
fn empty_queue_reports_no_tasks() {
    let mut store = Store::new();
    let outcome = try_send_email(&mut store, &vec![true]).unwrap();
    assert!(matches!(outcome, DeliveryOutcome::NoTasksLeft));
}

#[test]
fn invalid_recipient_is_dropped_without_sending() {
    // A recipient that no longer passes validation is skipped and the
    // task retired; the send outcomes stay untouched.
    let mut store = Store::new();
    store.issues.push(Issue {
        id: 100,
        title: "T".to_string(),
        content: "C".to_string(),
        published_at: 1000,
    });
    store.queue.push(DeliveryTask {
        issue_id: 100,
        recipient: "not-an-email".to_string(),
        retry_count: 0,
        backoff_seconds: 1,
    });
    let outcome = try_send_email(&mut store, &vec![true]).unwrap();
    assert!(matches!(outcome, DeliveryOutcome::TasksLeft));
    assert_eq!(store.task_count(), 0);
}

#[test]
fn send_verdict_walks_the_backoff_schedule() {
    assert!(matches!(run_send_attempts(0, 1, &vec![true]), SendVerdict::Delivered));
    assert!(matches!(run_send_attempts(0, 1, &vec![false, true]), SendVerdict::Delivered));
    assert!(matches!(
        run_send_attempts(0, 1, &vec![false; 7]),
        SendVerdict::CeilingExceeded { retries: 7 }
    ));
    // After six failures the counters stand at six retries and 720 s.
    assert!(matches!(
        run_send_attempts(0, 1, &vec![false; 6]),
        SendVerdict::Undecided { retry_count: 6, backoff_seconds: 720 }
    ));
    // A single failure from a large accumulated backoff hits the ceiling
    // immediately.
    assert!(matches!(
        run_send_attempts(1, 5000, &vec![false]),
        SendVerdict::CeilingExceeded { retries: 2 }
    ));
}

#[test]
fn get_issue_reports_missing_issue() {
    let store = Store::new();
    assert!(matches!(get_issue(&store, 42), Err(DeliveryError::MissingIssue)));
    let store2 = store_with_one_task("john@foo.com");
    let Newsletter { title, content } = get_issue(&store2, 100).unwrap();
    assert_eq!(title, "T");
    assert_eq!(content, "C");
}

#[test]
fn start_delivery_claims_the_front_task() {
    let store = store_with_one_task("john@foo.com");
    let (issue_id, email) = start_delivery(&store).unwrap();
    assert_eq!(issue_id, 100);
    assert_eq!(email, "john@foo.com");
    assert!(start_delivery(&Store::new()).is_none());
}

#[test]
fn worker_loop_delays() {
    assert_eq!(next_delay(&Ok(DeliveryOutcome::TasksLeft)), 0);
    assert_eq!(next_delay(&Ok(DeliveryOutcome::NoTasksLeft)), 10);
    assert_eq!(next_delay(&Err(DeliveryError::RetryCeiling { retries: 7 })), 1);
}
