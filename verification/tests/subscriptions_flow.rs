//! Signing up and confirming subscribers.

use zero_to_prod::store::Store;
use zero_to_prod::store::SubscriberStatus;
use zero_to_prod::subscriptions::ConfirmationEmail;
use zero_to_prod::subscriptions::FormData;
use zero_to_prod::subscriptions::SubscribeError;
use zero_to_prod::subscriptions::confirmation_link;
use zero_to_prod::subscriptions::generate_subscription_token;
use zero_to_prod::subscriptions::subscribe;
use zero_to_prod::subscriptions_confirm::ConfirmError;
use zero_to_prod::subscriptions_confirm::Parameters;
use zero_to_prod::subscriptions_confirm::confirm;

fn form(name: &str, email: &str) -> FormData {
    FormData { name: name.to_string(), email: email.to_string() }
}

#[test]
fn subscribe_ok() {
    let mut store = Store::new();
    let token = "t".repeat(25);
    let c = subscribe(&mut store, form("John", "john@foo.com"), 1, token.clone()).unwrap();
    assert_eq!(c.recipient, "john@foo.com");
    assert_eq!(c.name, "John");
    assert_eq!(c.token, token);
    assert_eq!(store.subscription_count(), 1);
    assert_eq!(store.token_count(), 1);
    assert_eq!(store.subscription_status(1), Some(SubscriberStatus::PendingConfirmation));
}

#[test]
fn subscribe_invalid_request() {
    let mut store = Store::new();
    let cases = [
        form("", "john@foo.com"),
        form("John", "not-an-email"),
        form("John", ""),
        form("/bad/", "john@foo.com"),
    ];
    for f in cases {
        let e = subscribe(&mut store, f, 1, "t".repeat(25)).unwrap_err();
        assert!(matches!(e, SubscribeError::ValidationError(_)));
        assert_eq!(e.status_code(), 400);
    }
    assert_eq!(store.subscription_count(), 0);
    assert_eq!(store.token_count(), 0);
}

#[test]
fn repeated_subscribe_resends_the_stored_token() {
    let mut store = Store::new();
    let first = subscribe(&mut store, form("John", "john@foo.com"), 1, "a".repeat(25)).unwrap();
    let again = subscribe(&mut store, form("John", "john@foo.com"), 2, "b".repeat(25)).unwrap();
    assert_eq!(again.token, first.token);
    assert_eq!(store.subscription_count(), 1);
    assert_eq!(store.token_count(), 1);
}

#[test]
fn duplicate_subscriber_id_is_rejected() {
    let mut store = Store::new();
    subscribe(&mut store, form("John", "john@foo.com"), 1, "a".repeat(25)).unwrap();
    let e = subscribe(&mut store, form("Jane", "jane@foo.com"), 1, "b".repeat(25)).unwrap_err();
    assert!(matches!(e, SubscribeError::InsertSubscriberError(_)));
    assert_eq!(e.status_code(), 500);
    assert_eq!(store.subscription_count(), 1);
}

#[test]
fn clashing_token_rolls_the_whole_unit_back() {
    let mut store = Store::new();
    subscribe(&mut store, form("John", "john@foo.com"), 1, "a".repeat(25)).unwrap();
    let e = subscribe(&mut store, form("Jane", "jane@foo.com"), 2, "a".repeat(25)).unwrap_err();
    assert!(matches!(e, SubscribeError::StoreTokenError(_)));
    // All or nothing: the subscriber insert was rolled back with it.
    assert_eq!(store.subscription_count(), 1);
    assert_eq!(store.token_count(), 1);
}

#[test]
fn confirm_ok() {
    let mut store = Store::new();
    let ConfirmationEmail { token, .. } =
        subscribe(&mut store, form("John", "john@foo.com"), 1, generate_subscription_token())
            .unwrap();
    let resp = confirm(&mut store, &Parameters { subscription_token: token }).unwrap();
    assert_eq!(resp.status, 200);
    assert_eq!(store.subscription_status(1), Some(SubscriberStatus::Confirmed));
}

#[test]
fn confirm_twice_is_refused() {
    let mut store = Store::new();
    let token = "a".repeat(25);
    subscribe(&mut store, form("John", "john@foo.com"), 1, token.clone()).unwrap();
    confirm(&mut store, &Parameters { subscription_token: token.clone() }).unwrap();
    let resp = confirm(&mut store, &Parameters { subscription_token: token }).unwrap();
    assert_eq!(resp.status, 500);
    assert_eq!(store.subscription_status(1), Some(SubscriberStatus::Confirmed));
}

#[test]
fn confirmation_no_token() {
    let mut store = Store::new();
    // A well-shaped token that was never issued.
    let e = confirm(&mut store, &Parameters { subscription_token: "z".repeat(25) }).unwrap_err();
    assert!(matches!(e, ConfirmError::ValidationError));
    assert_eq!(e.status_code(), 401);
    assert_eq!(e.message(), "Token not found");
}

#[test]
fn malformed_tokens_get_a_plain_error_response() {
    let mut store = Store::new();
    for bad in ["short", &"a".repeat(26), &format!("{} {}", "a".repeat(12), "b".repeat(12))] {
        let resp = confirm(&mut store, &Parameters { subscription_token: bad.to_string() })
            .unwrap();
        assert_eq!(resp.status, 500);
    }
}

#[test]
fn generated_tokens_are_25_alphanumerics() {
    for _ in 0..10 {
        let t = generate_subscription_token();
        assert_eq!(t.len(), 25);
        assert!(t.chars().all(|c| c.is_ascii_alphanumeric()));
    }
}

#[test]
fn confirmation_link_embeds_the_token() {
    let link = confirmation_link("https://api.example.org", "abc123");
    assert_eq!(link, "https://api.example.org/subscriptions/confirm?subscription_token=abc123");
}

#[test]
fn subscribe_error_messages() {
    assert_eq!(
        SubscribeError::ValidationError("bad input".to_string()).message(),
        "bad input"
    );
    assert_eq!(
        SubscribeError::CommitTransactionError("x".to_string()).message(),
        "Failed to commit transaction"
    );
    assert_eq!(
        SubscribeError::InsertSubscriberError("x".to_string()).message(),
        "Failed to insert subscriber"
    );
    assert_eq!(SubscribeError::PoolError("x".to_string()).message(), "Failed to connect to db pool");
    assert_eq!(
        SubscribeError::SendEmailError("x".to_string()).message(),
        "Failed to send confirmation email"
    );
    assert_eq!(SubscribeError::StoreTokenError("x".to_string()).message(), "Failed to store token");
}
