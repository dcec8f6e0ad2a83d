//! Configuration, authentication decisions, login responses, and the
//! response helpers.

use zero_to_prod::authentication::AuthError;
use zero_to_prod::authentication::UserId;
use zero_to_prod::authentication::credentials_outcome;
use zero_to_prod::authentication::validate_new_password;
use zero_to_prod::configuration::Environment;
use zero_to_prod::domain::NewSubscriber;
use zero_to_prod::login::LoginError;
use zero_to_prod::login::login_redirect;
use zero_to_prod::login::successful_login_redirect;
use zero_to_prod::newsletters::PublishError;
use zero_to_prod::newsletters::get_confirmed_subscribers;
use zero_to_prod::response::error_400;
use zero_to_prod::response::error_500;
use zero_to_prod::response::redirect;
use zero_to_prod::response::status_response;
use zero_to_prod::store::Store;
use zero_to_prod::subscriptions::FormData;
use zero_to_prod::subscriptions::insert_subscriber;
use zero_to_prod::subscriptions_confirm::confirm_subscriber;

#[test]
fn environment_round_trip() {
    assert!(matches!(Environment::try_from("local".to_string()), Ok(Environment::Local)));
    assert!(matches!(Environment::try_from("LOCAL".to_string()), Ok(Environment::Local)));
    assert!(matches!(
        Environment::try_from("Production".to_string()),
        Ok(Environment::Production)
    ));
    assert!(Environment::try_from("staging".to_string()).is_err());
    assert_eq!(Environment::Local.as_str(), "local");
    assert_eq!(Environment::Production.as_str(), "production");
}

#[test]
fn credentials_decision_table() {
    assert!(matches!(credentials_outcome(Some(UserId(9)), true), Ok(UserId(9))));
    assert!(matches!(
        credentials_outcome(Some(UserId(9)), false),
        Err(AuthError::InvalidCredentials(_))
    ));
    assert!(matches!(
        credentials_outcome(None, true),
        Err(AuthError::InvalidCredentials(_))
    ));
    assert!(matches!(
        credentials_outcome(None, false),
        Err(AuthError::InvalidCredentials(_))
    ));
}

#[test]
fn password_change_checks() {
    assert!(validate_new_password("longenoughpass", "longenoughpass").is_none());
    assert_eq!(
        validate_new_password("longenoughpass", "different-pass!").unwrap(),
        "The two passwords supplied do not match!"
    );
    assert_eq!(
        validate_new_password("short", "short").unwrap(),
        "The new password is too short!"
    );
    let too_long = "p".repeat(129);
    assert_eq!(
        validate_new_password(&too_long, &too_long).unwrap(),
        "The new password is too short!"
    );
    let just_right = "p".repeat(13);
    assert!(validate_new_password(&just_right, &just_right).is_none());
}

#[test]
fn login_mapping_and_redirects() {
    assert!(matches!(
        LoginError::from_auth(AuthError::InvalidCredentials("x".to_string())),
        LoginError::AuthError(_)
    ));
    assert!(matches!(
        LoginError::from_auth(AuthError::UnexpectedError("x".to_string())),
        LoginError::UnexpectedError(_)
    ));
    assert_eq!(
        LoginError::AuthError("x".to_string()).message(),
        "You are not authorized to view this page."
    );
    assert_eq!(AuthError::InvalidCredentials("x".to_string()).message(), "Invalid credentials");
    let fail = login_redirect();
    assert_eq!(fail.status, 303);
    assert_eq!(fail.headers[0].value, b"/login".to_vec());
    let ok = successful_login_redirect();
    assert_eq!(ok.headers[0].value, b"/admin/dashboard".to_vec());
}

#[test]
fn publish_error_responses() {
    let challenge = PublishError::AuthError("x".to_string()).error_response();
    assert_eq!(challenge.status, 401);
    assert_eq!(challenge.headers.len(), 1);
    assert_eq!(challenge.headers[0].name, "www-authenticate");
    assert_eq!(challenge.headers[0].value, b"Basic realm=\"publish\"".to_vec());
    let other = PublishError::UnexpectedError("x".to_string()).error_response();
    assert_eq!(other.status, 500);
    assert!(other.headers.is_empty());
    assert_eq!(PublishError::AuthError("x".to_string()).message(), "Authentication failed");
    assert_eq!(PublishError::UnexpectedError("boom".to_string()).message(), "boom");
}

#[test]
fn response_helpers() {
    let r = redirect("/somewhere");
    assert_eq!(r.status, 303);
    assert_eq!(r.headers[0].name, "location");
    assert_eq!(r.headers[0].value, b"/somewhere".to_vec());
    assert!(r.body.is_empty());
    let s = status_response(204);
    assert_eq!(s.status, 204);
    assert!(s.headers.is_empty());
    let e = error_400("bad".to_string());
    assert_eq!((e.status, e.message.as_str()), (400, "bad"));
    let e = error_500("boom".to_string());
    assert_eq!((e.status, e.message.as_str()), (500, "boom"));
}

#[test]
fn confirmed_subscribers_are_listed_in_order() {
    let mut store = Store::new();
    for (id, email, confirmed) in
        [(1, "a@foo.com", true), (2, "b@foo.com", false), (3, "c@foo.com", true)]
    {
        let ns = NewSubscriber::try_from(FormData {
            name: "John".to_string(),
            email: email.to_string(),
        })
        .unwrap();
        insert_subscriber(&mut store, &ns, id).unwrap();
        if confirmed {
            confirm_subscriber(&mut store, id);
        }
    }
    let subs = get_confirmed_subscribers(&store);
    assert_eq!(subs.len(), 2);
    assert_eq!(subs[0].as_ref().unwrap().as_ref(), "a@foo.com");
    assert_eq!(subs[1].as_ref().unwrap().as_ref(), "c@foo.com");
}
