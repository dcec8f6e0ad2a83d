//! Signing up a subscriber: parse the submitted form, store the new
//! subscriber with a confirmation token in one transaction, and tell the
//! caller which confirmation email to send. Sending it — and rendering
//! the message — happens outside the library.

use vstd::prelude::*;

use crate::domain::NewSubscriber;
use crate::domain::SubscriberEmail;
use crate::domain::SubscriberName;
use crate::domain::is_valid_email;
use crate::domain::name_valid;
use crate::store::Store;
use crate::store::SubscriberStatus;
use crate::store::Subscription;
use crate::store::SubscriptionToken;
use crate::store::SubscriptionView;
use crate::store::TokenView;
use crate::store::first_token_for_subscriber;
use crate::store::first_token_index;
use crate::store::has_subscription_email;
use crate::store::has_subscription_id;
use crate::store::has_token;
use crate::store::has_token_for_subscriber;
use crate::store::lemma_subscription_at_email;
use crate::store::subscription_for_email;

verus! {

/// The raw subscription form: a name and an email, both still unchecked.
pub struct FormData {
    pub name: String,
    pub email: String,
}

impl NewSubscriber {
    /// Parse a submitted form into validated domain values: accepted
    /// exactly when both the name and the email pass their checks.
    pub fn try_from(form: FormData) -> (r: Result<NewSubscriber, String>)
        ensures
            match r {
                Ok(ns) => name_valid(form.name@) && is_valid_email(form.email@) && ns.name@
                    == form.name@ && ns.email@ == form.email@,
                Err(_) => !(name_valid(form.name@) && is_valid_email(form.email@)),
            },
    {
        let name = match SubscriberName::parse(form.name) {
            Ok(n) => n,
            Err(e) => {
                return Err(e);
            },
        };
        let email = match SubscriberEmail::parse(form.email) {
            Ok(e) => e,
            Err(e) => {
                return Err(e);
            },
        };
        Ok(NewSubscriber { name, email })
    }
}

/// What can go wrong while subscribing. The variants keep the failing
/// step apart so the handler can report it; the payloads carry the
/// underlying message.
#[derive(Debug)]
pub enum SubscribeError {
    ValidationError(String),
    SendEmailError(String),
    CommitTransactionError(String),
    InsertSubscriberError(String),
    PoolError(String),
    StoreTokenError(String),
}

impl SubscribeError {
    /// The HTTP status the error is reported with: a client error for
    /// invalid input, a server error for everything else.
    pub fn status_code(&self) -> (r: u16)
        ensures
            r == (match self {
                SubscribeError::ValidationError(_) => 400u16,
                _ => 500u16,
            }),
    {
        match self {
            SubscribeError::ValidationError(_) => 400,
            _ => 500,
        }
    }

    /// The message shown for the error.
    pub fn message(&self) -> (r: String)
        ensures
            match self {
                SubscribeError::ValidationError(e) => r@ == e@,
                SubscribeError::CommitTransactionError(_) => r@ == "Failed to commit transaction"@,
                SubscribeError::InsertSubscriberError(_) => r@ == "Failed to insert subscriber"@,
                SubscribeError::PoolError(_) => r@ == "Failed to connect to db pool"@,
                SubscribeError::SendEmailError(_) => r@ == "Failed to send confirmation email"@,
                SubscribeError::StoreTokenError(_) => r@ == "Failed to store token"@,
            },
    {
        match self {
            SubscribeError::ValidationError(e) => e.clone(),
            SubscribeError::CommitTransactionError(_) => String::from_str(
                "Failed to commit transaction",
            ),
            SubscribeError::InsertSubscriberError(_) => String::from_str(
                "Failed to insert subscriber",
            ),
            SubscribeError::PoolError(_) => String::from_str("Failed to connect to db pool"),
            SubscribeError::SendEmailError(_) => String::from_str(
                "Failed to send confirmation email",
            ),
            SubscribeError::StoreTokenError(_) => String::from_str("Failed to store token"),
        }
    }
}

/// Add a new subscriber with pending status. Fails — changing nothing —
/// exactly when the email or the identifier is already taken, as the
/// table's uniqueness constraints would make it fail.
pub fn insert_subscriber(store: &mut Store, new_sub: &NewSubscriber, id: u128) -> (r: Result<
    (),
    SubscribeError,
>)
    requires
        old(store).wf(),
    ensures
        final(store).wf(),
        ({
            if has_subscription_email(old(store)@.subscriptions, new_sub.email@)
                || has_subscription_id(old(store)@.subscriptions, id) {
                r matches Err(SubscribeError::InsertSubscriberError(_)) && final(store)@ == old(
                    store,
                )@
            } else {
                r matches Ok(()) && final(store)@ == (crate::store::StoreView {
                    subscriptions: old(store)@.subscriptions.push(
                        SubscriptionView {
                            id,
                            email: new_sub.email@,
                            name: new_sub.name@,
                            status: SubscriberStatus::PendingConfirmation,
                        },
                    ),
                    ..old(store)@
                })
            }
        }),
{
    let ghost old_v = store@;
    if find_subscription_by_email(store, new_sub.email.as_ref()).is_some()
        || find_subscription_by_id(store, id).is_some() {
        return Err(
            SubscribeError::InsertSubscriberError(String::from_str("duplicate subscriber")),
        );
    }
    let sub = Subscription {
        id,
        email: new_sub.email.as_ref().to_owned(),
        name: new_sub.name.as_ref().to_owned(),
        status: SubscriberStatus::PendingConfirmation,
    };
    let ghost sub_v = sub@;
    store.subscriptions.push(sub);
    proof {
        assert(store@.subscriptions =~= old_v.subscriptions.push(sub_v));
        assert(store@ =~= (crate::store::StoreView {
            subscriptions: old_v.subscriptions.push(sub_v),
            ..old_v
        }));
        assert forall|p: int, q: int|
            0 <= p < q < store@.subscriptions.len() implies store@.subscriptions[p].id
            != store@.subscriptions[q].id && store@.subscriptions[p].email
            != store@.subscriptions[q].email by {
            if q == old_v.subscriptions.len() {
                if store@.subscriptions[p].id == id {
                    assert(has_subscription_id(old_v.subscriptions, id));
                }
                if store@.subscriptions[p].email == sub_v.email {
                    assert(has_subscription_email(old_v.subscriptions, sub_v.email));
                }
            }
        }
    }
    Ok(())
}

/// Find the position of the subscription with this email, if any.
fn find_subscription_by_email(store: &Store, email: &str) -> (r: Option<usize>)
    ensures
        match r {
            Some(i) => i < store@.subscriptions.len() && store@.subscriptions[i as int].email
                == email@ && has_subscription_email(store@.subscriptions, email@),
            None => !has_subscription_email(store@.subscriptions, email@),
        },
{
    let needle = String::from_str(email);
    let mut i: usize = 0;
    while i < store.subscriptions.len()
        invariant
            i <= store@.subscriptions.len(),
            needle@ == email@,
            forall|j: int| 0 <= j < i ==> store@.subscriptions[j].email != email@,
        decreases store@.subscriptions.len() - i,
    {
        if store.subscriptions[i].email == needle {
            return Some(i);
        }
        i = i + 1;
    }
    None
}

/// Find the position of the subscription with this id, if any.
fn find_subscription_by_id(store: &Store, id: u128) -> (r: Option<usize>)
    ensures
        match r {
            Some(i) => i < store@.subscriptions.len() && store@.subscriptions[i as int].id == id
                && has_subscription_id(store@.subscriptions, id),
            None => !has_subscription_id(store@.subscriptions, id),
        },
{
    let mut i: usize = 0;
    while i < store.subscriptions.len()
        invariant
            i <= store@.subscriptions.len(),
            forall|j: int| 0 <= j < i ==> store@.subscriptions[j].id != id,
        decreases store@.subscriptions.len() - i,
    {
        if store.subscriptions[i].id == id {
            return Some(i);
        }
        i = i + 1;
    }
    None
}

/// The id of the subscriber with this email, if one exists.
pub fn get_subscriber_id_from_email(store: &Store, email: &SubscriberEmail) -> (r: Option<u128>)
    requires
        store.wf(),
    ensures
        match r {
            Some(id) => has_subscription_email(store@.subscriptions, email@) && id
                == subscription_for_email(store@.subscriptions, email@).id,
            None => !has_subscription_email(store@.subscriptions, email@),
        },
{
    match find_subscription_by_email(store, email.as_ref()) {
        Some(i) => {
            proof {
                lemma_subscription_at_email(store@.subscriptions, email@, i as int);
            }
            Some(store.subscriptions[i].id)
        },
        None => None,
    }
}

/// With no earlier match, a matching position is the first token index.
proof fn lemma_first_token_at(tokens: Seq<TokenView>, id: u128, i: int)
    requires
        0 <= i < tokens.len(),
        forall|j: int| 0 <= j < i ==> tokens[j].subscriber_id != id,
        tokens[i].subscriber_id == id,
    ensures
        has_token_for_subscriber(tokens, id),
        first_token_index(tokens, id) == i,
    decreases i,
{
    if i > 0 {
        assert(tokens.drop_first() =~= tokens.subrange(1, tokens.len() as int));
        lemma_first_token_at(tokens.drop_first(), id, i - 1);
    }
}

/// The first stored confirmation token of this subscriber, if any.
pub fn get_subscriber_token(store: &Store, id: u128) -> (r: Option<String>)
    ensures
        match r {
            Some(t) => has_token_for_subscriber(store@.tokens, id) && t@
                == first_token_for_subscriber(store@.tokens, id),
            None => !has_token_for_subscriber(store@.tokens, id),
        },
{
    let mut i: usize = 0;
    while i < store.tokens.len()
        invariant
            i <= store@.tokens.len(),
            forall|j: int| 0 <= j < i ==> store@.tokens[j].subscriber_id != id,
        decreases store@.tokens.len() - i,
    {
        if store.tokens[i].subscriber_id == id {
            proof {
                lemma_first_token_at(store@.tokens, id, i as int);
            }
            return Some(store.tokens[i].token.clone());
        }
        i = i + 1;
    }
    None
}

/// Record a confirmation token for a subscriber. Fails — changing
/// nothing — exactly when the token string is already taken.
pub fn store_token(store: &mut Store, id: u128, token: &str) -> (r: Result<(), SubscribeError>)
    requires
        old(store).wf(),
    ensures
        final(store).wf(),
        ({
            if has_token(old(store)@.tokens, token@) {
                r matches Err(SubscribeError::StoreTokenError(_)) && final(store)@ == old(store)@
            } else {
                r matches Ok(()) && final(store)@ == (crate::store::StoreView {
                    tokens: old(store)@.tokens.push(TokenView { token: token@, subscriber_id: id }),
                    ..old(store)@
                })
            }
        }),
{
    let ghost old_v = store@;
    let owned = String::from_str(token);
    let mut i: usize = 0;
    while i < store.tokens.len()
        invariant
            old_v == old(store)@,
            store@ == old_v,
            store.wf(),
            owned@ == token@,
            i <= store@.tokens.len(),
            forall|j: int| 0 <= j < i ==> store@.tokens[j].token != token@,
        decreases store@.tokens.len() - i,
    {
        if store.tokens[i].token == owned {
            proof {
                assert(old_v.tokens[i as int].token == token@);
                assert(has_token(old_v.tokens, token@));
            }
            return Err(SubscribeError::StoreTokenError(String::from_str("duplicate token")));
        }
        i = i + 1;
    }
    let row = SubscriptionToken { token: owned, subscriber_id: id };
    let ghost row_v = row@;
    store.tokens.push(row);
    proof {
        assert(store@.tokens =~= old_v.tokens.push(row_v));
        assert(store@ =~= (crate::store::StoreView {
            tokens: old_v.tokens.push(row_v),
            ..old_v
        }));
        assert forall|p: int, q: int|
            0 <= p < q < store@.tokens.len() implies store@.tokens[p].token
            != store@.tokens[q].token by {
            if q == old_v.tokens.len() {
                if store@.tokens[p].token == token@ {
                    assert(has_token(old_v.tokens, token@));
                }
            }
        }
    }
    Ok(())
}

/// Whether a byte is an ASCII letter or digit.
pub open spec fn ascii_alphanumeric(b: u8) -> bool {
    (48 <= b <= 57) || (65 <= b <= 90) || (97 <= b <= 122)
}

/// Relies on rand's `Alphanumeric` distribution: every sample is drawn
/// from the ASCII letters and digits. Nothing more is promised of a
/// random value.
#[verifier::external_body]
fn sample_alphanumeric() -> (b: u8)
    ensures
        ascii_alphanumeric(b),
{
    rand::Rng::sample(&mut rand::thread_rng(), rand::distributions::Alphanumeric)
}

/// Relies on `String::from_utf8` of std: ASCII bytes are valid UTF-8 and
/// decode to one character per byte, each the byte's own code point.
#[verifier::external_body]
fn string_from_ascii(bytes: &Vec<u8>) -> (r: String)
    requires
        forall|i: int| 0 <= i < bytes@.len() ==> bytes@[i] < 128,
    ensures
        r@ == Seq::new(bytes@.len(), |i: int| bytes@[i] as char),
{
    String::from_utf8(bytes.clone()).unwrap()
}

/// The length of a confirmation token, in characters.
pub const TOKEN_LENGTH: usize = 25;

/// Draw a fresh confirmation token: [`TOKEN_LENGTH`] random ASCII
/// letters and digits.
pub fn generate_subscription_token() -> (t: String)
    ensures
        t@.len() == TOKEN_LENGTH,
        forall|i: int| 0 <= i < t@.len() ==> ascii_alphanumeric(#[trigger] t@[i] as u8),
{
    let mut bytes: Vec<u8> = Vec::new();
    let mut i: usize = 0;
    while i < TOKEN_LENGTH
        invariant
            i <= TOKEN_LENGTH,
            bytes@.len() == i,
            forall|j: int| 0 <= j < i ==> ascii_alphanumeric(#[trigger] bytes@[j]),
        decreases TOKEN_LENGTH - i,
    {
        bytes.push(sample_alphanumeric());
        i = i + 1;
    }
    let t = string_from_ascii(&bytes);
    t
}

/// The confirmation email the caller must now send: to whom, greeting
/// which name, carrying which token.
#[derive(Debug)]
pub struct ConfirmationEmail {
    pub recipient: String,
    pub name: String,
    pub token: String,
}

/// The confirmation link a token is sent as.
pub fn confirmation_link(base_url: &str, token: &str) -> (r: String)
    ensures
        r@ == base_url@ + "/subscriptions/confirm?subscription_token="@ + token@,
{
    let mut r = String::from_str(base_url);
    r.append("/subscriptions/confirm?subscription_token=");
    r.append(token);
    r
}

/// Sign a subscriber up. Parses the form; for a repeated request whose
/// email and token are already stored, asks for a resend of the stored
/// token and changes nothing; otherwise stores subscriber and token as
/// one unit — all or nothing — and asks for a fresh confirmation email.
///
/// The caller supplies the fresh `id` and `token`;
/// sending the email — and mapping a failed send to
/// `SubscribeError::SendEmailError` — is the caller's part.
pub fn subscribe(store: &mut Store, form: FormData, id: u128, token: String) -> (r: Result<
    ConfirmationEmail,
    SubscribeError,
>)
    requires
        old(store).wf(),
    ensures
        final(store).wf(),
        ({
            let name = form.name@;
            let email = form.email@;
            let subs = old(store)@.subscriptions;
            if !(name_valid(name) && is_valid_email(email)) {
                r matches Err(SubscribeError::ValidationError(_)) && final(store)@ == old(store)@
            } else if has_subscription_email(subs, email) && has_token_for_subscriber(
                old(store)@.tokens,
                subscription_for_email(subs, email).id,
            ) {
                r matches Ok(c) && c.recipient@ == email && c.name@ == name && c.token@
                    == first_token_for_subscriber(
                    old(store)@.tokens,
                    subscription_for_email(subs, email).id,
                ) && final(store)@ == old(store)@
            } else if has_subscription_email(subs, email) || has_subscription_id(subs, id) {
                r matches Err(SubscribeError::InsertSubscriberError(_)) && final(store)@ == old(
                    store,
                )@
            } else if has_token(old(store)@.tokens, token@) {
                r matches Err(SubscribeError::StoreTokenError(_)) && final(store)@ == old(store)@
            } else {
                r matches Ok(c) && c.recipient@ == email && c.name@ == name && c.token@ == token@
                    && final(store)@ == (crate::store::StoreView {
                    subscriptions: subs.push(
                        SubscriptionView {
                            id,
                            email,
                            name,
                            status: SubscriberStatus::PendingConfirmation,
                        },
                    ),
                    tokens: old(store)@.tokens.push(
                        TokenView { token: token@, subscriber_id: id },
                    ),
                    ..old(store)@
                })
            }
        }),
{
    let ghost old_v = store@;
    let new_sub = match NewSubscriber::try_from(form) {
        Ok(ns) => ns,
        Err(e) => {
            return Err(SubscribeError::ValidationError(e));
        },
    };
    if let Some(existing) = get_subscriber_id_from_email(store, &new_sub.email) {
        if let Some(stored) = get_subscriber_token(store, existing) {
            return Ok(
                ConfirmationEmail {
                    recipient: new_sub.email.as_ref().to_owned(),
                    name: new_sub.name.as_ref().to_owned(),
                    token: stored,
                },
            );
        }
    }
    match insert_subscriber(store, &new_sub, id) {
        Ok(()) => {},
        Err(e) => {
            return Err(e);
        },
    }
    let ghost mid_v = store@;
    match store_token(store, id, token.as_str()) {
        Ok(()) => {},
        Err(e) => {
            // The transaction would roll back: undo the subscriber insert
            // so the store shows none of the unit's effects.
            proof {
                assert(store@ == mid_v);
            }
            let ghost pre_pop = store.subscriptions@;
            let popped = store.subscriptions.pop();
            proof {
                assert(pre_pop.len() == mid_v.subscriptions.len());
                assert(store.subscriptions@ =~= pre_pop.subrange(0, pre_pop.len() - 1));
                assert forall|j: int| 0 <= j < old_v.subscriptions.len() implies store@.subscriptions[j]
                    == old_v.subscriptions[j] by {
                    assert(store@.subscriptions[j] == store.subscriptions@[j]@);
                    assert(store.subscriptions@[j] == pre_pop[j]);
                    assert(pre_pop[j]@ == mid_v.subscriptions[j]);
                }
                assert(store@.subscriptions =~= old_v.subscriptions);
                assert(store@ =~= old_v);
            }
            return Err(e);
        },
    }
    proof {
        assert(store@ =~= (crate::store::StoreView {
            subscriptions: old_v.subscriptions.push(
                SubscriptionView {
                    id,
                    email: new_sub.email@,
                    name: new_sub.name@,
                    status: SubscriberStatus::PendingConfirmation,
                },
            ),
            tokens: old_v.tokens.push(TokenView { token: token@, subscriber_id: id }),
            ..old_v
        }));
    }
    Ok(
        ConfirmationEmail {
            recipient: new_sub.email.as_ref().to_owned(),
            name: new_sub.name.as_ref().to_owned(),
            token,
        },
    )
}

} // verus!
