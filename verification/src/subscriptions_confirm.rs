//! Confirming a subscription: resolve the emailed token to a subscriber
//! and mark them confirmed, idempotently.

use vstd::prelude::*;

use crate::response::ResponseView;
use crate::response::StoredResponse;
use crate::response::spec_status_response;
use crate::response::status_response;
use crate::store::Store;
use crate::store::StoreView;
use crate::store::SubscriberStatus;
use crate::store::Subscription;
use crate::store::SubscriptionView;
use crate::store::TokenView;
use crate::store::has_subscription_id;
use crate::store::has_token;
use crate::store::lemma_subscription_at_id;
use crate::store::store_view_wf;
use crate::store::subscription_for_id;
use crate::store::token_row_for;

verus! {

/// The query parameters of a confirmation request.
pub struct Parameters {
    /// The alphanumeric token that `subscribe` generated and emailed.
    pub subscription_token: String,
}

/// Why a confirmation failed.
#[derive(Debug)]
pub enum ConfirmError {
    /// The token is not in the store.
    ValidationError,
    /// Anything else; the payload carries the underlying message.
    UnexpectedError(String),
}

impl ConfirmError {
    /// The HTTP status the error is reported with.
    pub fn status_code(&self) -> (r: u16)
        ensures
            r == (match self {
                ConfirmError::ValidationError => 401u16,
                ConfirmError::UnexpectedError(_) => 500u16,
            }),
    {
        match self {
            ConfirmError::ValidationError => 401,
            ConfirmError::UnexpectedError(_) => 500,
        }
    }

    /// The message shown for the error.
    pub fn message(&self) -> (r: String)
        ensures
            match self {
                ConfirmError::ValidationError => r@ == "Token not found"@,
                ConfirmError::UnexpectedError(e) => r@ == e@,
            },
    {
        match self {
            ConfirmError::ValidationError => String::from_str("Token not found"),
            ConfirmError::UnexpectedError(e) => e.clone(),
        }
    }
}

/// With unique token strings, a matching index is the one
/// [`token_row_for`] speaks of.
proof fn lemma_token_at(tokens: Seq<TokenView>, token: Seq<char>, i: int)
    requires
        forall|p: int, q: int| 0 <= p < q < tokens.len() ==> tokens[p].token != tokens[q].token,
        0 <= i < tokens.len(),
        tokens[i].token == token,
    ensures
        has_token(tokens, token),
        token_row_for(tokens, token) == tokens[i],
{
    let j = choose|j: int| 0 <= j < tokens.len() && tokens[j].token == token;
    if i < j {
        assert(tokens[i].token != tokens[j].token);
    } else if j < i {
        assert(tokens[j].token != tokens[i].token);
    }
}

/// The subscriber a stored token points at, if the token exists.
pub fn get_subscriber_id_from_token(store: &Store, token: &str) -> (r: Option<u128>)
    requires
        store.wf(),
    ensures
        match r {
            Some(id) => has_token(store@.tokens, token@) && id == token_row_for(
                store@.tokens,
                token@,
            ).subscriber_id,
            None => !has_token(store@.tokens, token@),
        },
{
    let needle = String::from_str(token);
    let mut i: usize = 0;
    while i < store.tokens.len()
        invariant
            store.wf(),
            needle@ == token@,
            i <= store@.tokens.len(),
            forall|j: int| 0 <= j < i ==> store@.tokens[j].token != token@,
        decreases store@.tokens.len() - i,
    {
        if store.tokens[i].token == needle {
            proof {
                lemma_token_at(store@.tokens, token@, i as int);
            }
            return Some(store.tokens[i].subscriber_id);
        }
        i = i + 1;
    }
    None
}

/// The subscriptions sequence with one subscriber marked confirmed.
pub open spec fn confirmed_at(subs: Seq<SubscriptionView>, i: int) -> Seq<SubscriptionView> {
    subs.update(
        i,
        SubscriptionView {
            id: subs[i].id,
            email: subs[i].email,
            name: subs[i].name,
            status: SubscriberStatus::Confirmed,
        },
    )
}

/// The index of the subscription with this id; meaningful only when
/// [`has_subscription_id`].
pub open spec fn subscription_index(subs: Seq<SubscriptionView>, id: u128) -> int {
    choose|i: int| 0 <= i < subs.len() && subs[i].id == id
}

/// Mark the subscriber with this id confirmed. Idempotent, and a no-op
/// for an id that no subscription carries, like the `UPDATE` it stands
/// for.
pub fn confirm_subscriber(store: &mut Store, id: u128)
    requires
        old(store).wf(),
    ensures
        final(store).wf(),
        ({
            if has_subscription_id(old(store)@.subscriptions, id) {
                final(store)@ == (StoreView {
                    subscriptions: confirmed_at(
                        old(store)@.subscriptions,
                        subscription_index(old(store)@.subscriptions, id),
                    ),
                    ..old(store)@
                })
            } else {
                final(store)@ == old(store)@
            }
        }),
{
    let ghost old_v = store@;
    let mut i: usize = 0;
    while i < store.subscriptions.len()
        invariant
            old_v == old(store)@,
            store@ == old_v,
            store_view_wf(old_v),
            i <= old_v.subscriptions.len(),
            forall|j: int| 0 <= j < i ==> old_v.subscriptions[j].id != id,
        decreases old_v.subscriptions.len() - i,
    {
        if store.subscriptions[i].id == id {
            proof {
                lemma_subscription_at_id(old_v.subscriptions, id, i as int);
                assert(subscription_index(old_v.subscriptions, id) == i as int);
            }
            let updated = Subscription {
                id: store.subscriptions[i].id,
                email: store.subscriptions[i].email.clone(),
                name: store.subscriptions[i].name.clone(),
                status: SubscriberStatus::Confirmed,
            };
            store.subscriptions.set(i, updated);
            proof {
                assert(store@.subscriptions =~= confirmed_at(old_v.subscriptions, i as int));
                assert(store@ =~= (StoreView {
                    subscriptions: confirmed_at(old_v.subscriptions, i as int),
                    ..old_v
                }));
                let s2 = store@.subscriptions;
                assert forall|p: int, q: int|
                    0 <= p < q < s2.len() implies s2[p].id != s2[q].id && s2[p].email
                    != s2[q].email by {
                    assert(s2[p].id == old_v.subscriptions[p].id && s2[p].email
                        == old_v.subscriptions[p].email);
                    assert(s2[q].id == old_v.subscriptions[q].id && s2[q].email
                        == old_v.subscriptions[q].email);
                }
            }
            return ;
        }
        i = i + 1;
    }
}

/// Whether a confirmation token is well-shaped: exactly
/// [`crate::subscriptions::TOKEN_LENGTH`] characters, none of them a
/// space.
pub open spec fn token_format_ok(t: Seq<char>) -> bool {
    t.len() == crate::subscriptions::TOKEN_LENGTH && !(exists|i: int|
        0 <= i < t.len() && t[i] == ' ')
}

/// Whether the string holds a space character.
fn contains_space(s: &str) -> (r: bool)
    ensures
        r == exists|i: int| 0 <= i < s@.len() && s@[i] == ' ',
{
    let len = s.unicode_len();
    let mut i: usize = 0;
    while i < len
        invariant
            len == s@.len(),
            i <= len,
            forall|j: int| 0 <= j < i ==> s@[j] != ' ',
        decreases len - i,
    {
        if s.get_char(i) == ' ' {
            return true;
        }
        i = i + 1;
    }
    false
}

/// Confirm the subscriber a token belongs to.
///
/// A malformed token, and a subscriber who is already confirmed, are
/// answered with a plain server-error response; an unknown token is the
/// one validation error; otherwise the subscriber is marked confirmed —
/// idempotently — and the caller gets an empty success response.
pub fn confirm(store: &mut Store, params: &Parameters) -> (r: Result<StoredResponse, ConfirmError>)
    requires
        old(store).wf(),
    ensures
        final(store).wf(),
        ({
            let t = params.subscription_token@;
            let tokens = old(store)@.tokens;
            let subs = old(store)@.subscriptions;
            if !token_format_ok(t) {
                r matches Ok(resp) && resp@ == spec_status_response(500) && final(store)@ == old(
                    store,
                )@
            } else if !has_token(tokens, t) {
                r matches Err(ConfirmError::ValidationError) && final(store)@ == old(store)@
            } else {
                let id = token_row_for(tokens, t).subscriber_id;
                if has_subscription_id(subs, id) && subscription_for_id(subs, id).status
                    is Confirmed {
                    r matches Ok(resp) && resp@ == spec_status_response(500) && final(store)@
                        == old(store)@
                } else if has_subscription_id(subs, id) {
                    r matches Ok(resp) && resp@ == spec_status_response(200) && final(store)@ == (
                    StoreView {
                        subscriptions: confirmed_at(subs, subscription_index(subs, id)),
                        ..old(store)@
                    })
                } else {
                    r matches Ok(resp) && resp@ == spec_status_response(200) && final(store)@
                        == old(store)@
                }
            }
        }),
{
    let token = &params.subscription_token;
    if token.as_str().unicode_len() != crate::subscriptions::TOKEN_LENGTH || contains_space(
        token.as_str(),
    ) {
        return Ok(status_response(500));
    }
    let id = match get_subscriber_id_from_token(store, token.as_str()) {
        Some(id) => id,
        None => {
            return Err(ConfirmError::ValidationError);
        },
    };
    match store.find_subscription_index(id) {
        Some(i) => {
            proof {
                lemma_subscription_at_id(store@.subscriptions, id, i as int);
            }
            if matches!(store.subscriptions[i].status, SubscriberStatus::Confirmed) {
                return Ok(status_response(500));
            }
            confirm_subscriber(store, id);
            Ok(status_response(200))
        },
        None => {
            confirm_subscriber(store, id);
            Ok(status_response(200))
        },
    }
}

} // verus!
