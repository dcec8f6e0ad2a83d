//! The client-supplied idempotency key: a non-empty token of at most
//! [`MAX_KEY_LENGTH`] characters, scoping a "do this exactly once" intent
//! across retries.

use vstd::prelude::*;

verus! {

/// The longest accepted idempotency key, in characters.
pub const MAX_KEY_LENGTH: usize = 50;

/// Whether a character sequence is acceptable as an idempotency key.
pub open spec fn key_valid(k: Seq<char>) -> bool {
    0 < k.len() <= MAX_KEY_LENGTH
}

/// A validated idempotency key. Can only be built through
/// [`IdempotencyKey::try_from`], so a value of this type is always valid.
#[derive(Debug)]
pub struct IdempotencyKey(String);

impl View for IdempotencyKey {
    type V = Seq<char>;

    closed spec fn view(&self) -> Seq<char> {
        self.0@
    }
}

impl IdempotencyKey {
    /// The invariant the only constructor establishes.
    #[verifier::type_invariant]
    closed spec fn inv(self) -> bool {
        key_valid(self.0@)
    }

    /// Accept a key exactly when it is non-empty and within the length
    /// bound; reject it otherwise.
    pub fn try_from(value: String) -> (r: Result<IdempotencyKey, String>)
        ensures
            match r {
                Ok(k) => key_valid(value@) && k@ == value@,
                Err(_) => !key_valid(value@),
            },
    {
        let len = value.as_str().unicode_len();
        if len == 0 {
            Err(String::from_str("Idempotency key cannot be empty"))
        } else if len > MAX_KEY_LENGTH {
            Err(String::from_str("Idempotency key cannot be longer than 50 characters"))
        } else {
            Ok(IdempotencyKey(value))
        }
    }

    /// The key's characters.
    pub fn as_ref(&self) -> (r: &str)
        ensures
            r@ == self@,
    {
        self.0.as_str()
    }

    /// A fresh `String` holding the key.
    pub fn to_string_value(&self) -> (r: String)
        ensures
            r@ == self@,
    {
        self.0.clone()
    }

    /// Give the key's `String` back, consuming the wrapper.
    pub fn into_string(self) -> (r: String)
        ensures
            r@ == self@,
    {
        self.0
    }
}

} // verus!
