//! Parsed domain values: subscriber names and email addresses.
//!
//! Both types can only be built through their `parse` constructors, so a
//! value of either type has passed validation once and can be passed
//! around with confidence afterwards.

use vstd::prelude::*;

verus! {

/// What `validator` considers a valid email address; a function of the
/// characters alone.
pub uninterp spec fn is_valid_email(s: Seq<char>) -> bool;

/// Relies on validator's `ValidateEmail::validate_email` for `&str`:
/// whether the string is a valid email address under the HTML5 rules. The
/// result depends on the characters alone; the empty string is rejected.
#[verifier::external_body]
fn validate_email(s: &str) -> (r: bool)
    ensures
        r == is_valid_email(s@),
        s@.len() == 0 ==> !r,
{
    validator::ValidateEmail::validate_email(&s)
}

/// The number of extended grapheme clusters that `unicode-segmentation`
/// splits a string into; a function of the characters alone.
pub uninterp spec fn grapheme_count_of(s: Seq<char>) -> nat;

/// Relies on unicode-segmentation's `UnicodeSegmentation::graphemes`: the
/// number of extended grapheme clusters. The result depends on the
/// characters alone.
#[verifier::external_body]
fn grapheme_count(s: &str) -> (r: usize)
    ensures
        r as nat == grapheme_count_of(s@),
{
    unicode_segmentation::UnicodeSegmentation::graphemes(s, true).count()
}

/// What `str::trim` leaves: the string without leading and trailing
/// whitespace; a function of the characters alone.
pub uninterp spec fn trimmed_of(s: Seq<char>) -> Seq<char>;

/// Relies on `str::trim` of std, which vstd gives no specification: the
/// string with leading and trailing whitespace removed.
#[verifier::external_body]
fn trim<'a>(s: &'a str) -> (r: &'a str)
    ensures
        r@ == trimmed_of(s@),
{
    s.trim()
}

/// The characters a subscriber name must not contain.
pub open spec fn forbidden_char(c: char) -> bool {
    ||| c == '/'
    ||| c == '('
    ||| c == ')'
    ||| c == '"'
    ||| c == '<'
    ||| c == '>'
    ||| c == '\\'
    ||| c == '{'
    ||| c == '}'
}

/// Whether any character of the sequence is forbidden.
pub open spec fn has_forbidden_char(s: Seq<char>) -> bool {
    exists|i: int| 0 <= i < s.len() && forbidden_char(s[i])
}

/// The longest accepted subscriber name, in grapheme clusters.
pub const MAX_NAME_GRAPHEMES: usize = 256;

/// Whether a character sequence is acceptable as a subscriber name: not
/// blank, within the length bound, and free of troublesome characters.
pub open spec fn name_valid(s: Seq<char>) -> bool {
    &&& trimmed_of(s).len() != 0
    &&& grapheme_count_of(s) <= MAX_NAME_GRAPHEMES
    &&& !has_forbidden_char(s)
}

/// A user-submitted subscriber name that passed validation. Must be built
/// with [`SubscriberName::parse`]; the field stays private so the value
/// cannot be mutated past the check.
#[derive(Debug)]
pub struct SubscriberName(String);

impl View for SubscriberName {
    type V = Seq<char>;

    closed spec fn view(&self) -> Seq<char> {
        self.0@
    }
}

impl SubscriberName {
    /// Accept a name exactly when it is not blank, at most
    /// [`MAX_NAME_GRAPHEMES`] grapheme clusters long, and free of the
    /// forbidden characters; reject it otherwise.
    pub fn parse(name: String) -> (r: Result<SubscriberName, String>)
        ensures
            match r {
                Ok(n) => name_valid(name@) && n@ == name@,
                Err(_) => !name_valid(name@),
            },
    {
        let empty = trim(name.as_str()).is_empty();
        let too_long = grapheme_count(name.as_str()) > MAX_NAME_GRAPHEMES;
        let bad = contains_forbidden_char(name.as_str());
        if !empty && !too_long && !bad {
            Ok(SubscriberName(name))
        } else {
            let mut msg = String::from_str("Invalid name: ");
            msg.append(name.as_str());
            Err(msg)
        }
    }

    /// The name's characters.
    pub fn as_ref(&self) -> (r: &str)
        ensures
            r@ == self@,
    {
        self.0.as_str()
    }
}

/// Whether the string holds any of the forbidden characters.
fn contains_forbidden_char(s: &str) -> (r: bool)
    ensures
        r == has_forbidden_char(s@),
{
    let len = s.unicode_len();
    let mut i: usize = 0;
    while i < len
        invariant
            len == s@.len(),
            i <= len,
            forall|j: int| 0 <= j < i ==> !forbidden_char(s@[j]),
        decreases len - i,
    {
        let c = s.get_char(i);
        if c == '/' || c == '(' || c == ')' || c == '"' || c == '<' || c == '>' || c == '\\' || c
            == '{' || c == '}' {
            return true;
        }
        i = i + 1;
    }
    false
}

/// A subscriber email address that passed validation. Serves senders and
/// recipients alike; must be built with [`SubscriberEmail::parse`].
#[derive(Debug)]
pub struct SubscriberEmail(String);

impl View for SubscriberEmail {
    type V = Seq<char>;

    closed spec fn view(&self) -> Seq<char> {
        self.0@
    }
}

impl SubscriberEmail {
    /// Accept a string exactly when it is a valid email address.
    pub fn parse(email: String) -> (r: Result<SubscriberEmail, String>)
        ensures
            match r {
                Ok(e) => is_valid_email(email@) && e@ == email@,
                Err(_) => !is_valid_email(email@),
            },
    {
        if validate_email(email.as_str()) {
            Ok(SubscriberEmail(email))
        } else {
            let mut msg = String::from_str("Invalid email: ");
            msg.append(email.as_str());
            Err(msg)
        }
    }

    /// The address's characters.
    pub fn as_ref(&self) -> (r: &str)
        ensures
            r@ == self@,
    {
        self.0.as_str()
    }
}

/// A fully parsed new subscriber: name and email both validated.
#[derive(Debug)]
pub struct NewSubscriber {
    pub name: SubscriberName,
    pub email: SubscriberEmail,
}

} // verus!
