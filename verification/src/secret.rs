//! Secrets, random identifiers and the handle by which a login is cancelled.

use secrecy::ExposeSecret;
use vstd::prelude::*;

use crate::text::is_digit;

verus! {

/// A text that is handed on and sent, and never printed: it is kept in a
/// `SecretString` of `secrecy`, which wipes it from memory when it is dropped.
/// The crate's `SecretBox` is bounded by a trait of another crate, so it
/// stands in a field that Verus does not look into.
#[verifier::external_body]
pub struct Secret {
    text: secrecy::SecretString,
}

/// The text that a secret holds.
pub uninterp spec fn secret_text(secret: Secret) -> Seq<char>;

impl View for Secret {
    type V = Seq<char>;

    open spec fn view(&self) -> Seq<char> {
        secret_text(*self)
    }
}

/// `SecretString::from`: the secret holds the text it is made from.
#[verifier::external_body]
fn conceal(text: String) -> (r: Secret)
    ensures
        secret_text(r) == text@,
{
    Secret { text: secrecy::SecretString::from(text) }
}

/// `ExposeSecret::expose_secret`: the text that the secret holds.
#[verifier::external_body]
fn reveal_text(secret: &Secret) -> (r: &str)
    ensures
        r@ == secret_text(*secret),
{
    secret.text.expose_secret()
}

impl Secret {
    pub fn new(text: String) -> (r: Secret)
        ensures
            r@ == text@,
    {
        conceal(text)
    }

    /// The text itself, for the request that carries it.
    pub fn expose(&self) -> (r: &str)
        ensures
            r@ == self@,
    {
        reveal_text(self)
    }

    /// A second holder of the same secret.
    pub fn duplicate(&self) -> (r: Secret)
        ensures
            r@ == self@,
    {
        conceal(reveal_text(self).to_owned())
    }
}

/// The handle of `tokio_util` by which a login that is under way is cancelled.
/// It is carried, never looked into.
#[verifier::external_type_specification]
#[verifier::external_body]
pub struct ExCancellationToken(tokio_util::sync::CancellationToken);

pub open spec fn is_lower_hex_digit(c: char) -> bool {
    is_digit(c) || 'a' <= c <= 'f'
}

/// Thirty-two lower-case hexadecimal digits.
pub open spec fn is_simple_id(s: Seq<char>) -> bool {
    &&& s.len() == 32
    &&& forall|i: int| 0 <= i < 32 ==> is_lower_hex_digit(#[trigger] s[i])
}

/// Thirty-two lower-case hexadecimal digits in five groups, with hyphens between them.
pub open spec fn is_hyphenated_id(s: Seq<char>) -> bool {
    &&& s.len() == 36
    &&& forall|i: int|
        0 <= i < 36 ==> if i == 8 || i == 13 || i == 18 || i == 23 {
            #[trigger] s[i] == '-'
        } else {
            is_lower_hex_digit(s[i])
        }
}

/// `Uuid::new_v4` in the form that `Uuid::simple` prints: lower-case
/// hexadecimal digits without hyphens. Which digits is left to chance.
#[verifier::external_body]
fn random_simple_id() -> (r: String)
    ensures
        is_simple_id(r@),
{
    uuid::Uuid::new_v4().simple().to_string()
}

/// `Uuid::new_v4` in the form that its `Display` prints: lower-case
/// hexadecimal digits in five groups. Which digits is left to chance.
#[verifier::external_body]
fn random_hyphenated_id() -> (r: String)
    ensures
        is_hyphenated_id(r@),
{
    uuid::Uuid::new_v4().to_string()
}

/// A fresh nonce for one login.
pub fn new_nonce() -> (r: Secret)
    ensures
        is_simple_id(r@),
{
    Secret::new(random_simple_id())
}

/// A fresh authorization code.
pub fn new_code() -> (r: String)
    ensures
        is_simple_id(r@),
{
    random_simple_id()
}

/// A fresh part of a key container's name.
pub fn new_container_id() -> (r: String)
    ensures
        is_hyphenated_id(r@),
{
    random_hyphenated_id()
}

/// Identifiers are made of lower-case hexadecimal digits: 32 of them, or 32 in
/// five groups of eight, four, four, four and twelve with hyphens between.
pub proof fn law_identifiers_have_their_form(s: Seq<char>, i: int)
    ensures
        is_simple_id(s) ==> s.len() == 32 && (0 <= i < 32 ==> '0' <= s[i] <= '9' || 'a' <= s[i]
            <= 'f'),
        is_hyphenated_id(s) ==> {
            &&& s.len() == 36
            &&& s[8] == '-' && s[13] == '-' && s[18] == '-' && s[23] == '-'
            &&& 0 <= i < 36 && i != 8 && i != 13 && i != 18 && i != 23 ==> '0' <= s[i] <= '9'
                || 'a' <= s[i] <= 'f'
        },
{
    if is_simple_id(s) && 0 <= i < 32 {
        assert(is_lower_hex_digit(s[i]));
    }
    if is_hyphenated_id(s) && 0 <= i < 36 && i != 8 && i != 13 && i != 18 && i != 23 {
        assert(is_lower_hex_digit(s[i]));
    }
}

} // verus!
