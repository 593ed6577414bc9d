//! The identity provider of the contract lab: it authorizes every well-formed
//! request as the same test user.

use vstd::hash_map::StringHashMap;
use vstd::prelude::*;
use vstd::utf8::{decode_utf8, encode_utf8, valid_utf8};

use crate::address::{append_query_pairs, url_with_pairs};
use crate::encoding::{
    base64_bytes, base64_decode, base64_url_encode, base64_url_text, sha256, sha256_digest,
    utf8_text,
};
use crate::text::{
    begins, chars_of, concat2, law_patterns_stand_character_by_character,
    law_positions_are_of_the_first, law_trailing_characters_come_off, position, slice_text,
    split_once, starts_with, strip_trailing, text_eq, without_trailing,
};

verus! {

// ---------------------------------------------------------------------------
// Data
// ---------------------------------------------------------------------------

pub open spec fn lab_client() -> Seq<char> {
    "openbao-lab"@
}

pub open spec fn lab_secret() -> Seq<char> {
    "openbao-lab-secret"@
}

/// What is remembered of an authorization until its code is redeemed.
pub struct AuthorizationCode {
    pub client_id: String,
    pub redirect_uri: String,
    pub nonce: String,
    pub code_challenge: String,
}

impl Clone for AuthorizationCode {
    fn clone(&self) -> (r: AuthorizationCode)
        ensures
            r == *self,
    {
        AuthorizationCode {
            client_id: self.client_id.clone(),
            redirect_uri: self.redirect_uri.clone(),
            nonce: self.nonce.clone(),
            code_challenge: self.code_challenge.clone(),
        }
    }
}

pub struct AuthorizationQuery {
    pub client_id: String,
    pub redirect_uri: String,
    pub state: String,
    pub nonce: String,
    pub code_challenge: String,
    pub code_challenge_method: String,
    pub response_type: String,
}

pub struct TokenForm {
    pub grant_type: String,
    pub code: String,
    pub redirect_uri: String,
    pub code_verifier: String,
    pub client_id: Option<String>,
    pub client_secret: Option<String>,
}

/// A client's name and its secret.
pub struct StringPair(pub String, pub String);

impl StringPair {
    pub fn as_refs(&self) -> (r: (&str, &str))
        ensures
            r.0@ == self.0@,
            r.1@ == self.1@,
    {
        (self.0.as_str(), self.1.as_str())
    }
}

/// The claims that an identity token differs in.
pub struct IdTokenClaims {
    pub iss: String,
    pub sub: &'static str,
    pub aud: &'static str,
    pub exp: u64,
    pub iat: u64,
    pub nonce: String,
    pub email: &'static str,
    pub email_verified: bool,
    pub preferred_username: &'static str,
    pub groups: [&'static str; 1],
}

/// An answer to an authorization request.
pub enum AuthorizeReply {
    BadRequest,
    Redirect(String),
}

/// An answer to a token request.
pub enum TokenReply {
    Refused { status: u16, error: &'static str },
    Granted(IdTokenClaims),
}

/// The provider: its name, and the codes that are not redeemed yet.
pub struct Provider {
    pub issuer: String,
    pub codes: StringHashMap<AuthorizationCode>,
}

/// The name of a provider: slashes at its end are dropped.
pub open spec fn issuer_name(given: Seq<char>) -> Seq<char> {
    strip_trailing(given, '/')
}

impl Provider {
    /// A provider without codes; slashes at the end of its name are dropped.
    pub fn new(issuer: &str) -> (r: Provider)
        ensures
            r.issuer@ == strip_trailing(issuer@, '/'),
            r.issuer@ == issuer_name(issuer@),
            r.codes@ == Map::<Seq<char>, AuthorizationCode>::empty(),
    {
        Provider { issuer: without_trailing(issuer, '/'), codes: StringHashMap::new() }
    }
}

// ---------------------------------------------------------------------------
// Authorization
// ---------------------------------------------------------------------------

/// A request that the provider authorizes: the lab's client, the code flow
/// with a hashed challenge, and the lab's callback.
pub open spec fn is_authorizable(query: AuthorizationQuery) -> bool {
    &&& query.client_id@ == lab_client()
    &&& query.response_type@ == "code"@
    &&& query.code_challenge_method@ == "S256"@
    &&& starts_with(
        query.redirect_uri@,
        "http://127.0.0.1:18200/v1/auth/oidc/oidc/callback"@,
    )
}

/// The texts are short enough to be put into one URL; the bound is far below
/// what the URL library can hold.
pub open spec fn is_short_query(query: AuthorizationQuery) -> bool {
    query.redirect_uri@.len() <= 0x0100_0000 && query.state@.len() <= 0x0100_0000
}

/// Where the browser is sent back to.
pub open spec fn authorized_redirect(query: AuthorizationQuery, code: Seq<char>) -> Option<
    Seq<char>,
> {
    url_with_pairs(query.redirect_uri@, ("code"@, code), ("state"@, query.state@))
}

pub open spec fn remembered(query: AuthorizationQuery) -> AuthorizationCode {
    AuthorizationCode {
        client_id: query.client_id,
        redirect_uri: query.redirect_uri,
        nonce: query.nonce,
        code_challenge: query.code_challenge,
    }
}

fn authorizable(query: &AuthorizationQuery) -> (r: bool)
    ensures
        r == is_authorizable(*query),
{
    text_eq(query.client_id.as_str(), "openbao-lab") && text_eq(
        query.response_type.as_str(),
        "code",
    ) && text_eq(query.code_challenge_method.as_str(), "S256") && begins(
        query.redirect_uri.as_str(),
        "http://127.0.0.1:18200/v1/auth/oidc/oidc/callback",
    )
}

/// The codes after an authorization request that was answered with `code`.
pub open spec fn codes_after_authorize(
    codes: Map<Seq<char>, AuthorizationCode>,
    query: AuthorizationQuery,
    code: Seq<char>,
) -> Map<Seq<char>, AuthorizationCode> {
    if is_authorizable(query) && authorized_redirect(query, code) is Some {
        codes.insert(code, remembered(query))
    } else {
        codes
    }
}

impl Provider {
    /// Answers an authorization request with a code that is remembered, or
    /// refuses it. `None`, with nothing remembered, where the callback cannot
    /// be read as a URL.
    pub fn authorize(&mut self, query: &AuthorizationQuery, code: &str) -> (r: Option<
        AuthorizeReply,
    >)
        requires
            is_short_query(*query),
            code@.len() <= 0x0100_0000,
        ensures
            final(self).issuer == old(self).issuer,
            final(self).codes@ == codes_after_authorize(old(self).codes@, *query, code@),
            !is_authorizable(*query) ==> r == Some(AuthorizeReply::BadRequest)
                && final(self).codes@ == old(self).codes@,
            is_authorizable(*query) ==> match authorized_redirect(*query, code@) {
                Some(text) => r matches Some(AuthorizeReply::Redirect(url)) && url@ == text
                    && final(self).codes@ == old(self).codes@.insert(code@, remembered(*query)),
                None => r is None && final(self).codes@ == old(self).codes@,
            },
    {
        if !authorizable(query) {
            return Some(AuthorizeReply::BadRequest);
        }
        proof {
            reveal_strlit("code");
            reveal_strlit("state");
        }
        let redirect: String = match append_query_pairs(
            query.redirect_uri.as_str(),
            ("code", code),
            ("state", query.state.as_str()),
        ) {
            Some(redirect) => redirect,
            None => return None,
        };
        self.codes.insert(
            code.to_owned(),
            AuthorizationCode {
                client_id: query.client_id.clone(),
                redirect_uri: query.redirect_uri.clone(),
                nonce: query.nonce.clone(),
                code_challenge: query.code_challenge.clone(),
            },
        );
        Some(AuthorizeReply::Redirect(redirect))
    }
}

// ---------------------------------------------------------------------------
// Tokens
// ---------------------------------------------------------------------------

/// The name and the secret in decoded credentials.
pub open spec fn decoded_credentials(decoded: Option<Seq<u8>>) -> Option<(Seq<char>, Seq<char>)> {
    match decoded {
        None => None,
        Some(bytes) => if !valid_utf8(bytes) {
            None
        } else {
            let text = decode_utf8(bytes);
            let at = position(text, ':');
            if at < text.len() {
                Some((text.take(at), text.skip(at + 1)))
            } else {
                None
            }
        },
    }
}

/// The name and the secret in a `Basic` authorization header.
pub open spec fn header_credentials(authorization: Option<Seq<char>>) -> Option<
    (Seq<char>, Seq<char>),
> {
    match authorization {
        None => None,
        Some(value) => if !starts_with(value, "Basic "@) {
            None
        } else {
            decoded_credentials(base64_bytes(value.skip(6)))
        },
    }
}

pub open spec fn view_header(authorization: Option<&str>) -> Option<Seq<char>> {
    match authorization {
        Some(text) => Some(text@),
        None => None,
    }
}

pub open spec fn view_pair(pair: Option<StringPair>) -> Option<(Seq<char>, Seq<char>)> {
    match pair {
        Some(pair) => Some((pair.0@, pair.1@)),
        None => None,
    }
}

pub open spec fn view_bytes(bytes: Option<Vec<u8>>) -> Option<Seq<u8>> {
    match bytes {
        Some(bytes) => Some(bytes@),
        None => None,
    }
}

/// The name and the secret in decoded credentials.
pub fn credentials_in(decoded: Option<Vec<u8>>) -> (r: Option<StringPair>)
    ensures
        view_pair(r) == decoded_credentials(view_bytes(decoded)),
{
    let bytes: Vec<u8> = match decoded {
        Some(bytes) => bytes,
        None => return None,
    };
    let text: String = match utf8_text(bytes) {
        Some(text) => text,
        None => return None,
    };
    match split_once(text.as_str(), ':') {
        Some((name, secret)) => Some(StringPair(name, secret)),
        None => None,
    }
}

/// The name and the secret in a `Basic` authorization header.
pub fn basic_credentials(authorization: Option<&str>) -> (r: Option<StringPair>)
    ensures
        view_pair(r) == header_credentials(view_header(authorization)),
{
    let value: &str = match authorization {
        Some(value) => value,
        None => return None,
    };
    proof {
        reveal_strlit("Basic ");
    }
    if !begins(value, "Basic ") {
        return None;
    }
    let chars: Vec<char> = chars_of(value);
    let encoded: String = slice_text(&chars, 6, chars.len());
    assert(encoded@ =~= value@.skip(6));
    credentials_in(base64_decode(encoded.as_str()))
}

/// The credentials of a token request: those of the header, or else those of
/// the form.
pub open spec fn request_credentials(authorization: Option<Seq<char>>, form: TokenForm) -> Option<
    (Seq<char>, Seq<char>),
> {
    match header_credentials(authorization) {
        Some(pair) => Some(pair),
        None => if form.client_id is Some && form.client_secret is Some {
            Some((form.client_id->Some_0@, form.client_secret->Some_0@))
        } else {
            None
        },
    }
}

/// Credentials and a grant type with which the lab's client redeems a code.
pub open spec fn is_client(credentials: Option<(Seq<char>, Seq<char>)>, grant_type: Seq<char>) -> bool {
    credentials == Some((lab_client(), lab_secret())) && grant_type == "authorization_code"@
}

/// The request comes from the lab's client and asks to redeem a code.
pub open spec fn is_from_client(authorization: Option<Seq<char>>, form: TokenForm) -> bool {
    is_client(request_credentials(authorization, form), form.grant_type@)
}

/// The challenge that a verifier answers.
pub open spec fn challenge_for(verifier: Seq<char>) -> Seq<char> {
    base64_url_text(sha256_digest(encode_utf8(verifier)))
}

/// The code was given to the same client for the same callback, and with the
/// challenge.
pub open spec fn redeems(code: AuthorizationCode, redirect_uri: Seq<char>, challenge: Seq<char>) -> bool {
    &&& code.client_id@ == lab_client()
    &&& code.redirect_uri@ == redirect_uri
    &&& code.code_challenge@ == challenge
}

/// The claims of the test user.
pub open spec fn are_claims(
    claims: IdTokenClaims,
    issuer: Seq<char>,
    nonce: Seq<char>,
    now: u64,
) -> bool {
    &&& claims.iss@ == issuer
    &&& claims.sub@ == "alice-id"@
    &&& claims.aud@ == lab_client()
    &&& claims.exp == now + 300
    &&& claims.iat == now
    &&& claims.nonce@ == nonce
    &&& claims.email@ == "alice@example.test"@
    &&& claims.email_verified
    &&& claims.preferred_username@ == "alice"@
    &&& claims.groups@[0]@ == "certificate_users"@
}

/// The answer refuses with the status and the error.
pub open spec fn is_refusal(reply: TokenReply, status: u16, error: Seq<char>) -> bool {
    reply matches TokenReply::Refused { status: s, error: e } && s == status && e@ == error
}

fn given_credentials(authorization: Option<&str>, form: &TokenForm) -> (r: Option<StringPair>)
    ensures
        view_pair(r) == request_credentials(view_header(authorization), *form),
{
    match basic_credentials(authorization) {
        Some(pair) => Some(pair),
        None => match (&form.client_id, &form.client_secret) {
            (Some(name), Some(secret)) => Some(StringPair(name.clone(), secret.clone())),
            _ => None,
        },
    }
}

fn is_lab_client(credentials: &Option<StringPair>, grant_type: &str) -> (r: bool)
    ensures
        r == is_client(view_pair(*credentials), grant_type@),
{
    match credentials {
        Some(pair) => {
            let (name, secret): (&str, &str) = pair.as_refs();
            text_eq(name, "openbao-lab") && text_eq(secret, "openbao-lab-secret") && text_eq(
                grant_type,
                "authorization_code",
            )
        },
        None => false,
    }
}

/// The codes after a token request.
pub open spec fn codes_after_token(
    codes: Map<Seq<char>, AuthorizationCode>,
    credentials: Option<(Seq<char>, Seq<char>)>,
    form: TokenForm,
) -> Map<Seq<char>, AuthorizationCode> {
    if is_client(credentials, form.grant_type@) {
        codes.remove(form.code@)
    } else {
        codes
    }
}

impl Provider {
    /// Answers a token request that came with the credentials and whose
    /// verifier answers the challenge. A code that the client names is used up,
    /// whether or not it is redeemed.
    pub fn redeem(
        &mut self,
        credentials: Option<StringPair>,
        challenge: &str,
        form: &TokenForm,
        now: u64,
    ) -> (r: TokenReply)
        requires
            now <= u64::MAX - 300,
        ensures
            final(self).issuer == old(self).issuer,
            final(self).codes@ == codes_after_token(old(self).codes@, view_pair(credentials), *form),
            match token_refusal(old(self).codes@, view_pair(credentials), challenge@, *form) {
                Some((status, error)) => is_refusal(r, status, error),
                None => r is Granted,
            },
            !is_client(view_pair(credentials), form.grant_type@) ==> is_refusal(
                r,
                401,
                "invalid_client"@,
            ) && final(self).codes@ == old(self).codes@,
            is_client(view_pair(credentials), form.grant_type@) ==> {
                &&& final(self).codes@ == old(self).codes@.remove(form.code@)
                &&& if old(self).codes@.contains_key(form.code@) && redeems(
                    old(self).codes@[form.code@],
                    form.redirect_uri@,
                    challenge@,
                ) {
                    r matches TokenReply::Granted(claims) && are_claims(
                        claims,
                        old(self).issuer@,
                        old(self).codes@[form.code@].nonce@,
                        now,
                    )
                } else {
                    is_refusal(r, 400, "invalid_grant"@)
                }
            },
    {
        if !is_lab_client(&credentials, form.grant_type.as_str()) {
            return TokenReply::Refused { status: 401, error: "invalid_client" };
        }
        let held: Option<AuthorizationCode> = match self.codes.get(form.code.as_str()) {
            Some(code) => Some(code.clone()),
            None => None,
        };
        self.codes.remove(form.code.as_str());
        let code: AuthorizationCode = match held {
            Some(code) => code,
            None => return TokenReply::Refused { status: 400, error: "invalid_grant" },
        };
        if !text_eq(code.client_id.as_str(), "openbao-lab") || !text_eq(
            code.redirect_uri.as_str(),
            form.redirect_uri.as_str(),
        ) || !text_eq(code.code_challenge.as_str(), challenge) {
            return TokenReply::Refused { status: 400, error: "invalid_grant" };
        }
        TokenReply::Granted(
            IdTokenClaims {
                iss: self.issuer.clone(),
                sub: "alice-id",
                aud: "openbao-lab",
                exp: now + 300,
                iat: now,
                nonce: code.nonce,
                email: "alice@example.test",
                email_verified: true,
                preferred_username: "alice",
                groups: ["certificate_users"],
            },
        )
    }

    /// Answers a token request. A code that the client names is used up,
    /// whether or not it is redeemed.
    pub fn token(&mut self, authorization: Option<&str>, form: &TokenForm, now: u64) -> (r:
        TokenReply)
        requires
            now <= u64::MAX - 300,
        ensures
            final(self).issuer == old(self).issuer,
            final(self).codes@ == codes_after_token(
                old(self).codes@,
                request_credentials(view_header(authorization), *form),
                *form,
            ),
            match token_refusal(
                old(self).codes@,
                request_credentials(view_header(authorization), *form),
                challenge_for(form.code_verifier@),
                *form,
            ) {
                Some((status, error)) => is_refusal(r, status, error),
                None => r is Granted,
            },
            !is_from_client(view_header(authorization), *form) ==> is_refusal(
                r,
                401,
                "invalid_client"@,
            ) && final(self).codes@ == old(self).codes@,
            is_from_client(view_header(authorization), *form) ==> {
                &&& final(self).codes@ == old(self).codes@.remove(form.code@)
                &&& if is_grant(old(self).codes@, view_header(authorization), *form) {
                    r matches TokenReply::Granted(claims) && are_claims(
                        claims,
                        old(self).issuer@,
                        old(self).codes@[form.code@].nonce@,
                        now,
                    )
                } else {
                    is_refusal(r, 400, "invalid_grant"@)
                }
            },
    {
        let credentials: Option<StringPair> = given_credentials(authorization, form);
        let digest: Vec<u8> = sha256(form.code_verifier.as_str().as_bytes());
        let challenge: String = base64_url_encode(digest.as_slice());
        self.redeem(credentials, challenge.as_str(), form, now)
    }
}

/// The request is granted.
pub open spec fn is_grant(
    codes: Map<Seq<char>, AuthorizationCode>,
    authorization: Option<Seq<char>>,
    form: TokenForm,
) -> bool {
    is_from_client(authorization, form) && codes.contains_key(form.code@) && redeems(
        codes[form.code@],
        form.redirect_uri@,
        challenge_for(form.code_verifier@),
    )
}

/// A code is redeemed at most once: after a client's request has named it, no
/// request that names it is granted, and the other codes are as they were.
pub proof fn law_codes_are_used_once(
    codes: Map<Seq<char>, AuthorizationCode>,
    code: Seq<char>,
    authorization: Option<Seq<char>>,
    form: TokenForm,
)
    ensures
        form.code@ == code ==> !is_grant(codes.remove(code), authorization, form),
        form.code@ != code ==> is_grant(codes.remove(code), authorization, form) == is_grant(
            codes,
            authorization,
            form,
        ),
{
}

/// Nobody is granted a token without the verifier of the challenge that the
/// code was asked for with, and without the lab's credentials.
pub proof fn law_grants_prove_possession(
    codes: Map<Seq<char>, AuthorizationCode>,
    authorization: Option<Seq<char>>,
    form: TokenForm,
)
    requires
        is_grant(codes, authorization, form),
    ensures
        challenge_for(form.code_verifier@) == codes[form.code@].code_challenge@,
        form.redirect_uri@ == codes[form.code@].redirect_uri@,
        request_credentials(authorization, form) == Some((lab_client(), lab_secret())),
{
}

// ---------------------------------------------------------------------------
// Descriptions
// ---------------------------------------------------------------------------

pub open spec fn is_bearer(authorization: Option<Seq<char>>) -> bool {
    authorization == Some("Bearer lab-access-token"@)
}

/// Whether a request for the user's claims carries the lab's access token.
pub fn userinfo_authorized(authorization: Option<&str>) -> (r: bool)
    ensures
        r == is_bearer(view_header(authorization)),
{
    match authorization {
        Some(value) => text_eq(value, "Bearer lab-access-token"),
        None => false,
    }
}

/// The addresses in the provider's description of itself.
pub struct Endpoints {
    pub issuer: String,
    pub authorization_endpoint: String,
    pub token_endpoint: String,
    pub userinfo_endpoint: String,
    pub jwks_uri: String,
}

/// The addresses in the description of a provider with that name.
pub open spec fn are_endpoints(e: Endpoints, issuer: Seq<char>) -> bool {
    &&& e.issuer@ == issuer
    &&& e.authorization_endpoint@ == issuer + "/authorize"@
    &&& e.token_endpoint@ == issuer + "/token"@
    &&& e.userinfo_endpoint@ == issuer + "/userinfo"@
    &&& e.jwks_uri@ == issuer + "/jwks"@
}

impl Provider {
    /// The addresses in the provider's description of itself.
    pub fn discovery(&self) -> (r: Endpoints)
        ensures
            are_endpoints(r, self.issuer@),
            r.issuer@ == self.issuer@,
            r.authorization_endpoint@ == self.issuer@ + "/authorize"@,
            r.token_endpoint@ == self.issuer@ + "/token"@,
            r.userinfo_endpoint@ == self.issuer@ + "/userinfo"@,
            r.jwks_uri@ == self.issuer@ + "/jwks"@,
    {
        let issuer: &str = self.issuer.as_str();
        Endpoints {
            issuer: self.issuer.clone(),
            authorization_endpoint: concat2(issuer, "/authorize"),
            token_endpoint: concat2(issuer, "/token"),
            userinfo_endpoint: concat2(issuer, "/userinfo"),
            jwks_uri: concat2(issuer, "/jwks"),
        }
    }
}

// ---------------------------------------------------------------------------
// What the provider grants
// ---------------------------------------------------------------------------

/// Only the lab's client is authorized, for a code with a SHA-256 challenge,
/// and only to the server's own callback.
pub proof fn law_the_labs_client_is_authorized(query: AuthorizationQuery)
    ensures
        ({
            let callback = "http://127.0.0.1:18200/v1/auth/oidc/oidc/callback"@;
            is_authorizable(query) <==> {
                &&& query.client_id@ == "openbao-lab"@
                &&& query.response_type@ == "code"@
                &&& query.code_challenge_method@ == "S256"@
                &&& query.redirect_uri@.len() >= callback.len()
                &&& query.redirect_uri@.take(callback.len() as int) == callback
            }
        }),
{
    let callback = "http://127.0.0.1:18200/v1/auth/oidc/oidc/callback"@;
    if query.redirect_uri@.len() >= callback.len() {
        assert(query.redirect_uri@.take(callback.len() as int) =~= query.redirect_uri@.subrange(
            0,
            callback.len() as int,
        ));
    }
}

/// The callback gets the code and the state that came with the request.
pub proof fn law_callbacks_get_code_and_state(query: AuthorizationQuery, code: Seq<char>)
    ensures
        authorized_redirect(query, code) == url_with_pairs(
            query.redirect_uri@,
            ("code"@, code),
            ("state"@, query.state@),
        ),
{
}

/// A code that was given out is there with what the request said, beside the
/// ones that were there; a refused request gives none out.
pub proof fn law_codes_are_remembered_with_their_request(
    codes: Map<Seq<char>, AuthorizationCode>,
    query: AuthorizationQuery,
    code: Seq<char>,
    other: Seq<char>,
)
    ensures
        ({
            let after = codes_after_authorize(codes, query, code);
            &&& is_authorizable(query) && authorized_redirect(query, code) is Some ==> {
                &&& after.contains_key(code)
                &&& after[code].client_id == query.client_id
                &&& after[code].redirect_uri == query.redirect_uri
                &&& after[code].nonce == query.nonce
                &&& after[code].code_challenge == query.code_challenge
            }
            &&& other != code ==> after.contains_key(other) == codes.contains_key(other)
                && after[other] == codes[other]
            &&& !is_authorizable(query) || authorized_redirect(query, code) is None ==> after
                == codes
        }),
{
}

/// A client that names a code uses it up, redeemed or not, and leaves every
/// other one; anyone else changes nothing.
pub proof fn law_codes_are_used_up_by_the_client(
    codes: Map<Seq<char>, AuthorizationCode>,
    credentials: Option<(Seq<char>, Seq<char>)>,
    form: TokenForm,
    other: Seq<char>,
)
    ensures
        ({
            let after = codes_after_token(codes, credentials, form);
            let client = credentials == Some(("openbao-lab"@, "openbao-lab-secret"@))
                && form.grant_type@ == "authorization_code"@;
            &&& client ==> !after.contains_key(form.code@)
            &&& other != form.code@ ==> after.contains_key(other) == codes.contains_key(other)
                && (codes.contains_key(other) ==> after[other] == codes[other])
            &&& !client ==> after == codes
        }),
{
}

/// A code that was just given out is granted to the client that knows the
/// verifier behind the challenge and names the callback of the request.
pub proof fn law_authorized_clients_get_their_token(
    codes: Map<Seq<char>, AuthorizationCode>,
    query: AuthorizationQuery,
    code: Seq<char>,
    authorization: Option<Seq<char>>,
    form: TokenForm,
)
    requires
        is_authorizable(query),
        authorized_redirect(query, code) is Some,
        form.code@ == code,
        form.grant_type@ == "authorization_code"@,
        request_credentials(authorization, form) == Some(("openbao-lab"@, "openbao-lab-secret"@)),
    ensures
        is_grant(codes_after_authorize(codes, query, code), authorization, form)
            <==> form.redirect_uri@ == query.redirect_uri@ && query.code_challenge@
            == base64_url_text(sha256_digest(encode_utf8(form.code_verifier@))),
{
}

/// The header's name and password are what stands before and behind the first
/// colon of the text that it encodes; any other header has none, and then the
/// form's own are taken where it has both.
pub proof fn law_credentials_are_read_from_the_header_first(
    encoded: Seq<char>,
    name: Seq<char>,
    password: Seq<char>,
    header: Seq<char>,
    form: TokenForm,
)
    requires
        !name.contains(':'),
        base64_bytes(encoded) == Some(encode_utf8(name + seq![':'] + password)),
    ensures
        header_credentials(Some("Basic "@ + encoded)) == Some((name, password)),
        request_credentials(Some("Basic "@ + encoded), form) == Some((name, password)),
        !starts_with(header, "Basic "@) ==> header_credentials(Some(header)) is None,
        header_credentials(None) is None,
        header_credentials(Some(header)) is None && form.client_id is Some && form.client_secret
            is Some ==> request_credentials(Some(header), form) == Some(
            (form.client_id->Some_0@, form.client_secret->Some_0@),
        ),
        header_credentials(Some(header)) is None && (form.client_id is None || form.client_secret
            is None) ==> request_credentials(Some(header), form) is None,
{
    broadcast use vstd::utf8::encode_utf8_decode_utf8;
    broadcast use vstd::utf8::encode_utf8_valid_utf8;

    let text = name + seq![':'] + password;
    let value = "Basic "@ + encoded;
    reveal_strlit("Basic ");
    law_patterns_stand_character_by_character(encoded, "Basic "@, 0);
    assert(value.skip(6) =~= encoded);
    law_positions_are_of_the_first(name, ':', password);
    assert(decode_utf8(encode_utf8(text)) == text);
    assert(text.take(name.len() as int) =~= name);
    assert(text.skip(name.len() as int + 1) =~= password);
}

/// Text that is no UTF-8 or has no colon holds no credentials.
pub proof fn law_texts_without_colon_are_no_credentials(bytes: Seq<u8>)
    ensures
        decoded_credentials(None) is None,
        !valid_utf8(bytes) ==> decoded_credentials(Some(bytes)) is None,
        !decode_utf8(bytes).contains(':') ==> decoded_credentials(Some(bytes)) is None,
{
    let text = decode_utf8(bytes);
    if !text.contains(':') {
        law_positions_are_of_the_first(text, ':', Seq::empty());
    }
}

/// The claims are about the test user, for the lab's client, from the provider,
/// with the nonce of the request; they hold for five minutes from now.
pub proof fn law_claims_are_about_the_test_user(
    claims: IdTokenClaims,
    issuer: Seq<char>,
    nonce: Seq<char>,
    now: u64,
)
    requires
        are_claims(claims, issuer, nonce, now),
    ensures
        claims.iss@ == issuer,
        claims.nonce@ == nonce,
        claims.iat == now,
        claims.exp - claims.iat == 300,
        claims.aud@ == "openbao-lab"@,
        claims.sub@ == "alice-id"@,
        claims.email@ == "alice@example.test"@,
        claims.email_verified,
        claims.preferred_username@ == "alice"@,
        claims.groups@[0]@ == "certificate_users"@,
{
}

/// Only the provider's own token reads the user's data.
pub proof fn law_user_data_needs_the_token(authorization: Option<Seq<char>>)
    ensures
        is_bearer(authorization) <==> authorization is Some && authorization->Some_0
            == "Bearer lab-access-token"@,
{
}

/// The provider's addresses are below its name, which ends in no slash however
/// many were given.
pub proof fn law_addresses_are_below_the_issuer(given: Seq<char>, e: Endpoints)
    requires
        are_endpoints(e, issuer_name(given)),
    ensures
        issuer_name(given + seq!['/']) == issuer_name(given),
        given.len() == 0 || given.last() != '/' ==> issuer_name(given) == given,
        e.issuer@ == issuer_name(given),
        e.authorization_endpoint@ == e.issuer@ + "/authorize"@,
        e.token_endpoint@ == e.issuer@ + "/token"@,
        e.userinfo_endpoint@ == e.issuer@ + "/userinfo"@,
        e.jwks_uri@ == e.issuer@ + "/jwks"@,
{
    law_trailing_characters_come_off(given, '/');
}

/// The status and the error with which a token request is refused.
pub open spec fn token_refusal(
    codes: Map<Seq<char>, AuthorizationCode>,
    credentials: Option<(Seq<char>, Seq<char>)>,
    challenge: Seq<char>,
    form: TokenForm,
) -> Option<(u16, Seq<char>)> {
    if !is_client(credentials, form.grant_type@) {
        Some((401, "invalid_client"@))
    } else if codes.contains_key(form.code@) && redeems(
        codes[form.code@],
        form.redirect_uri@,
        challenge,
    ) {
        None
    } else {
        Some((400, "invalid_grant"@))
    }
}

/// Whoever is not the client is told so, before the code is looked at; the
/// client is refused a code that is unknown or was given out for another
/// callback or challenge, and granted any other.
pub proof fn law_refused_tokens_say_why(
    codes: Map<Seq<char>, AuthorizationCode>,
    credentials: Option<(Seq<char>, Seq<char>)>,
    challenge: Seq<char>,
    form: TokenForm,
)
    ensures
        ({
            let client = credentials == Some(("openbao-lab"@, "openbao-lab-secret"@))
                && form.grant_type@ == "authorization_code"@;
            let fits = codes.contains_key(form.code@) && codes[form.code@].client_id@
                == "openbao-lab"@ && codes[form.code@].redirect_uri@ == form.redirect_uri@
                && codes[form.code@].code_challenge@ == challenge;
            let refusal = token_refusal(codes, credentials, challenge, form);
            &&& !client ==> refusal == Some((401u16, "invalid_client"@))
            &&& client && !fits ==> refusal == Some((400u16, "invalid_grant"@))
            &&& client && fits ==> refusal is None
        }),
{
}

} // verus!
