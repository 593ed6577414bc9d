//! The requests that the client makes of OpenBao, and what it makes of the
//! replies.
//!
//! Sending is left to the caller: a request comes out as an [`ApiRequest`], a
//! reply goes in as a [`Reply`].

use vstd::hash_map::StringHashMap;
use vstd::prelude::*;
use vstd::utf8::encode_utf8;

use crate::address::{parsed_url, view_url, Url, UrlView};
use crate::config::{api_address, is_short_address, DeploymentConfig, OpenBaoConfig, OpenBaoView};
use crate::error::{
    api_error, configuration_error, outcome, view_outcome, AppError, AppResult, ErrorView,
};
use crate::redaction::{redact, redacted};
use crate::secret::Secret;
use crate::state::{saturated, view_metadata, Session, SessionView};
use crate::text::{
    byte_len, chars_of, concat2, concat3, concat4, contains, ends_with, finishes, includes, join,
    joined, parse_unsigned, parsed_u64, strip_leading, text_eq, view_all, view_option, view_pairs,
    view_texts, without_leading,
};
use crate::version::{older_version, parse_version, parsed_version, version_precedes};

verus! {

// ---------------------------------------------------------------------------
// Data
// ---------------------------------------------------------------------------

/// An authorization that the user has yet to give in the browser.
pub struct OidcChallenge {
    pub auth_url: String,
    pub state: String,
    pub client_nonce: Secret,
    pub poll_interval_seconds: u64,
}

#[verifier::ext_equal]
pub struct ChallengeView {
    pub auth_url: Seq<char>,
    pub state: Seq<char>,
    pub client_nonce: Seq<char>,
    pub poll_interval_seconds: u64,
}

impl View for OidcChallenge {
    type V = ChallengeView;

    open spec fn view(&self) -> ChallengeView {
        ChallengeView {
            auth_url: self.auth_url@,
            state: self.state@,
            client_nonce: self.client_nonce@,
            poll_interval_seconds: self.poll_interval_seconds,
        }
    }
}

/// What a poll for the authorization found.
pub enum PollResult {
    Pending,
    SlowDown,
    Complete(Session),
}

#[verifier::ext_equal]
pub enum PollView {
    Pending,
    SlowDown,
    Complete(SessionView),
}

impl View for PollResult {
    type V = PollView;

    open spec fn view(&self) -> PollView {
        match self {
            PollResult::Pending => PollView::Pending,
            PollResult::SlowDown => PollView::SlowDown,
            PollResult::Complete(session) => PollView::Complete(session@),
        }
    }
}

pub struct AuthUrlData {
    pub auth_url: String,
    pub state: String,
    pub poll_interval: String,
}

pub struct AuthData {
    pub client_token: Secret,
    pub lease_duration: u64,
    pub renewable: bool,
    pub display_name: Option<String>,
    pub metadata: StringHashMap<String>,
}

/// The members of a reply's JSON object that the client reads.
pub struct Envelope<T> {
    pub data: Option<T>,
    pub auth: Option<AuthData>,
}

/// A reply: its status, its body, and what the body holds where it is the JSON
/// that is expected.
pub struct Reply<T> {
    pub status: u16,
    pub body: String,
    pub parsed: Option<Envelope<T>>,
}

impl<T> Reply<T> {
    /// HTTP knows statuses of three digits only.
    pub open spec fn is_reply(&self) -> bool {
        is_status(self.status)
    }
}

pub struct HealthData {
    pub version: Option<String>,
}

pub struct ServerHealth {
    pub version: Option<String>,
}

/// A request to sign a certificate request.
pub struct PkiSignRequest<'a> {
    pub csr: &'a str,
    pub common_name: &'a str,
    pub alt_names: Option<&'a str>,
    pub format: &'static str,
    pub exclude_cn_from_sans: bool,
}

/// A signed certificate with the certificates above it.
pub struct PkiSignData {
    pub certificate: String,
    pub issuing_ca: String,
    pub ca_chain: Vec<String>,
}

#[verifier::ext_equal]
pub struct SignedView {
    pub certificate: Seq<char>,
    pub issuing_ca: Seq<char>,
    pub ca_chain: Seq<Seq<char>>,
}

impl View for PkiSignData {
    type V = SignedView;

    open spec fn view(&self) -> SignedView {
        SignedView {
            certificate: self.certificate@,
            issuing_ca: self.issuing_ca@,
            ca_chain: view_all(self.ca_chain@),
        }
    }
}

#[derive(Clone, Copy, Debug, PartialEq, Eq, Structural)]
pub enum Method {
    Get,
    Post,
}

/// A member's value in a request's JSON object.
#[derive(Debug)]
pub enum Member {
    Text(String),
    Flag(bool),
}

#[verifier::ext_equal]
pub enum MemberView {
    Text(Seq<char>),
    Flag(bool),
}

impl View for Member {
    type V = MemberView;

    open spec fn view(&self) -> MemberView {
        match self {
            Member::Text(text) => MemberView::Text(text@),
            Member::Flag(flag) => MemberView::Flag(*flag),
        }
    }
}

/// A request that is ready to be sent: the members of its JSON body, where it
/// has one, and its headers.
pub struct ApiRequest {
    pub method: Method,
    pub url: String,
    pub headers: Vec<(String, String)>,
    pub members: Option<Vec<(String, Member)>>,
}

#[verifier::ext_equal]
pub struct RequestView {
    pub method: Method,
    pub url: Seq<char>,
    pub headers: Seq<(Seq<char>, Seq<char>)>,
    pub members: Option<Seq<(Seq<char>, MemberView)>>,
}

pub open spec fn view_members(members: Seq<(String, Member)>) -> Seq<(Seq<char>, MemberView)> {
    Seq::new(members.len(), |i: int| (members[i].0@, members[i].1@))
}

impl View for ApiRequest {
    type V = RequestView;

    open spec fn view(&self) -> RequestView {
        RequestView {
            method: self.method,
            url: self.url@,
            headers: view_pairs(self.headers@),
            members: match self.members {
                Some(members) => Some(view_members(members@)),
                None => None,
            },
        }
    }
}

/// Speaks the API of the configured server.
pub struct OpenBaoClient {
    pub config: OpenBaoConfig,
}

impl View for OpenBaoClient {
    type V = OpenBaoView;

    open spec fn view(&self) -> OpenBaoView {
        self.config@
    }
}

impl OpenBaoClient {
    pub fn new(config: &DeploymentConfig) -> (r: OpenBaoClient)
        ensures
            r@ == config@.openbao,
    {
        OpenBaoClient { config: config.openbao.clone() }
    }
}

// ---------------------------------------------------------------------------
// Statuses and errors
// ---------------------------------------------------------------------------

pub open spec fn is_status(status: u16) -> bool {
    100 <= status < 1000
}

pub open spec fn is_success(status: u16) -> bool {
    200 <= status < 300
}

/// A status with its standard reason, as text.
pub uninterp spec fn status_line(status: u16) -> Option<Seq<char>>;

/// The texts in the array under `key` of a JSON object, `None` for an item
/// that is no text; nothing where there is no such array.
pub uninterp spec fn json_texts(body: Seq<char>, key: Seq<char>) -> Option<Seq<Option<Seq<char>>>>;

/// `StatusCode::from_u16`, printed: a function of the number, there exactly
/// for numbers of three digits. The number, a space and the reason, or the
/// crate's text for a number without one, come to at most forty characters.
#[verifier::external_body]
fn status_text(status: u16) -> (r: Option<String>)
    ensures
        match r {
            Some(text) => status_line(status) == Some(text@),
            None => status_line(status) is None,
        },
        r is Some == is_status(status),
        r matches Some(text) ==> text@.len() <= 40,
{
    Some(reqwest::StatusCode::from_u16(status).ok()?.to_string())
}

/// `serde_json::from_str` into a `Value`, and the texts of the array that it
/// holds under `key`: a function of the two texts.
#[verifier::external_body]
fn json_text_list(body: &str, key: &str) -> (r: Option<Vec<Option<String>>>)
    ensures
        match r {
            Some(items) => json_texts(body@, key@) == Some(
                view_texts(items@),
            ),
            None => json_texts(body@, key@) is None,
        },
{
    let value = serde_json::from_str::<serde_json::Value>(body).ok()?;
    let items = value.get(key)?.as_array()?;
    Some(items.iter().map(|item| item.as_str().map(str::to_owned)).collect())
}

/// The texts that are there, in their order.
pub open spec fn present_texts(items: Seq<Option<Seq<char>>>) -> Seq<Seq<char>>
    decreases items.len(),
{
    if items.len() == 0 {
        Seq::empty()
    } else {
        match items.last() {
            Some(text) => present_texts(items.drop_last()).push(text),
            None => present_texts(items.drop_last()),
        }
    }
}

/// The messages under `errors` in a reply's body.
pub open spec fn reply_errors(body: Seq<char>) -> Seq<Seq<char>> {
    match json_texts(body, "errors"@) {
        Some(items) => present_texts(items),
        None => Seq::empty(),
    }
}

/// The texts that are there, in their order.
pub fn keep_present(items: Vec<Option<String>>) -> (r: Vec<String>)
    ensures
        view_all(r@) == present_texts(view_texts(items@)),
{
    let ghost all = view_texts(items@);
    let mut r: Vec<String> = Vec::new();
    let mut i: usize = 0;
    assert(view_all(r@) =~= present_texts(all.take(0)));
    while i < items.len()
        invariant
            0 <= i <= items@.len(),
            all == view_texts(items@),
            view_all(r@) == present_texts(all.take(i as int)),
        decreases items@.len() - i,
    {
        let ghost before = view_all(r@);
        proof {
            assert(all.take(i + 1).drop_last() =~= all.take(i as int));
            assert(all.take(i + 1).last() == all[i as int]);
        }
        if let Some(text) = &items[i] {
            r.push(text.clone());
            assert(view_all(r@) =~= before.push(text@));
        }
        i += 1;
    }
    assert(all.take(i as int) =~= all);
    r
}

/// The messages under `errors` in a reply's body.
pub fn parse_errors(body: &str) -> (r: Vec<String>)
    ensures
        view_all(r@) == reply_errors(body@),
{
    match json_text_list(body, "errors") {
        Some(items) => keep_present(items),
        None => {
            let r: Vec<String> = Vec::new();
            assert(view_all(r@) =~= Seq::empty());
            r
        },
    }
}

/// The messages of a refused request as they may be logged.
pub fn loggable_errors(body: &str) -> (r: String)
    ensures
        r@ == redacted(join(reply_errors(body@), "; "@)),
        r@ == logged_errors(body@),
{
    let errors: Vec<String> = parse_errors(body);
    redact(joined(&errors, "; ").as_str())
}

/// The message of a refused request that a user may see.
pub open spec fn safe_error(status: u16, errors: Seq<Seq<char>>) -> Seq<char> {
    if status == 403 {
        "access was denied by OpenBao policy"@
    } else if status == 401 {
        "the OpenBao session is no longer valid"@
    } else if 500 <= status < 600 {
        "OpenBao is temporarily unavailable"@
    } else {
        let message = if errors.len() > 0 {
            redacted(errors[0])
        } else {
            "HTTP "@ + status_line(status)->Some_0
        };
        if encode_utf8(message).len() > 240 {
            "OpenBao rejected the request"@
        } else {
            message
        }
    }
}

/// The message of a refused request that a user may see.
pub fn user_safe_error(status: u16, errors: &[String]) -> (r: String)
    requires
        is_status(status),
    ensures
        r@ == safe_error(status, view_all(errors@)),
        encode_utf8(r@).len() <= 240,
        errors@.len() == 0 && !is_detail_hidden(status) ==> r@ == "HTTP "@ + status_line(
            status,
        )->Some_0,
{
    proof {
        law_shown_errors_are_short(status, view_all(errors@));
    }
    if status == 403 {
        return "access was denied by OpenBao policy".to_owned();
    }
    if status == 401 {
        return "the OpenBao session is no longer valid".to_owned();
    }
    if 500 <= status && status < 600 {
        return "OpenBao is temporarily unavailable".to_owned();
    }
    let message: String = if errors.len() > 0 {
        redact(errors[0].as_str())
    } else {
        match status_text(status) {
            Some(text) => {
                let line: String = concat2("HTTP ", text.as_str());
                proof {
                    reveal_strlit("HTTP ");
                    lemma_bytes_of_text(line@);
                }
                line
            },
            None => "HTTP ".to_owned(),
        }
    };
    if byte_len(message.as_str()) > 240 {
        "OpenBao rejected the request".to_owned()
    } else {
        message
    }
}

/// What the client reports of a reply that refuses a request.
pub open spec fn refusal(status: u16, body: Seq<char>) -> ErrorView {
    ErrorView::Api(safe_error(status, reply_errors(body)))
}

fn refuse(status: u16, body: &str) -> (r: AppError)
    requires
        is_status(status),
    ensures
        r@ == refusal(status, body@),
{
    let errors: Vec<String> = parse_errors(body);
    AppError::Api(user_safe_error(status, errors.as_slice()))
}

/// The request was denied, or the session has expired, or the server failed.
pub open spec fn is_detail_hidden(status: u16) -> bool {
    status == 401 || status == 403 || 500 <= status < 600
}

/// What the server says of a denied, expired or failed request reaches no
/// user.
pub proof fn law_denials_carry_no_details(status: u16, a: Seq<Seq<char>>, b: Seq<Seq<char>>)
    requires
        is_detail_hidden(status),
    ensures
        safe_error(status, a) == safe_error(status, b),
{
}

/// A character takes at most four bytes.
proof fn lemma_bytes_of_text(s: Seq<char>)
    ensures
        encode_utf8(s).len() <= 4 * s.len(),
    decreases s.len(),
{
    if s.len() > 0 {
        lemma_bytes_of_text(s.drop_first());
    }
}

/// Whatever the server says, a user sees at most 240 bytes of it: the first
/// message where it is that short, and a fixed text in place of a longer one.
pub proof fn law_shown_errors_are_short(status: u16, errors: Seq<Seq<char>>)
    ensures
        encode_utf8(safe_error(status, errors)).len() <= 240,
        !is_detail_hidden(status) && errors.len() > 0 ==> safe_error(status, errors) == (if
        encode_utf8(redacted(errors[0])).len() <= 240 {
            redacted(errors[0])
        } else {
            "OpenBao rejected the request"@
        }),
{
    reveal_strlit("access was denied by OpenBao policy");
    reveal_strlit("the OpenBao session is no longer valid");
    reveal_strlit("OpenBao is temporarily unavailable");
    reveal_strlit("OpenBao rejected the request");
    lemma_bytes_of_text("access was denied by OpenBao policy"@);
    lemma_bytes_of_text("the OpenBao session is no longer valid"@);
    lemma_bytes_of_text("OpenBao is temporarily unavailable"@);
    lemma_bytes_of_text("OpenBao rejected the request"@);
}

proof fn lemma_redacted_plain(s: Seq<char>)
    requires
        forall|i: int| 0 <= i < s.len() ==> #[trigger] s[i] != '=' && s[i] != '"',
    ensures
        redacted(s) == s,
{
    assert forall|k: int, p: int| 0 <= k < crate::redaction::markers().len() implies
        !#[trigger] crate::text::occurs_at(
            crate::text::lower(s),
            crate::redaction::markers()[k],
            p,
        ) by {
        crate::redaction::lemma_marker_end(k);
        let m = crate::redaction::markers()[k];
        let low = crate::text::lower(s);
        if crate::text::occurs_at(low, m, p) {
            assert(low.subrange(p, p + m.len())[m.len() - 1] == m.last());
            assert(low[p + m.len() - 1] == m.last());
            assert(s[p + m.len() - 1] == m.last());
        }
    }
    crate::redaction::law_text_without_markers_is_kept(s);
}

/// What a user sees of a refused request that came with messages has no secret
/// in it that redaction would take out.
pub proof fn law_shown_errors_are_redacted(status: u16, errors: Seq<Seq<char>>)
    requires
        errors.len() > 0,
    ensures
        redacted(safe_error(status, errors)) == safe_error(status, errors),
{
    reveal_strlit("access was denied by OpenBao policy");
    reveal_strlit("the OpenBao session is no longer valid");
    reveal_strlit("OpenBao is temporarily unavailable");
    reveal_strlit("OpenBao rejected the request");
    crate::redaction::law_redaction_is_idempotent(errors[0]);
    if safe_error(status, errors) != redacted(errors[0]) {
        lemma_redacted_plain(safe_error(status, errors));
    }
}

/// A reply that was successful and holds the JSON that is expected, or what is
/// reported in its place.
pub open spec fn decoded<T>(reply: Reply<T>) -> Result<Envelope<T>, ErrorView> {
    if !is_success(reply.status) {
        Err(refusal(reply.status, reply.body@))
    } else {
        match reply.parsed {
            Some(envelope) => Ok(envelope),
            None => Err(ErrorView::Api("OpenBao returned an invalid JSON response"@)),
        }
    }
}

pub fn decode<T>(reply: Reply<T>) -> (r: AppResult<Envelope<T>>)
    requires
        reply.is_reply(),
    ensures
        outcome(r) == decoded(reply),
{
    if !(200 <= reply.status && reply.status < 300) {
        return Err(refuse(reply.status, reply.body.as_str()));
    }
    match reply.parsed {
        Some(envelope) => Ok(envelope),
        None => Err(api_error("OpenBao returned an invalid JSON response")),
    }
}

// ---------------------------------------------------------------------------
// Requests
// ---------------------------------------------------------------------------

/// Characters that an HTTP header's value may hold.
pub open spec fn is_header_value(s: Seq<char>) -> bool {
    forall|i: int|
        0 <= i < s.len() ==> (#[trigger] s[i]) as u32 >= 32 && s[i] as u32 != 127 || s[i] == '\t'
}

fn header_allowed(value: &str) -> (r: bool)
    ensures
        r == is_header_value(value@),
{
    let chars: Vec<char> = chars_of(value);
    let mut i: usize = 0;
    while i < chars.len()
        invariant
            chars@ == value@,
            0 <= i <= chars@.len(),
            forall|k: int|
                0 <= k < i ==> (#[trigger] value@[k]) as u32 >= 32 && value@[k] as u32 != 127
                    || value@[k] == '\t',
        decreases chars@.len() - i,
    {
        let n: u32 = chars[i] as u32;
        if !(n >= 32 && n != 127 || chars[i] == '\t') {
            assert(value@[i as int] == chars@[i as int]);
            return false;
        }
        i += 1;
    }
    true
}

pub open spec fn namespace_headers(namespace: Option<Seq<char>>) -> Seq<(Seq<char>, Seq<char>)> {
    match namespace {
        Some(value) => seq![("X-Vault-Namespace"@, value)],
        None => Seq::empty(),
    }
}

pub open spec fn token_headers(token: Option<Seq<char>>) -> Seq<(Seq<char>, Seq<char>)> {
    match token {
        Some(value) => seq![("X-Vault-Token"@, value)],
        None => Seq::empty(),
    }
}

/// The headers of a request: the namespace, then the token.
pub open spec fn request_headers(namespace: Option<Seq<char>>, token: Option<Seq<char>>) -> Result<
    Seq<(Seq<char>, Seq<char>)>,
    ErrorView,
> {
    if namespace is Some && !is_header_value(namespace->Some_0) {
        Err(ErrorView::Configuration("namespace is not a valid header value"@))
    } else if token is Some && !is_header_value(token->Some_0) {
        Err(ErrorView::Internal)
    } else {
        Ok(namespace_headers(namespace) + token_headers(token))
    }
}

pub open spec fn view_secret(secret: Option<&Secret>) -> Option<Seq<char>> {
    match secret {
        Some(secret) => Some(secret@),
        None => None,
    }
}

/// What the server is asked for.
pub enum ApiCall {
    Health,
    AuthUrl { redirect_uri: Seq<char>, client_nonce: Seq<char> },
    Poll { challenge: ChallengeView },
    Revoke { token: Seq<char> },
    Renew { token: Seq<char> },
    ReadPem { token: Seq<char>, path: Seq<char> },
    Sign {
        token: Seq<char>,
        mount: Seq<char>,
        role: Seq<char>,
        members: Seq<(Seq<char>, MemberView)>,
    },
}

/// The request by which the server is asked.
pub open spec fn api_call(server: OpenBaoView, call: ApiCall) -> Result<RequestView, ErrorView> {
    match call {
        ApiCall::Health => request_for(server, Method::Get, "sys/health"@, None, None),
        ApiCall::AuthUrl { redirect_uri, client_nonce } => request_for(
            server,
            Method::Post,
            auth_url_path(server),
            None,
            Some(auth_url_members(server, redirect_uri, client_nonce)),
        ),
        ApiCall::Poll { challenge } => request_for(
            server,
            Method::Post,
            poll_path(server),
            None,
            Some(poll_members(challenge)),
        ),
        ApiCall::Revoke { token } => request_for(
            server,
            Method::Post,
            "auth/token/revoke-self"@,
            Some(token),
            Some(Seq::empty()),
        ),
        ApiCall::Renew { token } => request_for(
            server,
            Method::Post,
            "auth/token/renew-self"@,
            Some(token),
            Some(Seq::empty()),
        ),
        ApiCall::ReadPem { token, path } => request_for(
            server,
            Method::Get,
            path,
            Some(token),
            None,
        ),
        ApiCall::Sign { token, mount, role, members } => request_for(
            server,
            Method::Post,
            mount + "/sign/"@ + role,
            Some(token),
            Some(members),
        ),
    }
}

/// Whether the token was revoked.
pub open spec fn revocation_outcome(status: u16) -> Result<(), ErrorView> {
    if is_success(status) {
        Ok(())
    } else {
        Err(ErrorView::Api("token revocation failed"@))
    }
}

/// The request for a path below the API's root.
pub open spec fn request_for(
    server: OpenBaoView,
    method: Method,
    relative: Seq<char>,
    token: Option<Seq<char>>,
    members: Option<Seq<(Seq<char>, MemberView)>>,
) -> Result<RequestView, ErrorView> {
    match api_address(server.address, relative) {
        Err(e) => Err(e),
        Ok(url) => match request_headers(server.namespace, token) {
            Err(e) => Err(e),
            Ok(headers) => Ok(RequestView { method, url, headers, members }),
        },
    }
}

pub open spec fn auth_url_path(server: OpenBaoView) -> Seq<char> {
    "auth/"@ + server.auth_mount + "/oidc/auth_url"@
}

pub open spec fn auth_url_members(
    server: OpenBaoView,
    redirect_uri: Seq<char>,
    client_nonce: Seq<char>,
) -> Seq<(Seq<char>, MemberView)> {
    seq![
        ("role"@, MemberView::Text(server.oidc_role)),
        ("redirect_uri"@, MemberView::Text(redirect_uri)),
        ("client_nonce"@, MemberView::Text(client_nonce)),
    ]
}

pub open spec fn poll_path(server: OpenBaoView) -> Seq<char> {
    "auth/"@ + server.auth_mount + "/oidc/poll"@
}

pub open spec fn poll_members(challenge: ChallengeView) -> Seq<(Seq<char>, MemberView)> {
    seq![
        ("state"@, MemberView::Text(challenge.state)),
        ("client_nonce"@, MemberView::Text(challenge.client_nonce)),
    ]
}

#[verifier::ext_equal]
pub struct SignRequestView {
    pub csr: Seq<char>,
    pub common_name: Seq<char>,
    pub alt_names: Option<Seq<char>>,
    pub format: Seq<char>,
    pub exclude_cn_from_sans: bool,
}

impl<'a> View for PkiSignRequest<'a> {
    type V = SignRequestView;

    open spec fn view(&self) -> SignRequestView {
        SignRequestView {
            csr: self.csr@,
            common_name: self.common_name@,
            alt_names: match self.alt_names {
                Some(text) => Some(text@),
                None => None,
            },
            format: self.format@,
            exclude_cn_from_sans: self.exclude_cn_from_sans,
        }
    }
}

impl SignRequestView {
    /// The members of the request's JSON object: alternative names appear only
    /// where there are any.
    pub open spec fn json_members(self) -> Seq<(Seq<char>, MemberView)> {
        seq![
            ("csr"@, MemberView::Text(self.csr)),
            ("common_name"@, MemberView::Text(self.common_name)),
        ] + match self.alt_names {
            Some(names) => seq![("alt_names"@, MemberView::Text(names))],
            None => Seq::empty(),
        } + seq![
            ("format"@, MemberView::Text(self.format)),
            ("exclude_cn_from_sans"@, MemberView::Flag(self.exclude_cn_from_sans)),
        ]
    }
}

fn text_member(name: &str, value: &str) -> (r: (String, Member))
    ensures
        r.0@ == name@,
        r.1@ == MemberView::Text(value@),
{
    (name.to_owned(), Member::Text(value.to_owned()))
}

impl<'a> PkiSignRequest<'a> {
    /// The members of the request's JSON object.
    pub fn members(&self) -> (r: Vec<(String, Member)>)
        ensures
            view_members(r@) == self@.json_members(),
    {
        let mut r: Vec<(String, Member)> = Vec::new();
        r.push(text_member("csr", self.csr));
        r.push(text_member("common_name", self.common_name));
        if let Some(names) = self.alt_names {
            r.push(text_member("alt_names", names));
        }
        r.push(text_member("format", self.format));
        r.push(("exclude_cn_from_sans".to_owned(), Member::Flag(self.exclude_cn_from_sans)));
        assert(view_members(r@) =~= self@.json_members());
        r
    }
}

impl OpenBaoClient {
    fn headers(&self, token: Option<&Secret>) -> (r: AppResult<Vec<(String, String)>>)
        ensures
            match r {
                Ok(headers) => request_headers(self@.namespace, view_secret(token)) == Ok::<
                    Seq<(Seq<char>, Seq<char>)>,
                    ErrorView,
                >(view_pairs(headers@)),
                Err(e) => request_headers(self@.namespace, view_secret(token)) == Err::<
                    Seq<(Seq<char>, Seq<char>)>,
                    ErrorView,
                >(e@),
            },
    {
        let mut headers: Vec<(String, String)> = Vec::new();
        if let Some(namespace) = &self.config.namespace {
            if !header_allowed(namespace.as_str()) {
                return Err(configuration_error("namespace is not a valid header value"));
            }
            headers.push(("X-Vault-Namespace".to_owned(), namespace.clone()));
        }
        if let Some(token) = token {
            if !header_allowed(token.expose()) {
                return Err(AppError::Internal);
            }
            headers.push(("X-Vault-Token".to_owned(), token.expose().to_owned()));
        }
        assert(view_pairs(headers@) =~= namespace_headers(self@.namespace) + token_headers(
            view_secret(token),
        ));
        Ok(headers)
    }

    fn request(
        &self,
        method: Method,
        relative: &str,
        token: Option<&Secret>,
        members: Option<Vec<(String, Member)>>,
    ) -> (r: AppResult<ApiRequest>)
        requires
            is_short_address(self@.address),
        ensures
            view_outcome(r) == request_for(
                self@,
                method,
                relative@,
                view_secret(token),
                match members {
                    Some(members) => Some(view_members(members@)),
                    None => None,
                },
            ),
    {
        let url: String = match self.config.url(relative) {
            Ok(url) => url,
            Err(e) => return Err(e),
        };
        let headers: Vec<(String, String)> = match self.headers(token) {
            Ok(headers) => headers,
            Err(e) => return Err(e),
        };
        Ok(ApiRequest { method, url, headers, members })
    }

    /// Asks for an authorization URL.
    pub fn begin_oidc_request(&self, redirect_uri: &str, client_nonce: &Secret) -> (r: AppResult<
        ApiRequest,
    >)
        requires
            is_short_address(self@.address),
        ensures
            view_outcome(r) == api_call(
                self@,
                ApiCall::AuthUrl { redirect_uri: redirect_uri@, client_nonce: client_nonce@ },
            ),
            view_outcome(r) == request_for(
                self@,
                Method::Post,
                auth_url_path(self@),
                None,
                Some(auth_url_members(self@, redirect_uri@, client_nonce@)),
            ),
    {
        let path: String = concat3("auth/", self.config.auth_mount.as_str(), "/oidc/auth_url");
        let mut members: Vec<(String, Member)> = Vec::new();
        members.push(text_member("role", self.config.oidc_role.as_str()));
        members.push(text_member("redirect_uri", redirect_uri));
        members.push(text_member("client_nonce", client_nonce.expose()));
        assert(view_members(members@) =~= auth_url_members(self@, redirect_uri@, client_nonce@));
        self.request(Method::Post, path.as_str(), None, Some(members))
    }

    /// Asks for the server's health.
    pub fn server_health_request(&self) -> (r: AppResult<ApiRequest>)
        requires
            is_short_address(self@.address),
        ensures
            view_outcome(r) == request_for(self@, Method::Get, "sys/health"@, None, None),
            view_outcome(r) == api_call(self@, ApiCall::Health),
    {
        self.request(Method::Get, "sys/health", None, None)
    }

    /// Asks whether the user has authorized the login.
    pub fn poll_oidc_request(&self, challenge: &OidcChallenge) -> (r: AppResult<ApiRequest>)
        requires
            is_short_address(self@.address),
        ensures
            view_outcome(r) == api_call(self@, ApiCall::Poll { challenge: challenge@ }),
            view_outcome(r) == request_for(
                self@,
                Method::Post,
                poll_path(self@),
                None,
                Some(poll_members(challenge@)),
            ),
    {
        let path: String = concat3("auth/", self.config.auth_mount.as_str(), "/oidc/poll");
        let mut members: Vec<(String, Member)> = Vec::new();
        members.push(text_member("state", challenge.state.as_str()));
        members.push(text_member("client_nonce", challenge.client_nonce.expose()));
        assert(view_members(members@) =~= poll_members(challenge@));
        self.request(Method::Post, path.as_str(), None, Some(members))
    }

    /// Asks for the token's revocation.
    pub fn revoke_request(&self, token: &Secret) -> (r: AppResult<ApiRequest>)
        requires
            is_short_address(self@.address),
        ensures
            view_outcome(r) == api_call(self@, ApiCall::Revoke { token: token@ }),
            view_outcome(r) == request_for(
                self@,
                Method::Post,
                "auth/token/revoke-self"@,
                Some(token@),
                Some(Seq::empty()),
            ),
    {
        let members: Vec<(String, Member)> = Vec::new();
        assert(view_members(members@) =~= Seq::empty());
        self.request(Method::Post, "auth/token/revoke-self", Some(token), Some(members))
    }

    /// Asks for the token's renewal.
    pub fn renew_request(&self, token: &Secret) -> (r: AppResult<ApiRequest>)
        requires
            is_short_address(self@.address),
        ensures
            view_outcome(r) == api_call(self@, ApiCall::Renew { token: token@ }),
            view_outcome(r) == request_for(
                self@,
                Method::Post,
                "auth/token/renew-self"@,
                Some(token@),
                Some(Seq::empty()),
            ),
    {
        let members: Vec<(String, Member)> = Vec::new();
        assert(view_members(members@) =~= Seq::empty());
        self.request(Method::Post, "auth/token/renew-self", Some(token), Some(members))
    }

    /// Asks for a certificate in PEM.
    pub fn read_pem_request(&self, token: &Secret, path: &str) -> (r: AppResult<ApiRequest>)
        requires
            is_short_address(self@.address),
        ensures
            view_outcome(r) == request_for(self@, Method::Get, path@, Some(token@), None),
            view_outcome(r) == api_call(self@, ApiCall::ReadPem { token: token@, path: path@ }),
    {
        self.request(Method::Get, path, Some(token), None)
    }

    /// Asks for a signature on a certificate request.
    pub fn sign_csr_request(
        &self,
        token: &Secret,
        mount: &str,
        role: &str,
        request: &PkiSignRequest<'_>,
    ) -> (r: AppResult<ApiRequest>)
        requires
            is_short_address(self@.address),
        ensures
            view_outcome(r) == api_call(
                self@,
                ApiCall::Sign {
                    token: token@,
                    mount: mount@,
                    role: role@,
                    members: request@.json_members(),
                },
            ),
            view_outcome(r) == request_for(
                self@,
                Method::Post,
                mount@ + "/sign/"@ + role@,
                Some(token@),
                Some(request@.json_members()),
            ),
    {
        let path: String = concat3(mount, "/sign/", role);
        let members: Vec<(String, Member)> = request.members();
        self.request(Method::Post, path.as_str(), Some(token), Some(members))
    }
}

// ---------------------------------------------------------------------------
// Replies
// ---------------------------------------------------------------------------

pub open spec fn poll_interval(value: Seq<char>) -> Result<u64, ErrorView> {
    match parsed_u64(value) {
        Some(interval) => if interval > 0 {
            Ok(interval)
        } else {
            Err(ErrorView::Api("OpenBao returned an invalid OIDC poll interval"@))
        },
        None => Err(ErrorView::Api("OpenBao returned an invalid OIDC poll interval"@)),
    }
}

pub fn parse_poll_interval(value: &str) -> (r: AppResult<u64>)
    ensures
        outcome(r) == poll_interval(value@),
{
    if let Some(interval) = parse_unsigned(value) {
        if interval > 0 {
            return Ok(interval);
        }
    }
    Err(api_error("OpenBao returned an invalid OIDC poll interval"))
}

/// A URL that a browser may be sent to: HTTPS, and no credentials in it.
pub open spec fn is_safe_browser_url(url: UrlView) -> bool {
    url.scheme == "https"@ && url.username.len() == 0 && url.password is None
}

/// The challenge that a reply describes, `url` being what its authorization URL
/// stands for.
pub open spec fn challenge_at(
    url: Option<UrlView>,
    state: Seq<char>,
    interval: Seq<char>,
    client_nonce: Seq<char>,
) -> Result<ChallengeView, ErrorView> {
    match url {
        None => Err(ErrorView::Api("OpenBao returned an invalid OIDC authorization URL"@)),
        Some(url) => if !is_safe_browser_url(url) {
            Err(ErrorView::Api("OpenBao returned an unsafe OIDC authorization URL"@))
        } else {
            match poll_interval(interval) {
                Err(e) => Err(e),
                Ok(interval) => Ok(
                    ChallengeView {
                        auth_url: url.text,
                        state,
                        client_nonce,
                        poll_interval_seconds: interval,
                    },
                ),
            }
        },
    }
}

/// The challenge in the data of a reply.
pub open spec fn challenge_in(data: AuthUrlData, client_nonce: Seq<char>) -> Result<
    ChallengeView,
    ErrorView,
> {
    if data.auth_url@.len() == 0 || data.state@.len() == 0 {
        Err(ErrorView::Api("OpenBao returned an incomplete OIDC challenge"@))
    } else {
        challenge_at(
            parsed_url(data.auth_url@),
            data.state@,
            data.poll_interval@,
            client_nonce,
        )
    }
}

/// What comes of the request for an authorization URL.
pub open spec fn challenge_outcome(
    server: OpenBaoView,
    reply: Reply<AuthUrlData>,
    client_nonce: Seq<char>,
) -> Result<ChallengeView, ErrorView> {
    if reply.status == 404 {
        Err(
            ErrorView::Api(
                "OIDC auth endpoint was not found at /v1/"@ + auth_url_path(server)
                    + "; verify the client's Auth mount setting matches the OpenBao auth method path"@,
            ),
        )
    } else {
        match decoded(reply) {
            Err(e) => Err(e),
            Ok(envelope) => match envelope.data {
                None => Err(
                    ErrorView::Api(
                        "authorization URL was not returned; verify the OpenBao OIDC role and redirect URI"@,
                    ),
                ),
                Some(data) => challenge_in(data, client_nonce),
            },
        }
    }
}

/// The challenge that a reply describes, `url` being what its authorization URL
/// stands for.
pub fn challenge_from(url: Option<Url>, state: String, interval: &str, client_nonce: Secret) -> (r:
    AppResult<OidcChallenge>)
    ensures
        view_outcome(r) == challenge_at(view_url(url), state@, interval@, client_nonce@),
{
    let url: Url = match url {
        Some(url) => url,
        None => return Err(api_error("OpenBao returned an invalid OIDC authorization URL")),
    };
    if !text_eq(url.scheme.as_str(), "https") || chars_of(url.username.as_str()).len() > 0
        || url.password.is_some() {
        return Err(api_error("OpenBao returned an unsafe OIDC authorization URL"));
    }
    let poll_interval_seconds: u64 = match parse_poll_interval(interval) {
        Ok(interval) => interval,
        Err(e) => return Err(e),
    };
    Ok(OidcChallenge { auth_url: url.text, state, client_nonce, poll_interval_seconds })
}

fn challenge_of(data: AuthUrlData, client_nonce: Secret) -> (r: AppResult<OidcChallenge>)
    ensures
        view_outcome(r) == challenge_in(data, client_nonce@),
{
    if chars_of(data.auth_url.as_str()).len() == 0 || chars_of(data.state.as_str()).len() == 0 {
        return Err(api_error("OpenBao returned an incomplete OIDC challenge"));
    }
    let url: Option<Url> = Url::parse(data.auth_url.as_str());
    challenge_from(url, data.state, data.poll_interval.as_str(), client_nonce)
}

/// A session from the authentication data of a reply. The identity is the
/// claim's value, or else the display name, or else a common noun.
pub open spec fn session_in(auth: AuthData, identity_claim: Seq<char>, now: u64) -> SessionView {
    let metadata = view_metadata(auth.metadata@);
    SessionView {
        token: auth.client_token@,
        identity: if metadata.dom().contains(identity_claim) {
            metadata[identity_claim]
        } else {
            match auth.display_name {
                Some(name) => name@,
                None => "OpenBao user"@,
            }
        },
        metadata,
        expires_at: saturated(now, auth.lease_duration),
        renewable: auth.renewable,
    }
}

/// One of the messages ends in the text.
pub open spec fn any_ends_with(errors: Seq<Seq<char>>, ending: Seq<char>) -> bool {
    exists|i: int| 0 <= i < errors.len() && ends_with(#[trigger] errors[i], ending)
}

/// What a poll that was refused with the messages found.
pub open spec fn refused_poll(status: u16, errors: Seq<Seq<char>>) -> Result<PollView, ErrorView> {
    if any_ends_with(errors, "authorization_pending"@) {
        Ok(PollView::Pending)
    } else if any_ends_with(errors, "slow_down"@) {
        Ok(PollView::SlowDown)
    } else {
        Err(ErrorView::Api(safe_error(status, errors)))
    }
}

/// What a poll for the authorization found.
pub open spec fn poll_outcome<T>(reply: Reply<T>, identity_claim: Seq<char>, now: u64) -> Result<
    PollView,
    ErrorView,
> {
    if !is_success(reply.status) {
        refused_poll(reply.status, reply_errors(reply.body@))
    } else {
        match reply.parsed {
            None => Err(
                ErrorView::Api("OpenBao returned an invalid authentication response"@),
            ),
            Some(envelope) => match envelope.auth {
                None => Err(ErrorView::Api("OpenBao did not return an authentication token"@)),
                Some(auth) => Ok(PollView::Complete(session_in(auth, identity_claim, now))),
            },
        }
    }
}

fn one_ends_with(errors: &[String], ending: &str) -> (r: bool)
    ensures
        r == any_ends_with(view_all(errors@), ending@),
{
    let mut i: usize = 0;
    while i < errors.len()
        invariant
            0 <= i <= errors@.len(),
            forall|k: int| 0 <= k < i ==> !ends_with(#[trigger] view_all(errors@)[k], ending@),
        decreases errors@.len() - i,
    {
        if finishes(errors[i].as_str(), ending) {
            assert(ends_with(view_all(errors@)[i as int], ending@));
            return true;
        }
        i += 1;
    }
    false
}

/// What a poll that was refused with the messages found.
pub fn judge_refused_poll(status: u16, errors: &[String]) -> (r: AppResult<PollResult>)
    requires
        is_status(status),
    ensures
        view_outcome(r) == refused_poll(status, view_all(errors@)),
{
    if one_ends_with(errors, "authorization_pending") {
        return Ok(PollResult::Pending);
    }
    if one_ends_with(errors, "slow_down") {
        return Ok(PollResult::SlowDown);
    }
    Err(AppError::Api(user_safe_error(status, errors)))
}

fn session_of(auth: AuthData, identity_claim: &str, now: u64) -> (r: Session)
    ensures
        r@ == session_in(auth, identity_claim@, now),
{
    let identity: String = match auth.metadata.get(identity_claim) {
        Some(value) => value.clone(),
        None => match auth.display_name {
            Some(name) => name,
            None => "OpenBao user".to_owned(),
        },
    };
    Session {
        token: auth.client_token,
        identity,
        metadata: auth.metadata,
        expires_at: now.saturating_add(auth.lease_duration),
        renewable: auth.renewable,
    }
}

/// A certificate that was asked for in PEM.
pub open spec fn pem_outcome(status: u16, body: Seq<char>) -> Result<Seq<char>, ErrorView> {
    if !is_success(status) {
        Err(refusal(status, body))
    } else if !contains(body, "BEGIN CERTIFICATE"@) || encode_utf8(body).len() > 262144 {
        Err(ErrorView::Api("OpenBao returned an invalid CA certificate"@))
    } else {
        Ok(body)
    }
}

pub open spec fn renewal_outcome<T>(reply: Reply<T>) -> Result<(u64, bool), ErrorView> {
    match decoded(reply) {
        Err(e) => Err(e),
        Ok(envelope) => match envelope.auth {
            None => Err(ErrorView::Api("OpenBao returned no renewed session"@)),
            Some(auth) => Ok((auth.lease_duration, auth.renewable)),
        },
    }
}

pub open spec fn signing_outcome(reply: Reply<PkiSignData>) -> Result<SignedView, ErrorView> {
    match decoded(reply) {
        Err(e) => Err(e),
        Ok(envelope) => match envelope.data {
            None => Err(ErrorView::Api("OpenBao returned no signed certificate"@)),
            Some(data) => Ok(data@),
        },
    }
}

/// A version as it is compared: without the leading `v` that some servers
/// print.
pub open spec fn plain_version(version: Seq<char>) -> Seq<char> {
    strip_leading(version, 'v')
}

/// What comes of the versions as they were read, `older` being whether the
/// server's is the older one.
pub open spec fn version_verdict(
    actual: Option<Seq<char>>,
    required: Option<Seq<char>>,
    older: Option<bool>,
) -> Result<(), ErrorView> {
    match (actual, required) {
        (None, _) => Err(ErrorView::Api("OpenBao reported an invalid server version"@)),
        (_, None) => Err(
            ErrorView::Configuration("minimum_version is not valid semantic versioning"@),
        ),
        (Some(actual), Some(required)) => if older == Some(true) {
            Err(
                ErrorView::Api(
                    "OpenBao "@ + required + " or newer is required; server reported "@ + actual,
                ),
            )
        } else {
            Ok(())
        },
    }
}

/// The server is new enough, or does not say how new it is.
pub open spec fn version_outcome(version: Option<Seq<char>>, minimum: Seq<char>) -> Result<
    (),
    ErrorView,
> {
    match version {
        None => Ok(()),
        Some(version) => version_verdict(
            parsed_version(plain_version(version)),
            parsed_version(plain_version(minimum)),
            version_precedes(plain_version(version), plain_version(minimum)),
        ),
    }
}

/// Judges the versions as they were read, `older` being whether the server's is
/// the older one.
pub fn judge_version(actual: Option<String>, required: Option<String>, older: Option<bool>) -> (r:
    AppResult<()>)
    ensures
        outcome(r) == version_verdict(view_option(actual), view_option(required), older),
{
    let actual: String = match actual {
        Some(text) => text,
        None => return Err(api_error("OpenBao reported an invalid server version")),
    };
    let required: String = match required {
        Some(text) => text,
        None => return Err(
            configuration_error("minimum_version is not valid semantic versioning"),
        ),
    };
    match older {
        Some(true) => Err(
            AppError::Api(
                concat4(
                    "OpenBao ",
                    required.as_str(),
                    " or newer is required; server reported ",
                    actual.as_str(),
                ),
            ),
        ),
        _ => Ok(()),
    }
}

/// Holds a server's version against the oldest one that will do.
pub fn check_version(version: Option<&str>, minimum: &str) -> (r: AppResult<()>)
    ensures
        outcome(r) == version_outcome(
            match version {
                Some(text) => Some(text@),
                None => None,
            },
            minimum@,
        ),
{
    let reported: &str = match version {
        Some(text) => text,
        None => return Ok(()),
    };
    let actual: String = without_leading(reported, 'v');
    let required: String = without_leading(minimum, 'v');
    judge_version(
        parse_version(actual.as_str()),
        parse_version(required.as_str()),
        older_version(actual.as_str(), required.as_str()),
    )
}

impl OpenBaoClient {
    /// The challenge in the reply to the request for an authorization URL.
    pub fn begin_oidc(&self, reply: Reply<AuthUrlData>, client_nonce: Secret) -> (r: AppResult<
        OidcChallenge,
    >)
        requires
            reply.is_reply(),
        ensures
            view_outcome(r) == challenge_outcome(self@, reply, client_nonce@),
    {
        if reply.status == 404 {
            let path: String = concat3("auth/", self.config.auth_mount.as_str(), "/oidc/auth_url");
            return Err(
                AppError::Api(
                    concat3(
                        "OIDC auth endpoint was not found at /v1/",
                        path.as_str(),
                        "; verify the client's Auth mount setting matches the OpenBao auth method path",
                    ),
                ),
            );
        }
        let envelope: Envelope<AuthUrlData> = match decode(reply) {
            Ok(envelope) => envelope,
            Err(e) => return Err(e),
        };
        match envelope.data {
            None => Err(
                api_error(
                    "authorization URL was not returned; verify the OpenBao OIDC role and redirect URI",
                ),
            ),
            Some(data) => challenge_of(data, client_nonce),
        }
    }

    /// The server's version, where the reply to the health request says it.
    pub fn server_health(&self, parsed: Option<HealthData>) -> (r: ServerHealth)
        ensures
            r.version == (match parsed {
                Some(health) => health.version,
                None => None,
            }),
    {
        match parsed {
            Some(health) => ServerHealth { version: health.version },
            None => ServerHealth { version: None },
        }
    }

    /// Holds the server's version against the oldest one that will do; a
    /// server that does not say its version passes.
    pub fn require_minimum_version(&self, health: &ServerHealth, minimum: &str) -> (r: AppResult<
        (),
    >)
        ensures
            outcome(r) == version_outcome(view_option(health.version), minimum@),
    {
        match &health.version {
            Some(version) => check_version(Some(version.as_str()), minimum),
            None => check_version(None, minimum),
        }
    }

    /// What the reply to a poll says.
    pub fn poll_oidc<T>(&self, reply: Reply<T>, identity_claim: &str, now: u64) -> (r: AppResult<
        PollResult,
    >)
        requires
            reply.is_reply(),
        ensures
            view_outcome(r) == poll_outcome(reply, identity_claim@, now),
    {
        if !(200 <= reply.status && reply.status < 300) {
            let errors: Vec<String> = parse_errors(reply.body.as_str());
            return judge_refused_poll(reply.status, &errors);
        }
        let envelope: Envelope<T> = match reply.parsed {
            Some(envelope) => envelope,
            None => return Err(
                api_error("OpenBao returned an invalid authentication response"),
            ),
        };
        match envelope.auth {
            None => Err(api_error("OpenBao did not return an authentication token")),
            Some(auth) => Ok(PollResult::Complete(session_of(auth, identity_claim, now))),
        }
    }

    /// Whether the token was revoked.
    pub fn revoke(&self, status: u16) -> (r: AppResult<()>)
        ensures
            outcome(r) == revocation_outcome(status),
            outcome(r) == (if is_success(status) {
                Ok::<(), ErrorView>(())
            } else {
                Err::<(), ErrorView>(ErrorView::Api("token revocation failed"@))
            }),
    {
        if 200 <= status && status < 300 {
            Ok(())
        } else {
            Err(api_error("token revocation failed"))
        }
    }

    /// The new lease of a renewed token, and whether it can be renewed again.
    pub fn renew<T>(&self, reply: Reply<T>) -> (r: AppResult<(u64, bool)>)
        requires
            reply.is_reply(),
        ensures
            outcome(r) == renewal_outcome(reply),
    {
        let envelope: Envelope<T> = match decode(reply) {
            Ok(envelope) => envelope,
            Err(e) => return Err(e),
        };
        match envelope.auth {
            None => Err(api_error("OpenBao returned no renewed session")),
            Some(auth) => Ok((auth.lease_duration, auth.renewable)),
        }
    }

    /// The certificate in a reply of plain text.
    pub fn read_pem(&self, status: u16, body: String) -> (r: AppResult<String>)
        requires
            is_status(status),
        ensures
            view_outcome(r) == pem_outcome(status, body@),
    {
        if !(200 <= status && status < 300) {
            return Err(refuse(status, body.as_str()));
        }
        if !includes(body.as_str(), "BEGIN CERTIFICATE") || byte_len(body.as_str()) > 262144 {
            return Err(api_error("OpenBao returned an invalid CA certificate"));
        }
        Ok(body)
    }

    /// The signed certificate in a reply.
    pub fn sign_csr(&self, reply: Reply<PkiSignData>) -> (r: AppResult<PkiSignData>)
        requires
            reply.is_reply(),
        ensures
            view_outcome(r) == signing_outcome(reply),
    {
        let envelope: Envelope<PkiSignData> = match decode(reply) {
            Ok(envelope) => envelope,
            Err(e) => return Err(e),
        };
        match envelope.data {
            None => Err(api_error("OpenBao returned no signed certificate")),
            Some(data) => Ok(data),
        }
    }
}

/// A browser is only ever sent to an HTTPS URL without credentials, and polls
/// are never less than a second apart.
pub proof fn law_challenges_are_safe(
    server: OpenBaoView,
    reply: Reply<AuthUrlData>,
    client_nonce: Seq<char>,
)
    requires
        challenge_outcome(server, reply, client_nonce) is Ok,
    ensures
        challenge_outcome(server, reply, client_nonce) matches Ok(challenge)
            && challenge.poll_interval_seconds >= 1 && challenge.client_nonce == client_nonce && (
        exists|url: UrlView|
            is_safe_browser_url(url) && #[trigger] url.text == challenge.auth_url && Some(url)
                == parsed_url(reply.parsed->Some_0.data->Some_0.auth_url@)),
{
    let url = parsed_url(reply.parsed->Some_0.data->Some_0.auth_url@)->Some_0;
    assert(url.text == challenge_outcome(server, reply, client_nonce)->Ok_0.auth_url);
}

/// A request for a certificate without alternative names sends no member of
/// that name.
pub proof fn law_absent_names_are_not_sent(request: SignRequestView, i: int)
    requires
        request.alt_names is None,
        0 <= i < request.json_members().len(),
    ensures
        request.json_members()[i].0 != "alt_names"@,
{
    reveal_strlit("alt_names");
    reveal_strlit("csr");
    reveal_strlit("common_name");
    reveal_strlit("format");
    reveal_strlit("exclude_cn_from_sans");
    assert("alt_names"@.len() == 9);
}

// ---------------------------------------------------------------------------
// What is sent
// ---------------------------------------------------------------------------

/// The value stands under the name, and nothing else does.
pub open spec fn is_only_member(
    members: Seq<(Seq<char>, MemberView)>,
    name: Seq<char>,
    value: MemberView,
) -> bool {
    exists|i: int|
        0 <= i < members.len() && #[trigger] members[i] == (name, value) && forall|j: int|
            0 <= j < members.len() && j != i ==> (#[trigger] members[j]).0 != name
}

proof fn lemma_only_member(
    members: Seq<(Seq<char>, MemberView)>,
    i: int,
    name: Seq<char>,
    value: MemberView,
)
    requires
        0 <= i < members.len(),
        members[i] == (name, value),
        forall|j: int| 0 <= j < members.len() && j != i ==> (#[trigger] members[j]).0 != name,
    ensures
        is_only_member(members, name, value),
{
}

proof fn lemma_member_names()
    ensures
        "csr"@.len() == 3,
        "common_name"@.len() == 11,
        "alt_names"@.len() == 9,
        "format"@.len() == 6,
        "exclude_cn_from_sans"@.len() == 20,
        "role"@.len() == 4,
        "redirect_uri"@.len() == 12,
        "client_nonce"@.len() == 12,
        "redirect_uri"@[0] == 'r',
        "client_nonce"@[0] == 'c',
        "state"@.len() == 5,
        "X-Vault-Namespace"@.len() == 17,
        "X-Vault-Token"@.len() == 13,
{
    reveal_strlit("csr");
    reveal_strlit("common_name");
    reveal_strlit("alt_names");
    reveal_strlit("format");
    reveal_strlit("exclude_cn_from_sans");
    reveal_strlit("role");
    reveal_strlit("redirect_uri");
    reveal_strlit("client_nonce");
    reveal_strlit("state");
    reveal_strlit("X-Vault-Namespace");
    reveal_strlit("X-Vault-Token");
}

/// A request for a signature sends each of its own fields under the field's
/// name, once, and the alternative names exactly where there are any.
pub proof fn law_sign_requests_send_their_fields(request: SignRequestView)
    ensures
        ({
            let members = request.json_members();
            &&& is_only_member(members, "csr"@, MemberView::Text(request.csr))
            &&& is_only_member(members, "common_name"@, MemberView::Text(request.common_name))
            &&& is_only_member(members, "format"@, MemberView::Text(request.format))
            &&& is_only_member(
                members,
                "exclude_cn_from_sans"@,
                MemberView::Flag(request.exclude_cn_from_sans),
            )
            &&& request.alt_names matches Some(names) ==> is_only_member(
                members,
                "alt_names"@,
                MemberView::Text(names),
            )
            &&& members.len() == if request.alt_names is Some {
                5int
            } else {
                4int
            }
        }),
{
    lemma_member_names();
    let members = request.json_members();
    let n = members.len() as int;
    lemma_only_member(members, 0, "csr"@, MemberView::Text(request.csr));
    lemma_only_member(members, 1, "common_name"@, MemberView::Text(request.common_name));
    lemma_only_member(members, n - 2, "format"@, MemberView::Text(request.format));
    lemma_only_member(
        members,
        n - 1,
        "exclude_cn_from_sans"@,
        MemberView::Flag(request.exclude_cn_from_sans),
    );
    if let Some(names) = request.alt_names {
        lemma_only_member(members, 2, "alt_names"@, MemberView::Text(names));
    }
}

/// A login is asked for with the server's own role, and with the address and
/// the nonce that were given; a poll names the challenge's state and nonce.
pub proof fn law_logins_send_their_secrets_once(
    server: OpenBaoView,
    redirect_uri: Seq<char>,
    client_nonce: Seq<char>,
    challenge: ChallengeView,
)
    ensures
        ({
            let members = auth_url_members(server, redirect_uri, client_nonce);
            &&& members.len() == 3
            &&& is_only_member(members, "role"@, MemberView::Text(server.oidc_role))
            &&& is_only_member(members, "redirect_uri"@, MemberView::Text(redirect_uri))
            &&& is_only_member(members, "client_nonce"@, MemberView::Text(client_nonce))
        }),
        ({
            let members = poll_members(challenge);
            &&& members.len() == 2
            &&& is_only_member(members, "state"@, MemberView::Text(challenge.state))
            &&& is_only_member(members, "client_nonce"@, MemberView::Text(challenge.client_nonce))
        }),
        auth_url_path(server) == "auth/"@ + server.auth_mount + "/oidc/auth_url"@,
        poll_path(server) == "auth/"@ + server.auth_mount + "/oidc/poll"@,
{
    lemma_member_names();
    let members = auth_url_members(server, redirect_uri, client_nonce);
    lemma_only_member(members, 0, "role"@, MemberView::Text(server.oidc_role));
    lemma_only_member(members, 1, "redirect_uri"@, MemberView::Text(redirect_uri));
    lemma_only_member(members, 2, "client_nonce"@, MemberView::Text(client_nonce));
    let members = poll_members(challenge);
    lemma_only_member(members, 0, "state"@, MemberView::Text(challenge.state));
    lemma_only_member(members, 1, "client_nonce"@, MemberView::Text(challenge.client_nonce));
}

/// Characters that a header cannot carry: those below the space but the tab,
/// and the one that deletes.
pub open spec fn breaks_header(text: Seq<char>) -> bool {
    exists|i: int|
        0 <= i < text.len() && ((#[trigger] text[i]) as u32 <= 31 && text[i] != '\t'
            || text[i] as u32 == 127)
}

/// A request that can be made goes to the address of its path, by its method,
/// with its members; it carries the token exactly where one is given, the
/// namespace exactly where the server has one, and no other header. It can be
/// made exactly where the path has an address and both fit a header.
pub proof fn law_requests_carry_token_and_namespace(
    server: OpenBaoView,
    method: Method,
    relative: Seq<char>,
    token: Option<Seq<char>>,
    members: Option<Seq<(Seq<char>, MemberView)>>,
)
    ensures
        request_for(server, method, relative, token, members) is Ok <==> {
            &&& api_address(server.address, relative) is Ok
            &&& server.namespace matches Some(namespace) ==> !breaks_header(namespace)
            &&& token matches Some(token) ==> !breaks_header(token)
        },
        request_for(server, method, relative, token, members) matches Ok(request) ==> {
            &&& request.method == method
            &&& api_address(server.address, relative) == Ok::<Seq<char>, ErrorView>(request.url)
            &&& request.members == members
            &&& forall|name: Seq<char>, value: Seq<char>|
                #![trigger request.headers.contains((name, value))]
                request.headers.contains((name, value)) <==> {
                    ||| name == "X-Vault-Token"@ && token == Some(value)
                    ||| name == "X-Vault-Namespace"@ && server.namespace == Some(value)
                }
            &&& request.headers.no_duplicates()
        },
{
    lemma_member_names();
    if let Some(namespace) = server.namespace {
        lemma_header_value(namespace);
    }
    if let Some(token) = token {
        lemma_header_value(token);
    }
    if let Ok(request) = request_for(server, method, relative, token, members) {
        let headers = request.headers;
        assert forall|name: Seq<char>, value: Seq<char>|
            #![trigger headers.contains((name, value))]
            headers.contains((name, value)) == {
                ||| name == "X-Vault-Token"@ && token == Some(value)
                ||| name == "X-Vault-Namespace"@ && server.namespace == Some(value)
            } by {
            if server.namespace is Some {
                assert(headers[0] == ("X-Vault-Namespace"@, server.namespace->Some_0));
            }
            if token is Some {
                assert(headers[headers.len() - 1] == ("X-Vault-Token"@, token->Some_0));
            }
        }
    }
}

proof fn lemma_header_value(text: Seq<char>)
    ensures
        is_header_value(text) == !breaks_header(text),
{
    if !is_header_value(text) {
        let i = choose|i: int|
            0 <= i < text.len() && !((#[trigger] text[i]) as u32 >= 32 && text[i] as u32 != 127
                || text[i] == '\t');
        assert(text[i] as u32 <= 31 && text[i] != '\t' || text[i] as u32 == 127);
    }
}

// ---------------------------------------------------------------------------
// What comes back
// ---------------------------------------------------------------------------

/// A reply counts exactly where its status lies between 200 and 299 and its
/// JSON is the expected one, and then as it is.
pub proof fn law_replies_count_by_their_status<T>(reply: Reply<T>)
    ensures
        decoded(reply) is Ok <==> 200 <= reply.status <= 299 && reply.parsed is Some,
        decoded(reply) matches Ok(envelope) ==> reply.parsed == Some(envelope),
        !(200 <= reply.status <= 299) ==> decoded(reply) == Err::<Envelope<T>, ErrorView>(
            ErrorView::Api(safe_error(reply.status, reply_errors(reply.body@))),
        ),
{
}

/// The messages of a reply are the texts that it lists under `errors`, all of
/// them, in their order.
pub proof fn law_every_message_is_read(body: Seq<char>, k: int)
    ensures
        json_texts(body, "errors"@) is None ==> reply_errors(body).len() == 0,
        json_texts(body, "errors"@) is Some && 0 <= k < json_texts(
            body,
            "errors"@,
        )->Some_0.len() ==> {
            let items = json_texts(body, "errors"@)->Some_0;
            let before = present_texts(items.take(k));
            let after = present_texts(items.take(k + 1));
            &&& reply_errors(body) == present_texts(items.take(items.len() as int))
            &&& items[k] matches Some(text) ==> after == before.push(text)
            &&& items[k] is None ==> after == before
            &&& present_texts(items.take(0)).len() == 0
        },
{
    if let Some(items) = json_texts(body, "errors"@) {
        if 0 <= k < items.len() {
            assert(items.take(items.len() as int) =~= items);
            assert(items.take(k + 1).drop_last() =~= items.take(k));
            assert(items.take(k + 1).last() == items[k]);
        }
    }
}

/// A denied request, an expired session and a failing server are told apart,
/// and told from every other refusal.
pub proof fn law_refusals_say_why(status: u16, errors: Seq<Seq<char>>)
    ensures
        status == 403 ==> safe_error(status, errors) == "access was denied by OpenBao policy"@,
        status == 401 ==> safe_error(status, errors)
            == "the OpenBao session is no longer valid"@,
        500 <= status <= 599 ==> safe_error(status, errors)
            == "OpenBao is temporarily unavailable"@,
        !(status == 401 || status == 403 || 500 <= status <= 599) && errors.len() == 0
            && encode_utf8("HTTP "@ + status_line(status)->Some_0).len() <= 240 ==> safe_error(
            status,
            errors,
        ) == "HTTP "@ + status_line(status)->Some_0,
{
}

/// The session of a completed poll ends when its lease does: after as many
/// seconds as the server gave, or never within the range of the clock.
pub proof fn law_sessions_last_as_long_as_their_lease<T>(
    reply: Reply<T>,
    identity_claim: Seq<char>,
    now: u64,
)
    requires
        200 <= reply.status <= 299,
        reply.parsed is Some,
        reply.parsed->Some_0.auth is Some,
    ensures
        poll_outcome(reply, identity_claim, now) matches Ok(PollView::Complete(session)) && {
            let lease = reply.parsed->Some_0.auth->Some_0.lease_duration;
            &&& now + lease <= u64::MAX ==> session.expires_at - now == lease
            &&& now + lease > u64::MAX ==> session.expires_at == u64::MAX
        },
{
}

/// A longer lease never gives an earlier end, nor the same one, as long as both
/// ends fit the clock; and a later login with the same lease ends later.
pub proof fn law_longer_leases_end_later(
    short: AuthData,
    long: AuthData,
    identity_claim: Seq<char>,
    now: u64,
    later: u64,
)
    requires
        short.lease_duration < long.lease_duration,
        now < later,
        later + long.lease_duration <= u64::MAX,
    ensures
        session_in(short, identity_claim, now).expires_at < session_in(
            long,
            identity_claim,
            now,
        ).expires_at,
        session_in(long, identity_claim, now).expires_at < session_in(
            long,
            identity_claim,
            later,
        ).expires_at,
{
}

/// A session is for the token and the claims that the server gave, and under
/// the name that the claim gives, or else the server, or else a common noun.
pub proof fn law_sessions_are_what_the_server_gave<T>(
    reply: Reply<T>,
    identity_claim: Seq<char>,
    now: u64,
)
    ensures
        poll_outcome(reply, identity_claim, now) matches Ok(PollView::Complete(session)) ==> {
            &&& 200 <= reply.status <= 299
            &&& reply.parsed matches Some(envelope)
            &&& envelope.auth matches Some(auth)
            &&& session.token == auth.client_token@
            &&& session.renewable == auth.renewable
            &&& session.metadata.dom() == auth.metadata@.dom()
            &&& forall|claim: Seq<char>| #[trigger]
                session.metadata.dom().contains(claim) ==> session.metadata[claim]
                    == auth.metadata@[claim]@
            &&& auth.metadata@.dom().contains(identity_claim) ==> session.identity
                == auth.metadata@[identity_claim]@
            &&& !auth.metadata@.dom().contains(identity_claim) && auth.display_name is Some
                ==> session.identity == auth.display_name->Some_0@
            &&& !auth.metadata@.dom().contains(identity_claim) && auth.display_name is None
                ==> session.identity == "OpenBao user"@
        },
        poll_outcome(reply, identity_claim, now) is Ok && 200 <= reply.status <= 299 ==> (
        poll_outcome(reply, identity_claim, now)->Ok_0 is Complete),
{
}

/// A poll that is refused waits exactly where one of the messages ends in one
/// of the two words that ask for patience, and the plain one comes first.
pub proof fn law_polls_wait_when_told<T>(reply: Reply<T>, identity_claim: Seq<char>, now: u64)
    requires
        !(200 <= reply.status <= 299),
    ensures
        ({
            let errors = reply_errors(reply.body@);
            let pending = exists|i: int|
                0 <= i < errors.len() && crate::text::ends_with(
                    #[trigger] errors[i],
                    "authorization_pending"@,
                );
            let slow = exists|i: int|
                0 <= i < errors.len() && crate::text::ends_with(
                    #[trigger] errors[i],
                    "slow_down"@,
                );
            &&& pending ==> poll_outcome(reply, identity_claim, now) == Ok::<PollView, ErrorView>(
                PollView::Pending,
            )
            &&& !pending && slow ==> poll_outcome(reply, identity_claim, now) == Ok::<
                PollView,
                ErrorView,
            >(PollView::SlowDown)
            &&& !pending && !slow ==> poll_outcome(reply, identity_claim, now) == Err::<
                PollView,
                ErrorView,
            >(ErrorView::Api(safe_error(reply.status, errors)))
        }),
{
}

/// A challenge is taken over as the server gave it: its address and state, the
/// nonce that was sent, and the number of seconds that its interval denotes. It
/// is taken exactly where it is complete, safe and denotes a wait.
pub proof fn law_challenges_are_what_the_server_gave(
    server: OpenBaoView,
    reply: Reply<AuthUrlData>,
    client_nonce: Seq<char>,
)
    ensures
        challenge_outcome(server, reply, client_nonce) is Ok <==> {
            &&& 200 <= reply.status <= 299
            &&& reply.parsed matches Some(envelope)
            &&& envelope.data matches Some(data)
            &&& data.auth_url@.len() > 0 && data.state@.len() > 0
            &&& parsed_url(data.auth_url@) matches Some(url)
            &&& url.scheme == "https"@ && url.username.len() == 0 && url.password is None
            &&& crate::text::parsed_u64(data.poll_interval@) matches Some(n)
            &&& n > 0
        },
        challenge_outcome(server, reply, client_nonce) matches Ok(challenge) ==> {
            let data = reply.parsed->Some_0.data->Some_0;
            &&& challenge.auth_url == parsed_url(data.auth_url@)->Some_0.text
            &&& challenge.state == data.state@
            &&& challenge.client_nonce == client_nonce
            &&& Some(challenge.poll_interval_seconds) == crate::text::parsed_u64(
                data.poll_interval@,
            )
        },
{
}

/// A certificate in plain text is taken as it is, exactly where it came with
/// success, says that it holds one and is no longer than 256 KiB.
pub proof fn law_plain_certificates_are_taken_as_they_are(status: u16, body: Seq<char>)
    ensures
        pem_outcome(status, body) is Ok <==> 200 <= status <= 299 && contains(
            body,
            "BEGIN CERTIFICATE"@,
        ) && encode_utf8(body).len() <= 256 * 1024,
        pem_outcome(status, body) matches Ok(text) ==> text == body,
{
}

/// A renewal gives the lease and the flag that the server sent, and a signature
/// the certificate that it sent, exactly where the reply counts and has them.
pub proof fn law_replies_hand_on_what_they_hold<T>(
    renewal: Reply<T>,
    signature: Reply<PkiSignData>,
)
    ensures
        renewal_outcome(renewal) is Ok <==> 200 <= renewal.status <= 299 && renewal.parsed is Some
            && renewal.parsed->Some_0.auth is Some,
        renewal_outcome(renewal) matches Ok(lease) ==> lease.0
            == renewal.parsed->Some_0.auth->Some_0.lease_duration && lease.1
            == renewal.parsed->Some_0.auth->Some_0.renewable,
        signing_outcome(signature) is Ok <==> 200 <= signature.status <= 299
            && signature.parsed is Some && signature.parsed->Some_0.data is Some,
        signing_outcome(signature) matches Ok(signed) ==> {
            let data = signature.parsed->Some_0.data->Some_0;
            &&& signed.certificate == data.certificate@
            &&& signed.ca_chain == view_all(data.ca_chain@)
            &&& signed.issuing_ca == data.issuing_ca@
        },
{
}

/// A server is new enough exactly where it does not say how new it is, or both
/// versions can be read and its own is not the older one; a leading `v` does not
/// count.
pub proof fn law_servers_must_be_new_enough(version: Seq<char>, minimum: Seq<char>)
    ensures
        version_outcome(None, minimum) is Ok,
        (version.len() == 0 || version[0] != 'v') && (minimum.len() == 0 || minimum[0] != 'v')
            ==> (version_outcome(Some(version), minimum) is Ok <==> parsed_version(version) is Some
            && parsed_version(minimum) is Some && version_precedes(version, minimum) != Some(true)),
        version_outcome(Some(seq!['v'] + version), minimum) == version_outcome(
            Some(version),
            minimum,
        ),
        version_outcome(Some(version), seq!['v'] + minimum) == version_outcome(
            Some(version),
            minimum,
        ),
{
    assert((seq!['v'] + version).drop_first() =~= version);
    assert((seq!['v'] + minimum).drop_first() =~= minimum);
}

/// A challenge that is refused says why: the first of these that holds.
pub proof fn law_refused_challenges_say_why(
    server: OpenBaoView,
    reply: Reply<AuthUrlData>,
    client_nonce: Seq<char>,
)
    ensures
        ({
            let outcome = challenge_outcome(server, reply, client_nonce);
            let data = reply.parsed->Some_0.data->Some_0;
            let url = parsed_url(data.auth_url@);
            let read = 200 <= reply.status <= 299 && reply.parsed is Some;
            let whole = read && reply.parsed->Some_0.data is Some && data.auth_url@.len() > 0
                && data.state@.len() > 0;
            &&& reply.status == 404 ==> outcome == Err::<ChallengeView, ErrorView>(
                ErrorView::Api(
                    "OIDC auth endpoint was not found at /v1/"@ + auth_url_path(server)
                        + "; verify the client's Auth mount setting matches the OpenBao auth method path"@,
                ),
            )
            &&& read && reply.parsed->Some_0.data is None ==> outcome == Err::<
                ChallengeView,
                ErrorView,
            >(
                ErrorView::Api(
                    "authorization URL was not returned; verify the OpenBao OIDC role and redirect URI"@,
                ),
            )
            &&& read && reply.parsed->Some_0.data is Some && (data.auth_url@.len() == 0
                || data.state@.len() == 0) ==> outcome == Err::<ChallengeView, ErrorView>(
                ErrorView::Api("OpenBao returned an incomplete OIDC challenge"@),
            )
            &&& whole && url is None ==> outcome == Err::<ChallengeView, ErrorView>(
                ErrorView::Api("OpenBao returned an invalid OIDC authorization URL"@),
            )
            &&& whole && url is Some && url->Some_0.scheme != "https"@ ==> outcome == Err::<
                ChallengeView,
                ErrorView,
            >(ErrorView::Api("OpenBao returned an unsafe OIDC authorization URL"@))
            &&& whole && url is Some && url->Some_0.scheme == "https"@
                && url->Some_0.username.len() == 0 && url->Some_0.password is None && outcome is Err
                ==> outcome == Err::<ChallengeView, ErrorView>(
                ErrorView::Api("OpenBao returned an invalid OIDC poll interval"@),
            )
        }),
{
}

/// A reply that counts but does not hold what was asked for says so.
pub proof fn law_empty_replies_say_what_is_missing<T>(
    reply: Reply<T>,
    signature: Reply<PkiSignData>,
    body: Seq<char>,
    identity_claim: Seq<char>,
    now: u64,
)
    requires
        200 <= reply.status <= 299,
        200 <= signature.status <= 299,
    ensures
        reply.parsed is None ==> decoded(reply) == Err::<Envelope<T>, ErrorView>(
            ErrorView::Api("OpenBao returned an invalid JSON response"@),
        ),
        reply.parsed is None ==> poll_outcome(reply, identity_claim, now) == Err::<
            PollView,
            ErrorView,
        >(ErrorView::Api("OpenBao returned an invalid authentication response"@)),
        reply.parsed is Some && reply.parsed->Some_0.auth is None ==> poll_outcome(
            reply,
            identity_claim,
            now,
        ) == Err::<PollView, ErrorView>(
            ErrorView::Api("OpenBao did not return an authentication token"@),
        ),
        reply.parsed is Some && reply.parsed->Some_0.auth is None ==> renewal_outcome(reply)
            == Err::<(u64, bool), ErrorView>(
            ErrorView::Api("OpenBao returned no renewed session"@),
        ),
        signature.parsed is Some && signature.parsed->Some_0.data is None ==> signing_outcome(
            signature,
        ) == Err::<SignedView, ErrorView>(
            ErrorView::Api("OpenBao returned no signed certificate"@),
        ),
        pem_outcome(reply.status, body) is Err ==> pem_outcome(reply.status, body)->Err_0
            == ErrorView::Api("OpenBao returned an invalid CA certificate"@),
{
}

/// A server that is too old is told from a version that cannot be read, and
/// both from a minimum that cannot be read.
pub proof fn law_refused_versions_say_why(
    actual: Seq<char>,
    required: Seq<char>,
    older: Option<bool>,
)
    ensures
        version_verdict(None, Some(required), older) == Err::<(), ErrorView>(
            ErrorView::Api("OpenBao reported an invalid server version"@),
        ),
        version_verdict(None, None, older) == Err::<(), ErrorView>(
            ErrorView::Api("OpenBao reported an invalid server version"@),
        ),
        version_verdict(Some(actual), None, older) == Err::<(), ErrorView>(
            ErrorView::Configuration("minimum_version is not valid semantic versioning"@),
        ),
        version_verdict(Some(actual), Some(required), Some(true)) == Err::<(), ErrorView>(
            ErrorView::Api(
                "OpenBao "@ + required + " or newer is required; server reported "@ + actual,
            ),
        ),
{
}

/// The server's messages in one line, without secrets, as they may be logged.
pub open spec fn logged_errors(body: Seq<char>) -> Seq<char> {
    redacted(join(reply_errors(body), "; "@))
}

/// The request goes to the path, by the method, with the token where there is
/// one and without a token header where there is none.
pub open spec fn goes_to(
    request: Result<RequestView, ErrorView>,
    server: OpenBaoView,
    method: Method,
    path: Seq<char>,
    token: Option<Seq<char>>,
) -> bool {
    request matches Ok(request) ==> {
        &&& request.method == method
        &&& api_address(server.address, path) == Ok::<Seq<char>, ErrorView>(request.url)
        &&& forall|value: Seq<char>| #[trigger]
            request.headers.contains(("X-Vault-Token"@, value)) <==> token == Some(value)
    }
}

/// Each request goes to its own path below the server's address: the ones for
/// the health and for a certificate read, the others post. The token goes with
/// all but the health and the login, and the members are the request's own.
pub proof fn law_each_request_goes_to_its_path(
    server: OpenBaoView,
    token: Seq<char>,
    path: Seq<char>,
    mount: Seq<char>,
    role: Seq<char>,
    members: Seq<(Seq<char>, MemberView)>,
    challenge: ChallengeView,
)
    ensures
        ({
            let health = api_call(server, ApiCall::Health);
            let asked = api_call(
                server,
                ApiCall::AuthUrl { redirect_uri: path, client_nonce: token },
            );
            let polled = api_call(server, ApiCall::Poll { challenge });
            let revoked = api_call(server, ApiCall::Revoke { token });
            let renewed = api_call(server, ApiCall::Renew { token });
            let read = api_call(server, ApiCall::ReadPem { token, path });
            let signed = api_call(server, ApiCall::Sign { token, mount, role, members });
            &&& goes_to(health, server, Method::Get, "sys/health"@, None)
            &&& goes_to(
                asked,
                server,
                Method::Post,
                "auth/"@ + server.auth_mount + "/oidc/auth_url"@,
                None,
            )
            &&& goes_to(
                polled,
                server,
                Method::Post,
                "auth/"@ + server.auth_mount + "/oidc/poll"@,
                None,
            )
            &&& goes_to(revoked, server, Method::Post, "auth/token/revoke-self"@, Some(token))
            &&& goes_to(renewed, server, Method::Post, "auth/token/renew-self"@, Some(token))
            &&& goes_to(read, server, Method::Get, path, Some(token))
            &&& goes_to(signed, server, Method::Post, mount + "/sign/"@ + role, Some(token))
            &&& signed matches Ok(request) ==> request.members == Some(members)
            &&& revoked matches Ok(request) ==> request.members
                == Some(Seq::<(Seq<char>, MemberView)>::empty())
            &&& renewed matches Ok(request) ==> request.members
                == Some(Seq::<(Seq<char>, MemberView)>::empty())
            &&& health matches Ok(request) ==> request.members is None
            &&& read matches Ok(request) ==> request.members is None
        }),
{
    reveal_strlit("X-Vault-Token");
    reveal_strlit("X-Vault-Namespace");
    assert("X-Vault-Token"@.len() != "X-Vault-Namespace"@.len());
    law_requests_carry_token_and_namespace(server, Method::Get, "sys/health"@, None, None);
    law_requests_carry_token_and_namespace(
        server,
        Method::Post,
        auth_url_path(server),
        None,
        Some(auth_url_members(server, path, token)),
    );
    law_requests_carry_token_and_namespace(
        server,
        Method::Post,
        poll_path(server),
        None,
        Some(poll_members(challenge)),
    );
    law_requests_carry_token_and_namespace(
        server,
        Method::Post,
        "auth/token/revoke-self"@,
        Some(token),
        Some(Seq::empty()),
    );
    law_requests_carry_token_and_namespace(
        server,
        Method::Post,
        "auth/token/renew-self"@,
        Some(token),
        Some(Seq::empty()),
    );
    law_requests_carry_token_and_namespace(server, Method::Get, path, Some(token), None);
    law_requests_carry_token_and_namespace(
        server,
        Method::Post,
        mount + "/sign/"@ + role,
        Some(token),
        Some(members),
    );
}

/// A token is revoked where the server says so, and nowhere else; what is logged
/// of a reply is its messages with a semicolon between them.
pub proof fn law_revocations_go_by_the_status(status: u16, body: Seq<char>, message: Seq<char>)
    ensures
        200 <= status <= 299 ==> revocation_outcome(status) is Ok,
        !(200 <= status <= 299) ==> revocation_outcome(status) == Err::<(), ErrorView>(
            ErrorView::Api("token revocation failed"@),
        ),
        reply_errors(body) == seq![message] ==> logged_errors(body) == redacted(message),
        forall|first: Seq<char>|
            reply_errors(body) == #[trigger] seq![first].push(message) ==> logged_errors(body)
                == redacted(first + "; "@ + message),
{
    crate::text::law_joining_separates(Seq::empty(), message, "; "@);
    assert(Seq::<Seq<char>>::empty().push(message) =~= seq![message]);
    assert forall|first: Seq<char>|
        reply_errors(body) == #[trigger] seq![first].push(message) implies logged_errors(body)
        == redacted(first + "; "@ + message) by {
        crate::text::law_joining_separates(Seq::empty(), first, "; "@);
        assert(Seq::<Seq<char>>::empty().push(first) =~= seq![first]);
        crate::text::law_joining_separates(seq![first], message, "; "@);
    }
}

} // verus!
