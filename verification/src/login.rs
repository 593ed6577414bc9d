//! Signing in and out.
//!
//! A login asks the server how new it is, fetches an authorization URL, sends
//! the browser there and polls until the user has authorized it. The caller
//! does all that; [`Login`] says what comes next.

use tokio_util::sync::CancellationToken;
use vstd::prelude::*;

use crate::api::{
    check_version, version_outcome, ChallengeView, OidcChallenge, PollResult, PollView,
    ServerHealth,
};
use crate::certificates::{RootInfo, RootInfoView};
use crate::config::{api_address, callback_path, is_short_address, DeploymentConfig, DeploymentView};
use crate::error::{api_error, view_outcome, AppError, AppResult, ErrorView};
use crate::roots::{
    covers_roots, ensure_ready, law_every_root_must_be_installed, ready_outcome, view_inspected,
};
use crate::state::{
    accept_session, accepted_session, expire_session, has_claim, is_active, live_runtime,
    view_session, PublicSession, PublicView, RuntimeState, RuntimeView, Session, SessionView,
};
use crate::text::view_option;

verus! {

// ---------------------------------------------------------------------------
// The runtime state around a login
// ---------------------------------------------------------------------------

/// What a login finds: somebody is signed in already, or it has begun.
pub enum LoginStart {
    SignedIn(PublicSession),
    Started,
}

#[verifier::ext_equal]
pub enum LoginStartView {
    SignedIn(PublicView),
    Started,
}

impl View for LoginStart {
    type V = LoginStartView;

    open spec fn view(&self) -> LoginStartView {
        match self {
            LoginStart::SignedIn(public) => LoginStartView::SignedIn(public@),
            LoginStart::Started => LoginStartView::Started,
        }
    }
}

/// There is at most one login at a time, and none while somebody is signed in;
/// a session that has run out signs nobody in.
pub open spec fn login_start(runtime: RuntimeView, now: u64) -> Result<LoginStartView, ErrorView> {
    match live_runtime(runtime, now).session {
        Some(session) => Ok(LoginStartView::SignedIn(session.public())),
        None => if runtime.login_cancel is Some {
            Err(ErrorView::Api("authentication is already in progress"@))
        } else {
            Ok(LoginStartView::Started)
        },
    }
}

/// What a login finds on a client that is ready for one or not.
pub open spec fn login_begin(
    ready: Result<(), ErrorView>,
    runtime: RuntimeView,
    now: u64,
) -> Result<LoginStartView, ErrorView> {
    match ready {
        Err(e) => Err(e),
        Ok(()) => login_start(runtime, now),
    }
}

/// The state once a login was asked for: a login that begins can be cancelled,
/// and a session that has run out is dropped. On a client that is not ready
/// nothing changes.
pub open spec fn after_login_start(
    ready: Result<(), ErrorView>,
    runtime: RuntimeView,
    cancel: CancellationToken,
    now: u64,
) -> RuntimeView {
    if ready is Err {
        runtime
    } else if login_start(runtime, now) == Ok::<LoginStartView, ErrorView>(
        LoginStartView::Started,
    ) {
        RuntimeView { login_cancel: Some(cancel), ..live_runtime(runtime, now) }
    } else {
        live_runtime(runtime, now)
    }
}

/// Begins a login, unless the client is not ready for one, or somebody is
/// signed in or signing in.
pub fn begin_login(
    config: &DeploymentConfig,
    inspected: Vec<AppResult<RootInfo>>,
    runtime: &mut RuntimeState,
    cancel: CancellationToken,
    now: u64,
) -> (r: AppResult<LoginStart>)
    requires
        covers_roots(config@, view_inspected(inspected@)),
    ensures
        view_outcome(r) == login_begin(
            ready_outcome(config@, view_inspected(inspected@)),
            old(runtime)@,
            now,
        ),
        final(runtime)@ == after_login_start(
            ready_outcome(config@, view_inspected(inspected@)),
            old(runtime)@,
            cancel,
            now,
        ),
{
    match ensure_ready(config, inspected) {
        Ok(()) => {},
        Err(e) => return Err(e),
    }
    expire_session(runtime, now);
    if let Some(session) = &runtime.session {
        return Ok(LoginStart::SignedIn(PublicSession::from(session)));
    }
    if runtime.login_cancel.is_some() {
        return Err(api_error("authentication is already in progress"));
    }
    runtime.login_cancel = Some(cancel);
    Ok(LoginStart::Started)
}

pub open spec fn public_outcome(result: Result<SessionView, ErrorView>) -> Result<
    PublicView,
    ErrorView,
> {
    match result {
        Ok(session) => Ok(session.public()),
        Err(e) => Err(e),
    }
}

/// The state once a login has ended: a session that came of it is kept.
pub open spec fn after_login(
    runtime: RuntimeView,
    result: Result<SessionView, ErrorView>,
) -> RuntimeView {
    RuntimeView {
        session: match result {
            Ok(session) => Some(session),
            Err(_) => runtime.session,
        },
        login_cancel: None,
        ..runtime
    }
}

/// Ends a login: a session that came of it is kept.
pub fn finish_login(runtime: &mut RuntimeState, result: AppResult<Session>) -> (r: AppResult<
    PublicSession,
>)
    ensures
        view_outcome(r) == public_outcome(view_outcome(result)),
        final(runtime)@ == after_login(old(runtime)@, view_outcome(result)),
        final(runtime)@ == (RuntimeView {
            session: match view_outcome(result) {
                Ok(session) => Some(session),
                Err(_) => old(runtime)@.session,
            },
            login_cancel: None,
            ..old(runtime)@
        }),
{
    runtime.login_cancel = None;
    match result {
        Ok(session) => {
            let public: PublicSession = PublicSession::from(&session);
            runtime.session = Some(session);
            Ok(public)
        },
        Err(e) => Err(e),
    }
}

/// The state once a login was cancelled.
pub open spec fn after_cancel(runtime: RuntimeView) -> RuntimeView {
    RuntimeView { login_cancel: None, ..runtime }
}

/// The state once the user has left.
pub open spec fn after_logout(runtime: RuntimeView) -> RuntimeView {
    RuntimeView { session: None, login_cancel: None, ..runtime }
}

/// The state once the session was taken for its token to be revoked.
pub open spec fn after_exit(runtime: RuntimeView) -> RuntimeView {
    RuntimeView { session: None, ..runtime }
}

/// Takes the handle of a login that is under way, to cancel it.
pub fn cancel_login(runtime: &mut RuntimeState) -> (r: Option<CancellationToken>)
    ensures
        r == old(runtime)@.login_cancel,
        final(runtime)@ == after_cancel(old(runtime)@),
        final(runtime)@ == (RuntimeView { login_cancel: None, ..old(runtime)@ }),
{
    runtime.login_cancel.take()
}

/// Takes the handle of a login that is under way, to cancel it, and the
/// session, to revoke its token.
pub fn logout(runtime: &mut RuntimeState) -> (r: (Option<CancellationToken>, Option<Session>))
    ensures
        r.0 == old(runtime)@.login_cancel,
        view_session(r.1) == old(runtime)@.session,
        final(runtime)@ == after_logout(old(runtime)@),
        final(runtime)@ == (RuntimeView { session: None, login_cancel: None, ..old(runtime)@ }),
{
    let cancel: Option<CancellationToken> = runtime.login_cancel.take();
    let session: Option<Session> = runtime.session.take();
    (cancel, session)
}

/// Takes the session, to revoke its token before the client exits.
pub fn take_session(runtime: &mut RuntimeState) -> (r: Option<Session>)
    ensures
        view_session(r) == old(runtime)@.session,
        final(runtime)@ == after_exit(old(runtime)@),
        final(runtime)@ == (RuntimeView { session: None, ..old(runtime)@ }),
{
    runtime.session.take()
}

/// A second login cannot begin while one is under way or somebody is signed
/// in, and to ask for one changes nothing then but that a session that has run
/// out is dropped. Once a login began, asking for another is refused; without
/// one under way, the end of a session lets the next login begin.
pub proof fn law_one_login_at_a_time(
    runtime: RuntimeView,
    cancel: CancellationToken,
    other: CancellationToken,
    now: u64,
)
    ensures
        ({
            let after = after_login_start(Ok(()), runtime, cancel, now);
            &&& is_active(runtime.session, now) || runtime.login_cancel is Some ==> login_start(
                runtime,
                now,
            ) != Ok::<LoginStartView, ErrorView>(LoginStartView::Started) && after
                == live_runtime(runtime, now)
            &&& !is_active(runtime.session, now) ==> login_start(after, now) is Err
            &&& !is_active(runtime.session, now) && runtime.login_cancel is None ==> login_start(
                runtime,
                now,
            ) == Ok::<LoginStartView, ErrorView>(LoginStartView::Started)
            &&& after_login_start(Ok(()), after, other, now) == after
        }),
{
}

/// Nobody signs in before the deployment is configured and each of its roots
/// was found installed: the login is refused, and nothing changes.
pub proof fn law_nobody_signs_in_unready(
    config: DeploymentView,
    inspected: Seq<Result<RootInfoView, ErrorView>>,
    runtime: RuntimeView,
    cancel: CancellationToken,
    now: u64,
)
    requires
        covers_roots(config, inspected),
        !config.configured || exists|i: int|
            0 <= i < inspected.len() && !(#[trigger] inspected[i] matches Ok(info)
                && info.installed),
    ensures
        login_begin(ready_outcome(config, inspected), runtime, now) is Err,
        after_login_start(ready_outcome(config, inspected), runtime, cancel, now) == runtime,
{
    law_every_root_must_be_installed(inspected);
}

// ---------------------------------------------------------------------------
// The login itself
// ---------------------------------------------------------------------------

/// The seconds after which a login that was not authorized is given up.
pub const LOGIN_SECONDS: u64 = 300;

/// What a login waits for.
pub enum LoginStage {
    Health,
    Challenge,
    Browser(OidcChallenge),
    Polling(OidcChallenge, u64),
    Finished,
}

#[verifier::ext_equal]
pub enum LoginStageView {
    Health,
    Challenge,
    Browser(ChallengeView),
    Polling(ChallengeView, u64),
    Finished,
}

impl View for LoginStage {
    type V = LoginStageView;

    open spec fn view(&self) -> LoginStageView {
        match self {
            LoginStage::Health => LoginStageView::Health,
            LoginStage::Challenge => LoginStageView::Challenge,
            LoginStage::Browser(challenge) => LoginStageView::Browser(challenge@),
            LoginStage::Polling(challenge, interval) => LoginStageView::Polling(
                challenge@,
                *interval,
            ),
            LoginStage::Finished => LoginStageView::Finished,
        }
    }
}

/// What happened.
pub enum LoginEvent {
    Health(AppResult<ServerHealth>),
    Challenge(AppResult<OidcChallenge>),
    Opened(bool),
    Cancelled,
    Deadline,
    Waited,
    Polled(AppResult<PollResult>),
}

#[verifier::ext_equal]
pub enum LoginEventView {
    Health(Result<Option<Seq<char>>, ErrorView>),
    Challenge(Result<ChallengeView, ErrorView>),
    Opened(bool),
    Cancelled,
    Deadline,
    Waited,
    Polled(Result<PollView, ErrorView>),
}

impl View for LoginEvent {
    type V = LoginEventView;

    open spec fn view(&self) -> LoginEventView {
        match self {
            LoginEvent::Health(health) => LoginEventView::Health(
                match health {
                    Ok(health) => Ok(view_option(health.version)),
                    Err(e) => Err(e@),
                },
            ),
            LoginEvent::Challenge(challenge) => LoginEventView::Challenge(view_outcome(*challenge)),
            LoginEvent::Opened(opened) => LoginEventView::Opened(*opened),
            LoginEvent::Cancelled => LoginEventView::Cancelled,
            LoginEvent::Deadline => LoginEventView::Deadline,
            LoginEvent::Waited => LoginEventView::Waited,
            LoginEvent::Polled(result) => LoginEventView::Polled(view_outcome(*result)),
        }
    }
}

/// What the caller is to do next: `RequestChallenge` names the address that
/// the browser comes back to, `Wait` the seconds before the next poll.
pub enum LoginAction {
    GetHealth,
    RequestChallenge(String),
    OpenBrowser(String),
    Wait(u64),
    Poll,
    Done(AppResult<Session>),
}

#[verifier::ext_equal]
pub enum LoginActionView {
    GetHealth,
    RequestChallenge(Seq<char>),
    OpenBrowser(Seq<char>),
    Wait(u64),
    Poll,
    Done(Result<SessionView, ErrorView>),
}

impl View for LoginAction {
    type V = LoginActionView;

    open spec fn view(&self) -> LoginActionView {
        match self {
            LoginAction::GetHealth => LoginActionView::GetHealth,
            LoginAction::RequestChallenge(uri) => LoginActionView::RequestChallenge(uri@),
            LoginAction::OpenBrowser(url) => LoginActionView::OpenBrowser(url@),
            LoginAction::Wait(seconds) => LoginActionView::Wait(*seconds),
            LoginAction::Poll => LoginActionView::Poll,
            LoginAction::Done(result) => LoginActionView::Done(view_outcome(*result)),
        }
    }
}

/// Twice the number, or the largest one where that does not fit.
pub open spec fn doubled(n: u64) -> u64 {
    if 2 * n > u64::MAX {
        u64::MAX
    } else {
        (2 * n) as u64
    }
}

pub type LoginStep = (LoginStageView, LoginActionView);

pub open spec fn login_fail(error: ErrorView) -> LoginStep {
    (LoginStageView::Finished, LoginActionView::Done(Err(error)))
}

/// One step of a login.
pub open spec fn login_step(
    config: DeploymentView,
    stage: LoginStageView,
    event: LoginEventView,
) -> LoginStep {
    match (stage, event) {
        (LoginStageView::Health, LoginEventView::Health(health)) => match health {
            Err(e) => login_fail(e),
            Ok(version) => match version_outcome(version, config.openbao.minimum_version) {
                Err(e) => login_fail(e),
                Ok(()) => match api_address(
                    config.openbao.address,
                    callback_path(config.openbao.auth_mount),
                ) {
                    Err(e) => login_fail(e),
                    Ok(uri) => (
                        LoginStageView::Challenge,
                        LoginActionView::RequestChallenge(uri),
                    ),
                },
            },
        },
        (LoginStageView::Challenge, LoginEventView::Challenge(challenge)) => match challenge {
            Err(e) => login_fail(e),
            Ok(challenge) => (
                LoginStageView::Browser(challenge),
                LoginActionView::OpenBrowser(challenge.auth_url),
            ),
        },
        (LoginStageView::Browser(challenge), LoginEventView::Opened(opened)) => if opened {
            (
                LoginStageView::Polling(challenge, challenge.poll_interval_seconds),
                LoginActionView::Wait(challenge.poll_interval_seconds),
            )
        } else {
            login_fail(ErrorView::Api("the system browser could not be opened"@))
        },
        (LoginStageView::Polling(_, _), LoginEventView::Cancelled) => login_fail(
            ErrorView::Cancelled,
        ),
        (LoginStageView::Polling(_, _), LoginEventView::Deadline) => login_fail(
            ErrorView::Timeout,
        ),
        (LoginStageView::Polling(challenge, interval), LoginEventView::Waited) => (
            LoginStageView::Polling(challenge, interval),
            LoginActionView::Poll,
        ),
        (LoginStageView::Polling(challenge, interval), LoginEventView::Polled(result)) => match result {
            Err(e) => login_fail(e),
            Ok(PollView::Pending) => (
                LoginStageView::Polling(challenge, interval),
                LoginActionView::Wait(interval),
            ),
            Ok(PollView::SlowDown) => (
                LoginStageView::Polling(challenge, doubled(interval)),
                LoginActionView::Wait(doubled(interval)),
            ),
            Ok(PollView::Complete(session)) => (
                LoginStageView::Finished,
                LoginActionView::Done(accepted_session(session, config.identity)),
            ),
        },
        (_, _) => login_fail(ErrorView::Internal),
    }
}

/// A login that is under way.
pub struct Login {
    pub stage: LoginStage,
}

fn login_failed(error: AppError) -> (r: (LoginStage, LoginAction))
    ensures
        (r.0@, r.1@) == login_fail(error@),
{
    (LoginStage::Finished, LoginAction::Done(Err(error)))
}

fn twice(n: u64) -> (r: u64)
    ensures
        r == doubled(n),
{
    if n > u64::MAX / 2 {
        u64::MAX
    } else {
        2 * n
    }
}

impl Login {
    /// Begins a login; the first action is to ask for the server's health.
    pub fn begin() -> (r: Login)
        ensures
            r.stage@ == LoginStageView::Health,
    {
        Login { stage: LoginStage::Health }
    }

    /// The challenge that is polled for.
    pub fn challenge(&self) -> (r: Option<&OidcChallenge>)
        ensures
            match r {
                Some(challenge) => self.stage@ matches LoginStageView::Polling(held, _)
                    && challenge@ == held,
                None => !(self.stage@ is Polling),
            },
    {
        match &self.stage {
            LoginStage::Polling(challenge, _) => Some(challenge),
            _ => None,
        }
    }

    /// Takes what happened and says what the next action is.
    pub fn step(self, config: &DeploymentConfig, event: LoginEvent) -> (r: (Login, LoginAction))
        requires
            is_short_address(config@.openbao.address),
        ensures
            (r.0.stage@, r.1@) == login_step(config@, self.stage@, event@),
    {
        let (stage, action): (LoginStage, LoginAction) = match (self.stage, event) {
            (LoginStage::Health, LoginEvent::Health(health)) => match health {
                Err(e) => login_failed(e),
                Ok(health) => {
                    let gate: AppResult<()> = match &health.version {
                        Some(version) => check_version(
                            Some(version.as_str()),
                            config.openbao.minimum_version.as_str(),
                        ),
                        None => check_version(None, config.openbao.minimum_version.as_str()),
                    };
                    match gate {
                        Err(e) => login_failed(e),
                        Ok(()) => match config.oidc_callback_url() {
                            Err(e) => login_failed(e),
                            Ok(uri) => (LoginStage::Challenge, LoginAction::RequestChallenge(uri)),
                        },
                    }
                },
            },
            (LoginStage::Challenge, LoginEvent::Challenge(challenge)) => match challenge {
                Err(e) => login_failed(e),
                Ok(challenge) => {
                    let url: String = challenge.auth_url.clone();
                    (LoginStage::Browser(challenge), LoginAction::OpenBrowser(url))
                },
            },
            (LoginStage::Browser(challenge), LoginEvent::Opened(opened)) => if opened {
                let interval: u64 = challenge.poll_interval_seconds;
                (LoginStage::Polling(challenge, interval), LoginAction::Wait(interval))
            } else {
                login_failed(api_error("the system browser could not be opened"))
            },
            (LoginStage::Polling(_, _), LoginEvent::Cancelled) => login_failed(
                AppError::Cancelled,
            ),
            (LoginStage::Polling(_, _), LoginEvent::Deadline) => login_failed(AppError::Timeout),
            (LoginStage::Polling(challenge, interval), LoginEvent::Waited) => (
                LoginStage::Polling(challenge, interval),
                LoginAction::Poll,
            ),
            (LoginStage::Polling(challenge, interval), LoginEvent::Polled(result)) => match result {
                Err(e) => login_failed(e),
                Ok(PollResult::Pending) => (
                    LoginStage::Polling(challenge, interval),
                    LoginAction::Wait(interval),
                ),
                Ok(PollResult::SlowDown) => (
                    LoginStage::Polling(challenge, twice(interval)),
                    LoginAction::Wait(twice(interval)),
                ),
                Ok(PollResult::Complete(session)) => (
                    LoginStage::Finished,
                    LoginAction::Done(accept_session(session, &config.identity)),
                ),
            },
            (_, _) => login_failed(AppError::Internal),
        };
        (Login { stage }, action)
    }
}

// ---------------------------------------------------------------------------
// What holds of every login
// ---------------------------------------------------------------------------

/// The stage after the events, one after the other.
pub open spec fn login_run(config: DeploymentView, events: Seq<LoginEventView>) -> LoginStageView
    decreases events.len(),
{
    if events.len() == 0 {
        LoginStageView::Health
    } else {
        login_step(config, login_run(config, events.drop_last()), events.last()).0
    }
}

/// The waits are never shorter than the server asked for.
pub proof fn law_waits_honour_the_server(config: DeploymentView, events: Seq<LoginEventView>)
    ensures
        login_run(config, events) matches LoginStageView::Polling(challenge, interval)
            ==> interval >= challenge.poll_interval_seconds,
    decreases events.len(),
{
    if events.len() > 0 {
        law_waits_honour_the_server(config, events.drop_last());
    }
}

/// Being told to slow down never leads to a shorter wait, and to a longer one
/// as long as there is one.
pub proof fn law_slowing_down_waits_longer(
    config: DeploymentView,
    challenge: ChallengeView,
    interval: u64,
)
    ensures
        login_step(
            config,
            LoginStageView::Polling(challenge, interval),
            LoginEventView::Polled(Ok::<PollView, ErrorView>(PollView::SlowDown)),
        ).1 matches LoginActionView::Wait(next) && next >= interval && (0 < interval < u64::MAX
            ==> next > interval),
{
}

/// No authorization is asked for on a server that is too old.
pub proof fn law_old_servers_see_no_login(
    config: DeploymentView,
    stage: LoginStageView,
    event: LoginEventView,
)
    requires
        login_step(config, stage, event).1 is RequestChallenge,
    ensures
        event matches LoginEventView::Health(Ok(version)) && version_outcome(
            version,
            config.openbao.minimum_version,
        ) is Ok,
{
}

/// A login ends with a session only where the server completed it and both
/// identity claims are there and not blank.
pub proof fn law_sessions_carry_identity(
    config: DeploymentView,
    stage: LoginStageView,
    event: LoginEventView,
)
    requires
        login_step(config, stage, event).1 matches LoginActionView::Done(Ok(_)),
    ensures
        stage is Polling,
        event matches LoginEventView::Polled(Ok(PollView::Complete(session))) && has_claim(
            session,
            config.identity.display_claim,
        ) && has_claim(session, config.identity.subject_claim),
{
}

// ---------------------------------------------------------------------------
// What a login amounts to
// ---------------------------------------------------------------------------

/// A login in which all goes well checks the server's version, asks for a
/// challenge with the server's own callback, sends the browser to the address
/// that came back, waits as long as the server asked, and polls; with the
/// server's word it ends with the session that the word describes.
pub proof fn law_logins_that_go_well(
    config: DeploymentView,
    version: Option<Seq<char>>,
    challenge: ChallengeView,
    session: SessionView,
)
    requires
        version_outcome(version, config.openbao.minimum_version) is Ok,
        api_address(
            config.openbao.address,
            "auth/"@ + config.openbao.auth_mount + "/oidc/callback"@,
        ) is Ok,
    ensures
        ({
            let wait = challenge.poll_interval_seconds;
            let (s1, a1) = login_step(
                config,
                LoginStageView::Health,
                LoginEventView::Health(Ok(version)),
            );
            let (s2, a2) = login_step(config, s1, LoginEventView::Challenge(Ok(challenge)));
            let (s3, a3) = login_step(config, s2, LoginEventView::Opened(true));
            let (s4, a4) = login_step(config, s3, LoginEventView::Waited);
            let (s5, a5) = login_step(config, s4, LoginEventView::Polled(Ok(PollView::Pending)));
            let (s6, a6) = login_step(
                config,
                s5,
                LoginEventView::Polled(Ok(PollView::Complete(session))),
            );
            &&& a1 == LoginActionView::RequestChallenge(
                api_address(
                    config.openbao.address,
                    "auth/"@ + config.openbao.auth_mount + "/oidc/callback"@,
                )->Ok_0,
            )
            &&& a2 == LoginActionView::OpenBrowser(challenge.auth_url)
            &&& a3 == LoginActionView::Wait(wait)
            &&& a4 == LoginActionView::Poll
            &&& s4 == LoginStageView::Polling(challenge, wait)
            &&& a5 == LoginActionView::Wait(wait)
            &&& s5 == s4
            &&& a6 == LoginActionView::Done(accepted_session(session, config.identity))
        }),
{
}

/// Being told to slow down doubles the wait, or makes it the longest there is.
pub proof fn law_slowing_down_doubles_the_wait(
    config: DeploymentView,
    challenge: ChallengeView,
    wait: u64,
)
    ensures
        ({
            let (stage, action) = login_step(
                config,
                LoginStageView::Polling(challenge, wait),
                LoginEventView::Polled(Ok::<PollView, ErrorView>(PollView::SlowDown)),
            );
            &&& action matches LoginActionView::Wait(next)
            &&& wait + wait <= u64::MAX ==> next == wait + wait
            &&& wait + wait > u64::MAX ==> next == u64::MAX
            &&& stage == LoginStageView::Polling(challenge, next)
        }),
{
}

/// A login ends with the error that ended it: what the server or the browser
/// said, the user's own word, or the end of the time.
pub proof fn law_faults_end_the_login(
    config: DeploymentView,
    challenge: ChallengeView,
    wait: u64,
    error: ErrorView,
)
    ensures
        ({
            let fails = |stage: LoginStageView, event: LoginEventView, e: ErrorView|
                login_step(config, stage, event) == (
                    LoginStageView::Finished,
                    LoginActionView::Done(Err::<SessionView, ErrorView>(e)),
                );
            let polling = LoginStageView::Polling(challenge, wait);
            &&& fails(LoginStageView::Health, LoginEventView::Health(Err(error)), error)
            &&& fails(LoginStageView::Challenge, LoginEventView::Challenge(Err(error)), error)
            &&& fails(polling, LoginEventView::Polled(Err(error)), error)
            &&& fails(polling, LoginEventView::Cancelled, ErrorView::Cancelled)
            &&& fails(polling, LoginEventView::Deadline, ErrorView::Timeout)
            &&& fails(
                LoginStageView::Browser(challenge),
                LoginEventView::Opened(false),
                ErrorView::Api("the system browser could not be opened"@),
            )
        }),
{
}

/// Whoever is signed in is told so by name, end and renewability; whoever is
/// not begins to sign in, unless somebody else already does.
pub proof fn law_logins_find_who_is_there(runtime: RuntimeView, now: u64)
    ensures
        runtime.session is Some && runtime.session->Some_0.expires_at > now ==> {
            &&& login_start(runtime, now) matches Ok(LoginStartView::SignedIn(public))
            &&& public.identity == runtime.session->Some_0.identity
            &&& public.expires_at == runtime.session->Some_0.expires_at
            &&& public.renewable == runtime.session->Some_0.renewable
        },
        (runtime.session is None || runtime.session->Some_0.expires_at <= now)
            && runtime.login_cancel is None ==> login_start(runtime, now) == Ok::<
            LoginStartView,
            ErrorView,
        >(LoginStartView::Started),
        (runtime.session is None || runtime.session->Some_0.expires_at <= now)
            && runtime.login_cancel is Some ==> login_start(runtime, now) == Err::<
            LoginStartView,
            ErrorView,
        >(ErrorView::Api("authentication is already in progress"@)),
{
}

/// A login that ended well leaves its session, one that did not leaves whoever
/// was signed in; either way no login is under way. Logging out leaves nobody
/// signed in or signing in, and cancelling only ends the login.
pub proof fn law_logins_end_and_users_leave(
    runtime: RuntimeView,
    session: SessionView,
    error: ErrorView,
)
    ensures
        ({
            let after = after_login(runtime, Ok(session));
            after.session == Some(session) && after.login_cancel is None && after.pending_root
                == runtime.pending_root
        }),
        ({
            let after = after_login(runtime, Err(error));
            after.session == runtime.session && after.login_cancel is None && after.pending_root
                == runtime.pending_root
        }),
        ({
            let after = after_cancel(runtime);
            after.session == runtime.session && after.login_cancel is None && after.pending_root
                == runtime.pending_root
        }),
        ({
            let after = after_logout(runtime);
            after.session is None && after.login_cancel is None && after.pending_root
                == runtime.pending_root
        }),
        ({
            let after = after_exit(runtime);
            after.session is None && after.login_cancel == runtime.login_cancel
                && after.pending_root == runtime.pending_root
        }),
        public_outcome(Ok::<SessionView, ErrorView>(session)) matches Ok(public) && public.identity
            == session.identity && public.expires_at == session.expires_at && public.renewable
            == session.renewable,
        public_outcome(Err::<SessionView, ErrorView>(error)) == Err::<PublicView, ErrorView>(error),
{
}

} // verus!
