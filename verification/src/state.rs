//! The session, and what the client holds while it runs.

use tokio_util::sync::CancellationToken;
use vstd::hash_map::StringHashMap;
use vstd::prelude::*;

use crate::config::{
    own_settings, view_profiles, CertificateProfile, DeploymentConfig, DeploymentView,
    IdentityConfig, IdentityView, ProfileView, RootConfig, RootView, ServerSettings, SettingsView,
};
use crate::error::{configuration_error, outcome, view_outcome, AppError, AppResult, ErrorView};
use crate::secret::Secret;
use crate::text::{blank, concat5, is_blank, text_eq, view_pairs};

verus! {

// ---------------------------------------------------------------------------
// Data
// ---------------------------------------------------------------------------

/// A signed-in user: the token, who it stands for, and until when.
pub struct Session {
    pub token: Secret,
    pub identity: String,
    pub metadata: StringHashMap<String>,
    pub expires_at: u64,
    pub renewable: bool,
}

#[verifier::ext_equal]
pub struct SessionView {
    pub token: Seq<char>,
    pub identity: Seq<char>,
    pub metadata: Map<Seq<char>, Seq<char>>,
    pub expires_at: u64,
    pub renewable: bool,
}

pub open spec fn view_metadata(metadata: Map<Seq<char>, String>) -> Map<Seq<char>, Seq<char>> {
    metadata.map_values(|value: String| value@)
}

/// The claims that the pairs list; where a name comes twice, the later value
/// counts.
pub open spec fn listed_metadata(pairs: Seq<(Seq<char>, Seq<char>)>) -> Map<Seq<char>, Seq<char>>
    decreases pairs.len(),
{
    if pairs.len() == 0 {
        Map::empty()
    } else {
        listed_metadata(pairs.drop_last()).insert(pairs.last().0, pairs.last().1)
    }
}

/// The claims that the pairs list.
pub fn metadata_from(pairs: &[(String, String)]) -> (r: StringHashMap<String>)
    ensures
        view_metadata(r@) == listed_metadata(view_pairs(pairs@)),
{
    let ghost all = view_pairs(pairs@);
    let mut r: StringHashMap<String> = StringHashMap::new();
    let mut i: usize = 0;
    assert(view_metadata(r@) =~= listed_metadata(all.take(0)));
    while i < pairs.len()
        invariant
            0 <= i <= pairs@.len(),
            all == view_pairs(pairs@),
            view_metadata(r@) == listed_metadata(all.take(i as int)),
        decreases pairs@.len() - i,
    {
        let ghost before = r@;
        r.insert(pairs[i].0.clone(), pairs[i].1.clone());
        proof {
            assert(all.take(i + 1).drop_last() =~= all.take(i as int));
            assert(all.take(i + 1).last() == all[i as int]);
            assert(view_metadata(r@) =~= view_metadata(before).insert(
                all[i as int].0,
                all[i as int].1,
            ));
        }
        i += 1;
    }
    assert(all.take(i as int) =~= all);
    r
}

impl View for Session {
    type V = SessionView;

    open spec fn view(&self) -> SessionView {
        SessionView {
            token: self.token@,
            identity: self.identity@,
            metadata: view_metadata(self.metadata@),
            expires_at: self.expires_at,
            renewable: self.renewable,
        }
    }
}

/// What the user interface may see of a session.
#[derive(Debug)]
pub struct PublicSession {
    pub identity: String,
    pub expires_at: u64,
    pub renewable: bool,
}

#[verifier::ext_equal]
pub struct PublicView {
    pub identity: Seq<char>,
    pub expires_at: u64,
    pub renewable: bool,
}

impl View for PublicSession {
    type V = PublicView;

    open spec fn view(&self) -> PublicView {
        PublicView {
            identity: self.identity@,
            expires_at: self.expires_at,
            renewable: self.renewable,
        }
    }
}

impl SessionView {
    pub open spec fn public(self) -> PublicView {
        PublicView {
            identity: self.identity,
            expires_at: self.expires_at,
            renewable: self.renewable,
        }
    }
}

impl Clone for PublicSession {
    fn clone(&self) -> (r: PublicSession)
        ensures
            r == *self,
    {
        PublicSession {
            identity: self.identity.clone(),
            expires_at: self.expires_at,
            renewable: self.renewable,
        }
    }
}

impl From<&Session> for PublicSession {
    fn from(value: &Session) -> (r: PublicSession) {
        PublicSession {
            identity: value.identity.clone(),
            expires_at: value.expires_at,
            renewable: value.renewable,
        }
    }
}

impl vstd::std_specs::convert::FromSpecImpl<&Session> for PublicSession {
    open spec fn obeys_from_spec() -> bool {
        true
    }

    open spec fn from_spec(value: &Session) -> PublicSession {
        PublicSession {
            identity: value.identity,
            expires_at: value.expires_at,
            renewable: value.renewable,
        }
    }
}

/// What changes while the client runs.
pub struct RuntimeState {
    pub session: Option<Session>,
    pub login_cancel: Option<CancellationToken>,
    pub pending_root: Option<RootConfig>,
}

#[verifier::ext_equal]
pub struct RuntimeView {
    pub session: Option<SessionView>,
    pub login_cancel: Option<CancellationToken>,
    pub pending_root: Option<RootView>,
}

pub open spec fn view_session(session: Option<Session>) -> Option<SessionView> {
    match session {
        Some(session) => Some(session@),
        None => None,
    }
}

pub open spec fn view_root(root: Option<RootConfig>) -> Option<RootView> {
    match root {
        Some(root) => Some(root@),
        None => None,
    }
}

impl View for RuntimeState {
    type V = RuntimeView;

    open spec fn view(&self) -> RuntimeView {
        RuntimeView {
            session: view_session(self.session),
            login_cancel: self.login_cancel,
            pending_root: view_root(self.pending_root),
        }
    }
}

impl RuntimeState {
    /// Signed out, with nothing under way.
    pub fn new() -> (r: RuntimeState)
        ensures
            r@ == (RuntimeView { session: None, login_cancel: None, pending_root: None }),
    {
        RuntimeState { session: None, login_cancel: None, pending_root: None }
    }
}

/// What the user interface shows of the client as a whole.
pub struct AppStatus {
    pub configured: bool,
    pub configuration_message: String,
    pub deployment_name: String,
    pub session: Option<PublicSession>,
    pub profiles: Vec<CertificateProfile>,
    pub server_settings: ServerSettings,
    pub server_override: bool,
}

#[verifier::ext_equal]
pub struct StatusView {
    pub configured: bool,
    pub configuration_message: Seq<char>,
    pub deployment_name: Seq<char>,
    pub session: Option<PublicView>,
    pub profiles: Seq<ProfileView>,
    pub server_settings: SettingsView,
    pub server_override: bool,
}

impl View for AppStatus {
    type V = StatusView;

    open spec fn view(&self) -> StatusView {
        StatusView {
            configured: self.configured,
            configuration_message: self.configuration_message@,
            deployment_name: self.deployment_name@,
            session: match self.session {
                Some(public) => Some(public@),
                None => None,
            },
            profiles: view_profiles(self.profiles@),
            server_settings: self.server_settings@,
            server_override: self.server_override,
        }
    }
}

/// What the user interface shows of the client as a whole: a session that has
/// run out is not shown.
pub open spec fn status_of(
    config: DeploymentView,
    runtime: RuntimeView,
    server_override: bool,
    now: u64,
) -> StatusView {
    StatusView {
        configured: config.configured,
        configuration_message: if config.configured {
            ""@
        } else {
            "This build has no embedded trust roots or certificate profiles. Configure deployment.json before distributing it; the server endpoint itself may be changed below."@
        },
        deployment_name: config.deployment_name,
        session: match live_runtime(runtime, now).session {
            Some(session) => Some(session.public()),
            None => None,
        },
        profiles: config.profiles,
        server_settings: own_settings(config.openbao),
        server_override,
    }
}

/// Shows the client as a whole; a session that has run out is dropped.
pub fn get_app_status(
    config: &DeploymentConfig,
    runtime: &mut RuntimeState,
    server_override: bool,
    now: u64,
) -> (r: AppStatus)
    ensures
        r@ == status_of(config@, old(runtime)@, server_override, now),
        final(runtime)@ == live_runtime(old(runtime)@, now),
{
    expire_session(runtime, now);
    let profiles: Vec<CertificateProfile> = config.profiles.clone();
    assert(view_profiles(profiles@) =~= view_profiles(config.profiles@));
    AppStatus {
        configured: config.configured,
        configuration_message: if config.configured {
            "".to_owned()
        } else {
            "This build has no embedded trust roots or certificate profiles. Configure deployment.json before distributing it; the server endpoint itself may be changed below.".to_owned()
        },
        deployment_name: config.deployment_name.clone(),
        session: match &runtime.session {
            Some(session) => Some(PublicSession::from(session)),
            None => None,
        },
        profiles,
        server_settings: ServerSettings::from(&config.openbao),
        server_override,
    }
}

// ---------------------------------------------------------------------------
// Time
// ---------------------------------------------------------------------------

/// `SystemTime::now`, in seconds since the Unix epoch: `None` where the clock
/// stands before it. The clock decides, so nothing is said of the number.
#[verifier::external_body]
fn clock_seconds() -> (r: Option<u64>) {
    let elapsed = std::time::SystemTime::now().duration_since(std::time::UNIX_EPOCH);
    elapsed.ok().map(|duration| duration.as_secs())
}

/// The seconds of the clock, or zero where it stands before the epoch.
pub fn seconds_or_zero(clock: Option<u64>) -> (r: u64)
    ensures
        r == (match clock {
            Some(seconds) => seconds,
            None => 0,
        }),
{
    match clock {
        Some(seconds) => seconds,
        None => 0,
    }
}

/// The seconds since the Unix epoch, as the machine's clock has them.
pub fn unix_now() -> (r: u64) {
    seconds_or_zero(clock_seconds())
}

/// The sum, or the largest number where it does not fit.
pub open spec fn saturated(a: u64, b: u64) -> u64 {
    if a + b > u64::MAX {
        u64::MAX
    } else {
        (a + b) as u64
    }
}

// ---------------------------------------------------------------------------
// Claims
// ---------------------------------------------------------------------------

impl Session {
    /// The value that the identity provider mapped to the claim.
    pub fn claim(&self, name: &str) -> (r: Option<String>)
        ensures
            match r {
                Some(value) => self@.metadata.dom().contains(name@) && self@.metadata[name@]
                    == value@,
                None => !self@.metadata.dom().contains(name@),
            },
    {
        match self.metadata.get(name) {
            Some(value) => Some(value.clone()),
            None => None,
        }
    }
}

/// The session carries the claim with a value that is not blank.
pub open spec fn has_claim(session: SessionView, claim: Seq<char>) -> bool {
    session.metadata.dom().contains(claim) && !is_blank(session.metadata[claim])
}

pub open spec fn claim_outcome(
    session: SessionView,
    claim: Seq<char>,
    purpose: Seq<char>,
) -> Result<(), ErrorView> {
    if has_claim(session, claim) {
        Ok(())
    } else {
        Err(
            ErrorView::Configuration(
                "OpenBao OIDC metadata is missing required "@ + purpose + " claim '"@ + claim
                    + "'"@,
            ),
        )
    }
}

pub fn require_mapped_claim(session: &Session, claim: &str, purpose: &str) -> (r: AppResult<()>)
    ensures
        outcome(r) == claim_outcome(session@, claim@, purpose@),
{
    if let Some(value) = session.claim(claim) {
        if !blank(value.as_str()) {
            return Ok(());
        }
    }
    Err(
        AppError::Configuration(
            concat5(
                "OpenBao OIDC metadata is missing required ",
                purpose,
                " claim '",
                claim,
                "'",
            ),
        ),
    )
}

/// A session fit for use: it carries both identity claims, and is shown under
/// the display claim.
pub open spec fn accepted_session(session: SessionView, identity: IdentityView) -> Result<
    SessionView,
    ErrorView,
> {
    match claim_outcome(session, identity.display_claim, "display identity"@) {
        Err(e) => Err(e),
        Ok(()) => match claim_outcome(session, identity.subject_claim, "immutable subject"@) {
            Err(e) => Err(e),
            Ok(()) => Ok(
                SessionView { identity: session.metadata[identity.display_claim], ..session },
            ),
        },
    }
}

/// Checks the identity claims of a session that was just issued.
pub fn accept_session(mut session: Session, identity: &IdentityConfig) -> (r: AppResult<Session>)
    ensures
        view_outcome(r) == accepted_session(session@, identity@),
{
    match require_mapped_claim(&session, identity.display_claim.as_str(), "display identity") {
        Ok(()) => {},
        Err(e) => return Err(e),
    }
    match require_mapped_claim(&session, identity.subject_claim.as_str(), "immutable subject") {
        Ok(()) => {},
        Err(e) => return Err(e),
    }
    match session.claim(identity.display_claim.as_str()) {
        Some(value) => {
            session.identity = value;
            Ok(session)
        },
        None => Err(AppError::Internal),
    }
}

/// No session is accepted without a display name and an immutable subject that
/// are not blank.
pub proof fn law_accepted_sessions_carry_identity(session: SessionView, identity: IdentityView)
    requires
        accepted_session(session, identity) is Ok,
    ensures
        has_claim(session, identity.display_claim),
        has_claim(session, identity.subject_claim),
        !is_blank(accepted_session(session, identity)->Ok_0.identity),
        accepted_session(session, identity)->Ok_0.token == session.token,
{
}

// ---------------------------------------------------------------------------
// Using the session
// ---------------------------------------------------------------------------

/// A session that has not run out.
pub open spec fn is_active(session: Option<SessionView>, now: u64) -> bool {
    session is Some && session->Some_0.expires_at > now
}

/// The state at the given time: a session that has run out is no longer there.
pub open spec fn live_runtime(runtime: RuntimeView, now: u64) -> RuntimeView {
    RuntimeView {
        session: if is_active(runtime.session, now) {
            runtime.session
        } else {
            None
        },
        ..runtime
    }
}

/// Drops a session that has run out.
pub fn expire_session(runtime: &mut RuntimeState, now: u64)
    ensures
        final(runtime)@ == live_runtime(old(runtime)@, now),
        is_active(old(runtime)@.session, now) ==> *final(runtime) == *old(runtime),
{
    let expired: bool = match &runtime.session {
        Some(session) => session.expires_at <= now,
        None => false,
    };
    if expired {
        runtime.session = None;
    }
}

/// Succeeds exactly while a session is active; a session that has run out is
/// dropped.
pub fn require_active_session(runtime: &mut RuntimeState, now: u64) -> (r: AppResult<()>)
    ensures
        outcome(r) == active_outcome(old(runtime)@, now),
        outcome(r) == (if is_active(old(runtime)@.session, now) {
            Ok::<(), ErrorView>(())
        } else {
            Err::<(), ErrorView>(ErrorView::NotAuthenticated)
        }),
        final(runtime)@ == live_runtime(old(runtime)@, now),
        is_active(old(runtime)@.session, now) ==> *final(runtime) == *old(runtime),
{
    expire_session(runtime, now);
    if runtime.session.is_none() {
        return Err(AppError::NotAuthenticated);
    }
    Ok(())
}

pub open spec fn editable_outcome(runtime: RuntimeView, now: u64) -> Result<(), ErrorView> {
    if is_active(runtime.session, now) || runtime.login_cancel is Some {
        Err(
            ErrorView::Configuration(
                "sign out or cancel authentication before changing server settings"@,
            ),
        )
    } else {
        Ok(())
    }
}

/// The server may be changed only while nobody is signed in or signing in; a
/// session that has run out is dropped.
pub fn ensure_server_settings_editable(runtime: &mut RuntimeState, now: u64) -> (r: AppResult<()>)
    ensures
        outcome(r) == editable_outcome(old(runtime)@, now),
        final(runtime)@ == live_runtime(old(runtime)@, now),
{
    expire_session(runtime, now);
    if runtime.session.is_some() || runtime.login_cancel.is_some() {
        Err(
            configuration_error(
                "sign out or cancel authentication before changing server settings",
            ),
        )
    } else {
        Ok(())
    }
}

/// A session ends with its lease: from then on it is not shown, it keeps
/// nobody from changing the server, and whoever looks again finds nothing of
/// it.
pub proof fn law_sessions_end_with_their_lease(
    config: DeploymentView,
    runtime: RuntimeView,
    server_override: bool,
    now: u64,
    later: u64,
)
    requires
        runtime.session matches Some(session) ==> session.expires_at <= now,
    ensures
        live_runtime(runtime, now).session is None,
        live_runtime(live_runtime(runtime, now), later) == live_runtime(runtime, now),
        status_of(config, runtime, server_override, now).session is None,
        runtime.login_cancel is None ==> editable_outcome(runtime, now) is Ok,
{
}

/// The session that is due for renewal: it can be renewed and has at most five
/// minutes left.
pub open spec fn is_due(session: SessionView, now: u64) -> bool {
    session.renewable && session.expires_at <= saturated(now, 300)
}

/// The token to renew and whom it belongs to, where the session is due.
pub fn renewal_candidate(runtime: &RuntimeState, now: u64) -> (r: Option<(Secret, String)>)
    ensures
        match r {
            Some(candidate) => runtime@.session matches Some(session) && is_due(session, now)
                && candidate.0@ == session.token && candidate.1@ == session.identity,
            None => runtime@.session is None || !is_due(runtime@.session->Some_0, now),
        },
        match r {
            Some(candidate) => renewal_offer(runtime@, now) == Some((candidate.0@, candidate.1@)),
            None => renewal_offer(runtime@, now) is None,
        },
{
    match &runtime.session {
        Some(session) => {
            if session.renewable && session.expires_at <= now.saturating_add(300) {
                Some((session.token.duplicate(), session.identity.clone()))
            } else {
                None
            }
        },
        None => None,
    }
}

/// The session after a renewal that was made for `identity`: one that belongs
/// to somebody else by now stays as it is.
pub open spec fn renewed_session(
    session: Option<SessionView>,
    identity: Seq<char>,
    now: u64,
    lease: u64,
    renewable: bool,
) -> Option<SessionView> {
    match session {
        Some(session) => if session.identity == identity {
            Some(SessionView { expires_at: saturated(now, lease), renewable, ..session })
        } else {
            Some(session)
        },
        None => None,
    }
}

pub fn apply_renewal(
    runtime: &mut RuntimeState,
    identity: &str,
    now: u64,
    lease: u64,
    renewable: bool,
)
    ensures
        final(runtime)@ == after_renewal(old(runtime)@, identity@, now, lease, renewable),
        final(runtime)@ == (RuntimeView {
            session: renewed_session(old(runtime)@.session, identity@, now, lease, renewable),
            ..old(runtime)@
        }),
{
    let held: Option<Session> = runtime.session.take();
    runtime.session = match held {
        Some(mut session) => {
            if text_eq(session.identity.as_str(), identity) {
                session.expires_at = now.saturating_add(lease);
                session.renewable = renewable;
            }
            Some(session)
        },
        None => None,
    };
}

/// A renewal keeps the token, the claims and the identity.
pub proof fn law_renewal_keeps_the_user(
    session: SessionView,
    identity: Seq<char>,
    now: u64,
    lease: u64,
    renewable: bool,
)
    ensures
        renewed_session(Some(session), identity, now, lease, renewable) matches Some(after)
            && after.token == session.token && after.metadata == session.metadata
            && after.identity == session.identity,
{
}

// ---------------------------------------------------------------------------
// What a session amounts to
// ---------------------------------------------------------------------------

/// A session is in use exactly until the moment it ends, and the state is
/// otherwise as it was.
pub proof fn law_sessions_are_in_use_until_they_end(runtime: RuntimeView, now: u64)
    ensures
        is_active(runtime.session, now) <==> runtime.session is Some && now
            < runtime.session->Some_0.expires_at,
        runtime.session is Some && now < runtime.session->Some_0.expires_at ==> live_runtime(
            runtime,
            now,
        ) == runtime,
        live_runtime(runtime, now).login_cancel == runtime.login_cancel,
        live_runtime(runtime, now).pending_root == runtime.pending_root,
{
}

/// Of the claims listed under a name the last one counts, and every name that
/// is listed counts.
pub proof fn law_the_last_claim_counts(
    pairs: Seq<(Seq<char>, Seq<char>)>,
    name: Seq<char>,
    value: Seq<char>,
    other: Seq<char>,
)
    ensures
        listed_metadata(pairs.push((name, value))).dom().contains(name),
        listed_metadata(pairs.push((name, value)))[name] == value,
        other != name ==> {
            &&& listed_metadata(pairs.push((name, value))).dom().contains(other)
                <==> listed_metadata(pairs).dom().contains(other)
            &&& listed_metadata(pairs.push((name, value)))[other] == listed_metadata(pairs)[other]
        },
        !listed_metadata(Seq::empty()).dom().contains(name),
{
    assert(pairs.push((name, value)).drop_last() =~= pairs);
    assert(pairs.push((name, value)).last() == (name, value));
}

/// A session is accepted exactly where both identity claims are there with more
/// than white space; it is then shown under the display claim, and is otherwise
/// as the server gave it.
pub proof fn law_sessions_are_accepted_by_their_claims(
    session: SessionView,
    identity: IdentityView,
)
    ensures
        ({
            let said = |claim: Seq<char>|
                session.metadata.dom().contains(claim) && exists|i: int|
                    0 <= i < session.metadata[claim].len() && !crate::text::is_whitespace(
                        #[trigger] session.metadata[claim][i],
                    );
            let outcome = accepted_session(session, identity);
            &&& outcome is Ok <==> said(identity.display_claim) && said(identity.subject_claim)
            &&& outcome matches Ok(accepted) ==> {
                &&& accepted.identity == session.metadata[identity.display_claim]
                &&& accepted.token == session.token
                &&& accepted.metadata == session.metadata
                &&& accepted.expires_at == session.expires_at
                &&& accepted.renewable == session.renewable
            }
            &&& outcome is Err ==> outcome->Err_0 is Configuration
        }),
{
}

/// A session is due for renewal exactly where it can be renewed and ends within
/// five minutes, or has ended.
pub proof fn law_renewals_are_due_in_the_last_five_minutes(session: SessionView, now: u64)
    ensures
        is_due(session, now) <==> session.renewable && session.expires_at <= now + 300,
{
}

/// A renewal lasts for the lease that was given, from the moment it is made, and
/// only for whom it was made.
pub proof fn law_renewals_last_for_their_lease(
    session: SessionView,
    identity: Seq<char>,
    now: u64,
    lease: u64,
    renewable: bool,
)
    ensures
        ({
            let after = renewed_session(Some(session), identity, now, lease, renewable);
            &&& session.identity == identity ==> {
                &&& after is Some
                &&& now + lease <= u64::MAX ==> after->Some_0.expires_at - now == lease
                &&& now + lease > u64::MAX ==> after->Some_0.expires_at == u64::MAX
                &&& after->Some_0.renewable == renewable
            }
            &&& session.identity != identity ==> after == Some(session)
        }),
        renewed_session(None, identity, now, lease, renewable) is None,
{
}

/// The status shows the deployment's own name, profiles and server, whether it
/// is configured, and of a session that is in use its name, end and
/// renewability.
pub proof fn law_the_status_is_that_of_the_client(
    config: DeploymentView,
    runtime: RuntimeView,
    server_override: bool,
    now: u64,
)
    ensures
        ({
            let status = status_of(config, runtime, server_override, now);
            &&& status.configured == config.configured
            &&& status.deployment_name == config.deployment_name
            &&& status.profiles == config.profiles
            &&& status.server_override == server_override
            &&& status.server_settings.address == config.openbao.address
            &&& status.server_settings.namespace == config.openbao.namespace
            &&& status.server_settings.auth_mount == config.openbao.auth_mount
            &&& status.server_settings.oidc_role == config.openbao.oidc_role
            &&& config.configured <==> status.configuration_message.len() == 0
            &&& status.session is Some <==> runtime.session is Some
                && runtime.session->Some_0.expires_at > now
            &&& status.session matches Some(public) ==> {
                &&& public.identity == runtime.session->Some_0.identity
                &&& public.expires_at == runtime.session->Some_0.expires_at
                &&& public.renewable == runtime.session->Some_0.renewable
            }
        }),
{
    reveal_strlit("");
    reveal_strlit("This build has no embedded trust roots or certificate profiles. Configure deployment.json before distributing it; the server endpoint itself may be changed below.");
}

/// Settings may be edited exactly while nobody is signed in or signing in.
pub proof fn law_settings_are_edited_while_nobody_is_there(runtime: RuntimeView, now: u64)
    ensures
        editable_outcome(runtime, now) is Ok <==> (runtime.session is None
            || runtime.session->Some_0.expires_at <= now) && runtime.login_cancel is None,
{
}

/// A session without a claim is refused for the first of the two that is
/// missing, which is named with what it is for; settings are refused while
/// somebody is there.
pub proof fn law_refused_sessions_say_why(
    session: SessionView,
    identity: IdentityView,
    runtime: RuntimeView,
    now: u64,
)
    ensures
        ({
            let shown = has_claim(session, identity.display_claim);
            let known = has_claim(session, identity.subject_claim);
            &&& !shown ==> accepted_session(session, identity) == Err::<SessionView, ErrorView>(
                ErrorView::Configuration(
                    "OpenBao OIDC metadata is missing required "@ + "display identity"@
                        + " claim '"@ + identity.display_claim + "'"@,
                ),
            )
            &&& shown && !known ==> accepted_session(session, identity) == Err::<
                SessionView,
                ErrorView,
            >(
                ErrorView::Configuration(
                    "OpenBao OIDC metadata is missing required "@ + "immutable subject"@
                        + " claim '"@ + identity.subject_claim + "'"@,
                ),
            )
        }),
        editable_outcome(runtime, now) is Err ==> editable_outcome(runtime, now)->Err_0
            == ErrorView::Configuration(
            "sign out or cancel authentication before changing server settings"@,
        ),
{
}

/// A request that needs a user is served while the session holds.
pub open spec fn active_outcome(runtime: RuntimeView, now: u64) -> Result<(), ErrorView> {
    if is_active(runtime.session, now) {
        Ok(())
    } else {
        Err(ErrorView::NotAuthenticated)
    }
}

/// The token to renew and whose it is, where a renewal is due.
pub open spec fn renewal_offer(runtime: RuntimeView, now: u64) -> Option<(Seq<char>, Seq<char>)> {
    match runtime.session {
        Some(session) => if is_due(session, now) {
            Some((session.token, session.identity))
        } else {
            None
        },
        None => None,
    }
}

/// The state once a renewal has come back.
pub open spec fn after_renewal(
    runtime: RuntimeView,
    identity: Seq<char>,
    now: u64,
    lease: u64,
    renewable: bool,
) -> RuntimeView {
    RuntimeView {
        session: renewed_session(runtime.session, identity, now, lease, renewable),
        ..runtime
    }
}

/// A user is there until the session's own end; the session's own token is
/// offered for renewal, with its own identity; and a renewal leaves a login and
/// a pending root alone.
pub proof fn law_users_are_there_until_the_session_ends(
    runtime: RuntimeView,
    identity: Seq<char>,
    now: u64,
    lease: u64,
    renewable: bool,
)
    ensures
        active_outcome(runtime, now) is Ok <==> runtime.session is Some
            && runtime.session->Some_0.expires_at > now,
        active_outcome(runtime, now) is Err ==> active_outcome(runtime, now)->Err_0
            == ErrorView::NotAuthenticated,
        renewal_offer(runtime, now) matches Some(offer) ==> runtime.session is Some && offer.0
            == runtime.session->Some_0.token && offer.1 == runtime.session->Some_0.identity,
        runtime.session is Some ==> (renewal_offer(runtime, now) is Some <==> is_due(
            runtime.session->Some_0,
            now,
        )),
        after_renewal(runtime, identity, now, lease, renewable).login_cancel
            == runtime.login_cancel,
        after_renewal(runtime, identity, now, lease, renewable).pending_root
            == runtime.pending_root,
        after_renewal(runtime, identity, now, lease, renewable).session == renewed_session(
            runtime.session,
            identity,
            now,
            lease,
            renewable,
        ),
{
}

/// What is shown of a session is whose it is, when it ends and whether it can be
/// renewed, as the session itself has them.
pub proof fn law_sessions_are_shown_as_they_are(session: SessionView)
    ensures
        session.public().identity == session.identity,
        session.public().expires_at == session.expires_at,
        session.public().renewable == session.renewable,
{
}

} // verus!
