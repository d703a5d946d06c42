use vstd::prelude::*;
use vstd::string::StrSliceExecFns;

verus! {

/// A (symbol, description) pair of the short-authentication-string
/// comparison set shown for human comparison.
pub type EmojiPair = (String, String);

/// Where a single verification flow stands, from creation or acceptance
/// through emoji comparison to a terminal state.
#[derive(Debug)]
pub enum VerificationPhase {
    /// The request was created or accepted; the peer has not engaged yet.
    WaitingForAccept,
    /// The short-authentication-string sub-protocol is running.
    SasStarted,
    /// Key exchange reached the comparison checkpoint; the emoji set is
    /// on display.
    ShowingEmoji(Vec<EmojiPair>),
    /// The user declared a match; awaiting the peer's confirmation.
    Confirming,
    /// Terminal: the device was verified.
    Done,
    /// Terminal: the flow was cancelled, with the reason given.
    Cancelled(String),
}

/// A snapshot of the active verification flow.
#[derive(Debug)]
pub struct VerificationInfo {
    pub flow_id: String,
    pub other_user_id: String,
    pub phase: VerificationPhase,
}

/// Whether cross-signing keys are all present on this account, as last
/// queried; never re-derived implicitly.
#[derive(Clone, Copy, PartialEq, Eq, Structural, Debug)]
pub enum CrossSigningStatus {
    Unknown,
    Verified,
    Unverified,
}

/// One observation delivered by the verification change-streams.
#[derive(Debug)]
pub enum VerificationStateUpdate {
    /// The peer accepted; the sub-protocol is starting.
    Accepted,
    /// Key exchange supplied the emoji comparison set.
    EmojiReady(Vec<EmojiPair>),
    Done,
    Cancelled(String),
}

/// A phase from which no transition leaves.
pub open spec fn spec_phase_terminal(p: VerificationPhase) -> bool {
    p is Done || p is Cancelled
}

/// How a stream update moves the phase forward. Terminal phases absorb
/// every update.
pub open spec fn spec_phase_step(
    p: VerificationPhase,
    u: VerificationStateUpdate,
) -> VerificationPhase {
    if spec_phase_terminal(p) {
        p
    } else {
        match u {
            VerificationStateUpdate::Accepted => VerificationPhase::SasStarted,
            VerificationStateUpdate::EmojiReady(e) => VerificationPhase::ShowingEmoji(e),
            VerificationStateUpdate::Done => VerificationPhase::Done,
            VerificationStateUpdate::Cancelled(r) => VerificationPhase::Cancelled(r),
        }
    }
}

/// From any phase, a cancellation update reaches `Cancelled`, and the
/// terminal phases have no outgoing transition.
pub proof fn lemma_phase_machine_shape(p: VerificationPhase, u: VerificationStateUpdate)
    ensures
        u matches VerificationStateUpdate::Cancelled(r) ==> spec_phase_step(p, u) == (
        if spec_phase_terminal(p) {
            p
        } else {
            VerificationPhase::Cancelled(r)
        }),
        spec_phase_terminal(p) ==> spec_phase_step(p, u) == p,
        spec_phase_terminal(spec_phase_step(p, VerificationStateUpdate::Done)),
        u matches VerificationStateUpdate::Cancelled(_) ==> spec_phase_terminal(
            spec_phase_step(p, u),
        ),
{
}

/// An incoming verification request remembered while it awaits the
/// user's decision.
#[derive(Debug)]
pub struct PendingVerification {
    pub flow_id: String,
    pub sender: String,
}

/// The controller's verification slot: at most one active session and at
/// most one remembered incoming request. Exactly one session may be
/// active at a time; a further incoming request overwrites the pending
/// slot, favouring the most recent sender, and is never auto-accepted.
#[derive(Debug)]
pub struct VerificationController {
    pub active: Option<VerificationInfo>,
    pub pending_incoming: Option<PendingVerification>,
    pub cross_signing_status: CrossSigningStatus,
}

impl Default for VerificationController {
    /// No session, no pending request, cross-signing status unknown.
    fn default() -> (r: VerificationController)
        ensures
            r.active is None,
            r.pending_incoming is None,
            r.cross_signing_status == CrossSigningStatus::Unknown,
    {
        VerificationController {
            active: None,
            pending_incoming: None,
            cross_signing_status: CrossSigningStatus::Unknown,
        }
    }
}

impl VerificationController {
    /// A request of ours was created (or an accepted incoming request
    /// came back under its flow id): it becomes the active session,
    /// waiting for the peer, and the pending slot is cleared.
    pub fn on_request_created(&mut self, flow_id: String, other_user_id: String)
        ensures
            final(self).active matches Some(info) && info.flow_id == flow_id
                && info.other_user_id == other_user_id
                && info.phase is WaitingForAccept,
            final(self).pending_incoming is None,
            final(self).cross_signing_status == old(self).cross_signing_status,
    {
        self.active = Some(
            VerificationInfo {
                flow_id,
                other_user_id,
                phase: VerificationPhase::WaitingForAccept,
            },
        );
        self.pending_incoming = None;
    }

    /// An incoming request arrived: it is remembered, overwriting any
    /// older pending request, and nothing is accepted on the user's
    /// behalf.
    pub fn on_incoming_request(&mut self, flow_id: String, sender: String)
        ensures
            final(self).pending_incoming matches Some(p) && p.flow_id == flow_id
                && p.sender == sender,
            final(self).active == old(self).active,
            final(self).cross_signing_status == old(self).cross_signing_status,
    {
        self.pending_incoming = Some(PendingVerification { flow_id, sender });
    }

    /// The user accepted the pending request: it is taken out of the
    /// slot and handed back so the transport can accept it; with no
    /// pending request this is a no-op.
    pub fn take_pending(&mut self) -> (r: Option<PendingVerification>)
        ensures
            r == old(self).pending_incoming,
            final(self).pending_incoming is None,
            final(self).active == old(self).active,
            final(self).cross_signing_status == old(self).cross_signing_status,
    {
        self.pending_incoming.take()
    }

    /// The user ignored the pending request.
    pub fn on_ignore(&mut self)
        ensures
            final(self).pending_incoming is None,
            final(self).active == old(self).active,
            final(self).cross_signing_status == old(self).cross_signing_status,
    {
        self.pending_incoming = None;
    }

    /// A change-stream update for the active session: its phase steps
    /// forward; terminal phases are never left. An update with no active
    /// session is a no-op.
    pub fn on_state_update(&mut self, update: VerificationStateUpdate)
        ensures
            final(self).active == spec_active_after_update(old(self).active, update),
            final(self).pending_incoming == old(self).pending_incoming,
            final(self).cross_signing_status == old(self).cross_signing_status,
    {
        match &mut self.active {
            Some(info) => {
                let terminal = match &info.phase {
                    VerificationPhase::Done => true,
                    VerificationPhase::Cancelled(_) => true,
                    _ => false,
                };
                if !terminal {
                    match update {
                        VerificationStateUpdate::Accepted => {
                            info.phase = VerificationPhase::SasStarted;
                        },
                        VerificationStateUpdate::EmojiReady(e) => {
                            info.phase = VerificationPhase::ShowingEmoji(e);
                        },
                        VerificationStateUpdate::Done => {
                            info.phase = VerificationPhase::Done;
                        },
                        VerificationStateUpdate::Cancelled(r) => {
                            info.phase = VerificationPhase::Cancelled(r);
                        },
                    }
                }
            },
            None => {},
        }
    }

    /// The user declared the emoji sets equal: the phase moves to
    /// `Confirming` and the flow id is handed back so the transport can
    /// confirm; in any other phase this is a no-op.
    pub fn on_confirm(&mut self) -> (r: Option<String>)
        ensures
            match old(self).active {
                Some(info) => if info.phase is ShowingEmoji {
                    &&& r matches Some(f) && f == info.flow_id
                    &&& final(self).active matches Some(info2) && info2.flow_id == info.flow_id
                        && info2.other_user_id == info.other_user_id
                        && info2.phase is Confirming
                } else {
                    r is None && final(self).active == old(self).active
                },
                None => r is None && final(self).active is None,
            },
            final(self).pending_incoming == old(self).pending_incoming,
            final(self).cross_signing_status == old(self).cross_signing_status,
    {
        match &mut self.active {
            Some(info) => {
                let showing = match &info.phase {
                    VerificationPhase::ShowingEmoji(_) => true,
                    _ => false,
                };
                if showing {
                    info.phase = VerificationPhase::Confirming;
                    Some(info.flow_id.clone())
                } else {
                    None
                }
            },
            None => None,
        }
    }

    /// The user declared a mismatch: the flow id is handed back so the
    /// transport can cancel the sub-session; the local phase is left for
    /// the resulting cancellation update to settle.
    pub fn on_mismatch(&self) -> (r: Option<String>)
        ensures
            match self.active {
                Some(info) => r matches Some(f) && f == info.flow_id,
                None => r is None,
            },
    {
        match &self.active {
            Some(info) => Some(info.flow_id.clone()),
            None => None,
        }
    }

    /// The user cancelled: the active session is cleared at once,
    /// without waiting for the cancellation round-trip, and the flow id
    /// is handed back so the transport can cancel both the sub-session
    /// and the request.
    pub fn on_cancel(&mut self) -> (r: Option<String>)
        ensures
            final(self).active is None,
            match old(self).active {
                Some(info) => r matches Some(f) && f == info.flow_id,
                None => r is None,
            },
            final(self).pending_incoming == old(self).pending_incoming,
            final(self).cross_signing_status == old(self).cross_signing_status,
    {
        match self.active.take() {
            Some(info) => Some(info.flow_id),
            None => None,
        }
    }

    /// Record the result of an explicit cross-signing status query.
    pub fn on_status_fetched(&mut self, status: CrossSigningStatus)
        ensures
            final(self).cross_signing_status == status,
            final(self).active == old(self).active,
            final(self).pending_incoming == old(self).pending_incoming,
    {
        self.cross_signing_status = status;
    }

    /// Tearing the session down clears everything.
    pub fn reset(&mut self)
        ensures
            final(self).active is None,
            final(self).pending_incoming is None,
            final(self).cross_signing_status == CrossSigningStatus::Unknown,
    {
        self.active = None;
        self.pending_incoming = None;
        self.cross_signing_status = CrossSigningStatus::Unknown;
    }
}

/// What a change-stream update leaves of the active session: an idle
/// slot stays idle, and an active session steps its phase forward.
pub open spec fn spec_active_after_update(
    active: Option<VerificationInfo>,
    u: VerificationStateUpdate,
) -> Option<VerificationInfo> {
    match active {
        None => None,
        Some(info) => Some(
            VerificationInfo { phase: spec_phase_step(info.phase, u), ..info },
        ),
    }
}

/// From the idle state no stream update creates a session: only the
/// creation or acceptance of a request does.
pub proof fn lemma_idle_absorbs_updates(u: VerificationStateUpdate)
    ensures
        spec_active_after_update(None, u) is None,
{
}

// ---- The two-level change-stream supervisor ----

/// One observation on the request-level change-stream, reduced to plain
/// values.
#[derive(Debug)]
pub enum RequestStreamEvent {
    /// The peer accepted the request.
    Ready,
    /// The request transitioned directly to a running short-auth-string
    /// sub-session.
    TransitionedSas,
    Done,
    Cancelled(String),
    /// Any other request state; the supervisor keeps waiting.
    Other,
}

/// The three-way outcome of asking the transport to start the
/// short-auth-string sub-protocol: a concrete sub-session, the peer
/// driving (so the request stream must be observed further), or a
/// failure.
#[derive(Debug)]
pub enum SasStartOutcome {
    Started,
    PeerDriven,
    Failed(String),
}

/// One observation on the sub-session's change-stream.
#[derive(Debug)]
pub enum SasStreamEvent {
    /// Key exchange reached the comparison checkpoint, with the emoji
    /// set when one was supplied.
    KeysExchanged(Option<Vec<EmojiPair>>),
    Done,
    Cancelled(String),
    Other,
}

/// Anything the supervisor can observe: an event of either stream, or
/// the outcome of a start request it previously asked for.
#[derive(Debug)]
pub enum SupervisorEvent {
    Request(RequestStreamEvent),
    SasStart(SasStartOutcome),
    Sas(SasStreamEvent),
}

/// Which stream the supervisor is consuming. It switches from the
/// request stream to the sub-session stream on a specific transition,
/// and stops at `Finished`.
#[derive(PartialEq, Eq, Structural, Clone, Copy, Debug)]
pub enum SupervisorState {
    /// Reading the request stream, waiting for the peer to accept.
    AwaitingReady,
    /// A start of the sub-protocol was requested; its outcome decides
    /// which stream to read next.
    StartingSas,
    /// Reading the sub-session stream.
    SasActive,
    /// Terminal: the flow ended and no further update is forwarded.
    Finished,
}

/// What one supervisor step yields: the next state, at most one update
/// to forward to the controller, and whether to ask the transport to
/// start the sub-protocol.
#[derive(Debug)]
pub struct SupervisorStep {
    pub state: SupervisorState,
    pub emit: Option<VerificationStateUpdate>,
    pub start_sas: bool,
}

/// The supervisor's transition function. Events of a stream that is not
/// being consumed are ignored; `Finished` absorbs everything.
pub open spec fn spec_supervisor_step(state: SupervisorState, event: SupervisorEvent) -> (
    SupervisorState,
    Option<VerificationStateUpdate>,
    bool,
) {
    match (state, event) {
        (SupervisorState::AwaitingReady, SupervisorEvent::Request(req)) => match req {
            RequestStreamEvent::Ready => (
                SupervisorState::StartingSas,
                Some(VerificationStateUpdate::Accepted),
                true,
            ),
            RequestStreamEvent::TransitionedSas => (
                SupervisorState::SasActive,
                Some(VerificationStateUpdate::Accepted),
                false,
            ),
            RequestStreamEvent::Done => (
                SupervisorState::Finished,
                Some(VerificationStateUpdate::Done),
                false,
            ),
            RequestStreamEvent::Cancelled(r) => (
                SupervisorState::Finished,
                Some(VerificationStateUpdate::Cancelled(r)),
                false,
            ),
            RequestStreamEvent::Other => (SupervisorState::AwaitingReady, None, false),
        },
        (SupervisorState::StartingSas, SupervisorEvent::SasStart(outcome)) => match outcome {
            SasStartOutcome::Started => (SupervisorState::SasActive, None, false),
            SasStartOutcome::PeerDriven => (SupervisorState::AwaitingReady, None, false),
            SasStartOutcome::Failed(r) => (
                SupervisorState::Finished,
                Some(VerificationStateUpdate::Cancelled(r)),
                false,
            ),
        },
        (SupervisorState::SasActive, SupervisorEvent::Sas(ev)) => match ev {
            SasStreamEvent::KeysExchanged(Some(emojis)) => (
                SupervisorState::SasActive,
                Some(VerificationStateUpdate::EmojiReady(emojis)),
                false,
            ),
            SasStreamEvent::KeysExchanged(None) => (SupervisorState::SasActive, None, false),
            SasStreamEvent::Done => (
                SupervisorState::Finished,
                Some(VerificationStateUpdate::Done),
                false,
            ),
            SasStreamEvent::Cancelled(r) => (
                SupervisorState::Finished,
                Some(VerificationStateUpdate::Cancelled(r)),
                false,
            ),
            SasStreamEvent::Other => (SupervisorState::SasActive, None, false),
        },
        (s, _) => (s, None, false),
    }
}

/// Drive the supervisor one observation forward.
pub fn supervisor_step(state: SupervisorState, event: SupervisorEvent) -> (r: SupervisorStep)
    ensures
        (r.state, r.emit, r.start_sas) == spec_supervisor_step(state, event),
{
    match (state, event) {
        (SupervisorState::AwaitingReady, SupervisorEvent::Request(req)) => match req {
            RequestStreamEvent::Ready => SupervisorStep {
                state: SupervisorState::StartingSas,
                emit: Some(VerificationStateUpdate::Accepted),
                start_sas: true,
            },
            RequestStreamEvent::TransitionedSas => SupervisorStep {
                state: SupervisorState::SasActive,
                emit: Some(VerificationStateUpdate::Accepted),
                start_sas: false,
            },
            RequestStreamEvent::Done => SupervisorStep {
                state: SupervisorState::Finished,
                emit: Some(VerificationStateUpdate::Done),
                start_sas: false,
            },
            RequestStreamEvent::Cancelled(r) => SupervisorStep {
                state: SupervisorState::Finished,
                emit: Some(VerificationStateUpdate::Cancelled(r)),
                start_sas: false,
            },
            RequestStreamEvent::Other => SupervisorStep {
                state: SupervisorState::AwaitingReady,
                emit: None,
                start_sas: false,
            },
        },
        (SupervisorState::StartingSas, SupervisorEvent::SasStart(outcome)) => match outcome {
            SasStartOutcome::Started => SupervisorStep {
                state: SupervisorState::SasActive,
                emit: None,
                start_sas: false,
            },
            SasStartOutcome::PeerDriven => SupervisorStep {
                state: SupervisorState::AwaitingReady,
                emit: None,
                start_sas: false,
            },
            SasStartOutcome::Failed(r) => SupervisorStep {
                state: SupervisorState::Finished,
                emit: Some(VerificationStateUpdate::Cancelled(r)),
                start_sas: false,
            },
        },
        (SupervisorState::SasActive, SupervisorEvent::Sas(ev)) => match ev {
            SasStreamEvent::KeysExchanged(Some(emojis)) => SupervisorStep {
                state: SupervisorState::SasActive,
                emit: Some(VerificationStateUpdate::EmojiReady(emojis)),
                start_sas: false,
            },
            SasStreamEvent::KeysExchanged(None) => SupervisorStep {
                state: SupervisorState::SasActive,
                emit: None,
                start_sas: false,
            },
            SasStreamEvent::Done => SupervisorStep {
                state: SupervisorState::Finished,
                emit: Some(VerificationStateUpdate::Done),
                start_sas: false,
            },
            SasStreamEvent::Cancelled(r) => SupervisorStep {
                state: SupervisorState::Finished,
                emit: Some(VerificationStateUpdate::Cancelled(r)),
                start_sas: false,
            },
            SasStreamEvent::Other => SupervisorStep {
                state: SupervisorState::SasActive,
                emit: None,
                start_sas: false,
            },
        },
        (s, _) => SupervisorStep { state: s, emit: None, start_sas: false },
    }
}

/// The terminal supervisor state absorbs every observation, and an
/// exchange that supplies no emoji set emits no update.
pub proof fn lemma_supervisor_shape(event: SupervisorEvent)
    ensures
        spec_supervisor_step(SupervisorState::Finished, event) == (
            SupervisorState::Finished,
            None::<VerificationStateUpdate>,
            false,
        ),
        spec_supervisor_step(
            SupervisorState::SasActive,
            SupervisorEvent::Sas(SasStreamEvent::KeysExchanged(None)),
        ) == (SupervisorState::SasActive, None::<VerificationStateUpdate>, false),
{
}

// ---- Cross-signing bootstrap ----

/// Outcome of one cross-signing bootstrap call, as the transport
/// reports it.
#[derive(Debug)]
pub enum BootstrapAttempt {
    /// The call succeeded, or nothing was needed.
    Success,
    /// The server demands user-interactive auth; the challenge's session
    /// id when it carries one, and the error rendered as text.
    UiaaRequired { session: Option<String>, message: String },
    /// Any other failure.
    Error(String),
}

/// The terminal outcome of the bootstrap flow.
#[derive(Debug)]
pub enum BootstrapOutcome {
    Bootstrapped,
    Failed(String),
}

/// The password-based auth payload for the single retry.
#[derive(Debug)]
pub struct PasswordAuth {
    /// The user identifier handed to the server: the local part of the
    /// user id when one can be cut out of it, the whole id otherwise.
    pub user: String,
    pub password: String,
    /// The session id of the user-interactive-auth challenge being
    /// answered.
    pub session: Option<String>,
}

/// What to do after the first attempt: stop with an outcome, or retry
/// exactly once with a password payload.
#[derive(Debug)]
pub enum BootstrapDecision {
    Done(BootstrapOutcome),
    Retry(PasswordAuth),
}

/// The user identifier used in the password auth payload: the text
/// before the first `:` with its leading `@` removed; when that text
/// does not start with `@`, the whole id is used unchanged.
pub open spec fn spec_uia_user(user_id: Seq<char>) -> Seq<char> {
    let first = match crate::strutil::spec_find_char(user_id, 0, ':') {
        Some(i) => user_id.take(i),
        None => user_id,
    };
    if first.len() > 0 && first[0] == '@' {
        first.drop_first()
    } else {
        user_id
    }
}

/// Cut the user-interactive-auth identifier out of a user id.
pub fn uia_user(user_id: &str) -> (r: String)
    ensures
        r@ == spec_uia_user(user_id@),
{
    let n = user_id.unicode_len();
    let end = match crate::strutil::find_char_from(user_id, 0, ':') {
        Some(i) => i,
        None => n,
    };
    proof {
        crate::strutil::lemma_find_char_bounds(user_id@, 0, ':');
    }
    if end > 0 && user_id.get_char(0) == '@' {
        proof {
            let first = if end < n {
                user_id@.take(end as int)
            } else {
                user_id@
            };
            assert(user_id@.subrange(1, end as int) =~= first.drop_first());
        }
        user_id.substring_char(1, end).to_owned()
    } else {
        proof {
            let first = if end < n {
                user_id@.take(end as int)
            } else {
                user_id@
            };
            if first.len() > 0 && first[0] == '@' {
                assert(user_id@[0] == '@');
            }
            assert(user_id@.subrange(0, n as int) =~= user_id@);
        }
        user_id.substring_char(0, n).to_owned()
    }
}

/// Decide what follows the first bootstrap attempt: success and plain
/// failures are terminal; a user-interactive-auth challenge is retried
/// exactly once with the password captured at login, and is terminal
/// when no password is in memory.
pub fn bootstrap_first_attempt(
    attempt: BootstrapAttempt,
    user_id: &str,
    password: Option<String>,
) -> (r: BootstrapDecision)
    ensures
        match attempt {
            BootstrapAttempt::Success => r == BootstrapDecision::Done(
                BootstrapOutcome::Bootstrapped,
            ),
            BootstrapAttempt::Error(m) => r matches BootstrapDecision::Done(
                BootstrapOutcome::Failed(m2),
            ) && m2 == m,
            BootstrapAttempt::UiaaRequired { session, .. } => match password {
                None => r matches BootstrapDecision::Done(BootstrapOutcome::Failed(m2))
                    && m2@ == "UIA required but no password in memory"@,
                Some(pw) => r matches BootstrapDecision::Retry(auth) && auth.user@
                    == spec_uia_user(user_id@) && auth.password == pw && auth.session == session,
            },
        },
{
    match attempt {
        BootstrapAttempt::Success => BootstrapDecision::Done(BootstrapOutcome::Bootstrapped),
        BootstrapAttempt::Error(m) => BootstrapDecision::Done(BootstrapOutcome::Failed(m)),
        BootstrapAttempt::UiaaRequired { session, .. } => match password {
            None => BootstrapDecision::Done(
                BootstrapOutcome::Failed("UIA required but no password in memory".to_owned()),
            ),
            Some(pw) => BootstrapDecision::Retry(
                PasswordAuth { user: uia_user(user_id), password: pw, session },
            ),
        },
    }
}

/// The retry's result is terminal whatever it is: a second
/// user-interactive-auth challenge is a failure, never another retry.
pub fn bootstrap_retry_result(attempt: BootstrapAttempt) -> (r: BootstrapOutcome)
    ensures
        match attempt {
            BootstrapAttempt::Success => r == BootstrapOutcome::Bootstrapped,
            BootstrapAttempt::Error(m) => r matches BootstrapOutcome::Failed(m2) && m2 == m,
            BootstrapAttempt::UiaaRequired { message, .. } => r matches BootstrapOutcome::Failed(
                m2,
            ) && m2 == message,
        },
{
    match attempt {
        BootstrapAttempt::Success => BootstrapOutcome::Bootstrapped,
        BootstrapAttempt::Error(m) => BootstrapOutcome::Failed(m),
        BootstrapAttempt::UiaaRequired { message, .. } => BootstrapOutcome::Failed(message),
    }
}

/// The cross-signing key flags the transport reports for this account.
#[derive(Clone, Copy, Debug)]
pub struct CrossSigningKeyFlags {
    pub has_master: bool,
    pub has_self_signing: bool,
    pub has_user_signing: bool,
}

/// Classify a cross-signing status query: all three keys present means
/// verified, any missing means unverified, and no answer means unknown.
pub fn classify_cross_signing(status: Option<CrossSigningKeyFlags>) -> (r: CrossSigningStatus)
    ensures
        match status {
            Some(f) => r == (if f.has_master && f.has_self_signing && f.has_user_signing {
                CrossSigningStatus::Verified
            } else {
                CrossSigningStatus::Unverified
            }),
            None => r == CrossSigningStatus::Unknown,
        },
{
    match status {
        Some(f) => {
            if f.has_master && f.has_self_signing && f.has_user_signing {
                CrossSigningStatus::Verified
            } else {
                CrossSigningStatus::Unverified
            }
        },
        None => CrossSigningStatus::Unknown,
    }
}

} // verus!
