//! The server, as far as it decides: what each request is answered, and who gets a control channel.

pub mod attempts;
pub mod controller;
pub mod laws;
pub mod request;

use crate::address::IpAddress;
use crate::auth::{outcome_text, AuthError, AuthModel, Authenticator};
use crate::clock::{ClockLog, MAX_NANOS, NANOS_PER_SECOND};
use crate::config::{copy_texts, Config};
use crate::input::BackendStatus;
use crate::local_pairing::LocalPairingServer;
use crate::text::{texts, trim, trimmed};
use crate::uri::optional_chars;
use attempts::{attempt_allowed, attempted, AuthAttempts, Windows};
use request::{
    expired_cookie, expired_session_cookie, origin_allowed, session_cookie, session_cookie_header,
    set_cookie, RequestHead,
};
use vstd::prelude::*;
use vstd::string::*;
use vstd::utf8::encode_utf8;

verus! {

/// The longest pairing request that is read.
pub const PAIR_REQUEST_LIMIT_BYTES: usize = 512;

/// The length of a local code.
pub const MIN_CREDENTIAL_BYTES: usize = 6;

pub const MAX_CREDENTIAL_BYTES: usize = 128;

/// After how many seconds an address that made too many attempts may try again.
pub const RETRY_AFTER_SECONDS: u32 = 60;

/// What stands in a reply.
#[derive(Debug, Clone, Copy, PartialEq, Eq, Structural)]
pub enum ReplyBody {
    Empty,
    OriginRejected,
    TooManyAttempts,
    PairingFailed,
    AuthenticationFailed,
    ControllerLimit,
    NotFound,
    Paired { authenticated: bool, expires_in_seconds: u64 },
    Session { authenticated: bool, authentication_required: bool },
}

impl ReplyBody {
    /// The text of a reply that is plain text.
    pub open spec fn plain_text(self) -> Option<Seq<char>> {
        match self {
            ReplyBody::Empty => None,
            ReplyBody::OriginRejected => Some("origin rejected"@),
            ReplyBody::TooManyAttempts => Some("too many pairing attempts"@),
            ReplyBody::PairingFailed => Some("pairing failed"@),
            ReplyBody::AuthenticationFailed => Some("authentication failed"@),
            ReplyBody::ControllerLimit => Some("controller limit reached"@),
            ReplyBody::NotFound => Some("not found"@),
            ReplyBody::Paired { .. } => None,
            ReplyBody::Session { .. } => None,
        }
    }

    pub fn text(self) -> (text: Option<&'static str>)
        ensures
            match text {
                Some(text) => self.plain_text() == Some(text@),
                None => self.plain_text() is None,
            },
    {
        match self {
            ReplyBody::Empty => None,
            ReplyBody::OriginRejected => Some("origin rejected"),
            ReplyBody::TooManyAttempts => Some("too many pairing attempts"),
            ReplyBody::PairingFailed => Some("pairing failed"),
            ReplyBody::AuthenticationFailed => Some("authentication failed"),
            ReplyBody::ControllerLimit => Some("controller limit reached"),
            ReplyBody::NotFound => Some("not found"),
            ReplyBody::Paired { .. } => None,
            ReplyBody::Session { .. } => None,
        }
    }
}

/// A reply: its status, its body and two headers.
#[derive(Debug)]
pub struct Reply {
    pub status: u16,
    pub body: ReplyBody,
    pub retry_after: Option<u32>,
    pub set_cookie: Option<String>,
}

/// The contents of a reply.
#[verifier::ext_equal]
pub struct ReplyModel {
    pub status: u16,
    pub body: ReplyBody,
    pub retry_after: Option<u32>,
    pub set_cookie: Option<Seq<char>>,
}

impl View for Reply {
    type V = ReplyModel;

    open spec fn view(&self) -> ReplyModel {
        ReplyModel {
            status: self.status,
            body: self.body,
            retry_after: self.retry_after,
            set_cookie: optional_chars(self.set_cookie),
        }
    }
}

/// A reply without headers of its own.
pub open spec fn bare(status: u16, body: ReplyBody) -> ReplyModel {
    ReplyModel { status, body, retry_after: None, set_cookie: None }
}

fn bare_reply(status: u16, body: ReplyBody) -> (reply: Reply)
    ensures
        reply@ == bare(status, body),
{
    Reply { status, body, retry_after: None, set_cookie: None }
}

/// The reply to a sign of life.
pub fn health() -> (reply: Reply)
    ensures
        reply@ == bare(204, ReplyBody::Empty),
{
    bare_reply(204, ReplyBody::Empty)
}

/// The reply to a request for something that is not there.
pub fn not_found() -> (reply: Reply)
    ensures
        reply@ == bare(404, ReplyBody::NotFound),
{
    bare_reply(404, ReplyBody::NotFound)
}

/// What anyone may know of the server.
#[derive(Debug)]
pub struct PublicStatus {
    pub service: &'static str,
    pub version: &'static str,
    pub authentication_required: bool,
    pub controllers: usize,
    pub controller_limit: usize,
    pub input_backend: String,
    pub input_available: bool,
    pub secure_transport: bool,
}

/// The state that the requests share.
pub struct AppState {
    auth: Authenticator,
    pointer_sensitivity_bits: u64,
    max_clients: usize,
    active_clients: usize,
    allowed_origins: Vec<String>,
    secure_transport: bool,
    auth_attempts: AuthAttempts,
}

/// What the server knows.
#[verifier::ext_equal]
pub struct ServerModel {
    pub auth: AuthModel,
    pub pointer_sensitivity_bits: u64,
    pub max_clients: usize,
    pub active_clients: usize,
    pub allowed_origins: Seq<Seq<char>>,
    pub secure_transport: bool,
    pub windows: Windows,
}

/// What to do about a pairing request before a credential is exchanged.
#[verifier::ext_equal]
pub enum PairStepModel {
    Reply(ReplyModel),
    Exchange(Seq<char>),
}

/// What to do about a pairing request: answer it, or exchange the credential in it.
#[derive(Debug)]
pub enum PairStep {
    Reply(Reply),
    Exchange(String),
}

impl View for PairStep {
    type V = PairStepModel;

    open spec fn view(&self) -> PairStepModel {
        match self {
            PairStep::Reply(reply) => PairStepModel::Reply(reply@),
            PairStep::Exchange(credential) => PairStepModel::Exchange(credential@),
        }
    }
}

/// Whether a credential has a length that is worth looking at.
pub open spec fn credential_fits(credential: Seq<char>) -> bool {
    MIN_CREDENTIAL_BYTES <= encode_utf8(credential).len() <= MAX_CREDENTIAL_BYTES
}

impl ServerModel {
    /// Whether the request comes from a page that may use the server.
    pub open spec fn trusts(self, head: RequestHead) -> bool {
        head.from_allowed_origin(self.allowed_origins, self.secure_transport)
    }

    /// The attempts count for requests that get as far as being counted.
    pub open spec fn counted(self, remote: IpAddress, head: RequestHead, now: u128) -> ServerModel {
        if self.trusts(head) && self.auth.enabled() {
            ServerModel { windows: attempted(self.windows, remote, now), ..self }
        } else {
            self
        }
    }

    /// What a pairing request leads to: a foreign origin is refused, a server without
    /// authentication needs no code, too many attempts are refused, and so is a credential of an
    /// odd length.
    pub open spec fn pair_step(
        self,
        remote: IpAddress,
        head: RequestHead,
        code: Seq<char>,
        now: u128,
    ) -> PairStepModel {
        if !self.trusts(head) {
            PairStepModel::Reply(bare(403, ReplyBody::OriginRejected))
        } else if !self.auth.enabled() {
            PairStepModel::Reply(
                bare(200, ReplyBody::Paired { authenticated: true, expires_in_seconds: 0 }),
            )
        } else if !attempt_allowed(self.windows, remote, now) {
            PairStepModel::Reply(
                ReplyModel {
                    retry_after: Some(RETRY_AFTER_SECONDS),
                    ..bare(429, ReplyBody::TooManyAttempts)
                },
            )
        } else if !credential_fits(trimmed(code)) {
            PairStepModel::Reply(bare(401, ReplyBody::PairingFailed))
        } else {
            PairStepModel::Exchange(trimmed(code))
        }
    }

    /// The whole seconds that a session lasts.
    pub open spec fn session_seconds(self) -> u64 {
        (self.auth.session_ttl / NANOS_PER_SECOND) as u64
    }

    /// What the outcome of an exchange is answered.
    pub open spec fn exchange_reply(
        self,
        outcome: Result<Option<Seq<char>>, AuthError>,
    ) -> ReplyModel {
        match outcome {
            Ok(Some(session)) => ReplyModel {
                set_cookie: Some(
                    set_cookie(session, self.session_seconds(), self.secure_transport),
                ),
                ..bare(
                    200,
                    ReplyBody::Paired {
                        authenticated: true,
                        expires_in_seconds: self.session_seconds(),
                    },
                )
            },
            Ok(None) => bare(401, ReplyBody::PairingFailed),
            Err(_) => bare(500, ReplyBody::Empty),
        }
    }

    /// A successful exchange wipes the slate of its address.
    pub open spec fn exchange_settled(
        self,
        remote: IpAddress,
        outcome: Result<Option<Seq<char>>, AuthError>,
    ) -> ServerModel {
        match outcome {
            Ok(Some(_)) => ServerModel { windows: self.windows.remove(remote), ..self },
            _ => self,
        }
    }

    /// What holds of a pairing request at the times that the clocks show when they are read for
    /// it, whatever they show and the random generator gives.
    pub open spec fn paired(
        self,
        after: ServerModel,
        remote: IpAddress,
        head: RequestHead,
        code: Seq<char>,
        clock: ClockLog,
        clock_after: ClockLog,
        reply: ReplyModel,
    ) -> bool {
        let now = clock_after.monotonic[clock.monotonic.len() as int];
        &&& now <= MAX_NANOS
        &&& match self.pair_step(remote, head, code, now) {
            PairStepModel::Reply(answer) => reply == answer && after == self.counted(
                remote,
                head,
                now,
            ) && clock_after == clock.monotonic_read(now),
            PairStepModel::Exchange(credential) => exists|
                auth: AuthModel,
                outcome: Result<Option<Seq<char>>, AuthError>,
            |
                #[trigger]
                self.auth.exchanged_in(
                    auth,
                    credential,
                    clock.monotonic_read(now),
                    clock_after,
                    outcome,
                ) && self.counted(
                    remote,
                    head,
                    now,
                ).answered(after, remote, auth, outcome, reply),
        }
    }

    /// The reply to an exchange, and what is known once it is sent.
    pub open spec fn answered(
        self,
        after: ServerModel,
        remote: IpAddress,
        auth: AuthModel,
        outcome: Result<Option<Seq<char>>, AuthError>,
        reply: ReplyModel,
    ) -> bool {
        let exchanged = ServerModel { auth, ..self };
        reply == exchanged.exchange_reply(outcome) && after == exchanged.exchange_settled(
            remote,
            outcome,
        )
    }

    /// What a logout is answered.
    pub open spec fn logout_reply(self, head: RequestHead) -> ReplyModel {
        if self.trusts(head) {
            ReplyModel {
                set_cookie: Some(expired_cookie(self.secure_transport)),
                ..bare(204, ReplyBody::Empty)
            }
        } else {
            bare(403, ReplyBody::OriginRejected)
        }
    }

    /// A logout revokes the session of the request.
    pub open spec fn logged_out(self, head: RequestHead) -> ServerModel {
        if self.trusts(head) {
            ServerModel { auth: self.auth.revoked(head.session()), ..self }
        } else {
            self
        }
    }

    /// What a question for the session of a request is answered.
    pub open spec fn session_reply(self, head: RequestHead, now: u128) -> ReplyModel {
        bare(
            200,
            ReplyBody::Session {
                authenticated: self.auth.authorizes(head.session(), now),
                authentication_required: self.auth.enabled(),
            },
        )
    }

    /// The refusal of a control channel. There is none for a trusted page with a valid session, as
    /// long as there is a free seat.
    pub open spec fn channel_refusal(self, head: RequestHead, now: u128) -> Option<ReplyModel> {
        if !self.trusts(head) {
            Some(bare(403, ReplyBody::OriginRejected))
        } else if !self.auth.authorizes(head.session(), now) {
            Some(bare(401, ReplyBody::AuthenticationFailed))
        } else if self.active_clients >= self.max_clients {
            Some(bare(503, ReplyBody::ControllerLimit))
        } else {
            None
        }
    }

    /// A control channel takes a seat.
    pub open spec fn channel_asked(self, head: RequestHead, now: u128) -> ServerModel {
        ServerModel {
            auth: if self.trusts(head) {
                self.auth.looked_up(head.session(), now)
            } else {
                self.auth
            },
            active_clients: if self.channel_refusal(head, now) is None {
                (self.active_clients + 1) as usize
            } else {
                self.active_clients
            },
            ..self
        }
    }

    /// A seat is given back.
    pub open spec fn channel_closed(self) -> ServerModel {
        ServerModel {
            active_clients: if self.active_clients > 0 {
                (self.active_clients - 1) as usize
            } else {
                0
            },
            ..self
        }
    }
}

impl AppState {
    /// What was read off the clocks.
    pub closed spec fn clock(self) -> ClockLog {
        self.auth.clock()
    }

    pub closed spec fn model(self) -> ServerModel {
        ServerModel {
            auth: self.auth.model(),
            pointer_sensitivity_bits: self.pointer_sensitivity_bits,
            max_clients: self.max_clients,
            active_clients: self.active_clients,
            allowed_origins: texts(self.allowed_origins@),
            secure_transport: self.secure_transport,
            windows: self.auth_attempts@,
        }
    }

    pub fn new(config: &Config, auth: Authenticator) -> (state: Self)
        ensures
            state.model() == (ServerModel {
                auth: auth.model(),
                pointer_sensitivity_bits: config.pointer_sensitivity_bits,
                max_clients: config.max_clients,
                active_clients: 0,
                allowed_origins: texts(config.allowed_origins@),
                secure_transport: config.tls_cert is Some,
                windows: Map::empty(),
            }),
    {
        AppState {
            auth,
            pointer_sensitivity_bits: config.pointer_sensitivity_bits,
            max_clients: config.max_clients,
            active_clients: 0,
            allowed_origins: copy_texts(&config.allowed_origins),
            secure_transport: config.tls_enabled(),
            auth_attempts: AuthAttempts::new(),
        }
    }

    pub fn pointer_sensitivity_bits(&self) -> (bits: u64)
        ensures
            bits == self.model().pointer_sensitivity_bits,
    {
        self.pointer_sensitivity_bits
    }

    pub fn secure_transport(&self) -> (secure: bool)
        ensures
            secure == self.model().secure_transport,
    {
        self.secure_transport
    }

    /// Answers a caller of the local pairing service.
    pub fn answer_local(&mut self, service: &LocalPairingServer, peer_uid: Option<u32>) -> (line:
        String)
        ensures
            service.answered(
                peer_uid,
                old(self).model().auth,
                final(self).model().auth,
                old(self).clock(),
                final(self).clock(),
                line@,
            ),
            final(self).model() == (ServerModel {
                auth: final(self).model().auth,
                ..old(self).model()
            }),
    {
        service.answer(peer_uid, &mut self.auth)
    }

    pub fn allow_auth_attempt_at(&mut self, remote: IpAddress, now: u128) -> (allowed: bool)
        ensures
            allowed == attempt_allowed(old(self).model().windows, remote, now),
            final(self).clock() == old(self).clock(),
            final(self).model() == (ServerModel {
                windows: attempted(old(self).model().windows, remote, now),
                ..old(self).model()
            }),
    {
        self.auth_attempts.allow_at(remote, now)
    }

    /// Makes a pairing attempt now.
    pub fn allow_auth_attempt(&mut self, remote: IpAddress) -> (allowed: bool)
        ensures
            final(self).clock().monotonic.last() <= MAX_NANOS,
            final(self).clock() == old(self).clock().monotonic_read(
                final(self).clock().monotonic.last(),
            ),
            allowed == attempt_allowed(
                old(self).model().windows,
                remote,
                final(self).clock().monotonic.last(),
            ),
            final(self).model() == (ServerModel {
                windows: attempted(
                    old(self).model().windows,
                    remote,
                    final(self).clock().monotonic.last(),
                ),
                ..old(self).model()
            }),
    {
        let now: u128 = self.auth.now();
        self.allow_auth_attempt_at(remote, now)
    }

    pub fn clear_auth_attempts(&mut self, remote: IpAddress)
        ensures
            final(self).model() == (ServerModel {
                windows: old(self).model().windows.remove(remote),
                ..old(self).model()
            }),
            final(self).clock() == old(self).clock(),
    {
        self.auth_attempts.clear(remote);
    }

    /// Takes a seat where one is free.
    pub fn acquire_controller(&mut self) -> (acquired: bool)
        ensures
            acquired == (old(self).model().active_clients < old(self).model().max_clients),
            final(self).clock() == old(self).clock(),
            final(self).model() == (ServerModel {
                active_clients: if acquired {
                    (old(self).model().active_clients + 1) as usize
                } else {
                    old(self).model().active_clients
                },
                ..old(self).model()
            }),
    {
        if self.active_clients >= self.max_clients {
            return false;
        }
        self.active_clients = self.active_clients + 1;
        true
    }

    /// Gives a seat back.
    pub fn release_controller(&mut self)
        ensures
            final(self).model() == old(self).model().channel_closed(),
            final(self).clock() == old(self).clock(),
    {
        if self.active_clients > 0 {
            self.active_clients = self.active_clients - 1;
        }
    }

    /// Judges a pairing request.
    pub fn pair_at(&mut self, remote: IpAddress, head: &RequestHead, code: &str, now: u128) -> (step:
        PairStep)
        ensures
            step@ == old(self).model().pair_step(remote, *head, code@, now),
            final(self).model() == old(self).model().counted(remote, *head, now),
            final(self).clock() == old(self).clock(),
    {
        if !origin_allowed(head, &self.allowed_origins, self.secure_transport) {
            return PairStep::Reply(bare_reply(403, ReplyBody::OriginRejected));
        }
        if !self.auth.is_enabled() {
            return PairStep::Reply(
                bare_reply(200, ReplyBody::Paired { authenticated: true, expires_in_seconds: 0 }),
            );
        }
        if !self.allow_auth_attempt_at(remote, now) {
            return PairStep::Reply(
                Reply {
                    status: 429,
                    body: ReplyBody::TooManyAttempts,
                    retry_after: Some(RETRY_AFTER_SECONDS),
                    set_cookie: None,
                },
            );
        }
        let credential = trim(code);
        let length: usize = credential.as_str().as_bytes().len();
        if !(MIN_CREDENTIAL_BYTES <= length && length <= MAX_CREDENTIAL_BYTES) {
            return PairStep::Reply(bare_reply(401, ReplyBody::PairingFailed));
        }
        PairStep::Exchange(credential)
    }

    /// Answers a pairing request whose credential was exchanged.
    pub fn pair_reply(
        &mut self,
        remote: IpAddress,
        outcome: Result<Option<String>, AuthError>,
    ) -> (reply: Reply)
        ensures
            reply@ == old(self).model().exchange_reply(outcome_text(outcome)),
            final(self).clock() == old(self).clock(),
            final(self).model() == old(self).model().exchange_settled(
                remote,
                outcome_text(outcome),
            ),
    {
        match outcome {
            Ok(Some(session)) => {
                self.clear_auth_attempts(remote);
                let seconds: u64 = self.auth.session_ttl_seconds();
                Reply {
                    status: 200,
                    body: ReplyBody::Paired { authenticated: true, expires_in_seconds: seconds },
                    retry_after: None,
                    set_cookie: Some(
                        session_cookie_header(session.as_str(), seconds, self.secure_transport),
                    ),
                }
            },
            Ok(None) => bare_reply(401, ReplyBody::PairingFailed),
            Err(_) => bare_reply(500, ReplyBody::Empty),
        }
    }

    /// Exchanges a code, or the setup token, for a session cookie.
    pub fn pair(&mut self, remote: IpAddress, head: &RequestHead, code: &str) -> (reply: Reply)
        ensures
            old(self).model().paired(
                final(self).model(),
                remote,
                *head,
                code@,
                old(self).clock(),
                final(self).clock(),
                reply@,
            ),
    {
        let ghost clock = self.clock();
        let now: u128 = self.auth.now();
        let ghost before = self.model();
        match self.pair_at(remote, head, code, now) {
            PairStep::Reply(reply) => reply,
            PairStep::Exchange(credential) => {
                let outcome = self.auth.exchange(credential.as_str());
                let ghost text = outcome_text(outcome);
                let ghost auth = self.model().auth;
                let ghost exchanged = self.model();
                let reply = self.pair_reply(remote, outcome);
                proof {
                    let counted = before.counted(remote, *head, now);
                    assert(exchanged == (ServerModel { auth, ..counted }));
                    assert(counted.answered(self.model(), remote, auth, text, reply@));
                    let step = before.pair_step(remote, *head, code@, now);
                    assert(step is Exchange && step->Exchange_0 == credential@);
                    assert(before.auth.exchanged_in(
                        auth,
                        step->Exchange_0,
                        clock.monotonic_read(now),
                        self.clock(),
                        text,
                    ));
                }
                reply
            },
        }
    }

    /// Revokes the session of a request.
    pub fn logout(&mut self, head: &RequestHead) -> (reply: Reply)
        ensures
            reply@ == old(self).model().logout_reply(*head),
            final(self).clock() == old(self).clock(),
            final(self).model() == old(self).model().logged_out(*head),
    {
        if !origin_allowed(head, &self.allowed_origins, self.secure_transport) {
            return bare_reply(403, ReplyBody::OriginRejected);
        }
        let session = session_cookie(head);
        match &session {
            Some(session) => self.auth.revoke_session(Some(session.as_str())),
            None => self.auth.revoke_session(None),
        }
        Reply {
            status: 204,
            body: ReplyBody::Empty,
            retry_after: None,
            set_cookie: Some(expired_session_cookie(self.secure_transport)),
        }
    }

    fn verify_request_at(&mut self, head: &RequestHead, now: u128) -> (valid: bool)
        ensures
            valid == old(self).model().auth.authorizes(head.session(), now),
            final(self).clock() == old(self).clock(),
            final(self).model() == (ServerModel {
                auth: old(self).model().auth.looked_up(head.session(), now),
                ..old(self).model()
            }),
    {
        let session = session_cookie(head);
        match &session {
            Some(session) => self.auth.verify_session_at(Some(session.as_str()), now),
            None => self.auth.verify_session_at(None, now),
        }
    }

    /// Says whether the session of a request is valid at a time.
    pub fn session_status_at(&mut self, head: &RequestHead, now: u128) -> (reply: Reply)
        ensures
            final(self).clock() == old(self).clock(),
            reply@ == old(self).model().session_reply(*head, now),
            final(self).model() == (ServerModel {
                auth: old(self).model().auth.looked_up(head.session(), now),
                ..old(self).model()
            }),
    {
        let authenticated = self.verify_request_at(head, now);
        bare_reply(
            200,
            ReplyBody::Session {
                authenticated,
                authentication_required: self.auth.is_enabled(),
            },
        )
    }

    /// Says whether the session of a request is valid.
    pub fn session_status(&mut self, head: &RequestHead) -> (reply: Reply)
        ensures
            final(self).clock().monotonic.last() <= MAX_NANOS,
            final(self).clock() == old(self).clock().monotonic_read(
                final(self).clock().monotonic.last(),
            ),
            reply@ == old(self).model().session_reply(
                *head,
                final(self).clock().monotonic.last(),
            ),
            final(self).model() == (ServerModel {
                auth: old(self).model().auth.looked_up(
                    head.session(),
                    final(self).clock().monotonic.last(),
                ),
                ..old(self).model()
            }),
    {
        let now: u128 = self.auth.now();
        self.session_status_at(head, now)
    }

    /// Asks for a control channel at a time. Nothing comes back where it is granted; it then holds
    /// a seat until that is released.
    pub fn websocket_at(&mut self, head: &RequestHead, now: u128) -> (refusal: Option<Reply>)
        ensures
            match refusal {
                Some(reply) => old(self).model().channel_refusal(*head, now) == Some(reply@),
                None => old(self).model().channel_refusal(*head, now) is None,
            },
            final(self).model() == old(self).model().channel_asked(*head, now),
            final(self).clock() == old(self).clock(),
    {
        if !origin_allowed(head, &self.allowed_origins, self.secure_transport) {
            return Some(bare_reply(403, ReplyBody::OriginRejected));
        }
        if !self.verify_request_at(head, now) {
            return Some(bare_reply(401, ReplyBody::AuthenticationFailed));
        }
        if !self.acquire_controller() {
            return Some(bare_reply(503, ReplyBody::ControllerLimit));
        }
        None
    }

    /// Asks for a control channel.
    pub fn websocket(&mut self, head: &RequestHead) -> (refusal: Option<Reply>)
        ensures
            final(self).clock().monotonic.last() <= MAX_NANOS,
            final(self).clock() == old(self).clock().monotonic_read(
                final(self).clock().monotonic.last(),
            ),
            match refusal {
                Some(reply) => old(self).model().channel_refusal(
                    *head,
                    final(self).clock().monotonic.last(),
                ) == Some(reply@),
                None => old(self).model().channel_refusal(
                    *head,
                    final(self).clock().monotonic.last(),
                ) is None,
            },
            final(self).model() == old(self).model().channel_asked(
                *head,
                final(self).clock().monotonic.last(),
            ),
    {
        let now: u128 = self.auth.now();
        let refusal = self.websocket_at(head, now);
        refusal
    }

    /// The public status of the server and its input backend.
    pub fn status(&self, version: &'static str, backend: BackendStatus) -> (status: PublicStatus)
        ensures
            status.service@ == "portway"@,
            status.version == version,
            status.authentication_required == self.model().auth.enabled(),
            status.controllers == self.model().active_clients,
            status.controller_limit == self.model().max_clients,
            status.input_backend == backend.name,
            status.input_available == backend.available,
            status.secure_transport == self.model().secure_transport,
    {
        PublicStatus {
            service: "portway",
            version,
            authentication_required: self.auth.is_enabled(),
            controllers: self.active_clients,
            controller_limit: self.max_clients,
            input_backend: backend.name,
            input_available: backend.available,
            secure_transport: self.secure_transport,
        }
    }
}

/// The names and values of some headers.
pub open spec fn header_list(headers: Seq<(&'static str, &'static str)>) -> Seq<
    (Seq<char>, Seq<char>),
> {
    headers.map_values(|header: (&'static str, &'static str)| (header.0@, header.1@))
}

/// The headers that every reply carries.
pub open spec fn hardening(secure: bool) -> Seq<(Seq<char>, Seq<char>)> {
    let common = seq![
        (
            "content-security-policy"@,
            "default-src 'self'; connect-src 'self'; img-src 'self' data:; script-src 'self'; style-src 'self'; base-uri 'none'; frame-ancestors 'none'; form-action 'self'"@,
        ),
        ("x-content-type-options"@, "nosniff"@),
        ("referrer-policy"@, "no-referrer"@),
        (
            "permissions-policy"@,
            "camera=(), microphone=(), geolocation=(), payment=()"@,
        ),
        ("cross-origin-resource-policy"@, "same-origin"@),
    ];
    if secure {
        common.push(("strict-transport-security"@, "max-age=31536000"@))
    } else {
        common
    }
}

pub fn security_headers(secure: bool) -> (headers: Vec<(&'static str, &'static str)>)
    ensures
        header_list(headers@) == hardening(secure),
{
    let mut headers: Vec<(&'static str, &'static str)> = Vec::new();
    headers.push(
        (
            "content-security-policy",
            "default-src 'self'; connect-src 'self'; img-src 'self' data:; script-src 'self'; style-src 'self'; base-uri 'none'; frame-ancestors 'none'; form-action 'self'",
        ),
    );
    headers.push(("x-content-type-options", "nosniff"));
    headers.push(("referrer-policy", "no-referrer"));
    headers.push(
        ("permissions-policy", "camera=(), microphone=(), geolocation=(), payment=()"),
    );
    headers.push(("cross-origin-resource-policy", "same-origin"));
    if secure {
        headers.push(("strict-transport-security", "max-age=31536000"));
    }
    assert(header_list(headers@) =~= hardening(secure));
    headers
}

/// A file of the web client.
#[derive(Debug, Clone, Copy, PartialEq, Eq, Structural)]
pub enum Asset {
    Index,
    Script,
    Style,
}

impl Asset {
    pub open spec fn kind(self) -> Seq<char> {
        match self {
            Asset::Index => "text/html; charset=utf-8"@,
            Asset::Script => "text/javascript; charset=utf-8"@,
            Asset::Style => "text/css; charset=utf-8"@,
        }
    }
}

/// The headers of a file of the web client, which is never cached.
pub fn static_asset(asset: Asset) -> (headers: Vec<(&'static str, &'static str)>)
    ensures
        header_list(headers@) == seq![
            ("content-type"@, asset.kind()),
            ("cache-control"@, "no-cache, no-store, must-revalidate"@),
        ],
{
    let kind = match asset {
        Asset::Index => "text/html; charset=utf-8",
        Asset::Script => "text/javascript; charset=utf-8",
        Asset::Style => "text/css; charset=utf-8",
    };
    let mut headers: Vec<(&'static str, &'static str)> = Vec::new();
    headers.push(("content-type", kind));
    headers.push(("cache-control", "no-cache, no-store, must-revalidate"));
    assert(header_list(headers@) =~= seq![
        ("content-type"@, asset.kind()),
        ("cache-control"@, "no-cache, no-store, must-revalidate"@),
    ]);
    headers
}

} // verus!
