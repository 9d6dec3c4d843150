//! Authentication: the setup token, pairing codes and sessions.

pub mod digits;
pub mod laws;
pub mod material;
pub mod pairing;

pub use material::{load_or_create, AuthMaterial};
pub use pairing::create_pairing_code;

use crate::clock::{wall_reading, Clock, ClockLog, MAX_NANOS, NANOS_PER_SECOND};
use crate::crypto::{
    base64_decode, base64_encode, base64_url, base64_url_decoded, bytes_ct_eq, draw_bytes,
    random_reading, url_safe, url_text, MAX_KEY_BYTES,
};
use crate::table::{live_part, room_made, Expiry, Table};
use crate::text::{trim, trimmed};
use digits::{
    code_draw, code_for, draw_of, law_every_draw_has_its_own_code, record_accepts, record_expired,
    record_of, six_digits, six_text, PairingRecord, RecordModel, DRAW_BYTES, LOCAL_CODES,
};
use pairing::{code_expiry, code_lifetime, expiry_of, verify_pairing_code};
use vstd::prelude::*;
use vstd::string::*;
use vstd::utf8::{encode_utf8, is_ascii_chars_encode_utf8};

verus! {

pub const TOKEN_BYTES: usize = 32;

pub const SESSION_BYTES: usize = 32;

pub const MAX_SESSIONS: usize = 32;

pub const MAX_USED_PAIRING_CODES: usize = 1_024;

/// Five minutes.
pub const DEFAULT_PAIRING_CODE_TTL: u128 = 300_000_000_000;

/// Twelve hours.
pub const DEFAULT_SESSION_TTL: u128 = 43_200_000_000_000;

/// Why a code, a token or a session could not be had. `TokenFile` holds the description of the
/// failed file operation.
#[derive(Debug)]
pub enum AuthError {
    Clock,
    Overflow,
    Random,
    TokenText,
    TokenLength,
    TokenFile(String),
}

impl AuthError {
    pub open spec fn description(self) -> Seq<char> {
        match self {
            AuthError::Clock => "system clock is before the Unix epoch"@,
            AuthError::Overflow => "pairing-code expiry overflowed"@,
            AuthError::Random => "operating system random generator failed"@,
            AuthError::TokenText => "token file does not contain URL-safe base64"@,
            AuthError::TokenLength => "token file must contain exactly 256 bits of random data"@,
            AuthError::TokenFile(detail) => detail@,
        }
    }

    pub fn message(&self) -> (message: String)
        ensures
            message@ == self.description(),
    {
        match self {
            AuthError::Clock => "system clock is before the Unix epoch".to_owned(),
            AuthError::Overflow => "pairing-code expiry overflowed".to_owned(),
            AuthError::Random => "operating system random generator failed".to_owned(),
            AuthError::TokenText => "token file does not contain URL-safe base64".to_owned(),
            AuthError::TokenLength => {
                "token file must contain exactly 256 bits of random data".to_owned()
            },
            AuthError::TokenFile(detail) => detail.as_str().to_owned(),
        }
    }
}

/// Whether two byte strings are the same, in a time that depends on their lengths only.
pub fn constant_time_eq(expected: &[u8], candidate: &[u8]) -> (same: bool)
    ensures
        same == (expected@ == candidate@),
{
    expected.len() == candidate.len() && bytes_ct_eq(expected, candidate)
}

/// Whether a text stands for so many bytes.
pub open spec fn url_token(text: Seq<char>, bytes: int) -> bool {
    &&& url_text(text, bytes)
    &&& base64_url_decoded(text) matches Some(random) && random.len() == bytes && text
        == base64_url(random)
}

/// A text of bytes that the random generator gave.
pub open spec fn drawn_token(text: Seq<char>, bytes: usize) -> bool {
    exists|random: Seq<u8>| #[trigger]
        random_reading(bytes, Some(random)) && random.len() == bytes && text == base64_url(random)
}

/// So many random bytes, as text.
pub fn random_url_token(bytes: usize) -> (token: Result<String, AuthError>)
    requires
        bytes <= usize::MAX / 4,
    ensures
        match token {
            Ok(text) => url_token(text@, bytes as int) && drawn_token(text@, bytes),
            Err(error) => error == AuthError::Random && random_reading(bytes, None),
        },
{
    match draw_bytes(bytes) {
        Some(random) => Ok(base64_encode(random.as_slice())),
        None => Err(AuthError::Random),
    }
}

/// What an authenticator is made with.
pub struct AuthSettings {
    setup_token: Option<Vec<u8>>,
    pairing_code_ttl: u128,
    session_ttl: u128,
}

impl AuthSettings {
    #[verifier::type_invariant]
    pub closed spec fn valid(self) -> bool {
        &&& self.setup_token matches Some(token) ==> token@.len() <= MAX_KEY_BYTES
        &&& self.pairing_code_ttl <= MAX_NANOS
        &&& self.session_ttl <= MAX_NANOS
    }
}

/// The local code that is outstanding, the signed codes that were used and the sessions that are
/// open. Codes and sessions are found by their text.
pub struct Authenticator {
    settings: AuthSettings,
    outstanding: Option<PairingRecord>,
    used_pairing_codes: Table<String, Expiry>,
    sessions: Table<String, Expiry>,
    clock: Clock,
}

/// What an authenticator knows. Times are in nanoseconds.
#[verifier::ext_equal]
pub struct AuthModel {
    pub setup_token: Option<Seq<u8>>,
    pub pairing_code_ttl: u128,
    pub session_ttl: u128,
    pub outstanding: Option<RecordModel>,
    pub used_pairing_codes: Map<Seq<char>, Expiry>,
    pub sessions: Map<Seq<char>, Expiry>,
}

/// The end of a span of whole seconds.
pub open spec fn after_seconds(now: u128, seconds: u64) -> Expiry {
    Expiry((now + seconds * NANOS_PER_SECOND) as u128)
}

impl AuthModel {
    /// What the constructors give.
    pub open spec fn fresh(
        setup_token: Option<Seq<u8>>,
        pairing_code_ttl: u128,
        session_ttl: u128,
    ) -> AuthModel {
        AuthModel {
            setup_token,
            pairing_code_ttl,
            session_ttl,
            outstanding: None,
            used_pairing_codes: Map::empty(),
            sessions: Map::empty(),
        }
    }

    pub open spec fn enabled(self) -> bool {
        self.setup_token is Some
    }

    /// The whole seconds of the lifetime of a code.
    pub open spec fn code_seconds(self) -> u64 {
        (self.pairing_code_ttl / NANOS_PER_SECOND) as u64
    }

    pub open spec fn is_setup_token(self, credential: Seq<char>) -> bool {
        self.setup_token == Some(encode_utf8(credential))
    }

    /// Whether a credential is the local code that is outstanding.
    pub open spec fn is_outstanding(self, credential: Seq<char>, unix_now: Option<u64>) -> bool {
        match (self.setup_token, self.outstanding) {
            (Some(token), Some(record)) => record_accepts(token, record, credential, unix_now),
            _ => false,
        }
    }

    /// The local code that is outstanding once a credential was presented: it is dropped when it
    /// is used, and when it has expired.
    pub open spec fn still_outstanding(
        self,
        credential: Seq<char>,
        unix_now: Option<u64>,
    ) -> Option<RecordModel> {
        match self.outstanding {
            Some(record) => if self.is_outstanding(credential, unix_now) || record_expired(
                record,
                unix_now,
            ) {
                None
            } else {
                Some(record)
            },
            None => None,
        }
    }

    /// What is known once a local code was issued: it takes the place of the one before.
    pub open spec fn recorded(self, expires: u64, draw: u32) -> AuthModel {
        AuthModel {
            outstanding: Some(record_of(self.setup_token->0, expires, six_text(draw as int))),
            ..self
        }
    }

    /// The outcome of issuing a local code at a time and with a draw, where the random generator
    /// gave one.
    pub open spec fn issued_at(
        self,
        after: AuthModel,
        unix_now: Option<u64>,
        draw: Option<u32>,
        outcome: Result<Option<Seq<char>>, AuthError>,
    ) -> bool {
        if !self.enabled() {
            outcome == Ok::<Option<Seq<char>>, AuthError>(None) && after == self
        } else {
            match (expiry_of(unix_now, self.code_seconds()), draw) {
                (Err(error), _) => outcome == Err::<Option<Seq<char>>, AuthError>(error) && after
                    == self,
                (Ok(_), None) => outcome == Err::<Option<Seq<char>>, AuthError>(AuthError::Random)
                    && after == self,
                (Ok(expires), Some(draw)) => {
                    &&& draw < LOCAL_CODES
                    &&& outcome == Ok::<Option<Seq<char>>, AuthError>(Some(six_text(draw as int)))
                    &&& after == self.recorded(expires, draw)
                },
            }
        }
    }

    /// The outcome of issuing a local code when the wall clock showed a time, with a draw from what
    /// the random generator gave.
    pub open spec fn issued_when(
        self,
        after: AuthModel,
        unix_now: Option<u64>,
        random: Option<Seq<u8>>,
        outcome: Result<Option<Seq<char>>, AuthError>,
    ) -> bool {
        &&& expiry_of(unix_now, self.code_seconds()) is Ok ==> random_reading(DRAW_BYTES, random)
        &&& self.issued_at(after, unix_now, draw_of(random), outcome)
    }

    /// The outcome of issuing a local code, and what was read off the clocks for it: nothing where
    /// authentication is off, and otherwise the wall clock once.
    pub open spec fn issued_in(
        self,
        after: AuthModel,
        clock: ClockLog,
        clock_after: ClockLog,
        outcome: Result<Option<Seq<char>>, AuthError>,
    ) -> bool {
        if self.enabled() {
            let unix_now = clock_after.wall.last();
            &&& clock_after == clock.wall_read(unix_now)
            &&& wall_reading(unix_now)
            &&& exists|random: Option<Seq<u8>>| #[trigger]
                self.issued_when(after, unix_now, random, outcome)
        } else {
            &&& clock_after == clock
            &&& outcome == Ok::<Option<Seq<char>>, AuthError>(None)
            &&& after == self
        }
    }

    /// The outcome of issuing a local code, whatever the clock and the random generator gave.
    pub open spec fn issued(
        self,
        after: AuthModel,
        outcome: Result<Option<Seq<char>>, AuthError>,
    ) -> bool {
        exists|unix_now: Option<u64>, draw: Option<u32>| #[trigger]
            self.issued_at(after, unix_now, draw, outcome)
    }

    /// The time that a credential has left as a signed code.
    pub open spec fn lifetime(self, credential: Seq<char>, unix_now: Option<u64>) -> Option<u64> {
        match self.setup_token {
            Some(token) => code_lifetime(token, credential, self.code_seconds(), unix_now),
            None => None,
        }
    }

    /// Whether a credential was used as a signed code that could still be replayed.
    pub open spec fn used(self, credential: Seq<char>, now: u128) -> bool {
        live_part(self.used_pairing_codes, now).contains_key(credential)
    }

    /// Whether a credential opens a session: the setup token, the local code that is outstanding,
    /// or a signed code that was not used.
    pub open spec fn accepts(
        self,
        credential: Seq<char>,
        now: u128,
        unix_now: Option<u64>,
    ) -> bool {
        self.is_setup_token(credential) || self.is_outstanding(credential, unix_now) || (
        self.lifetime(credential, unix_now) is Some && !self.used(credential, now))
    }

    /// What is known once a credential was presented: a local code is dropped when it is used, the
    /// used signed codes that can no longer be replayed are forgotten, and an accepted signed code
    /// is recorded up to its expiry.
    pub open spec fn redeemed(
        self,
        after: AuthModel,
        credential: Seq<char>,
        now: u128,
        unix_now: Option<u64>,
    ) -> bool {
        let live = live_part(self.used_pairing_codes, now);
        &&& after == (AuthModel {
            outstanding: after.outstanding,
            used_pairing_codes: after.used_pairing_codes,
            ..self
        })
        &&& self.enabled() ==> after.outstanding == self.still_outstanding(credential, unix_now)
        &&& if !self.enabled() {
            after == self
        } else if self.accepts(credential, now, unix_now) && self.lifetime(
            credential,
            unix_now,
        ) is Some {
            exists|room: Map<Seq<char>, Expiry>| #[trigger]
                room_made(live, room, MAX_USED_PAIRING_CODES as nat) && after.used_pairing_codes
                    == room.insert(
                    credential,
                    after_seconds(now, self.lifetime(credential, unix_now)->0),
                )
        } else {
            after.used_pairing_codes == live
        }
    }

    /// What is known once a session was opened.
    pub open spec fn opened(self, after: AuthModel, session: Seq<char>, now: u128) -> bool {
        let live = live_part(self.sessions, now);
        &&& after == (AuthModel { sessions: after.sessions, ..self })
        &&& exists|room: Map<Seq<char>, Expiry>| #[trigger]
            room_made(live, room, MAX_SESSIONS as nat) && after.sessions == room.insert(
                session,
                Expiry((now + self.session_ttl) as u128),
            )
    }

    /// Whether a session counts, and whether anything counts where authentication is off.
    pub open spec fn authorizes(self, candidate: Option<Seq<char>>, now: u128) -> bool {
        !self.enabled() || (candidate matches Some(session) && live_part(
            self.sessions,
            now,
        ).contains_key(session))
    }

    /// What is known once a session was looked up.
    pub open spec fn looked_up(self, candidate: Option<Seq<char>>, now: u128) -> AuthModel {
        if self.enabled() && candidate is Some {
            AuthModel { sessions: live_part(self.sessions, now), ..self }
        } else {
            self
        }
    }

    pub open spec fn revoked(self, candidate: Option<Seq<char>>) -> AuthModel {
        match candidate {
            Some(session) => AuthModel { sessions: self.sessions.remove(session), ..self },
            None => self,
        }
    }

    /// The outcome of presenting a credential, whatever the clocks and the random generator gave.
    pub open spec fn exchanged(
        self,
        after: AuthModel,
        credential: Seq<char>,
        now: u128,
        unix_now: Option<u64>,
        outcome: Result<Option<Seq<char>>, AuthError>,
    ) -> bool {
        match outcome {
            Ok(None) => !self.accepts(credential, now, unix_now) && self.redeemed(
                after,
                credential,
                now,
                unix_now,
            ),
            Ok(Some(session)) => self.accepts(credential, now, unix_now) && url_token(
                session,
                SESSION_BYTES as int,
            ) && drawn_token(session, SESSION_BYTES) && exists|middle: AuthModel| #[trigger]
                self.redeemed(middle, credential, now, unix_now) && middle.opened(
                    after,
                    session,
                    now,
                ),
            Err(error) => error == AuthError::Random && random_reading(SESSION_BYTES, None)
                && self.accepts(credential, now, unix_now) && self.redeemed(
                after,
                credential,
                now,
                unix_now,
            ),
        }
    }

    /// The outcome of presenting a credential at the time that the clocks show when they are read
    /// for it, each once.
    pub open spec fn exchanged_in(
        self,
        after: AuthModel,
        credential: Seq<char>,
        clock: ClockLog,
        clock_after: ClockLog,
        outcome: Result<Option<Seq<char>>, AuthError>,
    ) -> bool {
        let now = clock_after.monotonic.last();
        let unix_now = clock_after.wall.last();
        &&& now <= MAX_NANOS
        &&& wall_reading(unix_now)
        &&& clock_after == clock.monotonic_read(now).wall_read(unix_now)
        &&& self.exchanged(after, credential, now, unix_now, outcome)
    }
}

impl AuthModel {
    /// The outcome of presenting a credential at some time.
    pub open spec fn exchanged_sometime(
        self,
        after: AuthModel,
        credential: Seq<char>,
        outcome: Result<Option<Seq<char>>, AuthError>,
    ) -> bool {
        exists|now: u128, unix_now: Option<u64>|
            now <= MAX_NANOS && #[trigger] self.exchanged(
                after,
                credential,
                now,
                unix_now,
                outcome,
            )
    }
}

/// The characters of an outcome.
pub open spec fn outcome_text(outcome: Result<Option<String>, AuthError>) -> Result<
    Option<Seq<char>>,
    AuthError,
> {
    match outcome {
        Ok(Some(session)) => Ok(Some(session@)),
        Ok(None) => Ok(None),
        Err(error) => Err(error),
    }
}

/// The characters of an optional text.
pub open spec fn optional_text(text: Option<&str>) -> Option<Seq<char>> {
    match text {
        Some(text) => Some(text@),
        None => None,
    }
}

impl Authenticator {
    /// What was read off the clocks.
    pub closed spec fn clock(self) -> ClockLog {
        self.clock@
    }

    pub closed spec fn model(self) -> AuthModel {
        AuthModel {
            setup_token: match self.settings.setup_token {
                Some(token) => Some(token@),
                None => None,
            },
            pairing_code_ttl: self.settings.pairing_code_ttl,
            session_ttl: self.settings.session_ttl,
            outstanding: match self.outstanding {
                Some(record) => Some(record@),
                None => None,
            },
            used_pairing_codes: self.used_pairing_codes@,
            sessions: self.sessions@,
        }
    }

    fn new(setup_token: Option<Vec<u8>>, pairing_code_ttl: u128, session_ttl: u128) -> (auth: Self)
        requires
            setup_token matches Some(token) ==> token@.len() <= MAX_KEY_BYTES,
            pairing_code_ttl <= MAX_NANOS,
            session_ttl <= MAX_NANOS,
        ensures
            auth.model() == AuthModel::fresh(
                match setup_token {
                    Some(token) => Some(token@),
                    None => None,
                },
                pairing_code_ttl,
                session_ttl,
            ),
    {
        Authenticator {
            settings: AuthSettings { setup_token, pairing_code_ttl, session_ttl },
            outstanding: None,
            used_pairing_codes: Table::new(),
            sessions: Table::new(),
            clock: Clock::new(),
        }
    }

    /// Everyone is let in.
    pub fn disabled() -> (auth: Self)
        ensures
            auth.model() == AuthModel::fresh(None, DEFAULT_PAIRING_CODE_TTL, DEFAULT_SESSION_TTL),
    {
        Self::new(None, DEFAULT_PAIRING_CODE_TTL, DEFAULT_SESSION_TTL)
    }

    pub fn from_token(token: Vec<u8>) -> (auth: Self)
        requires
            token@.len() <= MAX_KEY_BYTES,
        ensures
            auth.model() == AuthModel::fresh(
                Some(token@),
                DEFAULT_PAIRING_CODE_TTL,
                DEFAULT_SESSION_TTL,
            ),
    {
        Self::new(Some(token), DEFAULT_PAIRING_CODE_TTL, DEFAULT_SESSION_TTL)
    }

    /// The lifetimes are in nanoseconds.
    pub fn from_token_with_ttls(
        token: Vec<u8>,
        pairing_code_ttl: u128,
        session_ttl: u128,
    ) -> (auth: Self)
        requires
            token@.len() <= MAX_KEY_BYTES,
            pairing_code_ttl <= MAX_NANOS,
            session_ttl <= MAX_NANOS,
        ensures
            auth.model() == AuthModel::fresh(Some(token@), pairing_code_ttl, session_ttl),
    {
        Self::new(Some(token), pairing_code_ttl, session_ttl)
    }

    pub fn is_enabled(&self) -> (enabled: bool)
        ensures
            enabled == self.model().enabled(),
    {
        self.settings.setup_token.is_some()
    }

    pub fn pairing_code_ttl_seconds(&self) -> (seconds: u64)
        ensures
            seconds == self.model().pairing_code_ttl / NANOS_PER_SECOND,
            seconds == self.model().code_seconds(),
    {
        proof {
            use_type_invariant(&self.settings);
        }
        (self.settings.pairing_code_ttl / NANOS_PER_SECOND) as u64
    }

    pub fn session_ttl_seconds(&self) -> (seconds: u64)
        ensures
            seconds == self.model().session_ttl / NANOS_PER_SECOND,
    {
        proof {
            use_type_invariant(&self.settings);
        }
        (self.settings.session_ttl / NANOS_PER_SECOND) as u64
    }

    /// The time since the authenticator was made.
    pub fn now(&mut self) -> (now: u128)
        ensures
            now <= MAX_NANOS,
            final(self).clock() == old(self).clock().monotonic_read(now),
            final(self).model() == old(self).model(),
    {
        self.clock.now()
    }

    /// Records a local code for a draw, in place of the one before.
    pub fn record_pairing_code(&mut self, expires: u64, draw: u32) -> (code: Option<String>)
        requires
            draw < LOCAL_CODES,
        ensures
            match code {
                Some(text) => old(self).model().enabled() && text@ == six_text(draw as int)
                    && final(self).model() == old(self).model().recorded(expires, draw),
                None => !old(self).model().enabled() && final(self).model() == old(self).model(),
            },
            final(self).clock() == old(self).clock(),
    {
        proof {
            use_type_invariant(&self.settings);
        }
        let record = match &self.settings.setup_token {
            None => {
                return None;
            },
            Some(token) => PairingRecord::new(
                token.as_slice(),
                expires,
                code_for(draw).as_str(),
            ),
        };
        self.outstanding = Some(record);
        assert(self.model() == old(self).model().recorded(expires, draw));
        Some(code_for(draw))
    }

    /// A new local code: six random digits that are accepted once, within their lifetime, and
    /// until another code is issued.
    pub fn issue_pairing_code(&mut self) -> (code: Result<Option<String>, AuthError>)
        ensures
            old(self).model().issued(final(self).model(), outcome_text(code)),
            old(self).model().issued_in(
                final(self).model(),
                old(self).clock(),
                final(self).clock(),
                outcome_text(code),
            ),
            code matches Ok(Some(text)) ==> six_digits(text@),
    {
        let ghost before = self.model();
        if !self.is_enabled() {
            assert(before.issued_at(self.model(), None, None, Ok(None)));
            return Ok(None);
        }
        let now = self.clock.unix_now();
        let expires = match code_expiry(now, self.pairing_code_ttl_seconds()) {
            Ok(expires) => expires,
            Err(error) => {
                assert(before.issued_at(self.model(), now, None, Err(error)));
                assert(before.issued_when(self.model(), now, None, Err(error)));
                return Err(error);
            },
        };
        let random = match draw_bytes(DRAW_BYTES) {
            Some(random) => random,
            None => {
                assert(before.issued_at(self.model(), now, None, Err(AuthError::Random)));
                assert(before.issued_when(self.model(), now, None, Err(AuthError::Random)));
                return Err(AuthError::Random);
            },
        };
        let draw: u32 = code_draw(random.as_slice());
        let code = self.record_pairing_code(expires, draw);
        proof {
            law_every_draw_has_its_own_code(draw as int);
            let text = six_text(draw as int);
            assert(draw_of(Some(random@)) == Some(draw));
            assert(before.issued_at(self.model(), now, Some(draw), Ok(Some(text))));
            assert(before.issued_when(self.model(), now, Some(random@), Ok(Some(text))));
        }
        Ok(code)
    }

    /// Takes a credential at a point of both clocks, and says whether it opens a session.
    pub fn redeem(&mut self, credential: &str, now: u128, unix_now: Option<u64>) -> (accepted: bool)
        requires
            now <= MAX_NANOS,
        ensures
            accepted == old(self).model().accepts(credential@, now, unix_now),
            old(self).model().redeemed(final(self).model(), credential@, now, unix_now),
            final(self).clock() == old(self).clock(),
    {
        proof {
            use_type_invariant(&self.settings);
        }
        let maximum: u64 = self.pairing_code_ttl_seconds();
        let (setup_token_matches, lifetime, local_matches) = match &self.settings.setup_token {
            None => {
                return false;
            },
            Some(token) => (
                constant_time_eq(token.as_slice(), credential.as_bytes()),
                verify_pairing_code(token.as_slice(), credential, maximum, unix_now),
                match &self.outstanding {
                    Some(record) => record.accepts(token.as_slice(), credential, unix_now),
                    None => false,
                },
            ),
        };
        let expired = match &self.outstanding {
            Some(record) => record.has_expired(unix_now),
            None => false,
        };
        if local_matches || expired {
            self.outstanding = None;
        }
        assert(self.model().outstanding == old(self).model().still_outstanding(
            credential@,
            unix_now,
        ));
        let key = credential.to_owned();
        self.used_pairing_codes.retain_live(now);
        let ghost live = self.used_pairing_codes@;
        assert(live == live_part(old(self).model().used_pairing_codes, now));
        let pairing_code_matches = lifetime.is_some() && !self.used_pairing_codes.contains(&key);
        if !setup_token_matches && !local_matches && !pairing_code_matches {
            return false;
        }
        if let Some(seconds) = lifetime {
            self.used_pairing_codes.make_room(MAX_USED_PAIRING_CODES);
            let ghost room = self.used_pairing_codes@;
            let expiry = Expiry(now + seconds as u128 * NANOS_PER_SECOND);
            self.used_pairing_codes.insert(key, expiry);
            assert(expiry == after_seconds(now, seconds));
            assert(room_made(live, room, MAX_USED_PAIRING_CODES as nat) && self.used_pairing_codes@
                == room.insert(credential@, expiry));
        }
        assert(self.model() == (AuthModel {
            outstanding: self.model().outstanding,
            used_pairing_codes: self.model().used_pairing_codes,
            ..old(self).model()
        }));
        true
    }

    /// Opens a session under the given text.
    pub fn open_session(&mut self, session: String, now: u128)
        requires
            now <= MAX_NANOS,
        ensures
            old(self).model().opened(final(self).model(), session@, now),
            final(self).clock() == old(self).clock(),
    {
        proof {
            use_type_invariant(&self.settings);
        }
        self.sessions.retain_live(now);
        let ghost live = self.sessions@;
        assert(live == live_part(old(self).model().sessions, now));
        self.sessions.make_room(MAX_SESSIONS);
        let ghost room = self.sessions@;
        let expiry = Expiry(now + self.settings.session_ttl);
        let ghost text = session@;
        self.sessions.insert(session, expiry);
        assert(room_made(live, room, MAX_SESSIONS as nat) && self.sessions@ == room.insert(
            text,
            expiry,
        ));
        assert(self.model() == (AuthModel { sessions: self.model().sessions, ..old(self).model() }));
    }

    /// Exchanges a code, which can be used once, or the setup token for a session.
    pub fn exchange(&mut self, credential: &str) -> (outcome: Result<Option<String>, AuthError>)
        ensures
            old(self).model().exchanged_sometime(
                final(self).model(),
                credential@,
                outcome_text(outcome),
            ),
            old(self).model().exchanged_in(
                final(self).model(),
                credential@,
                old(self).clock(),
                final(self).clock(),
                outcome_text(outcome),
            ),
            !old(self).model().enabled() ==> outcome == Ok::<Option<String>, AuthError>(None)
                && final(self).model() == old(self).model(),
    {
        let now: u128 = self.now();
        let unix_now = self.clock.unix_now();
        if !self.redeem(credential, now, unix_now) {
            assert(old(self).model().exchanged(
                self.model(),
                credential@,
                now,
                unix_now,
                Ok(None),
            ));
            return Ok(None);
        }
        let ghost middle = self.model();
        let session = match random_url_token(SESSION_BYTES) {
            Ok(session) => session,
            Err(error) => {
                assert(old(self).model().exchanged(
                    self.model(),
                    credential@,
                    now,
                    unix_now,
                    Err(error),
                ));
                return Err(error);
            },
        };
        self.open_session(session.as_str().to_owned(), now);
        assert(old(self).model().redeemed(middle, credential@, now, unix_now));
        assert(old(self).model().exchanged(
            self.model(),
            credential@,
            now,
            unix_now,
            Ok(Some(session@)),
        ));
        Ok(Some(session))
    }

    /// Whether a session counts at a point in time.
    pub fn verify_session_at(&mut self, candidate: Option<&str>, now: u128) -> (valid: bool)
        ensures
            valid == old(self).model().authorizes(optional_text(candidate), now),
            final(self).model() == old(self).model().looked_up(optional_text(candidate), now),
            final(self).clock() == old(self).clock(),
    {
        if !self.is_enabled() {
            return true;
        }
        match candidate {
            None => false,
            Some(session) => {
                self.sessions.retain_live(now);
                self.sessions.contains(&session.to_owned())
            },
        }
    }

    /// Whether a session counts now.
    pub fn verify_session(&mut self, candidate: Option<&str>) -> (valid: bool)
        ensures
            final(self).clock().monotonic.last() <= MAX_NANOS,
            final(self).clock() == old(self).clock().monotonic_read(
                final(self).clock().monotonic.last(),
            ),
            valid == old(self).model().authorizes(
                optional_text(candidate),
                final(self).clock().monotonic.last(),
            ),
            final(self).model() == old(self).model().looked_up(
                optional_text(candidate),
                final(self).clock().monotonic.last(),
            ),
    {
        let now: u128 = self.now();
        self.verify_session_at(candidate, now)
    }

    pub fn revoke_session(&mut self, candidate: Option<&str>)
        ensures
            final(self).model() == old(self).model().revoked(optional_text(candidate)),
            final(self).clock() == old(self).clock(),
    {
        if let Some(session) = candidate {
            self.sessions.remove(&session.to_owned());
        }
    }
}

/// What a text is as a setup token.
pub open spec fn token_fault(token: Seq<char>) -> Option<AuthError> {
    match base64_url_decoded(token) {
        None => Some(AuthError::TokenText),
        Some(bytes) => if bytes.len() != TOKEN_BYTES {
            Some(AuthError::TokenLength)
        } else {
            None
        },
    }
}

/// The bytes of a setup token.
pub proof fn lemma_token_bytes(token: Seq<char>)
    requires
        url_token(token, TOKEN_BYTES as int),
    ensures
        encode_utf8(token).len() == 43,
{
    assert forall|i: int| 0 <= i < token.len() implies '\0' <= #[trigger] token[i] <= '\u{7f}' by {
        assert(url_safe(token[i]));
    }
    is_ascii_chars_encode_utf8(token);
}

pub fn validate_token(token: &str) -> (checked: Result<String, AuthError>)
    ensures
        match checked {
            Ok(text) => token_fault(token@) is None && text@ == token@ && url_token(
                token@,
                TOKEN_BYTES as int,
            ) && encode_utf8(token@).len() == 43,
            Err(error) => token_fault(token@) == Some(error),
        },
{
    match base64_decode(token) {
        Err(_) => Err(AuthError::TokenText),
        Ok(bytes) => if bytes.len() != TOKEN_BYTES {
            Err(AuthError::TokenLength)
        } else {
            proof {
                lemma_token_bytes(token@);
            }
            Ok(token.to_owned())
        },
    }
}

/// The setup token in the contents of its file: all of it but the white space around.
pub fn read_existing_token(contents: &str) -> (checked: Result<String, AuthError>)
    ensures
        match checked {
            Ok(text) => token_fault(trimmed(contents@)) is None && text@ == trimmed(contents@)
                && url_token(text@, TOKEN_BYTES as int) && encode_utf8(text@).len() == 43,
            Err(error) => token_fault(trimmed(contents@)) == Some(error),
        },
{
    validate_token(trim(contents).as_str())
}

} // verus!
