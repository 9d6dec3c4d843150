//! The local pairing service: who may ask it for a code, and what it answers.

use crate::auth::digits::{draw_of, is_six_digits, law_every_draw_has_its_own_code, six_digits};
use crate::auth::laws::{law_issued_code_expires, law_local_code_is_accepted_once};
use crate::auth::{outcome_text, AuthError, AuthModel, Authenticator};
use crate::clock::{ClockLog, MAX_NANOS};
use crate::crypto::random_reading;
use crate::text::{chars_of, is_digit, text_between, trim, trimmed, trimmed_end, trimmed_start};
use vstd::prelude::*;
use vstd::string::*;

verus! {

/// The longest answer that is read.
pub const MAX_RESPONSE_BYTES: u64 = 256;

pub const ERROR_PREFIX: &'static str = "error: ";

/// Root, the owner of the socket and the listed users may ask.
pub open spec fn uid_allowed(peer_uid: u32, owner_uid: u32, allowed_uids: Seq<u32>) -> bool {
    peer_uid == 0 || peer_uid == owner_uid || allowed_uids.contains(peer_uid)
}

pub fn peer_uid_allowed(peer_uid: u32, owner_uid: u32, allowed_uids: &[u32]) -> (allowed: bool)
    ensures
        allowed == uid_allowed(peer_uid, owner_uid, allowed_uids@),
{
    if peer_uid == 0 || peer_uid == owner_uid {
        return true;
    }
    let mut i: usize = 0;
    while i < allowed_uids.len()
        invariant
            i <= allowed_uids@.len(),
            forall|j: int| 0 <= j < i ==> allowed_uids@[j] != peer_uid,
        decreases allowed_uids@.len() - i,
    {
        if allowed_uids[i] == peer_uid {
            return true;
        }
        i = i + 1;
    }
    false
}

/// The line that a caller gets for the outcome of issuing a code.
pub open spec fn reply_line(code: Result<Option<Seq<char>>, AuthError>) -> Seq<char> {
    match code {
        Ok(Some(code)) => code + "\n"@,
        Ok(None) => "error: authentication is disabled\n"@,
        Err(_) => "error: pairing service failed to create a code\n"@,
    }
}

pub fn pairing_reply(code: Result<Option<String>, AuthError>) -> (line: String)
    ensures
        line@ == reply_line(outcome_text(code)),
{
    match code {
        Ok(Some(code)) => code.concat("\n"),
        Ok(None) => "error: authentication is disabled\n".to_owned(),
        Err(_) => "error: pairing service failed to create a code\n".to_owned(),
    }
}

/// The service, as far as it decides: who owns its socket, and who else may ask.
#[derive(Debug)]
pub struct LocalPairingServer {
    pub owner_uid: u32,
    pub allowed_uids: Vec<u32>,
}

impl LocalPairingServer {
    /// The line for a caller that is refused. A caller without a known user is refused.
    pub open spec fn refusal_line(self, peer_uid: Option<u32>) -> Option<Seq<char>> {
        match peer_uid {
            None => Some("error: local pairing caller could not be identified\n"@),
            Some(uid) => if uid_allowed(uid, self.owner_uid, self.allowed_uids@) {
                None
            } else {
                Some("error: this local user is not allowed to request pairing codes\n"@)
            },
        }
    }

    pub fn refusal(&self, peer_uid: Option<u32>) -> (line: Option<String>)
        ensures
            match line {
                Some(line) => self.refusal_line(peer_uid) == Some(line@),
                None => self.refusal_line(peer_uid) is None,
            },
    {
        match peer_uid {
            None => Some("error: local pairing caller could not be identified\n".to_owned()),
            Some(uid) => if peer_uid_allowed(uid, self.owner_uid, self.allowed_uids.as_slice()) {
                None
            } else {
                Some(
                    "error: this local user is not allowed to request pairing codes\n".to_owned(),
                )
            },
        }
    }

    /// The line for a caller. A code is issued only for a caller that is allowed to ask.
    pub fn answer(&self, peer_uid: Option<u32>, auth: &mut Authenticator) -> (line: String)
        ensures
            self.answered(
                peer_uid,
                old(auth).model(),
                final(auth).model(),
                old(auth).clock(),
                final(auth).clock(),
                line@,
            ),
    {
        match self.refusal(peer_uid) {
            Some(line) => line,
            None => {
                let code = auth.issue_pairing_code();
                assert(old(auth).model().issued_in(
                    auth.model(),
                    old(auth).clock(),
                    auth.clock(),
                    outcome_text(code),
                ));
                pairing_reply(code)
            },
        }
    }

    /// What holds of an answer, whatever the clock and the random generator gave.
    pub open spec fn answered(
        self,
        peer_uid: Option<u32>,
        before: AuthModel,
        after: AuthModel,
        clock: ClockLog,
        clock_after: ClockLog,
        line: Seq<char>,
    ) -> bool {
        match self.refusal_line(peer_uid) {
            Some(refusal) => line == refusal && after == before && clock_after == clock,
            None => exists|outcome: Result<Option<Seq<char>>, AuthError>| #[trigger]
                before.issued_in(after, clock, clock_after, outcome) && line == reply_line(outcome),
        }
    }
}

/// Why no code was had from the service.
#[derive(Debug)]
pub enum PairingRequestError {
    /// The service refused, for this reason.
    Refused(String),
    InvalidResponse,
    /// The socket could not be used.
    Socket(String),
    /// Something that is no socket lies at this path.
    NotASocket(String),
}

impl PairingRequestError {
    pub open spec fn description(self) -> Seq<char> {
        match self {
            PairingRequestError::Refused(reason) => reason@,
            PairingRequestError::InvalidResponse => {
                "pairing service returned an invalid response"@
            },
            PairingRequestError::Socket(detail) => detail@,
            PairingRequestError::NotASocket(path) => {
                "refusing to replace non-socket pairing path "@ + path@
            },
        }
    }

    pub fn message(&self) -> (message: String)
        ensures
            message@ == self.description(),
    {
        match self {
            PairingRequestError::Refused(reason) => reason.as_str().to_owned(),
            PairingRequestError::InvalidResponse => {
                "pairing service returned an invalid response".to_owned()
            },
            PairingRequestError::Socket(detail) => detail.as_str().to_owned(),
            PairingRequestError::NotASocket(path) => {
                "refusing to replace non-socket pairing path ".to_owned().concat(path.as_str())
            },
        }
    }
}

/// The reason in an answer that is an error.
pub open spec fn refusal_reason(answer: Seq<char>) -> Option<Seq<char>> {
    if "error: "@.is_prefix_of(answer) {
        Some(answer.skip("error: "@.len() as int))
    } else {
        None
    }
}

/// The code in the answer of the service: six digits, or the reason why there is none.
pub fn request_pairing_code(response: &str) -> (code: Result<String, PairingRequestError>)
    ensures
        match code {
            Ok(code) => code@ == trimmed(response@) && six_digits(code@) && refusal_reason(
                code@,
            ) is None,
            Err(PairingRequestError::Refused(reason)) => refusal_reason(trimmed(response@)) == Some(
                reason@,
            ),
            Err(error) => error is InvalidResponse && refusal_reason(trimmed(response@)) is None
                && !six_digits(trimmed(response@)),
        },
{
    let answer = trim(response);
    let chars = chars_of(answer.as_str());
    proof {
        reveal_strlit("error: ");
    }
    if chars.len() >= 7 && chars[0] == 'e' && chars[1] == 'r' && chars[2] == 'r' && chars[3] == 'o'
        && chars[4] == 'r' && chars[5] == ':' && chars[6] == ' ' {
        let reason = text_between(&chars, 7, chars.len());
        assert("error: "@ =~= chars@.take(7));
        assert(reason@ =~= chars@.skip(7));
        return Err(PairingRequestError::Refused(reason));
    }
    assert(!"error: "@.is_prefix_of(chars@)) by {
        if "error: "@.is_prefix_of(chars@) {
            let prefix = chars@.subrange(0, 7);
            assert("error: "@ == prefix);
            assert(prefix[0] == chars@[0] && prefix[1] == chars@[1] && prefix[2] == chars@[2]
                && prefix[3] == chars@[3] && prefix[4] == chars@[4] && prefix[5] == chars@[5]
                && prefix[6] == chars@[6]);
        }
    }
    if !is_six_digits(answer.as_str()) {
        return Err(PairingRequestError::InvalidResponse);
    }
    Ok(answer)
}

/// What lies at the path of the socket.
#[derive(Debug)]
pub enum SocketPath {
    Socket,
    Other,
    Missing,
    Failed(String),
}

/// Whether the path has to be cleared before the socket is bound: a socket that was left behind
/// is removed, and nothing else ever is.
pub fn stale_socket(path: &str, found: SocketPath) -> (remove: Result<bool, PairingRequestError>)
    ensures
        match found {
            SocketPath::Socket => remove == Ok::<bool, PairingRequestError>(true),
            SocketPath::Missing => remove == Ok::<bool, PairingRequestError>(false),
            SocketPath::Other => remove matches Err(PairingRequestError::NotASocket(name)) && name@
                == path@,
            SocketPath::Failed(detail) => remove == Err::<bool, PairingRequestError>(
                PairingRequestError::Socket(detail),
            ),
        },
{
    match found {
        SocketPath::Socket => Ok(true),
        SocketPath::Missing => Ok(false),
        SocketPath::Other => Err(PairingRequestError::NotASocket(path.to_owned())),
        SocketPath::Failed(detail) => Err(PairingRequestError::Socket(detail)),
    }
}

/// The local client reads the code that the service answered.
pub proof fn law_local_client_reads_the_code(code: Seq<char>)
    requires
        six_digits(code),
    ensures
        trimmed(reply_line(Ok(Some(code)))) == code,
        refusal_reason(code) is None,
{
    reveal_strlit("\n");
    reveal_strlit("error: ");
    let line = reply_line(Ok(Some(code)));
    assert(is_digit(code[0]));
    assert(line[0] == code[0]);
    assert(trimmed_start(line) == line);
    assert(line.last() == '\n');
    assert(line.drop_last() =~= code);
    assert(is_digit(code[5]));
    assert(code.last() == code[5]);
    assert(trimmed_end(code) == code);
    assert(trimmed_end(line) == trimmed_end(line.drop_last()));
}

/// What the local client gets from the service is a code of six digits that opens a session before
/// it expires, and never a second one.
pub proof fn law_local_pairing_works(
    before: AuthModel,
    issued: AuthModel,
    code: Seq<char>,
    issued_at: u64,
    draw: u32,
    used: AuthModel,
    now: u128,
    unix_now: u64,
    later: u128,
    unix_later: Option<u64>,
)
    requires
        before.enabled(),
        before.issued_at(issued, Some(issued_at), Some(draw), Ok(Some(code))),
        unix_now < issued_at + before.code_seconds(),
        issued.redeemed(used, code, now, Some(unix_now)),
    ensures
        six_digits(code),
        trimmed(reply_line(Ok(Some(code)))) == code,
        refusal_reason(code) is None,
        issued.accepts(code, now, Some(unix_now)),
        !before.is_setup_token(code) ==> !used.accepts(code, later, unix_later),
{
    let expires = (issued_at + before.code_seconds()) as u64;
    law_every_draw_has_its_own_code(draw as int);
    law_local_client_reads_the_code(code);
    law_local_code_is_accepted_once(
        before,
        used,
        expires,
        draw,
        now,
        unix_now,
        later,
        unix_later,
    );
}

/// Root, the owner of the socket and the users that the configuration lists get an answer of the
/// service; any other user, and a caller that cannot be identified, is refused with an error and
/// leaves everything as it was.
pub proof fn law_strangers_get_no_code(
    service: LocalPairingServer,
    peer_uid: Option<u32>,
    before: AuthModel,
    after: AuthModel,
    clock: ClockLog,
    clock_after: ClockLog,
    line: Seq<char>,
)
    requires
        service.answered(peer_uid, before, after, clock, clock_after, line),
        !(peer_uid matches Some(uid) && (uid == 0 || uid == service.owner_uid
            || service.allowed_uids@.contains(uid))),
    ensures
        after == before,
        clock_after == clock,
        refusal_reason(line) is Some,
{
    reveal_strlit("error: ");
    reveal_strlit("error: local pairing caller could not be identified\n");
    reveal_strlit("error: this local user is not allowed to request pairing codes\n");
    assert("error: "@ =~= line.subrange(0, 7));
}

/// A caller that may ask gets a code of six digits that is accepted from then on until it expires,
/// or a reason why there is none.
pub proof fn law_callers_get_a_code(
    service: LocalPairingServer,
    uid: u32,
    before: AuthModel,
    after: AuthModel,
    clock: ClockLog,
    clock_after: ClockLog,
    line: Seq<char>,
    now: u128,
    later: u64,
)
    requires
        before.pairing_code_ttl <= MAX_NANOS,
        service.answered(Some(uid), before, after, clock, clock_after, line),
        uid == 0 || uid == service.owner_uid || service.allowed_uids@.contains(uid),
    ensures
        refusal_reason(line) is None ==> {
            let code = trimmed(line);
            &&& six_digits(code)
            &&& before.setup_token is Some
            &&& clock_after.wall.last() matches Some(issued_at) && (later < issued_at
                + before.pairing_code_ttl / 1_000_000_000 ==> after.accepts(
                code,
                now,
                Some(later),
            ))
        },
        refusal_reason(line) is Some ==> after == before,
        before.setup_token is None ==> refusal_reason(line) is Some,
        before.setup_token is Some && refusal_reason(line) is Some ==> {
            ||| clock_after.wall.last() is None
            ||| clock_after.wall.last()->0 + before.pairing_code_ttl / 1_000_000_000
                > 0xffff_ffff_ffff_ffff
            ||| random_reading(16, None)
        },
{
    reveal_strlit("error: ");
    reveal_strlit("error: authentication is disabled\n");
    reveal_strlit("error: pairing service failed to create a code\n");
    reveal_strlit("\n");
    let outcome = choose|outcome: Result<Option<Seq<char>>, AuthError>| #[trigger]
        before.issued_in(after, clock, clock_after, outcome) && line == reply_line(outcome);
    match outcome {
        Ok(Some(code)) => {
            let shown = clock_after.wall.last();
            let random = choose|random: Option<Seq<u8>>| #[trigger]
                before.issued_when(after, shown, random, outcome);
            law_every_draw_has_its_own_code(draw_of(random)->0 as int);
            law_local_client_reads_the_code(code);
            law_issued_code_expires(before, after, clock, clock_after, code, now, later);
            assert(!"error: "@.is_prefix_of(line)) by {
                if "error: "@.is_prefix_of(line) {
                    assert("error: "@ == line.subrange(0, 7));
                    assert(line.subrange(0, 7)[0] == line[0]);
                    assert(is_digit(code[0]));
                    assert(line[0] == code[0]);
                }
            }
        },
        _ => {
            assert("error: "@ =~= line.subrange(0, 7));
            if before.setup_token is Some {
                let shown = clock_after.wall.last();
                let random = choose|random: Option<Seq<u8>>| #[trigger]
                    before.issued_when(after, shown, random, outcome);
                assert(before.code_seconds() == before.pairing_code_ttl / 1_000_000_000);
                if random is Some {
                    assert(draw_of(random) is Some);
                }
            }
        },
    }
}

} // verus!
