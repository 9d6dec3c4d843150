//! What holds of codes and sessions over several calls.

use super::digits::{
    big_endian, draw_of, law_every_draw_has_its_own_code, lemma_six_digits_are_one_piece,
    record_expired, record_of, six_digits, six_text, DRAW_BYTES, LOCAL_CODES,
};
use super::{
    after_seconds, AuthError, AuthModel, DEFAULT_PAIRING_CODE_TTL, DEFAULT_SESSION_TTL,
    MAX_SESSIONS, MAX_USED_PAIRING_CODES, SESSION_BYTES,
};
use crate::clock::{wall_reading, ClockLog, MAX_NANOS, NANOS_PER_SECOND};
use crate::crypto::{base64_url, base64_url_decoded, hmac_sha256, random_reading};
use crate::table::{live_part, oldest, room_made, Expiring, Expiry};
use crate::text::{decimal, digits_value, parsed_u64, split};
use vstd::prelude::*;
use vstd::utf8::encode_utf8;

verus! {

/// The seconds that the wall clock shows at a count of nanoseconds from the epoch.
pub open spec fn wall_seconds(nanos: int) -> int {
    nanos / (NANOS_PER_SECOND as int)
}

/// An accepted signed code is recorded as used until it expires.
pub proof fn law_accepted_code_is_recorded(
    before: AuthModel,
    after: AuthModel,
    code: Seq<char>,
    now: u128,
    unix_now: Option<u64>,
)
    requires
        before.redeemed(after, code, now, unix_now),
        before.accepts(code, now, unix_now),
        before.lifetime(code, unix_now) is Some,
    ensures
        after.used_pairing_codes.contains_key(code),
        after.used_pairing_codes[code] == after_seconds(now, before.lifetime(code, unix_now)->0),
{
}

/// A signed code that is recorded as used since a time is refused at every later time, as long as both
/// clocks run alike: either its record is still there, or it has expired.
pub proof fn law_recorded_code_is_refused(
    state: AuthModel,
    code: Seq<char>,
    used_at: u128,
    wall_at_use: nat,
    lifetime: u64,
    later: u128,
    unix_at_use: u64,
    unix_later: u64,
)
    requires
        !state.is_setup_token(code),
        used_at <= later <= MAX_NANOS,
        unix_at_use == wall_seconds(wall_at_use as int),
        unix_later == wall_seconds(wall_at_use + (later - used_at)),
        state.lifetime(code, Some(unix_at_use)) == Some(lifetime),
        state.used_pairing_codes.contains_key(code),
        state.used_pairing_codes[code] == after_seconds(used_at, lifetime),
    ensures
        !state.accepts(code, later, Some(unix_later)),
{
    if six_digits(code) {
        lemma_six_digits_are_one_piece(code);
    }
    if state.lifetime(code, Some(unix_later)) is Some {
        let remaining = state.lifetime(code, Some(unix_later))->0;
        assert(unix_later + remaining == unix_at_use + lifetime);
        assert(remaining > 0);
        let nanos = NANOS_PER_SECOND as int;
        let wall_later = wall_at_use + (later - used_at);
        assert(wall_later < (wall_later / nanos + 1) * nanos) by (nonlinear_arith)
            requires
                nanos > 0,
        ;
        assert(wall_at_use >= (wall_at_use as int / nanos) * nanos) by (nonlinear_arith)
            requires
                nanos > 0,
        ;
        assert((unix_later + 1) * nanos <= (unix_at_use + lifetime) * nanos) by (nonlinear_arith)
            requires
                nanos > 0,
                unix_later + 1 <= unix_at_use + lifetime,
        ;
        assert((unix_at_use + lifetime) * nanos == unix_at_use * nanos + lifetime * nanos)
            by (nonlinear_arith);
        assert(later < used_at + lifetime * nanos);
        assert(lifetime * nanos <= u64::MAX * nanos) by (nonlinear_arith)
            requires
                lifetime <= u64::MAX,
                nanos > 0,
        ;
        assert(after_seconds(used_at, lifetime).live(later));
        assert(state.used(code, later));
    }
}

/// A signed code opens one session: presented once more at any later time, it is refused.
pub proof fn law_code_is_single_use(
    before: AuthModel,
    after: AuthModel,
    code: Seq<char>,
    now: u128,
    wall_now: nat,
    later: u128,
    unix_now: u64,
    unix_later: u64,
)
    requires
        !before.is_setup_token(code),
        before.lifetime(code, Some(unix_now)) is Some,
        before.accepts(code, now, Some(unix_now)),
        before.redeemed(after, code, now, Some(unix_now)),
        now <= later <= MAX_NANOS,
        unix_now == wall_seconds(wall_now as int),
        unix_later == wall_seconds(wall_now + (later - now)),
    ensures
        !after.accepts(code, later, Some(unix_later)),
{
    law_accepted_code_is_recorded(before, after, code, now, Some(unix_now));
    let lifetime = before.lifetime(code, Some(unix_now))->0;
    law_recorded_code_is_refused(
        after,
        code,
        now,
        wall_now,
        lifetime,
        later,
        unix_now,
        unix_later,
    );
}

/// The record of a used code outlasts every credential that is presented before the code expires,
/// unless the records are at their limit and no other one ends earlier.
pub proof fn law_record_survives(
    before: AuthModel,
    after: AuthModel,
    other: Seq<char>,
    now: u128,
    unix_now: Option<u64>,
    code: Seq<char>,
)
    requires
        before.redeemed(after, other, now, unix_now),
        before.used(code, now),
        other != code,
        live_part(before.used_pairing_codes, now).len() < MAX_USED_PAIRING_CODES || !oldest(
            live_part(before.used_pairing_codes, now),
            code,
        ),
    ensures
        after.used_pairing_codes.contains_key(code),
        after.used_pairing_codes[code] == before.used_pairing_codes[code],
{
}

/// A local code is accepted before it expires, and never again once it was used, whatever the
/// clocks show.
pub proof fn law_local_code_is_accepted_once(
    before: AuthModel,
    used: AuthModel,
    expires: u64,
    draw: u32,
    now: u128,
    unix_now: u64,
    later: u128,
    unix_later: Option<u64>,
)
    requires
        before.enabled(),
        draw < LOCAL_CODES,
        unix_now < expires,
        before.recorded(expires, draw).redeemed(used, six_text(draw as int), now, Some(unix_now)),
    ensures
        before.recorded(expires, draw).accepts(six_text(draw as int), now, Some(unix_now)),
        !before.is_setup_token(six_text(draw as int)) ==> !used.accepts(
            six_text(draw as int),
            later,
            unix_later,
        ),
{
    law_every_draw_has_its_own_code(draw as int);
    lemma_six_digits_are_one_piece(six_text(draw as int));
}

/// A local code is refused from the time that it expires.
pub proof fn law_expired_local_code_is_refused(
    before: AuthModel,
    expires: u64,
    draw: u32,
    now: u128,
    unix_now: u64,
)
    requires
        before.enabled(),
        draw < LOCAL_CODES,
        !before.is_setup_token(six_text(draw as int)),
        expires <= unix_now,
    ensures
        !before.recorded(expires, draw).accepts(six_text(draw as int), now, Some(unix_now)),
{
    law_every_draw_has_its_own_code(draw as int);
    lemma_six_digits_are_one_piece(six_text(draw as int));
}

/// Only one local code is outstanding: issuing another leaves no trace of the one before, and what
/// is accepted then has the signature of the new one.
pub proof fn law_new_local_code_replaces_the_one_before(
    before: AuthModel,
    first_expires: u64,
    first_draw: u32,
    expires: u64,
    draw: u32,
    credential: Seq<char>,
    unix_now: Option<u64>,
)
    requires
        before.enabled(),
    ensures
        before.recorded(first_expires, first_draw).recorded(expires, draw) == before.recorded(
            expires,
            draw,
        ),
        before.recorded(first_expires, first_draw).recorded(expires, draw).is_outstanding(
            credential,
            unix_now,
        ) ==> record_of(before.setup_token->0, expires, credential) == record_of(
            before.setup_token->0,
            expires,
            six_text(draw as int),
        ),
{
}

/// A wrong credential takes a local code away only when that has expired.
pub proof fn law_wrong_credential_keeps_the_local_code(
    before: AuthModel,
    after: AuthModel,
    credential: Seq<char>,
    now: u128,
    unix_now: Option<u64>,
)
    requires
        before.outstanding matches Some(record) && !record_expired(record, unix_now),
        !before.is_outstanding(credential, unix_now),
        before.redeemed(after, credential, now, unix_now),
    ensures
        after.outstanding == before.outstanding,
{
}

/// A session counts from the time it is opened until its lifetime has passed, and no longer.
pub proof fn law_session_lasts_for_its_lifetime(
    before: AuthModel,
    after: AuthModel,
    session: Seq<char>,
    now: u128,
    later: u128,
)
    requires
        before.enabled(),
        now <= MAX_NANOS,
        before.session_ttl <= MAX_NANOS,
        before.opened(after, session, now),
    ensures
        after.authorizes(Some(session), later) == (later < now + before.session_ttl),
{
    let expiry = Expiry((now + before.session_ttl) as u128);
    assert(after.sessions.contains_key(session));
    assert(after.sessions[session] == expiry);
    assert(expiry.live(later) == (later < now + before.session_ttl));
}

/// Looking sessions up changes no later answer: activity does not lengthen a session.
pub proof fn law_activity_does_not_extend_sessions(
    state: AuthModel,
    candidate: Option<Seq<char>>,
    now: u128,
    session: Option<Seq<char>>,
    later: u128,
)
    requires
        now <= later,
    ensures
        state.looked_up(candidate, now).authorizes(session, later) == state.authorizes(
            session,
            later,
        ),
{
    if state.enabled() && candidate is Some && session is Some {
        let s = session->0;
        let live = live_part(state.sessions, now);
        assert(live.contains_key(s) == (state.sessions.contains_key(s) && state.sessions[s].live(
            now,
        )));
        assert(live_part(live, later).contains_key(s) == (live.contains_key(s) && live[s].live(
            later,
        )));
        assert(live_part(state.sessions, later).contains_key(s) == (state.sessions.contains_key(s)
            && state.sessions[s].live(later)));
    }
}

/// A revoked session does not count any more, and every other one is untouched.
pub proof fn law_revoked_session_is_refused(
    state: AuthModel,
    session: Seq<char>,
    other: Seq<char>,
    later: u128,
)
    requires
        state.enabled(),
    ensures
        !state.revoked(Some(session)).authorizes(Some(session), later),
        other != session ==> state.revoked(Some(session)).authorizes(Some(other), later)
            == state.authorizes(Some(other), later),
{
    let rest = state.revoked(Some(session)).sessions;
    assert(live_part(rest, later).contains_key(other) == (rest.contains_key(other)
        && rest[other].live(later)));
    assert(live_part(state.sessions, later).contains_key(other) == (state.sessions.contains_key(
        other,
    ) && state.sessions[other].live(later)));
}

/// Where authentication is off, everyone is let in and no credential opens a session.
pub proof fn law_disabled_lets_everyone_in(
    state: AuthModel,
    candidate: Option<Seq<char>>,
    credential: Seq<char>,
    now: u128,
    unix_now: Option<u64>,
)
    requires
        !state.enabled(),
    ensures
        state.authorizes(candidate, now),
        !state.accepts(credential, now, unix_now),
{
}

proof fn lemma_live_part_is_smaller(map: Map<Seq<char>, Expiry>, now: u128)
    requires
        map.dom().finite(),
    ensures
        live_part(map, now).dom().finite(),
        live_part(map, now).len() <= map.len(),
{
    vstd::set_lib::lemma_len_subset(live_part(map, now).dom(), map.dom());
}

/// The bounds on what is remembered.
pub open spec fn bounded(state: AuthModel) -> bool {
    &&& state.used_pairing_codes.dom().finite()
    &&& state.used_pairing_codes.len() <= MAX_USED_PAIRING_CODES
    &&& state.sessions.dom().finite()
    &&& state.sessions.len() <= MAX_SESSIONS
}

proof fn lemma_room_for_one(
    before: Map<Seq<char>, Expiry>,
    room: Map<Seq<char>, Expiry>,
    limit: nat,
    key: Seq<char>,
    value: Expiry,
)
    requires
        before.dom().finite(),
        before.len() <= limit,
        room_made(before, room, limit),
    ensures
        room.insert(key, value).dom().finite(),
        room.insert(key, value).len() <= limit,
{
    if before.len() >= limit {
        let gone = choose|id: Seq<char>| #[trigger]
            oldest(before, id) && room == before.remove(id);
        assert(room.dom() =~= before.dom().remove(gone));
    }
    assert(room.insert(key, value).dom() =~= room.dom().insert(key));
}

/// The memory that credentials and sessions take is bounded: it is at the start, and no step goes
/// beyond the limits.
pub proof fn law_memory_stays_bounded(
    before: AuthModel,
    after: AuthModel,
    text: Seq<char>,
    candidate: Option<Seq<char>>,
    now: u128,
    unix_now: Option<u64>,
    outcome: Result<Option<Seq<char>>, AuthError>,
)
    requires
        bounded(before),
    ensures
        bounded(AuthModel::fresh(before.setup_token, before.pairing_code_ttl, before.session_ttl)),
        before.issued(after, outcome) ==> bounded(after),
        before.redeemed(after, text, now, unix_now) ==> bounded(after),
        before.opened(after, text, now) ==> bounded(after),
        bounded(before.looked_up(candidate, now)),
        bounded(before.revoked(candidate)),
{
    let used = live_part(before.used_pairing_codes, now);
    let sessions = live_part(before.sessions, now);
    lemma_live_part_is_smaller(before.used_pairing_codes, now);
    lemma_live_part_is_smaller(before.sessions, now);
    if before.redeemed(after, text, now, unix_now) && before.enabled() && before.accepts(
        text,
        now,
        unix_now,
    ) && before.lifetime(text, unix_now) is Some {
        let expiry = after_seconds(now, before.lifetime(text, unix_now)->0);
        let room = choose|room: Map<Seq<char>, Expiry>| #[trigger]
            room_made(used, room, MAX_USED_PAIRING_CODES as nat) && after.used_pairing_codes
                == room.insert(text, expiry);
        lemma_room_for_one(used, room, MAX_USED_PAIRING_CODES as nat, text, expiry);
    }
    if before.opened(after, text, now) {
        let expiry = Expiry((now + before.session_ttl) as u128);
        let room = choose|room: Map<Seq<char>, Expiry>| #[trigger]
            room_made(sessions, room, MAX_SESSIONS as nat) && after.sessions == room.insert(
                text,
                expiry,
            );
        lemma_room_for_one(sessions, room, MAX_SESSIONS as nat, text, expiry);
    }
    if let Some(session) = candidate {
        assert(before.sessions.remove(session).dom() =~= before.sessions.dom().remove(session));
    }
}

/// A local code expires so many seconds after the reading of the wall clock that was made when it
/// was issued as the lifetime of codes has: before that it is accepted, and from then on it is
/// refused. It is the number that the random generator gave, in six digits.
pub proof fn law_issued_code_expires(
    before: AuthModel,
    after: AuthModel,
    clock: ClockLog,
    clock_after: ClockLog,
    code: Seq<char>,
    now: u128,
    later: u64,
)
    requires
        before.pairing_code_ttl <= MAX_NANOS,
        before.issued_in(after, clock, clock_after, Ok(Some(code))),
    ensures
        clock_after.wall.len() == clock.wall.len() + 1,
        ({
            let shown = clock_after.wall[clock.wall.len() as int];
            &&& wall_reading(shown)
            &&& shown matches Some(issued_at) && {
                &&& !before.is_setup_token(code) && later >= issued_at + before.pairing_code_ttl
                    / 1_000_000_000 ==> !after.accepts(code, now, Some(later))
                &&& later < issued_at + before.pairing_code_ttl / 1_000_000_000
                    ==> after.accepts(code, now, Some(later))
            }
        }),
        exists|random: Seq<u8>| #[trigger]
            random_reading(16, Some(random)) && digits_value(code) == big_endian(random)
                % 1_000_000,
        after.sessions == before.sessions,
        after.used_pairing_codes == before.used_pairing_codes,
        after.setup_token == before.setup_token,
{
    let shown = clock_after.wall.last();
    let random = choose|random: Option<Seq<u8>>| #[trigger]
        before.issued_when(after, shown, random, Ok(Some(code)));
    let draw = draw_of(random)->0;
    law_every_draw_has_its_own_code(draw as int);
    lemma_six_digits_are_one_piece(code);
    assert(random_reading(DRAW_BYTES, Some(random->0)));
    assert(before.code_seconds() == before.pairing_code_ttl / 1_000_000_000);
}

/// A session opens on a credential exactly where that is the setup token, a local code, or a signed
/// code that was not used; it is a text that the random generator gave, and it counts from the
/// reading of the monotonic clock that was made for it until its lifetime has passed.
pub proof fn law_exchange_opens_one_session(
    before: AuthModel,
    after: AuthModel,
    credential: Seq<char>,
    clock: ClockLog,
    clock_after: ClockLog,
    session: Seq<char>,
    later: u128,
)
    requires
        before.session_ttl <= MAX_NANOS,
        before.exchanged_in(after, credential, clock, clock_after, Ok(Some(session))),
    ensures
        clock_after.monotonic.len() == clock.monotonic.len() + 1,
        clock_after.wall.len() == clock.wall.len() + 1,
        before.setup_token is Some,
        after.setup_token == before.setup_token,
        after.authorizes(Some(session), later) <==> later
            < clock_after.monotonic[clock.monotonic.len() as int] + before.session_ttl,
        exists|random: Seq<u8>| #[trigger]
            random_reading(32, Some(random)) && session == base64_url(random),
{
    let now = clock_after.monotonic.last();
    let unix_now = clock_after.wall.last();
    let middle = choose|middle: AuthModel| #[trigger]
        before.redeemed(middle, credential, now, unix_now) && middle.opened(after, session, now);
    law_session_lasts_for_its_lifetime(middle, after, session, now, later);
    let random = choose|random: Seq<u8>| #[trigger]
        random_reading(SESSION_BYTES, Some(random)) && random.len() == SESSION_BYTES && session
            == base64_url(random);
    assert(random_reading(32, Some(random)));
}

/// A credential that is refused opens nothing: no session counts that did not count before.
pub proof fn law_refused_credential_opens_nothing(
    before: AuthModel,
    after: AuthModel,
    credential: Seq<char>,
    clock: ClockLog,
    clock_after: ClockLog,
    outcome: Result<Option<Seq<char>>, AuthError>,
    session: Seq<char>,
    later: u128,
)
    requires
        before.exchanged_in(after, credential, clock, clock_after, outcome),
        !(outcome matches Ok(Some(_))),
    ensures
        after.sessions == before.sessions,
        after.authorizes(Some(session), later) == before.authorizes(Some(session), later),
        outcome matches Err(error) ==> error == AuthError::Random && random_reading(32, None),
{
}

/// The setup token is always accepted, however often it was used.
pub proof fn law_setup_token_is_always_accepted(
    state: AuthModel,
    credential: Seq<char>,
    now: u128,
    unix_now: Option<u64>,
)
    requires
        state.setup_token == Some(encode_utf8(credential)),
    ensures
        state.accepts(credential, now, unix_now),
{
}

/// Whatever else is accepted has the signature of the setup token: six digits whose record holds
/// the signature of its expiry and them, or a text of four parts that ends in the signature of the
/// first three. Either has not expired.
pub proof fn law_accepted_credential_is_signed(
    state: AuthModel,
    credential: Seq<char>,
    now: u128,
    unix_now: Option<u64>,
)
    requires
        state.accepts(credential, now, unix_now),
    ensures
        state.setup_token matches Some(token) && {
            ||| encode_utf8(credential) == token
            ||| unix_now matches Some(shown) && {
                ||| {
                    &&& credential.len() == 6
                    &&& state.outstanding matches Some(record) && shown < record.expires
                        && record.tag == hmac_sha256(
                        token,
                        encode_utf8(decimal(record.expires as nat) + seq!['.'] + credential),
                    )
                }
                ||| {
                    let parts = split(credential, '.');
                    &&& parts.len() == 4
                    &&& parts[0] == "p1"@
                    &&& parsed_u64(parts[1]) matches Some(expires) && shown < expires && expires
                        - shown <= state.code_seconds()
                    &&& base64_url_decoded(parts[2]) matches Some(nonce) && nonce.len() == 12
                    &&& base64_url_decoded(parts[3]) == Some(
                        hmac_sha256(
                            token,
                            encode_utf8(
                                "p1"@ + seq!['.'] + (parts[1] + seq!['.'] + parts[2]),
                            ),
                        ),
                    )
                    &&& !(state.used_pairing_codes.contains_key(credential)
                        && state.used_pairing_codes[credential].0 > now)
                }
            }
        },
{
}

/// No session outlives its end.
pub open spec fn ends_by(state: AuthModel, session: Seq<char>, end: int) -> bool {
    state.sessions.contains_key(session) ==> state.sessions[session].0 <= end
}

/// A session that was opened at a time ends when its lifetime has passed, and nothing that happens
/// to the authenticator afterwards puts its end off: no credential, no other session, no look at
/// it, no logout and no new code. From its end on it does not count.
pub proof fn law_nothing_puts_off_the_end_of_a_session(
    before: AuthModel,
    after: AuthModel,
    session: Seq<char>,
    other: Seq<char>,
    candidate: Option<Seq<char>>,
    now: u128,
    unix_now: Option<u64>,
    outcome: Result<Option<Seq<char>>, AuthError>,
    end: int,
)
    requires
        now <= MAX_NANOS,
        before.session_ttl <= MAX_NANOS,
    ensures
        before.opened(after, session, now) && end == now + before.session_ttl ==> ends_by(
            after,
            session,
            end,
        ),
        ends_by(before, session, end) && other != session && before.opened(after, other, now)
            ==> ends_by(after, session, end),
        ends_by(before, session, end) && before.redeemed(after, other, now, unix_now) ==> ends_by(
            after,
            session,
            end,
        ),
        ends_by(before, session, end) && before.issued(after, outcome) ==> ends_by(
            after,
            session,
            end,
        ),
        ends_by(before, session, end) ==> ends_by(before.looked_up(candidate, now), session, end),
        ends_by(before, session, end) ==> ends_by(before.revoked(candidate), session, end),
        ends_by(before, session, end) && before.enabled() && now >= end ==> !before.authorizes(
            Some(session),
            now,
        ),
{
}

/// A session counts exactly where authentication is off, or where it is open and its end lies
/// ahead.
pub proof fn law_authorized_sessions(state: AuthModel, candidate: Option<Seq<char>>, now: u128)
    ensures
        state.authorizes(candidate, now) <==> state.setup_token is None || (
        candidate matches Some(session) && state.sessions.contains_key(session)
            && state.sessions[session].0 > now),
{
}

/// The lifetimes that nothing is said about are five minutes and twelve hours.
pub proof fn law_default_lifetimes(setup_token: Option<Seq<u8>>)
    ensures
        ({
            let state = AuthModel::fresh(
                setup_token,
                DEFAULT_PAIRING_CODE_TTL,
                DEFAULT_SESSION_TTL,
            );
            &&& state.code_seconds() == 5 * 60
            &&& state.session_ttl == 12 * 60 * 60 * 1_000_000_000
            &&& state.outstanding is None
            &&& forall|session: Seq<char>| !state.sessions.contains_key(session)
            &&& forall|code: Seq<char>| !state.used_pairing_codes.contains_key(code)
        }),
{
}

/// Opening a session pushes out no other one, as long as fewer than thirty-two are open; then it
/// pushes out one that ends no later than the others.
pub proof fn law_sessions_have_room(
    before: AuthModel,
    after: AuthModel,
    session: Seq<char>,
    other: Seq<char>,
    now: u128,
)
    requires
        before.opened(after, session, now),
        other != session,
    ensures
        after.sessions.contains_key(other) ==> before.sessions.contains_key(other)
            && after.sessions[other] == before.sessions[other] && before.sessions[other].0 > now,
        live_part(before.sessions, now).len() < 32 && before.sessions.contains_key(other)
            && before.sessions[other].0 > now ==> after.sessions.contains_key(other)
            && after.sessions[other] == before.sessions[other],
        before.sessions.contains_key(other) && before.sessions[other].0 > now
            && !after.sessions.contains_key(other) ==> forall|third: Seq<char>|
            after.sessions.contains_key(third) && third != session ==> before.sessions[other].0
                <= (#[trigger] after.sessions[third]).0,
{
    let live = live_part(before.sessions, now);
    let expiry = Expiry((now + before.session_ttl) as u128);
    let room = choose|room: Map<Seq<char>, Expiry>| #[trigger]
        room_made(live, room, MAX_SESSIONS as nat) && after.sessions == room.insert(
            session,
            expiry,
        );
    crate::table::law_room_costs_the_oldest(live, room, MAX_SESSIONS as nat);
    crate::table::law_live_part(before.sessions, now, other);
    if before.sessions.contains_key(other) && before.sessions[other].0 > now
        && !after.sessions.contains_key(other) {
        let gone = choose|id: Seq<char>| #[trigger] oldest(live, id) && room == live.remove(id);
        assert(gone == other);
        assert forall|third: Seq<char>|
            after.sessions.contains_key(third) && third != session implies before.sessions[other].0
            <= (#[trigger] after.sessions[third]).0 by {
            assert(live.contains_key(third));
        }
    }
}

/// A used code is remembered up to its expiry, as long as fewer than a thousand and twenty-four
/// others are.
pub proof fn law_used_codes_have_room(
    before: AuthModel,
    after: AuthModel,
    code: Seq<char>,
    other: Seq<char>,
    now: u128,
    unix_now: Option<u64>,
)
    requires
        before.redeemed(after, code, now, unix_now),
        before.enabled(),
        other != code,
        live_part(before.used_pairing_codes, now).len() < 1_024,
        before.used_pairing_codes.contains_key(other),
        before.used_pairing_codes[other].0 > now,
    ensures
        after.used_pairing_codes.contains_key(other),
        after.used_pairing_codes[other] == before.used_pairing_codes[other],
{
    crate::table::law_live_part(before.used_pairing_codes, now, other);
}

} // verus!
