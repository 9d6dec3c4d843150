//! What holds of requests over several calls.

use super::request::{
    law_cookie_attributes, law_cookie_names_its_session, law_expired_cookie_is_empty, plain,
    session_in, RequestHead,
};
use super::{bare, credential_fits, PairStepModel, ReplyBody, ReplyModel, ServerModel};
use crate::address::IpAddress;
use crate::auth::digits::{law_every_draw_has_its_own_code, six_digits, six_text, LOCAL_CODES};
use crate::auth::laws::{
    ends_by, law_exchange_opens_one_session, law_session_lasts_for_its_lifetime,
};
use crate::auth::pairing::{accepted_until, code_shaped};
use crate::auth::{drawn_token, AuthError, AuthModel, SESSION_BYTES};
use crate::clock::{ClockLog, MAX_NANOS};
use crate::crypto::{random_reading, url_safe};
use crate::server::attempts::{attempt_allowed, attempted};
use crate::text::{decimal, is_digit, split, trimmed, trimmed_end, trimmed_start, white_space};
use vstd::prelude::*;
use vstd::utf8::{encode_utf8, is_ascii_chars_encode_utf8};

verus! {

/// A page of a foreign origin is refused everything, and changes nothing.
pub proof fn law_foreign_origin_is_refused(
    server: ServerModel,
    remote: IpAddress,
    head: RequestHead,
    code: Seq<char>,
    now: u128,
)
    requires
        !server.trusts(head),
    ensures
        server.pair_step(remote, head, code, now) == PairStepModel::Reply(
            bare(403, ReplyBody::OriginRejected),
        ),
        server.counted(remote, head, now) == server,
        server.logout_reply(head) == bare(403, ReplyBody::OriginRejected),
        server.logged_out(head) == server,
        server.channel_refusal(head, now) == Some(bare(403, ReplyBody::OriginRejected)),
        server.channel_asked(head, now) == server,
{
}

/// There are never more controllers than seats.
pub proof fn law_controllers_keep_to_the_limit(server: ServerModel, head: RequestHead, now: u128)
    requires
        server.active_clients <= server.max_clients,
    ensures
        server.channel_asked(head, now).active_clients <= server.max_clients,
        server.channel_closed().active_clients <= server.max_clients,
{
}

/// A channel that is granted and closed leaves every seat as it was.
pub proof fn law_closed_channel_frees_its_seat(server: ServerModel, head: RequestHead, now: u128)
    requires
        server.channel_refusal(head, now) is None,
    ensures
        server.channel_asked(head, now).active_clients == server.active_clients + 1,
        server.channel_asked(head, now).channel_closed().active_clients == server.active_clients,
{
}

/// A session that was opened gets a channel from a trusted page, until it expires and as long as
/// there is a free seat.
pub proof fn law_open_session_gets_a_channel(
    before: AuthModel,
    server: ServerModel,
    head: RequestHead,
    session: Seq<char>,
    opened_at: u128,
    now: u128,
)
    requires
        before.enabled(),
        before.session_ttl <= MAX_NANOS,
        opened_at <= MAX_NANOS,
        before.opened(server.auth, session, opened_at),
        head.session() == Some(session),
        server.trusts(head),
        server.active_clients < server.max_clients,
    ensures
        server.channel_refusal(head, now) is None <==> now < opened_at + before.session_ttl,
{
    law_session_lasts_for_its_lifetime(before, server.auth, session, opened_at, now);
}

/// Who logs out gets no channel with the old session.
pub proof fn law_logged_out_session_gets_no_channel(
    server: ServerModel,
    head: RequestHead,
    now: u128,
)
    requires
        server.auth.enabled(),
        server.trusts(head),
        head.session() is Some,
    ensures
        server.logged_out(head).channel_refusal(head, now) == Some(
            bare(401, ReplyBody::AuthenticationFailed),
        ),
{
    crate::auth::laws::law_revoked_session_is_refused(
        server.auth,
        head.session()->0,
        head.session()->0,
        now,
    );
}

/// A local code is presented as it was issued.
pub proof fn lemma_local_code_is_presentable(code: Seq<char>)
    requires
        six_digits(code),
    ensures
        trimmed(code) == code,
        credential_fits(code),
{
    assert(is_digit(code[0]));
    assert(trimmed_start(code) == code);
    assert(is_digit(code[5]));
    assert(code.last() == code[5]);
    assert(trimmed_end(code) == code);
    assert forall|i: int| 0 <= i < code.len() implies '\0' <= #[trigger] code[i] <= '\u{7f}' by {
        assert(is_digit(code[i]));
    }
    is_ascii_chars_encode_utf8(code);
}

/// A local code that was issued opens a session for a trusted page until it expires, as long as
/// the page's address has attempts left.
pub proof fn law_local_code_pairs(
    server: ServerModel,
    remote: IpAddress,
    head: RequestHead,
    expires: u64,
    draw: u32,
    now: u128,
    unix_now: u64,
)
    requires
        server.auth.enabled(),
        draw < LOCAL_CODES,
        unix_now < expires,
        server.trusts(head),
        attempt_allowed(server.windows, remote, now),
    ensures
        ({
            let issued = ServerModel { auth: server.auth.recorded(expires, draw), ..server };
            let code = six_text(draw as int);
            &&& issued.pair_step(remote, head, code, now) == PairStepModel::Exchange(code)
            &&& issued.auth.accepts(code, now, Some(unix_now))
        }),
{
    law_every_draw_has_its_own_code(draw as int);
    lemma_local_code_is_presentable(six_text(draw as int));
}

/// A signed code is presented as it was issued: it is of a fitting length and has no white space around.
pub proof fn lemma_code_is_presentable(code: Seq<char>)
    requires
        code_shaped(code),
    ensures
        trimmed(code) == code,
        credential_fits(code),
{
    assert(url_safe(code[0]) || code[0] == '.');
    assert(trimmed_start(code) == code);
    assert(code.last() == code[code.len() - 1]);
    assert(trimmed_end(code) == code);
    assert forall|i: int| 0 <= i < code.len() implies '\0' <= #[trigger] code[i] <= '\u{7f}' by {
        assert(url_safe(code[i]) || code[i] == '.');
    }
    is_ascii_chars_encode_utf8(code);
}

/// A signed code that was not used opens a session for a trusted page within its lifetime, as long
/// as the page's address has attempts left.
pub proof fn law_signed_code_pairs(
    server: ServerModel,
    remote: IpAddress,
    head: RequestHead,
    code: Seq<char>,
    now: u128,
    expires: u64,
    unix_now: u64,
)
    requires
        server.auth.setup_token matches Some(token) && accepted_until(token, code, expires),
        code_shaped(code),
        unix_now < expires,
        expires - unix_now <= server.auth.code_seconds(),
        !server.auth.used(code, now),
        server.trusts(head),
        attempt_allowed(server.windows, remote, now),
    ensures
        server.pair_step(remote, head, code, now) == PairStepModel::Exchange(code),
        server.auth.accepts(code, now, Some(unix_now)),
{
    lemma_code_is_presentable(code);
}

/// A control channel is granted exactly to a trusted page whose session is open and has not ended,
/// or to any trusted page where authentication is off, as long as there is a free seat. Each
/// refusal has its own status.
pub proof fn law_who_gets_a_channel(server: ServerModel, head: RequestHead, now: u128)
    ensures
        ({
            let entitled = server.auth.setup_token is None || (head.session() matches Some(session)
                && server.auth.sessions.contains_key(session)
                && server.auth.sessions[session].0 > now);
            let after = server.channel_asked(head, now);
            match server.channel_refusal(head, now) {
                None => {
                    &&& server.trusts(head)
                    &&& entitled
                    &&& server.active_clients < server.max_clients
                    &&& after.active_clients == server.active_clients + 1
                },
                Some(reply) => {
                    &&& after.active_clients == server.active_clients
                    &&& reply.set_cookie is None
                    &&& reply.retry_after is None
                    &&& if !server.trusts(head) {
                        reply.status == 403
                    } else if !entitled {
                        reply.status == 401
                    } else {
                        reply.status == 503 && server.active_clients >= server.max_clients
                    }
                },
            }
        }),
{
}

/// A session that was opened at a reading of the clock is refused a channel by every request whose
/// own reading is later by the lifetime or more, whatever was asked of the server in between.
pub proof fn law_ended_session_gets_no_channel(
    server: ServerModel,
    head: RequestHead,
    session: Seq<char>,
    opened_at: u128,
    now: u128,
)
    requires
        server.auth.enabled(),
        ends_by(server.auth, session, opened_at + server.auth.session_ttl),
        head.session() == Some(session),
        now >= opened_at + server.auth.session_ttl,
    ensures
        server.channel_refusal(head, now) matches Some(reply) && reply.status == if server.trusts(
            head,
        ) {
            401u16
        } else {
            403u16
        },
        !server.auth.authorizes(head.session(), now),
{
}

/// Nothing that is asked of the server puts off the end of a session, but for opening one of the
/// same text, and none of it changes the lifetime of sessions.
pub proof fn law_no_request_puts_off_the_end_of_a_session(
    server: ServerModel,
    after: ServerModel,
    remote: IpAddress,
    head: RequestHead,
    code: Seq<char>,
    clock: ClockLog,
    clock_after: ClockLog,
    reply: ReplyModel,
    session: Seq<char>,
    end: int,
    now: u128,
)
    requires
        server.auth.session_ttl <= MAX_NANOS,
        ends_by(server.auth, session, end),
    ensures
        ends_by(server.channel_asked(head, now).auth, session, end),
        ends_by(server.logged_out(head).auth, session, end),
        ends_by(server.channel_closed().auth, session, end),
        server.paired(after, remote, head, code, clock, clock_after, reply) && !drawn_token(
            session,
            SESSION_BYTES,
        ) ==> ends_by(after.auth, session, end),
        server.channel_asked(head, now).auth.session_ttl == server.auth.session_ttl,
        server.logged_out(head).auth.session_ttl == server.auth.session_ttl,
        server.paired(after, remote, head, code, clock, clock_after, reply)
            ==> after.auth.session_ttl == server.auth.session_ttl,
{
}

/// A pairing request is answered by who asks: a foreign page is refused, nobody needs a code where
/// authentication is off, an address without attempts left is told to come back in a minute, and
/// a code that is not accepted fails. None of these opens a session.
pub proof fn law_pairing_refusals(
    server: ServerModel,
    after: ServerModel,
    remote: IpAddress,
    head: RequestHead,
    code: Seq<char>,
    clock: ClockLog,
    clock_after: ClockLog,
    reply: ReplyModel,
)
    requires
        server.paired(after, remote, head, code, clock, clock_after, reply),
    ensures
        ({
            let now = clock_after.monotonic[clock.monotonic.len() as int];
            &&& !server.trusts(head) ==> reply.status == 403 && after == server
            &&& server.trusts(head) && server.auth.setup_token is None ==> reply.status == 200
                && reply.set_cookie is None && after.auth == server.auth
            &&& server.trusts(head) && server.auth.setup_token is Some && !attempt_allowed(
                server.windows,
                remote,
                now,
            ) ==> reply.status == 429 && reply.retry_after == Some(60u32) && after.auth
                == server.auth
            &&& reply.status != 200 ==> after.auth.sessions == server.auth.sessions
                && reply.set_cookie is None
            &&& server.trusts(head) && server.auth.setup_token is Some ==> {
                &&& reply.status == 200 || reply.status == 401 || reply.status == 429
                    || reply.status == 500
                &&& reply.status == 429 ==> !attempt_allowed(server.windows, remote, now)
                &&& reply.status != 200 ==> after.windows == attempted(server.windows, remote, now)
            }
            &&& after.active_clients == server.active_clients
            &&& after.max_clients == server.max_clients
            &&& after.allowed_origins == server.allowed_origins
            &&& reply.status == 500 ==> random_reading(32, None)
            &&& reply.status == 401 && 6 <= encode_utf8(trimmed(code)).len() <= 128
                ==> !server.auth.accepts(
                trimmed(code),
                clock_after.monotonic.last(),
                clock_after.wall.last(),
            )
        }),
{
}

/// A controller that pairs gets a cookie of a new session: the cookie names it, the server lets it
/// in from then on until its lifetime has passed, and the attempts of its address are forgotten.
/// Only an accepted credential gets so far.
pub proof fn law_paired_controller_has_a_session(
    server: ServerModel,
    after: ServerModel,
    remote: IpAddress,
    head: RequestHead,
    code: Seq<char>,
    clock: ClockLog,
    clock_after: ClockLog,
    reply: ReplyModel,
)
    requires
        server.auth.session_ttl <= MAX_NANOS,
        server.auth.setup_token is Some,
        server.paired(after, remote, head, code, clock, clock_after, reply),
        reply.status == 200,
    ensures
        server.trusts(head),
        6 <= encode_utf8(trimmed(code)).len() <= 128,
        server.auth.accepts(
            trimmed(code),
            clock_after.monotonic.last(),
            clock_after.wall.last(),
        ),
        !after.windows.contains_key(remote),
        reply.body == (ReplyBody::Paired {
            authenticated: true,
            expires_in_seconds: (server.auth.session_ttl / 1_000_000_000) as u64,
        }),
        reply.set_cookie matches Some(header) && {
            &&& session_in(split(header, ';')[0]) matches Some(session) && drawn_token(session, 32)
                && forall|later: u128| #[trigger]
                after.auth.authorizes(Some(session), later) <==> later
                    < clock_after.monotonic.last() + server.auth.session_ttl
            &&& split(header, ';')[4] == " Max-Age="@ + decimal(
                (server.auth.session_ttl / 1_000_000_000) as nat,
            )
            &&& split(header, ';').len() == if server.secure_transport {
                6int
            } else {
                5
            }
        },
{
    let now = clock_after.monotonic[clock.monotonic.len() as int];
    let credential = trimmed(code);
    assert(server.pair_step(remote, head, code, now) == PairStepModel::Exchange(credential));
    let (auth, outcome) = choose|auth: AuthModel, outcome: Result<Option<Seq<char>>, AuthError>|
        #[trigger]
        server.auth.exchanged_in(
            auth,
            credential,
            clock.monotonic_read(now),
            clock_after,
            outcome,
        ) && server.counted(remote, head, now).answered(after, remote, auth, outcome, reply);
    let session = outcome->Ok_0->0;
    assert(outcome == Ok::<Option<Seq<char>>, AuthError>(Some(session)));
    assert(plain(session)) by {
        assert forall|i: int| 0 <= i < session.len() implies #[trigger] session[i] != ';'
            && !white_space(session[i]) by {
            assert(url_safe(session[i]));
        }
    }
    let exchanged = ServerModel { auth, ..server.counted(remote, head, now) };
    law_cookie_names_its_session(session, exchanged.session_seconds(), exchanged.secure_transport);
    law_cookie_attributes(session, exchanged.session_seconds(), exchanged.secure_transport);
    assert forall|later: u128| #[trigger]
        after.auth.authorizes(Some(session), later) <==> later < clock_after.monotonic.last()
            + server.auth.session_ttl by {
        law_exchange_opens_one_session(
            server.auth,
            auth,
            credential,
            clock.monotonic_read(now),
            clock_after,
            session,
            later,
        );
    }
}

/// A logout of a trusted page takes its session away at once and tells the browser to drop the
/// cookie; every other session stays.
pub proof fn law_logout_ends_the_session(
    server: ServerModel,
    head: RequestHead,
    other: Seq<char>,
    now: u128,
)
    requires
        server.trusts(head),
        server.auth.setup_token is Some,
    ensures
        ({
            let after = server.logged_out(head);
            let reply = server.logout_reply(head);
            &&& reply.status == 204
            &&& reply.set_cookie matches Some(header) && session_in(split(header, ';')[0]) == Some(
                Seq::<char>::empty(),
            )
            &&& head.session() matches Some(session) ==> !after.auth.authorizes(Some(session), now)
                && !after.auth.sessions.contains_key(session)
            &&& head.session() != Some(other) ==> after.auth.authorizes(Some(other), now)
                == server.auth.authorizes(Some(other), now)
        }),
{
    law_expired_cookie_is_empty(server.secure_transport);
    if let Some(session) = head.session() {
        crate::auth::laws::law_revoked_session_is_refused(server.auth, session, other, now);
        crate::auth::laws::law_revoked_session_is_refused(server.auth, session, session, now);
    }
}

/// A browser is told that it is authenticated exactly where its session would get it a channel, or
/// where nobody has to be; and that it has to be exactly where there is a setup token.
pub proof fn law_session_status(server: ServerModel, head: RequestHead, now: u128)
    ensures
        server.session_reply(head, now).status == 200,
        server.session_reply(head, now).set_cookie is None,
        server.session_reply(head, now).body matches ReplyBody::Session {
            authenticated,
            authentication_required,
        } && (authentication_required <==> server.auth.setup_token is Some) && (authenticated
            <==> server.auth.setup_token is None || (head.session() matches Some(session)
            && server.auth.sessions.contains_key(session) && server.auth.sessions[session].0
            > now)),
{
}

} // verus!
