//! What the functions of the library answer, stated of every call.

use crate::address::{
    advertised_lan_ip, local_url, needs_detection, url, url_for_ip, HostAddress, IpAddress,
};
use crate::auth::pairing::{
    code_expiry, create_pairing_code, sign_pairing_code, verify_pairing_code,
};
use crate::auth::{
    constant_time_eq, read_existing_token, validate_token, AuthError, AuthModel, Authenticator,
};
use crate::clock::wall_reading;
use crate::config::{
    default_config_path, read_file_config, secret_refusal, AuthMode, Config, ConfigError,
    ConfigFile, ConfigLocation, FileConfig, Secret,
};
use crate::crypto::base64_url_decoded;
use crate::input::kernel::{kernel_button, kernel_key, law_kernel_reads_the_command, moved};
use crate::input::keymap::{map_character, map_text, strokes, us_stroke, KeyStroke};
use crate::input::legends::{law_stroke_prints_its_character, legend};
use crate::input::linux::{linux_button_code, linux_key_code, records_of, DeviceEvent, UinputState};
use crate::input::{BackendStatus, InputError, RecordedEvent};
use crate::local_pairing::{request_pairing_code, stale_socket, PairingRequestError, SocketPath};
use crate::protocol::{
    law_protocol_bounds, typeable, ClientEnvelope, ClientEvent, KeyCode, MouseButton, ProtocolError,
    ServerMessage,
};
use crate::sensitivity::{
    law_scaling_is_accurate, scale, scale_pointer, sensitivity_in_range, significand,
};
use crate::server::controller::{ready, Controller};
use crate::server::{hardening, AppState, PublicStatus};
use crate::text::{texts, trimmed};
use std::path::PathBuf;
use vstd::arithmetic::power2::pow2;
use vstd::prelude::*;
use vstd::string::*;
use vstd::utf8::encode_utf8;

verus! {

/// Every character of the protocol's text gets the stroke that prints it on a US keyboard, and any
/// other character is named in the refusal.
pub proof fn law_mapped_character_is_printed(c: char, mapped: Result<KeyStroke, InputError>)
    requires
        call_ensures(map_character, (c,), mapped),
    ensures
        typeable(c) ==> (mapped matches Ok(stroke) && legend(stroke.code, stroke.shift) == Some(c)),
        !typeable(c) ==> mapped == Err::<KeyStroke, InputError>(
            InputError::UnsupportedCharacter(c),
        ),
{
    law_stroke_prints_its_character(c);
}

/// A text gets one stroke for each character, in order, that prints it.
pub proof fn law_mapped_text_is_printed(
    text: &str,
    mapped: Result<Vec<KeyStroke>, InputError>,
    i: int,
)
    requires
        call_ensures(map_text, (text,), mapped),
        0 <= i < text@.len(),
    ensures
        mapped matches Ok(list) ==> list@.len() == text@.len() && legend(
            list@[i].code,
            list@[i].shift,
        ) == Some(text@[i]),
        !typeable(text@[i]) ==> mapped is Err,
{
    law_stroke_prints_its_character(text@[i]);
    if mapped is Ok {
        assert(us_stroke(text@[i]) is Some);
        assert(strokes(text@)[i] == us_stroke(text@[i])->0);
    }
}

/// The kernel finds the key and the button that a number was given for.
pub proof fn law_numbers_name_their_key(
    code: KeyCode,
    number: u16,
    button: MouseButton,
    button_number: u16,
)
    requires
        call_ensures(linux_key_code, (code,), number),
        call_ensures(linux_button_code, (button,), button_number),
    ensures
        kernel_key(number) == Some(code),
        kernel_button(button_number) == Some(button),
{
    law_kernel_reads_the_command(RecordedEvent::KeyDown { code });
    law_kernel_reads_the_command(RecordedEvent::ButtonDown { button });
    assert(records_of(RecordedEvent::KeyDown { code })[0].code == number);
    assert(records_of(RecordedEvent::ButtonDown { button })[0].code == button_number);
}

/// A movement moves the pointer and a scroll turns the wheels, each along its own axis.
pub proof fn law_motion_records(
    state: UinputState,
    dx: i32,
    dy: i32,
    moves: Vec<DeviceEvent>,
    scrolls: Vec<DeviceEvent>,
)
    requires
        call_ensures(UinputState::move_pointer, (&state, dx, dy), moves),
        call_ensures(UinputState::scroll, (&state, dx, dy), scrolls),
    ensures
        moved(moves@, 0) == dx,
        moved(moves@, 1) == dy,
        moved(moves@, 6) == 0,
        moved(moves@, 8) == 0,
        moved(scrolls@, 0) == 0,
        moved(scrolls@, 1) == 0,
        moved(scrolls@, 6) == dx,
        moved(scrolls@, 8) == dy,
{
    law_kernel_reads_the_command(RecordedEvent::PointerMove { dx, dy });
    law_kernel_reads_the_command(RecordedEvent::Scroll { dx, dy });
}

/// An envelope is accepted exactly where it keeps to the bounds of the protocol.
pub proof fn law_accepted_envelopes(envelope: ClientEnvelope, checked: Result<(), ProtocolError>)
    requires
        call_ensures(ClientEnvelope::validate, (&envelope,), checked),
    ensures
        checked is Ok <==> envelope.v == 1 && match envelope.event {
            ClientEvent::PointerMove { dx, dy } => -2048 <= dx <= 2048 && -2048 <= dy <= 2048,
            ClientEvent::Scroll { dx, dy } => -120 <= dx <= 120 && -120 <= dy <= 120,
            ClientEvent::TextInput { text } => text@.len() <= 128 && forall|i: int|
                0 <= i < text@.len() ==> 32 <= #[trigger] text@[i] as int <= 126 || text@[i] as int
                    == 9 || text@[i] as int == 10,
            _ => true,
        },
{
    law_protocol_bounds(envelope);
}

/// A delta is scaled to the whole number next to its product with the sensitivity.
pub proof fn law_scaled_pointer(value: i32, bits: u64, result: i32)
    requires
        call_ensures(scale_pointer, (value, bits), result),
        sensitivity_in_range(bits),
        -2048 <= value <= 2048,
    ensures
        2 * (result * pow2(scale(bits) as nat) - value * significand(bits)) <= pow2(
            scale(bits) as nat,
        ) + 4096,
        2 * (value * significand(bits) - result * pow2(scale(bits) as nat)) <= pow2(
            scale(bits) as nat,
        ) + 4096,
{
    law_scaling_is_accurate(value as int, bits);
}

/// The URL for this machine names it `localhost` where the server listens on every address or on
/// this machine only, and otherwise the address that it listens on.
pub proof fn law_local_url(scheme: &str, listen: HostAddress, port: u16, text: String, other: String)
    requires
        call_ensures(local_url, (scheme, &listen, port), text),
        call_ensures(url_for_ip, (scheme, &listen, port), other),
    ensures
        other@ == url(scheme@, listen.host(), port),
        listen.ip.loopback() || listen.ip.unspecified() ==> text@ == url(
            scheme@,
            "localhost"@,
            port,
        ),
        !listen.ip.loopback() && !listen.ip.unspecified() ==> text@ == other@,
{
}

/// An address is advertised exactly where others can reach it, and is looked for only where the
/// server listens on every address.
pub proof fn law_advertised_address(
    listen: IpAddress,
    detected: Option<IpAddress>,
    ip: Option<IpAddress>,
    needed: bool,
)
    requires
        call_ensures(advertised_lan_ip, (listen, detected), ip),
        call_ensures(needs_detection, (listen,), needed),
    ensures
        ip matches Some(ip) ==> !ip.loopback() && !ip.unspecified() && (ip == listen || (
        listen.unspecified() && detected == Some(ip))),
        !listen.loopback() && !listen.unspecified() ==> ip == Some(listen) && !needed,
        listen.unspecified() ==> needed,
        needed && (detected matches Some(found) && !found.loopback() && !found.unspecified())
            ==> ip == detected,
{
}

/// An address of four octets is one of this machine alone exactly where the first is 127.
pub proof fn law_address_of_octets(a: u8, b: u8, c: u8, d: u8, address: IpAddress)
    requires
        call_ensures(IpAddress::from_octets, (a, b, c, d), address),
    ensures
        address.loopback() <==> a == 127,
        address.unspecified() <==> a == 0 && b == 0 && c == 0 && d == 0,
        address matches IpAddress::V4(bits) && bits % 256 == d && bits / 256 % 256 == c && bits
            / 65_536 % 256 == b && bits / 16_777_216 == a,
{
    crate::address::law_octets(a, b, c, d);
}

/// A secret is refused exactly where there is no authentication.
pub proof fn law_secrets_need_authentication(
    mode: AuthMode,
    secret: Secret,
    refusal: Option<&'static str>,
)
    requires
        call_ensures(secret_refusal, (mode, secret), refusal),
    ensures
        refusal is Some <==> mode is Disabled,
{
}

/// The configuration lies below `XDG_CONFIG_HOME` where that is set, else below `HOME`, else in the
/// working directory.
pub proof fn law_default_path(
    xdg_config_home: Option<PathBuf>,
    home: Option<PathBuf>,
    location: ConfigLocation,
)
    requires
        call_ensures(default_config_path, (xdg_config_home, home), location),
    ensures
        xdg_config_home is Some ==> location.directory == xdg_config_home,
        xdg_config_home is None && home is Some ==> location.directory == home,
        xdg_config_home is None && home is None ==> location.directory is None,
        location.relative@ == if xdg_config_home is Some {
            "portway/config.toml"@
        } else if home is Some {
            ".config/portway/config.toml"@
        } else {
            "portway.toml"@
        },
{
}

/// A file that was asked for has to be there and to be readable; one that was not may be missing,
/// and then says nothing. What a file says is taken as it is.
pub proof fn law_configuration_file(
    path: &str,
    found: ConfigFile,
    required: bool,
    read: Result<FileConfig, ConfigError>,
)
    requires
        call_ensures(read_file_config, (path, found, required), read),
    ensures
        found matches ConfigFile::Contents(file) ==> read == Ok::<FileConfig, ConfigError>(file),
        found is Missing ==> (read is Ok <==> !required),
        found is Missing ==> (read matches Ok(file) ==> file.listen is None && file.port is None
            && file.auth_mode is None && file.allowed_origins is None),
        found is Malformed || found is Unreadable ==> read is Err,
{
}

/// The local client takes an answer for a code only where it is six digits between white space.
pub proof fn law_local_client_takes_digits_only(
    response: &str,
    code: Result<String, PairingRequestError>,
)
    requires
        call_ensures(request_pairing_code, (response,), code),
    ensures
        code matches Ok(code) ==> code@ == trimmed(response@) && code@.len() == 6 && forall|i: int|
            0 <= i < 6 ==> '0' <= #[trigger] code@[i] <= '9',
{
    if let Ok(code) = code {
        assert forall|i: int| 0 <= i < 6 implies '0' <= #[trigger] code@[i] <= '9' by {
            assert(crate::text::is_digit(code@[i]));
        }
    }
}

/// Nothing but a socket is ever removed from the path of the socket.
pub proof fn law_only_sockets_are_removed(
    path: &str,
    found: SocketPath,
    remove: Result<bool, PairingRequestError>,
)
    requires
        call_ensures(stale_socket, (path, found), remove),
    ensures
        remove == Ok::<bool, PairingRequestError>(true) <==> found is Socket,
        found is Other || found is Failed ==> remove is Err,
        found is Missing ==> remove == Ok::<bool, PairingRequestError>(false),
{
}

/// A server starts without controllers and pairing attempts, with the limit, the sensitivity and
/// the origins of its configuration, over a secure transport exactly where there is a certificate.
pub proof fn law_new_server(config: Config, auth: Authenticator, state: AppState)
    requires
        call_ensures(AppState::new, (&config, auth), state),
    ensures
        state.model().active_clients == 0,
        state.model().max_clients == config.max_clients,
        state.model().pointer_sensitivity_bits == config.pointer_sensitivity_bits,
        state.model().allowed_origins == texts(config.allowed_origins@),
        state.model().secure_transport <==> config.tls_cert is Some,
        state.model().auth == auth.model(),
        forall|remote: IpAddress| !state.model().windows.contains_key(remote),
{
}

/// A channel starts with nothing held, any sequence number, the full burst of messages, and the
/// time of its start as the last sign of life.
pub proof fn law_new_channel(bits: u64, now: u128, controller: Controller)
    requires
        call_ensures(Controller::new, (bits, now), controller),
    ensures
        forall|code: KeyCode| !controller@.session.keys.contains(code),
        forall|button: MouseButton| !controller@.session.buttons.contains(button),
        controller@.session.last_sequence is None,
        controller@.session.sensitivity_bits == bits,
        controller@.last_activity == now,
        controller@.limiter.credit == 500 * 1_000_000_000,
        controller@.limiter.rate == 250,
        controller@.limiter.burst == 500,
        controller@.limiter.last_refill == now,
{
}

/// The first message of a channel tells the version, the backend, whether input is available, the
/// sensitivity and the timeout.
pub proof fn law_first_message(backend: BackendStatus, bits: u64, message: ServerMessage)
    requires
        call_ensures(ready, (backend, bits), message),
    ensures
        message matches ServerMessage::Ready {
            v,
            backend: name,
            input_available,
            pointer_sensitivity_bits,
            heartbeat_timeout_ms,
        } && v == 1 && name@ == backend.name@ && input_available == backend.available
            && pointer_sensitivity_bits == bits && heartbeat_timeout_ms == 15_000,
{
}

/// The public status tells what is the case.
pub proof fn law_public_status(
    state: AppState,
    version: &'static str,
    backend: BackendStatus,
    status: PublicStatus,
)
    requires
        call_ensures(AppState::status, (&state, version, backend), status),
    ensures
        status.authentication_required <==> state.model().auth.setup_token is Some,
        status.controllers == state.model().active_clients,
        status.controller_limit == state.model().max_clients,
        status.input_available == backend.available,
        status.input_backend == backend.name,
        status.secure_transport == state.model().secure_transport,
{
}

/// An authenticator is made with the token that it is given; without other lifetimes its codes last
/// five minutes and its sessions twelve hours.
pub proof fn law_new_authenticator(
    token: Vec<u8>,
    made: Authenticator,
    off: Authenticator,
    other: Authenticator,
    code_ttl: u128,
    session_ttl: u128,
)
    requires
        call_ensures(Authenticator::from_token, (token,), made),
        call_ensures(Authenticator::disabled, (), off),
        call_ensures(Authenticator::from_token_with_ttls, (token, code_ttl, session_ttl), other),
    ensures
        made.model().setup_token == Some(token@),
        made.model().code_seconds() == 300,
        made.model().session_ttl == 43_200_000_000_000,
        off.model().setup_token is None,
        other.model().setup_token == Some(token@),
        other.model().pairing_code_ttl == code_ttl,
        other.model().session_ttl == session_ttl,
        forall|session: Seq<char>| !made.model().sessions.contains_key(session),
        forall|session: Seq<char>| !other.model().sessions.contains_key(session),
        made.model().outstanding is None,
        other.model().outstanding is None,
{
}

/// A code expires so many seconds after now as it is to last.
pub proof fn law_expiry_is_now_and_the_lifetime(
    unix_now: Option<u64>,
    ttl: u64,
    expires: Result<u64, AuthError>,
)
    requires
        call_ensures(code_expiry, (unix_now, ttl), expires),
    ensures
        match unix_now {
            None => expires == Err::<u64, AuthError>(AuthError::Clock),
            Some(now) => if now + ttl <= 0xffff_ffff_ffff_ffff {
                expires matches Ok(time) && time == now + ttl
            } else {
                expires == Err::<u64, AuthError>(AuthError::Overflow)
            },
        },
{
}

/// A code that was signed is recognised with the same token: it has the time left up to its expiry,
/// as long as that is ahead and within the longest lifetime. Nothing else is said to have time
/// left that has not.
pub proof fn law_signed_code_is_recognised(
    token: &[u8],
    expires: u64,
    nonce: &[u8],
    code: String,
    candidate: &str,
    maximum: u64,
    unix_now: Option<u64>,
    lifetime: Option<u64>,
)
    requires
        call_ensures(sign_pairing_code, (token, expires, nonce), code),
        call_ensures(verify_pairing_code, (token, candidate, maximum, unix_now), lifetime),
    ensures
        candidate@ == code@ ==> (unix_now matches Some(now) ==> (lifetime is Some <==> now < expires
            && expires - now <= maximum)),
        candidate@ == code@ ==> (lifetime matches Some(left) ==> (unix_now matches Some(now) && left
            == expires - now)),
        lifetime matches Some(left) ==> 0 < left <= maximum,
        unix_now is None ==> lifetime is None,
{
}

/// A code that a token holder creates is accepted by a server with that token from the reading of
/// the wall clock that was made for it until its lifetime has passed, as long as it was not used
/// and the server lets codes last so long; then it is not a signed code any more.
pub proof fn law_created_code_lasts_for_its_lifetime(
    setup_token: &str,
    ttl: u64,
    created: Result<String, AuthError>,
    state: AuthModel,
)
    requires
        call_ensures(create_pairing_code, (setup_token, ttl), created),
        state.setup_token == Some(encode_utf8(setup_token@)),
    ensures
        created matches Ok(code) ==> exists|issued_at: u64| #[trigger]
            wall_reading(Some(issued_at)) && forall|later: u64|
                (#[trigger] state.lifetime(code@, Some(later))) is Some <==> later < issued_at + ttl
                    && issued_at + ttl - later <= state.code_seconds(),
{
    if let Ok(code) = created {
        let token = encode_utf8(setup_token@);
        let (unix_now, nonce) = choose|unix_now: Option<u64>, nonce: Option<Seq<u8>>|
            {
                &&& wall_reading(unix_now)
                &&& Ok::<Seq<char>, AuthError>(code@)
                    == #[trigger] crate::auth::pairing::generated(token, ttl, unix_now, nonce)
                &&& crate::auth::pairing::accepted_until(
                    token,
                    code@,
                    (unix_now->0 + ttl) as u64,
                )
            };
        let issued_at = unix_now->0;
        assert(wall_reading(Some(issued_at)));
        assert forall|later: u64|
            (#[trigger] state.lifetime(code@, Some(later))) is Some <==> later < issued_at + ttl
                && issued_at + ttl - later <= state.code_seconds() by {
            assert(crate::auth::pairing::code_lifetime(
                token,
                code@,
                state.code_seconds(),
                Some(later),
            ) == state.lifetime(code@, Some(later)));
        }
    }
}

/// Every reply forbids other pages to frame it, scripts and styles from elsewhere, the camera and
/// the like, and browsers to guess its type or to tell where a visitor came from; only over a
/// secure transport does it ask for one the next time.
pub proof fn law_hardened_replies(secure: bool)
    ensures
        hardening(secure).contains(
            (
                "content-security-policy"@,
                "default-src 'self'; connect-src 'self'; img-src 'self' data:; script-src 'self'; style-src 'self'; base-uri 'none'; frame-ancestors 'none'; form-action 'self'"@,
            ),
        ),
        hardening(secure).contains(
            (
                "permissions-policy"@,
                "camera=(), microphone=(), geolocation=(), payment=()"@,
            ),
        ),
        hardening(secure).contains(("x-content-type-options"@, "nosniff"@)),
        hardening(secure).contains(("referrer-policy"@, "no-referrer"@)),
        hardening(secure).contains(("cross-origin-resource-policy"@, "same-origin"@)),
        hardening(true).contains(("strict-transport-security"@, "max-age=31536000"@)),
        hardening(true).len() == hardening(false).len() + 1,
{
    let headers = hardening(secure);
    assert(headers[0].0 == "content-security-policy"@);
    assert(headers[3].0 == "permissions-policy"@);
    assert(headers[1] == ("x-content-type-options"@, "nosniff"@));
    assert(headers[2] == ("referrer-policy"@, "no-referrer"@));
    assert(headers[4] == ("cross-origin-resource-policy"@, "same-origin"@));
    assert(hardening(true)[5] == ("strict-transport-security"@, "max-age=31536000"@));
}

/// A text is a setup token exactly where it is the encoding of thirty-two bytes, and it is taken as
/// it is.
pub proof fn law_setup_tokens(token: &str, checked: Result<String, AuthError>)
    requires
        call_ensures(validate_token, (token,), checked),
    ensures
        checked is Ok <==> (base64_url_decoded(token@) matches Some(bytes) && bytes.len() == 32),
        checked matches Ok(text) ==> text@ == token@,
        base64_url_decoded(token@) is None ==> checked == Err::<String, AuthError>(
            AuthError::TokenText,
        ),
{
}

/// The token in a file is what stands there between white space.
pub proof fn law_token_in_a_file(contents: &str, checked: Result<String, AuthError>)
    requires
        call_ensures(read_existing_token, (contents,), checked),
    ensures
        checked is Ok <==> (base64_url_decoded(trimmed(contents@)) matches Some(bytes)
            && bytes.len() == 32),
        checked matches Ok(text) ==> text@ == trimmed(contents@),
{
}

/// Two byte strings are found the same exactly where they are.
pub proof fn law_comparison(expected: &[u8], candidate: &[u8], same: bool)
    requires
        call_ensures(constant_time_eq, (expected, candidate), same),
    ensures
        same <==> expected@ == candidate@,
{
}

} // verus!
