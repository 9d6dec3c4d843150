//! Network addresses and the URLs that controllers are given.

use crate::text::{digits_value, push_decimal};
use vstd::prelude::*;
use vstd::string::*;

verus! {

/// An IP address, its bits in network order.
#[derive(Debug, Clone, Copy, PartialEq, Eq, Structural)]
pub enum IpAddress {
    V4(u32),
    V6(u128),
}

impl IpAddress {
    /// 0.0.0.0 or ::.
    pub open spec fn unspecified(self) -> bool {
        match self {
            IpAddress::V4(bits) => bits == 0,
            IpAddress::V6(bits) => bits == 0,
        }
    }

    /// 127.0.0.0/8 or ::1.
    pub open spec fn loopback(self) -> bool {
        match self {
            IpAddress::V4(bits) => 0x7f00_0000 <= bits <= 0x7fff_ffff,
            IpAddress::V6(bits) => bits == 1,
        }
    }

    pub fn is_unspecified(self) -> (yes: bool)
        ensures
            yes == self.unspecified(),
    {
        match self {
            IpAddress::V4(bits) => bits == 0,
            IpAddress::V6(bits) => bits == 0,
        }
    }

    pub fn is_loopback(self) -> (yes: bool)
        ensures
            yes == self.loopback(),
    {
        match self {
            IpAddress::V4(bits) => 0x7f00_0000 <= bits && bits <= 0x7fff_ffff,
            IpAddress::V6(bits) => bits == 1,
        }
    }

    /// The address of four octets.
    pub fn from_octets(a: u8, b: u8, c: u8, d: u8) -> (address: Self)
        ensures
            address == IpAddress::V4((a * 0x100_0000 + b * 0x1_0000 + c * 0x100 + d) as u32),
    {
        IpAddress::V4(
            a as u32 * 0x100_0000 + b as u32 * 0x1_0000 + c as u32 * 0x100 + d as u32,
        )
    }
}

/// An address together with its usual text.
#[derive(Debug)]
pub struct HostAddress {
    pub ip: IpAddress,
    pub text: String,
}

impl HostAddress {
    /// The address as it stands in a URL: an IPv6 address is in brackets.
    pub open spec fn host(self) -> Seq<char> {
        match self.ip {
            IpAddress::V4(_) => self.text@,
            IpAddress::V6(_) => "["@ + self.text@ + "]"@,
        }
    }
}

/// The URL of a host and a port.
pub open spec fn url(scheme: Seq<char>, host: Seq<char>, port: u16) -> Seq<char> {
    scheme + "://"@ + host + ":"@ + crate::text::decimal(port as nat)
}

fn url_text(scheme: &str, host: &str, port: u16) -> (text: String)
    ensures
        text@ == url(scheme@, host@, port),
{
    let mut text = scheme.to_owned();
    text.append("://");
    text.append(host);
    text.append(":");
    push_decimal(&mut text, port as u64);
    text
}

pub fn url_for_ip(scheme: &str, address: &HostAddress, port: u16) -> (text: String)
    ensures
        text@ == url(scheme@, address.host(), port),
{
    match address.ip {
        IpAddress::V4(_) => url_text(scheme, address.text.as_str(), port),
        IpAddress::V6(_) => {
            let mut host = "[".to_owned();
            host.append(address.text.as_str());
            host.append("]");
            url_text(scheme, host.as_str(), port)
        },
    }
}

/// The URL for a browser on this machine.
pub fn local_url(scheme: &str, listen: &HostAddress, port: u16) -> (text: String)
    ensures
        text@ == url(
            scheme@,
            if listen.ip.unspecified() || listen.ip.loopback() {
                "localhost"@
            } else {
                listen.host()
            },
            port,
        ),
{
    if listen.ip.is_unspecified() || listen.ip.is_loopback() {
        url_text(scheme, "localhost", port)
    } else {
        url_for_ip(scheme, listen, port)
    }
}

/// The address that others on the network can reach, where there is one: the address that is
/// listened on, or, where that is every address, the one that the machine was found to have.
pub open spec fn lan_ip(listen: IpAddress, detected: Option<IpAddress>) -> Option<IpAddress> {
    if listen.loopback() {
        None
    } else if !listen.unspecified() {
        Some(listen)
    } else {
        match detected {
            Some(ip) => if ip.loopback() || ip.unspecified() {
                None
            } else {
                Some(ip)
            },
            None => None,
        }
    }
}

/// Whether the machine's own address has to be found out.
pub fn needs_detection(listen: IpAddress) -> (needed: bool)
    ensures
        needed == (listen.unspecified() && !listen.loopback()),
        !needed ==> forall|one: Option<IpAddress>, other: Option<IpAddress>| #[trigger]
            lan_ip(listen, one) == #[trigger] lan_ip(listen, other),
{
    !listen.is_loopback() && listen.is_unspecified()
}

pub fn advertised_lan_ip(listen: IpAddress, detected: Option<IpAddress>) -> (ip: Option<IpAddress>)
    ensures
        ip == lan_ip(listen, detected),
{
    if listen.is_loopback() {
        None
    } else if listen.is_unspecified() {
        match detected {
            Some(ip) => if !ip.is_loopback() && !ip.is_unspecified() {
                Some(ip)
            } else {
                None
            },
            None => None,
        }
    } else {
        Some(listen)
    }
}

/// No address that only this machine can reach is advertised.
pub proof fn law_advertised_address_is_reachable(listen: IpAddress, detected: Option<IpAddress>)
    ensures
        lan_ip(listen, detected) matches Some(ip) ==> !ip.loopback() && !ip.unspecified(),
{
}

/// An IPv4 address is a loopback address exactly where its first octet is 127, and stands for
/// every address exactly where all its octets are zero.
pub proof fn law_octets(a: u8, b: u8, c: u8, d: u8)
    ensures
        ({
            let address = IpAddress::V4((a * 0x100_0000 + b * 0x1_0000 + c * 0x100 + d) as u32);
            &&& address.loopback() <==> a == 127
            &&& address.unspecified() <==> a == 0 && b == 0 && c == 0 && d == 0
        }),
{
}

/// An IPv6 address is a loopback address only where it is `::1`, and stands for every address only
/// where it is `::`.
pub proof fn law_ipv6(bits: u128)
    ensures
        IpAddress::V6(bits).loopback() <==> bits == 1,
        IpAddress::V6(bits).unspecified() <==> bits == 0,
{
}

/// What is advertised: the address that is listened on where others can reach it; where the server
/// listens on every address, the one that was found, if others can reach that; and nothing where
/// only this machine can reach the server.
pub proof fn law_what_is_advertised(listen: IpAddress, detected: Option<IpAddress>)
    ensures
        !listen.loopback() && !listen.unspecified() ==> lan_ip(listen, detected) == Some(listen),
        listen.loopback() ==> lan_ip(listen, detected) is None,
        listen.unspecified() && (detected matches Some(ip) && !ip.loopback() && !ip.unspecified())
            ==> lan_ip(listen, detected) == detected,
        listen.unspecified() && detected is None ==> lan_ip(listen, detected) is None,
{
}

/// The URL of a host reads back: it begins with the scheme, holds the host, and ends with the port.
pub proof fn law_url_holds_its_parts(scheme: Seq<char>, host: Seq<char>, port: u16)
    ensures
        ({
            let text = url(scheme, host, port);
            let n = scheme.len() as int;
            let m = host.len() as int;
            &&& text.take(n) == scheme
            &&& text.subrange(n, n + 3) == seq![':', '/', '/']
            &&& text.subrange(n + 3, n + 3 + m) == host
            &&& text[n + 3 + m] == ':'
            &&& digits_value(text.skip(n + 4 + m)) == port
        }),
{
    reveal_strlit("://");
    reveal_strlit(":");
    let text = url(scheme, host, port);
    let n = scheme.len() as int;
    let m = host.len() as int;
    assert(text.take(n) =~= scheme);
    assert(text.subrange(n, n + 3) =~= seq![':', '/', '/']);
    assert(text.subrange(n + 3, n + 3 + m) =~= host);
    assert(text.skip(n + 4 + m) =~= crate::text::decimal(port as nat));
    crate::text::law_decimal_denotes_its_number(port as nat);
}

/// In a URL an IPv6 address stands in brackets, and an IPv4 address as it is.
pub proof fn law_host_in_a_url(address: HostAddress)
    ensures
        address.ip is V4 ==> address.host() == address.text@,
        address.ip is V6 ==> {
            &&& address.host().len() == address.text@.len() + 2
            &&& address.host()[0] == '['
            &&& address.host().last() == ']'
            &&& address.host().drop_first().drop_last() == address.text@
        },
{
    reveal_strlit("[");
    reveal_strlit("]");
    if address.ip is V6 {
        assert(address.host().drop_first().drop_last() =~= address.text@);
    }
}

} // verus!
