//! The SOCKS5 router: which requests it accepts, where it sends them (`.onion`
//! addresses to Arti, everything else to eltord), and the replies it sends itself.

use vstd::prelude::*;
use vstd::utf8::{decode_utf8, valid_utf8};
use crate::text::{append, chars_of, decimal, decimal_string, has_suffix, owned, parse_unsigned, parse_unsigned_chars};
use crate::torrc_parser::opt_view;

verus! {

/// Where the router listens and the two SOCKS proxies it forwards to.
#[derive(Debug, Clone)]
pub struct SocksRouterConfig {
    pub listen_port: u16,
    pub arti_socks_port: u16,
    pub eltord_socks_port: u16,
}

impl Default for SocksRouterConfig {
    fn default() -> (r: Self)
        ensures
            r.listen_port == 18049,
            r.arti_socks_port == 18050,
            r.eltord_socks_port == 18058,
    {
        SocksRouterConfig { listen_port: 18049, arti_socks_port: 18050, eltord_socks_port: 18058 }
    }
}

/// An environment variable read as a port number, or `d` when it is unset or is not one.
pub open spec fn port_or(var: Option<Seq<char>>, d: u16) -> u16 {
    match var {
        Some(v) => match parse_unsigned(v, 65535) {
            Some(p) => p as u16,
            None => d,
        },
        None => d,
    }
}

/// An environment variable read as a port number, or `d`.
pub fn port_from_var(var: &Option<String>, d: u16) -> (r: u16)
    ensures
        r == port_or(opt_view(*var), d),
{
    match var {
        Some(v) => {
            let cs = chars_of(v.as_str());
            match parse_unsigned_chars(cs.as_slice(), 65535) {
                Some(p) => p as u16,
                None => d,
            }
        },
        None => d,
    }
}

impl SocksRouterConfig {
    /// The configuration given `APP_SOCKS_ROUTER_PORT`, `APP_ARTI_SOCKS_PORT` and
    /// `APP_ELTORD_SOCKS_PORT`, each falling back to its default.
    pub fn from_env(listen: &Option<String>, arti: &Option<String>, eltord: &Option<String>) -> (r: Self)
        ensures
            r.listen_port == port_or(opt_view(*listen), 18049),
            r.arti_socks_port == port_or(opt_view(*arti), 18050),
            r.eltord_socks_port == port_or(opt_view(*eltord), 18058),
    {
        SocksRouterConfig {
            listen_port: port_from_var(listen, 18049),
            arti_socks_port: port_from_var(arti, 18050),
            eltord_socks_port: port_from_var(eltord, 18058),
        }
    }
}

/// The destination of a SOCKS5 request.
#[derive(Debug, Clone)]
pub enum TargetAddress {
    IPv4([u8; 4], u16),
    Domain(String, u16),
    IPv6([u8; 16], u16),
}

/// What a destination holds: its kind (`1` IPv4, `3` domain, `4` IPv6), its address
/// bytes or name, and its port.
pub struct TargetView {
    pub kind: u8,
    pub bytes: Seq<u8>,
    pub name: Seq<char>,
    pub port: u16,
}

impl View for TargetAddress {
    type V = TargetView;

    open spec fn view(&self) -> TargetView {
        match self {
            TargetAddress::IPv4(a, p) => TargetView { kind: 1, bytes: a@, name: Seq::empty(), port: *p },
            TargetAddress::Domain(d, p) => TargetView { kind: 3, bytes: Seq::empty(), name: d@, port: *p },
            TargetAddress::IPv6(a, p) => TargetView { kind: 4, bytes: a@, name: Seq::empty(), port: *p },
        }
    }
}

impl TargetAddress {
    /// Whether the destination is a `.onion` name.
    pub fn is_onion(&self) -> (r: bool)
        ensures
            r == (self@.kind == 3 && ".onion"@.is_suffix_of(self@.name)),
    {
        match self {
            TargetAddress::Domain(d, _) => {
                let dc = chars_of(d.as_str());
                let suffix = chars_of(".onion");
                has_suffix(dc.as_slice(), suffix.as_slice())
            },
            _ => false,
        }
    }
}

/// A big-endian port from two bytes.
pub open spec fn be_port(hi: u8, lo: u8) -> u16 {
    (hi as int * 256 + lo as int) as u16
}

/// `String::from_utf8`: the text the bytes encode when they are valid UTF-8. On failure the
/// error's `Display` text is returned; what it says is not stated here.
#[verifier::external_body]
fn utf8_text(bytes: Vec<u8>) -> (r: Result<String, String>)
    ensures
        r is Ok <==> valid_utf8(bytes@),
        r matches Ok(s) ==> s@ == decode_utf8(bytes@),
{
    match String::from_utf8(bytes) {
        Ok(s) => Ok(s),
        Err(e) => Err(e.to_string()),
    }
}

/// The destination the address part of a SOCKS5 request (from its address-type byte on)
/// names, or why it names none: the fixed messages below, or, for a domain name that is
/// not valid UTF-8, the decoding error.
pub open spec fn target_spec(data: Seq<u8>) -> Result<TargetView, Seq<char>> {
    if data.len() == 0 {
        Err("Empty address data"@)
    } else if data[0] == 1 {
        if data.len() < 7 {
            Err("Invalid IPv4 address length"@)
        } else {
            Ok(TargetView { kind: 1, bytes: data.subrange(1, 5), name: Seq::empty(), port: be_port(data[5], data[6]) })
        }
    } else if data[0] == 3 {
        if data.len() < 2 {
            Err("Invalid domain name length"@)
        } else if data.len() < 4 + data[1] {
            Err("Incomplete domain name data"@)
        } else {
            let n = data[1] as int;
            let name = data.subrange(2, 2 + n);
            if valid_utf8(name) {
                Ok(TargetView { kind: 3, bytes: Seq::empty(), name: decode_utf8(name), port: be_port(data[2 + n], data[3 + n]) })
            } else {
                Err(Seq::empty())
            }
        }
    } else if data[0] == 4 {
        if data.len() < 19 {
            Err("Invalid IPv6 address length"@)
        } else {
            Ok(TargetView { kind: 4, bytes: data.subrange(1, 17), name: Seq::empty(), port: be_port(data[17], data[18]) })
        }
    } else {
        Err("Unsupported address type: "@ + decimal(data[0] as nat))
    }
}

/// Law: the destination of an address part is exactly what it spells out. An IPv4 part
/// (type 1) names the 4 bytes after the type byte, an IPv6 part (type 4) the 16 bytes
/// after it, and a domain part (type 3) the UTF-8 name whose length the next byte gives;
/// the port is the two bytes that follow, high byte first.
pub proof fn law_target_is_spelled_out(a4: Seq<u8>, a16: Seq<u8>, name: Seq<u8>, hi: u8, lo: u8)
    requires
        a4.len() == 4,
        a16.len() == 16,
        name.len() <= 255,
    ensures
        target_spec(seq![1u8] + a4 + seq![hi, lo]) == Ok::<TargetView, Seq<char>>(
            TargetView { kind: 1, bytes: a4, name: Seq::empty(), port: (hi * 256 + lo) as u16 },
        ),
        target_spec(seq![4u8] + a16 + seq![hi, lo]) == Ok::<TargetView, Seq<char>>(
            TargetView { kind: 4, bytes: a16, name: Seq::empty(), port: (hi * 256 + lo) as u16 },
        ),
        valid_utf8(name) ==> target_spec(seq![3u8, name.len() as u8] + name + seq![hi, lo]) == Ok::<
            TargetView,
            Seq<char>,
        >(TargetView { kind: 3, bytes: Seq::empty(), name: decode_utf8(name), port: (hi * 256 + lo) as u16 }),
        (hi * 256 + lo) as u16 == hi * 256 + lo,
{
    let d4 = seq![1u8] + a4 + seq![hi, lo];
    assert(d4.subrange(1, 5) =~= a4);
    assert(d4[5] == hi && d4[6] == lo);
    let d16 = seq![4u8] + a16 + seq![hi, lo];
    assert(d16.subrange(1, 17) =~= a16);
    assert(d16[17] == hi && d16[18] == lo);
    let n = name.len() as int;
    let dn = seq![3u8, name.len() as u8] + name + seq![hi, lo];
    assert(dn[1] == n);
    assert(dn.subrange(2, 2 + n) =~= name);
    assert(dn[2 + n] == hi && dn[3 + n] == lo);
    assert(hi * 256 + lo <= 65535) by (nonlinear_arith)
        requires
            hi <= 255,
            lo <= 255,
    ;
}

/// Whether a result matches `target_spec`; the text of a decoding error is not compared.
pub open spec fn target_matches(r: Result<TargetAddress, String>, data: Seq<u8>) -> bool {
    match target_spec(data) {
        Ok(t) => r matches Ok(a) && a@ == t,
        Err(e) => r matches Err(m) && (e.len() == 0 || m@ == e),
    }
}

/// The port in two big-endian bytes.
fn port_of(hi: u8, lo: u8) -> (r: u16)
    ensures
        r == be_port(hi, lo),
{
    (hi as u16) * 256 + (lo as u16)
}

/// Reads the destination of a SOCKS5 request from its address part.
pub fn parse_target_address(data: &[u8]) -> (r: Result<TargetAddress, String>)
    ensures
        target_matches(r, data@),
{
    if data.len() == 0 {
        return Err(owned("Empty address data"));
    }
    if data[0] == 1 {
        if data.len() < 7 {
            return Err(owned("Invalid IPv4 address length"));
        }
        let ip: [u8; 4] = [data[1], data[2], data[3], data[4]];
        assert(ip@ =~= data@.subrange(1, 5));
        Ok(TargetAddress::IPv4(ip, port_of(data[5], data[6])))
    } else if data[0] == 3 {
        if data.len() < 2 {
            return Err(owned("Invalid domain name length"));
        }
        let n = data[1] as usize;
        if data.len() < 4 + n {
            return Err(owned("Incomplete domain name data"));
        }
        let mut name: Vec<u8> = Vec::new();
        let mut i: usize = 2;
        while i < 2 + n
            invariant
                2 <= i <= 2 + n <= data.len(),
                name@ == data@.subrange(2, i as int),
            decreases 2 + n - i,
        {
            name.push(data[i]);
            i = i + 1;
            assert(name@ =~= data@.subrange(2, i as int));
        }
        let port = port_of(data[2 + n], data[3 + n]);
        let text = utf8_text(name)?;
        Ok(TargetAddress::Domain(text, port))
    } else if data[0] == 4 {
        if data.len() < 19 {
            return Err(owned("Invalid IPv6 address length"));
        }
        let mut ip: [u8; 16] = [0u8; 16];
        let mut i: usize = 0;
        while i < 16
            invariant
                i <= 16,
                data.len() >= 19,
                ip@.len() == 16,
                forall|j: int| 0 <= j < i ==> ip@[j] == data@[j + 1],
            decreases 16 - i,
        {
            ip.set(i, data[i + 1]);
            i = i + 1;
        }
        assert(ip@ =~= data@.subrange(1, 17));
        Ok(TargetAddress::IPv6(ip, port_of(data[17], data[18])))
    } else {
        let mut m = owned("Unsupported address type: ");
        append(&mut m, decimal_string(data[0] as u64).as_str());
        Err(m)
    }
}

/// A reply of this router: version 5, the reply code, and an IPv4 zero address and port.
pub open spec fn reply_spec(code: u8) -> Seq<u8> {
    seq![5u8, code, 0u8, 1u8, 0u8, 0u8, 0u8, 0u8, 0u8, 0u8]
}

/// A reply of this router with the given reply code.
pub fn reply_bytes(code: u8) -> (r: Vec<u8>)
    ensures
        r@ == reply_spec(code),
{
    let r = vec![5u8, code, 0u8, 1u8, 0u8, 0u8, 0u8, 0u8, 0u8, 0u8];
    assert(r@ =~= reply_spec(code));
    r
}

/// Whether a client greeting is acceptable: at least two bytes, starting with version 5.
/// It is answered with `[5, 0]` (no authentication).
pub open spec fn greeting_ok(greeting: Seq<u8>) -> bool {
    greeting.len() >= 2 && greeting[0] == 5
}

/// Checks a client greeting; on success the answer to send.
pub fn check_greeting(greeting: &[u8]) -> (r: Result<Vec<u8>, String>)
    ensures
        greeting_ok(greeting@) ==> (r matches Ok(b) && b@ == seq![5u8, 0u8]),
        !greeting_ok(greeting@) ==> (r matches Err(e) && e@ == "Invalid SOCKS5 greeting"@),
{
    if greeting.len() < 2 || greeting[0] != 5 {
        return Err(owned("Invalid SOCKS5 greeting"));
    }
    let b = vec![5u8, 0u8];
    assert(b@ =~= seq![5u8, 0u8]);
    Ok(b)
}

/// Where a request goes.
#[derive(Debug, Clone)]
pub struct Route {
    pub target: TargetAddress,
    pub proxy_port: u16,
}

/// A refused request: the reply to send first, if any, and the reason.
#[derive(Debug, Clone)]
pub struct Refusal {
    pub reply: Option<Vec<u8>>,
    pub error: String,
}

/// The routing of a SOCKS5 request: at least ten bytes starting with version 5 and the
/// CONNECT command; its destination read from the fourth byte on; `.onion` names to
/// Arti's port and everything else to eltord's. Other commands are answered with reply
/// code 7.
pub open spec fn route_ok(request: Seq<u8>) -> bool {
    request.len() >= 10 && request[0] == 5 && request[1] == 1 && target_spec(request.skip(3)) is Ok
}

/// Decides where a SOCKS5 request goes, or how it is refused.
pub fn route_request(request: &[u8], config: &SocksRouterConfig) -> (r: Result<Route, Refusal>)
    ensures
        request@.len() < 10 || request@[0] != 5 ==> (r matches Err(f) && f.reply is None && f.error@
            == "Invalid SOCKS5 request"@),
        request@.len() >= 10 && request@[0] == 5 && request@[1] != 1 ==> (r matches Err(f) && (f.reply matches Some(b)
            && b@ == reply_spec(7)) && f.error@ == "Only CONNECT command is supported"@),
        request@.len() >= 10 && request@[0] == 5 && request@[1] == 1 ==> match target_spec(request@.skip(3)) {
            Ok(t) => r matches Ok(route) && route.target@ == t && route.proxy_port == if t.kind == 3
                && ".onion"@.is_suffix_of(t.name) {
                config.arti_socks_port
            } else {
                config.eltord_socks_port
            },
            Err(e) => r matches Err(f) && f.reply is None && (e.len() == 0 || f.error@ == e),
        },
{
    if request.len() < 10 || request[0] != 5 {
        return Err(Refusal { reply: None, error: owned("Invalid SOCKS5 request") });
    }
    if request[1] != 1 {
        return Err(Refusal { reply: Some(reply_bytes(7)), error: owned("Only CONNECT command is supported") });
    }
    let mut rest: Vec<u8> = Vec::new();
    let mut i: usize = 3;
    while i < request.len()
        invariant
            3 <= i <= request.len(),
            rest@ == request@.subrange(3, i as int),
        decreases request.len() - i,
    {
        rest.push(request[i]);
        i = i + 1;
        assert(rest@ =~= request@.subrange(3, i as int));
    }
    assert(rest@ =~= request@.skip(3));
    match parse_target_address(rest.as_slice()) {
        Ok(target) => {
            let port = if target.is_onion() {
                config.arti_socks_port
            } else {
                config.eltord_socks_port
            };
            Ok(Route { target, proxy_port: port })
        },
        Err(e) => Err(Refusal { reply: None, error: e }),
    }
}

/// The answer to the client and the error when the upstream proxy cannot be reached:
/// reply code 5 (connection refused).
pub fn proxy_unreachable(error: &str) -> (r: Refusal)
    ensures
        r.reply matches Some(b) && b@ == reply_spec(5),
        r.error@ == "Failed to connect to proxy: "@ + error@,
{
    let mut m = owned("Failed to connect to proxy: ");
    append(&mut m, error);
    Refusal { reply: Some(reply_bytes(5)), error: m }
}

/// Checks the upstream proxy's answer to the no-authentication handshake: its second
/// byte must be 0; otherwise the client gets reply code 1 (general failure).
pub fn check_proxy_auth(answer: &[u8]) -> (r: Result<(), Refusal>)
    requires
        answer@.len() == 2,
    ensures
        answer@[1] == 0 ==> r is Ok,
        answer@[1] != 0 ==> (r matches Err(f) && (f.reply matches Some(b) && b@ == reply_spec(1)) && f.error@
            == "Proxy authentication failed"@),
{
    if answer[1] != 0 {
        Err(Refusal { reply: Some(reply_bytes(1)), error: owned("Proxy authentication failed") })
    } else {
        Ok(())
    }
}

/// Checks the upstream proxy's answer to the forwarded request (already passed on to
/// the client): an answer of two or more bytes whose status byte is not 0 fails.
pub fn check_proxy_reply(reply: &[u8]) -> (r: Result<(), String>)
    ensures
        reply@.len() >= 2 && reply@[1] != 0 ==> (r matches Err(e) && e@ == "Proxy connection failed with status: "@
            + decimal(reply@[1] as nat)),
        !(reply@.len() >= 2 && reply@[1] != 0) ==> r is Ok,
{
    if reply.len() >= 2 && reply[1] != 0 {
        let mut m = owned("Proxy connection failed with status: ");
        append(&mut m, decimal_string(reply[1] as u64).as_str());
        Err(m)
    } else {
        Ok(())
    }
}

/// Whether the router is known to run; its state is not tracked, so never.
pub fn is_socks_router_running() -> (r: bool)
    ensures
        !r,
{
    false
}

} // verus!
