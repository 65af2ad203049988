//! The ports the application's services listen on, and the process-state reading used
//! when freeing them.

use vstd::prelude::*;
use crate::text::{
    last_index_of,
    chars_of, has_prefix, lines, lines_of, owned, parse_bool, parse_bool_chars, parse_unsigned,
    parse_unsigned_chars, string_of, tokens, tokens_of, trim, trim_chars, views,
};
use crate::torrc_parser::{opt_view, parse_port_from_config, port_of_value};

verus! {

/// The port phoenixd listens on unless `PHOENIX_PORT` says otherwise.
pub const DEFAULT_PHOENIXD_PORT: u16 = 9740;

/// The client's SOCKS port when the torrc gives none.
pub const DEFAULT_TOR_SOCKS_PORT: u16 = 18058;

/// The client's control port when the torrc gives none.
pub const DEFAULT_TOR_CONTROL_PORT: u16 = 9992;

/// The relay's SOCKS port when the torrc gives none.
pub const DEFAULT_TOR_RELAY_SOCKS_PORT: u16 = 18057;

/// The relay's control port when the torrc gives none.
pub const DEFAULT_TOR_RELAY_CONTROL_PORT: u16 = 7781;

/// A port to check, and the service that uses it.
#[derive(Debug, Clone)]
pub struct PortInfo {
    pub port: u16,
    pub service_name: String,
    pub description: String,
}

/// What a `PortInfo` holds.
pub struct PortInfoView {
    pub port: u16,
    pub service_name: Seq<char>,
    pub description: Seq<char>,
}

impl View for PortInfo {
    type V = PortInfoView;

    open spec fn view(&self) -> PortInfoView {
        PortInfoView { port: self.port, service_name: self.service_name@, description: self.description@ }
    }
}

/// The views of a list of ports.
pub open spec fn port_views(v: Seq<PortInfo>) -> Seq<PortInfoView> {
    v.map_values(|p: PortInfo| p@)
}

/// A port entry built from its parts.
pub open spec fn entry(port: u16, service: Seq<char>, description: Seq<char>) -> PortInfoView {
    PortInfoView { port, service_name: service, description }
}

/// The port the second word of a torrc line names, if it names one: a port number, or
/// an `address:port` value's port (see `port_of_value`).
pub open spec fn second_word_port(t: Seq<char>) -> Option<nat> {
    if tokens(t).len() > 1 {
        port_of_value(tokens(t)[1])
    } else {
        None
    }
}

/// The port a torrc line declares: a `SocksPort` or `ControlPort` line whose second word
/// names a port, as `18058` or `0.0.0.0:18058` do. Comment lines (`#` or `;`) and blank
/// lines declare none.
pub open spec fn line_port(l: Seq<char>) -> Option<PortInfoView> {
    let t = trim(l);
    if t.len() == 0 || t[0] == '#' || t[0] == ';' {
        None
    } else if "SocksPort "@.is_prefix_of(t) {
        match second_word_port(t) {
            Some(p) => Some(entry(p as u16, "tor"@, "Tor SOCKS Port"@)),
            None => None,
        }
    } else if "ControlPort "@.is_prefix_of(t) {
        match second_word_port(t) {
            Some(p) => Some(entry(p as u16, "tor"@, "Tor Control Port"@)),
            None => None,
        }
    } else {
        None
    }
}

/// The ports declared by a list of lines, in order.
pub open spec fn ports_of_lines(ls: Seq<Seq<char>>) -> Seq<PortInfoView>
    decreases ls.len(),
{
    if ls.len() == 0 {
        Seq::empty()
    } else {
        ports_of_lines(ls.drop_last()) + match line_port(ls.last()) {
            Some(p) => seq![p],
            None => Seq::empty(),
        }
    }
}

/// A port entry.
fn make_port(port: u16, service: &str, description: &str) -> (r: PortInfo)
    ensures
        r@ == entry(port, service@, description@),
{
    PortInfo { port, service_name: owned(service), description: owned(description) }
}

/// The port a torrc line declares, if any.
fn port_of_line(l: &[char]) -> (r: Option<PortInfo>)
    ensures
        match r {
            Some(p) => line_port(l@) == Some(p@),
            None => line_port(l@) is None,
        },
{
    let t = trim_chars(l);
    if t.len() == 0 || t[0] == '#' || t[0] == ';' {
        return None;
    }
    let socks = chars_of("SocksPort ");
    let control = chars_of("ControlPort ");
    let is_socks = has_prefix(t.as_slice(), socks.as_slice());
    let is_control = has_prefix(t.as_slice(), control.as_slice());
    if !is_socks && !is_control {
        return None;
    }
    let words = tokens_of(t.as_slice());
    if words.len() <= 1 {
        return None;
    }
    assert(views(words@)[1] == words@[1]@);
    let word = string_of(words[1].as_slice());
    let port: u16 = match parse_port_from_config(word.as_str()) {
        Some(p) => p,
        None => {
            return None;
        },
    };
    if is_socks {
        Some(make_port(port, "tor", "Tor SOCKS Port"))
    } else {
        Some(make_port(port, "tor", "Tor Control Port"))
    }
}

/// The `SocksPort` and `ControlPort` entries of a torrc file, in the order of its lines.
pub fn parse_torrc_ports(content: &str) -> (r: Vec<PortInfo>)
    ensures
        port_views(r@) == ports_of_lines(lines(content@)),
{
    let cs = chars_of(content);
    let ls = lines_of(cs.as_slice());
    let ghost lv = views(ls@);
    let mut out: Vec<PortInfo> = Vec::new();
    let mut i: usize = 0;
    assert(lv.take(0) =~= Seq::<Seq<char>>::empty());
    while i < ls.len()
        invariant
            i <= ls.len(),
            lv == views(ls@),
            port_views(out@) == ports_of_lines(lv.take(i as int)),
        decreases ls.len() - i,
    {
        let ghost before = out@;
        assert(lv.take(i + 1).drop_last() =~= lv.take(i as int));
        assert(lv.take(i + 1).last() == ls@[i as int]@);
        match port_of_line(ls[i].as_slice()) {
            Some(p) => {
                out.push(p);
                assert(port_views(out@) =~= port_views(before) + seq![p@]);
            },
            None => {},
        }
        i = i + 1;
    }
    assert(lv.take(ls.len() as int) =~= lv);
    out
}

/// The Tor ports assumed when the torrc file cannot be read.
pub open spec fn default_tor_ports() -> Seq<PortInfoView> {
    seq![
        entry(18058, "tor"@, "Tor SOCKS Port (default)"@),
        entry(9992, "tor"@, "Tor Control Port (default)"@),
        entry(18057, "tor"@, "Tor Relay SOCKS Port (default)"@),
        entry(7781, "tor"@, "Tor Relay Control Port (default)"@),
    ]
}

/// Appends the default Tor ports.
fn push_default_tor_ports(out: &mut Vec<PortInfo>)
    ensures
        port_views(final(out)@) == port_views(old(out)@) + default_tor_ports(),
{
    let ghost start = out@;
    out.push(make_port(DEFAULT_TOR_SOCKS_PORT, "tor", "Tor SOCKS Port (default)"));
    out.push(make_port(DEFAULT_TOR_CONTROL_PORT, "tor", "Tor Control Port (default)"));
    out.push(make_port(DEFAULT_TOR_RELAY_SOCKS_PORT, "tor", "Tor Relay SOCKS Port (default)"));
    out.push(make_port(DEFAULT_TOR_RELAY_CONTROL_PORT, "tor", "Tor Relay Control Port (default)"));
    assert(port_views(out@) =~= port_views(start) + default_tor_ports());
}

/// The Tor ports of a torrc file, given its content or the reason it could not be
/// read; when it could not be read, the default client and relay ports.
pub open spec fn tor_ports_spec(torrc: Result<String, String>) -> Seq<PortInfoView> {
    match torrc {
        Ok(c) => ports_of_lines(lines(c@)),
        Err(_) => default_tor_ports(),
    }
}

/// The Tor ports to check (phoenixd's is left out), given the torrc file's content or
/// the reason it could not be read.
pub fn get_tor_ports_only(torrc: &Result<String, String>) -> (r: Vec<PortInfo>)
    ensures
        port_views(r@) == tor_ports_spec(*torrc),
{
    match torrc {
        Ok(c) => parse_torrc_ports(c.as_str()),
        Err(_) => {
            let mut out: Vec<PortInfo> = Vec::new();
            push_default_tor_ports(&mut out);
            assert(port_views(out@) =~= default_tor_ports());
            out
        },
    }
}

/// The phoenixd port: `PHOENIX_PORT` when it holds a port number, else 9740.
pub open spec fn phoenixd_port_spec(var: Option<Seq<char>>) -> u16 {
    match var {
        Some(v) => match parse_unsigned(v, 65535) {
            Some(p) => p as u16,
            None => 9740,
        },
        None => 9740,
    }
}

/// The phoenixd port, given the value of `PHOENIX_PORT`.
pub fn get_phoenixd_port(phoenix_port_var: &Option<String>) -> (r: u16)
    ensures
        r == phoenixd_port_spec(opt_view(*phoenix_port_var)),
{
    match phoenix_port_var {
        Some(v) => {
            let cs = chars_of(v.as_str());
            match parse_unsigned_chars(cs.as_slice(), 65535) {
                Some(p) => p as u16,
                None => DEFAULT_PHOENIXD_PORT,
            }
        },
        None => DEFAULT_PHOENIXD_PORT,
    }
}

/// Whether the embedded phoenixd is used: `APP_ELTOR_USE_PHOENIXD_EMBEDDED` is exactly
/// `true`.
pub fn use_phoenixd_embedded(var: &Option<String>) -> (r: bool)
    ensures
        r == (opt_view(*var) matches Some(v) && parse_bool(v) == Some(true)),
{
    match var {
        Some(v) => {
            let cs = chars_of(v.as_str());
            match parse_bool_chars(cs.as_slice()) {
                Some(b) => b,
                None => false,
            }
        },
        None => false,
    }
}

/// All ports to check: phoenixd's first when the embedded node is used, then the Tor
/// ports of the torrc file (or the defaults when it could not be read).
pub open spec fn ports_to_check_spec(phoenixd_port: u16, embedded: bool, torrc: Result<String, String>) -> Seq<
    PortInfoView,
> {
    (if embedded {
        seq![entry(phoenixd_port, "phoenixd"@, "Phoenix Lightning Node"@)]
    } else {
        Seq::empty()
    }) + tor_ports_spec(torrc)
}

/// All ports to check, given `PHOENIX_PORT`, `APP_ELTOR_USE_PHOENIXD_EMBEDDED` and the
/// torrc file's content or the reason it could not be read.
pub fn get_ports_to_check_with_torrc(
    phoenix_port_var: &Option<String>,
    embedded_var: &Option<String>,
    torrc: &Result<String, String>,
) -> (r: Vec<PortInfo>)
    ensures
        port_views(r@) == ports_to_check_spec(
            phoenixd_port_spec(opt_view(*phoenix_port_var)),
            opt_view(*embedded_var) matches Some(v) && parse_bool(v) == Some(true),
            *torrc,
        ),
{
    let mut out: Vec<PortInfo> = Vec::new();
    let port = get_phoenixd_port(phoenix_port_var);
    let embedded = use_phoenixd_embedded(embedded_var);
    if embedded {
        out.push(make_port(port, "phoenixd", "Phoenix Lightning Node"));
    }
    let ghost first = out@;
    let mut tor = get_tor_ports_only(torrc);
    out.append(&mut tor);
    assert(port_views(out@) =~= port_views(first) + tor_ports_spec(*torrc));
    out
}

/// The number of bytes UTF-8 takes for `c`.
pub open spec fn utf8_width(c: char) -> nat {
    if (c as u32) < 0x80 {
        1
    } else if (c as u32) < 0x800 {
        2
    } else if (c as u32) < 0x10000 {
        3
    } else {
        4
    }
}

/// The number of bytes UTF-8 takes for `s`.
pub open spec fn utf8_len(s: Seq<char>) -> nat
    decreases s.len(),
{
    if s.len() == 0 {
        0
    } else {
        utf8_len(s.drop_last()) + utf8_width(s.last())
    }
}

/// The state letter of a `/proc/<pid>/stat` text: the byte offset of the last `)` (the
/// end of the command name) plus two, taken as a character position, as
/// `stat.chars().nth(stat.rfind(')') + 2)` reads it.
pub open spec fn stat_state(stat: Seq<char>) -> Option<char> {
    match last_index_of(stat, ')') {
        None => None,
        Some(k) => {
            let b = utf8_len(stat.take(k)) + 2;
            if b < stat.len() {
                Some(stat[b as int])
            } else {
                None
            }
        },
    }
}

proof fn lemma_utf8_len_step(s: Seq<char>, i: int)
    requires
        0 <= i < s.len(),
    ensures
        utf8_len(s.take(i + 1)) == utf8_len(s.take(i)) + utf8_width(s[i]),
{
    assert(s.take(i + 1).drop_last() =~= s.take(i));
}

proof fn lemma_last_index_prefix(s: Seq<char>, c: char, i: int)
    requires
        0 <= i < s.len(),
    ensures
        last_index_of(s.take(i + 1), c) == if s[i] == c {
            Some(i)
        } else {
            last_index_of(s.take(i), c)
        },
{
    assert(s.take(i + 1).drop_last() =~= s.take(i));
}

/// Reads the state letter of a `/proc/<pid>/stat` text.
pub fn proc_stat_state(stat: &str) -> (r: Option<char>)
    ensures
        r == stat_state(stat@),
{
    let cs = chars_of(stat);
    let mut bytes: u128 = 0;
    let mut last: Option<u128> = None;
    let ghost mut last_k: Option<int> = None;
    let mut i: usize = 0;
    assert(cs@.take(0) =~= Seq::<char>::empty());
    while i < cs.len()
        invariant
            i <= cs.len(),
            cs@ == stat@,
            bytes == utf8_len(cs@.take(i as int)),
            bytes <= 4 * i,
            last matches Some(x) ==> x <= bytes,
            last_k == last_index_of(cs@.take(i as int), ')'),
            match last_k {
                Some(k) => 0 <= k < i && (last matches Some(x) && x == utf8_len(cs@.take(k))),
                None => last is None,
            },
        decreases cs.len() - i,
    {
        proof {
            lemma_utf8_len_step(cs@, i as int);
            lemma_last_index_prefix(cs@, ')', i as int);
        }
        let c = cs[i];
        if c == ')' {
            last = Some(bytes);
            proof {
                last_k = Some(i as int);
            }
        }
        let w: u128 = if (c as u32) < 0x80 {
            1
        } else if (c as u32) < 0x800 {
            2
        } else if (c as u32) < 0x10000 {
            3
        } else {
            4
        };
        bytes = bytes + w;
        i = i + 1;
    }
    assert(cs@.take(cs.len() as int) =~= cs@);
    match last {
        None => None,
        Some(b) => {
            let pos = b + 2;
            if pos < cs.len() as u128 {
                Some(cs[pos as usize])
            } else {
                None
            }
        },
    }
}

/// Whether a process counts as running while it is being stopped: its stat file could
/// be read and shows a state other than zombie (`Z`) or dead (`X`); an unreadable
/// state counts as stopped.
pub open spec fn alive_after_signal(stat: Option<Seq<char>>) -> bool {
    match stat {
        Some(s) => match stat_state(s) {
            Some(c) => c != 'Z' && c != 'X',
            None => false,
        },
        None => false,
    }
}

/// Decides, from the process's stat file if it could be read, whether a process that
/// was sent `SIGTERM` still needs `SIGKILL`.
pub fn still_running_after_signal(stat: &Option<String>) -> (r: bool)
    ensures
        r == alive_after_signal(opt_view(*stat)),
{
    match stat {
        Some(s) => match proc_stat_state(s.as_str()) {
            Some(c) => c != 'Z' && c != 'X',
            None => false,
        },
        None => false,
    }
}

/// Whether a process is running: its stat file could be read, and it shows a state
/// other than zombie or dead, or no state could be read from it.
pub open spec fn running_from_stat(stat: Option<Seq<char>>) -> bool {
    match stat {
        Some(s) => match stat_state(s) {
            Some(c) => c != 'Z' && c != 'X',
            None => true,
        },
        None => false,
    }
}

/// Decides from the process's stat file, if it could be read, whether it is running.
pub fn is_running_from_stat(stat: &Option<String>) -> (r: bool)
    ensures
        r == running_from_stat(opt_view(*stat)),
{
    match stat {
        Some(s) => match proc_stat_state(s.as_str()) {
            Some(c) => c != 'Z' && c != 'X',
            None => true,
        },
        None => false,
    }
}

} // verus!
