//! The diagnostic report: where the application looks for its files, which ports it
//! uses, and what its torrc files hold.

use vstd::prelude::*;
use crate::paths::{path_join, PathConfig};
use crate::socks::{port_or, SocksRouterConfig};
use crate::text::{append, decimal, decimal_string, eq_str, lines, owned, parse_unsigned, parse_unsigned_chars, chars_of, string_views};
use crate::torrc_parser::{get_torrc_config, opt_view, parse_port_from_config, port_of_value, values_of_lines};

verus! {

/// The diagnostic report.
#[derive(Debug, Clone)]
pub struct DebugInfo {
    pub torrc_path: String,
    pub torrc_relay_path: String,
    pub bin_dir: String,
    pub data_dir: String,
    pub app_data_dir: Option<String>,
    pub backend_port: u16,
    pub frontend_port: u16,
    pub torrc_socks_port: Option<u16>,
    pub torrc_relay_socks_port: Option<u16>,
    pub environment: String,
    pub current_dir: String,
    pub executable_path: Option<String>,
    pub platform: String,
    pub architecture: String,
    pub torrc_file: String,
    pub torrc_relay_file: String,
    pub socks_router_port: Option<String>,
    pub arti_socks_port: Option<String>,
    pub local_ip: Option<String>,
    pub payment_rate_msats: Option<u64>,
}

/// What the report reads from the process environment and the file system.
#[derive(Debug)]
pub struct DebugEnv {
    /// `BACKEND_PORT`.
    pub backend_port: Option<String>,
    /// `FRONTEND_PORT`.
    pub frontend_port: Option<String>,
    /// `PORT`.
    pub port: Option<String>,
    /// Whether `TAURI_ENV` is set.
    pub tauri_env: bool,
    /// `NODE_ENV`.
    pub node_env: Option<String>,
    /// The working directory, if it could be read.
    pub current_dir: Option<String>,
    /// The running executable, if known.
    pub executable_path: Option<String>,
    /// `std::env::consts::OS`.
    pub platform: String,
    /// `std::env::consts::ARCH`.
    pub architecture: String,
    /// The client torrc file, or why it could not be read.
    pub torrc: Result<String, String>,
    /// The relay torrc file, or why it could not be read.
    pub torrc_relay: Result<String, String>,
    /// `APP_SOCKS_ROUTER_PORT`, `APP_ARTI_SOCKS_PORT`, `APP_ELTORD_SOCKS_PORT`.
    pub socks_router_port: Option<String>,
    pub arti_socks_port: Option<String>,
    pub eltord_socks_port: Option<String>,
    /// The machine's local address, if it could be found.
    pub local_ip: Option<String>,
}

/// The first value of a variable that is set.
pub open spec fn first_set(a: Option<Seq<char>>, b: Option<Seq<char>>) -> Option<Seq<char>> {
    match a {
        Some(v) => Some(v),
        None => b,
    }
}

/// How the running environment is described.
pub open spec fn environment_spec(tauri_env: bool, node_env: Option<Seq<char>>) -> Seq<char> {
    if tauri_env {
        "tauri"@
    } else if node_env == Some("production"@) {
        "web-production"@
    } else if node_env == Some("development"@) {
        "web-development"@
    } else {
        "unknown"@
    }
}

/// The values of `key` in a torrc file that could be read; none otherwise.
pub open spec fn file_values(file: Result<String, String>, key: Seq<char>) -> Seq<Seq<char>> {
    match file {
        Ok(c) => values_of_lines(lines(c@), key),
        Err(_) => Seq::empty(),
    }
}

/// The port of the first `SocksPort` value of a torrc file, if it names one.
pub open spec fn socks_port_spec(file: Result<String, String>) -> Option<nat> {
    let vs = file_values(file, "SocksPort"@);
    if vs.len() > 0 {
        port_of_value(vs[0])
    } else {
        None
    }
}

/// The first `PaymentRateMsats` value of a torrc text as a number, if it is one.
pub open spec fn payment_rate_of(content: Seq<char>) -> Option<nat> {
    let vs = values_of_lines(lines(content), "PaymentRateMsats"@);
    if vs.len() > 0 {
        parse_unsigned(vs[0], 0xffff_ffff_ffff_ffff)
    } else {
        None
    }
}

/// The first `PaymentRateMsats` value of a torrc file as a number, if it is one.
pub open spec fn payment_rate_spec(file: Result<String, String>) -> Option<nat> {
    match file {
        Ok(c) => payment_rate_of(c@),
        Err(_) => None,
    }
}

/// The values of `key` in a torrc file that could be read.
fn values_in(file: &Result<String, String>, key: &str) -> (r: Vec<String>)
    ensures
        string_views(r@) == file_values(*file, key@),
{
    match file {
        Ok(c) => get_torrc_config(c.as_str(), key),
        Err(_) => {
            let v: Vec<String> = Vec::new();
            assert(string_views(v@) =~= Seq::<Seq<char>>::empty());
            v
        },
    }
}

/// The port of the first `SocksPort` value of a torrc file.
fn socks_port_in(file: &Result<String, String>) -> (r: Option<u16>)
    ensures
        match r {
            Some(p) => socks_port_spec(*file) == Some(p as nat),
            None => socks_port_spec(*file) is None,
        },
{
    let vs = values_in(file, "SocksPort");
    if vs.len() > 0 {
        assert(string_views(vs@)[0] == vs@[0]@);
        parse_port_from_config(vs[0].as_str())
    } else {
        None
    }
}

/// What the report holds for a path layout and an environment.
pub open spec fn debug_info_matches(d: DebugInfo, pc: crate::paths::PathConfigView, env: DebugEnv) -> bool {
    &&& d.torrc_path@ == path_join(pc.data_dir, "torrc"@)
    &&& d.torrc_relay_path@ == path_join(pc.data_dir, "torrc.relay"@)
    &&& d.bin_dir@ == pc.bin_dir
    &&& d.data_dir@ == pc.data_dir
    &&& opt_view(d.app_data_dir) == pc.app_data_dir
    &&& d.backend_port == port_or(opt_view(env.backend_port), 3001)
    &&& d.frontend_port == port_or(first_set(opt_view(env.frontend_port), opt_view(env.port)), 3000)
    &&& (match socks_port_spec(env.torrc) {
        Some(p) => d.torrc_socks_port == Some(p as u16),
        None => d.torrc_socks_port is None,
    })
    &&& (match socks_port_spec(env.torrc_relay) {
        Some(p) => d.torrc_relay_socks_port == Some(p as u16),
        None => d.torrc_relay_socks_port is None,
    })
    &&& d.environment@ == environment_spec(env.tauri_env, opt_view(env.node_env))
    &&& d.current_dir@ == match opt_view(env.current_dir) {
        Some(c) => c,
        None => "unknown"@,
    }
    &&& opt_view(d.executable_path) == opt_view(env.executable_path)
    &&& d.platform@ == env.platform@
    &&& d.architecture@ == env.architecture@
    &&& d.torrc_file@ == match env.torrc {
        Ok(c) => c@,
        Err(_) => "Failed to read torrc file"@,
    }
    &&& d.torrc_relay_file@ == match env.torrc_relay {
        Ok(c) => c@,
        Err(_) => "Failed to read torrc relay file"@,
    }
    &&& opt_view(d.socks_router_port) == Some(
        "127.0.0.1:"@ + decimal(port_or(opt_view(env.socks_router_port), 18049) as nat),
    )
    &&& opt_view(d.arti_socks_port) == Some(decimal(port_or(opt_view(env.arti_socks_port), 18050) as nat))
    &&& opt_view(d.local_ip) == opt_view(env.local_ip)
    &&& (match payment_rate_spec(env.torrc_relay) {
        Some(p) => d.payment_rate_msats == Some(p as u64),
        None => d.payment_rate_msats is None,
    })
}

/// A copy of an optional string.
fn copy_opt(o: &Option<String>) -> (r: Option<String>)
    ensures
        opt_view(r) == opt_view(*o),
{
    match o {
        Some(s) => Some(s.clone()),
        None => None,
    }
}

impl DebugInfo {
    /// The report for a path layout and what the environment holds (the torrc files are
    /// expected to have been created first).
    pub fn new(path_config: &PathConfig, env: &DebugEnv) -> (r: Result<DebugInfo, String>)
        ensures
            r matches Ok(d) && debug_info_matches(d, path_config@, *env),
    {
        let backend_port = crate::socks::port_from_var(&env.backend_port, 3001);
        let frontend_var = match &env.frontend_port {
            Some(v) => Some(v.clone()),
            None => copy_opt(&env.port),
        };
        let frontend_port = crate::socks::port_from_var(&frontend_var, 3000);
        let environment = if env.tauri_env {
            owned("tauri")
        } else {
            match &env.node_env {
                Some(v) => if eq_str(v.as_str(), "production") {
                    owned("web-production")
                } else if eq_str(v.as_str(), "development") {
                    owned("web-development")
                } else {
                    owned("unknown")
                },
                None => owned("unknown"),
            }
        };
        let current_dir = match &env.current_dir {
            Some(c) => c.clone(),
            None => owned("unknown"),
        };
        let torrc_file = match &env.torrc {
            Ok(c) => c.clone(),
            Err(_) => owned("Failed to read torrc file"),
        };
        let torrc_relay_file = match &env.torrc_relay {
            Ok(c) => c.clone(),
            Err(_) => owned("Failed to read torrc relay file"),
        };
        let socks = SocksRouterConfig::from_env(&env.socks_router_port, &env.arti_socks_port, &env.eltord_socks_port);
        let mut router = owned("127.0.0.1:");
        append(&mut router, decimal_string(socks.listen_port as u64).as_str());
        let rates = values_in(&env.torrc_relay, "PaymentRateMsats");
        let payment_rate_msats = if rates.len() > 0 {
            assert(string_views(rates@)[0] == rates@[0]@);
            let rc = chars_of(rates[0].as_str());
            parse_unsigned_chars(rc.as_slice(), 0xffff_ffff_ffff_ffff)
        } else {
            None
        };
        Ok(
            DebugInfo {
                torrc_path: path_config.get_torrc_path(None),
                torrc_relay_path: path_config.get_torrc_relay_path(),
                bin_dir: path_config.bin_dir.clone(),
                data_dir: path_config.data_dir.clone(),
                app_data_dir: copy_opt(&path_config.app_data_dir),
                backend_port,
                frontend_port,
                torrc_socks_port: socks_port_in(&env.torrc),
                torrc_relay_socks_port: socks_port_in(&env.torrc_relay),
                environment,
                current_dir,
                executable_path: copy_opt(&env.executable_path),
                platform: env.platform.clone(),
                architecture: env.architecture.clone(),
                torrc_file,
                torrc_relay_file,
                socks_router_port: Some(router),
                arti_socks_port: Some(decimal_string(socks.arti_socks_port as u64)),
                local_ip: copy_opt(&env.local_ip),
                payment_rate_msats,
            },
        )
    }

    /// The torrc path of the report.
    pub fn get_torrc_path(&self) -> (r: &str)
        ensures
            r@ == self.torrc_path@,
    {
        self.torrc_path.as_str()
    }
}

/// An optional text, or `d` when absent.
pub open spec fn text_or(o: Option<Seq<char>>, d: Seq<char>) -> Seq<char> {
    match o {
        Some(v) => v,
        None => d,
    }
}

/// An optional port in decimal, or `not found`.
pub open spec fn port_text(p: Option<u16>) -> Seq<char> {
    match p {
        Some(v) => decimal(v as nat),
        None => "not found"@,
    }
}

/// The human-readable report: a header, then its environment, paths and ports, one
/// `label: value` line each.
pub open spec fn display_spec(d: DebugInfo) -> Seq<char> {
    "Debug Information:\nEnvironment: "@ + d.environment@ + "\nPlatform: "@ + d.platform@ + " ("@
        + d.architecture@ + ")\nCurrent Directory: "@ + d.current_dir@ + "\nExecutable: "@ + text_or(
        opt_view(d.executable_path),
        "unknown"@,
    ) + "\nLocal IP: "@ + text_or(opt_view(d.local_ip), "unavailable"@) + "\n\nPaths:\n- Torrc File: "@
        + d.torrc_path@ + "\n- Torrc Relay File: "@ + d.torrc_relay_path@ + "\n- Binary Directory: "@ + d.bin_dir@
        + "\n- Data Directory: "@ + d.data_dir@ + "\n- App Data Directory: "@ + text_or(
        opt_view(d.app_data_dir),
        "none"@,
    ) + "\n\nPorts:\n- Backend Port: "@ + decimal(d.backend_port as nat) + "\n- Frontend Port: "@ + decimal(
        d.frontend_port as nat,
    ) + "\n- Torrc SocksPort: "@ + port_text(d.torrc_socks_port) + "\n- Torrc Relay SocksPort: "@ + port_text(
        d.torrc_relay_socks_port,
    ) + "\n- SOCKS Router Port: "@ + text_or(opt_view(d.socks_router_port), "not set"@)
        + "\n- Arti SOCKS Port: "@ + text_or(opt_view(d.arti_socks_port), "not set"@)
        + "\n- Torrc File Content: "@ + d.torrc_file@ + "\n- Torrc Relay File Content: "@ + d.torrc_relay_file@
}

/// Appends an optional text, or `d` when absent.
fn append_or(out: &mut String, o: &Option<String>, d: &str)
    ensures
        final(out)@ == old(out)@ + text_or(opt_view(*o), d@),
{
    match o {
        Some(v) => append(out, v.as_str()),
        None => append(out, d),
    }
}

/// Appends an optional port in decimal, or `not found`.
fn append_port(out: &mut String, p: Option<u16>)
    ensures
        final(out)@ == old(out)@ + port_text(p),
{
    match p {
        Some(v) => append(out, decimal_string(v as u64).as_str()),
        None => append(out, "not found"),
    }
}

impl DebugInfo {
    /// The report as text for people to read.
    pub fn format_for_display(&self) -> (r: String)
        ensures
            r@ == display_spec(*self),
    {
        let mut o = owned("Debug Information:\nEnvironment: ");
        append(&mut o, self.environment.as_str());
        append(&mut o, "\nPlatform: ");
        append(&mut o, self.platform.as_str());
        append(&mut o, " (");
        append(&mut o, self.architecture.as_str());
        append(&mut o, ")\nCurrent Directory: ");
        append(&mut o, self.current_dir.as_str());
        append(&mut o, "\nExecutable: ");
        append_or(&mut o, &self.executable_path, "unknown");
        append(&mut o, "\nLocal IP: ");
        append_or(&mut o, &self.local_ip, "unavailable");
        append(&mut o, "\n\nPaths:\n- Torrc File: ");
        append(&mut o, self.torrc_path.as_str());
        append(&mut o, "\n- Torrc Relay File: ");
        append(&mut o, self.torrc_relay_path.as_str());
        append(&mut o, "\n- Binary Directory: ");
        append(&mut o, self.bin_dir.as_str());
        append(&mut o, "\n- Data Directory: ");
        append(&mut o, self.data_dir.as_str());
        append(&mut o, "\n- App Data Directory: ");
        append_or(&mut o, &self.app_data_dir, "none");
        append(&mut o, "\n\nPorts:\n- Backend Port: ");
        append(&mut o, decimal_string(self.backend_port as u64).as_str());
        append(&mut o, "\n- Frontend Port: ");
        append(&mut o, decimal_string(self.frontend_port as u64).as_str());
        append(&mut o, "\n- Torrc SocksPort: ");
        append_port(&mut o, self.torrc_socks_port);
        append(&mut o, "\n- Torrc Relay SocksPort: ");
        append_port(&mut o, self.torrc_relay_socks_port);
        append(&mut o, "\n- SOCKS Router Port: ");
        append_or(&mut o, &self.socks_router_port, "not set");
        append(&mut o, "\n- Arti SOCKS Port: ");
        append_or(&mut o, &self.arti_socks_port, "not set");
        append(&mut o, "\n- Torrc File Content: ");
        append(&mut o, self.torrc_file.as_str());
        append(&mut o, "\n- Torrc Relay File Content: ");
        append(&mut o, self.torrc_relay_file.as_str());
        o
    }
}

} // verus!
