//! The Arti proxy that carries `.onion` traffic: its port, how it is started, and the
//! handle kept for it.

use vstd::prelude::*;
use crate::paths::{exe_name, path_join, PathConfig};
use crate::socks::port_or;
use crate::text::{append, decimal, decimal_string, owned, string_views};
use crate::torrc_parser::opt_view;

verus! {

/// Arti's SOCKS port: `APP_ARTI_SOCKS_PORT` when it holds a port number, else 18050.
pub fn get_arti_socks_port(var: &Option<String>) -> (r: u16)
    ensures
        r == port_or(opt_view(*var), 18050),
{
    crate::socks::port_from_var(var, 18050)
}

/// A running Arti process.
#[derive(Debug)]
pub struct ArtiProcessHandle {
    pid: u32,
    mode: String,
}

impl ArtiProcessHandle {
    /// The process id held.
    pub closed spec fn spec_pid(&self) -> u32 {
        self.pid
    }

    /// The eltord mode Arti was started for.
    pub closed spec fn spec_mode(&self) -> Seq<char> {
        self.mode@
    }

    /// A handle for the process `pid`, started for `mode`.
    pub fn new(pid: u32, mode: String) -> (r: ArtiProcessHandle)
        ensures
            r.spec_pid() == pid,
            r.spec_mode() == mode@,
    {
        ArtiProcessHandle { pid, mode }
    }

    /// The process id.
    pub fn pid(&self) -> (r: u32)
        ensures
            r == self.spec_pid(),
    {
        self.pid
    }

    /// The eltord mode Arti was started for.
    pub fn mode(&self) -> (r: String)
        ensures
            r@ == self.spec_mode(),
    {
        self.mode.clone()
    }
}

/// How Arti is started.
#[derive(Debug, Clone)]
pub struct ArtiLaunch {
    pub program: String,
    pub args: Vec<String>,
    pub working_dir: String,
    pub socks_port: u16,
}

/// Arti's program, arguments and working directory: `arti proxy -o
/// proxy.socks_port=<port>` run in the binary directory (`arti.exe` on Windows).
pub fn arti_launch(path_config: &PathConfig, socks_port: u16, windows: bool) -> (r: ArtiLaunch)
    ensures
        r.program@ == path_join(path_config@.bin_dir, exe_name("arti"@, windows)),
        string_views(r.args@) == seq!["proxy"@, "-o"@, "proxy.socks_port="@ + decimal(socks_port as nat)],
        r.working_dir@ == path_config@.bin_dir,
        r.socks_port == socks_port,
{
    let mut setting = owned("proxy.socks_port=");
    append(&mut setting, decimal_string(socks_port as u64).as_str());
    let mut args: Vec<String> = Vec::new();
    args.push(owned("proxy"));
    args.push(owned("-o"));
    args.push(setting);
    assert(string_views(args@) =~= seq!["proxy"@, "-o"@, "proxy.socks_port="@ + decimal(socks_port as nat)]);
    ArtiLaunch {
        program: path_config.get_executable_path("arti", windows),
        args,
        working_dir: path_config.bin_dir.clone(),
        socks_port,
    }
}

/// The status reported for a held Arti handle: its process id and mode while the
/// process still runs.
pub fn arti_status(handle: &Option<ArtiProcessHandle>, running: bool) -> (r: Option<(u32, String)>)
    ensures
        match *handle {
            Some(h) => if running {
                r matches Some(p) && p.0 == h.spec_pid() && p.1@ == h.spec_mode()
            } else {
                r is None
            },
            None => r is None,
        },
{
    match handle {
        Some(h) => if running {
            Some((h.pid(), h.mode()))
        } else {
            None
        },
        None => None,
    }
}

} // verus!
