//! The eltord process: its modes, the files it uses, how it is launched and how its
//! state is read back.

use vstd::prelude::*;
use crate::paths::{join_path, path_join, PathConfig};
use crate::state::{last_n, LogEntry};
use crate::text::{
    ascii_upper, lemma_lower_upper_agree,
    append, ascii_lower, chars_of, eq_chars, lines, lines_of, owned, parse_unsigned, parse_unsigned_chars,
    string_of, string_views, to_ascii_lower, trim, trim_chars, views, debug_quote, debug_quoted,
};
use crate::torrc_parser::{get_torrc_config, opt_view, parse_port_from_config, port_of_value, values_of_lines};

verus! {

/// What eltord runs as.
#[derive(Debug, Clone, Copy, PartialEq, Eq, Structural)]
pub enum EltorMode {
    Client,
    Relay,
    Both,
}

/// The name of a mode.
pub open spec fn mode_name(m: EltorMode) -> Seq<char> {
    match m {
        EltorMode::Client => seq!['c', 'l', 'i', 'e', 'n', 't'],
        EltorMode::Relay => seq!['r', 'e', 'l', 'a', 'y'],
        EltorMode::Both => seq!['b', 'o', 't', 'h'],
    }
}

/// The mode named by `s` in any letter case. (None of the names holds a letter that a
/// non-ASCII character lowercases to, so ASCII case folding decides as Unicode
/// lowercasing would.)
pub open spec fn mode_of(s: Seq<char>) -> Option<EltorMode> {
    let l = ascii_lower(s);
    if l == mode_name(EltorMode::Client) {
        Some(EltorMode::Client)
    } else if l == mode_name(EltorMode::Relay) {
        Some(EltorMode::Relay)
    } else if l == mode_name(EltorMode::Both) {
        Some(EltorMode::Both)
    } else {
        None
    }
}

/// Law: a mode's name reads back as that mode, in any letter case (its name in capitals
/// too), and a text that is no mode's name in any letter case names none (so
/// `EltorMode::from_str` answers "Invalid mode: " and the text).
pub proof fn law_mode_names_read_back(m: EltorMode, s: Seq<char>)
    ensures
        mode_of(mode_name(m)) == Some(m),
        mode_of(ascii_upper(mode_name(m))) == Some(m),
        ascii_lower(s) == mode_name(m) ==> mode_of(s) == Some(m),
        (forall|u: EltorMode| ascii_lower(s) != #[trigger] mode_name(u)) ==> mode_of(s) is None,
{
    assert(ascii_lower(mode_name(m)) =~= mode_name(m));
    lemma_lower_upper_agree(mode_name(m));
    if forall|u: EltorMode| ascii_lower(s) != #[trigger] mode_name(u) {
        assert(ascii_lower(s) != mode_name(EltorMode::Client));
        assert(ascii_lower(s) != mode_name(EltorMode::Relay));
        assert(ascii_lower(s) != mode_name(EltorMode::Both));
    }
}

/// The torrc file a mode runs with.
pub open spec fn torrc_file_of(m: EltorMode) -> Seq<char> {
    match m {
        EltorMode::Client => "torrc"@,
        EltorMode::Relay | EltorMode::Both => "torrc.relay"@,
    }
}

impl EltorMode {
    /// The name of the mode, as eltord takes it.
    pub fn to_string(&self) -> (r: &'static str)
        ensures
            r@ == mode_name(*self),
    {
        proof {
            reveal_strlit("client");
            reveal_strlit("relay");
            reveal_strlit("both");
            assert("client"@ =~= mode_name(EltorMode::Client));
            assert("relay"@ =~= mode_name(EltorMode::Relay));
            assert("both"@ =~= mode_name(EltorMode::Both));
        }
        match self {
            EltorMode::Client => "client",
            EltorMode::Relay => "relay",
            EltorMode::Both => "both",
        }
    }

    /// Parses a mode name in any letter case.
    pub fn from_str(s: &str) -> (r: Result<EltorMode, String>)
        ensures
            mode_of(s@) matches Some(m) ==> r == Ok::<EltorMode, String>(m),
            mode_of(s@) is None ==> (r matches Err(e) && e@ == "Invalid mode: "@ + s@),
    {
        let cs = chars_of(s);
        let l = to_ascii_lower(cs.as_slice());
        let c = chars_of("client");
        let r = chars_of("relay");
        let b = chars_of("both");
        proof {
            reveal_strlit("client");
            reveal_strlit("relay");
            reveal_strlit("both");
            assert(c@ =~= mode_name(EltorMode::Client));
            assert(r@ =~= mode_name(EltorMode::Relay));
            assert(b@ =~= mode_name(EltorMode::Both));
        }
        if eq_chars(l.as_slice(), c.as_slice()) {
            Ok(EltorMode::Client)
        } else if eq_chars(l.as_slice(), r.as_slice()) {
            Ok(EltorMode::Relay)
        } else if eq_chars(l.as_slice(), b.as_slice()) {
            Ok(EltorMode::Both)
        } else {
            let mut e = owned("Invalid mode: ");
            append(&mut e, s);
            Err(e)
        }
    }

    /// The torrc file the mode runs with.
    pub fn get_torrc_file(&self) -> (r: &'static str)
        ensures
            r@ == torrc_file_of(*self),
    {
        match self {
            EltorMode::Client => "torrc",
            EltorMode::Relay | EltorMode::Both => "torrc.relay",
        }
    }

    /// The control port eltord listens on in this mode, given its torrc file's content or
    /// the reason it could not be read (see `control_port_spec`).
    pub fn get_control_port(&self, torrc: &Result<String, String>) -> (r: String)
        ensures
            r@ == control_port_spec(*self, *torrc),
    {
        let values = match torrc {
            Ok(c) => get_torrc_config(c.as_str(), "ControlPort"),
            Err(_) => Vec::new(),
        };
        if values.len() > 0 {
            assert(string_views(values@)[0] == values@[0]@);
            match parse_port_from_config(values[0].as_str()) {
                Some(p) => crate::text::decimal_string(p as u64),
                None => values[0].clone(),
            }
        } else {
            proof {
                if torrc is Err {
                    assert(string_views(values@) =~= Seq::<Seq<char>>::empty());
                }
            }
            match self {
                EltorMode::Client => owned("9992"),
                EltorMode::Relay | EltorMode::Both => owned("7781"),
            }
        }
    }
}

/// The control port of a mode: the first `ControlPort` value of its torrc file, reduced
/// to its port number when it names one (as `127.0.0.1:9992` does) and kept as written
/// otherwise; 9992 for the client and 7781 for the relay when the file gives none or
/// cannot be read.
pub open spec fn control_port_spec(m: EltorMode, torrc: Result<String, String>) -> Seq<char> {
    let values = match torrc {
        Ok(c) => values_of_lines(lines(c@), "ControlPort"@),
        Err(_) => Seq::<Seq<char>>::empty(),
    };
    if values.len() > 0 {
        match port_of_value(values[0]) {
            Some(p) => crate::text::decimal(p),
            None => values[0],
        }
    } else {
        match m {
            EltorMode::Client => "9992"@,
            EltorMode::Relay | EltorMode::Both => "7781"@,
        }
    }
}

/// The environment variable holding the control password for a mode.
pub open spec fn control_password_var_spec(m: EltorMode) -> Seq<char> {
    match m {
        EltorMode::Client => "APP_ELTOR_TOR_CONTROL_PASSWORD"@,
        EltorMode::Relay | EltorMode::Both => "APP_ELTOR_TOR_RELAY_CONTROL_PASSWORD"@,
    }
}

/// The environment variable holding the control password for a mode.
pub fn control_password_var(mode: EltorMode) -> (r: &'static str)
    ensures
        r@ == control_password_var_spec(mode),
{
    match mode {
        EltorMode::Client => "APP_ELTOR_TOR_CONTROL_PASSWORD",
        EltorMode::Relay | EltorMode::Both => "APP_ELTOR_TOR_RELAY_CONTROL_PASSWORD",
    }
}

/// The control password: the variable's value, or `password1234_` when it is unset.
pub fn get_tor_control_password(var_value: &Option<String>) -> (r: String)
    ensures
        r@ == match opt_view(*var_value) {
            Some(v) => v,
            None => "password1234_"@,
        },
{
    match var_value {
        Some(v) => v.clone(),
        None => owned("password1234_"),
    }
}

/// The parameters of an activation.
#[derive(Debug, Clone)]
pub struct EltorActivateParams {
    pub mode: EltorMode,
}

/// The parameters of a deactivation.
#[derive(Debug, Clone)]
pub struct EltorDeactivateParams {
    pub mode: EltorMode,
}

/// Whether the client and the relay run, with recent logs.
#[derive(Debug, Clone)]
pub struct EltorStatus {
    pub running: bool,
    pub client_running: bool,
    pub relay_running: bool,
    pub recent_logs: Vec<LogEntry>,
}

/// The status read from the process-id files: running when either mode runs.
pub fn status_from_pid_checks(client_running: bool, relay_running: bool) -> (r: EltorStatus)
    ensures
        r.running == (client_running || relay_running),
        r.client_running == client_running,
        r.relay_running == relay_running,
        r.recent_logs@.len() == 0,
{
    EltorStatus { running: client_running || relay_running, client_running, relay_running, recent_logs: Vec::new() }
}

/// The directory eltord's own files go to: the per-user data directory when there is
/// one, else `data` under the binary directory.
pub open spec fn eltor_data_dir_spec(pc: crate::paths::PathConfigView) -> Seq<char> {
    match pc.app_data_dir {
        Some(a) => a,
        None => path_join(pc.bin_dir, "data"@),
    }
}

/// The directory eltord's own files go to.
pub fn eltor_data_dir(path_config: &PathConfig) -> (r: String)
    ensures
        r@ == eltor_data_dir_spec(path_config@),
{
    match &path_config.app_data_dir {
        Some(a) => a.clone(),
        None => join_path(path_config.bin_dir.as_str(), "data"),
    }
}

/// The process-id file of a mode.
pub open spec fn pid_file_spec(m: EltorMode, pc: crate::paths::PathConfigView) -> Seq<char> {
    path_join(
        eltor_data_dir_spec(pc),
        match m {
            EltorMode::Client => "eltord-client.pid"@,
            EltorMode::Relay | EltorMode::Both => "eltord-relay.pid"@,
        },
    )
}

/// The process-id file of a mode.
pub fn get_pid_file_path(mode: EltorMode, path_config: &PathConfig) -> (r: String)
    ensures
        r@ == pid_file_spec(mode, path_config@),
{
    let d = eltor_data_dir(path_config);
    match mode {
        EltorMode::Client => join_path(d.as_str(), "eltord-client.pid"),
        EltorMode::Relay | EltorMode::Both => join_path(d.as_str(), "eltord-relay.pid"),
    }
}

/// The log file eltord writes when logging is on.
pub open spec fn eltord_log_spec(pc: crate::paths::PathConfigView) -> Seq<char> {
    path_join(eltor_data_dir_spec(pc), "eltor.log"@)
}

/// The log file eltord writes when logging is on.
pub fn eltord_log_path(path_config: &PathConfig) -> (r: String)
    ensures
        r@ == eltord_log_spec(path_config@),
{
    let d = eltor_data_dir(path_config);
    join_path(d.as_str(), "eltor.log")
}

/// The log file followed for a mode: `eltor-relay.log` for `relay`, `eltor.log`
/// otherwise, in eltord's data directory.
pub open spec fn stream_log_spec(pc: crate::paths::PathConfigView, mode: Seq<char>) -> Seq<char> {
    path_join(
        eltor_data_dir_spec(pc),
        if mode == "relay"@ {
            "eltor-relay.log"@
        } else {
            "eltor.log"@
        },
    )
}

/// The log file followed for a mode.
pub fn stream_log_path(path_config: &PathConfig, mode: &str) -> (r: String)
    ensures
        r@ == stream_log_spec(path_config@, mode@),
{
    let d = eltor_data_dir(path_config);
    if crate::text::eq_str(mode, "relay") {
        join_path(d.as_str(), "eltor-relay.log")
    } else {
        join_path(d.as_str(), "eltor.log")
    }
}

/// The log file the recent-log request reads for a mode: always under `data` in the
/// binary directory.
pub open spec fn recent_log_spec(pc: crate::paths::PathConfigView, mode: Seq<char>) -> Seq<char> {
    path_join(
        path_join(pc.bin_dir, "data"@),
        if mode == "relay"@ {
            "eltor-relay.log"@
        } else {
            "eltor.log"@
        },
    )
}

/// The log file the recent-log request reads for a mode.
pub fn recent_log_path(path_config: &PathConfig, mode: &str) -> (r: String)
    ensures
        r@ == recent_log_spec(path_config@, mode@),
{
    let d = join_path(path_config.bin_dir.as_str(), "data");
    if crate::text::eq_str(mode, "relay") {
        join_path(d.as_str(), "eltor-relay.log")
    } else {
        join_path(d.as_str(), "eltor.log")
    }
}

/// The last 100 lines of a log file's content, oldest first.
pub fn last_log_lines(content: &str) -> (r: Vec<String>)
    ensures
        string_views(r@) == last_n(lines(content@), 100),
{
    let cs = chars_of(content);
    let ls = lines_of(cs.as_slice());
    let start: usize = if ls.len() <= 100 {
        0
    } else {
        ls.len() - 100
    };
    let mut out: Vec<String> = Vec::new();
    let mut i = start;
    while i < ls.len()
        invariant
            start <= i <= ls.len(),
            string_views(out@) == views(ls@).subrange(start as int, i as int),
        decreases ls.len() - i,
    {
        let ghost before = out@;
        let s = string_of(ls[i].as_slice());
        out.push(s);
        assert(string_views(out@) =~= string_views(before).push(s@));
        i = i + 1;
        assert(string_views(out@) =~= views(ls@).subrange(start as int, i as int));
    }
    assert(views(ls@).subrange(start as int, ls.len() as int) =~= last_n(views(ls@), 100));
    out
}

/// The Tor cache files cleared before an activation.
pub open spec fn tor_cache_files() -> Seq<Seq<char>> {
    seq![
        "cached-consensus"@,
        "cached-certs"@,
        "cached-extrainfo"@,
        "cached-extrainfo.new"@,
        "cached-consensus.new"@,
        "cached-descriptors"@,
        "cached-descriptors.new"@,
        "cached-microdesc-consensus"@,
        "cached-microdesc-consensus.new"@,
        "cached-microdescs"@,
        "cached-microdescs.new"@,
        "my-consensus-microdesc"@,
        "my-consensus-ns"@,
        "router-stability"@,
        "state"@,
        "sr-state"@,
        "unverified-consensus"@,
        "v3-status-votes"@,
    ]
}

/// The names of the files cleared in one Tor data directory: its three logs, then its
/// cache files.
pub open spec fn tor_dir_names_spec() -> Seq<Seq<char>> {
    seq!["debug.log"@, "info.log"@, "notice.log"@] + tor_cache_files()
}

/// The paths of `names` in `dir`.
pub open spec fn in_dir(dir: Seq<char>, names: Seq<Seq<char>>) -> Seq<Seq<char>> {
    Seq::new(names.len(), |i: int| path_join(dir, names[i]))
}

/// The views of a list of string slices.
pub open spec fn str_views(v: Seq<&str>) -> Seq<Seq<char>> {
    Seq::new(v.len(), |i: int| v[i]@)
}

/// Every file cleared before an activation, whatever the mode: eltord's log and payment
/// records, then the logs and caches of the client's and the relay's Tor data.
pub open spec fn stale_files_spec(pc: crate::paths::PathConfigView) -> Seq<Seq<char>> {
    let d = eltor_data_dir_spec(pc);
    let tor = path_join(d, "tor_data"@);
    in_dir(d, seq!["eltor.log"@, "payments_sent.json"@, "payments_received.json"@])
        + in_dir(path_join(tor, "client"@), tor_dir_names_spec())
        + in_dir(path_join(tor, "relay"@), tor_dir_names_spec())
}

/// Appends the paths of `names` in `dir`.
fn push_joined(out: &mut Vec<String>, dir: &str, names: &Vec<&str>)
    ensures
        string_views(final(out)@) == string_views(old(out)@) + in_dir(dir@, str_views(names@)),
{
    let ghost start = out@;
    let ghost nv = str_views(names@);
    let mut i: usize = 0;
    while i < names.len()
        invariant
            i <= names.len(),
            nv == str_views(names@),
            string_views(out@) == string_views(start) + in_dir(dir@, nv.take(i as int)),
        decreases names.len() - i,
    {
        let ghost before = out@;
        let p = join_path(dir, names[i]);
        out.push(p);
        assert(string_views(out@) =~= string_views(before).push(p@));
        assert(in_dir(dir@, nv.take(i + 1)) =~= in_dir(dir@, nv.take(i as int)).push(path_join(dir@, nv[i as int])));
        i = i + 1;
    }
    assert(nv.take(names.len() as int) =~= nv);
}

/// The names of the files cleared in one Tor data directory.
fn tor_dir_names() -> (r: Vec<&'static str>)
    ensures
        str_views(r@) == tor_dir_names_spec(),
{
    let v = vec![
        "debug.log",
        "info.log",
        "notice.log",
        "cached-consensus",
        "cached-certs",
        "cached-extrainfo",
        "cached-extrainfo.new",
        "cached-consensus.new",
        "cached-descriptors",
        "cached-descriptors.new",
        "cached-microdesc-consensus",
        "cached-microdesc-consensus.new",
        "cached-microdescs",
        "cached-microdescs.new",
        "my-consensus-microdesc",
        "my-consensus-ns",
        "router-stability",
        "state",
        "sr-state",
        "unverified-consensus",
        "v3-status-votes",
    ];
    assert(str_views(v@) =~= tor_dir_names_spec());
    v
}

/// Every file cleared before an activation (see `stale_files_spec`); the caller removes
/// those that exist.
pub fn stale_data_files(path_config: &PathConfig) -> (r: Vec<String>)
    ensures
        string_views(r@) == stale_files_spec(path_config@),
{
    let d = eltor_data_dir(path_config);
    let mut out: Vec<String> = Vec::new();
    let top = vec!["eltor.log", "payments_sent.json", "payments_received.json"];
    assert(str_views(top@) =~= seq!["eltor.log"@, "payments_sent.json"@, "payments_received.json"@]);
    push_joined(&mut out, d.as_str(), &top);
    let tor = join_path(d.as_str(), "tor_data");
    let names = tor_dir_names();
    let client = join_path(tor.as_str(), "client");
    push_joined(&mut out, client.as_str(), &names);
    let relay = join_path(tor.as_str(), "relay");
    push_joined(&mut out, relay.as_str(), &names);
    assert(string_views(out@) =~= stale_files_spec(path_config@));
    out
}

/// How eltord is started for a mode.
#[derive(Debug, Clone)]
pub struct LaunchPlan {
    pub mode: EltorMode,
    pub program: String,
    pub args: Vec<String>,
    pub working_dir: String,
    pub pid_file: String,
    pub log_path: String,
}

/// eltord's arguments: the mode, the torrc file, the control password, and when logging
/// is on the log file and `-k`.
pub open spec fn launch_args(
    m: EltorMode,
    torrc: Seq<char>,
    password: Seq<char>,
    logging: bool,
    log_path: Seq<char>,
) -> Seq<Seq<char>> {
    seq![mode_name(m), "-f"@, torrc, "-p"@, password] + if logging {
        seq!["-l"@, log_path, "-k"@]
    } else {
        Seq::<Seq<char>>::empty()
    }
}

/// What a launch plan for mode `m` holds.
pub open spec fn plan_matches(
    p: LaunchPlan,
    m: EltorMode,
    pc: crate::paths::PathConfigView,
    password: Seq<char>,
    logging: bool,
) -> bool {
    &&& p.mode == m
    &&& p.program@ == path_join(pc.bin_dir, "eltord"@)
    &&& string_views(p.args@) == launch_args(
        m,
        path_join(pc.data_dir, torrc_file_of(m)),
        password,
        logging,
        eltord_log_spec(pc),
    )
    &&& p.working_dir@ == pc.bin_dir
    &&& p.pid_file@ == pid_file_spec(m, pc)
    &&& p.log_path@ == eltord_log_spec(pc)
}

/// How eltord is started for the mode named `mode`; an unknown mode name is refused.
pub fn plan_activation(mode: &str, enable_logging: bool, path_config: &PathConfig, control_password: &str) -> (r:
    Result<LaunchPlan, String>)
    ensures
        mode_of(mode@) is None ==> (r matches Err(e) && e@ == "Invalid mode: "@ + mode@),
        mode_of(mode@) matches Some(m) ==> (r matches Ok(p) && plan_matches(
            p,
            m,
            path_config@,
            control_password@,
            enable_logging,
        )),
{
    let m = EltorMode::from_str(mode)?;
    let torrc_path = path_config.get_torrc_path(Some(m.get_torrc_file()));
    let log_path = eltord_log_path(path_config);
    let mut args: Vec<String> = Vec::new();
    args.push(owned(m.to_string()));
    args.push(owned("-f"));
    args.push(torrc_path);
    args.push(owned("-p"));
    args.push(owned(control_password));
    if enable_logging {
        args.push(owned("-l"));
        args.push(log_path.clone());
        args.push(owned("-k"));
    }
    let plan = LaunchPlan {
        mode: m,
        program: join_path(path_config.bin_dir.as_str(), "eltord"),
        args,
        working_dir: path_config.bin_dir.clone(),
        pid_file: get_pid_file_path(m, path_config),
        log_path,
    };
    assert(string_views(plan.args@) =~= launch_args(
        m,
        path_join(path_config@.data_dir, torrc_file_of(m)),
        control_password@,
        enable_logging,
        eltord_log_spec(path_config@),
    ));
    Ok(plan)
}

/// The binary directory tried in development when the desktop shell gives none:
/// `../../backend/bin` from the working directory.
pub fn dev_bin_candidate(current_dir: &str) -> (r: String)
    ensures
        r@ == path_join(current_dir@, "../../backend/bin"@),
{
    join_path(current_dir, "../../backend/bin")
}

/// The layout used to activate eltord under the desktop shell: data in the per-user
/// data directory; binaries in the directory the shell names, else in the development
/// directory when it exists, else in the data directory too.
pub fn tauri_activation_paths(app_data_dir: &str, tauri_bin_dir: &Option<String>, existing_dev_bin: &Option<String>) -> (r:
    PathConfig)
    ensures
        r@.data_dir == app_data_dir@,
        r@.app_data_dir == Some(app_data_dir@),
        r@.bin_dir == match opt_view(*tauri_bin_dir) {
            Some(b) => b,
            None => match opt_view(*existing_dev_bin) {
                Some(d) => d,
                None => app_data_dir@,
            },
        },
{
    let bin_dir = match tauri_bin_dir {
        Some(b) => b.clone(),
        None => match existing_dev_bin {
            Some(d) => d.clone(),
            None => owned(app_data_dir),
        },
    };
    PathConfig { bin_dir, data_dir: owned(app_data_dir), app_data_dir: Some(owned(app_data_dir)) }
}

/// The process id written in a process-id file: its trimmed text as a `u32`.
pub open spec fn pid_of(content: Seq<char>) -> Option<nat> {
    parse_unsigned(trim(content), 0xffff_ffff)
}

/// Reads a process id from a process-id file's content.
pub fn parse_pid(content: &str) -> (r: Option<u32>)
    ensures
        match r {
            Some(p) => pid_of(content@) == Some(p as nat),
            None => pid_of(content@) is None,
        },
{
    let cs = chars_of(content);
    let t = trim_chars(cs.as_slice());
    match parse_unsigned_chars(t.as_slice(), 0xffff_ffff) {
        Some(p) => Some(p as u32),
        None => None,
    }
}

/// `"` + `s` + `"`.
pub open spec fn quoted(s: Seq<char>) -> Seq<char> {
    seq!['"'] + s + seq!['"']
}

/// The process id to stop, given the process-id file's content or the reason it could not
/// be read; the messages name the path in its `Debug` form.
pub fn pid_from_file(read: &Result<String, String>, pid_file: &str) -> (r: Result<u32, String>)
    ensures
        match *read {
            Err(_) => r matches Err(e) && e@ == "No PID file found at "@ + debug_quoted(pid_file@)
                + " - process may not be running"@,
            Ok(c) => match pid_of(c@) {
                Some(p) => r == Ok::<u32, String>(p as u32),
                None => r matches Err(e) && e@ == "Invalid PID in file "@ + debug_quoted(pid_file@),
            },
        },
{
    match read {
        Err(_) => {
            let mut e = owned("No PID file found at ");
            append(&mut e, debug_quote(pid_file).as_str());
            append(&mut e, " - process may not be running");
            Err(e)
        },
        Ok(c) => match parse_pid(c.as_str()) {
            Some(p) => Ok(p),
            None => {
                let mut e = owned("Invalid PID in file ");
                append(&mut e, debug_quote(pid_file).as_str());
                Err(e)
            },
        },
    }
}

/// The message a finished deactivation reports.
pub fn deactivation_message(mode: EltorMode, graceful: bool) -> (r: String)
    ensures
        r@ == "Eltord "@ + mode_name(mode) + if graceful {
            " deactivated gracefully"@
        } else {
            " deactivated (force killed)"@
        },
{
    let mut m = owned("Eltord ");
    append(&mut m, mode.to_string());
    if graceful {
        append(&mut m, " deactivated gracefully");
    } else {
        append(&mut m, " deactivated (force killed)");
    }
    m
}

/// The refusal of a deactivation request naming an unknown mode.
pub fn invalid_mode_message(mode: &str) -> (r: String)
    ensures
        r@ == "Invalid eltor mode: "@ + mode@,
{
    let mut m = owned("Invalid eltor mode: ");
    append(&mut m, mode);
    m
}

/// How many times, 200 ms apart, the process is checked after the shutdown command.
pub const MAX_SHUTDOWN_POLLS: u32 = 40;

/// What happens after a check of a process that was asked to shut down.
#[derive(Debug, Clone, Copy, PartialEq, Eq, Structural)]
pub enum PollOutcome {
    /// It has exited: clean up.
    Exited,
    /// Check again after the poll interval.
    KeepWaiting,
    /// It did not exit in time: kill it.
    ForceKill,
}

/// The decision after check number `poll` (counted from 0) found the process running or
/// not.
pub fn poll_outcome(poll: u32, still_running: bool) -> (r: PollOutcome)
    ensures
        !still_running ==> r == PollOutcome::Exited,
        still_running && poll + 1 < MAX_SHUTDOWN_POLLS ==> r == PollOutcome::KeepWaiting,
        still_running && poll + 1 >= MAX_SHUTDOWN_POLLS ==> r == PollOutcome::ForceKill,
{
    if !still_running {
        PollOutcome::Exited
    } else if poll < MAX_SHUTDOWN_POLLS - 1 {
        PollOutcome::KeepWaiting
    } else {
        PollOutcome::ForceKill
    }
}

/// The command that authenticates to the Tor control port.
pub fn auth_command(password: &str) -> (r: String)
    ensures
        r@ == "AUTHENTICATE "@ + quoted(password@) + seq!['\r', '\n'],
{
    let mut m = owned("AUTHENTICATE \"");
    append(&mut m, password);
    append(&mut m, "\"\r\n");
    proof {
        reveal_strlit("AUTHENTICATE \"");
        reveal_strlit("AUTHENTICATE ");
        reveal_strlit("\"\r\n");
        assert(m@ =~= "AUTHENTICATE "@ + quoted(password@) + seq!['\r', '\n']);
    }
    m
}

/// The command that tells Tor to shut down.
pub fn shutdown_command() -> (r: &'static str)
    ensures
        r@ == "SIGNAL SHUTDOWN\r\n"@,
{
    "SIGNAL SHUTDOWN\r\n"
}

/// Whether the control port accepted the authentication: its reply holds `250 OK`.
pub fn auth_accepted(reply: &str) -> (r: bool)
    ensures
        r == crate::text::contains(reply@, "250 OK"@),
{
    let rc = chars_of(reply);
    let ok = chars_of("250 OK");
    crate::text::contains_chars(rc.as_slice(), ok.as_slice())
}

/// Whether a failed deactivation during cleanup deserves a warning: not when it only
/// found no process-id file or no running process.
pub fn cleanup_failure_warns(error: &str) -> (r: bool)
    ensures
        r == !(crate::text::contains(error@, "No PID file found"@) || crate::text::contains(
            error@,
            "not running"@,
        )),
{
    let ec = chars_of(error);
    let a = chars_of("No PID file found");
    let b = chars_of("not running");
    !(crate::text::contains_chars(ec.as_slice(), a.as_slice()) || crate::text::contains_chars(
        ec.as_slice(),
        b.as_slice(),
    ))
}

/// The answer to an activation request: the activation runs on in the background.
pub fn activation_started_message(mode: &str) -> (r: String)
    ensures
        r@ == mode@ + " activation started"@,
{
    let mut m = owned(mode);
    append(&mut m, " activation started");
    m
}

/// The recent lines of an eltord log file.
#[derive(Debug, Clone)]
pub struct LogsResponse {
    pub logs: Vec<String>,
}

/// The last `n` items of `s`, newest first.
pub open spec fn newest_first(s: Seq<Seq<char>>, n: nat) -> Seq<Seq<char>> {
    last_n(s, n).reverse()
}

/// The recent-log endpoint's answer for a log file's content or read failure: its last
/// 100 lines, newest first; none when it could not be read.
pub fn logs_response(content: &Result<String, String>) -> (r: LogsResponse)
    ensures
        string_views(r.logs@) == match *content {
            Ok(c) => newest_first(lines(c@), 100),
            Err(_) => Seq::<Seq<char>>::empty(),
        },
{
    match content {
        Ok(c) => {
            let oldest_first = last_log_lines(c.as_str());
            let mut out: Vec<String> = Vec::new();
            let mut i: usize = oldest_first.len();
            let ghost src = string_views(oldest_first@);
            while i > 0
                invariant
                    i <= oldest_first.len(),
                    src == string_views(oldest_first@),
                    string_views(out@) == src.skip(i as int).reverse(),
                decreases i,
            {
                let ghost before = out@;
                let s = oldest_first[i - 1].clone();
                out.push(s);
                assert(string_views(out@) =~= string_views(before).push(s@));
                i = i - 1;
                assert(src.skip(i as int).reverse() =~= src.skip(i + 1).reverse().push(src[i as int]));
            }
            assert(src.skip(0) =~= src);
            LogsResponse { logs: out }
        },
        Err(_) => {
            let out: Vec<String> = Vec::new();
            assert(string_views(out@) =~= Seq::<Seq<char>>::empty());
            LogsResponse { logs: out }
        },
    }
}

/// Law: a process id written to a process-id file as its decimal text, as activation
/// writes it, is the one read back from the file.
pub proof fn law_pid_file_round_trip(pid: u32)
    ensures
        pid_of(crate::text::decimal(pid as nat)) == Some(pid as nat),
{
    crate::text::lemma_parse_decimal(pid as nat, 0xffff_ffff);
}

} // verus!
