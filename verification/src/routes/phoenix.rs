//! Fetching, unpacking and reading the configuration of the phoenixd Lightning daemon,
//! and the answers of its endpoints.

use vstd::prelude::*;
use crate::paths::{join_path, path_join};
use crate::text::{append, chars_of, debug_quote, debug_quoted, decimal, decimal_string, eq_str, has_prefix, lines, lines_of, owned, string_of, trim, trim_chars, views};
use crate::torrc_parser::opt_view;
use std::io::Cursor;
use zip::result::ZipError;
use zip::ZipArchive;

verus! {

/// The phoenixd release fetched.
pub const PHOENIX_VERSION: &'static str = "0.6.1";

/// Where phoenixd releases are published.
pub const PHOENIX_BASE_URL: &'static str = "https://github.com/ACINQ/phoenixd/releases/download";

/// Where the embedded phoenixd answers.
pub const PHOENIX_DEFAULT_URL: &'static str = "http://127.0.0.1:9740";

/// The release platform and architecture for an operating system and a CPU
/// architecture as `std::env::consts` names them.
pub open spec fn platform_spec(os: Seq<char>, arch: Seq<char>) -> Option<(Seq<char>, Seq<char>)> {
    if os == "macos"@ && arch == "x86_64"@ {
        Some(("macos"@, "x64"@))
    } else if os == "macos"@ && arch == "aarch64"@ {
        Some(("macos"@, "arm64"@))
    } else if os == "linux"@ && arch == "x86_64"@ {
        Some(("linux"@, "x64"@))
    } else if os == "linux"@ && arch == "aarch64"@ {
        Some(("linux"@, "arm64"@))
    } else if os == "windows"@ {
        Some(("windows"@, "jvm"@))
    } else {
        None
    }
}

/// Law: the release follows the CPU. On macOS and Linux the release platform is the
/// system itself, and its architecture depends on the CPU alone: `aarch64` gets the
/// `arm64` build and `x86_64` the `x64` build, on either system.
pub proof fn law_release_follows_cpu(os: Seq<char>, other_os: Seq<char>, arch: Seq<char>)
    requires
        os == "macos"@ || os == "linux"@,
        other_os == "macos"@ || other_os == "linux"@,
    ensures
        platform_spec(os, "aarch64"@) == Some((os, "arm64"@)),
        platform_spec(os, "x86_64"@) == Some((os, "x64"@)),
        platform_spec(os, arch) matches Some(p) ==> (p.0 == os && (platform_spec(other_os, arch) matches Some(q)
            && q.1 == p.1)),
        platform_spec(os, arch) is Some <==> (arch == "aarch64"@ || arch == "x86_64"@),
        platform_spec("windows"@, arch) == Some(("windows"@, "jvm"@)),
{
    reveal_strlit("macos");
    reveal_strlit("linux");
    reveal_strlit("windows");
    reveal_strlit("aarch64");
    reveal_strlit("x86_64");
    assert("macos"@[0] != "linux"@[0]);
    assert("macos"@.len() != "windows"@.len());
    assert("linux"@.len() != "windows"@.len());
    assert("aarch64"@.len() != "x86_64"@.len());
}

/// Law: systems other than macOS, Linux and Windows get no release.
pub proof fn law_other_systems_get_no_release(os: Seq<char>, arch: Seq<char>)
    requires
        os != "macos"@,
        os != "linux"@,
        os != "windows"@,
    ensures
        platform_spec(os, arch) is None,
{
}

/// The release platform and architecture; other systems are refused.
pub fn detect_platform_and_arch(os: &str, arch: &str) -> (r: Result<(String, String), String>)
    ensures
        match platform_spec(os@, arch@) {
            Some(p) => r matches Ok(q) && q.0@ == p.0 && q.1@ == p.1,
            None => r matches Err(e) && e@ == "Unsupported platform: "@ + os@ + "-"@ + arch@,
        },
{
    let (p, a) = if eq_str(os, "macos") && eq_str(arch, "x86_64") {
        ("macos", "x64")
    } else if eq_str(os, "macos") && eq_str(arch, "aarch64") {
        ("macos", "arm64")
    } else if eq_str(os, "linux") && eq_str(arch, "x86_64") {
        ("linux", "x64")
    } else if eq_str(os, "linux") && eq_str(arch, "aarch64") {
        ("linux", "arm64")
    } else if eq_str(os, "windows") {
        ("windows", "jvm")
    } else {
        let mut e = owned("Unsupported platform: ");
        append(&mut e, os);
        append(&mut e, "-");
        append(&mut e, arch);
        return Err(e);
    };
    Ok((owned(p), owned(a)))
}

/// The release archive's download address.
pub open spec fn download_url_spec(platform: Seq<char>, arch: Seq<char>) -> Seq<char> {
    let file = if platform == "windows"@ {
        "phoenixd-"@ + "0.6.1"@ + "-"@ + arch + ".zip"@
    } else {
        "phoenixd-"@ + "0.6.1"@ + "-"@ + platform + "-"@ + arch + ".zip"@
    };
    "https://github.com/ACINQ/phoenixd/releases/download"@ + "/v"@ + "0.6.1"@ + "/"@ + file
}

/// The release archive's download address for a platform and architecture.
pub fn get_download_url(platform: &str, arch: &str) -> (r: Result<String, String>)
    ensures
        r matches Ok(u) && u@ == download_url_spec(platform@, arch@),
{
    let mut file = owned("phoenixd-");
    append(&mut file, PHOENIX_VERSION);
    append(&mut file, "-");
    if !eq_str(platform, "windows") {
        append(&mut file, platform);
        append(&mut file, "-");
    }
    append(&mut file, arch);
    append(&mut file, ".zip");
    let mut url = owned(PHOENIX_BASE_URL);
    append(&mut url, "/v");
    append(&mut url, PHOENIX_VERSION);
    append(&mut url, "/");
    append(&mut url, file.as_str());
    Ok(url)
}

/// Whether an unpacked file is one of phoenixd's programs: `phoenixd` or `phoenix-cli`,
/// or their `.exe` forms on Windows.
pub open spec fn executable_spec(filename: Seq<char>, platform: Seq<char>) -> bool {
    filename == "phoenixd"@ || filename == "phoenix-cli"@ || (platform == "windows"@ && (filename
        == "phoenixd.exe"@ || filename == "phoenix-cli.exe"@))
}

/// Whether an unpacked file is one of phoenixd's programs.
pub fn is_phoenixd_executable(filename: &str, platform: &str) -> (r: bool)
    ensures
        r == executable_spec(filename@, platform@),
{
    eq_str(filename, "phoenixd") || eq_str(filename, "phoenix-cli") || (eq_str(platform, "windows") && (
    eq_str(filename, "phoenixd.exe") || eq_str(filename, "phoenix-cli.exe")))
}

/// The text of `Path::file_name` for the path `p`, if it has one.
pub uninterp spec fn path_file_name(p: Seq<char>) -> Option<Seq<char>>;

/// `std::path::Path::file_name`, read back as text: the final component of a path, or
/// nothing when it ends in `..` or has no components. Its result is what the name
/// `path_file_name` gives; the component rules are not restated here.
#[verifier::external_body]
pub(crate) fn file_name(p: &str) -> (r: Option<String>)
    ensures
        opt_view(r) == path_file_name(p@),
{
    match std::path::Path::new(p).file_name() {
        Some(n) => Some(n.to_string_lossy().into_owned()),
        None => None,
    }
}

/// What happens to one entry of the release archive.
#[derive(Debug, Clone)]
pub enum ExtractAction {
    /// A directory entry; directories are not recreated.
    SkipDirectory,
    /// A name that would leave the target directory.
    SkipUnsafeName,
    /// A path without a file name.
    SkipEmptyName,
    /// Write the entry to `outpath`, making it executable when `executable` holds.
    Write { outpath: String, executable: bool },
}

/// What happens to an archive entry named `name` whose safe path is `enclosed` (none
/// when the name is unsafe): files land directly in the binary directory, and on systems
/// other than Windows phoenixd's programs are made executable.
pub open spec fn extract_spec(name: Seq<char>, enclosed: Option<Seq<char>>, bin_dir: Seq<char>, platform: Seq<char>) -> (
    int,
    Seq<char>,
    bool,
) {
    if name.len() > 0 && name.last() == '/' {
        (0, Seq::empty(), false)
    } else {
        match enclosed {
            None => (1, Seq::empty(), false),
            Some(p) => {
                let f = match path_file_name(p) {
                    Some(n) => n,
                    None => Seq::empty(),
                };
                if f.len() == 0 {
                    (2, Seq::empty(), false)
                } else {
                    (3, path_join(bin_dir, f), platform != "windows"@ && executable_spec(f, platform))
                }
            },
        }
    }
}

/// The code, path and flag of an extraction action.
pub open spec fn action_view(a: ExtractAction) -> (int, Seq<char>, bool) {
    match a {
        ExtractAction::SkipDirectory => (0, Seq::empty(), false),
        ExtractAction::SkipUnsafeName => (1, Seq::empty(), false),
        ExtractAction::SkipEmptyName => (2, Seq::empty(), false),
        ExtractAction::Write { outpath, executable } => (3, outpath@, executable),
    }
}

/// Decides what happens to one archive entry.
pub fn plan_entry(name: &str, enclosed: &Option<String>, bin_dir: &str, platform: &str) -> (r: ExtractAction)
    ensures
        action_view(r) == extract_spec(name@, opt_view(*enclosed), bin_dir@, platform@),
{
    let nc = chars_of(name);
    if nc.len() > 0 && nc[nc.len() - 1] == '/' {
        return ExtractAction::SkipDirectory;
    }
    let p = match enclosed {
        None => {
            return ExtractAction::SkipUnsafeName;
        },
        Some(p) => p,
    };
    let f = match file_name(p.as_str()) {
        Some(n) => n,
        None => String::new(),
    };
    let fc = chars_of(f.as_str());
    if fc.len() == 0 {
        return ExtractAction::SkipEmptyName;
    }
    let executable = !eq_str(platform, "windows") && is_phoenixd_executable(f.as_str(), platform);
    ExtractAction::Write { outpath: join_path(bin_dir, f.as_str()), executable }
}

/// The `http-password` of a `phoenix.conf` text: what follows `http-password=` on the
/// first (trimmed) line that starts with it.
pub open spec fn conf_password_from(ls: Seq<Seq<char>>) -> Option<Seq<char>>
    decreases ls.len(),
{
    if ls.len() == 0 {
        None
    } else if "http-password="@.is_prefix_of(trim(ls[0])) {
        Some(trim(ls[0]).skip(14))
    } else {
        conf_password_from(ls.drop_first())
    }
}

/// Reads the HTTP password from a `phoenix.conf` text.
pub fn parse_phoenix_password(conf: &str) -> (r: Result<String, String>)
    ensures
        match conf_password_from(lines(conf@)) {
            Some(p) => r matches Ok(s) && s@ == p,
            None => r matches Err(e) && e@ == "http-password not found in phoenix.conf"@,
        },
{
    let cs = chars_of(conf);
    let ls = lines_of(cs.as_slice());
    let ghost vls = views(ls@);
    let key = chars_of("http-password=");
    proof {
        reveal_strlit("http-password=");
    }
    let mut i: usize = 0;
    assert(key@.len() == 14);
    assert(vls.skip(0) =~= vls);
    while i < ls.len()
        invariant
            i <= ls.len(),
            vls == views(ls@),
            vls == lines(conf@),
            key@ == "http-password="@,
            key@.len() == 14,
            conf_password_from(vls) == conf_password_from(vls.skip(i as int)),
        decreases ls.len() - i,
    {
        let t = trim_chars(ls[i].as_slice());
        assert(vls.skip(i as int)[0] == ls@[i as int]@);
        if has_prefix(t.as_slice(), key.as_slice()) {
            let rest = crate::text::copy_range(t.as_slice(), key.len(), t.len());
            assert(rest@ =~= t@.skip(14));
            return Ok(string_of(rest.as_slice()));
        }
        assert(vls.skip(i as int).drop_first() =~= vls.skip(i + 1));
        i = i + 1;
    }
    assert(vls.skip(ls.len() as int) =~= Seq::<Seq<char>>::empty());
    Err(owned("http-password not found in phoenix.conf"))
}

/// How many times the password is looked for while phoenixd starts, a second apart.
pub const PASSWORD_ATTEMPTS: u32 = 10;

/// After a failed attempt to read the password: none while attempts remain, else the
/// final error.
pub fn password_retry(attempt: u32, error: &str) -> (r: Option<String>)
    requires
        attempt >= 1,
    ensures
        attempt < 10 ==> r is None,
        attempt >= 10 ==> (r matches Some(e) && e@ == "Failed to get Phoenix password after "@ + decimal(
            attempt as nat,
        ) + " attempts: "@ + error@),
{
    if attempt < PASSWORD_ATTEMPTS {
        None
    } else {
        let mut e = owned("Failed to get Phoenix password after ");
        append(&mut e, decimal_string(attempt as u64).as_str());
        append(&mut e, " attempts: ");
        append(&mut e, error);
        Some(e)
    }
}

/// The answer of an endpoint that starts phoenixd or reads its configuration.
#[derive(Debug, Clone)]
pub struct PhoenixStartResponse {
    pub success: bool,
    pub message: String,
    pub downloaded: bool,
    pub pid: Option<u32>,
    pub url: Option<String>,
    pub password: Option<String>,
    pub is_running: Option<bool>,
}

/// The answer of the endpoint that stops phoenixd.
#[derive(Debug, Clone)]
pub struct PhoenixStopResponse {
    pub success: bool,
    pub message: String,
    pub pid: Option<u32>,
}

/// The answer when phoenixd was started with process id `pid`: the password is left out
/// when none could be read.
pub fn started_response(pid: u32, url: String, password: String, downloaded: bool) -> (r: PhoenixStartResponse)
    ensures
        r.success,
        r.message@ == "Phoenix daemon started successfully with PID: "@ + decimal(pid as nat),
        r.downloaded == downloaded,
        r.pid == Some(pid),
        opt_view(r.url) == Some(url@),
        opt_view(r.password) == if password@.len() == 0 {
            None
        } else {
            Some(password@)
        },
        r.is_running == Some(true),
{
    let mut message = owned("Phoenix daemon started successfully with PID: ");
    append(&mut message, decimal_string(pid as u64).as_str());
    let pw = if chars_of(password.as_str()).len() == 0 {
        None
    } else {
        Some(password)
    };
    PhoenixStartResponse {
        success: true,
        message,
        downloaded,
        pid: Some(pid),
        url: Some(url),
        password: pw,
        is_running: Some(true),
    }
}

/// The answer when phoenixd already runs: its address, never its password.
pub fn already_running_response(pid: Option<u32>) -> (r: PhoenixStartResponse)
    ensures
        r.success,
        r.message@ == "Phoenix daemon is already running"@,
        !r.downloaded,
        r.pid == pid,
        opt_view(r.url) == Some("http://127.0.0.1:9740"@),
        r.password is None,
        r.is_running == Some(true),
{
    PhoenixStartResponse {
        success: true,
        message: owned("Phoenix daemon is already running"),
        downloaded: false,
        pid,
        url: Some(owned(PHOENIX_DEFAULT_URL)),
        password: None,
        is_running: Some(true),
    }
}

/// `true` or `false`.
pub open spec fn bool_text(b: bool) -> Seq<char> {
    if b {
        "true"@
    } else {
        "false"@
    }
}

/// The answer of the configuration detection, given the detected address and password
/// (or why none was found) and whether phoenixd runs; none means "not found".
pub fn detect_config_response(existing: Result<(String, String), String>, is_running: bool) -> (r: Option<
    PhoenixStartResponse,
>)
    ensures
        match existing {
            Ok(p) => r matches Some(x) && x.success && x.message@ == "Existing Phoenix configuration detected (running: "@
                + bool_text(is_running) + ")"@ && !x.downloaded && x.pid is None && opt_view(x.url) == Some(p.0@)
                && opt_view(x.password) == Some(p.1@) && x.is_running == Some(is_running),
            Err(_) => if is_running {
                r matches Some(x) && x.success && x.message@ == "Phoenix is running but configuration not yet available"@
                    && !x.downloaded && x.pid is None && opt_view(x.url) == Some("http://127.0.0.1:9740"@)
                    && x.password is None && x.is_running == Some(true)
            } else {
                r is None
            },
        },
{
    match existing {
        Ok((url, password)) => {
            let mut message = owned("Existing Phoenix configuration detected (running: ");
            append(&mut message, if is_running { "true" } else { "false" });
            append(&mut message, ")");
            Some(
                PhoenixStartResponse {
                    success: true,
                    message,
                    downloaded: false,
                    pid: None,
                    url: Some(url),
                    password: Some(password),
                    is_running: Some(is_running),
                },
            )
        },
        Err(_) => if is_running {
            Some(
                PhoenixStartResponse {
                    success: true,
                    message: owned("Phoenix is running but configuration not yet available"),
                    downloaded: false,
                    pid: None,
                    url: Some(owned(PHOENIX_DEFAULT_URL)),
                    password: None,
                    is_running: Some(true),
                },
            )
        } else {
            None
        },
    }
}

/// How `{:?}` writes an optional process id.
pub open spec fn debug_pid(pid: Option<u32>) -> Seq<char> {
    match pid {
        Some(p) => "Some("@ + decimal(p as nat) + ")"@,
        None => "None"@,
    }
}

/// Writes an optional process id as `{:?}` does.
pub fn debug_pid_text(pid: Option<u32>) -> (r: String)
    ensures
        r@ == debug_pid(pid),
{
    match pid {
        Some(p) => {
            let mut s = owned("Some(");
            append(&mut s, decimal_string(p as u64).as_str());
            append(&mut s, ")");
            s
        },
        None => owned("None"),
    }
}

/// The answer when phoenixd was stopped; `exit` is how its exit status reads.
pub fn stopped_response(pid: Option<u32>, exit: &str) -> (r: PhoenixStopResponse)
    ensures
        r.success,
        r.message@ == "Phoenix daemon stopped successfully (PID: "@ + debug_pid(pid) + ", Exit: "@ + exit@ + ")"@,
        r.pid == pid,
{
    let mut message = owned("Phoenix daemon stopped successfully (PID: ");
    append(&mut message, debug_pid_text(pid).as_str());
    append(&mut message, ", Exit: ");
    append(&mut message, exit);
    append(&mut message, ")");
    PhoenixStopResponse { success: true, message, pid }
}

/// The answer when phoenixd was killed but its exit could not be awaited.
pub fn killed_unconfirmed_response(pid: Option<u32>, error: &str) -> (r: PhoenixStopResponse)
    ensures
        r.success,
        r.message@ == "Phoenix daemon killed (PID: "@ + debug_pid(pid) + ") but failed to wait for exit: "@ + error@,
        r.pid == pid,
{
    let mut message = owned("Phoenix daemon killed (PID: ");
    append(&mut message, debug_pid_text(pid).as_str());
    append(&mut message, ") but failed to wait for exit: ");
    append(&mut message, error);
    PhoenixStopResponse { success: true, message, pid }
}

/// The answer when there was no phoenixd to stop.
pub fn not_running_response() -> (r: PhoenixStopResponse)
    ensures
        r.success,
        r.message@ == "Phoenix daemon is not currently running"@,
        r.pid is None,
{
    PhoenixStopResponse { success: true, message: owned("Phoenix daemon is not currently running"), pid: None }
}

/// A zip archive read from memory.
#[verifier::external_type_specification]
#[verifier::external_body]
#[verifier::reject_recursive_types(R)]
pub struct ExZipArchive<R>(ZipArchive<R>);

/// An in-memory reader.
#[verifier::external_type_specification]
#[verifier::external_body]
#[verifier::reject_recursive_types(T)]
pub struct ExCursor<T>(Cursor<T>);

/// Why a zip archive could not be read.
#[verifier::external_type_specification]
#[verifier::external_body]
pub struct ExZipError(ZipError);

/// Whether `zip::ZipArchive::new` reads the bytes `data` as an archive.
pub uninterp spec fn zip_opens(data: Seq<u8>) -> bool;

/// What an archive holds, entry by entry in its central directory order: for an entry
/// that `zip::ZipArchive::by_index` can open, its stored name (`ZipFile::name`) and its
/// safe path as text (`ZipFile::enclosed_name`); nothing for one it cannot open.
pub uninterp spec fn zip_entries(archive: ZipArchive<Cursor<Vec<u8>>>) -> Seq<Option<(Seq<char>, Option<Seq<char>>)>>;

/// What the archive that `zip::ZipArchive::new` reads from the bytes `data` holds (see
/// `zip_entries`).
pub uninterp spec fn archive_entries(data: Seq<u8>) -> Seq<Option<(Seq<char>, Option<Seq<char>>)>>;

/// The unpacked content of an archive's entries, in its central directory order: for an
/// entry that `zip::ZipArchive::by_index` opens and whose `std::io::Read::read_to_end`
/// succeeds (decompressing it and checking its CRC), the bytes read; nothing otherwise.
pub uninterp spec fn zip_entry_data(archive: ZipArchive<Cursor<Vec<u8>>>) -> Seq<Option<Seq<u8>>>;

/// The unpacked content of the entries of the archive that `zip::ZipArchive::new` reads
/// from the bytes `data` (see `zip_entry_data`).
pub uninterp spec fn archive_entry_data(data: Seq<u8>) -> Seq<Option<Seq<u8>>>;

/// `zip::ZipArchive::new` over the archive's bytes. The result depends on the bytes
/// alone: whether they form an archive is what `zip_opens` names, and what the archive
/// holds is what `archive_entries` and `archive_entry_data` name.
#[verifier::external_body]
fn open_archive(data: Vec<u8>) -> (r: Result<ZipArchive<Cursor<Vec<u8>>>, ZipError>)
    ensures
        r is Ok <==> zip_opens(data@),
        r matches Ok(a) ==> zip_entries(a) == archive_entries(data@),
        r matches Ok(a) ==> zip_entry_data(a) == archive_entry_data(data@),
{
    ZipArchive::new(Cursor::new(data))
}

/// `zip::ZipArchive::len`: the number of entries in the central directory.
#[verifier::external_body]
fn archive_len(archive: &ZipArchive<Cursor<Vec<u8>>>) -> (r: usize)
    ensures
        r == zip_entries(*archive).len(),
        r == zip_entry_data(*archive).len(),
{
    archive.len()
}

/// `zip::ZipArchive::by_index`, read back as the entry's stored name and its safe path
/// (`ZipFile::name`, `ZipFile::enclosed_name`). The call only moves the archive's reader
/// (it seeks to the entry's offset), so what the archive holds stays as it was (names
/// and content alike); it
/// succeeds exactly for the entries `zip_entries` holds something for. The error value
/// itself is not described.
#[verifier::external_body]
fn entry_names(archive: &mut ZipArchive<Cursor<Vec<u8>>>, index: usize) -> (r: Result<(String, Option<String>), ZipError>)
    requires
        index < zip_entries(*old(archive)).len(),
    ensures
        zip_entries(*final(archive)) == zip_entries(*old(archive)),
        zip_entry_data(*final(archive)) == zip_entry_data(*old(archive)),
        r is Ok <==> zip_entries(*old(archive))[index as int] is Some,
        r matches Ok(p) ==> zip_entries(*old(archive))[index as int] == Some((p.0@, opt_view(p.1))),
{
    match archive.by_index(index) {
        Ok(f) => Ok(
            (
                f.name().to_string(),
                match f.enclosed_name() {
                    Some(p) => Some(p.to_string_lossy().into_owned()),
                    None => None,
                },
            ),
        ),
        Err(e) => Err(e),
    }
}

/// The `Display` text of a `zip::result::ZipError`; nothing is stated of it.
#[verifier::external_body]
fn zip_error_text(e: &ZipError) -> (r: String) {
    e.to_string()
}

/// `zip::ZipArchive::by_index`, then `std::io::Read::read_to_end` on the entry (zip's
/// `Read` for `ZipFile`, which decompresses the entry and checks its CRC): its unpacked
/// bytes. The outer error is that of `by_index`, which fails for an index past the last
/// entry and, by the name `zip_entries`, exactly for the entries that cannot be opened;
/// the inner error is the text of a failed read. The bytes read are the entry's content
/// as `zip_entry_data` names it, and the read succeeds exactly where that name holds
/// content. The call only moves the archive's reader, so what the archive holds stays as
/// it was.
#[verifier::external_body]
fn entry_bytes(archive: &mut ZipArchive<Cursor<Vec<u8>>>, index: usize) -> (r: Result<Result<Vec<u8>, String>, ZipError>)
    ensures
        zip_entries(*final(archive)) == zip_entries(*old(archive)),
        zip_entry_data(*final(archive)) == zip_entry_data(*old(archive)),
        r is Ok <==> index < zip_entries(*old(archive)).len() && zip_entries(*old(archive))[index as int] is Some,
        r matches Ok(Ok(b)) ==> index < zip_entry_data(*old(archive)).len() && zip_entry_data(
            *old(archive),
        )[index as int] == Some(b@),
        r matches Ok(Err(_)) ==> zip_entry_data(*old(archive))[index as int] is None,
        index < zip_entry_data(*old(archive)).len() && zip_entry_data(*old(archive))[index as int] is Some ==> (
        r matches Ok(Ok(_))),
{
    match archive.by_index(index) {
        Ok(mut f) => {
            let mut data = Vec::new();
            match std::io::Read::read_to_end(&mut f, &mut data) {
                Ok(_) => Ok(Ok(data)),
                Err(e) => Ok(Err(e.to_string())),
            }
        },
        Err(e) => Err(e),
    }
}

/// Whether every entry of an archive can be opened.
pub open spec fn all_readable(entries: Seq<Option<(Seq<char>, Option<Seq<char>>)>>) -> bool {
    forall|i: int| 0 <= i < entries.len() ==> (#[trigger] entries[i]) is Some
}

/// Whether the actions are those for the archive's entries, in order: every entry could
/// be opened and each action is what `extract_spec` decides for it.
pub open spec fn planned_for(
    entries: Seq<Option<(Seq<char>, Option<Seq<char>>)>>,
    actions: Seq<ExtractAction>,
    bin_dir: Seq<char>,
    platform: Seq<char>,
) -> bool {
    &&& actions.len() == entries.len()
    &&& forall|i: int|
        0 <= i < entries.len() ==> (#[trigger] entries[i] matches Some(e) && action_view(actions[i])
            == extract_spec(e.0, e.1, bin_dir, platform))
}

/// The release archive opened, with what happens to each of its entries, in order.
pub struct ExtractionPlan {
    pub archive: ZipArchive<Cursor<Vec<u8>>>,
    pub actions: Vec<ExtractAction>,
}

/// Opens the release archive and decides, entry by entry, what is unpacked where (see
/// `plan_entry`). Failing to read the archive or one of its entries fails the whole.
pub fn plan_extraction(zip_data: Vec<u8>, bin_dir: &str, platform: &str) -> (r: Result<ExtractionPlan, String>)
    ensures
        r is Ok <==> zip_opens(zip_data@) && all_readable(archive_entries(zip_data@)),
        !zip_opens(zip_data@) ==> (r matches Err(e) && "Failed to read zip archive: "@.is_prefix_of(e@)),
        zip_opens(zip_data@) ==> match r {
            Ok(p) => zip_entries(p.archive) == archive_entries(zip_data@) && zip_entry_data(p.archive)
                == archive_entry_data(zip_data@) && planned_for(
                archive_entries(zip_data@),
                p.actions@,
                bin_dir@,
                platform@,
            ),
            Err(e) => "Failed to read file from archive: "@.is_prefix_of(e@),
        },
{
    let mut archive = match open_archive(zip_data) {
        Ok(a) => a,
        Err(e) => {
            let mut m = owned("Failed to read zip archive: ");
            let ghost start = m@;
            append(&mut m, zip_error_text(&e).as_str());
            assert(start.is_prefix_of(m@));
            return Err(m);
        },
    };
    let n = archive_len(&archive);
    let ghost ents = zip_entries(archive);
    let mut actions: Vec<ExtractAction> = Vec::new();
    let mut i: usize = 0;
    while i < n
        invariant
            i <= n,
            n == ents.len(),
            zip_entries(archive) == ents,
            zip_opens(zip_data@),
            ents == archive_entries(zip_data@),
            zip_entry_data(archive) == archive_entry_data(zip_data@),
            actions@.len() == i,
            forall|j: int|
                0 <= j < i ==> (#[trigger] ents[j] matches Some(e) && action_view(actions@[j]) == extract_spec(
                    e.0,
                    e.1,
                    bin_dir@,
                    platform@,
                )),
        decreases n - i,
    {
        match entry_names(&mut archive, i) {
            Ok((name, enclosed)) => {
                let a = plan_entry(name.as_str(), &enclosed, bin_dir, platform);
                let ghost before = actions@;
                actions.push(a);
                assert forall|j: int| 0 <= j < i + 1 implies (#[trigger] ents[j] matches Some(e) && action_view(
                    actions@[j],
                ) == extract_spec(e.0, e.1, bin_dir@, platform@)) by {
                    if j < i {
                        assert(actions@[j] == before[j]);
                    }
                }
            },
            Err(e) => {
                let mut m = owned("Failed to read file from archive: ");
                let ghost start = m@;
                append(&mut m, zip_error_text(&e).as_str());
                assert(start.is_prefix_of(m@));
                assert(!all_readable(ents)) by {
                    assert(ents[i as int] is None);
                }
                return Err(m);
            },
        }
        i = i + 1;
    }
    assert(all_readable(ents)) by {
        assert forall|j: int| 0 <= j < ents.len() implies (#[trigger] ents[j]) is Some by {
            assert(ents[j] matches Some(e) && action_view(actions@[j]) == extract_spec(e.0, e.1, bin_dir@, platform@));
        }
    }
    Ok(ExtractionPlan { archive, actions })
}

/// The unpacked bytes of entry `index` of a planned archive, to be written to `outpath`.
/// An entry that cannot be opened (or an index past the last entry) gives the
/// "Failed to read file from archive: " error; a failed read gives "Failed to extract file
/// <outpath in its `Debug` form>: " and the reason. The bytes returned are the entry's
/// unpacked content, and they are returned whenever that content can be read. The plan's
/// archive holds what it held.
pub fn read_planned_entry(plan: &mut ExtractionPlan, index: usize, outpath: &str) -> (r: Result<Vec<u8>, String>)
    ensures
        zip_entries(final(plan).archive) == zip_entries(old(plan).archive),
        zip_entry_data(final(plan).archive) == zip_entry_data(old(plan).archive),
        r matches Ok(b) ==> index < zip_entry_data(old(plan).archive).len() && zip_entry_data(
            old(plan).archive,
        )[index as int] == Some(b@),
        index < zip_entry_data(old(plan).archive).len() && zip_entry_data(old(plan).archive)[index as int] is Some
            ==> r is Ok,
        final(plan).actions@ == old(plan).actions@,
        !(index < zip_entries(old(plan).archive).len() && zip_entries(old(plan).archive)[index as int] is Some) ==> (
        r matches Err(e) && "Failed to read file from archive: "@.is_prefix_of(e@)),
        index < zip_entries(old(plan).archive).len() && zip_entries(old(plan).archive)[index as int] is Some ==> (
        r matches Err(e) ==> ("Failed to extract file "@ + debug_quoted(outpath@) + ": "@).is_prefix_of(e@)),
{
    match entry_bytes(&mut plan.archive, index) {
        Ok(Ok(data)) => Ok(data),
        Ok(Err(reason)) => {
            let mut m = owned("Failed to extract file ");
            append(&mut m, debug_quote(outpath).as_str());
            append(&mut m, ": ");
            let ghost start = m@;
            append(&mut m, reason.as_str());
            assert(start.is_prefix_of(m@));
            Err(m)
        },
        Err(e) => {
            let mut m = owned("Failed to read file from archive: ");
            let ghost start = m@;
            append(&mut m, zip_error_text(&e).as_str());
            assert(start.is_prefix_of(m@));
            Err(m)
        },
    }
}

} // verus!
