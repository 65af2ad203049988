//! Path and configuration decisions of the desktop application: where it finds its
//! binaries and torrc files, and how its torrc templates are filled in.

use vstd::prelude::*;
use crate::paths::{exe_file_name, exe_name, is_known, join_path, known, path_ends_with, path_join, path_parent, substitute, substitute_all, PathConfig};
use crate::routes::phoenix::{conf_password_from, parse_phoenix_password, PhoenixStartResponse};
use crate::debug_info::payment_rate_of;
use crate::text::{
    append, debug_quote, debug_quoted, decimal, decimal_string, is_digit, is_ws, lemma_decimal_reads_back, lemma_parse_decimal, lines,
    owned, string_views,
};
use crate::torrc_parser::{law_set_then_get, opt_view, pair_views, set_setting_spec, set_torrc_config_line};

verus! {

/// The backend directory of a development checkout seen from the working directory:
/// `../../backend` from `src-tauri`, else `backend` when it exists.
pub open spec fn dev_backend_spec(cur: Seq<char>, existing: Seq<String>) -> Result<Seq<char>, Seq<char>> {
    if path_ends_with(cur, "src-tauri"@) {
        match path_parent(cur) {
            Some(p) => match path_parent(p) {
                Some(q) => Ok(path_join(q, "backend"@)),
                None => Err("Cannot navigate to backend directory from src-tauri"@),
            },
            None => Err("Cannot navigate to backend directory from src-tauri"@),
        }
    } else if known(existing, path_join(cur, "backend"@)) {
        Ok(path_join(cur, "backend"@))
    } else {
        Err("Not in development environment"@)
    }
}

/// The development data directory (`bin/data` of the backend), or why there is none.
pub open spec fn dev_data_spec(cur: Result<String, String>, existing: Seq<String>) -> Result<Seq<char>, Seq<char>> {
    match cur {
        Err(e) => Err("Failed to get current directory: "@ + e@),
        Ok(c) => match dev_backend_spec(c@, existing) {
            Ok(b) => Ok(path_join(path_join(b, "bin"@), "data"@)),
            Err(e) => Err(e),
        },
    }
}

/// The view of a text result.
pub open spec fn res_view(r: Result<String, String>) -> Result<Seq<char>, Seq<char>> {
    match r {
        Ok(s) => Ok(s@),
        Err(e) => Err(e@),
    }
}

/// The backend directory of a development checkout seen from the working directory.
fn dev_backend(cur: &str, existing: &[String]) -> (r: Result<String, String>)
    ensures
        res_view(r) == dev_backend_spec(cur@, existing@),
{
    if crate::paths::ends_with_component(cur, "src-tauri") {
        return match crate::paths::parent_of(cur) {
            Some(p) => match crate::paths::parent_of(p.as_str()) {
                Some(q) => Ok(join_path(q.as_str(), "backend")),
                None => Err(owned("Cannot navigate to backend directory from src-tauri")),
            },
            None => Err(owned("Cannot navigate to backend directory from src-tauri")),
        };
    }
    let sub = join_path(cur, "backend");
    if is_known(existing, sub.as_str()) {
        Ok(sub)
    } else {
        Err(owned("Not in development environment"))
    }
}

/// The development data directory, given the working directory (or why it could not be
/// read) and the paths known to exist.
pub fn get_dev_data_dir(current_dir: &Result<String, String>, existing: &[String]) -> (r: Result<String, String>)
    ensures
        res_view(r) == dev_data_spec(*current_dir, existing@),
{
    match current_dir {
        Err(e) => {
            let mut m = owned("Failed to get current directory: ");
            append(&mut m, e.as_str());
            Err(m)
        },
        Ok(c) => {
            let b = dev_backend(c.as_str(), existing)?;
            let bin = join_path(b.as_str(), "bin");
            Ok(join_path(bin.as_str(), "data"))
        },
    }
}

/// The directory the desktop application's torrc files live in: the development data
/// directory when there is one, else the per-user data directory.
pub open spec fn torrc_dir_spec(dev: Result<Seq<char>, Seq<char>>, app: Result<Seq<char>, Seq<char>>) -> Result<
    Seq<char>,
    Seq<char>,
> {
    match dev {
        Ok(d) => Ok(d),
        Err(_) => app,
    }
}

/// The client torrc file of the desktop application.
pub fn get_torrc_path(dev_data_dir: &Result<String, String>, app_data_dir: &Result<String, String>) -> (r: Result<
    String,
    String,
>)
    ensures
        res_view(r) == match torrc_dir_spec(res_view(*dev_data_dir), res_view(*app_data_dir)) {
            Ok(d) => Ok(path_join(d, "torrc"@)),
            Err(e) => Err(e),
        },
{
    let dir = match dev_data_dir {
        Ok(d) => d,
        Err(_) => match app_data_dir {
            Ok(a) => a,
            Err(e) => {
                return Err(e.clone());
            },
        },
    };
    Ok(join_path(dir.as_str(), "torrc"))
}

/// The relay torrc file of the desktop application.
pub fn get_torrc_relay_path(dev_data_dir: &Result<String, String>, app_data_dir: &Result<String, String>) -> (r:
    Result<String, String>)
    ensures
        res_view(r) == match torrc_dir_spec(res_view(*dev_data_dir), res_view(*app_data_dir)) {
            Ok(d) => Ok(path_join(d, "torrc.relay"@)),
            Err(e) => Err(e),
        },
{
    let dir = match dev_data_dir {
        Ok(d) => d,
        Err(_) => match app_data_dir {
            Ok(a) => a,
            Err(e) => {
                return Err(e.clone());
            },
        },
    };
    Ok(join_path(dir.as_str(), "torrc.relay"))
}

/// Where eltord might lie next to the executable in `exe_dir`, in the order tried.
pub open spec fn exe_candidates(exe_dir: Seq<char>) -> Seq<Seq<char>> {
    seq![
        exe_dir,
        path_join(exe_dir, "Resources"@),
        path_join(exe_dir, "backend"@),
        path_join(exe_dir, "../backend"@),
        path_join(exe_dir, "../../backend"@),
    ]
}

/// Whether eltord lies in `dir`.
pub open spec fn has_eltord(existing: Seq<String>, dir: Seq<char>) -> bool {
    known(existing, path_join(dir, "eltord"@)) || known(existing, path_join(dir, "eltord.exe"@))
}

/// The first candidate holding eltord, from position `i` on.
pub open spec fn first_with_eltord(cands: Seq<Seq<char>>, existing: Seq<String>, i: int) -> Option<Seq<char>>
    decreases cands.len() - i,
{
    if i < 0 || i >= cands.len() {
        None
    } else if has_eltord(existing, cands[i]) {
        Some(cands[i])
    } else {
        first_with_eltord(cands, existing, i + 1)
    }
}

/// The backend directory the desktop application uses for its binaries.
pub open spec fn backend_for_bins(
    cur: Seq<char>,
    exe: Result<Seq<char>, Seq<char>>,
    existing: Seq<String>,
) -> Result<Seq<char>, Seq<char>> {
    if path_ends_with(cur, "src-tauri"@) {
        match path_parent(cur) {
            Some(p) => match path_parent(p) {
                Some(q) => Ok(path_join(q, "backend"@)),
                None => Err("Cannot navigate to backend directory from src-tauri"@),
            },
            None => Err("Cannot navigate to backend directory from src-tauri"@),
        }
    } else if known(existing, path_join(cur, "backend"@)) {
        Ok(path_join(cur, "backend"@))
    } else {
        match exe {
            Err(e) => Err("Failed to get executable path: "@ + e),
            Ok(x) => match path_parent(x) {
                None => Err("Failed to get executable directory"@),
                Some(d) => match first_with_eltord(exe_candidates(d), existing, 0) {
                    Some(c) => Ok(c),
                    None => Ok(d),
                },
            },
        }
    }
}

/// The binary directory of the desktop application: `bin` of the backend directory,
/// unless it does not exist and eltord lies in the backend directory itself.
pub open spec fn bin_dir_spec(
    cur: Result<String, String>,
    exe: Result<String, String>,
    existing: Seq<String>,
) -> Result<Seq<char>, Seq<char>> {
    match cur {
        Err(e) => Err("Failed to get current directory: "@ + e@),
        Ok(c) => match backend_for_bins(c@, res_view(exe), existing) {
            Err(e) => Err(e),
            Ok(b) => if !known(existing, path_join(b, "bin"@)) && has_eltord(existing, b) {
                Ok(b)
            } else {
                Ok(path_join(b, "bin"@))
            },
        },
    }
}

/// Whether eltord lies in `dir`.
fn holds_eltord(existing: &[String], dir: &str) -> (r: bool)
    ensures
        r == has_eltord(existing@, dir@),
{
    let a = join_path(dir, "eltord");
    let b = join_path(dir, "eltord.exe");
    is_known(existing, a.as_str()) || is_known(existing, b.as_str())
}

/// The binary directory of the desktop application, given the working directory, the
/// executable's path (or why either could not be read), and the paths known to exist.
pub fn get_bin_dir(current_dir: &Result<String, String>, exe_path: &Result<String, String>, existing: &[String]) -> (r:
    Result<String, String>)
    ensures
        res_view(r) == bin_dir_spec(*current_dir, *exe_path, existing@),
{
    let cur = match current_dir {
        Err(e) => {
            let mut m = owned("Failed to get current directory: ");
            append(&mut m, e.as_str());
            return Err(m);
        },
        Ok(c) => c,
    };
    let backend = if crate::paths::ends_with_component(cur.as_str(), "src-tauri") {
        match crate::paths::parent_of(cur.as_str()) {
            Some(p) => match crate::paths::parent_of(p.as_str()) {
                Some(q) => join_path(q.as_str(), "backend"),
                None => {
                    return Err(owned("Cannot navigate to backend directory from src-tauri"));
                },
            },
            None => {
                return Err(owned("Cannot navigate to backend directory from src-tauri"));
            },
        }
    } else {
        let sub = join_path(cur.as_str(), "backend");
        if is_known(existing, sub.as_str()) {
            sub
        } else {
            let exe = match exe_path {
                Err(e) => {
                    let mut m = owned("Failed to get executable path: ");
                    append(&mut m, e.as_str());
                    return Err(m);
                },
                Ok(x) => x,
            };
            let d = match crate::paths::parent_of(exe.as_str()) {
                Some(d) => d,
                None => {
                    return Err(owned("Failed to get executable directory"));
                },
            };
            let mut cands: Vec<String> = Vec::new();
            cands.push(d.clone());
            cands.push(join_path(d.as_str(), "Resources"));
            cands.push(join_path(d.as_str(), "backend"));
            cands.push(join_path(d.as_str(), "../backend"));
            cands.push(join_path(d.as_str(), "../../backend"));
            let ghost cv = exe_candidates(d@);
            assert(string_views(cands@) =~= cv);
            let mut i: usize = 0;
            let mut found: Option<String> = None;
            while i < cands.len()
                invariant
                    i <= cands.len(),
                    cands@.len() == 5,
                    string_views(cands@) == cv,
                    found is None ==> first_with_eltord(cv, existing@, 0) == first_with_eltord(cv, existing@, i as int),
                    found matches Some(f) ==> first_with_eltord(cv, existing@, 0) == Some(f@),
                decreases cands.len() - i,
            {
                if found.is_none() {
                    assert(cv[i as int] == cands@[i as int]@);
                    if holds_eltord(existing, cands[i].as_str()) {
                        found = Some(cands[i].clone());
                    }
                }
                i = i + 1;
            }
            match found {
                Some(f) => f,
                None => d,
            }
        }
    };
    let bin = join_path(backend.as_str(), "bin");
    if !is_known(existing, bin.as_str()) && holds_eltord(existing, backend.as_str()) {
        Ok(backend)
    } else {
        Ok(bin)
    }
}

/// A binary of the desktop application, which must exist; on Windows (`windows`, the
/// target the program is built for) its file name ends in `.exe`. The message for a
/// missing binary names the path in its `Debug` form.
pub fn get_binary_path(bin_dir: &Result<String, String>, binary_name: &str, windows: bool, existing: &[String]) -> (r:
    Result<String, String>)
    ensures
        match *bin_dir {
            Err(e) => r matches Err(m) && m@ == e@,
            Ok(b) => if known(existing@, path_join(b@, exe_name(binary_name@, windows))) {
                r matches Ok(p) && p@ == path_join(b@, exe_name(binary_name@, windows))
            } else {
                r matches Err(m) && m@ == "Binary "@ + exe_name(binary_name@, windows) + " not found at: "@
                    + debug_quoted(path_join(b@, exe_name(binary_name@, windows)))
            },
        },
{
    let b = match bin_dir {
        Err(e) => {
            return Err(e.clone());
        },
        Ok(b) => b,
    };
    let name = exe_file_name(binary_name, windows);
    let p = join_path(b.as_str(), name.as_str());
    if is_known(existing, p.as_str()) {
        return Ok(p);
    }
    let mut m = owned("Binary ");
    append(&mut m, name.as_str());
    append(&mut m, " not found at: ");
    append(&mut m, debug_quote(p.as_str()).as_str());
    Err(m)
}

/// The paths whose existence one backend directory is asked about: its `bin`, and
/// eltord in it.
pub open spec fn backend_probes(b: Seq<char>) -> Seq<Seq<char>> {
    seq![path_join(b, "bin"@), path_join(b, "eltord"@), path_join(b, "eltord.exe"@)]
}

/// The probes of every candidate next to the executable, in order.
pub open spec fn candidate_probes(cands: Seq<Seq<char>>) -> Seq<Seq<char>>
    decreases cands.len(),
{
    if cands.len() == 0 {
        Seq::empty()
    } else {
        candidate_probes(cands.drop_last()) + backend_probes(cands.last())
    }
}

/// The paths whose existence choosing the binary directory may ask about.
pub open spec fn bin_probe_spec(cur: Seq<char>, exe: Option<Seq<char>>) -> Seq<Seq<char>> {
    let tauri = if path_ends_with(cur, "src-tauri"@) {
        match path_parent(cur) {
            Some(p) => match path_parent(p) {
                Some(q) => backend_probes(path_join(q, "backend"@)),
                None => Seq::empty(),
            },
            None => Seq::empty(),
        }
    } else {
        Seq::empty()
    };
    let from_exe = match exe {
        Some(x) => match path_parent(x) {
            Some(d) => candidate_probes(exe_candidates(d)),
            None => Seq::empty(),
        },
        None => Seq::empty(),
    };
    seq![path_join(cur, "backend"@)] + tauri + backend_probes(path_join(cur, "backend"@)) + from_exe
}

/// Appends the probes of one backend directory.
fn push_backend_probes(out: &mut Vec<String>, b: &str)
    ensures
        string_views(final(out)@) == string_views(old(out)@) + backend_probes(b@),
{
    let ghost start = out@;
    out.push(join_path(b, "bin"));
    out.push(join_path(b, "eltord"));
    out.push(join_path(b, "eltord.exe"));
    assert(string_views(out@) =~= string_views(start) + backend_probes(b@));
}

/// The paths whose existence choosing the binary directory may ask about; the caller
/// reports which of them exist.
pub fn bin_dir_probes(current_dir: &str, exe_path: &Option<String>) -> (r: Vec<String>)
    ensures
        string_views(r@) == bin_probe_spec(current_dir@, opt_view(*exe_path)),
{
    let mut out: Vec<String> = Vec::new();
    let sub = join_path(current_dir, "backend");
    out.push(sub.clone());
    let ghost mut expect = seq![path_join(current_dir@, "backend"@)];
    assert(string_views(out@) =~= expect);
    if crate::paths::ends_with_component(current_dir, "src-tauri") {
        if let Some(p) = crate::paths::parent_of(current_dir) {
            if let Some(q) = crate::paths::parent_of(p.as_str()) {
                let b = join_path(q.as_str(), "backend");
                push_backend_probes(&mut out, b.as_str());
                proof {
                    expect = expect + backend_probes(b@);
                }
            }
        }
    }
    push_backend_probes(&mut out, sub.as_str());
    proof {
        expect = expect + backend_probes(sub@);
    }
    if let Some(x) = exe_path {
        if let Some(d) = crate::paths::parent_of(x.as_str()) {
            let cands = vec![
                d.clone(),
                join_path(d.as_str(), "Resources"),
                join_path(d.as_str(), "backend"),
                join_path(d.as_str(), "../backend"),
                join_path(d.as_str(), "../../backend"),
            ];
            let ghost cv = exe_candidates(d@);
            assert(string_views(cands@) =~= cv);
            let ghost base = expect;
            let mut i: usize = 0;
            assert(cv.take(0) =~= Seq::<Seq<char>>::empty());
            while i < cands.len()
                invariant
                    i <= cands.len(),
                    string_views(cands@) == cv,
                    string_views(out@) == base + candidate_probes(cv.take(i as int)),
                decreases cands.len() - i,
            {
                assert(cv[i as int] == cands@[i as int]@);
                push_backend_probes(&mut out, cands[i].as_str());
                assert(cv.take(i + 1).drop_last() =~= cv.take(i as int));
                i = i + 1;
            }
            assert(cv.take(cands.len() as int) =~= cv);
            proof {
                expect = base + candidate_probes(cv);
            }
        }
    }
    assert(string_views(out@) =~= bin_probe_spec(current_dir@, opt_view(*exe_path)));
    out
}

/// How the per-user data directory of the desktop application was obtained.
#[derive(Debug, Clone)]
pub enum AppDataDir {
    /// The usual directory, which could be created.
    Ready(String),
    /// The temporary directory used when the usual one cannot be created (as when the
    /// application runs from a read-only disk image).
    Fallback(String),
    /// Neither could be had, for this reason.
    Unavailable(String),
}

/// The IP location database shipped with the binaries.
pub open spec fn ip_db_name() -> Seq<char> {
    "IP2LOCATION-LITE-DB3.BIN"@
}

/// Whether `dir` holds bundled resources: phoenixd or the IP location database.
pub open spec fn has_resources(existing: Seq<String>, dir: Seq<char>) -> bool {
    known(existing, path_join(dir, "phoenixd"@)) || known(existing, path_join(dir, ip_db_name()))
}

/// The three parts of a layout.
pub open spec fn layout_of(c: PathConfig) -> (Seq<char>, Seq<char>, Option<Seq<char>>) {
    (c.bin_dir@, c.data_dir@, opt_view(c.app_data_dir))
}

/// The desktop application's layout. Data always goes to the per-user directory (or its
/// temporary fallback). Binaries: with the fallback, the resource directory, else the
/// development directory, else a temporary one; otherwise the bundled `_up_` layout or
/// the resource directory when they hold resources, else the development directory when
/// it exists and holds resources, else the data directory.
pub open spec fn tauri_layout_spec(
    app: AppDataDir,
    resource_dir: Option<Result<String, String>>,
    cur: Result<String, String>,
    temp_dir: Seq<char>,
    canonical_dev_bin: Option<Seq<char>>,
    existing: Seq<String>,
) -> Result<(Seq<char>, Seq<char>, Option<Seq<char>>), Seq<char>> {
    match app {
        AppDataDir::Unavailable(e) => Err(e@),
        AppDataDir::Fallback(t) => {
            let bin = match resource_dir {
                Some(Ok(r)) => r@,
                _ => match cur {
                    Ok(c) => path_join(c@, "../../backend/bin"@),
                    Err(_) => path_join(temp_dir, "eltor-bin"@),
                },
            };
            Ok((bin, t@, Some(t@)))
        },
        AppDataDir::Ready(a) => {
            let tb = match resource_dir {
                Some(Ok(r)) => crate::paths::tauri_bin_dir_of(r@),
                _ => Seq::empty(),
            };
            if resource_dir matches Some(Ok(_)) && known(existing, tb) && has_resources(existing, tb) {
                Ok((tb, a@, Some(a@)))
            } else if resource_dir matches Some(Ok(r)) && has_resources(existing, r@) {
                Ok((resource_dir->Some_0->Ok_0@, a@, Some(a@)))
            } else {
                match cur {
                    Err(e) => Err("Failed to get current directory: "@ + e@),
                    Ok(_) => {
                        let bin = match canonical_dev_bin {
                            Some(d) => if has_resources(existing, d) {
                                d
                            } else {
                                a@
                            },
                            None => a@,
                        };
                        Ok((bin, a@, Some(a@)))
                    },
                }
            }
        },
    }
}

/// Whether `dir` holds bundled resources.
fn holds_resources(existing: &[String], dir: &str) -> (r: bool)
    ensures
        r == has_resources(existing@, dir@),
{
    let p = join_path(dir, "phoenixd");
    let d = join_path(dir, "IP2LOCATION-LITE-DB3.BIN");
    is_known(existing, p.as_str()) || is_known(existing, d.as_str())
}

/// The desktop application's layout, given how its data directory was obtained, its
/// resource directory (none without an application handle), the working directory, the
/// temporary directory, the canonical development binary directory if it exists, and
/// the paths known to exist.
pub fn create_tauri_path_config(
    app: &AppDataDir,
    resource_dir: &Option<Result<String, String>>,
    current_dir: &Result<String, String>,
    temp_dir: &str,
    canonical_dev_bin: &Option<String>,
    existing: &[String],
) -> (r: Result<PathConfig, String>)
    ensures
        match tauri_layout_spec(*app, *resource_dir, *current_dir, temp_dir@, opt_view(*canonical_dev_bin), existing@) {
            Ok(l) => r matches Ok(c) && layout_of(c) == l,
            Err(e) => r matches Err(m) && m@ == e,
        },
{
    match app {
        AppDataDir::Unavailable(e) => Err(e.clone()),
        AppDataDir::Fallback(t) => {
            let bin = match resource_dir {
                Some(Ok(r)) => r.clone(),
                _ => match current_dir {
                    Ok(c) => join_path(c.as_str(), "../../backend/bin"),
                    Err(_) => join_path(temp_dir, "eltor-bin"),
                },
            };
            Ok(PathConfig { bin_dir: bin, data_dir: t.clone(), app_data_dir: Some(t.clone()) })
        },
        AppDataDir::Ready(a) => {
            if let Some(Ok(r)) = resource_dir {
                let x = join_path(r.as_str(), "_up_");
                let y = join_path(x.as_str(), "_up_");
                let z = join_path(y.as_str(), "backend");
                let tb = join_path(z.as_str(), "bin");
                if is_known(existing, tb.as_str()) && holds_resources(existing, tb.as_str()) {
                    return Ok(PathConfig { bin_dir: tb, data_dir: a.clone(), app_data_dir: Some(a.clone()) });
                }
                if holds_resources(existing, r.as_str()) {
                    return Ok(PathConfig { bin_dir: r.clone(), data_dir: a.clone(), app_data_dir: Some(a.clone()) });
                }
            }
            match current_dir {
                Err(e) => {
                    let mut m = owned("Failed to get current directory: ");
                    append(&mut m, e.as_str());
                    Err(m)
                },
                Ok(_) => {
                    let bin = match canonical_dev_bin {
                        Some(d) => if holds_resources(existing, d.as_str()) {
                            d.clone()
                        } else {
                            a.clone()
                        },
                        None => a.clone(),
                    };
                    Ok(PathConfig { bin_dir: bin, data_dir: a.clone(), app_data_dir: Some(a.clone()) })
                },
            }
        },
    }
}

/// The paths whose existence choosing the desktop layout may ask about.
pub open spec fn tauri_probe_spec(resource_dir: Option<Result<String, String>>, canonical_dev_bin: Option<Seq<char>>) -> Seq<
    Seq<char>,
> {
    let res = match resource_dir {
        Some(Ok(r)) => {
            let tb = crate::paths::tauri_bin_dir_of(r@);
            seq![tb, path_join(tb, "phoenixd"@), path_join(tb, ip_db_name()), path_join(r@, "phoenixd"@), path_join(r@, ip_db_name())]
        },
        _ => Seq::empty(),
    };
    let dev = match canonical_dev_bin {
        Some(d) => seq![path_join(d, "phoenixd"@), path_join(d, ip_db_name())],
        None => Seq::empty(),
    };
    res + dev
}

/// The paths whose existence choosing the desktop layout may ask about; the caller
/// reports which of them exist.
pub fn tauri_path_probes(resource_dir: &Option<Result<String, String>>, canonical_dev_bin: &Option<String>) -> (r: Vec<
    String,
>)
    ensures
        string_views(r@) == tauri_probe_spec(*resource_dir, opt_view(*canonical_dev_bin)),
{
    let mut out: Vec<String> = Vec::new();
    if let Some(Ok(r)) = resource_dir {
        let x = join_path(r.as_str(), "_up_");
        let y = join_path(x.as_str(), "_up_");
        let z = join_path(y.as_str(), "backend");
        let tb = join_path(z.as_str(), "bin");
        out.push(join_path(tb.as_str(), "phoenixd"));
        out.push(join_path(tb.as_str(), "IP2LOCATION-LITE-DB3.BIN"));
        out.insert(0, tb);
        out.push(join_path(r.as_str(), "phoenixd"));
        out.push(join_path(r.as_str(), "IP2LOCATION-LITE-DB3.BIN"));
    }
    let ghost mid = out@;
    if let Some(d) = canonical_dev_bin {
        out.push(join_path(d.as_str(), "phoenixd"));
        out.push(join_path(d.as_str(), "IP2LOCATION-LITE-DB3.BIN"));
    }
    assert(string_views(out@) =~= tauri_probe_spec(*resource_dir, opt_view(*canonical_dev_bin)));
    out
}

/// The desktop application's answer when looking for an existing phoenixd
/// configuration, given `phoenix.conf` (none when the file does not exist; an error when
/// it could not be read) and whether phoenixd runs. A password line with an empty
/// password counts as none.
pub fn desktop_detect_phoenix_config(conf: &Option<Result<String, String>>, is_running: bool) -> (r: Result<
    PhoenixStartResponse,
    String,
>)
    ensures
        match *conf {
            Some(Ok(c)) => match conf_password_from(lines(c@)) {
                Some(p) => if p.len() > 0 {
                    r matches Ok(x) && x.success && x.message@ == "Existing Phoenix configuration detected (running: "@
                        + crate::routes::phoenix::bool_text(is_running) + ")"@ && !x.downloaded && x.pid is None
                        && opt_view(x.url) == Some("http://127.0.0.1:9740"@) && opt_view(x.password) == Some(p)
                        && x.is_running == Some(is_running)
                } else {
                    r matches Err(e) && e@ == "http-password not found in phoenix.conf"@
                },
                None => r matches Err(e) && e@ == "http-password not found in phoenix.conf"@,
            },
            Some(Err(e)) => r matches Err(m) && m@ == "Failed to read phoenix.conf: "@ + e@,
            None => if is_running {
                r matches Ok(x) && x.success && x.message@ == "Phoenix is running but configuration not yet available"@
                    && !x.downloaded && x.pid is None && opt_view(x.url) == Some("http://127.0.0.1:9740"@)
                    && x.password is None && x.is_running == Some(true)
            } else {
                r matches Err(e) && e@ == "Phoenix config file not found and Phoenix is not running"@
            },
        },
{
    match conf {
        Some(Ok(c)) => {
            let pw = match parse_phoenix_password(c.as_str()) {
                Ok(p) => p,
                Err(_) => {
                    return Err(owned("http-password not found in phoenix.conf"));
                },
            };
            if crate::text::chars_of(pw.as_str()).len() == 0 {
                return Err(owned("http-password not found in phoenix.conf"));
            }
            let found = Ok((owned("http://127.0.0.1:9740"), pw));
            match crate::routes::phoenix::detect_config_response(found, is_running) {
                Some(x) => Ok(x),
                None => Err(owned("http-password not found in phoenix.conf")),
            }
        },
        Some(Err(e)) => {
            let mut m = owned("Failed to read phoenix.conf: ");
            append(&mut m, e.as_str());
            Err(m)
        },
        None => match crate::routes::phoenix::detect_config_response(Err(String::new()), is_running) {
            Some(x) => Ok(x),
            None => Err(owned("Phoenix config file not found and Phoenix is not running")),
        },
    }
}

/// A desktop client nickname: `eltor-` followed by twelve lowercase ASCII letters.
pub open spec fn desktop_nickname(s: Seq<char>) -> bool {
    s.len() == 18 && s.take(6) == "eltor-"@ && forall|i: int| 6 <= i < 18 ==> 'a' <= #[trigger] s[i] && s[i] <= 'z'
}

/// A random desktop client nickname.
pub fn random_desktop_nickname() -> (r: String)
    ensures
        desktop_nickname(r@),
{
    let mut out = crate::text::chars_of("eltor-");
    proof {
        reveal_strlit("eltor-");
    }
    let mut i: usize = 0;
    while i < 12
        invariant
            i <= 12,
            out@.len() == 6 + i,
            out@.take(6) == "eltor-"@,
            forall|j: int| 6 <= j < 6 + i ==> 'a' <= #[trigger] out@[j] && out@[j] <= 'z',
        decreases 12 - i,
    {
        let k = crate::paths::random_between(0, 25);
        let code: u8 = 97 + k as u8;
        let c = code as char;
        assert(c as int == code as int);
        let ghost before = out@;
        out.push(c);
        assert(out@.take(6) =~= before.take(6));
        i = i + 1;
    }
    crate::text::string_of(out.as_slice())
}

/// The placeholders of the desktop client template and their values.
pub open spec fn desktop_torrc_values(nickname: Seq<char>, app_data_dir: Seq<char>) -> Seq<(Seq<char>, Seq<char>)> {
    seq![
        ("$APP_ELTOR_TOR_NICKNAME"@, nickname),
        ("$APP_ELTOR_TOR_DATA_DIRECTORY"@, path_join(app_data_dir, "tor_data"@)),
        ("$APP_ELTOR_TOR_SOCKS_PORT"@, "9050"@),
        ("$APP_ELTOR_TOR_CONTROL_PORT"@, "9051"@),
        ("$APP_ELTOR_TOR_HASHED_CONTROL_PASSWORD"@, "16:872860B76453A77D60CA2BB8C1A7042072093276A3D701AD684053EC4C"@),
        ("$APP_ELTOR_TOR_CLIENT_ADDRESS"@, "127.0.0.1"@),
        ("$APP_ELTOR_TOR_PAYMENT_CIRCUIT_MAX_FEE"@, "1000"@),
        ("$APP_ELTOR_LN_CONFIG"@, ""@),
        ("$APP_ELTOR_TOR_ADDITIONAL_DIR_AUTHORITY"@, ""@),
    ]
}

/// Appends a placeholder and its value.
fn push_value(v: &mut Vec<(String, String)>, key: &str, value: String)
    ensures
        pair_views(final(v)@) == pair_views(old(v)@).push((key@, value@)),
{
    v.push((owned(key), value));
    assert(pair_views(v@) =~= pair_views(old(v)@).push((key@, value@)));
}

/// Fills in the desktop client template with the given nickname.
pub fn substitute_desktop_torrc_with(content: &str, nickname: &str, app_data_dir: &str) -> (r: String)
    ensures
        r@ == substitute(content@, desktop_torrc_values(nickname@, app_data_dir@)),
{
    let mut v: Vec<(String, String)> = Vec::new();
    push_value(&mut v, "$APP_ELTOR_TOR_NICKNAME", owned(nickname));
    push_value(&mut v, "$APP_ELTOR_TOR_DATA_DIRECTORY", join_path(app_data_dir, "tor_data"));
    push_value(&mut v, "$APP_ELTOR_TOR_SOCKS_PORT", owned("9050"));
    push_value(&mut v, "$APP_ELTOR_TOR_CONTROL_PORT", owned("9051"));
    push_value(
        &mut v,
        "$APP_ELTOR_TOR_HASHED_CONTROL_PASSWORD",
        owned("16:872860B76453A77D60CA2BB8C1A7042072093276A3D701AD684053EC4C"),
    );
    push_value(&mut v, "$APP_ELTOR_TOR_CLIENT_ADDRESS", owned("127.0.0.1"));
    push_value(&mut v, "$APP_ELTOR_TOR_PAYMENT_CIRCUIT_MAX_FEE", owned("1000"));
    push_value(&mut v, "$APP_ELTOR_LN_CONFIG", owned(""));
    push_value(&mut v, "$APP_ELTOR_TOR_ADDITIONAL_DIR_AUTHORITY", owned(""));
    assert(pair_views(v@) =~= desktop_torrc_values(nickname@, app_data_dir@));
    substitute_all(content, &v)
}

/// Fills in the desktop client template with a random `eltor-` nickname.
pub fn substitute_desktop_torrc(content: &str, app_data_dir: &str) -> (r: String)
    ensures
        exists|n: Seq<char>| desktop_nickname(n) && r@ == substitute(content@, desktop_torrc_values(n, app_data_dir@)),
{
    let n = random_desktop_nickname();
    substitute_desktop_torrc_with(content, n.as_str(), app_data_dir)
}

/// The placeholders of the desktop relay template and their values.
pub open spec fn desktop_relay_values(app_data_dir: Seq<char>) -> Seq<(Seq<char>, Seq<char>)> {
    seq![
        ("$APP_ELTOR_TOR_RELAY_NICKNAME"@, "eltor-relay"@),
        ("$APP_ELTOR_TOR_RELAY_DATA_DIRECTORY"@, path_join(app_data_dir, "tor_data_relay"@)),
        ("$APP_ELTOR_TOR_RELAY_OR_PORT"@, "9001"@),
        ("$APP_ELTOR_TOR_RELAY_CONTROL_PORT"@, "9052"@),
        ("$APP_ELTOR_TOR_RELAY_SOCKS_PORT"@, "9150"@),
        (
            "$APP_ELTOR_TOR_RELAY_HASHED_CONTROL_PASSWORD"@,
            "16:872860B76453A77D60CA2BB8C1A7042072093276A3D701AD684053EC4C"@,
        ),
        ("$APP_ELTOR_TOR_RELAY_ADDRESS"@, "127.0.0.1"@),
        ("$APP_ELTOR_TOR_RELAY_CONTACT"@, "eltor@example.com"@),
        ("$APP_ELTOR_TOR_RELAY_SANDBOX"@, "1"@),
        ("$APP_ELTOR_TOR_EXIT_RELAY"@, "0"@),
        ("$APP_ELTOR_TOR_RELAY_PAYMENT_RATE_MSATS"@, "1000"@),
        ("$APP_ELTOR_TOR_RELAY_PAYMENT_INTERVAL_ROUNDS"@, "10"@),
        ("$APP_ELTOR_TOR_RELAY_PAYMENT_INTERVAL"@, "300"@),
        ("$APP_ELTOR_TOR_RELAY_PAYMENT_CIRCUIT_MAX_FEE"@, "1000"@),
        ("$APP_ELTOR_LN_BOLT12"@, ""@),
        ("$APP_ELTOR_LN_CONFIG"@, crate::paths::default_relay_ln_config()),
        ("$APP_ELTOR_TOR_RELAY_ADDITIONAL_DIR_AUTHORITY"@, ""@),
    ]
}

/// Fills in the desktop relay template.
pub fn substitute_desktop_torrc_relay(content: &str, app_data_dir: &str) -> (r: String)
    ensures
        r@ == substitute(content@, desktop_relay_values(app_data_dir@)),
{
    let mut v: Vec<(String, String)> = Vec::new();
    push_value(&mut v, "$APP_ELTOR_TOR_RELAY_NICKNAME", owned("eltor-relay"));
    push_value(&mut v, "$APP_ELTOR_TOR_RELAY_DATA_DIRECTORY", join_path(app_data_dir, "tor_data_relay"));
    push_value(&mut v, "$APP_ELTOR_TOR_RELAY_OR_PORT", owned("9001"));
    push_value(&mut v, "$APP_ELTOR_TOR_RELAY_CONTROL_PORT", owned("9052"));
    push_value(&mut v, "$APP_ELTOR_TOR_RELAY_SOCKS_PORT", owned("9150"));
    push_value(
        &mut v,
        "$APP_ELTOR_TOR_RELAY_HASHED_CONTROL_PASSWORD",
        owned("16:872860B76453A77D60CA2BB8C1A7042072093276A3D701AD684053EC4C"),
    );
    push_value(&mut v, "$APP_ELTOR_TOR_RELAY_ADDRESS", owned("127.0.0.1"));
    push_value(&mut v, "$APP_ELTOR_TOR_RELAY_CONTACT", owned("eltor@example.com"));
    push_value(&mut v, "$APP_ELTOR_TOR_RELAY_SANDBOX", owned("1"));
    push_value(&mut v, "$APP_ELTOR_TOR_EXIT_RELAY", owned("0"));
    push_value(&mut v, "$APP_ELTOR_TOR_RELAY_PAYMENT_RATE_MSATS", owned("1000"));
    push_value(&mut v, "$APP_ELTOR_TOR_RELAY_PAYMENT_INTERVAL_ROUNDS", owned("10"));
    push_value(&mut v, "$APP_ELTOR_TOR_RELAY_PAYMENT_INTERVAL", owned("300"));
    push_value(&mut v, "$APP_ELTOR_TOR_RELAY_PAYMENT_CIRCUIT_MAX_FEE", owned("1000"));
    push_value(&mut v, "$APP_ELTOR_LN_BOLT12", owned(""));
    push_value(
        &mut v,
        "$APP_ELTOR_LN_CONFIG",
        owned("type=phoenixd url=http://localhost:9740 password=password default=true"),
    );
    push_value(&mut v, "$APP_ELTOR_TOR_RELAY_ADDITIONAL_DIR_AUTHORITY", owned(""));
    assert(pair_views(v@) =~= desktop_relay_values(app_data_dir@));
    substitute_all(content, &v)
}


/// The relay torrc text with its payment rate set to `rate_msats` millisatoshis per
/// minute.
pub fn record_payment_rate(relay: &str, rate_msats: u64) -> (r: String)
    ensures
        r@ == set_setting_spec(relay@, "PaymentRateMsats"@, decimal(rate_msats as nat)),
{
    let value = decimal_string(rate_msats);
    set_torrc_config_line(relay, "PaymentRateMsats", value.as_str())
}

/// Law: the payment rate recorded in a relay torrc text is the one the diagnostic
/// report reads back from it.
pub proof fn law_payment_rate_reads_back(relay: Seq<char>, rate_msats: u64)
    ensures
        payment_rate_of(set_setting_spec(relay, "PaymentRateMsats"@, decimal(rate_msats as nat))) == Some(
            rate_msats as nat,
        ),
{
    reveal_strlit("PaymentRateMsats");
    let key = "PaymentRateMsats"@;
    let value = decimal(rate_msats as nat);
    lemma_decimal_reads_back(rate_msats as nat);
    lemma_parse_decimal(rate_msats as nat, 0xffff_ffff_ffff_ffff);
    assert(is_digit(value[0]) && is_digit(value.last()));
    assert forall|i: int| 0 <= i < value.len() implies value[i] != '\n' by {
        assert(is_digit(value[i]));
    }
    assert(key[0] == 'P');
    assert forall|i: int| 0 <= i < key.len() implies !is_ws(#[trigger] key[i]) by {}
    law_set_then_get(relay, key, value);
}

} // verus!
