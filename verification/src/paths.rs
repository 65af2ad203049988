//! Where the application keeps its binaries, its data and its torrc files, and how the
//! torrc templates are filled in.
//!
//! Paths are held as text and joined with `/` as the separator, the rule `PathBuf::push`
//! follows on Unix-like systems.

use vstd::prelude::*;
use rand::Rng;
use crate::text::{append, string_views, chars_of, contains, contains_chars, has_prefix, lacks, owned, replace_all, replace_chars, string_of};
use crate::torrc_parser::{opt_view, pair_views};

verus! {

/// `base` followed by `part`: an absolute `part` (one that starts with `/`) replaces
/// `base`; otherwise a `/` goes between them unless `base` is empty or already ends
/// with one.
pub open spec fn path_join(base: Seq<char>, part: Seq<char>) -> Seq<char> {
    if part.len() > 0 && part[0] == '/' {
        part
    } else if base.len() == 0 || base.last() == '/' {
        base + part
    } else {
        base + seq!['/'] + part
    }
}

/// Joins `part` onto `base`.
pub fn join_path(base: &str, part: &str) -> (r: String)
    ensures
        r@ == path_join(base@, part@),
{
    let pc = chars_of(part);
    if pc.len() > 0 && pc[0] == '/' {
        return owned(part);
    }
    let bc = chars_of(base);
    let mut out = owned(base);
    if !(bc.len() == 0 || bc[bc.len() - 1] == '/') {
        out.push('/');
    }
    append(&mut out, part);
    out
}

/// The text of the path `Path::parent` gives for the path `p`, if any.
pub uninterp spec fn path_parent(p: Seq<char>) -> Option<Seq<char>>;

/// Whether `Path::ends_with` holds: the last components of `p` are those of `child`.
pub uninterp spec fn path_ends_with(p: Seq<char>, child: Seq<char>) -> bool;

/// `std::path::Path::parent`, read back as text. Nothing is claimed of the result but
/// that it is what the name `path_parent` gives; the component rules of `std::path`
/// are not restated here.
#[verifier::external_body]
pub(crate) fn parent_of(p: &str) -> (r: Option<String>)
    ensures
        opt_view(r) == path_parent(p@),
{
    match std::path::Path::new(p).parent() {
        Some(q) => Some(q.to_string_lossy().into_owned()),
        None => None,
    }
}

/// `std::path::Path::ends_with`, which compares whole components. Its result is what the
/// name `path_ends_with` gives; the component rules are not restated here.
#[verifier::external_body]
pub(crate) fn ends_with_component(p: &str, child: &str) -> (r: bool)
    ensures
        r == path_ends_with(p@, child@),
{
    std::path::Path::new(p).ends_with(child)
}

/// The file name of the program `name`: with `.exe` appended on Windows.
pub open spec fn exe_name(name: Seq<char>, windows: bool) -> Seq<char> {
    if windows {
        name + ".exe"@
    } else {
        name
    }
}

/// The file name of the program `name` on the target (`.exe` appended on Windows).
pub fn exe_file_name(name: &str, windows: bool) -> (r: String)
    ensures
        r@ == exe_name(name@, windows),
{
    let mut f = owned(name);
    if windows {
        append(&mut f, ".exe");
    }
    f
}

/// Where the application finds its binaries and keeps its data.
#[derive(Debug, Clone)]
pub struct PathConfig {
    pub bin_dir: String,
    pub data_dir: String,
    pub app_data_dir: Option<String>,
}

/// What a `PathConfig` holds.
pub struct PathConfigView {
    pub bin_dir: Seq<char>,
    pub data_dir: Seq<char>,
    pub app_data_dir: Option<Seq<char>>,
}

impl View for PathConfig {
    type V = PathConfigView;

    open spec fn view(&self) -> PathConfigView {
        PathConfigView {
            bin_dir: self.bin_dir@,
            data_dir: self.data_dir@,
            app_data_dir: opt_view(self.app_data_dir),
        }
    }
}

/// What the environment says about where the application runs: the values that path
/// detection reads from the process environment and the file system.
#[derive(Debug)]
pub struct PathEnv {
    /// The working directory, or the reason it could not be read.
    pub current_dir: Result<String, String>,
    /// `ELTOR_BIN_DIR`.
    pub bin_dir_override: Option<String>,
    /// `ELTOR_DATA_DIR`.
    pub data_dir_override: Option<String>,
    /// Whether `ELTOR_DOCKER_ENV` is set.
    pub docker_env: bool,
    /// The path of the running executable, if known.
    pub exe_path: Option<String>,
    /// `CARGO_MANIFEST_DIR`.
    pub manifest_dir: Option<String>,
    /// Whether `ELTOR_TAURI_MODE` is set.
    pub tauri_mode: bool,
    /// The per-user application data directory, or the reason it is not available.
    pub app_data_dir: Result<String, String>,
}

/// The checkout that marks a Docker development environment.
pub open spec fn docker_root() -> Seq<char> {
    "/home/user/code/eltor-app"@
}

/// Whether `p` is among the paths known to exist.
pub open spec fn known(existing: Seq<String>, p: Seq<char>) -> bool {
    exists|i: int| 0 <= i < existing.len() && #[trigger] existing[i]@ == p
}

/// Whether `p` is among the paths known to exist.
pub fn is_known(existing: &[String], p: &str) -> (r: bool)
    ensures
        r == known(existing@, p@),
{
    let mut i: usize = 0;
    while i < existing.len()
        invariant
            i <= existing.len(),
            forall|j: int| 0 <= j < i ==> #[trigger] existing@[j]@ != p@,
        decreases existing.len() - i,
    {
        if crate::text::eq_str(existing[i].as_str(), p) {
            assert(existing@[i as int]@ == p@);
            return true;
        }
        i = i + 1;
    }
    false
}

/// The resources directory of a macOS application bundle whose executable lies in
/// `exe_dir` (`App.app/Contents/MacOS`).
pub open spec fn resources_dir_of(contents_dir: Seq<char>) -> Seq<char> {
    path_join(contents_dir, "Resources"@)
}

/// Where Tauri puts `backend/bin` when resources are given with relative paths.
pub open spec fn tauri_bin_dir_of(resources: Seq<char>) -> Seq<char> {
    path_join(path_join(path_join(path_join(resources, "_up_"@), "_up_"@), "backend"@), "bin"@)
}

/// The backend directory seen from the working directory `cur`.
pub open spec fn backend_dir_spec(
    cur: Seq<char>,
    existing: Seq<String>,
    manifest: Option<Seq<char>>,
) -> Result<Seq<char>, Seq<char>> {
    if path_ends_with(cur, "backend"@) {
        Ok(cur)
    } else if known(existing, path_join(cur, "backend"@)) {
        Ok(path_join(cur, "backend"@))
    } else if path_ends_with(cur, "src-tauri"@) {
        match path_parent(cur) {
            Some(p) => match path_parent(p) {
                Some(q) => Ok(path_join(q, "backend"@)),
                None => Err("Cannot navigate to backend directory from src-tauri"@),
            },
            None => Err("Cannot navigate to backend directory from src-tauri"@),
        }
    } else if path_ends_with(cur, "frontend"@) {
        match path_parent(cur) {
            Some(p) => Ok(path_join(p, "backend"@)),
            None => Err("Cannot navigate to backend directory from frontend"@),
        }
    } else {
        match manifest {
            Some(m) => if path_ends_with(m, "backend"@) {
                Ok(m)
            } else {
                Ok(path_join(m, "backend"@))
            },
            None => Err("Could not locate backend directory"@),
        }
    }
}

/// The backend directory seen from the working directory `current_dir`, given the
/// paths known to exist and `CARGO_MANIFEST_DIR`.
pub fn find_backend_dir(current_dir: &str, existing: &[String], manifest_dir: &Option<String>) -> (r:
    Result<String, String>)
    ensures
        match r {
            Ok(d) => backend_dir_spec(current_dir@, existing@, opt_view(*manifest_dir)) == Ok::<
                Seq<char>,
                Seq<char>,
            >(d@),
            Err(e) => backend_dir_spec(current_dir@, existing@, opt_view(*manifest_dir)) == Err::<
                Seq<char>,
                Seq<char>,
            >(e@),
        },
{
    if ends_with_component(current_dir, "backend") {
        return Ok(owned(current_dir));
    }
    let sub = join_path(current_dir, "backend");
    if is_known(existing, sub.as_str()) {
        return Ok(sub);
    }
    if ends_with_component(current_dir, "src-tauri") {
        return match parent_of(current_dir) {
            Some(p) => match parent_of(p.as_str()) {
                Some(q) => Ok(join_path(q.as_str(), "backend")),
                None => Err(owned("Cannot navigate to backend directory from src-tauri")),
            },
            None => Err(owned("Cannot navigate to backend directory from src-tauri")),
        };
    }
    if ends_with_component(current_dir, "frontend") {
        return match parent_of(current_dir) {
            Some(p) => Ok(join_path(p.as_str(), "backend")),
            None => Err(owned("Cannot navigate to backend directory from frontend")),
        };
    }
    match manifest_dir {
        Some(m) => if ends_with_component(m.as_str(), "backend") {
            Ok(m.clone())
        } else {
            Ok(join_path(m.as_str(), "backend"))
        },
        None => Err(owned("Could not locate backend directory")),
    }
}

/// The three parts of a detected layout: binaries, data, and the per-user data directory.
pub type Layout = (Seq<char>, Seq<char>, Option<Seq<char>>);

/// The layout of a bundled executable, if the executable's surroundings show one.
pub open spec fn bundle_layout(env: PathEnv, existing: Seq<String>) -> Option<Result<Layout, Seq<char>>> {
    match env.exe_path {
        None => None,
        Some(exe) => match path_parent(exe@) {
            None => Some(Err("Failed to get executable directory"@)),
            Some(exe_dir) => {
                let bundle = contains(exe@, ".app/Contents/MacOS/"@);
                if bundle && env.app_data_dir is Err {
                    Some(Err(env.app_data_dir->Err_0@))
                } else if bundle && path_parent(exe_dir) is Some && known(
                    existing,
                    resources_dir_of(path_parent(exe_dir)->Some_0),
                ) {
                    let res = resources_dir_of(path_parent(exe_dir)->Some_0);
                    let app = env.app_data_dir->Ok_0@;
                    let bin = if known(existing, tauri_bin_dir_of(res)) {
                        tauri_bin_dir_of(res)
                    } else {
                        res
                    };
                    Some(Ok((bin, app, Some(app))))
                } else if known(existing, path_join(exe_dir, "torrc.template"@)) || known(
                    existing,
                    path_join(exe_dir, "phoenixd"@),
                ) {
                    match env.app_data_dir {
                        Ok(a) => Some(Ok((exe_dir, a@, Some(a@)))),
                        Err(e) => Some(Err(e@)),
                    }
                } else {
                    None
                }
            },
        },
    }
}

/// The layout of a development checkout seen from the working directory `cur`.
pub open spec fn dev_layout(cur: Seq<char>, env: PathEnv, existing: Seq<String>) -> Result<Layout, Seq<char>> {
    match backend_dir_spec(cur, existing, opt_view(env.manifest_dir)) {
        Err(e) => Err(e),
        Ok(b) => {
            let bin = path_join(b, "bin"@);
            let data = path_join(bin, "data"@);
            if env.tauri_mode {
                match env.app_data_dir {
                    Ok(a) => Ok((bin, data, Some(a@))),
                    Err(e) => Err(e@),
                }
            } else {
                Ok((bin, data, None))
            }
        },
    }
}

/// The layout chosen for an environment: an explicit `ELTOR_BIN_DIR` first, then a
/// Docker checkout, then a bundled executable, and last a development checkout.
pub open spec fn detect_spec(env: PathEnv, existing: Seq<String>) -> Result<Layout, Seq<char>> {
    match env.current_dir {
        Err(e) => Err("Failed to get current directory: "@ + e@),
        Ok(cur) => match env.bin_dir_override {
            Some(b) => Ok(
                (
                    b@,
                    match env.data_dir_override {
                        Some(d) => d@,
                        None => path_join(b@, "data"@),
                    },
                    None,
                ),
            ),
            None => if env.docker_env || known(existing, docker_root()) {
                Ok(
                    (
                        "/home/user/code/eltor-app/backend/bin"@,
                        "/home/user/code/eltor-app/backend/bin/data"@,
                        None,
                    ),
                )
            } else {
                match bundle_layout(env, existing) {
                    Some(r) => r,
                    None => dev_layout(cur@, env, existing),
                }
            },
        },
    }
}

/// The paths whose existence layout detection asks about.
pub open spec fn probe_spec(env: PathEnv) -> Seq<Seq<char>> {
    let exe_probes = match env.exe_path {
        Some(exe) => match path_parent(exe@) {
            Some(d) => seq![path_join(d, "torrc.template"@), path_join(d, "phoenixd"@)] + match path_parent(d) {
                Some(c) => seq![resources_dir_of(c), tauri_bin_dir_of(resources_dir_of(c))],
                None => Seq::<Seq<char>>::empty(),
            },
            None => Seq::<Seq<char>>::empty(),
        },
        None => Seq::<Seq<char>>::empty(),
    };
    let cur_probes = match env.current_dir {
        Ok(c) => seq![path_join(c@, "backend"@)],
        Err(_) => Seq::<Seq<char>>::empty(),
    };
    seq![docker_root()] + exe_probes + cur_probes
}

/// The paths whose existence layout detection asks about; the caller reports which of
/// them exist.
pub fn path_probes(env: &PathEnv) -> (r: Vec<String>)
    ensures
        string_views(r@) == probe_spec(*env),
{
    let mut out: Vec<String> = Vec::new();
    out.push(owned("/home/user/code/eltor-app"));
    let ghost mut expect: Seq<Seq<char>> = seq![docker_root()];
    proof {
        reveal_strlit("/home/user/code/eltor-app");
        assert(string_views(out@) =~= expect);
    }
    if let Some(exe) = &env.exe_path {
        if let Some(d) = parent_of(exe.as_str()) {
            out.push(join_path(d.as_str(), "torrc.template"));
            out.push(join_path(d.as_str(), "phoenixd"));
            proof {
                expect = expect + seq![path_join(d@, "torrc.template"@), path_join(d@, "phoenixd"@)];
                assert(string_views(out@) =~= expect);
            }
            if let Some(c) = parent_of(d.as_str()) {
                let res = join_path(c.as_str(), "Resources");
                let a = join_path(res.as_str(), "_up_");
                let b = join_path(a.as_str(), "_up_");
                let e = join_path(b.as_str(), "backend");
                let t = join_path(e.as_str(), "bin");
                out.push(res);
                out.push(t);
                proof {
                    expect = expect + seq![resources_dir_of(c@), tauri_bin_dir_of(resources_dir_of(c@))];
                    assert(string_views(out@) =~= expect);
                }
            }
        }
    }
    if let Ok(c) = &env.current_dir {
        out.push(join_path(c.as_str(), "backend"));
        proof {
            expect = expect + seq![path_join(c@, "backend"@)];
            assert(string_views(out@) =~= expect);
        }
    }
    assert(expect =~= probe_spec(*env));
    out
}

/// Converts a detected layout to its view.
pub open spec fn layout_view(l: (String, String, Option<String>)) -> Layout {
    (l.0@, l.1@, opt_view(l.2))
}

/// Detects the layout for an environment, given which of the paths from `path_probes`
/// exist.
pub fn detect_paths(env: &PathEnv, existing: &[String]) -> (r: Result<(String, String, Option<String>), String>)
    ensures
        match r {
            Ok(l) => detect_spec(*env, existing@) == Ok::<Layout, Seq<char>>(layout_view(l)),
            Err(e) => detect_spec(*env, existing@) == Err::<Layout, Seq<char>>(e@),
        },
{
    let cur = match &env.current_dir {
        Err(e) => {
            let mut m = owned("Failed to get current directory: ");
            append(&mut m, e.as_str());
            return Err(m);
        },
        Ok(c) => c,
    };
    if let Some(b) = &env.bin_dir_override {
        let data = match &env.data_dir_override {
            Some(d) => d.clone(),
            None => join_path(b.as_str(), "data"),
        };
        return Ok((b.clone(), data, None));
    }
    if env.docker_env || is_known(existing, "/home/user/code/eltor-app") {
        return Ok(
            (owned("/home/user/code/eltor-app/backend/bin"), owned("/home/user/code/eltor-app/backend/bin/data"), None),
        );
    }
    if let Some(exe) = &env.exe_path {
        let exe_dir = match parent_of(exe.as_str()) {
            Some(d) => d,
            None => {
                return Err(owned("Failed to get executable directory"));
            },
        };
        let exe_chars = chars_of(exe.as_str());
        let pat = chars_of(".app/Contents/MacOS/");
        let bundle = contains_chars(exe_chars.as_slice(), pat.as_slice());
        if bundle {
            let app = match &env.app_data_dir {
                Ok(a) => a,
                Err(e) => {
                    return Err(e.clone());
                },
            };
            if let Some(c) = parent_of(exe_dir.as_str()) {
                let res = join_path(c.as_str(), "Resources");
                if is_known(existing, res.as_str()) {
                    let a = join_path(res.as_str(), "_up_");
                    let b = join_path(a.as_str(), "_up_");
                    let e = join_path(b.as_str(), "backend");
                    let t = join_path(e.as_str(), "bin");
                    let bin = if is_known(existing, t.as_str()) {
                        t
                    } else {
                        res
                    };
                    return Ok((bin, app.clone(), Some(app.clone())));
                }
            }
        }
        let tmpl = join_path(exe_dir.as_str(), "torrc.template");
        let phx = join_path(exe_dir.as_str(), "phoenixd");
        if is_known(existing, tmpl.as_str()) || is_known(existing, phx.as_str()) {
            return match &env.app_data_dir {
                Ok(a) => Ok((exe_dir, a.clone(), Some(a.clone()))),
                Err(e) => Err(e.clone()),
            };
        }
    }
    let backend = find_backend_dir(cur.as_str(), existing, &env.manifest_dir)?;
    let bin = join_path(backend.as_str(), "bin");
    let data = join_path(bin.as_str(), "data");
    if env.tauri_mode {
        match &env.app_data_dir {
            Ok(a) => Ok((bin, data, Some(a.clone()))),
            Err(e) => Err(e.clone()),
        }
    } else {
        Ok((bin, data, None))
    }
}

/// Where a torrc file named `data/<name>` (the older form) or `<name>` lies: `<name>` in
/// the data directory.
pub open spec fn torrc_data_dir_spec(pc: PathConfigView, name: Seq<char>) -> Seq<char> {
    path_join(
        pc.data_dir,
        if "data/"@.is_prefix_of(name) {
            name.skip(5)
        } else {
            name
        },
    )
}

/// Law: a binary directory given by `ELTOR_BIN_DIR` wins over every detected layout,
/// whatever else the environment holds and whatever exists on disk; the data directory
/// is then `ELTOR_DATA_DIR`, or `data` under the binary directory. (Detection still fails
/// when the working directory cannot be read.)
pub proof fn law_env_overrides_win(env: PathEnv, existing: Seq<String>)
    requires
        env.current_dir is Ok,
        env.bin_dir_override is Some,
    ensures
        detect_spec(env, existing) == Ok::<Layout, Seq<char>>(
            (
                env.bin_dir_override->Some_0@,
                match env.data_dir_override {
                    Some(d) => d@,
                    None => path_join(env.bin_dir_override->Some_0@, "data"@),
                },
                None,
            ),
        ),
{
}

/// Law: naming a torrc file with the older `data/` prefix or without it designates the
/// same file (for names that do not themselves start with `data/`).
pub proof fn law_data_prefix_is_optional(pc: PathConfigView, name: Seq<char>)
    requires
        !"data/"@.is_prefix_of(name),
    ensures
        torrc_data_dir_spec(pc, "data/"@ + name) == torrc_data_dir_spec(pc, name),
{
    reveal_strlit("data/");
    let full = "data/"@ + name;
    assert("data/"@.is_prefix_of(full)) by {
        assert(full.subrange(0, 5) =~= "data/"@);
    }
    assert(full.skip(5) =~= name);
}

impl PathConfig {
    /// The layout detected for an environment (see `detect_paths`).
    pub fn new(env: &PathEnv, existing: &[String]) -> (r: Result<PathConfig, String>)
        ensures
            match r {
                Ok(c) => detect_spec(*env, existing@) == Ok::<Layout, Seq<char>>(
                    (c@.bin_dir, c@.data_dir, c@.app_data_dir),
                ),
                Err(e) => detect_spec(*env, existing@) == Err::<Layout, Seq<char>>(e@),
            },
    {
        let (bin_dir, data_dir, app_data_dir) = detect_paths(env, existing)?;
        Ok(PathConfig { bin_dir, data_dir, app_data_dir })
    }

    /// Explicit binary and data directories when both are given (the data directory then
    /// also serves as the per-user data directory); otherwise the detected layout.
    pub fn with_overrides(
        bin_dir_override: Option<String>,
        data_dir_override: Option<String>,
        env: &PathEnv,
        existing: &[String],
    ) -> (r: Result<PathConfig, String>)
        ensures
            (bin_dir_override is Some && data_dir_override is Some) ==> r == Ok::<PathConfig, String>(
                PathConfig {
                    bin_dir: bin_dir_override->Some_0,
                    data_dir: data_dir_override->Some_0,
                    app_data_dir: data_dir_override,
                },
            ),
            !(bin_dir_override is Some && data_dir_override is Some) ==> match r {
                Ok(c) => detect_spec(*env, existing@) == Ok::<Layout, Seq<char>>(
                    (c@.bin_dir, c@.data_dir, c@.app_data_dir),
                ),
                Err(e) => detect_spec(*env, existing@) == Err::<Layout, Seq<char>>(e@),
            },
    {
        if let (Some(bin_dir), Some(data_dir)) = (bin_dir_override, data_dir_override) {
            let d2 = data_dir.clone();
            proof {
                assert(d2 == data_dir);
            }
            Ok(PathConfig { bin_dir, data_dir: d2, app_data_dir: Some(data_dir) })
        } else {
            Self::new(env, existing)
        }
    }

    /// The layout of a Tauri application: binaries in its resource directory, data in the
    /// per-user application data directory.
    pub fn for_tauri_with_resource_dir(resource_dir: String, app_data_dir: Result<String, String>) -> (r:
        Result<PathConfig, String>)
        ensures
            match app_data_dir {
                Ok(a) => r matches Ok(c) && c@.bin_dir == resource_dir@ && c@.data_dir == a@
                    && c@.app_data_dir == Some(a@),
                Err(e) => r == Err::<PathConfig, String>(e),
            },
    {
        let app = app_data_dir?;
        Ok(PathConfig { bin_dir: resource_dir, data_dir: app.clone(), app_data_dir: Some(app) })
    }

    /// The path of a torrc file in the data directory (`torrc` when no name is given).
    pub fn get_torrc_path(&self, filename: Option<&str>) -> (r: String)
        ensures
            r@ == path_join(
                self.data_dir@,
                match filename {
                    Some(f) => f@,
                    None => "torrc"@,
                },
            ),
    {
        match filename {
            Some(f) => join_path(self.data_dir.as_str(), f),
            None => join_path(self.data_dir.as_str(), "torrc"),
        }
    }

    /// The path of `torrc.relay` in the data directory.
    pub fn get_torrc_relay_path(&self) -> (r: String)
        ensures
            r@ == path_join(self.data_dir@, "torrc.relay"@),
    {
        join_path(self.data_dir.as_str(), "torrc.relay")
    }

    /// The path of an executable in the binary directory; on Windows (`windows`, the
    /// target the program is built for) its file name ends in `.exe`.
    pub fn get_executable_path(&self, name: &str, windows: bool) -> (r: String)
        ensures
            r@ == path_join(self.bin_dir@, exe_name(name@, windows)),
    {
        let file = exe_file_name(name, windows);
        join_path(self.bin_dir.as_str(), file.as_str())
    }

    /// The data-directory path of a torrc file named as `data/<name>` or `<name>`.
    pub fn get_torrc_data_dir(&self, torrc_filename: &str) -> (r: String)
        ensures
            r@ == torrc_data_dir_spec(self@, torrc_filename@),
    {
        let f = chars_of(torrc_filename);
        let p = chars_of("data/");
        proof {
            reveal_strlit("data/");
        }
        if has_prefix(f.as_slice(), p.as_slice()) {
            let rest = crate::text::copy_range(f.as_slice(), 5, f.len());
            let rest_s = string_of(rest.as_slice());
            join_path(self.data_dir.as_str(), rest_s.as_str())
        } else {
            join_path(self.data_dir.as_str(), torrc_filename)
        }
    }

    /// The path, relative to the repository root, that port inspection reads a torrc
    /// file from: `./bin/<name>` for `data/<name>`, otherwise `./bin/data/<name>`.
    pub fn get_torrc_path_for_ports(&self, torrc_filename: &str) -> (r: String)
        ensures
            r@ == if "data/"@.is_prefix_of(torrc_filename@) {
                "./bin/"@ + torrc_filename@
            } else {
                "./bin/data/"@ + torrc_filename@
            },
    {
        let f = chars_of(torrc_filename);
        let p = chars_of("data/");
        let mut out = if has_prefix(f.as_slice(), p.as_slice()) {
            owned("./bin/")
        } else {
            owned("./bin/data/")
        };
        append(&mut out, torrc_filename);
        out
    }
}

/// `content` with each placeholder of `pairs`, in order, replaced by its value.
pub open spec fn substitute(content: Seq<char>, pairs: Seq<(Seq<char>, Seq<char>)>) -> Seq<char>
    decreases pairs.len(),
{
    if pairs.len() == 0 {
        content
    } else {
        replace_all(substitute(content, pairs.drop_last()), pairs.last().0, pairs.last().1)
    }
}

/// Replaces, in order, each placeholder of `pairs` by its value.
pub fn substitute_all(content: &str, pairs: &Vec<(String, String)>) -> (r: String)
    ensures
        r@ == substitute(content@, pair_views(pairs@)),
{
    let mut cur: Vec<char> = chars_of(content);
    let ghost ps = pair_views(pairs@);
    let mut i: usize = 0;
    assert(ps.take(0) =~= Seq::<(Seq<char>, Seq<char>)>::empty());
    while i < pairs.len()
        invariant
            i <= pairs.len(),
            ps == pair_views(pairs@),
            cur@ == substitute(content@, ps.take(i as int)),
        decreases pairs.len() - i,
    {
        let f = chars_of(pairs[i].0.as_str());
        let t = chars_of(pairs[i].1.as_str());
        assert(ps[i as int] == (pairs@[i as int].0@, pairs@[i as int].1@));
        assert(ps.take(i + 1).drop_last() =~= ps.take(i as int));
        if f.len() > 0 {
            cur = replace_chars(cur.as_slice(), f.as_slice(), t.as_slice());
        } else {
            assert(replace_all(cur@, f@, t@) == cur@);
        }
        i = i + 1;
    }
    assert(ps.take(pairs.len() as int) =~= ps);
    string_of(cur.as_slice())
}

/// The value of an environment variable, or `d` when it is unset.
pub open spec fn or_default(o: Option<String>, d: Seq<char>) -> Seq<char> {
    match o {
        Some(v) => v@,
        None => d,
    }
}

/// The value of an environment variable, or `d` when it is unset.
pub fn value_or(o: &Option<String>, d: &str) -> (r: String)
    ensures
        r@ == or_default(*o, d@),
{
    match o {
        Some(v) => v.clone(),
        None => owned(d),
    }
}

/// The characters a generated relay nickname is made of: ASCII letters and digits.
pub open spec fn nickname_char(c: char) -> bool {
    ('a' <= c && c <= 'z') || ('A' <= c && c <= 'Z') || ('0' <= c && c <= '9')
}

/// A generated nickname: 12 to 19 ASCII letters and digits.
pub open spec fn valid_nickname(s: Seq<char>) -> bool {
    12 <= s.len() <= 19 && forall|i: int| 0 <= i < s.len() ==> nickname_char(#[trigger] s[i])
}

/// `rand::Rng::gen_range` over `lo..=hi` on the thread-local generator: a value in that
/// range, which one being left to chance.
#[verifier::external_body]
pub(crate) fn random_between(lo: usize, hi: usize) -> (r: usize)
    requires
        lo <= hi,
    ensures
        lo <= r <= hi,
{
    rand::thread_rng().gen_range(lo..=hi)
}

/// The character at position `i` of `a..z`, `A..Z`, `0..9` taken in that order.
fn charset_char(i: usize) -> (r: char)
    requires
        i < 62,
    ensures
        nickname_char(r),
{
    let code: u8 = if i < 26 {
        97 + i as u8
    } else if i < 52 {
        65 + (i - 26) as u8
    } else {
        48 + (i - 52) as u8
    };
    let c = code as char;
    assert(c as int == code as int);
    c
}

/// A random nickname of 12 to 19 letters and digits.
pub fn random_nickname() -> (r: String)
    ensures
        valid_nickname(r@),
{
    let n = random_between(12, 19);
    let mut out: Vec<char> = Vec::new();
    let mut i: usize = 0;
    while i < n
        invariant
            i <= n <= 19,
            out@.len() == i,
            forall|j: int| 0 <= j < out@.len() ==> nickname_char(#[trigger] out@[j]),
        decreases n - i,
    {
        let k = random_between(0, 61);
        out.push(charset_char(k));
        i = i + 1;
    }
    string_of(out.as_slice())
}

/// The environment variables the client torrc template reads.
#[derive(Debug, Clone)]
pub struct TorrcEnv {
    pub nickname: Option<String>,
    pub data_directory: Option<String>,
    pub socks_port: Option<String>,
    pub control_port: Option<String>,
    pub hashed_control_password: Option<String>,
    pub client_address: Option<String>,
    pub payment_circuit_max_fee: Option<String>,
    pub ln_config: Option<String>,
    pub additional_dir_authority: Option<String>,
}

/// The hashed control password both templates fall back to.
pub open spec fn default_hashed_password() -> Seq<char> {
    "16:281EC5644A4F548A60D50A0DD4DF835FFD50EDED062FD270D7269943DA"@
}

/// The placeholders of the client torrc template and their values, in the order they
/// are replaced.
pub open spec fn torrc_values(env: TorrcEnv, nickname: Seq<char>, data_dir: Seq<char>) -> Seq<
    (Seq<char>, Seq<char>),
> {
    seq![
        ("$APP_ELTOR_TOR_NICKNAME"@, or_default(env.nickname, nickname)),
        ("$APP_ELTOR_TOR_DATA_DIRECTORY"@, or_default(env.data_directory, data_dir)),
        ("$APP_ELTOR_TOR_SOCKS_PORT"@, or_default(env.socks_port, "0.0.0.0:18058"@)),
        ("$APP_ELTOR_TOR_CONTROL_PORT"@, or_default(env.control_port, "9992"@)),
        (
            "$APP_ELTOR_TOR_HASHED_CONTROL_PASSWORD"@,
            or_default(env.hashed_control_password, default_hashed_password()),
        ),
        ("$APP_ELTOR_TOR_CLIENT_ADDRESS"@, or_default(env.client_address, "127.0.0.1"@)),
        ("$APP_ELTOR_TOR_PAYMENT_CIRCUIT_MAX_FEE"@, or_default(env.payment_circuit_max_fee, "1000"@)),
        ("$APP_ELTOR_LN_CONFIG"@, or_default(env.ln_config, ""@)),
        ("$APP_ELTOR_TOR_ADDITIONAL_DIR_AUTHORITY"@, or_default(env.additional_dir_authority, ""@)),
    ]
}

/// Appends a placeholder and its value.
fn push_pair(v: &mut Vec<(String, String)>, key: &str, value: String)
    ensures
        pair_views(final(v)@) == pair_views(old(v)@).push((key@, value@)),
{
    v.push((owned(key), value));
    assert(pair_views(v@) =~= pair_views(old(v)@).push((key@, value@)));
}

/// Fills in the client torrc template with the given nickname and default data
/// directory where the environment gives no value.
pub fn substitute_torrc_variables_with(
    content: &str,
    env: &TorrcEnv,
    nickname: &str,
    default_tor_data_dir: &str,
) -> (r: Result<String, String>)
    ensures
        r matches Ok(s) && s@ == substitute(content@, torrc_values(*env, nickname@, default_tor_data_dir@)),
{
    let mut v: Vec<(String, String)> = Vec::new();
    push_pair(&mut v, "$APP_ELTOR_TOR_NICKNAME", value_or(&env.nickname, nickname));
    push_pair(&mut v, "$APP_ELTOR_TOR_DATA_DIRECTORY", value_or(&env.data_directory, default_tor_data_dir));
    push_pair(&mut v, "$APP_ELTOR_TOR_SOCKS_PORT", value_or(&env.socks_port, "0.0.0.0:18058"));
    push_pair(&mut v, "$APP_ELTOR_TOR_CONTROL_PORT", value_or(&env.control_port, "9992"));
    push_pair(
        &mut v,
        "$APP_ELTOR_TOR_HASHED_CONTROL_PASSWORD",
        value_or(&env.hashed_control_password, "16:281EC5644A4F548A60D50A0DD4DF835FFD50EDED062FD270D7269943DA"),
    );
    push_pair(&mut v, "$APP_ELTOR_TOR_CLIENT_ADDRESS", value_or(&env.client_address, "127.0.0.1"));
    push_pair(&mut v, "$APP_ELTOR_TOR_PAYMENT_CIRCUIT_MAX_FEE", value_or(&env.payment_circuit_max_fee, "1000"));
    push_pair(&mut v, "$APP_ELTOR_LN_CONFIG", value_or(&env.ln_config, ""));
    push_pair(&mut v, "$APP_ELTOR_TOR_ADDITIONAL_DIR_AUTHORITY", value_or(&env.additional_dir_authority, ""));
    assert(pair_views(v@) =~= torrc_values(*env, nickname@, default_tor_data_dir@));
    Ok(substitute_all(content, &v))
}

/// Fills in the client torrc template; where the environment names no nickname a
/// random one is used.
pub fn substitute_torrc_variables(content: &str, env: &TorrcEnv, default_tor_data_dir: &str) -> (r: Result<
    String,
    String,
>)
    ensures
        exists|n: Seq<char>|
            valid_nickname(n) && (r matches Ok(s) && s@ == substitute(
                content@,
                torrc_values(*env, n, default_tor_data_dir@),
            )),
{
    let nick = random_nickname();
    substitute_torrc_variables_with(content, env, nick.as_str(), default_tor_data_dir)
}

/// The environment variables the relay torrc template reads.
#[derive(Debug, Clone)]
pub struct TorrcRelayEnv {
    pub nickname: Option<String>,
    pub data_directory: Option<String>,
    pub or_port: Option<String>,
    pub control_port: Option<String>,
    pub socks_port: Option<String>,
    pub hashed_control_password: Option<String>,
    pub address: Option<String>,
    pub contact: Option<String>,
    pub sandbox: Option<String>,
    pub exit_relay: Option<String>,
    pub payment_rate_msats: Option<String>,
    pub payment_interval: Option<String>,
    pub payment_interval_rounds: Option<String>,
    pub payment_circuit_max_fee: Option<String>,
    pub ln_bolt12: Option<String>,
    pub ln_config: Option<String>,
    pub additional_dir_authority: Option<String>,
}

/// The payment node line the relay template falls back to.
pub open spec fn default_relay_ln_config() -> Seq<char> {
    "type=phoenixd url=http://localhost:9740 password=password default=true"@
}

/// The placeholders of the relay torrc template and their values, in the order they
/// are replaced. `PAYMENT_INTERVAL_ROUNDS` is replaced before `PAYMENT_INTERVAL`, so each
/// placeholder is replaced as a whole by its own value.
pub open spec fn torrc_relay_values(
    env: TorrcRelayEnv,
    nickname: Seq<char>,
    data_dir: Seq<char>,
    public_ip: Seq<char>,
) -> Seq<(Seq<char>, Seq<char>)> {
    seq![
        ("$APP_ELTOR_TOR_RELAY_NICKNAME"@, or_default(env.nickname, nickname)),
        ("$APP_ELTOR_TOR_RELAY_DATA_DIRECTORY"@, or_default(env.data_directory, data_dir)),
        ("$APP_ELTOR_TOR_RELAY_OR_PORT"@, or_default(env.or_port, "9996"@)),
        ("$APP_ELTOR_TOR_RELAY_CONTROL_PORT"@, or_default(env.control_port, "7781"@)),
        ("$APP_ELTOR_TOR_RELAY_SOCKS_PORT"@, or_default(env.socks_port, "0.0.0.0:18057"@)),
        (
            "$APP_ELTOR_TOR_RELAY_HASHED_CONTROL_PASSWORD"@,
            or_default(env.hashed_control_password, default_hashed_password()),
        ),
        ("$APP_ELTOR_TOR_RELAY_ADDRESS"@, or_default(env.address, public_ip)),
        ("$APP_ELTOR_TOR_RELAY_CONTACT"@, or_default(env.contact, "eltor@example.com"@)),
        ("$APP_ELTOR_TOR_RELAY_SANDBOX"@, or_default(env.sandbox, "1"@)),
        ("$APP_ELTOR_TOR_EXIT_RELAY"@, or_default(env.exit_relay, "0"@)),
        ("$APP_ELTOR_TOR_RELAY_PAYMENT_RATE_MSATS"@, or_default(env.payment_rate_msats, "1000"@)),
        ("$APP_ELTOR_TOR_RELAY_PAYMENT_INTERVAL_ROUNDS"@, or_default(env.payment_interval_rounds, "10"@)),
        ("$APP_ELTOR_TOR_RELAY_PAYMENT_INTERVAL"@, or_default(env.payment_interval, "300"@)),
        (
            "$APP_ELTOR_TOR_RELAY_PAYMENT_CIRCUIT_MAX_FEE"@,
            or_default(env.payment_circuit_max_fee, "1000"@),
        ),
        ("$APP_ELTOR_LN_BOLT12"@, or_default(env.ln_bolt12, ""@)),
        ("$APP_ELTOR_LN_CONFIG"@, or_default(env.ln_config, default_relay_ln_config())),
        (
            "$APP_ELTOR_TOR_RELAY_ADDITIONAL_DIR_AUTHORITY"@,
            or_default(env.additional_dir_authority, ""@),
        ),
    ]
}

/// Fills in the relay torrc template with the given nickname, default data directory
/// and public address where the environment gives no value.
pub fn substitute_torrc_relay_variables_with(
    content: &str,
    env: &TorrcRelayEnv,
    nickname: &str,
    default_relay_data_dir: &str,
    public_ip: &str,
) -> (r: Result<String, String>)
    ensures
        r matches Ok(s) && s@ == substitute(
            content@,
            torrc_relay_values(*env, nickname@, default_relay_data_dir@, public_ip@),
        ),
{
    let mut v: Vec<(String, String)> = Vec::new();
    push_pair(&mut v, "$APP_ELTOR_TOR_RELAY_NICKNAME", value_or(&env.nickname, nickname));
    push_pair(&mut v, "$APP_ELTOR_TOR_RELAY_DATA_DIRECTORY", value_or(&env.data_directory, default_relay_data_dir));
    push_pair(&mut v, "$APP_ELTOR_TOR_RELAY_OR_PORT", value_or(&env.or_port, "9996"));
    push_pair(&mut v, "$APP_ELTOR_TOR_RELAY_CONTROL_PORT", value_or(&env.control_port, "7781"));
    push_pair(&mut v, "$APP_ELTOR_TOR_RELAY_SOCKS_PORT", value_or(&env.socks_port, "0.0.0.0:18057"));
    push_pair(
        &mut v,
        "$APP_ELTOR_TOR_RELAY_HASHED_CONTROL_PASSWORD",
        value_or(&env.hashed_control_password, "16:281EC5644A4F548A60D50A0DD4DF835FFD50EDED062FD270D7269943DA"),
    );
    push_pair(&mut v, "$APP_ELTOR_TOR_RELAY_ADDRESS", value_or(&env.address, public_ip));
    push_pair(&mut v, "$APP_ELTOR_TOR_RELAY_CONTACT", value_or(&env.contact, "eltor@example.com"));
    push_pair(&mut v, "$APP_ELTOR_TOR_RELAY_SANDBOX", value_or(&env.sandbox, "1"));
    push_pair(&mut v, "$APP_ELTOR_TOR_EXIT_RELAY", value_or(&env.exit_relay, "0"));
    push_pair(&mut v, "$APP_ELTOR_TOR_RELAY_PAYMENT_RATE_MSATS", value_or(&env.payment_rate_msats, "1000"));
    push_pair(&mut v, "$APP_ELTOR_TOR_RELAY_PAYMENT_INTERVAL_ROUNDS", value_or(&env.payment_interval_rounds, "10"));
    push_pair(&mut v, "$APP_ELTOR_TOR_RELAY_PAYMENT_INTERVAL", value_or(&env.payment_interval, "300"));
    push_pair(
        &mut v,
        "$APP_ELTOR_TOR_RELAY_PAYMENT_CIRCUIT_MAX_FEE",
        value_or(&env.payment_circuit_max_fee, "1000"),
    );
    push_pair(&mut v, "$APP_ELTOR_LN_BOLT12", value_or(&env.ln_bolt12, ""));
    push_pair(
        &mut v,
        "$APP_ELTOR_LN_CONFIG",
        value_or(&env.ln_config, "type=phoenixd url=http://localhost:9740 password=password default=true"),
    );
    push_pair(
        &mut v,
        "$APP_ELTOR_TOR_RELAY_ADDITIONAL_DIR_AUTHORITY",
        value_or(&env.additional_dir_authority, ""),
    );
    assert(pair_views(v@) =~= torrc_relay_values(*env, nickname@, default_relay_data_dir@, public_ip@));
    Ok(substitute_all(content, &v))
}

/// Fills in the relay torrc template; where the environment names no nickname a random
/// one is used.
pub fn substitute_torrc_relay_variables(
    content: &str,
    env: &TorrcRelayEnv,
    default_relay_data_dir: &str,
    public_ip: &str,
) -> (r: Result<String, String>)
    ensures
        exists|n: Seq<char>|
            valid_nickname(n) && (r matches Ok(s) && s@ == substitute(
                content@,
                torrc_relay_values(*env, n, default_relay_data_dir@, public_ip@),
            )),
{
    let nick = random_nickname();
    substitute_torrc_relay_variables_with(content, env, nick.as_str(), default_relay_data_dir, public_ip)
}


/// A placeholder name: a `$` and then no other `$`.
pub open spec fn placeholder_shaped(k: Seq<char>) -> bool {
    k.len() > 0 && k[0] == '$' && forall|i: int| 1 <= i < k.len() ==> k[i] != '$'
}

/// Whether `a` is shown not to be a prefix of `b` by its length or by a character at one
/// of the positions where the placeholder names of the templates part.
pub open spec fn parts_from(a: Seq<char>, b: Seq<char>) -> bool {
    ||| a.len() > b.len()
    ||| (a.len() > 11 && b.len() > 11 && a[11] != b[11])
    ||| (a.len() > 15 && b.len() > 15 && a[15] != b[15])
    ||| (a.len() > 21 && b.len() > 21 && a[21] != b[21])
    ||| (a.len() > 22 && b.len() > 22 && a[22] != b[22])
    ||| (a.len() > 24 && b.len() > 24 && a[24] != b[24])
    ||| (a.len() > 25 && b.len() > 25 && a[25] != b[25])
    ||| (a.len() > 29 && b.len() > 29 && a[29] != b[29])
    ||| (a.len() > 14 && b.len() > 14 && a[14] != b[14])
    ||| (a.len() > 18 && b.len() > 18 && a[18] != b[18])
}

proof fn lemma_parts_from(a: Seq<char>, b: Seq<char>)
    requires
        parts_from(a, b),
    ensures
        !a.is_prefix_of(b),
{
    if a.is_prefix_of(b) {
        assert forall|i: int| 0 <= i < a.len() implies a[i] == b[i] by {
            assert(b.subrange(0, a.len() as int)[i] == b[i]);
        }
    }
}

/// Replacing a placeholder in a text without `$` changes nothing.
proof fn lemma_replace_in_plain(s: Seq<char>, f: Seq<char>, t: Seq<char>)
    requires
        lacks(s, '$'),
        f.len() > 0,
        f[0] == '$',
    ensures
        replace_all(s, f, t) == s,
    decreases s.len(),
{
    if s.len() > 0 {
        if f.is_prefix_of(s) {
            assert(s.subrange(0, f.len() as int)[0] == s[0]);
        }
        assert(lacks(s.drop_first(), '$')) by {
            assert forall|i: int| 0 <= i < s.drop_first().len() implies s.drop_first()[i] != '$' by {
                assert(s.drop_first()[i] == s[i + 1]);
            }
        }
        lemma_replace_in_plain(s.drop_first(), f, t);
        assert(seq![s[0]] + s.drop_first() =~= s);
    }
}

/// Replacing another placeholder, which does not begin the name `k`, leaves `k` as it is.
proof fn lemma_replace_other(k: Seq<char>, f: Seq<char>, t: Seq<char>)
    requires
        placeholder_shaped(k),
        f.len() > 0,
        f[0] == '$',
        !f.is_prefix_of(k),
    ensures
        replace_all(k, f, t) == k,
{
    assert(lacks(k.drop_first(), '$')) by {
        assert forall|i: int| 0 <= i < k.drop_first().len() implies k.drop_first()[i] != '$' by {
            assert(k.drop_first()[i] == k[i + 1]);
        }
    }
    lemma_replace_in_plain(k.drop_first(), f, t);
    assert(seq![k[0]] + k.drop_first() =~= k);
}

/// Placeholders that do not begin the name `k` leave it as it is.
proof fn lemma_substitute_others(k: Seq<char>, ps: Seq<(Seq<char>, Seq<char>)>)
    requires
        placeholder_shaped(k),
        forall|j: int|
            0 <= j < ps.len() ==> (#[trigger] ps[j]).0.len() > 0 && ps[j].0[0] == '$' && !ps[j].0.is_prefix_of(k),
    ensures
        substitute(k, ps) == k,
    decreases ps.len(),
{
    if ps.len() > 0 {
        assert(ps.last() == ps[ps.len() - 1]);
        lemma_substitute_others(k, ps.drop_last());
        lemma_replace_other(k, ps.last().0, ps.last().1);
    }
}

/// A text that is one placeholder becomes that placeholder's value, when no placeholder
/// replaced before it begins its name and the value holds no `$`.
proof fn lemma_substitute_placeholder(ps: Seq<(Seq<char>, Seq<char>)>, x: int)
    requires
        0 <= x < ps.len(),
        placeholder_shaped(ps[x].0),
        lacks(ps[x].1, '$'),
        forall|j: int| 0 <= j < ps.len() ==> (#[trigger] ps[j]).0.len() > 0 && ps[j].0[0] == '$',
        forall|j: int| 0 <= j < x ==> !(#[trigger] ps[j]).0.is_prefix_of(ps[x].0),
    ensures
        substitute(ps[x].0, ps) == ps[x].1,
    decreases ps.len(),
{
    if x < ps.len() - 1 {
        assert(ps.drop_last()[x] == ps[x]);
        assert forall|j: int| 0 <= j < ps.drop_last().len() implies (#[trigger] ps.drop_last()[j]).0.len() > 0
            && ps.drop_last()[j].0[0] == '$' by {
            assert(ps.drop_last()[j] == ps[j]);
        }
        assert forall|j: int| 0 <= j < x implies !(#[trigger] ps.drop_last()[j]).0.is_prefix_of(ps[x].0) by {
            assert(ps.drop_last()[j] == ps[j]);
        }
        lemma_substitute_placeholder(ps.drop_last(), x);
        assert(ps.last() == ps[ps.len() - 1]);
        lemma_replace_in_plain(ps[x].1, ps.last().0, ps.last().1);
    } else {
        let k = ps[x].0;
        assert forall|j: int| 0 <= j < ps.drop_last().len() implies (#[trigger] ps.drop_last()[j]).0.len() > 0
            && ps.drop_last()[j].0[0] == '$' && !ps.drop_last()[j].0.is_prefix_of(k) by {
            assert(ps.drop_last()[j] == ps[j]);
        }
        lemma_substitute_others(k, ps.drop_last());
        assert(ps.last() == ps[x]);
        assert(k.is_prefix_of(k)) by {
            assert(k.subrange(0, k.len() as int) =~= k);
        }
        assert(k.skip(k.len() as int) =~= Seq::<char>::empty());
        assert(replace_all(Seq::<char>::empty(), k, ps[x].1) == Seq::<char>::empty());
        assert(replace_all(k, k, ps[x].1) == ps[x].1 + replace_all(k.skip(k.len() as int), k, ps[x].1));
        assert(ps[x].1 + Seq::<char>::empty() =~= ps[x].1);
    }
}

/// Law: each placeholder of the relay template is filled in from its own environment
/// variable. A template that is one placeholder becomes the value of that placeholder's
/// variable when it is set (and holds no `$`, which would read as a placeholder).
pub proof fn law_relay_placeholders_take_their_own_values(
    env: TorrcRelayEnv,
    nickname: Seq<char>,
    data_dir: Seq<char>,
    public_ip: Seq<char>,
)
    ensures
        env.nickname matches Some(v) ==> (lacks(v@, '$') ==> substitute("$APP_ELTOR_TOR_RELAY_NICKNAME"@, torrc_relay_values(env, nickname, data_dir, public_ip)) == v@),
        env.data_directory matches Some(v) ==> (lacks(v@, '$') ==> substitute("$APP_ELTOR_TOR_RELAY_DATA_DIRECTORY"@, torrc_relay_values(env, nickname, data_dir, public_ip)) == v@),
        env.or_port matches Some(v) ==> (lacks(v@, '$') ==> substitute("$APP_ELTOR_TOR_RELAY_OR_PORT"@, torrc_relay_values(env, nickname, data_dir, public_ip)) == v@),
        env.control_port matches Some(v) ==> (lacks(v@, '$') ==> substitute("$APP_ELTOR_TOR_RELAY_CONTROL_PORT"@, torrc_relay_values(env, nickname, data_dir, public_ip)) == v@),
        env.socks_port matches Some(v) ==> (lacks(v@, '$') ==> substitute("$APP_ELTOR_TOR_RELAY_SOCKS_PORT"@, torrc_relay_values(env, nickname, data_dir, public_ip)) == v@),
        env.hashed_control_password matches Some(v) ==> (lacks(v@, '$') ==> substitute("$APP_ELTOR_TOR_RELAY_HASHED_CONTROL_PASSWORD"@, torrc_relay_values(env, nickname, data_dir, public_ip)) == v@),
        env.address matches Some(v) ==> (lacks(v@, '$') ==> substitute("$APP_ELTOR_TOR_RELAY_ADDRESS"@, torrc_relay_values(env, nickname, data_dir, public_ip)) == v@),
        env.contact matches Some(v) ==> (lacks(v@, '$') ==> substitute("$APP_ELTOR_TOR_RELAY_CONTACT"@, torrc_relay_values(env, nickname, data_dir, public_ip)) == v@),
        env.sandbox matches Some(v) ==> (lacks(v@, '$') ==> substitute("$APP_ELTOR_TOR_RELAY_SANDBOX"@, torrc_relay_values(env, nickname, data_dir, public_ip)) == v@),
        env.exit_relay matches Some(v) ==> (lacks(v@, '$') ==> substitute("$APP_ELTOR_TOR_EXIT_RELAY"@, torrc_relay_values(env, nickname, data_dir, public_ip)) == v@),
        env.payment_rate_msats matches Some(v) ==> (lacks(v@, '$') ==> substitute("$APP_ELTOR_TOR_RELAY_PAYMENT_RATE_MSATS"@, torrc_relay_values(env, nickname, data_dir, public_ip)) == v@),
        env.payment_interval_rounds matches Some(v) ==> (lacks(v@, '$') ==> substitute("$APP_ELTOR_TOR_RELAY_PAYMENT_INTERVAL_ROUNDS"@, torrc_relay_values(env, nickname, data_dir, public_ip)) == v@),
        env.payment_interval matches Some(v) ==> (lacks(v@, '$') ==> substitute("$APP_ELTOR_TOR_RELAY_PAYMENT_INTERVAL"@, torrc_relay_values(env, nickname, data_dir, public_ip)) == v@),
        env.payment_circuit_max_fee matches Some(v) ==> (lacks(v@, '$') ==> substitute("$APP_ELTOR_TOR_RELAY_PAYMENT_CIRCUIT_MAX_FEE"@, torrc_relay_values(env, nickname, data_dir, public_ip)) == v@),
        env.ln_bolt12 matches Some(v) ==> (lacks(v@, '$') ==> substitute("$APP_ELTOR_LN_BOLT12"@, torrc_relay_values(env, nickname, data_dir, public_ip)) == v@),
        env.ln_config matches Some(v) ==> (lacks(v@, '$') ==> substitute("$APP_ELTOR_LN_CONFIG"@, torrc_relay_values(env, nickname, data_dir, public_ip)) == v@),
        env.additional_dir_authority matches Some(v) ==> (lacks(v@, '$') ==> substitute("$APP_ELTOR_TOR_RELAY_ADDITIONAL_DIR_AUTHORITY"@, torrc_relay_values(env, nickname, data_dir, public_ip)) == v@),
{
    reveal_strlit("$APP_ELTOR_TOR_RELAY_NICKNAME");
    reveal_strlit("$APP_ELTOR_TOR_RELAY_DATA_DIRECTORY");
    reveal_strlit("$APP_ELTOR_TOR_RELAY_OR_PORT");
    reveal_strlit("$APP_ELTOR_TOR_RELAY_CONTROL_PORT");
    reveal_strlit("$APP_ELTOR_TOR_RELAY_SOCKS_PORT");
    reveal_strlit("$APP_ELTOR_TOR_RELAY_HASHED_CONTROL_PASSWORD");
    reveal_strlit("$APP_ELTOR_TOR_RELAY_ADDRESS");
    reveal_strlit("$APP_ELTOR_TOR_RELAY_CONTACT");
    reveal_strlit("$APP_ELTOR_TOR_RELAY_SANDBOX");
    reveal_strlit("$APP_ELTOR_TOR_EXIT_RELAY");
    reveal_strlit("$APP_ELTOR_TOR_RELAY_PAYMENT_RATE_MSATS");
    reveal_strlit("$APP_ELTOR_TOR_RELAY_PAYMENT_INTERVAL_ROUNDS");
    reveal_strlit("$APP_ELTOR_TOR_RELAY_PAYMENT_INTERVAL");
    reveal_strlit("$APP_ELTOR_TOR_RELAY_PAYMENT_CIRCUIT_MAX_FEE");
    reveal_strlit("$APP_ELTOR_LN_BOLT12");
    reveal_strlit("$APP_ELTOR_LN_CONFIG");
    reveal_strlit("$APP_ELTOR_TOR_RELAY_ADDITIONAL_DIR_AUTHORITY");
    let t = torrc_relay_values(env, nickname, data_dir, public_ip);
    assert forall|j: int| 0 <= j < t.len() implies (#[trigger] t[j]).0.len() > 0 && t[j].0[0] == '$' by {}
    assert forall|x: int| 0 <= x < t.len() implies placeholder_shaped(#[trigger] t[x].0) by {}
    assert forall|j: int, x: int| 0 <= j < x < t.len() implies !(#[trigger] t[j]).0.is_prefix_of((#[trigger] t[x]).0) by {
        lemma_parts_from(t[j].0, t[x].0);
    }
    if env.nickname is Some && lacks(t[0].1, '$') {
        lemma_substitute_placeholder(t, 0);
    }
    if env.data_directory is Some && lacks(t[1].1, '$') {
        lemma_substitute_placeholder(t, 1);
    }
    if env.or_port is Some && lacks(t[2].1, '$') {
        lemma_substitute_placeholder(t, 2);
    }
    if env.control_port is Some && lacks(t[3].1, '$') {
        lemma_substitute_placeholder(t, 3);
    }
    if env.socks_port is Some && lacks(t[4].1, '$') {
        lemma_substitute_placeholder(t, 4);
    }
    if env.hashed_control_password is Some && lacks(t[5].1, '$') {
        lemma_substitute_placeholder(t, 5);
    }
    if env.address is Some && lacks(t[6].1, '$') {
        lemma_substitute_placeholder(t, 6);
    }
    if env.contact is Some && lacks(t[7].1, '$') {
        lemma_substitute_placeholder(t, 7);
    }
    if env.sandbox is Some && lacks(t[8].1, '$') {
        lemma_substitute_placeholder(t, 8);
    }
    if env.exit_relay is Some && lacks(t[9].1, '$') {
        lemma_substitute_placeholder(t, 9);
    }
    if env.payment_rate_msats is Some && lacks(t[10].1, '$') {
        lemma_substitute_placeholder(t, 10);
    }
    if env.payment_interval_rounds is Some && lacks(t[11].1, '$') {
        lemma_substitute_placeholder(t, 11);
    }
    if env.payment_interval is Some && lacks(t[12].1, '$') {
        lemma_substitute_placeholder(t, 12);
    }
    if env.payment_circuit_max_fee is Some && lacks(t[13].1, '$') {
        lemma_substitute_placeholder(t, 13);
    }
    if env.ln_bolt12 is Some && lacks(t[14].1, '$') {
        lemma_substitute_placeholder(t, 14);
    }
    if env.ln_config is Some && lacks(t[15].1, '$') {
        lemma_substitute_placeholder(t, 15);
    }
    if env.additional_dir_authority is Some && lacks(t[16].1, '$') {
        lemma_substitute_placeholder(t, 16);
    }
}

/// Law: each placeholder of the client template is filled in from its own environment
/// variable. A template that is one placeholder becomes the value of that placeholder's
/// variable when it is set (and holds no `$`, which would read as a placeholder).
pub proof fn law_client_placeholders_take_their_own_values(env: TorrcEnv, nickname: Seq<char>, data_dir: Seq<char>)
    ensures
        env.nickname matches Some(v) ==> (lacks(v@, '$') ==> substitute("$APP_ELTOR_TOR_NICKNAME"@, torrc_values(env, nickname, data_dir)) == v@),
        env.data_directory matches Some(v) ==> (lacks(v@, '$') ==> substitute("$APP_ELTOR_TOR_DATA_DIRECTORY"@, torrc_values(env, nickname, data_dir)) == v@),
        env.socks_port matches Some(v) ==> (lacks(v@, '$') ==> substitute("$APP_ELTOR_TOR_SOCKS_PORT"@, torrc_values(env, nickname, data_dir)) == v@),
        env.control_port matches Some(v) ==> (lacks(v@, '$') ==> substitute("$APP_ELTOR_TOR_CONTROL_PORT"@, torrc_values(env, nickname, data_dir)) == v@),
        env.hashed_control_password matches Some(v) ==> (lacks(v@, '$') ==> substitute("$APP_ELTOR_TOR_HASHED_CONTROL_PASSWORD"@, torrc_values(env, nickname, data_dir)) == v@),
        env.client_address matches Some(v) ==> (lacks(v@, '$') ==> substitute("$APP_ELTOR_TOR_CLIENT_ADDRESS"@, torrc_values(env, nickname, data_dir)) == v@),
        env.payment_circuit_max_fee matches Some(v) ==> (lacks(v@, '$') ==> substitute("$APP_ELTOR_TOR_PAYMENT_CIRCUIT_MAX_FEE"@, torrc_values(env, nickname, data_dir)) == v@),
        env.ln_config matches Some(v) ==> (lacks(v@, '$') ==> substitute("$APP_ELTOR_LN_CONFIG"@, torrc_values(env, nickname, data_dir)) == v@),
        env.additional_dir_authority matches Some(v) ==> (lacks(v@, '$') ==> substitute("$APP_ELTOR_TOR_ADDITIONAL_DIR_AUTHORITY"@, torrc_values(env, nickname, data_dir)) == v@),
{
    reveal_strlit("$APP_ELTOR_TOR_NICKNAME");
    reveal_strlit("$APP_ELTOR_TOR_DATA_DIRECTORY");
    reveal_strlit("$APP_ELTOR_TOR_SOCKS_PORT");
    reveal_strlit("$APP_ELTOR_TOR_CONTROL_PORT");
    reveal_strlit("$APP_ELTOR_TOR_HASHED_CONTROL_PASSWORD");
    reveal_strlit("$APP_ELTOR_TOR_CLIENT_ADDRESS");
    reveal_strlit("$APP_ELTOR_TOR_PAYMENT_CIRCUIT_MAX_FEE");
    reveal_strlit("$APP_ELTOR_LN_CONFIG");
    reveal_strlit("$APP_ELTOR_TOR_ADDITIONAL_DIR_AUTHORITY");
    let t = torrc_values(env, nickname, data_dir);
    assert forall|j: int| 0 <= j < t.len() implies (#[trigger] t[j]).0.len() > 0 && t[j].0[0] == '$' by {}
    assert forall|x: int| 0 <= x < t.len() implies placeholder_shaped(#[trigger] t[x].0) by {}
    assert forall|j: int, x: int| 0 <= j < x < t.len() implies !(#[trigger] t[j]).0.is_prefix_of((#[trigger] t[x]).0) by {
        lemma_parts_from(t[j].0, t[x].0);
    }
    if env.nickname is Some && lacks(t[0].1, '$') {
        lemma_substitute_placeholder(t, 0);
    }
    if env.data_directory is Some && lacks(t[1].1, '$') {
        lemma_substitute_placeholder(t, 1);
    }
    if env.socks_port is Some && lacks(t[2].1, '$') {
        lemma_substitute_placeholder(t, 2);
    }
    if env.control_port is Some && lacks(t[3].1, '$') {
        lemma_substitute_placeholder(t, 3);
    }
    if env.hashed_control_password is Some && lacks(t[4].1, '$') {
        lemma_substitute_placeholder(t, 4);
    }
    if env.client_address is Some && lacks(t[5].1, '$') {
        lemma_substitute_placeholder(t, 5);
    }
    if env.payment_circuit_max_fee is Some && lacks(t[6].1, '$') {
        lemma_substitute_placeholder(t, 6);
    }
    if env.ln_config is Some && lacks(t[7].1, '$') {
        lemma_substitute_placeholder(t, 7);
    }
    if env.additional_dir_authority is Some && lacks(t[8].1, '$') {
        lemma_substitute_placeholder(t, 8);
    }
}

/// Law: a placeholder of the relay template whose variable is unset is filled in with that
/// variable's own default: the given nickname, data directory or public address for
/// those three, and the documented fixed value for each of the others.
pub proof fn law_relay_placeholders_default_to_their_own_values(
    env: TorrcRelayEnv,
    nickname: Seq<char>,
    data_dir: Seq<char>,
    public_ip: Seq<char>,
)
    ensures
        env.nickname is None ==> (lacks(nickname, '$') ==> substitute("$APP_ELTOR_TOR_RELAY_NICKNAME"@, torrc_relay_values(env, nickname, data_dir, public_ip)) == nickname),
        env.data_directory is None ==> (lacks(data_dir, '$') ==> substitute("$APP_ELTOR_TOR_RELAY_DATA_DIRECTORY"@, torrc_relay_values(env, nickname, data_dir, public_ip)) == data_dir),
        env.or_port is None ==> substitute("$APP_ELTOR_TOR_RELAY_OR_PORT"@, torrc_relay_values(env, nickname, data_dir, public_ip)) == "9996"@,
        env.control_port is None ==> substitute("$APP_ELTOR_TOR_RELAY_CONTROL_PORT"@, torrc_relay_values(env, nickname, data_dir, public_ip)) == "7781"@,
        env.socks_port is None ==> substitute("$APP_ELTOR_TOR_RELAY_SOCKS_PORT"@, torrc_relay_values(env, nickname, data_dir, public_ip)) == "0.0.0.0:18057"@,
        env.hashed_control_password is None ==> substitute("$APP_ELTOR_TOR_RELAY_HASHED_CONTROL_PASSWORD"@, torrc_relay_values(env, nickname, data_dir, public_ip)) == "16:281EC5644A4F548A60D50A0DD4DF835FFD50EDED062FD270D7269943DA"@,
        env.address is None ==> (lacks(public_ip, '$') ==> substitute("$APP_ELTOR_TOR_RELAY_ADDRESS"@, torrc_relay_values(env, nickname, data_dir, public_ip)) == public_ip),
        env.contact is None ==> substitute("$APP_ELTOR_TOR_RELAY_CONTACT"@, torrc_relay_values(env, nickname, data_dir, public_ip)) == "eltor@example.com"@,
        env.sandbox is None ==> substitute("$APP_ELTOR_TOR_RELAY_SANDBOX"@, torrc_relay_values(env, nickname, data_dir, public_ip)) == "1"@,
        env.exit_relay is None ==> substitute("$APP_ELTOR_TOR_EXIT_RELAY"@, torrc_relay_values(env, nickname, data_dir, public_ip)) == "0"@,
        env.payment_rate_msats is None ==> substitute("$APP_ELTOR_TOR_RELAY_PAYMENT_RATE_MSATS"@, torrc_relay_values(env, nickname, data_dir, public_ip)) == "1000"@,
        env.payment_interval_rounds is None ==> substitute("$APP_ELTOR_TOR_RELAY_PAYMENT_INTERVAL_ROUNDS"@, torrc_relay_values(env, nickname, data_dir, public_ip)) == "10"@,
        env.payment_interval is None ==> substitute("$APP_ELTOR_TOR_RELAY_PAYMENT_INTERVAL"@, torrc_relay_values(env, nickname, data_dir, public_ip)) == "300"@,
        env.payment_circuit_max_fee is None ==> substitute("$APP_ELTOR_TOR_RELAY_PAYMENT_CIRCUIT_MAX_FEE"@, torrc_relay_values(env, nickname, data_dir, public_ip)) == "1000"@,
        env.ln_bolt12 is None ==> substitute("$APP_ELTOR_LN_BOLT12"@, torrc_relay_values(env, nickname, data_dir, public_ip)) == ""@,
        env.ln_config is None ==> substitute("$APP_ELTOR_LN_CONFIG"@, torrc_relay_values(env, nickname, data_dir, public_ip)) == "type=phoenixd url=http://localhost:9740 password=password default=true"@,
        env.additional_dir_authority is None ==> substitute("$APP_ELTOR_TOR_RELAY_ADDITIONAL_DIR_AUTHORITY"@, torrc_relay_values(env, nickname, data_dir, public_ip)) == ""@,
{
    reveal_strlit("$APP_ELTOR_TOR_RELAY_NICKNAME");
    reveal_strlit("$APP_ELTOR_TOR_RELAY_DATA_DIRECTORY");
    reveal_strlit("$APP_ELTOR_TOR_RELAY_OR_PORT");
    reveal_strlit("$APP_ELTOR_TOR_RELAY_CONTROL_PORT");
    reveal_strlit("$APP_ELTOR_TOR_RELAY_SOCKS_PORT");
    reveal_strlit("$APP_ELTOR_TOR_RELAY_HASHED_CONTROL_PASSWORD");
    reveal_strlit("$APP_ELTOR_TOR_RELAY_ADDRESS");
    reveal_strlit("$APP_ELTOR_TOR_RELAY_CONTACT");
    reveal_strlit("$APP_ELTOR_TOR_RELAY_SANDBOX");
    reveal_strlit("$APP_ELTOR_TOR_EXIT_RELAY");
    reveal_strlit("$APP_ELTOR_TOR_RELAY_PAYMENT_RATE_MSATS");
    reveal_strlit("$APP_ELTOR_TOR_RELAY_PAYMENT_INTERVAL_ROUNDS");
    reveal_strlit("$APP_ELTOR_TOR_RELAY_PAYMENT_INTERVAL");
    reveal_strlit("$APP_ELTOR_TOR_RELAY_PAYMENT_CIRCUIT_MAX_FEE");
    reveal_strlit("$APP_ELTOR_LN_BOLT12");
    reveal_strlit("$APP_ELTOR_LN_CONFIG");
    reveal_strlit("$APP_ELTOR_TOR_RELAY_ADDITIONAL_DIR_AUTHORITY");
    reveal_strlit("0");
    reveal_strlit("0.0.0.0:18057");
    reveal_strlit("1");
    reveal_strlit("10");
    reveal_strlit("1000");
    reveal_strlit("16:281EC5644A4F548A60D50A0DD4DF835FFD50EDED062FD270D7269943DA");
    reveal_strlit("300");
    reveal_strlit("7781");
    reveal_strlit("9996");
    reveal_strlit("eltor@example.com");
    reveal_strlit("type=phoenixd url=http://localhost:9740 password=password default=true");
    reveal_strlit("");
    let t = torrc_relay_values(env, nickname, data_dir, public_ip);
    assert forall|j: int| 0 <= j < t.len() implies (#[trigger] t[j]).0.len() > 0 && t[j].0[0] == '$' by {}
    assert forall|x: int| 0 <= x < t.len() implies placeholder_shaped(#[trigger] t[x].0) by {}
    assert forall|j: int, x: int| 0 <= j < x < t.len() implies !(#[trigger] t[j]).0.is_prefix_of((#[trigger] t[x]).0) by {
        lemma_parts_from(t[j].0, t[x].0);
    }
    if env.nickname is None && lacks(t[0].1, '$') {
        lemma_substitute_placeholder(t, 0);
    }
    if env.data_directory is None && lacks(t[1].1, '$') {
        lemma_substitute_placeholder(t, 1);
    }
    if env.or_port is None && lacks(t[2].1, '$') {
        lemma_substitute_placeholder(t, 2);
    }
    if env.control_port is None && lacks(t[3].1, '$') {
        lemma_substitute_placeholder(t, 3);
    }
    if env.socks_port is None && lacks(t[4].1, '$') {
        lemma_substitute_placeholder(t, 4);
    }
    if env.hashed_control_password is None && lacks(t[5].1, '$') {
        lemma_substitute_placeholder(t, 5);
    }
    if env.address is None && lacks(t[6].1, '$') {
        lemma_substitute_placeholder(t, 6);
    }
    if env.contact is None && lacks(t[7].1, '$') {
        lemma_substitute_placeholder(t, 7);
    }
    if env.sandbox is None && lacks(t[8].1, '$') {
        lemma_substitute_placeholder(t, 8);
    }
    if env.exit_relay is None && lacks(t[9].1, '$') {
        lemma_substitute_placeholder(t, 9);
    }
    if env.payment_rate_msats is None && lacks(t[10].1, '$') {
        lemma_substitute_placeholder(t, 10);
    }
    if env.payment_interval_rounds is None && lacks(t[11].1, '$') {
        lemma_substitute_placeholder(t, 11);
    }
    if env.payment_interval is None && lacks(t[12].1, '$') {
        lemma_substitute_placeholder(t, 12);
    }
    if env.payment_circuit_max_fee is None && lacks(t[13].1, '$') {
        lemma_substitute_placeholder(t, 13);
    }
    if env.ln_bolt12 is None && lacks(t[14].1, '$') {
        lemma_substitute_placeholder(t, 14);
    }
    if env.ln_config is None && lacks(t[15].1, '$') {
        lemma_substitute_placeholder(t, 15);
    }
    if env.additional_dir_authority is None && lacks(t[16].1, '$') {
        lemma_substitute_placeholder(t, 16);
    }
}

/// Law: a placeholder of the client template whose variable is unset is filled in with
/// that variable's own default: the given nickname or data directory for those two, and
/// the documented fixed value for each of the others.
pub proof fn law_client_placeholders_default_to_their_own_values(env: TorrcEnv, nickname: Seq<char>, data_dir: Seq<char>)
    ensures
        env.nickname is None ==> (lacks(nickname, '$') ==> substitute("$APP_ELTOR_TOR_NICKNAME"@, torrc_values(env, nickname, data_dir)) == nickname),
        env.data_directory is None ==> (lacks(data_dir, '$') ==> substitute("$APP_ELTOR_TOR_DATA_DIRECTORY"@, torrc_values(env, nickname, data_dir)) == data_dir),
        env.socks_port is None ==> substitute("$APP_ELTOR_TOR_SOCKS_PORT"@, torrc_values(env, nickname, data_dir)) == "0.0.0.0:18058"@,
        env.control_port is None ==> substitute("$APP_ELTOR_TOR_CONTROL_PORT"@, torrc_values(env, nickname, data_dir)) == "9992"@,
        env.hashed_control_password is None ==> substitute("$APP_ELTOR_TOR_HASHED_CONTROL_PASSWORD"@, torrc_values(env, nickname, data_dir)) == "16:281EC5644A4F548A60D50A0DD4DF835FFD50EDED062FD270D7269943DA"@,
        env.client_address is None ==> substitute("$APP_ELTOR_TOR_CLIENT_ADDRESS"@, torrc_values(env, nickname, data_dir)) == "127.0.0.1"@,
        env.payment_circuit_max_fee is None ==> substitute("$APP_ELTOR_TOR_PAYMENT_CIRCUIT_MAX_FEE"@, torrc_values(env, nickname, data_dir)) == "1000"@,
        env.ln_config is None ==> substitute("$APP_ELTOR_LN_CONFIG"@, torrc_values(env, nickname, data_dir)) == ""@,
        env.additional_dir_authority is None ==> substitute("$APP_ELTOR_TOR_ADDITIONAL_DIR_AUTHORITY"@, torrc_values(env, nickname, data_dir)) == ""@,
{
    reveal_strlit("$APP_ELTOR_TOR_NICKNAME");
    reveal_strlit("$APP_ELTOR_TOR_DATA_DIRECTORY");
    reveal_strlit("$APP_ELTOR_TOR_SOCKS_PORT");
    reveal_strlit("$APP_ELTOR_TOR_CONTROL_PORT");
    reveal_strlit("$APP_ELTOR_TOR_HASHED_CONTROL_PASSWORD");
    reveal_strlit("$APP_ELTOR_TOR_CLIENT_ADDRESS");
    reveal_strlit("$APP_ELTOR_TOR_PAYMENT_CIRCUIT_MAX_FEE");
    reveal_strlit("$APP_ELTOR_LN_CONFIG");
    reveal_strlit("$APP_ELTOR_TOR_ADDITIONAL_DIR_AUTHORITY");
    reveal_strlit("");
    reveal_strlit("0.0.0.0:18058");
    reveal_strlit("1000");
    reveal_strlit("127.0.0.1");
    reveal_strlit("16:281EC5644A4F548A60D50A0DD4DF835FFD50EDED062FD270D7269943DA");
    reveal_strlit("9992");
    let t = torrc_values(env, nickname, data_dir);
    assert forall|j: int| 0 <= j < t.len() implies (#[trigger] t[j]).0.len() > 0 && t[j].0[0] == '$' by {}
    assert forall|x: int| 0 <= x < t.len() implies placeholder_shaped(#[trigger] t[x].0) by {}
    assert forall|j: int, x: int| 0 <= j < x < t.len() implies !(#[trigger] t[j]).0.is_prefix_of((#[trigger] t[x]).0) by {
        lemma_parts_from(t[j].0, t[x].0);
    }
    if env.nickname is None && lacks(t[0].1, '$') {
        lemma_substitute_placeholder(t, 0);
    }
    if env.data_directory is None && lacks(t[1].1, '$') {
        lemma_substitute_placeholder(t, 1);
    }
    if env.socks_port is None && lacks(t[2].1, '$') {
        lemma_substitute_placeholder(t, 2);
    }
    if env.control_port is None && lacks(t[3].1, '$') {
        lemma_substitute_placeholder(t, 3);
    }
    if env.hashed_control_password is None && lacks(t[4].1, '$') {
        lemma_substitute_placeholder(t, 4);
    }
    if env.client_address is None && lacks(t[5].1, '$') {
        lemma_substitute_placeholder(t, 5);
    }
    if env.payment_circuit_max_fee is None && lacks(t[6].1, '$') {
        lemma_substitute_placeholder(t, 6);
    }
    if env.ln_config is None && lacks(t[7].1, '$') {
        lemma_substitute_placeholder(t, 7);
    }
    if env.additional_dir_authority is None && lacks(t[8].1, '$') {
        lemma_substitute_placeholder(t, 8);
    }
}
} // verus!
