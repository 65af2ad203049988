//! Serving the web front end: which file a request names, its content type, and the
//! configuration script put into `index.html`.

use vstd::prelude::*;
use crate::routes::phoenix::path_file_name;
use crate::text::{
    append, chars_of, contains, contains_chars, eq_str, find_chars, has_prefix, last_index_of, occurs_at, owned,
    replace_all, replace_chars, string_of, strip_all_prefix, trim_start_matches,
};
use crate::torrc_parser::opt_view;

verus! {

/// The extension of a file name as `Path::extension` takes it: what follows the last
/// `.`, unless the name has no `.`, starts with its only `.`, or is `..`.
pub open spec fn extension_of(name: Seq<char>) -> Option<Seq<char>> {
    if name == ".."@ {
        None
    } else {
        match last_index_of(name, '.') {
            None => None,
            Some(k) => if k == 0 {
                None
            } else {
                Some(name.skip(k + 1))
            },
        }
    }
}

/// The content type served for an extension.
pub open spec fn content_type_of(ext: Option<Seq<char>>) -> Seq<char> {
    match ext {
        None => "application/octet-stream"@,
        Some(e) => if e == "html"@ {
            "text/html"@
        } else if e == "css"@ {
            "text/css"@
        } else if e == "js"@ {
            "application/javascript"@
        } else if e == "json"@ {
            "application/json"@
        } else if e == "png"@ {
            "image/png"@
        } else if e == "jpg"@ || e == "jpeg"@ {
            "image/jpeg"@
        } else if e == "gif"@ {
            "image/gif"@
        } else if e == "svg"@ {
            "image/svg+xml"@
        } else if e == "ico"@ {
            "image/x-icon"@
        } else if e == "woff"@ {
            "font/woff"@
        } else if e == "woff2"@ {
            "font/woff2"@
        } else if e == "ttf"@ {
            "font/ttf"@
        } else if e == "eot"@ {
            "application/vnd.ms-fontobject"@
        } else {
            "application/octet-stream"@
        },
    }
}

/// The content type served for a file path: by the extension of its file name.
pub open spec fn content_type_spec(path: Seq<char>) -> Seq<char> {
    content_type_of(
        match path_file_name(path) {
            Some(n) => extension_of(n),
            None => None,
        },
    )
}

/// The extension of a file name.
fn extension(name: &str) -> (r: Option<String>)
    ensures
        opt_view(r) == extension_of(name@),
{
    if eq_str(name, "..") {
        return None;
    }
    let cs = chars_of(name);
    let mut i: usize = cs.len();
    assert(cs@.take(cs.len() as int) =~= cs@);
    while i > 0
        invariant
            i <= cs.len(),
            cs@ == name@,
            last_index_of(cs@, '.') == last_index_of(cs@.take(i as int), '.'),
        ensures
            i <= cs.len(),
            last_index_of(cs@, '.') == last_index_of(cs@.take(i as int), '.'),
            i > 0 ==> cs@[i - 1] == '.',
        decreases i,
    {
        assert(cs@.take(i as int).drop_last() =~= cs@.take(i - 1));
        if cs[i - 1] == '.' {
            break;
        }
        i = i - 1;
    }
    if i == 0 {
        assert(cs@.take(0) =~= Seq::<char>::empty());
        return None;
    }
    assert(cs@.take(i as int).last() == '.');
    if i == 1 {
        return None;
    }
    let rest = crate::text::copy_range(cs.as_slice(), i, cs.len());
    assert(rest@ =~= cs@.skip(i as int));
    Some(string_of(rest.as_slice()))
}

/// The content type served for a file path.
pub fn get_content_type(file_path: &str) -> (r: &'static str)
    ensures
        r@ == content_type_spec(file_path@),
{
    let ext = match crate::routes::phoenix::file_name(file_path) {
        Some(n) => extension(n.as_str()),
        None => None,
    };
    match ext {
        None => "application/octet-stream",
        Some(e) => {
            let e = e.as_str();
            if eq_str(e, "html") {
                "text/html"
            } else if eq_str(e, "css") {
                "text/css"
            } else if eq_str(e, "js") {
                "application/javascript"
            } else if eq_str(e, "json") {
                "application/json"
            } else if eq_str(e, "png") {
                "image/png"
            } else if eq_str(e, "jpg") || eq_str(e, "jpeg") {
                "image/jpeg"
            } else if eq_str(e, "gif") {
                "image/gif"
            } else if eq_str(e, "svg") {
                "image/svg+xml"
            } else if eq_str(e, "ico") {
                "image/x-icon"
            } else if eq_str(e, "woff") {
                "font/woff"
            } else if eq_str(e, "woff2") {
                "font/woff2"
            } else if eq_str(e, "ttf") {
                "font/ttf"
            } else if eq_str(e, "eot") {
                "application/vnd.ms-fontobject"
            } else {
                "application/octet-stream"
            }
        },
    }
}

/// What a request path asks for.
#[derive(Debug, Clone)]
pub enum StaticTarget {
    /// `index.html`, with the configuration script put in.
    Index,
    /// A file of the built front end, at this path.
    File(String),
}

/// The request path without its leading slashes.
pub open spec fn request_file(uri_path: Seq<char>) -> Seq<char> {
    strip_all_prefix(uri_path, seq!['/'])
}

/// Where the built front end lies, from the backend directory or from the repository
/// root.
pub open spec fn dist_dir(in_backend: bool) -> Seq<char> {
    if in_backend {
        "../frontend/dist/"@
    } else {
        "frontend/dist/"@
    }
}

/// What a request path asks for: the index for the root or `index.html`, else that file
/// of the built front end.
pub fn static_target(uri_path: &str, in_backend_dir: bool) -> (r: StaticTarget)
    ensures
        (request_file(uri_path@).len() == 0 || request_file(uri_path@) == "index.html"@) ==> r is Index,
        !(request_file(uri_path@).len() == 0 || request_file(uri_path@) == "index.html"@) ==> (r matches StaticTarget::File(
            p,
        ) && p@ == dist_dir(in_backend_dir) + request_file(uri_path@)),
{
    let cs = chars_of(uri_path);
    let slash = vec!['/'];
    assert(slash@ =~= seq!['/']);
    let path = trim_start_matches(cs.as_slice(), slash.as_slice());
    let ps = string_of(path.as_slice());
    if path.len() == 0 || eq_str(ps.as_str(), "index.html") {
        return StaticTarget::Index;
    }
    let mut out = if in_backend_dir {
        owned("../frontend/dist/")
    } else {
        owned("frontend/dist/")
    };
    append(&mut out, ps.as_str());
    StaticTarget::File(out)
}

/// Where `index.html` lies.
pub fn index_path(in_backend_dir: bool) -> (r: &'static str)
    ensures
        r@ == dist_dir(in_backend_dir) + "index.html"@,
{
    proof {
        reveal_strlit("../frontend/dist/index.html");
        reveal_strlit("../frontend/dist/");
        reveal_strlit("frontend/dist/index.html");
        reveal_strlit("frontend/dist/");
        reveal_strlit("index.html");
        assert("../frontend/dist/index.html"@ =~= "../frontend/dist/"@ + "index.html"@);
        assert("frontend/dist/index.html"@ =~= "frontend/dist/"@ + "index.html"@);
    }
    if in_backend_dir {
        "../frontend/dist/index.html"
    } else {
        "frontend/dist/index.html"
    }
}

/// The backend's port: `BACKEND_PORT`, else `PORT`, else 5174.
pub open spec fn backend_port_spec(backend_port: Option<Seq<char>>, port: Option<Seq<char>>) -> Seq<char> {
    match backend_port {
        Some(p) => p,
        None => match port {
            Some(p) => p,
            None => "5174"@,
        },
    }
}

/// The backend's address: a non-empty `BACKEND_URL`, else localhost over HTTP on the
/// port (the port left out for 80, and HTTPS without a port for 443).
pub open spec fn backend_url_spec(url: Option<Seq<char>>, port: Seq<char>) -> Seq<char> {
    match url {
        Some(u) if u.len() > 0 => u,
        _ => if port == "80"@ {
            "http://localhost"@
        } else if port == "443"@ {
            "https://localhost"@
        } else {
            "http://localhost:"@ + port
        },
    }
}

/// The API's base address: the backend's address, with `:port` added unless it is a full
/// URL that already holds `:port` or uses the scheme's standard port.
pub open spec fn api_base_spec(url: Seq<char>, port: Seq<char>) -> Seq<char> {
    if contains(url, "://"@) {
        if contains(url, seq![':'] + port) {
            url
        } else if ("https://"@.is_prefix_of(url) && port == "443"@) || ("http://"@.is_prefix_of(url) && port == "80"@) {
            url
        } else {
            url + seq![':'] + port
        }
    } else {
        url + seq![':'] + port
    }
}

/// The front end's configuration: backend port, backend address, API base address.
#[derive(Debug, Clone)]
pub struct EnvConfig {
    pub backend_port: String,
    pub backend_url: String,
    pub api_base_url: String,
}

/// The front end's configuration, given `BACKEND_PORT`, `PORT` and `BACKEND_URL`.
pub fn env_config(backend_port_var: &Option<String>, port_var: &Option<String>, backend_url_var: &Option<String>) -> (r:
    EnvConfig)
    ensures
        r.backend_port@ == backend_port_spec(opt_view(*backend_port_var), opt_view(*port_var)),
        r.backend_url@ == backend_url_spec(opt_view(*backend_url_var), r.backend_port@),
        r.api_base_url@ == api_base_spec(r.backend_url@, r.backend_port@),
{
    let port = match backend_port_var {
        Some(p) => p.clone(),
        None => match port_var {
            Some(p) => p.clone(),
            None => owned("5174"),
        },
    };
    let url = match backend_url_var {
        Some(u) if chars_of(u.as_str()).len() > 0 => u.clone(),
        _ => if eq_str(port.as_str(), "80") {
            owned("http://localhost")
        } else if eq_str(port.as_str(), "443") {
            owned("https://localhost")
        } else {
            let mut s = owned("http://localhost:");
            append(&mut s, port.as_str());
            s
        },
    };
    let uc = chars_of(url.as_str());
    let mut colon_port = vec![':'];
    assert(colon_port@ =~= seq![':']);
    crate::text::push_all(&mut colon_port, chars_of(port.as_str()).as_slice());
    assert(colon_port@ =~= seq![':'] + port@);
    let api = if contains_chars(uc.as_slice(), chars_of("://").as_slice()) {
        if contains_chars(uc.as_slice(), colon_port.as_slice()) {
            url.clone()
        } else if (has_prefix(uc.as_slice(), chars_of("https://").as_slice()) && eq_str(port.as_str(), "443")) || (
        has_prefix(uc.as_slice(), chars_of("http://").as_slice()) && eq_str(port.as_str(), "80")) {
            url.clone()
        } else {
            let mut s = url.clone();
            s.push(':');
            append(&mut s, port.as_str());
            assert(s@ =~= url@ + seq![':'] + port@);
            s
        }
    } else {
        let mut s = url.clone();
        s.push(':');
        append(&mut s, port.as_str());
        assert(s@ =~= url@ + seq![':'] + port@);
        s
    };
    EnvConfig { backend_port: port, backend_url: url, api_base_url: api }
}

/// How serde_json escapes one character inside a JSON string.
pub open spec fn json_escape_char(c: char) -> Seq<char> {
    if c == '"' {
        seq!['\\', '"']
    } else if c == '\\' {
        seq!['\\', '\\']
    } else if c == '\u{8}' {
        seq!['\\', 'b']
    } else if c == '\u{9}' {
        seq!['\\', 't']
    } else if c == '\u{a}' {
        seq!['\\', 'n']
    } else if c == '\u{c}' {
        seq!['\\', 'f']
    } else if c == '\u{d}' {
        seq!['\\', 'r']
    } else if (c as u32) < 0x20 {
        seq!['\\', 'u', '0', '0', hex_digit((c as u32 / 16) as int), hex_digit((c as u32 % 16) as int)]
    } else {
        seq![c]
    }
}

/// A lowercase hexadecimal digit.
pub open spec fn hex_digit(d: int) -> char {
    if d < 10 {
        ('0' as int + d) as char
    } else {
        ('a' as int + d - 10) as char
    }
}

/// The escaped characters of a JSON string's content.
pub open spec fn json_escape(s: Seq<char>) -> Seq<char>
    decreases s.len(),
{
    if s.len() == 0 {
        Seq::empty()
    } else {
        json_escape(s.drop_last()) + json_escape_char(s.last())
    }
}

/// `serde_json::to_string` on a string: the string between double quotes, with `"` and
/// `\` escaped by a backslash, the control characters with short escapes written so,
/// and the other characters below U+0020 as `\u00XX` in lowercase hexadecimal.
#[verifier::external_body]
fn json_string(s: &str) -> (r: String)
    ensures
        r@ == seq!['"'] + json_escape(s@) + seq!['"'],
{
    serde_json::to_string(s).unwrap_or_default()
}

/// The configuration as the JSON object `serde_json` writes for it: keys in sorted order,
/// no spaces.
pub open spec fn config_json(c: EnvConfig) -> Seq<char> {
    "{\"API_BASE_URL\":"@ + seq!['"'] + json_escape(c.api_base_url@) + seq!['"'] + ",\"BACKEND_PORT\":"@ + seq!['"']
        + json_escape(c.backend_port@) + seq!['"'] + ",\"BACKEND_URL\":"@ + seq!['"'] + json_escape(c.backend_url@)
        + seq!['"'] + "}"@
}

/// The script that hands the configuration to the front end.
pub open spec fn env_script_spec(c: EnvConfig) -> Seq<char> {
    "<script>window.__ENV_CONFIG__ = "@ + config_json(c) + ";</script>"@
}

/// The script that hands the configuration to the front end.
pub fn env_script(config: &EnvConfig) -> (r: String)
    ensures
        r@ == env_script_spec(*config),
{
    let mut s = owned("<script>window.__ENV_CONFIG__ = ");
    append(&mut s, "{\"API_BASE_URL\":");
    append(&mut s, json_string(config.api_base_url.as_str()).as_str());
    append(&mut s, ",\"BACKEND_PORT\":");
    append(&mut s, json_string(config.backend_port.as_str()).as_str());
    append(&mut s, ",\"BACKEND_URL\":");
    append(&mut s, json_string(config.backend_url.as_str()).as_str());
    append(&mut s, "}");
    append(&mut s, ";</script>");
    s
}

/// `index.html` with the script put in front of its first `<script` tag, or, when it has
/// none, in front of every `</head>`.
pub open spec fn inject_spec(html: Seq<char>, script: Seq<char>) -> Seq<char> {
    if contains(html, "<script"@) {
        let i = choose|i: int| occurs_at(html, "<script"@, i) && forall|j: int| 0 <= j < i ==> !occurs_at(html, "<script"@, j);
        html.take(i) + script + html.skip(i)
    } else {
        replace_all(html, "</head>"@, script + "</head>"@)
    }
}

/// Puts the configuration script into `index.html`.
pub fn inject_env_script(html: &str, script: &str) -> (r: String)
    ensures
        r@ == inject_spec(html@, script@),
{
    let hc = chars_of(html);
    let tag = chars_of("<script");
    let sc = chars_of(script);
    match find_chars(hc.as_slice(), tag.as_slice()) {
        Some(i) => {
            let mut out = crate::text::copy_range(hc.as_slice(), 0, i);
            crate::text::push_all(&mut out, sc.as_slice());
            let rest = crate::text::copy_range(hc.as_slice(), i, hc.len());
            crate::text::push_all(&mut out, rest.as_slice());
            assert(out@ =~= hc@.take(i as int) + sc@ + hc@.skip(i as int));
            string_of(out.as_slice())
        },
        None => {
            let head = chars_of("</head>");
            let mut to = sc.clone();
            crate::text::push_all(&mut to, head.as_slice());
            proof {
                reveal_strlit("</head>");
            }
            let out = replace_chars(hc.as_slice(), head.as_slice(), to.as_slice());
            string_of(out.as_slice())
        },
    }
}

} // verus!
