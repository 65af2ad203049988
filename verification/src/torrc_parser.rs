//! The torrc file: payment node configuration lines and the relay's key settings.

use vstd::prelude::*;
use crate::text::{
    contains, lemma_absent_longer, lemma_replace_absent, lemma_strip_prefix_occurs, lemma_tokens_occur, lemma_trim_occurs,
    occurs_at,
    ascii_upper, lemma_lower_upper_agree,
    last_index_of, parse_unsigned, parse_unsigned_chars, string_views,
    ascii_lower, chars_of, concat2, copy_range, eq_chars, eq_str, has_prefix, index_of_char, index_of_from,
    is_ws, join, join_with, lacks, lemma_index_of_from_bounds, lemma_lines_join,
    lemma_lines_lack_newline, lemma_replace_all_lacks, lemma_tokens_space_word, lemma_tokens_word,
    lemma_trim_end_prefix, lemma_trim_fixed, lemma_trim_strip_cr,
    lines, lines_of, no_ws, strip_cr, trim_end, trim_start, owned, push_all, replace_all,
    replace_chars, string_of, strip_all_prefix, to_ascii_lower, tokens, tokens_of, trim, trim_chars,
    trim_start_matches, views,
};

verus! {

/// A payment Lightning node configuration as read from a torrc line.
#[derive(Debug, Clone)]
pub struct LightningConfig {
    pub node_type: String,
    pub url: String,
    /// The credential: a password, a rune or a macaroon depending on the node type.
    pub password: String,
    pub is_default: bool,
}

/// What a `LightningConfig` holds.
pub struct LightningConfigView {
    pub node_type: Seq<char>,
    pub url: Seq<char>,
    pub password: Seq<char>,
    pub is_default: bool,
}

impl View for LightningConfig {
    type V = LightningConfigView;

    open spec fn view(&self) -> LightningConfigView {
        LightningConfigView {
            node_type: self.node_type@,
            url: self.url@,
            password: self.password@,
            is_default: self.is_default,
        }
    }
}

/// The change made to the payment node lines of a torrc file.
#[derive(Debug, Clone, Copy, PartialEq, Eq, Structural)]
pub enum Operation {
    Delete,
    Upsert,
}

/// The kind of Lightning node.
#[derive(Debug, Clone, Copy, PartialEq, Eq, Structural)]
pub enum NodeType {
    Cln,
    Lnd,
    Phoenixd,
}

/// The name of a node type as written in torrc.
pub open spec fn node_type_name(t: NodeType) -> Seq<char> {
    match t {
        NodeType::Cln => seq!['c', 'l', 'n'],
        NodeType::Lnd => seq!['l', 'n', 'd'],
        NodeType::Phoenixd => seq!['p', 'h', 'o', 'e', 'n', 'i', 'x', 'd'],
    }
}

/// The key under which a node type's credential is written.
pub open spec fn password_field_name(t: NodeType) -> Seq<char> {
    match t {
        NodeType::Cln => seq!['r', 'u', 'n', 'e'],
        NodeType::Lnd => seq!['m', 'a', 'c', 'a', 'r', 'o', 'o', 'n'],
        NodeType::Phoenixd => seq!['p', 'a', 's', 's', 'w', 'o', 'r', 'd'],
    }
}

/// The node type whose name is `s` in any letter case. (None of the names holds a letter
/// that a non-ASCII character lowercases to, so ASCII case folding decides as Unicode
/// lowercasing would.)
pub open spec fn node_type_of(s: Seq<char>) -> Option<NodeType> {
    let lower = ascii_lower(s);
    if lower == node_type_name(NodeType::Cln) {
        Some(NodeType::Cln)
    } else if lower == node_type_name(NodeType::Lnd) {
        Some(NodeType::Lnd)
    } else if lower == node_type_name(NodeType::Phoenixd) {
        Some(NodeType::Phoenixd)
    } else {
        None
    }
}

/// The node type named by the characters `s`, in any letter case.
pub fn node_type_of_chars(s: &[char]) -> (r: Option<NodeType>)
    ensures
        r == node_type_of(s@),
{
    let lower = to_ascii_lower(s);
    let cln = chars_of("cln");
    let lnd = chars_of("lnd");
    let phx = chars_of("phoenixd");
    proof {
        reveal_strlit("cln");
        reveal_strlit("lnd");
        reveal_strlit("phoenixd");
        assert(cln@ =~= node_type_name(NodeType::Cln));
        assert(lnd@ =~= node_type_name(NodeType::Lnd));
        assert(phx@ =~= node_type_name(NodeType::Phoenixd));
    }
    if eq_chars(lower.as_slice(), cln.as_slice()) {
        Some(NodeType::Cln)
    } else if eq_chars(lower.as_slice(), lnd.as_slice()) {
        Some(NodeType::Lnd)
    } else if eq_chars(lower.as_slice(), phx.as_slice()) {
        Some(NodeType::Phoenixd)
    } else {
        None
    }
}

impl NodeType {
    /// Parses a node type name in any letter case.
    pub fn from_str(s: &str) -> (r: Result<NodeType, String>)
        ensures
            node_type_of(s@) matches Some(t) ==> r == Ok::<NodeType, String>(t),
            node_type_of(s@) is None ==> (r matches Err(e) && e@ == "Unknown node type: "@ + s@),
    {
        let cs = chars_of(s);
        match node_type_of_chars(cs.as_slice()) {
            Some(t) => Ok(t),
            None => Err(concat2("Unknown node type: ", s)),
        }
    }

    /// The name of the node type.
    pub fn to_string(&self) -> (r: String)
        ensures
            r@ == node_type_name(*self),
    {
        proof {
            reveal_strlit("cln");
            reveal_strlit("lnd");
            reveal_strlit("phoenixd");
            assert("cln"@ =~= node_type_name(NodeType::Cln));
            assert("lnd"@ =~= node_type_name(NodeType::Lnd));
            assert("phoenixd"@ =~= node_type_name(NodeType::Phoenixd));
        }
        match self {
            NodeType::Cln => owned("cln"),
            NodeType::Lnd => owned("lnd"),
            NodeType::Phoenixd => owned("phoenixd"),
        }
    }

    /// The key of the credential field for this node type.
    pub fn password_field(&self) -> (r: &'static str)
        ensures
            r@ == password_field_name(*self),
    {
        proof {
            reveal_strlit("rune");
            reveal_strlit("macaroon");
            reveal_strlit("password");
            assert("rune"@ =~= password_field_name(NodeType::Cln));
            assert("macaroon"@ =~= password_field_name(NodeType::Lnd));
            assert("password"@ =~= password_field_name(NodeType::Phoenixd));
        }
        match self {
            NodeType::Cln => "rune",
            NodeType::Lnd => "macaroon",
            NodeType::Phoenixd => "password",
        }
    }
}

/// The view of an optional string.
pub open spec fn opt_view(o: Option<String>) -> Option<Seq<char>> {
    match o {
        Some(s) => Some(s@),
        None => None,
    }
}

/// The view of an optional character vector.
pub open spec fn opt_chars(o: Option<Vec<char>>) -> Option<Seq<char>> {
    match o {
        Some(s) => Some(s@),
        None => None,
    }
}

/// The first index at or after `i` of an element of `ts` that starts with `p`.
pub open spec fn first_from(ts: Seq<Seq<char>>, p: Seq<char>, i: int) -> Option<int>
    decreases ts.len() - i,
{
    if i < 0 || i >= ts.len() {
        None
    } else if p.is_prefix_of(ts[i]) {
        Some(i)
    } else {
        first_from(ts, p, i + 1)
    }
}

/// The part of a `key=value` word after its first `=`.
pub open spec fn after_eq(t: Seq<char>) -> Seq<char> {
    t.skip(index_of_from(t, '=', 0) + 1)
}

/// The value of `key` in a space-separated `key=value` list: the text after the first `=`
/// of the first word that begins with `key=`.
pub open spec fn config_value(s: Seq<char>, key: Seq<char>) -> Option<Seq<char>> {
    let ts = tokens(s);
    match first_from(ts, key.push('='), 0) {
        Some(i) => Some(after_eq(ts[i])),
        None => None,
    }
}

/// The value of `key` in the `key=value` list `cs`.
pub fn config_value_chars(cs: &[char], key: &[char]) -> (r: Option<Vec<char>>)
    ensures
        opt_chars(r) == config_value(cs@, key@),
{
    let ts = tokens_of(cs);
    let mut p: Vec<char> = Vec::new();
    push_all(&mut p, key);
    p.push('=');
    let ghost vts = views(ts@);
    let mut i: usize = 0;
    while i < ts.len()
        invariant
            i <= ts.len(),
            vts == views(ts@),
            vts == tokens(cs@),
            p@ == key@.push('='),
            first_from(vts, p@, 0) == first_from(vts, p@, i as int),
        decreases ts.len() - i,
    {
        let t = &ts[i];
        assert(vts[i as int] == t@);
        if has_prefix(t.as_slice(), p.as_slice()) {
            let e = index_of_char(t.as_slice(), '=', 0);
            proof {
                lemma_index_of_from_bounds(t@, '=', 0);
                assert(t@.subrange(0, p@.len() as int)[key@.len() as int] == p@[key@.len() as int]);
                assert(t@[key@.len() as int] == '=');
            }
            let v = copy_range(t.as_slice(), e + 1, t.len());
            assert(v@ =~= after_eq(t@));
            return Some(v);
        }
        i = i + 1;
    }
    None
}

/// Extracts the value of `key` from a config string such as
/// "type=phoenixd url=http://localhost".
pub fn get_config_value(config_str: &str, key: &str) -> (r: Option<String>)
    ensures
        opt_view(r) == config_value(config_str@, key@),
{
    let cs = chars_of(config_str);
    let k = chars_of(key);
    match config_value_chars(cs.as_slice(), k.as_slice()) {
        Some(v) => Some(string_of(v.as_slice())),
        None => None,
    }
}

/// `get_config_value` on owned arguments.
pub fn get_default_value(config_str: String, key: String) -> (r: Option<String>)
    ensures
        opt_view(r) == config_value(config_str@, key@),
{
    get_config_value(config_str.as_str(), key.as_str())
}

/// The credential of a config string: `password`, else `rune`, else `macaroon`.
pub open spec fn credential_value(s: Seq<char>) -> Option<Seq<char>> {
    match config_value(s, "password"@) {
        Some(p) => Some(p),
        None => match config_value(s, "rune"@) {
            Some(p) => Some(p),
            None => config_value(s, "macaroon"@),
        },
    }
}

/// Whether a config string is marked `default=true` (in any letter case).
pub open spec fn default_flag(s: Seq<char>) -> bool {
    match config_value(s, "default"@) {
        Some(d) => ascii_lower(d) == "true"@,
        None => false,
    }
}

/// What `parse_lightning_config_string` gives for a config string.
pub open spec fn parse_config(s: Seq<char>) -> Result<LightningConfigView, Seq<char>> {
    match config_value(s, "type"@) {
        None => Err("Node type not found in config"@),
        Some(t) => match config_value(s, "url"@) {
            None => Err("URL not found in config"@),
            Some(u) => match credential_value(s) {
                None => Err("No authentication method (password/rune/macaroon) found in config"@),
                Some(p) => Ok(
                    LightningConfigView { node_type: t, url: u, password: p, is_default: default_flag(s) },
                ),
            },
        },
    }
}

fn lit(s: &str) -> (r: Vec<char>)
    ensures
        r@ == s@,
{
    chars_of(s)
}

/// Parses a config string held as characters.
pub fn parse_config_chars(cs: &[char]) -> (r: Result<LightningConfig, String>)
    ensures
        r matches Ok(c) ==> parse_config(cs@) == Ok::<LightningConfigView, Seq<char>>(c@),
        r matches Err(e) ==> parse_config(cs@) == Err::<LightningConfigView, Seq<char>>(e@),
{
    let node_type = match config_value_chars(cs, lit("type").as_slice()) {
        Some(t) => string_of(t.as_slice()),
        None => {
            return Err(owned("Node type not found in config"));
        },
    };
    let url = match config_value_chars(cs, lit("url").as_slice()) {
        Some(u) => string_of(u.as_slice()),
        None => {
            return Err(owned("URL not found in config"));
        },
    };
    let password = match config_value_chars(cs, lit("password").as_slice()) {
        Some(p) => string_of(p.as_slice()),
        None => match config_value_chars(cs, lit("rune").as_slice()) {
            Some(p) => string_of(p.as_slice()),
            None => match config_value_chars(cs, lit("macaroon").as_slice()) {
                Some(p) => string_of(p.as_slice()),
                None => {
                    return Err(
                        owned("No authentication method (password/rune/macaroon) found in config"),
                    );
                },
            },
        },
    };
    let is_default = match config_value_chars(cs, lit("default").as_slice()) {
        Some(d) => {
            let l = to_ascii_lower(d.as_slice());
            eq_chars(l.as_slice(), lit("true").as_slice())
        },
        None => false,
    };
    Ok(LightningConfig { node_type, url, password, is_default })
}

/// Parses "type=... url=... password|rune|macaroon=... [default=true]".
pub fn parse_lightning_config_string(config_str: &str) -> (r: Result<LightningConfig, String>)
    ensures
        r matches Ok(c) ==> parse_config(config_str@) == Ok::<LightningConfigView, Seq<char>>(c@),
        r matches Err(e) ==> parse_config(config_str@) == Err::<LightningConfigView, Seq<char>>(e@),
{
    let cs = chars_of(config_str);
    parse_config_chars(cs.as_slice())
}

/// The keyword that opens a payment node line.
pub open spec fn plnc() -> Seq<char> {
    "PaymentLightningNodeConfig"@
}

/// The `key=value` list of a payment node line: the trimmed line without the keyword,
/// trimmed again.
pub open spec fn config_part(line: Seq<char>) -> Seq<char> {
    trim(strip_all_prefix(trim(line), plnc()))
}

/// Whether a line is an active (not commented) payment node line.
pub open spec fn is_config_line(line: Seq<char>) -> bool {
    let t = trim(line);
    !seq!['#'].is_prefix_of(t) && plnc().is_prefix_of(t)
}

/// The node type of an active payment node line whose type is known.
pub open spec fn line_type(line: Seq<char>) -> Option<NodeType> {
    if is_config_line(line) {
        match config_value(config_part(line), "type"@) {
            Some(t) => node_type_of(t),
            None => None,
        }
    } else {
        None
    }
}

/// Whether a line is one that an operation on `nt` (and `url`, when given) aims at.
pub open spec fn is_target(line: Seq<char>, nt: NodeType, url: Option<Seq<char>>) -> bool {
    line_type(line) == Some(nt) && (url matches Some(u) ==> config_value(config_part(line), "url"@)
        == Some(u))
}

/// Whether a line is a payment node line marked exactly `default=true`.
pub open spec fn is_default_line(line: Seq<char>) -> bool {
    line_type(line) is Some && config_value(config_part(line), "default"@) == Some("true"@)
}

/// The first target line.
pub open spec fn first_target(ls: Seq<Seq<char>>, nt: NodeType, url: Option<Seq<char>>) -> Option<int>
    decreases ls.len(),
{
    if ls.len() == 0 {
        None
    } else {
        match first_target(ls.drop_last(), nt, url) {
            Some(i) => Some(i),
            None => if is_target(ls.last(), nt, url) {
                Some(ls.len() - 1)
            } else {
                None
            },
        }
    }
}

/// The last target line.
pub open spec fn last_target(ls: Seq<Seq<char>>, nt: NodeType, url: Option<Seq<char>>) -> Option<int>
    decreases ls.len(),
{
    if ls.len() == 0 {
        None
    } else if is_target(ls.last(), nt, url) {
        Some(ls.len() - 1)
    } else {
        last_target(ls.drop_last(), nt, url)
    }
}

/// The last line marked as the default.
pub open spec fn last_default(ls: Seq<Seq<char>>) -> Option<int>
    decreases ls.len(),
{
    if ls.len() == 0 {
        None
    } else if is_default_line(ls.last()) {
        Some(ls.len() - 1)
    } else {
        last_default(ls.drop_last())
    }
}

proof fn lemma_selection_bounds(ls: Seq<Seq<char>>, nt: NodeType, url: Option<Seq<char>>)
    ensures
        first_target(ls, nt, url) matches Some(k) ==> 0 <= k < ls.len() && is_target(ls[k], nt, url),
        last_target(ls, nt, url) matches Some(k) ==> 0 <= k < ls.len() && is_target(ls[k], nt, url),
        last_default(ls) matches Some(k) ==> 0 <= k < ls.len() && is_default_line(ls[k]),
    decreases ls.len(),
{
    if ls.len() > 0 {
        lemma_selection_bounds(ls.drop_last(), nt, url);
    }
}

/// The line written for a node configuration.
pub open spec fn new_config_line(nt: NodeType, url: Seq<char>, pw: Seq<char>, set_default: bool) -> Seq<
    char,
> {
    plnc() + " type="@ + node_type_name(nt) + " url="@ + url + " "@ + password_field_name(nt) + "="@
        + pw + (if set_default {
        " default=true"@
    } else {
        seq![]
    })
}

/// A line with its default marker removed.
pub open spec fn undefault(line: Seq<char>) -> Seq<char> {
    replace_all(
        replace_all(replace_all(line, " default=true"@, seq![]), "default=true "@, seq![]),
        "default=true"@,
        seq![],
    )
}

/// The lines after an upsert or a delete. A delete removes the last line of the type
/// with the given url, or the first line of the type when no url is given. An upsert
/// replaces the first line of the type with the given url, or appends a new line; when the
/// new line is to be the default, the previous default line loses its marker.
pub open spec fn modified_lines(
    ls: Seq<Seq<char>>,
    op: Operation,
    nt: NodeType,
    url: Option<Seq<char>>,
    pw: Option<Seq<char>>,
    set_default: bool,
) -> Result<Seq<Seq<char>>, Seq<char>> {
    match op {
        Operation::Delete => {
            let t = if url is Some {
                last_target(ls, nt, url)
            } else {
                first_target(ls, nt, url)
            };
            Ok(
                match t {
                    Some(k) => ls.remove(k),
                    None => ls,
                },
            )
        },
        Operation::Upsert => match url {
            None => Err("URL is required for upsert operation"@),
            Some(u) => match pw {
                None => Err("Password is required for upsert operation"@),
                Some(p) => {
                    let t = first_target(ls, nt, url);
                    let d = last_default(ls);
                    let ls1 = if set_default && d is Some && d != t {
                        ls.update(d.unwrap(), undefault(ls[d.unwrap()]))
                    } else {
                        ls
                    };
                    let line = new_config_line(nt, u, p, set_default);
                    Ok(
                        match t {
                            Some(k) => ls1.update(k, line),
                            None => ls1.push(line),
                        },
                    )
                },
            },
        },
    }
}

/// What `modify_payment_lightning_config` makes of a torrc text.
pub open spec fn modify_spec(
    content: Seq<char>,
    op: Operation,
    nt: NodeType,
    url: Option<Seq<char>>,
    pw: Option<Seq<char>>,
    set_default: bool,
) -> Result<Seq<char>, Seq<char>> {
    match modified_lines(lines(content), op, nt, url, pw, set_default) {
        Ok(ls) => Ok(join(ls, seq!['\n'])),
        Err(e) => Err(e),
    }
}

/// Classifies one line: whether it is a target and whether it is the default line.
fn classify_line(line: &[char], nt: NodeType, url: &Option<Vec<char>>) -> (r: (bool, bool))
    ensures
        r.0 == is_target(line@, nt, opt_chars(*url)),
        r.1 == is_default_line(line@),
{
    let t = trim_chars(line);
    let kw = lit("PaymentLightningNodeConfig");
    let hash = lit("#");
    proof {
        reveal_strlit("#");
        assert(hash@ =~= seq!['#']);
    }
    if has_prefix(t.as_slice(), hash.as_slice()) || !has_prefix(t.as_slice(), kw.as_slice()) {
        return (false, false);
    }
    proof {
        reveal_strlit("PaymentLightningNodeConfig");
    }
    let rest = trim_start_matches(t.as_slice(), kw.as_slice());
    let part = trim_chars(rest.as_slice());
    let typ = match config_value_chars(part.as_slice(), lit("type").as_slice()) {
        Some(v) => node_type_of_chars(v.as_slice()),
        None => None,
    };
    match typ {
        None => (false, false),
        Some(ty) => {
            let url_ok = match url {
                Some(u) => match config_value_chars(part.as_slice(), lit("url").as_slice()) {
                    Some(x) => eq_chars(x.as_slice(), u.as_slice()),
                    None => false,
                },
                None => true,
            };
            let is_t = ty == nt && url_ok;
            let is_d = match config_value_chars(part.as_slice(), lit("default").as_slice()) {
                Some(x) => eq_chars(x.as_slice(), lit("true").as_slice()),
                None => false,
            };
            (is_t, is_d)
        },
    }
}

/// The line written for a node configuration.
fn config_line(nt: NodeType, url: &[char], pw: &[char], set_default: bool) -> (r: Vec<char>)
    ensures
        r@ == new_config_line(nt, url@, pw@, set_default),
{
    let mut out = lit("PaymentLightningNodeConfig");
    push_all(&mut out, lit(" type=").as_slice());
    let name = nt.to_string();
    push_all(&mut out, chars_of(name.as_str()).as_slice());
    push_all(&mut out, lit(" url=").as_slice());
    push_all(&mut out, url);
    push_all(&mut out, lit(" ").as_slice());
    push_all(&mut out, lit(nt.password_field()).as_slice());
    push_all(&mut out, lit("=").as_slice());
    push_all(&mut out, pw);
    if set_default {
        push_all(&mut out, lit(" default=true").as_slice());
        out
    } else {
        assert(out@ =~= new_config_line(nt, url@, pw@, set_default));
        out
    }
}

/// Upserts or deletes a payment node line in the text of a torrc file and returns the
/// new text (the lines joined by "\n").
pub fn modify_payment_lightning_config(
    content: &str,
    operation: Operation,
    node_type: NodeType,
    url: Option<String>,
    password: Option<String>,
    set_as_default: bool,
) -> (r: Result<String, String>)
    ensures
        r matches Ok(s) ==> modify_spec(
            content@,
            operation,
            node_type,
            opt_view(url),
            opt_view(password),
            set_as_default,
        ) == Ok::<Seq<char>, Seq<char>>(s@),
        r matches Err(e) ==> modify_spec(
            content@,
            operation,
            node_type,
            opt_view(url),
            opt_view(password),
            set_as_default,
        ) == Err::<Seq<char>, Seq<char>>(e@),
{
    let cs = chars_of(content);
    let mut ls = lines_of(cs.as_slice());
    let ghost vls = views(ls@);
    let url_c: Option<Vec<char>> = match &url {
        Some(u) => Some(chars_of(u.as_str())),
        None => None,
    };
    assert(opt_chars(url_c) == opt_view(url));
    let ghost uv = opt_view(url);
    let mut first_t: Option<usize> = None;
    let mut last_t: Option<usize> = None;
    let mut last_d: Option<usize> = None;
    let mut i: usize = 0;
    while i < ls.len()
        invariant
            i <= ls.len(),
            vls == views(ls@),
            opt_chars(url_c) == uv,
            first_t matches Some(k) ==> first_target(vls.take(i as int), node_type, uv) == Some(
                k as int,
            ),
            first_t is None ==> first_target(vls.take(i as int), node_type, uv) is None,
            last_t matches Some(k) ==> last_target(vls.take(i as int), node_type, uv) == Some(
                k as int,
            ),
            last_t is None ==> last_target(vls.take(i as int), node_type, uv) is None,
            last_d matches Some(k) ==> last_default(vls.take(i as int)) == Some(k as int),
            last_d is None ==> last_default(vls.take(i as int)) is None,
        decreases ls.len() - i,
    {
        let (is_t, is_d) = classify_line(ls[i].as_slice(), node_type, &url_c);
        assert(vls.take(i + 1).drop_last() =~= vls.take(i as int));
        assert(vls.take(i + 1).last() == ls[i as int]@);
        if is_t {
            if first_t.is_none() {
                first_t = Some(i);
            }
            last_t = Some(i);
        }
        if is_d {
            last_d = Some(i);
        }
        i = i + 1;
    }
    assert(vls.take(ls.len() as int) =~= vls);
    proof {
        lemma_selection_bounds(vls, node_type, uv);
    }
    match operation {
        Operation::Delete => {
            let t = if url.is_some() {
                last_t
            } else {
                first_t
            };
            match t {
                Some(k) => {
                    ls.remove(k);
                    assert(views(ls@) =~= vls.remove(k as int));
                },
                None => {},
            }
        },
        Operation::Upsert => {
            let u = match url_c {
                Some(u) => u,
                None => {
                    return Err(owned("URL is required for upsert operation"));
                },
            };
            let p = match &password {
                Some(p) => chars_of(p.as_str()),
                None => {
                    return Err(owned("Password is required for upsert operation"));
                },
            };
            let line = config_line(node_type, u.as_slice(), p.as_slice(), set_as_default);
            if set_as_default {
                match last_d {
                    Some(d) => {
                        let differs = match first_t {
                            Some(k) => k != d,
                            None => true,
                        };
                        if differs {
                            let p1 = lit(" default=true");
                            let p2 = lit("default=true ");
                            let p3 = lit("default=true");
                            let empty = lit("");
                            proof {
                                reveal_strlit(" default=true");
                                reveal_strlit("default=true ");
                                reveal_strlit("default=true");
                                reveal_strlit("");
                                assert(empty@ =~= Seq::<char>::empty());
                            }
                            let a = replace_chars(ls[d].as_slice(), p1.as_slice(), empty.as_slice());
                            let b = replace_chars(a.as_slice(), p2.as_slice(), empty.as_slice());
                            let c = replace_chars(b.as_slice(), p3.as_slice(), empty.as_slice());
                            assert(c@ == undefault(vls[d as int]));
                            ls.set(d, c);
                            assert(views(ls@) =~= vls.update(d as int, undefault(vls[d as int])));
                        }
                    },
                    None => {},
                }
            }
            let ghost before = views(ls@);
            match first_t {
                Some(k) => {
                    ls.set(k, line);
                    assert(views(ls@) =~= before.update(k as int, new_config_line(node_type, u@, p@, set_as_default)));
                },
                None => {
                    ls.push(line);
                    assert(views(ls@) =~= before.push(new_config_line(node_type, u@, p@, set_as_default)));
                },
            }
        },
    }
    let nl = lit("\n");
    proof {
        reveal_strlit("\n");
        assert(nl@ =~= seq!['\n']);
    }
    let joined = join_with(&ls, nl.as_slice());
    Ok(string_of(joined.as_slice()))
}

/// The configuration an active payment node line parses to, if any.
pub open spec fn line_config(line: Seq<char>) -> Option<LightningConfigView> {
    let t = trim(line);
    if t.len() == 0 || seq!['#'].is_prefix_of(t) || !plnc().is_prefix_of(t) {
        None
    } else {
        match parse_config(config_part(line)) {
            Ok(c) => Some(c),
            Err(_) => None,
        }
    }
}

/// The configurations of all active payment node lines that parse, in order.
pub open spec fn configs_of_lines(ls: Seq<Seq<char>>) -> Seq<LightningConfigView>
    decreases ls.len(),
{
    if ls.len() == 0 {
        seq![]
    } else {
        configs_of_lines(ls.drop_last()) + match line_config(ls.last()) {
            Some(c) => seq![c],
            None => seq![],
        }
    }
}

/// What `get_all_payment_lightning_configs` finds in a torrc text.
pub open spec fn all_configs(content: Seq<char>) -> Seq<LightningConfigView> {
    configs_of_lines(lines(content))
}

/// The views of a sequence of configurations.
pub open spec fn config_views(v: Seq<LightningConfig>) -> Seq<LightningConfigView> {
    v.map_values(|c: LightningConfig| c@)
}

/// The configuration of one line, if it is an active payment node line that parses.
fn config_of_line(line: &[char]) -> (r: Option<LightningConfig>)
    ensures
        r matches Some(c) ==> line_config(line@) == Some(c@),
        r is None ==> line_config(line@) is None,
{
    let t = trim_chars(line);
    let kw = lit("PaymentLightningNodeConfig");
    let hash = lit("#");
    proof {
        reveal_strlit("#");
        assert(hash@ =~= seq!['#']);
        reveal_strlit("PaymentLightningNodeConfig");
    }
    if t.len() == 0 || has_prefix(t.as_slice(), hash.as_slice()) || !has_prefix(
        t.as_slice(),
        kw.as_slice(),
    ) {
        return None;
    }
    let rest = trim_start_matches(t.as_slice(), kw.as_slice());
    let part = trim_chars(rest.as_slice());
    match parse_config_chars(part.as_slice()) {
        Ok(c) => Some(c),
        Err(_) => None,
    }
}

/// All active, well-formed payment node configurations of a torrc text, in file order.
pub fn get_all_payment_lightning_configs(content: &str) -> (r: Vec<LightningConfig>)
    ensures
        config_views(r@) == all_configs(content@),
{
    let cs = chars_of(content);
    let ls = lines_of(cs.as_slice());
    let ghost vls = views(ls@);
    let mut out: Vec<LightningConfig> = Vec::new();
    let mut i: usize = 0;
    while i < ls.len()
        invariant
            i <= ls.len(),
            vls == views(ls@),
            vls == lines(content@),
            config_views(out@) == configs_of_lines(vls.take(i as int)),
        decreases ls.len() - i,
    {
        assert(vls.take(i + 1).drop_last() =~= vls.take(i as int));
        assert(vls.take(i + 1).last() == ls[i as int]@);
        match config_of_line(ls[i].as_slice()) {
            Some(c) => {
                let ghost cv = c@;
                out.push(c);
                assert(config_views(out@) =~= configs_of_lines(vls.take(i as int)) + seq![cv]);
            },
            None => {
                assert(config_views(out@) =~= configs_of_lines(vls.take(i as int)) + seq![]);
            },
        }
        i = i + 1;
    }
    assert(vls.take(ls.len() as int) =~= vls);
    out
}

/// The keyword of a commented-out payment node line.
pub open spec fn hplnc() -> Seq<char> {
    "#PaymentLightningNodeConfig"@
}

/// Whether a line is a payment node line, commented out or not.
pub open spec fn is_any_config_line(line: Seq<char>) -> bool {
    hplnc().is_prefix_of(trim(line)) || plnc().is_prefix_of(trim(line))
}

/// The `key=value` list of a payment node line, commented out or not.
pub open spec fn any_config_part(line: Seq<char>) -> Seq<char> {
    trim(strip_all_prefix(strip_all_prefix(trim(line), hplnc()), plnc()))
}

/// The first payment node line, commented out or not.
pub open spec fn first_any_config(ls: Seq<Seq<char>>) -> Option<int>
    decreases ls.len(),
{
    if ls.len() == 0 {
        None
    } else {
        match first_any_config(ls.drop_last()) {
            Some(i) => Some(i),
            None => if is_any_config_line(ls.last()) {
                Some(ls.len() - 1)
            } else {
                None
            },
        }
    }
}

/// What `parse_lightning_config_from_torrc` reads from a torrc text: the first payment
/// node line (even a commented one) parsed, or nothing when there is none.
pub open spec fn torrc_lightning_config(content: Seq<char>) -> Result<
    Option<LightningConfigView>,
    Seq<char>,
> {
    let ls = lines(content);
    match first_any_config(ls) {
        None => Ok(None),
        Some(i) => match parse_config(any_config_part(ls[i])) {
            Ok(c) => Ok(Some(c)),
            Err(e) => Err(e),
        },
    }
}

proof fn lemma_first_any_bounds(ls: Seq<Seq<char>>)
    ensures
        first_any_config(ls) matches Some(k) ==> 0 <= k < ls.len(),
    decreases ls.len(),
{
    if ls.len() > 0 {
        lemma_first_any_bounds(ls.drop_last());
    }
}

/// Parses the first payment node line of a torrc text (a commented one counts too).
pub fn parse_lightning_config_from_torrc(content: &str) -> (r: Result<Option<LightningConfig>, String>)
    ensures
        r matches Ok(Some(c)) ==> torrc_lightning_config(content@) == Ok::<
            Option<LightningConfigView>,
            Seq<char>,
        >(Some(c@)),
        r matches Ok(None) ==> torrc_lightning_config(content@) == Ok::<
            Option<LightningConfigView>,
            Seq<char>,
        >(None),
        r matches Err(e) ==> torrc_lightning_config(content@) == Err::<
            Option<LightningConfigView>,
            Seq<char>,
        >(e@),
{
    let cs = chars_of(content);
    let ls = lines_of(cs.as_slice());
    let ghost vls = views(ls@);
    let kw = lit("PaymentLightningNodeConfig");
    let hkw = lit("#PaymentLightningNodeConfig");
    proof {
        reveal_strlit("PaymentLightningNodeConfig");
        reveal_strlit("#PaymentLightningNodeConfig");
    }
    let mut i: usize = 0;
    while i < ls.len()
        invariant
            i <= ls.len(),
            vls == views(ls@),
            vls == lines(content@),
            kw@ == plnc(),
            hkw@ == hplnc(),
            kw@.len() > 0,
            hkw@.len() > 0,
            first_any_config(vls.take(i as int)) is None,
        decreases ls.len() - i,
    {
        assert(vls.take(i + 1).drop_last() =~= vls.take(i as int));
        assert(vls.take(i + 1).last() == ls[i as int]@);
        let t = trim_chars(ls[i].as_slice());
        if has_prefix(t.as_slice(), hkw.as_slice()) || has_prefix(t.as_slice(), kw.as_slice()) {
            let a = trim_start_matches(t.as_slice(), hkw.as_slice());
            let b = trim_start_matches(a.as_slice(), kw.as_slice());
            let part = trim_chars(b.as_slice());
            proof {
                lemma_first_any_bounds(vls);
                assert(first_any_config(vls.take(i + 1)) == Some(i as int));
                assert(vls =~= vls.take(i + 1) + vls.skip(i + 1));
                lemma_first_any_prefix(vls.take(i + 1), vls.skip(i + 1));
            }
            return match parse_config_chars(part.as_slice()) {
                Ok(c) => Ok(Some(c)),
                Err(e) => Err(e),
            };
        }
        i = i + 1;
    }
    assert(vls.take(ls.len() as int) =~= vls);
    Ok(None)
}

proof fn lemma_first_any_prefix(a: Seq<Seq<char>>, b: Seq<Seq<char>>)
    requires
        first_any_config(a) is Some,
    ensures
        first_any_config(a + b) == first_any_config(a),
    decreases b.len(),
{
    if b.len() > 0 {
        lemma_first_any_prefix(a, b.drop_last());
        assert((a + b).drop_last() =~= a + b.drop_last());
    } else {
        assert(a + b =~= a);
    }
}

/// The settings of a torrc file that the application reads.
#[derive(Debug, Clone)]
pub struct TorrcConfig {
    pub socks_port: Option<String>,
    pub control_port: Option<String>,
    pub address: Option<String>,
    pub or_port: Option<String>,
    pub nickname: Option<String>,
    pub contact_info: Option<String>,
    pub data_directory: Option<String>,
    pub hashed_control_password: Option<String>,
    /// Every other setting, one entry per key (a later line replaces an earlier value).
    pub other_configs: Vec<(String, String)>,
}

/// What a `TorrcConfig` holds.
pub struct TorrcConfigView {
    pub socks_port: Option<Seq<char>>,
    pub control_port: Option<Seq<char>>,
    pub address: Option<Seq<char>>,
    pub or_port: Option<Seq<char>>,
    pub nickname: Option<Seq<char>>,
    pub contact_info: Option<Seq<char>>,
    pub data_directory: Option<Seq<char>>,
    pub hashed_control_password: Option<Seq<char>>,
    pub other_configs: Seq<(Seq<char>, Seq<char>)>,
}

/// The views of key/value pairs.
pub open spec fn pair_views(v: Seq<(String, String)>) -> Seq<(Seq<char>, Seq<char>)> {
    v.map_values(|p: (String, String)| (p.0@, p.1@))
}

impl View for TorrcConfig {
    type V = TorrcConfigView;

    open spec fn view(&self) -> TorrcConfigView {
        TorrcConfigView {
            socks_port: opt_view(self.socks_port),
            control_port: opt_view(self.control_port),
            address: opt_view(self.address),
            or_port: opt_view(self.or_port),
            nickname: opt_view(self.nickname),
            contact_info: opt_view(self.contact_info),
            data_directory: opt_view(self.data_directory),
            hashed_control_password: opt_view(self.hashed_control_password),
            other_configs: pair_views(self.other_configs@),
        }
    }
}

/// The configuration with nothing set.
pub open spec fn empty_torrc() -> TorrcConfigView {
    TorrcConfigView {
        socks_port: None,
        control_port: None,
        address: None,
        or_port: None,
        nickname: None,
        contact_info: None,
        data_directory: None,
        hashed_control_password: None,
        other_configs: seq![],
    }
}

impl TorrcConfig {
    /// The configuration with nothing set.
    pub fn new() -> (r: TorrcConfig)
        ensures
            r@ == empty_torrc(),
    {
        let r = TorrcConfig {
            socks_port: None,
            control_port: None,
            address: None,
            or_port: None,
            nickname: None,
            contact_info: None,
            data_directory: None,
            hashed_control_password: None,
            other_configs: Vec::new(),
        };
        assert(pair_views(r.other_configs@) =~= seq![]);
        r
    }
}

impl Default for TorrcConfig {
    fn default() -> (r: TorrcConfig)
        ensures
            r@ == empty_torrc(),
    {
        TorrcConfig::new()
    }
}

/// A torrc line split at its first space into a trimmed key and a trimmed value.
pub open spec fn torrc_line(line: Seq<char>) -> Option<(Seq<char>, Seq<char>)> {
    let i = index_of_from(line, ' ', 0);
    if i >= line.len() {
        None
    } else {
        Some((trim(line.take(i)), trim(line.skip(i + 1))))
    }
}

/// Splits a torrc line at its first space into a trimmed key and value.
pub fn parse_torrc_line(line: &str) -> (r: Option<(String, String)>)
    ensures
        r matches Some(p) ==> torrc_line(line@) == Some((p.0@, p.1@)),
        r is None ==> torrc_line(line@) is None,
{
    let cs = chars_of(line);
    let i = index_of_char(cs.as_slice(), ' ', 0);
    if i >= cs.len() {
        return None;
    }
    proof {
        lemma_index_of_from_bounds(cs@, ' ', 0);
    }
    let k = copy_range(cs.as_slice(), 0, i);
    let v = copy_range(cs.as_slice(), i + 1, cs.len());
    assert(k@ =~= cs@.take(i as int));
    assert(v@ =~= cs@.skip(i + 1));
    let kt = trim_chars(k.as_slice());
    let vt = trim_chars(v.as_slice());
    Some((string_of(kt.as_slice()), string_of(vt.as_slice())))
}

/// The position of `k` among the keys of `m`.
pub open spec fn key_index(m: Seq<(Seq<char>, Seq<char>)>, k: Seq<char>) -> Option<int>
    decreases m.len(),
{
    if m.len() == 0 {
        None
    } else {
        match key_index(m.drop_last(), k) {
            Some(i) => Some(i),
            None => if m.last().0 == k {
                Some(m.len() - 1)
            } else {
                None
            },
        }
    }
}

/// `m` with `k` set to `v` (`HashMap::insert`).
pub open spec fn insert_pair(m: Seq<(Seq<char>, Seq<char>)>, k: Seq<char>, v: Seq<char>) -> Seq<
    (Seq<char>, Seq<char>),
> {
    match key_index(m, k) {
        Some(i) => m.update(i, (k, v)),
        None => m.push((k, v)),
    }
}

/// `c` with the setting `k` given the value `v`.
pub open spec fn apply_setting(c: TorrcConfigView, k: Seq<char>, v: Seq<char>) -> TorrcConfigView {
    if k == "SocksPort"@ {
        TorrcConfigView { socks_port: Some(v), ..c }
    } else if k == "ControlPort"@ {
        TorrcConfigView { control_port: Some(v), ..c }
    } else if k == "Address"@ {
        TorrcConfigView { address: Some(v), ..c }
    } else if k == "ORPort"@ {
        TorrcConfigView { or_port: Some(v), ..c }
    } else if k == "Nickname"@ {
        TorrcConfigView { nickname: Some(v), ..c }
    } else if k == "ContactInfo"@ {
        TorrcConfigView { contact_info: Some(v), ..c }
    } else if k == "DataDirectory"@ {
        TorrcConfigView { data_directory: Some(v), ..c }
    } else if k == "HashedControlPassword"@ {
        TorrcConfigView { hashed_control_password: Some(v), ..c }
    } else {
        TorrcConfigView { other_configs: insert_pair(c.other_configs, k, v), ..c }
    }
}

/// The settings read from the lines `ls`; blank lines and comments are skipped.
pub open spec fn torrc_of_lines(ls: Seq<Seq<char>>) -> TorrcConfigView
    decreases ls.len(),
{
    if ls.len() == 0 {
        empty_torrc()
    } else {
        let c = torrc_of_lines(ls.drop_last());
        let t = trim(ls.last());
        if t.len() == 0 || seq!['#'].is_prefix_of(t) {
            c
        } else {
            match torrc_line(t) {
                Some(kv) => apply_setting(c, kv.0, kv.1),
                None => c,
            }
        }
    }
}


proof fn lemma_key_index_bounds(m: Seq<(Seq<char>, Seq<char>)>, k: Seq<char>)
    ensures
        key_index(m, k) matches Some(i) ==> 0 <= i < m.len() && m[i].0 == k,
    decreases m.len(),
{
    if m.len() > 0 {
        lemma_key_index_bounds(m.drop_last(), k);
    }
}

/// The last of a list of values, if there is one.
pub open spec fn last_value(vs: Seq<Seq<char>>) -> Option<Seq<char>> {
    if vs.len() == 0 {
        None
    } else {
        Some(vs.last())
    }
}

/// Whether `k` is one of the settings a `TorrcConfig` keeps in a field of its own.
pub open spec fn named_setting(k: Seq<char>) -> bool {
    k == "SocksPort"@ || k == "ControlPort"@ || k == "Address"@ || k == "ORPort"@ || k == "Nickname"@ || k == "ContactInfo"@ || k == "DataDirectory"@ || k == "HashedControlPassword"@
}

/// The field of a configuration that keeps the setting `k`, if `k` has one.
pub open spec fn named_value(c: TorrcConfigView, k: Seq<char>) -> Option<Seq<char>> {
    if k == "SocksPort"@ {
        c.socks_port
    } else if k == "ControlPort"@ {
        c.control_port
    } else if k == "Address"@ {
        c.address
    } else if k == "ORPort"@ {
        c.or_port
    } else if k == "Nickname"@ {
        c.nickname
    } else if k == "ContactInfo"@ {
        c.contact_info
    } else if k == "DataDirectory"@ {
        c.data_directory
    } else if k == "HashedControlPassword"@ {
        c.hashed_control_password
    } else {
        None
    }
}

proof fn lemma_named_keys_differ()
    ensures
        "ControlPort"@ != "ContactInfo"@,
        "SocksPort"@.len() == 9 && "ControlPort"@.len() == 11 && "Address"@.len() == 7 && "ORPort"@.len() == 6
            && "Nickname"@.len() == 8 && "ContactInfo"@.len() == 11 && "DataDirectory"@.len() == 13
            && "HashedControlPassword"@.len() == 21,
{
    reveal_strlit("SocksPort");
    reveal_strlit("ControlPort");
    reveal_strlit("Address");
    reveal_strlit("ORPort");
    reveal_strlit("Nickname");
    reveal_strlit("ContactInfo");
    reveal_strlit("DataDirectory");
    reveal_strlit("HashedControlPassword");
    assert("ControlPort"@[4] != "ContactInfo"@[4]);
}

/// Setting `k` changes the field of a named setting `key` only when `k` is `key`.
proof fn lemma_apply_named(c: TorrcConfigView, k: Seq<char>, v: Seq<char>, key: Seq<char>)
    requires
        named_setting(key),
    ensures
        named_value(apply_setting(c, k, v), key) == (if k == key {
            Some(v)
        } else {
            named_value(c, key)
        }),
{
    lemma_named_keys_differ();
}

/// A named setting's field holds the value its key has last.
proof fn lemma_named_last(ls: Seq<Seq<char>>, key: Seq<char>)
    requires
        named_setting(key),
    ensures
        named_value(torrc_of_lines(ls), key) == last_value(values_of_lines(ls, key)),
    decreases ls.len(),
{
    lemma_named_keys_differ();
    if ls.len() > 0 {
        lemma_named_last(ls.drop_last(), key);
        let c = torrc_of_lines(ls.drop_last());
        let t = trim(ls.last());
        let prev = values_of_lines(ls.drop_last(), key);
        if !(t.len() == 0 || seq!['#'].is_prefix_of(t)) {
            if let Some(kv) = torrc_line(t) {
                lemma_apply_named(c, kv.0, kv.1, key);
                if kv.0 == key {
                    assert(values_of_lines(ls, key) == prev + seq![kv.1]);
                } else {
                    assert(values_of_lines(ls, key) =~= prev);
                }
            } else {
                assert(values_of_lines(ls, key) =~= prev);
            }
        } else {
            assert(values_of_lines(ls, key) =~= prev);
        }
    }
}

/// Law: the settings kept in fields of their own are the values their keys have last in
/// the file, as `get_torrc_config` lists them (a later line wins), and none of them is
/// kept among the other settings.
pub proof fn law_named_settings_are_their_last_values(ls: Seq<Seq<char>>)
    ensures
        torrc_of_lines(ls).socks_port == last_value(values_of_lines(ls, "SocksPort"@)),
        torrc_of_lines(ls).control_port == last_value(values_of_lines(ls, "ControlPort"@)),
        torrc_of_lines(ls).address == last_value(values_of_lines(ls, "Address"@)),
        torrc_of_lines(ls).or_port == last_value(values_of_lines(ls, "ORPort"@)),
        torrc_of_lines(ls).nickname == last_value(values_of_lines(ls, "Nickname"@)),
        torrc_of_lines(ls).contact_info == last_value(values_of_lines(ls, "ContactInfo"@)),
        torrc_of_lines(ls).data_directory == last_value(values_of_lines(ls, "DataDirectory"@)),
        torrc_of_lines(ls).hashed_control_password == last_value(values_of_lines(ls, "HashedControlPassword"@)),
        forall|i: int|
            0 <= i < torrc_of_lines(ls).other_configs.len() ==> !named_setting(
                #[trigger] torrc_of_lines(ls).other_configs[i].0,
            ),
    decreases ls.len(),
{
    lemma_named_keys_differ();
    lemma_named_last(ls, "SocksPort"@);
    lemma_named_last(ls, "ControlPort"@);
    lemma_named_last(ls, "Address"@);
    lemma_named_last(ls, "ORPort"@);
    lemma_named_last(ls, "Nickname"@);
    lemma_named_last(ls, "ContactInfo"@);
    lemma_named_last(ls, "DataDirectory"@);
    lemma_named_last(ls, "HashedControlPassword"@);
    if ls.len() > 0 {
        law_named_settings_are_their_last_values(ls.drop_last());
        let c = torrc_of_lines(ls.drop_last());
        let t = trim(ls.last());
        if !(t.len() == 0 || seq!['#'].is_prefix_of(t)) {
            if let Some(kv) = torrc_line(t) {
                if !named_setting(kv.0) {
                    lemma_key_index_bounds(c.other_configs, kv.0);
                    let m = insert_pair(c.other_configs, kv.0, kv.1);
                    assert forall|i: int| 0 <= i < m.len() implies !named_setting(#[trigger] m[i].0) by {
                        match key_index(c.other_configs, kv.0) {
                            Some(j) => {
                                if i != j {
                                    assert(m[i] == c.other_configs[i]);
                                }
                            },
                            None => {
                                if i < c.other_configs.len() {
                                    assert(m[i] == c.other_configs[i]);
                                }
                            },
                        }
                    }
                }
            }
        }
    }
}

/// Sets `k` to `v` among the other settings.
fn insert_setting(m: &mut Vec<(String, String)>, k: String, v: String)
    ensures
        pair_views(final(m)@) == insert_pair(pair_views(old(m)@), k@, v@),
{
    let ghost pv = pair_views(m@);
    let mut i: usize = 0;
    while i < m.len()
        invariant
            i <= m.len(),
            pv == pair_views(m@),
            pv == pair_views(old(m)@),
            key_index(pv.take(i as int), k@) is None,
        decreases m.len() - i,
    {
        assert(pv.take(i + 1).drop_last() =~= pv.take(i as int));
        assert(pv.take(i + 1).last() == (m@[i as int].0@, m@[i as int].1@));
        if eq_str(m[i].0.as_str(), k.as_str()) {
            proof {
                assert(key_index(pv.take(i + 1), k@) == Some(i as int));
                assert(pv =~= pv.take(i + 1) + pv.skip(i + 1));
                lemma_key_index_prefix(pv.take(i + 1), pv.skip(i + 1), k@);
            }
            m.set(i, (k, v));
            assert(pair_views(m@) =~= insert_pair(pv, k@, v@));
            return;
        }
        i = i + 1;
    }
    assert(pv.take(m.len() as int) =~= pv);
    m.push((k, v));
    assert(pair_views(m@) =~= insert_pair(pv, k@, v@));
}

proof fn lemma_key_index_prefix(a: Seq<(Seq<char>, Seq<char>)>, b: Seq<(Seq<char>, Seq<char>)>, k: Seq<char>)
    requires
        key_index(a, k) is Some,
    ensures
        key_index(a + b, k) == key_index(a, k),
    decreases b.len(),
{
    if b.len() > 0 {
        lemma_key_index_prefix(a, b.drop_last(), k);
        assert((a + b).drop_last() =~= a + b.drop_last());
    } else {
        assert(a + b =~= a);
    }
}

/// Applies one setting to `c`.
fn set_setting(c: &mut TorrcConfig, k: String, v: String)
    ensures
        final(c)@ == apply_setting(old(c)@, k@, v@),
{
    proof {
        reveal_strlit("SocksPort");
        reveal_strlit("ControlPort");
        reveal_strlit("Address");
        reveal_strlit("ORPort");
        reveal_strlit("Nickname");
        reveal_strlit("ContactInfo");
        reveal_strlit("DataDirectory");
        reveal_strlit("HashedControlPassword");
    }
    if eq_str(k.as_str(), "SocksPort") {
        c.socks_port = Some(v);
    } else if eq_str(k.as_str(), "ControlPort") {
        c.control_port = Some(v);
    } else if eq_str(k.as_str(), "Address") {
        c.address = Some(v);
    } else if eq_str(k.as_str(), "ORPort") {
        c.or_port = Some(v);
    } else if eq_str(k.as_str(), "Nickname") {
        c.nickname = Some(v);
    } else if eq_str(k.as_str(), "ContactInfo") {
        c.contact_info = Some(v);
    } else if eq_str(k.as_str(), "DataDirectory") {
        c.data_directory = Some(v);
    } else if eq_str(k.as_str(), "HashedControlPassword") {
        c.hashed_control_password = Some(v);
    } else {
        insert_setting(&mut c.other_configs, k, v);
    }
}

/// Reads the settings of a torrc text.
pub fn parse_torrc(content: &str) -> (r: TorrcConfig)
    ensures
        r@ == torrc_of_lines(lines(content@)),
{
    let cs = chars_of(content);
    let ls = lines_of(cs.as_slice());
    let ghost vls = views(ls@);
    let mut config = TorrcConfig::new();
    let hash = lit("#");
    proof {
        reveal_strlit("#");
        assert(hash@ =~= seq!['#']);
    }
    let mut i: usize = 0;
    while i < ls.len()
        invariant
            i <= ls.len(),
            vls == views(ls@),
            hash@ == seq!['#'],
            config@ == torrc_of_lines(vls.take(i as int)),
        decreases ls.len() - i,
    {
        assert(vls.take(i + 1).drop_last() =~= vls.take(i as int));
        assert(vls.take(i + 1).last() == ls[i as int]@);
        let t = trim_chars(ls[i].as_slice());
        if t.len() > 0 && !has_prefix(t.as_slice(), hash.as_slice()) {
            let ts = string_of(t.as_slice());
            match parse_torrc_line(ts.as_str()) {
                Some((k, v)) => {
                    set_setting(&mut config, k, v);
                },
                None => {},
            }
        }
        i = i + 1;
    }
    assert(vls.take(ls.len() as int) =~= vls);
    config
}

/// The key and value of an active torrc line: one that is neither blank nor a comment
/// and holds a space.
pub open spec fn active_setting(l: Seq<char>) -> Option<(Seq<char>, Seq<char>)> {
    let t = trim(l);
    if t.len() == 0 || seq!['#'].is_prefix_of(t) {
        None
    } else {
        torrc_line(t)
    }
}

/// The value a line gives `key`: that of an active line whose key is `key`.
pub open spec fn setting_value(l: Seq<char>, key: Seq<char>) -> Option<Seq<char>> {
    match active_setting(l) {
        Some(kv) => if kv.0 == key {
            Some(kv.1)
        } else {
            None
        },
        None => None,
    }
}

/// The values of the active lines whose key is `key`, in order.
pub open spec fn values_of_lines(ls: Seq<Seq<char>>, key: Seq<char>) -> Seq<Seq<char>>
    decreases ls.len(),
{
    if ls.len() == 0 {
        Seq::empty()
    } else {
        values_of_lines(ls.drop_last(), key) + match setting_value(ls.last(), key) {
            Some(v) => seq![v],
            None => Seq::<Seq<char>>::empty(),
        }
    }
}

/// The key and value of an active torrc line, if it is one.
fn setting_of_line(l: &[char]) -> (r: Option<(String, String)>)
    ensures
        match r {
            Some(p) => active_setting(l@) == Some((p.0@, p.1@)),
            None => active_setting(l@) is None,
        },
{
    let t = trim_chars(l);
    if t.len() == 0 || t[0] == '#' {
        proof {
            if t@.len() > 0 {
                assert(seq!['#'].is_prefix_of(t@));
            }
        }
        return None;
    }
    assert(!seq!['#'].is_prefix_of(t@)) by {
        if seq!['#'].is_prefix_of(t@) {
            assert(t@.subrange(0, 1)[0] == t@[0]);
        }
    }
    let ts = string_of(t.as_slice());
    parse_torrc_line(ts.as_str())
}

/// The values of every active line of a torrc text whose key is `key`, in order.
pub fn get_torrc_config(content: &str, key: &str) -> (r: Vec<String>)
    ensures
        string_views(r@) == values_of_lines(lines(content@), key@),
{
    let cs = chars_of(content);
    let ls = lines_of(cs.as_slice());
    let ghost vls = views(ls@);
    let mut out: Vec<String> = Vec::new();
    let mut i: usize = 0;
    assert(vls.take(0) =~= Seq::<Seq<char>>::empty());
    while i < ls.len()
        invariant
            i <= ls.len(),
            vls == views(ls@),
            string_views(out@) == values_of_lines(vls.take(i as int), key@),
        decreases ls.len() - i,
    {
        assert(vls.take(i + 1).drop_last() =~= vls.take(i as int));
        assert(vls.take(i + 1).last() == ls[i as int]@);
        let ghost before = out@;
        match setting_of_line(ls[i].as_slice()) {
            Some((k, v)) => {
                if eq_str(k.as_str(), key) {
                    out.push(v);
                    assert(string_views(out@) =~= string_views(before) + seq![v@]);
                }
            },
            None => {},
        }
        i = i + 1;
    }
    assert(vls.take(ls.len() as int) =~= vls);
    out
}

/// The port a torrc value names: the text after its last `:` (all of it when there is
/// none) read as a port number, so both `9992` and `127.0.0.1:9992` give 9992.
pub open spec fn port_of_value(v: Seq<char>) -> Option<nat> {
    match last_index_of(v, ':') {
        Some(k) => parse_unsigned(v.skip(k + 1), 65535),
        None => parse_unsigned(v, 65535),
    }
}

proof fn lemma_last_index_bounds(s: Seq<char>, c: char)
    ensures
        last_index_of(s, c) matches Some(k) ==> 0 <= k < s.len() && s[k] == c,
        last_index_of(s, c) is None ==> forall|j: int| 0 <= j < s.len() ==> s[j] != c,
    decreases s.len(),
{
    if s.len() > 0 && s.last() != c {
        lemma_last_index_bounds(s.drop_last(), c);
        assert forall|j: int| 0 <= j < s.len() - 1 implies s.drop_last()[j] == s[j] by {}
    }
}

/// The port a torrc value such as a `SocksPort` or `ControlPort` setting names.
pub fn parse_port_from_config(value: &str) -> (r: Option<u16>)
    ensures
        match r {
            Some(p) => port_of_value(value@) == Some(p as nat),
            None => port_of_value(value@) is None,
        },
{
    let cs = chars_of(value);
    let mut i: usize = cs.len();
    assert(cs@.take(cs.len() as int) =~= cs@);
    while i > 0
        invariant
            i <= cs.len(),
            cs@ == value@,
            last_index_of(cs@, ':') == last_index_of(cs@.take(i as int), ':'),
        ensures
            i <= cs.len(),
            last_index_of(cs@, ':') == last_index_of(cs@.take(i as int), ':'),
            i > 0 ==> cs@[i - 1] == ':',
        decreases i,
    {
        assert(cs@.take(i as int).drop_last() =~= cs@.take(i - 1));
        if cs[i - 1] == ':' {
            break;
        }
        i = i - 1;
    }
    let start = if i > 0 {
        i
    } else {
        0
    };
    proof {
        if i > 0 {
            assert(cs@.take(i as int).last() == ':');
        } else {
            assert(cs@.take(0) =~= Seq::<char>::empty());
        }
    }
    let rest = copy_range(cs.as_slice(), start, cs.len());
    assert(i == 0 ==> rest@ =~= cs@);
    assert(i > 0 ==> rest@ =~= cs@.skip(i as int));
    match parse_unsigned_chars(rest.as_slice(), 65535) {
        Some(p) => Some(p as u16),
        None => None,
    }
}

/// The position of the first active line whose key is `key`.
pub open spec fn first_setting(ls: Seq<Seq<char>>, key: Seq<char>) -> Option<int>
    decreases ls.len(),
{
    if ls.len() == 0 {
        None
    } else {
        match first_setting(ls.drop_last(), key) {
            Some(i) => Some(i),
            None => if setting_value(ls.last(), key) is Some {
                Some(ls.len() - 1)
            } else {
                None
            },
        }
    }
}

/// The torrc text with the first active `key` line set to `key value`, or with such a
/// line added at the end when there is none; lines are joined by `\n`.
pub open spec fn set_setting_spec(content: Seq<char>, key: Seq<char>, value: Seq<char>) -> Seq<char> {
    join(set_lines(lines(content), key, key + seq![' '] + value), seq!['\n'])
}

/// The lines `ls` with the first active `key` line replaced by `line`, or with `line`
/// added at the end when there is none.
pub open spec fn set_lines(ls: Seq<Seq<char>>, key: Seq<char>, line: Seq<char>) -> Seq<Seq<char>> {
    match first_setting(ls, key) {
        Some(i) => ls.update(i, line),
        None => ls.push(line),
    }
}

/// Replacing or adding a line that holds no newline leaves no line holding one.
proof fn lemma_set_lines_lack_newline(ls: Seq<Seq<char>>, key: Seq<char>, line: Seq<char>)
    requires
        lacks(line, '\n'),
        forall|j: int| 0 <= j < ls.len() ==> lacks(#[trigger] ls[j], '\n'),
    ensures
        set_lines(ls, key, line).len() > 0,
        forall|j: int| 0 <= j < set_lines(ls, key, line).len() ==> lacks(#[trigger] set_lines(ls, key, line)[j], '\n'),
{
    let ls2 = set_lines(ls, key, line);
    lemma_first_setting_bounds(ls, key);
    match first_setting(ls, key) {
        Some(i) => {
            assert forall|j: int| 0 <= j < ls2.len() implies lacks(#[trigger] ls2[j], '\n') by {
                if j != i {
                    assert(ls2[j] == ls[j]);
                }
            }
        },
        None => {
            assert forall|j: int| 0 <= j < ls2.len() implies lacks(#[trigger] ls2[j], '\n') by {
                if j < ls.len() {
                    assert(ls2[j] == ls[j]);
                }
            }
        },
    }
}

/// The line `key value` holds no newline when neither part does.
proof fn lemma_setting_line_lacks_newline(key: Seq<char>, value: Seq<char>)
    requires
        no_ws(key),
        lacks(value, '\n'),
    ensures
        lacks(key + seq![' '] + value, '\n'),
{
    let line = key + seq![' '] + value;
    assert forall|j: int| 0 <= j < line.len() implies line[j] != '\n' by {
        if j < key.len() {
            assert(line[j] == key[j]);
            assert(!is_ws(key[j]));
        } else if j > key.len() {
            assert(line[j] == value[j - key.len() - 1]);
        }
    }
}

proof fn lemma_first_setting_bounds(ls: Seq<Seq<char>>, key: Seq<char>)
    ensures
        first_setting(ls, key) matches Some(i) ==> 0 <= i < ls.len(),
    decreases ls.len(),
{
    if ls.len() > 0 {
        lemma_first_setting_bounds(ls.drop_last(), key);
    }
}

/// Sets the first active `key` line of a torrc text to `key value`, adding such a line
/// when there is none.
pub fn set_torrc_config_line(content: &str, key: &str, value: &str) -> (r: String)
    ensures
        r@ == set_setting_spec(content@, key@, value@),
{
    let cs = chars_of(content);
    let mut ls = lines_of(cs.as_slice());
    let ghost vls = views(ls@);
    let mut line = chars_of(key);
    line.push(' ');
    let vc = chars_of(value);
    push_all(&mut line, vc.as_slice());
    assert(line@ =~= key@ + seq![' '] + value@);
    let mut i: usize = 0;
    let mut found: Option<usize> = None;
    assert(vls.take(0) =~= Seq::<Seq<char>>::empty());
    while i < ls.len()
        invariant
            i <= ls.len(),
            vls == views(ls@),
            found is None ==> first_setting(vls.take(i as int), key@) is None,
            found matches Some(j) ==> first_setting(vls, key@) == Some(j as int) && j < ls.len(),
        decreases ls.len() - i,
    {
        assert(vls.take(i + 1).drop_last() =~= vls.take(i as int));
        assert(vls.take(i + 1).last() == ls[i as int]@);
        if found.is_none() {
            match setting_of_line(ls[i].as_slice()) {
                Some((k, _v)) => {
                    if eq_str(k.as_str(), key) {
                        proof {
                            lemma_first_setting_prefix(vls, key@, i as int + 1);
                        }
                        found = Some(i);
                    }
                },
                None => {},
            }
        }
        i = i + 1;
    }
    assert(vls.take(ls.len() as int) =~= vls);
    let ghost target = first_setting(vls, key@);
    match found {
        Some(j) => {
            ls.set(j, line);
            assert(views(ls@) =~= vls.update(j as int, key@ + seq![' '] + value@));
        },
        None => {
            ls.push(line);
            assert(views(ls@) =~= vls.push(key@ + seq![' '] + value@));
        },
    }
    let sep = chars_of("\n");
    proof {
        reveal_strlit("\n");
        assert(sep@ =~= seq!['\n']);
    }
    let out = join_with(&ls, sep.as_slice());
    string_of(out.as_slice())
}

proof fn lemma_first_setting_prefix(ls: Seq<Seq<char>>, key: Seq<char>, n: int)
    requires
        0 <= n <= ls.len(),
        first_setting(ls.take(n), key) is Some,
    ensures
        first_setting(ls, key) == first_setting(ls.take(n), key),
    decreases ls.len() - n,
{
    if n < ls.len() {
        assert(ls.take(n + 1).drop_last() =~= ls.take(n));
        lemma_first_setting_prefix(ls, key, n + 1);
    } else {
        assert(ls.take(n) =~= ls);
    }
}

/// A line reads the same with or without a trailing carriage return.
proof fn lemma_setting_strip_cr(l: Seq<char>, key: Seq<char>)
    ensures
        setting_value(strip_cr(l), key) == setting_value(l, key),
{
    lemma_trim_strip_cr(l);
}

/// Lines that give `key` the same value line by line give it the same values.
proof fn lemma_values_pointwise(a: Seq<Seq<char>>, b: Seq<Seq<char>>, key: Seq<char>)
    requires
        a.len() == b.len(),
        forall|j: int| 0 <= j < a.len() ==> setting_value(#[trigger] a[j], key) == setting_value(b[j], key),
    ensures
        values_of_lines(a, key) == values_of_lines(b, key),
    decreases a.len(),
{
    if a.len() > 0 {
        assert forall|j: int| 0 <= j < a.drop_last().len() implies setting_value(
            #[trigger] a.drop_last()[j],
            key,
        ) == setting_value(b.drop_last()[j], key) by {
            assert(a.drop_last()[j] == a[j]);
            assert(b.drop_last()[j] == b[j]);
        }
        lemma_values_pointwise(a.drop_last(), b.drop_last(), key);
        assert(setting_value(a.last(), key) == setting_value(b.last(), key));
    }
}

/// The values of two runs of lines one after the other.
proof fn lemma_values_append(a: Seq<Seq<char>>, b: Seq<Seq<char>>, key: Seq<char>)
    ensures
        values_of_lines(a + b, key) == values_of_lines(a, key) + values_of_lines(b, key),
    decreases b.len(),
{
    if b.len() == 0 {
        assert(a + b =~= a);
        assert(values_of_lines(a, key) + Seq::<Seq<char>>::empty() =~= values_of_lines(a, key));
    } else {
        assert((a + b).drop_last() =~= a + b.drop_last());
        assert((a + b).last() == b.last());
        lemma_values_append(a, b.drop_last(), key);
        let tail = match setting_value(b.last(), key) {
            Some(v) => seq![v],
            None => Seq::<Seq<char>>::empty(),
        };
        assert(values_of_lines(a, key) + values_of_lines(b.drop_last(), key) + tail =~= values_of_lines(a, key) + (
        values_of_lines(b.drop_last(), key) + tail));
    }
}

/// Joining lines by "\n" and splitting the text again gives every key the same values.
proof fn lemma_values_join(ls: Seq<Seq<char>>, key: Seq<char>)
    requires
        ls.len() > 0,
        forall|i: int| 0 <= i < ls.len() ==> lacks(#[trigger] ls[i], '\n'),
    ensures
        values_of_lines(lines(join(ls, seq!['\n'])), key) == values_of_lines(ls, key),
{
    lemma_lines_join(ls);
    let init = ls.drop_last();
    let a = init.map_values(|l: Seq<char>| strip_cr(l));
    assert forall|j: int| 0 <= j < a.len() implies setting_value(#[trigger] a[j], key) == setting_value(
        init[j],
        key,
    ) by {
        lemma_setting_strip_cr(init[j], key);
    }
    lemma_values_pointwise(a, init, key);
    if ls.last().len() == 0 {
        assert(a + Seq::<Seq<char>>::empty() =~= a);
        assert(trim(ls.last()).len() == 0);
        assert(setting_value(ls.last(), key) is None);
        assert(values_of_lines(ls, key) =~= values_of_lines(init, key) + Seq::<Seq<char>>::empty());
    } else {
        let b = a + seq![ls.last()];
        assert(b.drop_last() =~= a);
        assert(b.last() == ls.last());
    }
}

/// No values at all exactly when no line sets the key.
proof fn lemma_values_empty(ls: Seq<Seq<char>>, key: Seq<char>)
    ensures
        (values_of_lines(ls, key).len() == 0) == (first_setting(ls, key) is None),
    decreases ls.len(),
{
    if ls.len() > 0 {
        lemma_values_empty(ls.drop_last(), key);
    }
}

/// The first line that sets a key sets it, and no line before it does.
proof fn lemma_first_setting_found(ls: Seq<Seq<char>>, key: Seq<char>, i: int)
    requires
        first_setting(ls, key) == Some(i),
    ensures
        0 <= i < ls.len(),
        setting_value(ls[i], key) is Some,
        first_setting(ls.take(i), key) is None,
    decreases ls.len(),
{
    lemma_first_setting_bounds(ls, key);
    match first_setting(ls.drop_last(), key) {
        Some(j) => {
            lemma_first_setting_found(ls.drop_last(), key, j);
            assert(ls.drop_last()[i] == ls[i]);
            assert(ls.drop_last().take(i) =~= ls.take(i));
        },
        None => {
            assert(ls.take(i) =~= ls.drop_last());
        },
    }
}

/// What the line `key value` gives a key other than its own: nothing.
proof fn lemma_written_setting_other(key: Seq<char>, value: Seq<char>, other: Seq<char>)
    requires
        key.len() > 0,
        no_ws(key),
        other != key,
    ensures
        setting_value(key + seq![' '] + value, other) is None,
{
    let line = key + seq![' '] + value;
    let k = key.len() as int;
    assert(line[0] == key[0]);
    assert(!is_ws(line[0]));
    assert(trim_start(line) == line);
    let m = lemma_trim_end_prefix(line, k - 1);
    let t = line.take(m);
    assert(trim(line) == t);
    assert forall|j: int| 0 <= j < k implies t[j] != ' ' by {
        assert(t[j] == key[j]);
        assert(!is_ws(key[j]));
    }
    lemma_index_of_from_bounds(t, ' ', 0);
    if m > k {
        assert(t[k] == ' ');
        let x = index_of_from(t, ' ', 0);
        assert(x == k) by {
            if x < k {
                assert(t[x] != ' ');
            }
        }
        assert(t.take(k) =~= key);
        lemma_trim_fixed(key);
    } else {
        assert(index_of_from(t, ' ', 0) == t.len());
    }
}

/// The line `key value` gives `key` the value `value`.
proof fn lemma_written_setting_own(key: Seq<char>, value: Seq<char>)
    requires
        key.len() > 0,
        no_ws(key),
        key[0] != '#',
        value.len() > 0,
        !is_ws(value[0]),
        !is_ws(value.last()),
    ensures
        setting_value(key + seq![' '] + value, key) == Some(value),
{
    let line = key + seq![' '] + value;
    let k = key.len() as int;
    assert(line[0] == key[0]);
    assert(line.last() == value.last());
    lemma_trim_fixed(line);
    assert(!seq!['#'].is_prefix_of(line)) by {
        if seq!['#'].is_prefix_of(line) {
            assert(line.take(1)[0] == line[0]);
        }
    }
    assert forall|j: int| 0 <= j < k implies line[j] != ' ' by {
        assert(line[j] == key[j]);
        assert(!is_ws(key[j]));
    }
    assert(line[k] == ' ');
    lemma_index_of_from_bounds(line, ' ', 0);
    let x = index_of_from(line, ' ', 0);
    assert(x == k) by {
        if x < k {
            assert(line[x] != ' ');
        }
    }
    assert(line.take(k) =~= key);
    assert(line.skip(k + 1) =~= value);
    lemma_trim_fixed(key);
    lemma_trim_fixed(value);
}

/// Writing a setting and reading the key back gives the value written: it is the first
/// value the key has in the new text. (A key holding whitespace, an empty key, a key
/// that opens a comment, or a value that is not its own trim or spans lines read back
/// otherwise.)
pub proof fn law_set_then_get(content: Seq<char>, key: Seq<char>, value: Seq<char>)
    requires
        key.len() > 0,
        no_ws(key),
        key[0] != '#',
        value.len() > 0,
        !is_ws(value[0]),
        !is_ws(value.last()),
        lacks(value, '\n'),
    ensures
        values_of_lines(lines(set_setting_spec(content, key, value)), key).len() > 0,
        values_of_lines(lines(set_setting_spec(content, key, value)), key)[0] == value,
{
    let ls = lines(content);
    let line = key + seq![' '] + value;
    lemma_written_setting_own(key, value);
    lemma_lines_lack_newline(content);
    lemma_setting_line_lacks_newline(key, value);
    lemma_set_lines_lack_newline(ls, key, line);
    let ls2 = set_lines(ls, key, line);
    lemma_values_join(ls2, key);
    match first_setting(ls, key) {
        Some(i) => {
            lemma_first_setting_found(ls, key, i);
            lemma_values_empty(ls.take(i), key);
            let front = ls2.take(i + 1);
            assert(front.drop_last() =~= ls.take(i));
            assert(front.last() == line);
            assert(values_of_lines(front, key) =~= values_of_lines(ls.take(i), key) + seq![value]);
            assert(ls2 =~= front + ls2.skip(i + 1));
            lemma_values_append(front, ls2.skip(i + 1), key);
        },
        None => {
            lemma_values_empty(ls, key);
            assert(ls2.drop_last() =~= ls);
            assert(values_of_lines(ls2, key) =~= values_of_lines(ls, key) + seq![value]);
        },
    }
}

/// Writing a setting leaves the values of every other key as they were.
pub proof fn law_set_keeps_other_keys(content: Seq<char>, key: Seq<char>, value: Seq<char>, other: Seq<char>)
    requires
        key.len() > 0,
        no_ws(key),
        lacks(value, '\n'),
        other != key,
    ensures
        values_of_lines(lines(set_setting_spec(content, key, value)), other) == values_of_lines(
            lines(content),
            other,
        ),
{
    let ls = lines(content);
    let line = key + seq![' '] + value;
    lemma_written_setting_other(key, value, other);
    lemma_lines_lack_newline(content);
    lemma_setting_line_lacks_newline(key, value);
    lemma_set_lines_lack_newline(ls, key, line);
    let ls2 = set_lines(ls, key, line);
    lemma_values_join(ls2, other);
    match first_setting(ls, key) {
        Some(i) => {
            lemma_first_setting_found(ls, key, i);
            assert(setting_value(ls[i], other) is None);
            assert forall|j: int| 0 <= j < ls2.len() implies setting_value(#[trigger] ls2[j], other)
                == setting_value(ls[j], other) by {
                if j != i {
                    assert(ls2[j] == ls[j]);
                }
            }
            lemma_values_pointwise(ls2, ls, other);
        },
        None => {
            assert(ls2.drop_last() =~= ls);
            assert(values_of_lines(ls2, other) =~= values_of_lines(ls, other) + Seq::<Seq<char>>::empty());
        },
    }
}

proof fn lemma_index_of_eq(t: Seq<char>, j: int, i: int)
    requires
        0 <= i <= j < t.len(),
        t[j] == '=',
        forall|m: int| 0 <= m < j ==> t[m] != '=',
    ensures
        index_of_from(t, '=', i) == j,
    decreases j - i,
{
    if i < j {
        lemma_index_of_eq(t, j, i + 1);
    }
}

/// The value of a `key=value` word whose key holds no `=`.
proof fn lemma_after_eq(k: Seq<char>, v: Seq<char>)
    requires
        lacks(k, '='),
    ensures
        after_eq(k + seq!['='] + v) == v,
{
    let t = k + seq!['='] + v;
    assert(t[k.len() as int] == '=');
    assert forall|m: int| 0 <= m < k.len() implies t[m] != '=' by {
        assert(t[m] == k[m]);
    }
    lemma_index_of_eq(t, k.len() as int, 0);
    assert(t.skip(k.len() as int + 1) =~= v);
}

proof fn lemma_no_ws_concat(a: Seq<char>, b: Seq<char>)
    requires
        no_ws(a),
        no_ws(b),
    ensures
        no_ws(a + b),
{
    assert forall|i: int| 0 <= i < (a + b).len() implies !is_ws(#[trigger] (a + b)[i]) by {
        if i < a.len() {
            assert((a + b)[i] == a[i]);
        } else {
            assert((a + b)[i] == b[i - a.len()]);
        }
    }
}

/// The `key=value` list written into a new payment node line.
pub open spec fn new_config_part(nt: NodeType, url: Seq<char>, pw: Seq<char>, set_default: bool) -> Seq<
    char,
> {
    "type="@ + node_type_name(nt) + " url="@ + url + " "@ + password_field_name(nt) + "="@ + pw + (
    if set_default {
        " default=true"@
    } else {
        seq![]
    })
}

/// The configuration a new payment node line stands for.
pub open spec fn written_config(nt: NodeType, url: Seq<char>, pw: Seq<char>, set_default: bool) -> LightningConfigView {
    LightningConfigView {
        node_type: node_type_name(nt),
        url: url,
        password: pw,
        is_default: set_default,
    }
}

/// The words of a new payment node line's `key=value` list.
pub open spec fn written_words(nt: NodeType, url: Seq<char>, pw: Seq<char>, set_default: bool) -> Seq<
    Seq<char>,
> {
    let w1 = seq!['t', 'y', 'p', 'e', '='] + node_type_name(nt);
    let w2 = seq!['u', 'r', 'l', '='] + url;
    let w3 = password_field_name(nt) + seq!['='] + pw;
    let w4 = seq!['d', 'e', 'f', 'a', 'u', 'l', 't', '=', 't', 'r', 'u', 'e'];
    if set_default {
        seq![w1, w2, w3, w4]
    } else {
        seq![w1, w2, w3]
    }
}

proof fn lemma_new_part_words(nt: NodeType, url: Seq<char>, pw: Seq<char>, set_default: bool)
    requires
        no_ws(url),
        no_ws(pw),
    ensures
        tokens(new_config_part(nt, url, pw, set_default)) == written_words(nt, url, pw, set_default),
{
    reveal_strlit("type=");
    reveal_strlit(" url=");
    reveal_strlit(" ");
    reveal_strlit("=");
    reveal_strlit(" default=true");
    let name = node_type_name(nt);
    let pf = password_field_name(nt);
    let w1 = seq!['t', 'y', 'p', 'e', '='] + name;
    let w2 = seq!['u', 'r', 'l', '='] + url;
    let w3 = pf + seq!['='] + pw;
    let w4 = seq!['d', 'e', 'f', 'a', 'u', 'l', 't', '=', 't', 'r', 'u', 'e'];
    let x = new_config_part(nt, url, pw, set_default);
    let base = w1 + seq![' '] + w2 + seq![' '] + w3;
    assert(no_ws(name));
    assert(no_ws(pf));
    assert(no_ws(seq!['t', 'y', 'p', 'e', '=']));
    assert(no_ws(seq!['u', 'r', 'l', '=']));
    assert(no_ws(seq!['=']));
    assert(no_ws(w4));
    lemma_no_ws_concat(seq!['t', 'y', 'p', 'e', '='], name);
    lemma_no_ws_concat(seq!['u', 'r', 'l', '='], url);
    lemma_no_ws_concat(pf, seq!['=']);
    lemma_no_ws_concat(pf + seq!['='], pw);
    lemma_tokens_word(w1);
    lemma_tokens_space_word(w1, w2);
    lemma_tokens_space_word(w1 + seq![' '] + w2, w3);
    assert(tokens(base) =~= seq![w1, w2, w3]);
    if set_default {
        assert(x =~= base + seq![' '] + w4);
        lemma_tokens_space_word(base, w4);
        assert(tokens(x) =~= seq![w1, w2, w3, w4]);
    } else {
        assert(x =~= base);
    }
}

proof fn lemma_first_from_step(ts: Seq<Seq<char>>, p: Seq<char>, i: int)
    requires
        0 <= i < ts.len(),
        !p.is_prefix_of(ts[i]),
    ensures
        first_from(ts, p, i) == first_from(ts, p, i + 1),
{
}

proof fn lemma_first_from_end(ts: Seq<Seq<char>>, p: Seq<char>)
    ensures
        first_from(ts, p, ts.len() as int) is None,
{
}

proof fn lemma_written_type_url(nt: NodeType, url: Seq<char>, pw: Seq<char>, set_default: bool)
    requires
        no_ws(url),
        no_ws(pw),
    ensures
        config_value(new_config_part(nt, url, pw, set_default), "type"@) == Some(node_type_name(nt)),
        config_value(new_config_part(nt, url, pw, set_default), "url"@) == Some(url),
{
    reveal_strlit("type");
    reveal_strlit("url");
    lemma_new_part_words(nt, url, pw, set_default);
    let ts = written_words(nt, url, pw, set_default);
    let name = node_type_name(nt);
    let w1 = seq!['t', 'y', 'p', 'e', '='] + name;
    let w2 = seq!['u', 'r', 'l', '='] + url;
    assert(ts[0] == w1 && ts[1] == w2);
    assert("type"@.push('=') =~= seq!['t', 'y', 'p', 'e', '=']);
    assert(seq!['t', 'y', 'p', 'e', '='].is_prefix_of(w1));
    assert(lacks(seq!['t', 'y', 'p', 'e'], '='));
    lemma_after_eq(seq!['t', 'y', 'p', 'e'], name);
    assert(w1 =~= seq!['t', 'y', 'p', 'e'] + seq!['='] + name);
    assert("url"@.push('=') =~= seq!['u', 'r', 'l', '=']);
    assert(!seq!['u', 'r', 'l', '='].is_prefix_of(w1));
    assert(seq!['u', 'r', 'l', '='].is_prefix_of(w2));
    lemma_first_from_step(ts, "url"@.push('='), 0);
    assert(lacks(seq!['u', 'r', 'l'], '='));
    lemma_after_eq(seq!['u', 'r', 'l'], url);
    assert(w2 =~= seq!['u', 'r', 'l'] + seq!['='] + url);
}

proof fn lemma_written_default(nt: NodeType, url: Seq<char>, pw: Seq<char>, set_default: bool)
    requires
        no_ws(url),
        no_ws(pw),
    ensures
        default_flag(new_config_part(nt, url, pw, set_default)) == set_default,
        set_default ==> config_value(new_config_part(nt, url, pw, set_default), "default"@) == Some("true"@),
{
    reveal_strlit("default");
    reveal_strlit("true");
    lemma_new_part_words(nt, url, pw, set_default);
    let ts = written_words(nt, url, pw, set_default);
    let dk = "default"@.push('=');
    assert(dk =~= seq!['d', 'e', 'f', 'a', 'u', 'l', 't', '=']);
    assert(!dk.is_prefix_of(ts[0]));
    assert(!dk.is_prefix_of(ts[1]));
    assert(ts[2][0] == password_field_name(nt)[0]);
    assert(!dk.is_prefix_of(ts[2]));
    lemma_first_from_step(ts, dk, 0);
    lemma_first_from_step(ts, dk, 1);
    lemma_first_from_step(ts, dk, 2);
    if set_default {
        let w4 = ts[3];
        assert(dk.is_prefix_of(w4));
        assert(lacks(seq!['d', 'e', 'f', 'a', 'u', 'l', 't'], '='));
        lemma_after_eq(seq!['d', 'e', 'f', 'a', 'u', 'l', 't'], "true"@);
        assert(w4 =~= seq!['d', 'e', 'f', 'a', 'u', 'l', 't'] + seq!['='] + "true"@);
        assert(ascii_lower("true"@) =~= "true"@);
    } else {
        lemma_first_from_end(ts, dk);
    }
}

proof fn lemma_written_credential(nt: NodeType, url: Seq<char>, pw: Seq<char>, set_default: bool)
    requires
        no_ws(url),
        no_ws(pw),
    ensures
        credential_value(new_config_part(nt, url, pw, set_default)) == Some(pw),
{
    reveal_strlit("password");
    reveal_strlit("rune");
    reveal_strlit("macaroon");
    lemma_new_part_words(nt, url, pw, set_default);
    let ts = written_words(nt, url, pw, set_default);
    let pf = password_field_name(nt);
    let pk = "password"@.push('=');
    let rk = "rune"@.push('=');
    let mk = "macaroon"@.push('=');
    assert(pk =~= seq!['p', 'a', 's', 's', 'w', 'o', 'r', 'd', '=']);
    assert(rk =~= seq!['r', 'u', 'n', 'e', '=']);
    assert(mk =~= seq!['m', 'a', 'c', 'a', 'r', 'o', 'o', 'n', '=']);
    assert(lacks(pf, '='));
    lemma_after_eq(pf, pw);
    assert(ts[2] =~= pf + seq!['='] + pw);
    assert(!pk.is_prefix_of(ts[0]) && !rk.is_prefix_of(ts[0]) && !mk.is_prefix_of(ts[0]));
    assert(!pk.is_prefix_of(ts[1]) && !rk.is_prefix_of(ts[1]) && !mk.is_prefix_of(ts[1]));
    lemma_first_from_step(ts, pk, 0);
    lemma_first_from_step(ts, pk, 1);
    lemma_first_from_step(ts, rk, 0);
    lemma_first_from_step(ts, rk, 1);
    lemma_first_from_step(ts, mk, 0);
    lemma_first_from_step(ts, mk, 1);
    if set_default {
        assert(!pk.is_prefix_of(ts[3]) && !rk.is_prefix_of(ts[3]) && !mk.is_prefix_of(ts[3]));
        lemma_first_from_step(ts, pk, 3);
        lemma_first_from_step(ts, rk, 3);
    }
    lemma_first_from_end(ts, pk);
    lemma_first_from_end(ts, rk);
    match nt {
        NodeType::Phoenixd => {
            assert(pk.is_prefix_of(ts[2]));
        },
        NodeType::Cln => {
            assert(!pk.is_prefix_of(ts[2]));
            lemma_first_from_step(ts, pk, 2);
            assert(rk.is_prefix_of(ts[2]));
        },
        NodeType::Lnd => {
            assert(!pk.is_prefix_of(ts[2]));
            assert(!rk.is_prefix_of(ts[2]));
            lemma_first_from_step(ts, pk, 2);
            lemma_first_from_step(ts, rk, 2);
            assert(mk.is_prefix_of(ts[2]));
        },
    }
}

proof fn lemma_new_part_parses(nt: NodeType, url: Seq<char>, pw: Seq<char>, set_default: bool)
    requires
        no_ws(url),
        no_ws(pw),
    ensures
        parse_config(new_config_part(nt, url, pw, set_default)) == Ok::<
            LightningConfigView,
            Seq<char>,
        >(written_config(nt, url, pw, set_default)),
{
    lemma_written_type_url(nt, url, pw, set_default);
    lemma_written_default(nt, url, pw, set_default);
    lemma_written_credential(nt, url, pw, set_default);
}

proof fn lemma_new_line_shape(nt: NodeType, url: Seq<char>, pw: Seq<char>, set_default: bool)
    requires
        no_ws(url),
        no_ws(pw),
    ensures
        new_config_line(nt, url, pw, set_default) == plnc() + seq![' '] + new_config_part(
            nt,
            url,
            pw,
            set_default,
        ),
        new_config_part(nt, url, pw, set_default).len() > 0,
        new_config_part(nt, url, pw, set_default)[0] == 't',
        !is_ws(new_config_part(nt, url, pw, set_default).last()),
        new_config_part(nt, url, pw, set_default).last() != '\r',
        lacks(new_config_line(nt, url, pw, set_default), '\n'),
        new_config_line(nt, url, pw, set_default).last() != '\r',
        plnc().len() == 26,
        plnc()[0] == 'P',
{
    reveal_strlit("PaymentLightningNodeConfig");
    reveal_strlit(" type=");
    reveal_strlit("type=");
    reveal_strlit(" url=");
    reveal_strlit(" ");
    reveal_strlit("=");
    reveal_strlit(" default=true");
    let x = new_config_part(nt, url, pw, set_default);
    let l = new_config_line(nt, url, pw, set_default);
    assert(" type="@ =~= seq![' '] + "type="@);
    assert(l =~= plnc() + seq![' '] + x);
    assert(x[0] == 't');
    if set_default {
        assert(x.last() == 'e');
    } else if pw.len() > 0 {
        assert(x.last() == pw[pw.len() - 1]);
        assert(!is_ws(pw[pw.len() - 1]));
    } else {
        assert(x.last() == '=');
    }
    assert forall|i: int| 0 <= i < l.len() implies l[i] != '\n' by {
        if i >= 27 {
            assert(l[i] == x[i - 27]);
            let k = i - 27;
            let n1 = 5 + node_type_name(nt).len();
            let n2 = n1 + 5 + url.len();
            let n3 = n2 + 1 + password_field_name(nt).len() + 1;
            let n4 = n3 + pw.len();
            if n1 + 5 <= k < n2 {
                assert(x[k] == url[k - n1 - 5]);
                assert(!is_ws(url[k - n1 - 5]));
            } else if n3 <= k < n4 {
                assert(x[k] == pw[k - n3]);
                assert(!is_ws(pw[k - n3]));
            }
        }
    }
}

proof fn lemma_new_line_config(nt: NodeType, url: Seq<char>, pw: Seq<char>, set_default: bool)
    requires
        no_ws(url),
        no_ws(pw),
    ensures
        line_config(new_config_line(nt, url, pw, set_default)) == Some(
            written_config(nt, url, pw, set_default),
        ),
        config_part(new_config_line(nt, url, pw, set_default)) == new_config_part(nt, url, pw, set_default),
        is_config_line(new_config_line(nt, url, pw, set_default)),
{
    lemma_new_line_shape(nt, url, pw, set_default);
    lemma_new_part_parses(nt, url, pw, set_default);
    let x = new_config_part(nt, url, pw, set_default);
    let l = new_config_line(nt, url, pw, set_default);
    let rest = seq![' '] + x;
    assert(l[0] == 'P');
    assert(l.last() == x.last());
    assert(trim(l) == l) by {
        assert(trim_start(l) == l);
        assert(trim_end(l) == l);
    }
    assert(!seq!['#'].is_prefix_of(l)) by {
        assert(l[0] != '#');
    }
    assert(plnc().is_prefix_of(l)) by {
        assert(l.subrange(0, 26) =~= plnc());
    }
    assert(l.skip(26) =~= rest);
    assert(!plnc().is_prefix_of(rest)) by {
        assert(rest[0] == ' ');
    }
    assert(strip_all_prefix(rest, plnc()) == rest);
    assert(l.skip(plnc().len() as int) == rest);
    assert(strip_all_prefix(l, plnc()) == strip_all_prefix(rest, plnc()));
    assert(trim_start(rest) == trim_start(x)) by {
        assert(rest.drop_first() =~= x);
    }
    assert(trim_start(x) == x);
    assert(trim_end(x) == x);
    assert(config_part(l) == x);
}

proof fn lemma_configs_contain(ls: Seq<Seq<char>>, k: int, c: LightningConfigView)
    requires
        0 <= k < ls.len(),
        line_config(ls[k]) == Some(c),
    ensures
        configs_of_lines(ls).contains(c),
    decreases ls.len(),
{
    if k == ls.len() - 1 {
        let prev = configs_of_lines(ls.drop_last());
        assert(configs_of_lines(ls) == prev + seq![c]);
        assert(configs_of_lines(ls)[prev.len() as int] == c);
    } else {
        lemma_configs_contain(ls.drop_last(), k, c);
        assert(ls.drop_last()[k] == ls[k]);
        let prev = configs_of_lines(ls.drop_last());
        let j = choose|j: int| 0 <= j < prev.len() && prev[j] == c;
        let tail = match line_config(ls.last()) {
            Some(d) => seq![d],
            None => seq![],
        };
        assert(configs_of_lines(ls) == prev + tail);
        assert(configs_of_lines(ls)[j] == c);
    }
}

/// Law: after an upsert, reading the configurations back finds exactly the one written
/// (its type name, url, credential, and default mark), provided the url and the
/// credential hold no whitespace, which would split them into several words.
pub proof fn law_upsert_then_read_back(
    content: Seq<char>,
    nt: NodeType,
    url: Seq<char>,
    pw: Seq<char>,
    set_default: bool,
)
    requires
        no_ws(url),
        no_ws(pw),
    ensures
        modify_spec(content, Operation::Upsert, nt, Some(url), Some(pw), set_default) is Ok,
        all_configs(
            modify_spec(content, Operation::Upsert, nt, Some(url), Some(pw), set_default)->Ok_0,
        ).contains(written_config(nt, url, pw, set_default)),
{
    let ls = lines(content);
    let line = new_config_line(nt, url, pw, set_default);
    lemma_new_line_shape(nt, url, pw, set_default);
    lemma_new_line_config(nt, url, pw, set_default);
    lemma_lines_lack_newline(content);
    lemma_selection_bounds(ls, nt, Some(url));
    let t = first_target(ls, nt, Some(url));
    let d = last_default(ls);
    let ls1 = if set_default && d is Some && d != t {
        ls.update(d.unwrap(), undefault(ls[d.unwrap()]))
    } else {
        ls
    };
    assert forall|i: int| 0 <= i < ls1.len() implies lacks(#[trigger] ls1[i], '\n') by {
        if set_default && d is Some && d != t && i == d.unwrap() {
            let l0 = ls[i];
            assert(lacks(l0, '\n'));
            assert(lacks(Seq::<char>::empty(), '\n'));
            lemma_replace_all_lacks(l0, " default=true"@, seq![], '\n');
            lemma_replace_all_lacks(replace_all(l0, " default=true"@, seq![]), "default=true "@, seq![], '\n');
            lemma_replace_all_lacks(
                replace_all(replace_all(l0, " default=true"@, seq![]), "default=true "@, seq![]),
                "default=true"@,
                seq![],
                '\n',
            );
        } else {
            assert(ls1[i] == ls[i]);
        }
    }
    let (ls2, k) = match t {
        Some(k) => (ls1.update(k, line), k),
        None => (ls1.push(line), ls1.len() as int),
    };
    assert(modified_lines(ls, Operation::Upsert, nt, Some(url), Some(pw), set_default) == Ok::<
        Seq<Seq<char>>,
        Seq<char>,
    >(ls2));
    assert(ls2[k] == line);
    assert forall|i: int| 0 <= i < ls2.len() implies lacks(#[trigger] ls2[i], '\n') by {
        if i != k {
            assert(ls2[i] == ls1[i]);
        }
    }
    lemma_lines_join(ls2);
    let new_lines = lines(join(ls2, seq!['\n']));
    if k < ls2.len() - 1 {
        assert(strip_cr(line) == line);
        assert(new_lines[k] == strip_cr(ls2[k]));
    } else {
        assert(line.len() > 0);
        assert(new_lines[k] == line);
    }
    lemma_configs_contain(new_lines, k, written_config(nt, url, pw, set_default));
}


/// The default marker written as the last word of a line.
pub open spec fn default_marker() -> Seq<char> {
    " default=true"@
}

/// Whether a line carries the default marker as its last word, and `default=true` nowhere
/// else (as the lines this library writes do).
pub open spec fn marked_default(l: Seq<char>) -> bool {
    &&& l.len() >= 13
    &&& l.skip(l.len() - 13) == default_marker()
    &&& !contains(l.take(l.len() - 13), "default=true"@)
}

proof fn lemma_first_from_found(ts: Seq<Seq<char>>, p: Seq<char>, i0: int, i: int)
    requires
        first_from(ts, p, i0) == Some(i),
    ensures
        i0 <= i < ts.len(),
        p.is_prefix_of(ts[i]),
    decreases ts.len() - i0,
{
    if !(i0 < 0 || i0 >= ts.len()) && !p.is_prefix_of(ts[i0]) {
        lemma_first_from_found(ts, p, i0 + 1, i);
    }
}

/// A line marked as the default holds the text `default=true`.
proof fn lemma_default_line_holds_marker(l: Seq<char>)
    requires
        is_default_line(l),
    ensures
        contains(l, "default=true"@),
{
    reveal_strlit("default");
    reveal_strlit("true");
    reveal_strlit("default=true");
    let part = config_part(l);
    let ts = tokens(part);
    let dk = "default"@.push('=');
    let i = first_from(ts, dk, 0)->Some_0;
    lemma_first_from_found(ts, dk, 0, i);
    let w = ts[i];
    assert(w.subrange(0, 8) =~= dk);
    assert forall|j: int| 0 <= j < 7 implies w[j] != '=' by {
        assert(w[j] == dk[j]);
    }
    lemma_index_of_from_bounds(w, '=', 0);
    let x = index_of_from(w, '=', 0);
    assert(w[7] == '=') by {
        assert(w[7] == dk[7]);
    }
    assert(x == 7);
    assert(after_eq(w) == "true"@);
    assert(w =~= "default=true"@) by {
        assert(w =~= w.take(8) + w.skip(8));
        assert(w.take(8) =~= dk);
    }
    lemma_tokens_occur(part);
    assert(contains(part, ts[i]));
    lemma_trim_occurs(strip_all_prefix(trim(l), plnc()), w);
    lemma_strip_prefix_occurs(trim(l), plnc(), w);
    lemma_trim_occurs(l, w);
}

/// Removing the markers from `x` followed by the marker word gives `x` back, when
/// `default=true` does not occur in `x`.
proof fn lemma_drop_marker(x: Seq<char>)
    requires
        !contains(x, "default=true"@),
    ensures
        replace_all(x + default_marker(), default_marker(), seq![]) == x,
    decreases x.len(),
{
    reveal_strlit(" default=true");
    reveal_strlit("default=true");
    let f = default_marker();
    let s = x + f;
    if x.len() == 0 {
        assert(s =~= f);
        assert(f.is_prefix_of(s)) by {
            assert(s.subrange(0, 13) =~= f);
        }
        assert(s.skip(13) =~= Seq::<char>::empty());
        assert(replace_all(Seq::<char>::empty(), f, seq![]) == Seq::<char>::empty());
        assert(replace_all(s, f, seq![]) == seq![] + replace_all(s.skip(13), f, seq![]));
        assert(Seq::<char>::empty() + Seq::<char>::empty() =~= x);
    } else {
        if f.is_prefix_of(s) {
            if x.len() >= 13 {
                assert(x.subrange(1, 13) =~= "default=true"@) by {
                    assert forall|j: int| 1 <= j < 13 implies x[j] == f[j] by {
                        assert(s.subrange(0, 13)[j] == s[j]);
                    }
                }
                assert(occurs_at(x, "default=true"@, 1));
            } else {
                let n = x.len() as int;
                assert(s[n] == ' ');
                assert(s.subrange(0, 13)[n] == s[n]);
                assert(f[n] != ' ');
            }
        }
        assert(!contains(x.drop_first(), "default=true"@)) by {
            if contains(x.drop_first(), "default=true"@) {
                let j = choose|j: int| occurs_at(x.drop_first(), "default=true"@, j);
                assert(x.drop_first() =~= x.skip(1));
                crate::text::lemma_occurs_in_suffix(x, 1, "default=true"@, j);
            }
        }
        assert(!f.is_prefix_of(s));
        lemma_drop_marker(x.drop_first());
        assert(s.drop_first() =~= x.drop_first() + f);
        assert(s[0] == x[0]);
        assert(replace_all(s, f, seq![]) == seq![s[0]] + replace_all(s.drop_first(), f, seq![]));
        assert(seq![x[0]] + x.drop_first() =~= x);
    }
}

/// A line that carries the default marker as its last word loses it, and with it the
/// default, when the marker is removed.
proof fn lemma_unmark(l: Seq<char>)
    requires
        marked_default(l),
    ensures
        undefault(l) == l.take(l.len() - 13),
        !is_default_line(undefault(l)),
{
    reveal_strlit(" default=true");
    reveal_strlit("default=true ");
    reveal_strlit("default=true");
    let x = l.take(l.len() - 13);
    assert(l =~= x + default_marker());
    lemma_drop_marker(x);
    assert("default=true"@.is_prefix_of("default=true "@)) by {
        assert("default=true "@.subrange(0, 12) =~= "default=true"@);
    }
    lemma_absent_longer(x, "default=true"@, "default=true "@);
    lemma_replace_absent(x, "default=true "@, seq![]);
    lemma_replace_absent(x, "default=true"@, seq![]);
    if is_default_line(x) {
        lemma_default_line_holds_marker(x);
    }
}

/// Whether a line reads as the default depends only on its trimmed text.
proof fn lemma_default_ignores_cr(l: Seq<char>)
    ensures
        is_default_line(strip_cr(l)) == is_default_line(l),
        line_type(strip_cr(l)) == line_type(l),
        config_part(strip_cr(l)) == config_part(l),
{
    lemma_trim_strip_cr(l);
}


proof fn lemma_last_default_exists(ls: Seq<Seq<char>>, i: int)
    requires
        0 <= i < ls.len(),
        is_default_line(ls[i]),
    ensures
        last_default(ls) is Some,
    decreases ls.len(),
{
    if !is_default_line(ls.last()) {
        assert(i < ls.len() - 1);
        assert(ls.drop_last()[i] == ls[i]);
        lemma_last_default_exists(ls.drop_last(), i);
    }
}

/// Law: making a node the default leaves exactly one default line, the one written for
/// it, whether the node's line is new or replaces an existing one and whichever line was
/// the default before. This holds for a file with at most one default line whose marker
/// is its last word ` default=true` (as the lines this library writes have it), and a url
/// and credential without whitespace. (A marker elsewhere, as in `default=default=truetrue`,
/// can survive the marker's removal.)
pub proof fn law_new_default_is_the_only_default(content: Seq<char>, nt: NodeType, url: Seq<char>, pw: Seq<char>)
    requires
        no_ws(url),
        no_ws(pw),
        forall|i: int, j: int|
            0 <= i < lines(content).len() && 0 <= j < lines(content).len() && #[trigger] is_default_line(
                lines(content)[i],
            ) && #[trigger] is_default_line(lines(content)[j]) ==> i == j,
        forall|i: int|
            0 <= i < lines(content).len() && #[trigger] is_default_line(lines(content)[i]) ==> marked_default(
                lines(content)[i],
            ),
    ensures
        modify_spec(content, Operation::Upsert, nt, Some(url), Some(pw), true) is Ok,
        forall|i: int, j: int|
            0 <= i < lines(modify_spec(content, Operation::Upsert, nt, Some(url), Some(pw), true)->Ok_0).len() && 0 <= j
                < lines(modify_spec(content, Operation::Upsert, nt, Some(url), Some(pw), true)->Ok_0).len()
                && #[trigger] is_default_line(
                lines(modify_spec(content, Operation::Upsert, nt, Some(url), Some(pw), true)->Ok_0)[i],
            ) && #[trigger] is_default_line(
                lines(modify_spec(content, Operation::Upsert, nt, Some(url), Some(pw), true)->Ok_0)[j],
            ) ==> i == j,
        exists|i: int|
            0 <= i < lines(modify_spec(content, Operation::Upsert, nt, Some(url), Some(pw), true)->Ok_0).len()
                && #[trigger] is_default_line(
                lines(modify_spec(content, Operation::Upsert, nt, Some(url), Some(pw), true)->Ok_0)[i],
            ) && line_type(lines(modify_spec(content, Operation::Upsert, nt, Some(url), Some(pw), true)->Ok_0)[i])
                == Some(nt) && config_value(
                config_part(lines(modify_spec(content, Operation::Upsert, nt, Some(url), Some(pw), true)->Ok_0)[i]),
                "url"@,
            ) == Some(url),
{
    let ls = lines(content);
    let line = new_config_line(nt, url, pw, true);
    lemma_new_line_shape(nt, url, pw, true);
    lemma_new_line_config(nt, url, pw, true);
    lemma_written_type_url(nt, url, pw, true);
    lemma_written_default(nt, url, pw, true);
    lemma_node_type_name(nt);
    reveal_strlit("type");
    assert(line_type(line) == Some(nt));
    assert(is_default_line(line));
    lemma_lines_lack_newline(content);
    lemma_selection_bounds(ls, nt, Some(url));
    let t = first_target(ls, nt, Some(url));
    let d = last_default(ls);
    let moved = d is Some && d != t;
    let ls1 = if moved {
        ls.update(d.unwrap(), undefault(ls[d.unwrap()]))
    } else {
        ls
    };
    if moved {
        lemma_unmark(ls[d.unwrap()]);
    }
    assert forall|i: int| 0 <= i < ls1.len() implies lacks(#[trigger] ls1[i], '\n') by {
        if moved && i == d.unwrap() {
            let l0 = ls[i];
            assert(lacks(l0, '\n'));
            assert(lacks(Seq::<char>::empty(), '\n'));
            lemma_replace_all_lacks(l0, " default=true"@, seq![], '\n');
            lemma_replace_all_lacks(replace_all(l0, " default=true"@, seq![]), "default=true "@, seq![], '\n');
            lemma_replace_all_lacks(
                replace_all(replace_all(l0, " default=true"@, seq![]), "default=true "@, seq![]),
                "default=true"@,
                seq![],
                '\n',
            );
        } else {
            assert(ls1[i] == ls[i]);
        }
    }
    let (ls2, k) = match t {
        Some(k) => (ls1.update(k, line), k),
        None => (ls1.push(line), ls1.len() as int),
    };
    assert(modified_lines(ls, Operation::Upsert, nt, Some(url), Some(pw), true) == Ok::<
        Seq<Seq<char>>,
        Seq<char>,
    >(ls2));
    assert(ls2[k] == line);
    assert forall|i: int| 0 <= i < ls2.len() implies lacks(#[trigger] ls2[i], '\n') by {
        if i != k {
            assert(ls2[i] == ls1[i]);
        }
    }
    assert forall|i: int| 0 <= i < ls2.len() && #[trigger] is_default_line(ls2[i]) implies i == k by {
        if i != k {
            assert(ls2[i] == ls1[i]);
            if moved && i == d.unwrap() {
                assert(ls1[i] == undefault(ls[i]));
            } else {
                assert(ls1[i] == ls[i]);
                lemma_last_default_exists(ls, i);
                assert(i == d.unwrap());
            }
        }
    }
    lemma_lines_join(ls2);
    let nl = lines(join(ls2, seq!['\n']));
    assert(modify_spec(content, Operation::Upsert, nt, Some(url), Some(pw), true) == Ok::<Seq<char>, Seq<char>>(
        join(ls2, seq!['\n']),
    ));
    assert forall|i: int| 0 <= i < nl.len() implies #[trigger] is_default_line(nl[i]) == is_default_line(ls2[i])
        && line_type(nl[i]) == line_type(ls2[i]) && config_part(nl[i]) == config_part(ls2[i]) by {
        if i < ls2.len() - 1 {
            assert(nl[i] == strip_cr(ls2[i]));
            lemma_default_ignores_cr(ls2[i]);
        } else {
            assert(nl[i] == ls2[i]);
        }
    }
    assert(k < nl.len()) by {
        if k == ls2.len() - 1 {
            assert(ls2.last().len() > 0);
        }
    }
    assert(is_default_line(nl[k]));
}

/// A node type's name reads back as that node type.
proof fn lemma_node_type_name(nt: NodeType)
    ensures
        node_type_of(node_type_name(nt)) == Some(nt),
{
    let n = node_type_name(nt);
    assert(ascii_lower(n) =~= n);
}

/// Law: a node type's name reads back as that node type, in any letter case (its name
/// in capitals too), and a text that is no node type's name in any letter case names
/// none (so `NodeType::from_str` answers "Unknown node type: " and the text).
pub proof fn law_node_type_names_read_back(t: NodeType, s: Seq<char>)
    ensures
        node_type_of(node_type_name(t)) == Some(t),
        node_type_of(ascii_upper(node_type_name(t))) == Some(t),
        ascii_lower(s) == node_type_name(t) ==> node_type_of(s) == Some(t),
        (forall|u: NodeType| ascii_lower(s) != #[trigger] node_type_name(u)) ==> node_type_of(s) is None,
{
    lemma_node_type_name(t);
    lemma_lower_upper_agree(node_type_name(t));
    assert(ascii_lower(node_type_name(t)) =~= node_type_name(t));
    if forall|u: NodeType| ascii_lower(s) != #[trigger] node_type_name(u) {
        assert(ascii_lower(s) != node_type_name(NodeType::Cln));
        assert(ascii_lower(s) != node_type_name(NodeType::Lnd));
        assert(ascii_lower(s) != node_type_name(NodeType::Phoenixd));
    }
}

/// Law: the configuration string written for a node type (`type=<name> url=<url>
/// <credential key>=<credential>`, with ` default=true` when it is the default) parses
/// back to that node type, url, credential and default flag, for a url and a credential
/// without whitespace (whitespace would split them into several words).
pub proof fn law_config_string_reads_back(nt: NodeType, url: Seq<char>, pw: Seq<char>, set_default: bool)
    requires
        no_ws(url),
        no_ws(pw),
    ensures
        parse_config(
            "type="@ + node_type_name(nt) + " url="@ + url + " "@ + password_field_name(nt) + "="@ + pw + (
            if set_default {
                " default=true"@
            } else {
                seq![]
            }),
        ) == Ok::<LightningConfigView, Seq<char>>(
            LightningConfigView { node_type: node_type_name(nt), url, password: pw, is_default: set_default },
        ),
{
    lemma_new_part_parses(nt, url, pw, set_default);
}

/// Law: deleting a configuration right after adding it restores the file. Adding a
/// configuration whose type and url no active line has yet (not as the default), then
/// deleting that type and url, gives back the lines of the file as they were, joined by
/// "\n". This needs a url and a credential without whitespace (whitespace would split
/// them into several words) and lines that do not end in a carriage return, which
/// reading back would drop.
pub proof fn law_upsert_then_delete_restores(content: Seq<char>, nt: NodeType, url: Seq<char>, pw: Seq<char>)
    requires
        no_ws(url),
        no_ws(pw),
        first_target(lines(content), nt, Some(url)) is None,
        forall|i: int| 0 <= i < lines(content).len() ==> strip_cr(#[trigger] lines(content)[i]) == lines(content)[i],
    ensures
        modify_spec(content, Operation::Upsert, nt, Some(url), Some(pw), false) is Ok,
        modify_spec(
            modify_spec(content, Operation::Upsert, nt, Some(url), Some(pw), false)->Ok_0,
            Operation::Delete,
            nt,
            Some(url),
            None,
            false,
        ) == Ok::<Seq<char>, Seq<char>>(join(lines(content), seq!['\n'])),
{
    let ls = lines(content);
    let line = new_config_line(nt, url, pw, false);
    lemma_new_line_shape(nt, url, pw, false);
    lemma_new_line_config(nt, url, pw, false);
    lemma_written_type_url(nt, url, pw, false);
    lemma_node_type_name(nt);
    assert(line_type(line) == Some(nt));
    assert(is_target(line, nt, Some(url)));
    let ls2 = ls.push(line);
    assert(modified_lines(ls, Operation::Upsert, nt, Some(url), Some(pw), false) == Ok::<
        Seq<Seq<char>>,
        Seq<char>,
    >(ls2));
    lemma_lines_lack_newline(content);
    assert forall|i: int| 0 <= i < ls2.len() implies lacks(#[trigger] ls2[i], '\n') by {
        if i < ls.len() {
            assert(ls2[i] == ls[i]);
        }
    }
    lemma_lines_join(ls2);
    let back = lines(join(ls2, seq!['\n']));
    assert(ls2.drop_last() =~= ls);
    assert(ls.map_values(|l: Seq<char>| strip_cr(l)) =~= ls);
    assert(line.len() > 0);
    assert(back =~= ls2);
    assert(last_target(back, nt, Some(url)) == Some(ls.len() as int));
    assert(ls2.remove(ls.len() as int) =~= ls);
}

/// The first target line is the first line that is a target.
proof fn lemma_first_target_char(ls: Seq<Seq<char>>, nt: NodeType, url: Option<Seq<char>>, k: int)
    requires
        0 <= k < ls.len(),
        is_target(ls[k], nt, url),
        forall|i: int| 0 <= i < k ==> !is_target(#[trigger] ls[i], nt, url),
    ensures
        first_target(ls, nt, url) == Some(k),
    decreases ls.len(),
{
    if k < ls.len() - 1 {
        lemma_first_target_char(ls.drop_last(), nt, url, k);
    } else {
        lemma_no_target(ls.drop_last(), nt, url);
    }
}

/// A list whose lines are no targets has no first target.
proof fn lemma_no_target(ls: Seq<Seq<char>>, nt: NodeType, url: Option<Seq<char>>)
    requires
        forall|i: int| 0 <= i < ls.len() ==> !is_target(#[trigger] ls[i], nt, url),
    ensures
        first_target(ls, nt, url) is None,
    decreases ls.len(),
{
    if ls.len() > 0 {
        lemma_no_target(ls.drop_last(), nt, url);
    }
}

/// The lines before the first target are no targets.
proof fn lemma_before_first_target(ls: Seq<Seq<char>>, nt: NodeType, url: Option<Seq<char>>)
    ensures
        first_target(ls, nt, url) matches Some(k) ==> forall|i: int| 0 <= i < k ==> !is_target(#[trigger] ls[i], nt, url),
        first_target(ls, nt, url) is None ==> forall|i: int| 0 <= i < ls.len() ==> !is_target(#[trigger] ls[i], nt, url),
    decreases ls.len(),
{
    if ls.len() > 0 {
        let p = ls.drop_last();
        lemma_before_first_target(p, nt, url);
        lemma_selection_bounds(p, nt, url);
        match first_target(p, nt, url) {
            Some(k) => {
                assert forall|i: int| 0 <= i < k implies !is_target(#[trigger] ls[i], nt, url) by {
                    assert(ls[i] == p[i]);
                }
            },
            None => {
                assert forall|i: int| 0 <= i < ls.len() - 1 implies !is_target(#[trigger] ls[i], nt, url) by {
                    assert(ls[i] == p[i]);
                }
            },
        }
    }
}

/// Law: upserting the same configuration twice (not as the default) leaves the file as
/// the first upsert wrote it. This needs a url and a credential without whitespace, lines
/// that do not end in a carriage return, and a last line that is not empty; reading the
/// written text back would change those lines.
pub proof fn law_upsert_is_idempotent(content: Seq<char>, nt: NodeType, url: Seq<char>, pw: Seq<char>)
    requires
        no_ws(url),
        no_ws(pw),
        forall|i: int| 0 <= i < lines(content).len() ==> strip_cr(#[trigger] lines(content)[i]) == lines(content)[i],
        lines(content).len() > 0 ==> lines(content).last().len() > 0,
    ensures
        modify_spec(content, Operation::Upsert, nt, Some(url), Some(pw), false) is Ok,
        modify_spec(
            modify_spec(content, Operation::Upsert, nt, Some(url), Some(pw), false)->Ok_0,
            Operation::Upsert,
            nt,
            Some(url),
            Some(pw),
            false,
        ) == modify_spec(content, Operation::Upsert, nt, Some(url), Some(pw), false),
{
    let ls = lines(content);
    let line = new_config_line(nt, url, pw, false);
    lemma_new_line_shape(nt, url, pw, false);
    lemma_new_line_config(nt, url, pw, false);
    lemma_written_type_url(nt, url, pw, false);
    lemma_node_type_name(nt);
    assert(line_type(line) == Some(nt));
    assert(is_target(line, nt, Some(url)));
    lemma_selection_bounds(ls, nt, Some(url));
    lemma_before_first_target(ls, nt, Some(url));
    let t = first_target(ls, nt, Some(url));
    let ls1 = match t {
        Some(k) => ls.update(k, line),
        None => ls.push(line),
    };
    assert(modified_lines(ls, Operation::Upsert, nt, Some(url), Some(pw), false) == Ok::<
        Seq<Seq<char>>,
        Seq<char>,
    >(ls1));
    let r1 = join(ls1, seq!['\n']);
    lemma_lines_lack_newline(content);
    assert forall|i: int| 0 <= i < ls1.len() implies lacks(#[trigger] ls1[i], '\n') by {
        if t matches Some(k) && i == k {
        } else if i < ls.len() {
            assert(ls1[i] == ls[i]);
        }
    }
    assert forall|i: int| 0 <= i < ls1.len() implies strip_cr(#[trigger] ls1[i]) == ls1[i] by {
        if t matches Some(k) && i == k {
        } else if i < ls.len() {
            assert(ls1[i] == ls[i]);
        }
    }
    lemma_lines_join(ls1);
    assert(ls1.drop_last().map_values(|l: Seq<char>| strip_cr(l)) =~= ls1.drop_last());
    assert(ls1.last().len() > 0) by {
        match t {
            Some(k) => {
                if k != ls1.len() - 1 {
                    assert(ls1.last() == ls.last());
                }
            },
            None => {},
        }
    }
    let back = lines(r1);
    assert(back =~= ls1);
    match t {
        Some(k) => {
            assert forall|i: int| 0 <= i < k implies !is_target(#[trigger] ls1[i], nt, Some(url)) by {
                assert(ls1[i] == ls[i]);
            }
            lemma_first_target_char(ls1, nt, Some(url), k);
            assert(ls1.update(k, line) =~= ls1);
        },
        None => {
            assert forall|i: int| 0 <= i < ls.len() implies !is_target(#[trigger] ls1[i], nt, Some(url)) by {
                assert(ls1[i] == ls[i]);
            }
            lemma_first_target_char(ls1, nt, Some(url), ls.len() as int);
            assert(ls1.update(ls.len() as int, line) =~= ls1);
        },
    }
}

} // verus!
