//! Character-level text handling with exact specifications.

use vstd::prelude::*;

verus! {

/// The `char::is_whitespace` set: the Unicode `White_Space` property.
pub open spec fn is_ws(c: char) -> bool {
    ||| ('\u{9}' <= c && c <= '\u{d}')
    ||| c == ' '
    ||| c == '\u{85}'
    ||| c == '\u{a0}'
    ||| c == '\u{1680}'
    ||| ('\u{2000}' <= c && c <= '\u{200a}')
    ||| c == '\u{2028}'
    ||| c == '\u{2029}'
    ||| c == '\u{202f}'
    ||| c == '\u{205f}'
    ||| c == '\u{3000}'
}

/// Whether `c` is a whitespace character.
pub fn is_whitespace(c: char) -> (r: bool)
    ensures
        r == is_ws(c),
{
    ('\u{9}' <= c && c <= '\u{d}') || c == ' ' || c == '\u{85}' || c == '\u{a0}' || c == '\u{1680}'
        || ('\u{2000}' <= c && c <= '\u{200a}') || c == '\u{2028}' || c == '\u{2029}' || c
        == '\u{202f}' || c == '\u{205f}' || c == '\u{3000}'
}

/// The characters of a string slice.
pub fn chars_of(s: &str) -> (r: Vec<char>)
    ensures
        r@ == s@,
{
    let mut out: Vec<char> = Vec::new();
    for c in it: s.chars()
        invariant
            out@ == it.seq().take(it.index()),
    {
        out.push(c);
    }
    out
}

/// `String::push` appends one character.
pub assume_specification[ String::push ](s: &mut String, ch: char)
    ensures
        final(s)@ == old(s)@.push(ch),
;

/// A string holding exactly the given characters.
pub fn string_of(v: &[char]) -> (r: String)
    ensures
        r@ == v@,
{
    let mut out = String::new();
    let mut i: usize = 0;
    while i < v.len()
        invariant
            i <= v.len(),
            out@ == v@.take(i as int),
        decreases v.len() - i,
    {
        out.push(v[i]);
        i = i + 1;
        assert(out@ =~= v@.take(i as int));
    }
    assert(v@.take(v.len() as int) =~= v@);
    out
}

/// The characters of `s` from `a` up to `b`.
pub fn copy_range(s: &[char], a: usize, b: usize) -> (r: Vec<char>)
    requires
        a <= b <= s.len(),
    ensures
        r@ == s@.subrange(a as int, b as int),
{
    let mut out: Vec<char> = Vec::new();
    let mut i = a;
    while i < b
        invariant
            a <= i <= b <= s.len(),
            out@ == s@.subrange(a as int, i as int),
        decreases b - i,
    {
        out.push(s[i]);
        i = i + 1;
        assert(out@ =~= s@.subrange(a as int, i as int));
    }
    out
}

/// `s` without its leading whitespace.
pub open spec fn trim_start(s: Seq<char>) -> Seq<char>
    decreases s.len(),
{
    if s.len() > 0 && is_ws(s[0]) {
        trim_start(s.drop_first())
    } else {
        s
    }
}

/// `s` without its trailing whitespace.
pub open spec fn trim_end(s: Seq<char>) -> Seq<char>
    decreases s.len(),
{
    if s.len() > 0 && is_ws(s.last()) {
        trim_end(s.drop_last())
    } else {
        s
    }
}

/// `str::trim`: `s` without leading and trailing whitespace.
pub open spec fn trim(s: Seq<char>) -> Seq<char> {
    trim_end(trim_start(s))
}

/// The bounds of the trimmed part of `s`.
pub fn trim_bounds(s: &[char]) -> (r: (usize, usize))
    ensures
        r.0 <= r.1 <= s.len(),
        s@.subrange(r.0 as int, r.1 as int) == trim(s@),
{
    let mut a: usize = 0;
    assert(s@.subrange(0, s.len() as int) =~= s@);
    while a < s.len() && is_whitespace(s[a])
        invariant
            a <= s.len(),
            trim_start(s@) == trim_start(s@.subrange(a as int, s.len() as int)),
        decreases s.len() - a,
    {
        assert(s@.subrange(a as int, s.len() as int).drop_first() =~= s@.subrange(
            a + 1,
            s.len() as int,
        ));
        a = a + 1;
    }
    let ghost ts = s@.subrange(a as int, s.len() as int);
    assert(trim_start(s@) == ts);
    let mut b: usize = s.len();
    while b > a && is_whitespace(s[b - 1])
        invariant
            a <= b <= s.len(),
            ts == s@.subrange(a as int, s.len() as int),
            trim_end(ts) == trim_end(s@.subrange(a as int, b as int)),
        decreases b,
    {
        assert(s@.subrange(a as int, b as int).drop_last() =~= s@.subrange(a as int, b - 1));
        b = b - 1;
    }
    (a, b)
}

/// `str::trim` on a character vector.
pub fn trim_chars(s: &[char]) -> (r: Vec<char>)
    ensures
        r@ == trim(s@),
{
    let (a, b) = trim_bounds(s);
    copy_range(s, a, b)
}

/// The character sequences held by a vector of character vectors.
pub open spec fn views(v: Seq<Vec<char>>) -> Seq<Seq<char>> {
    v.map_values(|x: Vec<char>| x@)
}

/// `str::split_whitespace`: the maximal runs of non-whitespace characters.
pub open spec fn tokens(s: Seq<char>) -> Seq<Seq<char>>
    decreases s.len(),
{
    if s.len() == 0 {
        seq![]
    } else {
        let t = tokens(s.drop_last());
        let c = s.last();
        if is_ws(c) {
            t
        } else if s.len() >= 2 && !is_ws(s[s.len() - 2]) {
            t.update(t.len() - 1, t.last().push(c))
        } else {
            t.push(seq![c])
        }
    }
}

proof fn lemma_views_push(v: Seq<Vec<char>>, x: Vec<char>)
    ensures
        views(v.push(x)) == views(v).push(x@),
{
    assert(views(v.push(x)) =~= views(v).push(x@));
}

/// The whitespace-separated words of `s`.
pub fn tokens_of(s: &[char]) -> (r: Vec<Vec<char>>)
    ensures
        views(r@) == tokens(s@),
{
    let mut out: Vec<Vec<char>> = Vec::new();
    let mut cur: Vec<char> = Vec::new();
    let n = s.len();
    let mut i: usize = 0;
    while i < n
        invariant
            n == s.len(),
            i <= n,
            tokens(s@.take(i as int)) == views(out@) + (if cur.len() > 0 {
                seq![cur@]
            } else {
                seq![]
            }),
            cur.len() > 0 <==> (i > 0 && !is_ws(s@[i - 1])),
        decreases n - i,
    {
        let c = s[i];
        let ghost pre = s@.take(i as int);
        let ghost t = tokens(pre);
        assert(s@.take(i + 1).drop_last() =~= pre);
        assert(s@.take(i + 1).last() == c);
        if is_whitespace(c) {
            if cur.len() > 0 {
                proof {
                    lemma_views_push(out@, cur);
                }
                out.push(cur);
                cur = Vec::new();
                assert(tokens(s@.take(i + 1)) =~= views(out@));
            } else {
                assert(tokens(s@.take(i + 1)) =~= views(out@));
            }
        } else {
            if cur.len() > 0 {
                assert(s@.take(i + 1)[i - 1] == s@[i - 1]);
                cur.push(c);
                assert(tokens(s@.take(i + 1)) =~= views(out@) + seq![cur@]);
            } else {
                cur.push(c);
                assert(cur@ =~= seq![c]);
                assert(tokens(s@.take(i + 1)) =~= views(out@) + seq![cur@]);
            }
        }
        i = i + 1;
    }
    assert(s@.take(n as int) =~= s@);
    if cur.len() > 0 {
        proof {
            lemma_views_push(out@, cur);
        }
        out.push(cur);
    } else {
        assert(views(out@) + seq![] =~= views(out@));
    }
    out
}

/// The pieces of `s` between its newline characters (always at least one).
pub open spec fn pieces(s: Seq<char>) -> Seq<Seq<char>>
    decreases s.len(),
{
    if s.len() == 0 {
        seq![seq![]]
    } else {
        let p = pieces(s.drop_last());
        if s.last() == '\n' {
            p.push(seq![])
        } else {
            p.update(p.len() - 1, p.last().push(s.last()))
        }
    }
}

/// A line that ended in "\r\n" loses its carriage return.
pub open spec fn strip_cr(l: Seq<char>) -> Seq<char> {
    if l.len() > 0 && l.last() == '\r' {
        l.drop_last()
    } else {
        l
    }
}

/// `str::lines`: lines end at "\n" or "\r\n"; a final empty line is not reported.
pub open spec fn lines(s: Seq<char>) -> Seq<Seq<char>> {
    let p = pieces(s);
    p.drop_last().map_values(|l: Seq<char>| strip_cr(l)) + (if p.last().len() == 0 {
        seq![]
    } else {
        seq![p.last()]
    })
}

pub proof fn lemma_pieces_nonempty(s: Seq<char>)
    ensures
        pieces(s).len() >= 1,
    decreases s.len(),
{
    if s.len() > 0 {
        lemma_pieces_nonempty(s.drop_last());
    }
}

/// The lines of `s`.
pub fn lines_of(s: &[char]) -> (r: Vec<Vec<char>>)
    ensures
        views(r@) == lines(s@),
{
    let mut done: Vec<Vec<char>> = Vec::new();
    let mut cur: Vec<char> = Vec::new();
    let n = s.len();
    let mut i: usize = 0;
    assert(s@.take(0) =~= Seq::<char>::empty());
    assert(views(done@) =~= pieces(s@.take(0)).drop_last().map_values(|l: Seq<char>| strip_cr(l)));
    while i < n
        invariant
            n == s.len(),
            i <= n,
            pieces(s@.take(i as int)).len() >= 1,
            views(done@) == pieces(s@.take(i as int)).drop_last().map_values(
                |l: Seq<char>| strip_cr(l),
            ),
            pieces(s@.take(i as int)).last() == cur@,
        decreases n - i,
    {
        let c = s[i];
        let ghost p = pieces(s@.take(i as int));
        assert(s@.take(i + 1).drop_last() =~= s@.take(i as int));
        assert(s@.take(i + 1).last() == c);
        if c == '\n' {
            let stripped = if cur.len() > 0 && cur[cur.len() - 1] == '\r' {
                copy_range(cur.as_slice(), 0, cur.len() - 1)
            } else {
                copy_range(cur.as_slice(), 0, cur.len())
            };
            assert(cur@.subrange(0, cur.len() as int) =~= cur@);
            assert(cur@.subrange(0, cur.len() - 1) =~= cur@.drop_last());
            assert(stripped@ == strip_cr(cur@));
            proof {
                lemma_views_push(done@, stripped);
            }
            done.push(stripped);
            cur = Vec::new();
            assert(pieces(s@.take(i + 1)) == p.push(seq![]));
            assert(p.push(seq![]).drop_last() =~= p);
            assert(p =~= p.drop_last().push(p.last()));
            assert(views(done@) =~= pieces(s@.take(i + 1)).drop_last().map_values(
                |l: Seq<char>| strip_cr(l),
            ));
            assert(pieces(s@.take(i + 1)).last() =~= cur@);
        } else {
            cur.push(c);
            assert(pieces(s@.take(i + 1)) == p.update(p.len() - 1, p.last().push(c)));
            assert(p.update(p.len() - 1, p.last().push(c)).drop_last() =~= p.drop_last());
        }
        i = i + 1;
    }
    assert(s@.take(n as int) =~= s@);
    if cur.len() > 0 {
        proof {
            lemma_views_push(done@, cur);
        }
        done.push(cur);
        assert(views(done@) =~= lines(s@));
    } else {
        assert(views(done@) =~= lines(s@));
    }
    done
}

/// `[T]::join`: the elements of `ls` with `sep` between neighbours.
pub open spec fn join(ls: Seq<Seq<char>>, sep: Seq<char>) -> Seq<char>
    decreases ls.len(),
{
    if ls.len() == 0 {
        seq![]
    } else if ls.len() == 1 {
        ls[0]
    } else {
        join(ls.drop_last(), sep) + sep + ls.last()
    }
}

/// The lines `ls` joined by `sep`.
pub fn join_with(ls: &Vec<Vec<char>>, sep: &[char]) -> (r: Vec<char>)
    ensures
        r@ == join(views(ls@), sep@),
{
    let mut out: Vec<char> = Vec::new();
    let mut i: usize = 0;
    while i < ls.len()
        invariant
            i <= ls.len(),
            out@ == join(views(ls@).take(i as int), sep@),
        decreases ls.len() - i,
    {
        let ghost before = out@;
        if i > 0 {
            let mut j: usize = 0;
            while j < sep.len()
                invariant
                    j <= sep.len(),
                    out@ == before + sep@.take(j as int),
                decreases sep.len() - j,
            {
                out.push(sep[j]);
                j = j + 1;
                assert(out@ =~= before + sep@.take(j as int));
            }
            assert(sep@.take(sep.len() as int) =~= sep@);
        }
        let ghost mid = out@;
        let line = &ls[i];
        let mut k: usize = 0;
        while k < line.len()
            invariant
                k <= line.len(),
                out@ == mid + line@.take(k as int),
            decreases line.len() - k,
        {
            out.push(line[k]);
            k = k + 1;
            assert(out@ =~= mid + line@.take(k as int));
        }
        assert(line@.take(line.len() as int) =~= line@);
        let ghost vs = views(ls@);
        assert(vs.take(i + 1).drop_last() =~= vs.take(i as int));
        assert(vs.take(i + 1).last() == line@);
        if i == 0 {
            assert(vs.take(1) =~= seq![line@]);
            assert(out@ =~= line@);
        } else {
            assert(out@ =~= join(vs.take(i as int), sep@) + sep@ + line@);
        }
        i = i + 1;
    }
    assert(views(ls@).take(ls.len() as int) =~= views(ls@));
    out
}

/// Whether `p` is a prefix of `s`.
pub fn has_prefix(s: &[char], p: &[char]) -> (r: bool)
    ensures
        r == p@.is_prefix_of(s@),
{
    if p.len() > s.len() {
        return false;
    }
    let mut i: usize = 0;
    while i < p.len()
        invariant
            p.len() <= s.len(),
            i <= p.len(),
            forall|j: int| 0 <= j < i ==> p@[j] == s@[j],
        decreases p.len() - i,
    {
        if p[i] != s[i] {
            return false;
        }
        i = i + 1;
    }
    assert(p@ =~= s@.subrange(0, p.len() as int));
    true
}

/// Whether `p` is a suffix of `s`.
pub fn has_suffix(s: &[char], p: &[char]) -> (r: bool)
    ensures
        r == p@.is_suffix_of(s@),
{
    if p.len() > s.len() {
        return false;
    }
    let off = s.len() - p.len();
    let mut i: usize = 0;
    while i < p.len()
        invariant
            p.len() <= s.len(),
            off == s.len() - p.len(),
            i <= p.len(),
            forall|j: int| 0 <= j < i ==> p@[j] == s@[off + j],
        decreases p.len() - i,
    {
        if p[i] != s[off + i] {
            assert(s@.subrange(off as int, s.len() as int)[i as int] == s@[off + i]);
            return false;
        }
        i = i + 1;
    }
    assert(p@ =~= s@.subrange(off as int, s.len() as int));
    true
}

/// `str::trim_start_matches` with a string pattern: every leading copy of `p` removed.
pub open spec fn strip_all_prefix(s: Seq<char>, p: Seq<char>) -> Seq<char>
    decreases s.len(),
{
    if p.len() > 0 && p.is_prefix_of(s) {
        strip_all_prefix(s.skip(p.len() as int), p)
    } else {
        s
    }
}

/// `s` without any number of leading copies of the non-empty pattern `p`.
pub fn trim_start_matches(s: &[char], p: &[char]) -> (r: Vec<char>)
    requires
        p.len() > 0,
    ensures
        r@ == strip_all_prefix(s@, p@),
{
    let mut a: usize = 0;
    assert(s@.skip(0) =~= s@);
    loop
        invariant
            p.len() > 0,
            a <= s.len(),
            strip_all_prefix(s@, p@) == strip_all_prefix(s@.skip(a as int), p@),
        decreases s.len() - a,
    {
        let rest = copy_range(s, a, s.len());
        assert(rest@ =~= s@.skip(a as int));
        if has_prefix(rest.as_slice(), p) {
            assert(rest@.skip(p.len() as int) =~= s@.skip(a + p.len()));
            a = a + p.len();
        } else {
            return rest;
        }
    }
}

/// `s` with the prefix `p` removed, when it has it.
pub open spec fn strip_prefix(s: Seq<char>, p: Seq<char>) -> Option<Seq<char>> {
    if p.is_prefix_of(s) {
        Some(s.skip(p.len() as int))
    } else {
        None
    }
}

/// `str::replace`: every non-overlapping occurrence of the non-empty `from`, scanned from
/// the left, replaced by `to`.
pub open spec fn replace_all(s: Seq<char>, from: Seq<char>, to: Seq<char>) -> Seq<char>
    decreases s.len(),
{
    if s.len() == 0 || from.len() == 0 {
        s
    } else if from.is_prefix_of(s) {
        to + replace_all(s.skip(from.len() as int), from, to)
    } else {
        seq![s[0]] + replace_all(s.drop_first(), from, to)
    }
}

/// Every occurrence of `from` in `s` replaced by `to`.
pub fn replace_chars(s: &[char], from: &[char], to: &[char]) -> (r: Vec<char>)
    requires
        from.len() > 0,
    ensures
        r@ == replace_all(s@, from@, to@),
{
    let mut out: Vec<char> = Vec::new();
    let mut a: usize = 0;
    assert(s@.skip(0) =~= s@);
    while a < s.len()
        invariant
            from.len() > 0,
            a <= s.len(),
            out@ + replace_all(s@.skip(a as int), from@, to@) == replace_all(s@, from@, to@),
        decreases s.len() - a,
    {
        let rest = copy_range(s, a, s.len());
        assert(rest@ =~= s@.skip(a as int));
        if has_prefix(rest.as_slice(), from) {
            let ghost before = out@;
            let mut k: usize = 0;
            while k < to.len()
                invariant
                    k <= to.len(),
                    out@ == before + to@.take(k as int),
                decreases to.len() - k,
            {
                out.push(to[k]);
                k = k + 1;
                assert(out@ =~= before + to@.take(k as int));
            }
            assert(to@.take(to.len() as int) =~= to@);
            assert(rest@.skip(from.len() as int) =~= s@.skip(a + from.len()));
            assert(out@ + replace_all(s@.skip(a + from.len()), from@, to@) =~= before + (to@
                + replace_all(s@.skip(a + from.len()), from@, to@)));
            a = a + from.len();
        } else {
            let ghost before = out@;
            out.push(s[a]);
            assert(rest@.drop_first() =~= s@.skip(a + 1));
            assert(out@ + replace_all(s@.skip(a + 1), from@, to@) =~= before + (seq![s@[a as int]]
                + replace_all(s@.skip(a + 1), from@, to@)));
            a = a + 1;
        }
    }
    assert(s@.skip(a as int) =~= Seq::<char>::empty());
    assert(out@ + Seq::<char>::empty() =~= out@);
    out
}

/// Whether `p` occurs in `s` starting at position `i`.
pub open spec fn occurs_at(s: Seq<char>, p: Seq<char>, i: int) -> bool {
    0 <= i && i + p.len() <= s.len() && s.subrange(i, i + p.len()) == p
}

/// `str::contains` with a string pattern.
pub open spec fn contains(s: Seq<char>, p: Seq<char>) -> bool {
    exists|i: int| occurs_at(s, p, i)
}

/// `str::find` with a string pattern: the first position where `p` occurs.
pub fn find_chars(s: &[char], p: &[char]) -> (r: Option<usize>)
    ensures
        r matches Some(i) ==> occurs_at(s@, p@, i as int) && forall|j: int|
            0 <= j < i ==> !occurs_at(s@, p@, j),
        r is None ==> !contains(s@, p@),
{
    if p.len() > s.len() {
        return None;
    }
    let last = s.len() - p.len();
    let mut i: usize = 0;
    while i <= last
        invariant
            last == s.len() - p.len(),
            p.len() <= s.len(),
            forall|j: int| 0 <= j < i ==> !occurs_at(s@, p@, j),
        decreases last + 1 - i,
    {
        let rest = copy_range(s, i, s.len());
        if has_prefix(rest.as_slice(), p) {
            assert(rest@.subrange(0, p.len() as int) =~= s@.subrange(i as int, i + p.len()));
            return Some(i);
        }
        assert(rest@.subrange(0, p.len() as int) =~= s@.subrange(i as int, i + p.len()));
        i = i + 1;
    }
    None
}

/// Whether `p` occurs in `s`.
pub fn contains_chars(s: &[char], p: &[char]) -> (r: bool)
    ensures
        r == contains(s@, p@),
{
    match find_chars(s, p) {
        Some(_) => true,
        None => false,
    }
}

/// The decimal digit character for `d < 10`.
pub open spec fn digit(d: int) -> char {
    if d == 0 {
        '0'
    } else if d == 1 {
        '1'
    } else if d == 2 {
        '2'
    } else if d == 3 {
        '3'
    } else if d == 4 {
        '4'
    } else if d == 5 {
        '5'
    } else if d == 6 {
        '6'
    } else if d == 7 {
        '7'
    } else if d == 8 {
        '8'
    } else {
        '9'
    }
}

/// The decimal text of `n` (the `Display` form of an unsigned integer).
pub open spec fn decimal(n: nat) -> Seq<char>
    decreases n,
{
    if n < 10 {
        seq![digit(n as int)]
    } else {
        decimal(n / 10).push(digit((n % 10) as int))
    }
}

fn digit_char(d: u64) -> (r: char)
    requires
        d < 10,
    ensures
        r == digit(d as int),
{
    if d == 0 {
        '0'
    } else if d == 1 {
        '1'
    } else if d == 2 {
        '2'
    } else if d == 3 {
        '3'
    } else if d == 4 {
        '4'
    } else if d == 5 {
        '5'
    } else if d == 6 {
        '6'
    } else if d == 7 {
        '7'
    } else if d == 8 {
        '8'
    } else {
        '9'
    }
}

/// The decimal text of a number is non-empty, made of digits, and reads back as it.
pub proof fn lemma_decimal_reads_back(n: nat)
    ensures
        decimal(n).len() > 0,
        all_digits(decimal(n)),
        digits_value(decimal(n)) == n,
    decreases n,
{
    if n < 10 {
        let s = decimal(n);
        assert(s.drop_last() =~= Seq::<char>::empty());
        assert(s.last() == digit(n as int));
        assert(digits_value(s.drop_last()) == 0);
        assert(digit_value(digit(n as int)) == n);
        assert(digits_value(s) == n);
    } else {
        lemma_decimal_reads_back(n / 10);
        let s = decimal(n);
        assert(s.drop_last() =~= decimal(n / 10));
        let d = (n % 10) as int;
        assert(digit_value(digit(d)) == d);
        assert(is_digit(digit(d)));
        assert forall|i: int| 0 <= i < s.len() implies is_digit(#[trigger] s[i]) by {
            if i < s.len() - 1 {
                assert(s[i] == decimal(n / 10)[i]);
            }
        }
        assert(s.last() == digit(d));
        vstd::arithmetic::div_mod::lemma_fundamental_div_mod(n as int, 10);
        let q = (n / 10) as int;
        assert(q * 10 == 10 * q) by (nonlinear_arith);
        assert(digits_value(s) == digits_value(decimal(n / 10)) * 10 + d);
        assert(digits_value(s) == n);
    }
}

/// Reading the decimal text of a number no larger than `max` gives the number back.
pub proof fn lemma_parse_decimal(n: nat, max: nat)
    requires
        n <= max,
    ensures
        parse_unsigned(decimal(n), max) == Some(n),
        trim(decimal(n)) == decimal(n),
{
    lemma_decimal_reads_back(n);
    let s = decimal(n);
    assert(is_digit(s[0]));
    assert(is_digit(s.last()));
    lemma_trim_fixed(s);
}

/// The decimal digits of `n`.
pub fn decimal_chars(n: u64) -> (r: Vec<char>)
    ensures
        r@ == decimal(n as nat),
    decreases n,
{
    if n < 10 {
        let mut v: Vec<char> = Vec::new();
        v.push(digit_char(n));
        assert(v@ =~= seq![digit(n as int)]);
        v
    } else {
        let mut v = decimal_chars(n / 10);
        v.push(digit_char(n % 10));
        v
    }
}

/// The decimal text of `n`.
pub fn decimal_string(n: u64) -> (r: String)
    ensures
        r@ == decimal(n as nat),
{
    let v = decimal_chars(n);
    string_of(v.as_slice())
}

/// Whether `c` is an ASCII decimal digit.
pub open spec fn is_digit(c: char) -> bool {
    '0' <= c && c <= '9'
}

/// The value of the ASCII digit `c`.
pub open spec fn digit_value(c: char) -> int {
    c as int - '0' as int
}

/// The value of a string of decimal digits.
pub open spec fn digits_value(s: Seq<char>) -> nat
    decreases s.len(),
{
    if s.len() == 0 {
        0
    } else {
        (digits_value(s.drop_last()) * 10 + digit_value(s.last())) as nat
    }
}

/// All characters are ASCII digits.
pub open spec fn all_digits(s: Seq<char>) -> bool {
    forall|i: int| 0 <= i < s.len() ==> is_digit(#[trigger] s[i])
}

/// `<uN as FromStr>::from_str` for an unsigned type whose largest value is `max`:
/// an optional `+`, then at least one ASCII digit, and a value no larger than `max`.
pub open spec fn parse_unsigned(s: Seq<char>, max: nat) -> Option<nat> {
    let body = if s.len() > 0 && s[0] == '+' {
        s.drop_first()
    } else {
        s
    };
    if body.len() > 0 && all_digits(body) && digits_value(body) <= max {
        Some(digits_value(body))
    } else {
        None
    }
}

proof fn lemma_digits_value_grows(s: Seq<char>, k: int)
    requires
        0 <= k <= s.len(),
        all_digits(s),
    ensures
        digits_value(s.take(k)) <= digits_value(s),
    decreases s.len() - k,
{
    if k < s.len() {
        lemma_digits_value_grows(s, k + 1);
        assert(s.take(k + 1).drop_last() =~= s.take(k));
        assert(is_digit(s[k]));
    } else {
        assert(s.take(k) =~= s);
    }
}

/// Parses an unsigned decimal number no larger than `max`.
pub fn parse_unsigned_chars(s: &[char], max: u64) -> (r: Option<u64>)
    ensures
        r matches Some(v) ==> parse_unsigned(s@, max as nat) == Some(v as nat),
        r is None ==> parse_unsigned(s@, max as nat) is None,
{
    let start: usize = if s.len() > 0 && s[0] == '+' {
        1
    } else {
        0
    };
    let ghost body = if s@.len() > 0 && s@[0] == '+' {
        s@.drop_first()
    } else {
        s@
    };
    assert(body =~= s@.skip(start as int));
    if start >= s.len() {
        return None;
    }
    let mut acc: u64 = 0;
    let mut i: usize = start;
    assert(body.take(0) =~= Seq::<char>::empty());
    while i < s.len()
        invariant
            start <= i <= s.len(),
            body == s@.skip(start as int),
            body == (if s@.len() > 0 && s@[0] == '+' {
                s@.drop_first()
            } else {
                s@
            }),
            acc as nat == digits_value(body.take(i - start)),
            acc <= max,
            all_digits(body.take(i - start)),
        decreases s.len() - i,
    {
        let c = s[i];
        assert(body[i - start] == c);
        if !('0' <= c && c <= '9') {
            assert(!is_digit(body[i - start]));
            assert(!all_digits(body));
            return None;
        }
        let d: u64 = (c as u32 - '0' as u32) as u64;
        assert(d == digit_value(c));
        let next: u128 = (acc as u128) * 10 + (d as u128);
        assert(body.take(i - start + 1).drop_last() =~= body.take(i - start));
        assert(body.take(i - start + 1).last() == c);
        assert(next == digits_value(body.take(i - start + 1)));
        assert(all_digits(body.take(i - start + 1)));
        if next > max as u128 {
            proof {
                if all_digits(body) {
                    lemma_digits_value_grows(body, i - start + 1);
                    assert(digits_value(body) > max);
                }
            }
            return None;
        }
        acc = next as u64;
        i = i + 1;
    }
    assert(body.take(s.len() - start) =~= body);
    Some(acc)
}

/// `<bool as FromStr>::from_str`: exactly "true" or "false".
pub open spec fn parse_bool(s: Seq<char>) -> Option<bool> {
    if s == seq!['t', 'r', 'u', 'e'] {
        Some(true)
    } else if s == seq!['f', 'a', 'l', 's', 'e'] {
        Some(false)
    } else {
        None
    }
}

/// Parses "true" or "false".
pub fn parse_bool_chars(s: &[char]) -> (r: Option<bool>)
    ensures
        r == parse_bool(s@),
{
    if s.len() == 4 && s[0] == 't' && s[1] == 'r' && s[2] == 'u' && s[3] == 'e' {
        assert(s@ =~= seq!['t', 'r', 'u', 'e']);
        Some(true)
    } else if s.len() == 5 && s[0] == 'f' && s[1] == 'a' && s[2] == 'l' && s[3] == 's' && s[4]
        == 'e' {
        assert(s@ =~= seq!['f', 'a', 'l', 's', 'e']);
        Some(false)
    } else {
        None
    }
}

/// Appends `s` to `out`.
pub fn push_all(out: &mut Vec<char>, s: &[char])
    ensures
        final(out)@ == old(out)@ + s@,
{
    let ghost start = out@;
    let mut i: usize = 0;
    while i < s.len()
        invariant
            i <= s.len(),
            out@ == start + s@.take(i as int),
        decreases s.len() - i,
    {
        out.push(s[i]);
        i = i + 1;
        assert(out@ =~= start + s@.take(i as int));
    }
    assert(s@.take(s.len() as int) =~= s@);
}

/// An owned copy of `s`.
pub fn owned(s: &str) -> (r: String)
    ensures
        r@ == s@,
{
    s.to_owned()
}

/// The concatenation of `a` and `b`.
pub fn concat2(a: &str, b: &str) -> (r: String)
    ensures
        r@ == a@ + b@,
{
    let mut v = chars_of(a);
    let w = chars_of(b);
    push_all(&mut v, w.as_slice());
    string_of(v.as_slice())
}

/// The views of a list of strings.
pub open spec fn string_views(v: Seq<String>) -> Seq<Seq<char>> {
    v.map_values(|s: String| s@)
}

/// The position of the last `c` in `s`, if any.
pub open spec fn last_index_of(s: Seq<char>, c: char) -> Option<int>
    decreases s.len(),
{
    if s.len() == 0 {
        None
    } else if s.last() == c {
        Some(s.len() - 1)
    } else {
        last_index_of(s.drop_last(), c)
    }
}

/// Appends the characters of `s` to the string `out`.
pub fn append(out: &mut String, s: &str)
    ensures
        final(out)@ == old(out)@ + s@,
{
    let ghost start = out@;
    for c in it: s.chars()
        invariant
            out@ == start + it.seq().take(it.index()),
    {
        out.push(c);
    }
    assert(out@ =~= start + s@);
}

/// The position of the first `c` in `t` at or after `i`, or the length of `t`.
pub open spec fn index_of_from(t: Seq<char>, c: char, i: int) -> int
    decreases t.len() - i,
{
    if i < 0 || i >= t.len() {
        t.len() as int
    } else if t[i] == c {
        i
    } else {
        index_of_from(t, c, i + 1)
    }
}

pub proof fn lemma_index_of_from_bounds(t: Seq<char>, c: char, i: int)
    requires
        0 <= i <= t.len(),
    ensures
        i <= index_of_from(t, c, i) <= t.len(),
        index_of_from(t, c, i) < t.len() ==> t[index_of_from(t, c, i)] == c,
        forall|j: int| i <= j < index_of_from(t, c, i) ==> t[j] != c,
    decreases t.len() - i,
{
    if i < t.len() && t[i] != c {
        lemma_index_of_from_bounds(t, c, i + 1);
    }
}

/// The position of the first `c` in `t` at or after `i`.
pub fn index_of_char(t: &[char], c: char, i: usize) -> (r: usize)
    requires
        i <= t.len(),
    ensures
        r as int == index_of_from(t@, c, i as int),
{
    let mut k = i;
    while k < t.len() && t[k] != c
        invariant
            i <= k <= t.len(),
            index_of_from(t@, c, i as int) == index_of_from(t@, c, k as int),
        decreases t.len() - k,
    {
        k = k + 1;
    }
    k
}

/// ASCII lowercasing of one character.
pub open spec fn ascii_lower_char(c: char) -> char {
    if 'A' <= c && c <= 'Z' {
        ((c as int) + 32) as char
    } else {
        c
    }
}

/// Whether every character is ASCII.
pub open spec fn all_ascii(s: Seq<char>) -> bool {
    forall|i: int| 0 <= i < s.len() ==> (#[trigger] s[i] as int) < 128
}

/// ASCII lowercasing (`str::to_ascii_lowercase`).
pub open spec fn ascii_lower(s: Seq<char>) -> Seq<char> {
    s.map_values(|c: char| ascii_lower_char(c))
}

/// `s` with A-Z mapped to a-z.
pub fn to_ascii_lower(s: &[char]) -> (r: Vec<char>)
    ensures
        r@ == ascii_lower(s@),
{
    let mut out: Vec<char> = Vec::new();
    let mut i: usize = 0;
    while i < s.len()
        invariant
            i <= s.len(),
            out@ == ascii_lower(s@.take(i as int)),
        decreases s.len() - i,
    {
        let c = s[i];
        let l = if 'A' <= c && c <= 'Z' {
            char_from_code(c as u32 + 32)
        } else {
            c
        };
        out.push(l);
        i = i + 1;
        assert(out@ =~= ascii_lower(s@.take(i as int)));
    }
    assert(s@.take(s.len() as int) =~= s@);
    out
}

fn char_from_code(u: u32) -> (r: char)
    requires
        ('a' as u32) <= u <= ('z' as u32),
    ensures
        r as int == u as int,
{
    let b: u8 = u as u8;
    b as char
}

/// Whether `s` holds exactly the characters `t`.
pub fn eq_str(s: &str, t: &str) -> (r: bool)
    ensures
        r == (s@ == t@),
{
    let a = chars_of(s);
    let b = chars_of(t);
    eq_chars(a.as_slice(), b.as_slice())
}

/// Whether two character slices are equal.
pub fn eq_chars(a: &[char], b: &[char]) -> (r: bool)
    ensures
        r == (a@ == b@),
{
    if a.len() != b.len() {
        return false;
    }
    let mut i: usize = 0;
    while i < a.len()
        invariant
            a.len() == b.len(),
            i <= a.len(),
            forall|j: int| 0 <= j < i ==> a@[j] == b@[j],
        decreases a.len() - i,
    {
        if a[i] != b[i] {
            return false;
        }
        i = i + 1;
    }
    assert(a@ =~= b@);
    true
}

/// `c` does not occur in `s`.
pub open spec fn lacks(s: Seq<char>, c: char) -> bool {
    forall|i: int| 0 <= i < s.len() ==> s[i] != c
}

/// `s` holds no whitespace character.
pub open spec fn no_ws(s: Seq<char>) -> bool {
    forall|i: int| 0 <= i < s.len() ==> !is_ws(#[trigger] s[i])
}

pub proof fn lemma_pieces_append(x: Seq<char>, b: Seq<char>)
    requires
        lacks(b, '\n'),
    ensures
        pieces(x + b).len() == pieces(x).len(),
        pieces(x + b) == pieces(x).update(pieces(x).len() - 1, pieces(x).last() + b),
    decreases b.len(),
{
    lemma_pieces_nonempty(x);
    if b.len() == 0 {
        assert(x + b =~= x);
        assert(pieces(x).last() + b =~= pieces(x).last());
        assert(pieces(x).update(pieces(x).len() - 1, pieces(x).last()) =~= pieces(x));
    } else {
        let b0 = b.drop_last();
        assert(b[b.len() - 1] != '\n');
        assert(lacks(b0, '\n')) by {
            assert forall|i: int| 0 <= i < b0.len() implies b0[i] != '\n' by {
                assert(b0[i] == b[i]);
            }
        }
        lemma_pieces_append(x, b0);
        assert((x + b).drop_last() =~= x + b0);
        assert((x + b).last() == b.last());
        let p0 = pieces((x + b).drop_last());
        assert(p0 == pieces(x + b0));
        assert(pieces(x + b) == p0.update(p0.len() - 1, p0.last().push(b.last())));
        assert(pieces(x).last() + b0 + seq![b.last()] =~= pieces(x).last() + b);
        assert(p0.last() == pieces(x).last() + b0);
        assert(p0.len() == pieces(x).len());
        assert((pieces(x).last() + b0).push(b.last()) =~= pieces(x).last() + b);
        assert(pieces(x + b) =~= pieces(x).update(pieces(x).len() - 1, pieces(x).last() + b));
    }
}

pub proof fn lemma_pieces_join(ls: Seq<Seq<char>>)
    requires
        ls.len() > 0,
        forall|i: int| 0 <= i < ls.len() ==> lacks(#[trigger] ls[i], '\n'),
    ensures
        pieces(join(ls, seq!['\n'])) == ls,
    decreases ls.len(),
{
    if ls.len() == 1 {
        assert(Seq::<char>::empty() + ls[0] =~= ls[0]);
        lemma_pieces_append(Seq::<char>::empty(), ls[0]);
        assert(pieces(Seq::<char>::empty()) =~= seq![seq![]]);
        assert(seq![seq![]].update(0, Seq::<char>::empty() + ls[0]) =~= ls);
    } else {
        let init = ls.drop_last();
        assert forall|i: int| 0 <= i < init.len() implies lacks(#[trigger] init[i], '\n') by {
            assert(init[i] == ls[i]);
        }
        lemma_pieces_join(init);
        let a = join(init, seq!['\n']) + seq!['\n'];
        assert(a.drop_last() =~= join(init, seq!['\n']));
        assert(pieces(a) == init.push(seq![]));
        assert(lacks(ls.last(), '\n'));
        lemma_pieces_append(a, ls.last());
        assert(join(ls, seq!['\n']) =~= a + ls.last());
        assert(init.push(seq![]).update(init.len() as int, Seq::<char>::empty() + ls.last()) =~= ls);
    }
}

/// Reading back joined lines: every line that ended in a newline loses a trailing "\r",
/// and an empty last line is not reported.
pub proof fn lemma_lines_join(ls: Seq<Seq<char>>)
    requires
        ls.len() > 0,
        forall|i: int| 0 <= i < ls.len() ==> lacks(#[trigger] ls[i], '\n'),
    ensures
        lines(join(ls, seq!['\n'])) == ls.drop_last().map_values(|l: Seq<char>| strip_cr(l)) + (
        if ls.last().len() == 0 {
            seq![]
        } else {
            seq![ls.last()]
        }),
{
    lemma_pieces_join(ls);
}

pub proof fn lemma_pieces_lack_newline(s: Seq<char>)
    ensures
        forall|i: int| 0 <= i < pieces(s).len() ==> lacks(#[trigger] pieces(s)[i], '\n'),
    decreases s.len(),
{
    lemma_pieces_nonempty(s);
    if s.len() > 0 {
        lemma_pieces_lack_newline(s.drop_last());
        lemma_pieces_nonempty(s.drop_last());
        let p = pieces(s.drop_last());
        assert forall|i: int| 0 <= i < pieces(s).len() implies lacks(#[trigger] pieces(s)[i], '\n') by {
            if s.last() != '\n' && i == p.len() - 1 {
                assert(lacks(p[i], '\n'));
                assert(pieces(s)[i] == p.last().push(s.last()));
            }
        }
    }
}

/// No line holds a newline.
pub proof fn lemma_lines_lack_newline(s: Seq<char>)
    ensures
        forall|i: int| 0 <= i < lines(s).len() ==> lacks(#[trigger] lines(s)[i], '\n'),
{
    lemma_pieces_lack_newline(s);
    lemma_pieces_nonempty(s);
    let p = pieces(s);
    assert forall|i: int| 0 <= i < lines(s).len() implies lacks(#[trigger] lines(s)[i], '\n') by {
        if i < p.len() - 1 {
            assert(lacks(p[i], '\n'));
            assert(lines(s)[i] == strip_cr(p[i]));
        } else {
            assert(lines(s)[i] == p.last());
        }
    }
}

/// Replacing never brings in a character that neither the text nor the replacement holds.
pub proof fn lemma_replace_all_lacks(s: Seq<char>, f: Seq<char>, t: Seq<char>, c: char)
    requires
        lacks(s, c),
        lacks(t, c),
    ensures
        lacks(replace_all(s, f, t), c),
    decreases s.len(),
{
    if s.len() == 0 || f.len() == 0 {
    } else if f.is_prefix_of(s) {
        lemma_replace_all_lacks(s.skip(f.len() as int), f, t, c);
    } else {
        lemma_replace_all_lacks(s.drop_first(), f, t, c);
    }
}

pub proof fn lemma_tokens_word(w: Seq<char>)
    requires
        w.len() > 0,
        no_ws(w),
    ensures
        tokens(w) == seq![w],
    decreases w.len(),
{
    assert(!is_ws(w[w.len() - 1]));
    if w.len() == 1 {
        assert(w.drop_last() =~= Seq::<char>::empty());
        assert(tokens(w.drop_last()) == Seq::<Seq<char>>::empty());
        assert(tokens(w) == tokens(w.drop_last()).push(seq![w.last()]));
        assert(seq![w.last()] =~= w);
        assert(Seq::<Seq<char>>::empty().push(w) =~= seq![w]);
    } else {
        assert(!is_ws(w[w.len() - 2]));
        assert(no_ws(w.drop_last())) by {
            assert forall|i: int| 0 <= i < w.drop_last().len() implies !is_ws(
                #[trigger] w.drop_last()[i],
            ) by {
                assert(w.drop_last()[i] == w[i]);
            }
        }
        lemma_tokens_word(w.drop_last());
        let t = tokens(w.drop_last());
        assert(tokens(w) == t.update(t.len() - 1, t.last().push(w.last())));
        assert(w.drop_last().push(w.last()) =~= w);
        assert(seq![w.drop_last()].update(0, w) =~= seq![w]);
    }
}

proof fn lemma_tokens_space_word_prefix(a: Seq<char>, w: Seq<char>, k: int)
    requires
        1 <= k <= w.len(),
        no_ws(w),
    ensures
        tokens(a + seq![' '] + w.take(k)) == tokens(a).push(w.take(k)),
    decreases k,
{
    let s = a + seq![' '] + w.take(k);
    assert(!is_ws(w[k - 1]));
    assert(s.last() == w[k - 1]);
    if k == 1 {
        assert(s.drop_last() =~= a + seq![' ']);
        assert((a + seq![' ']).drop_last() =~= a);
        assert(is_ws(' '));
        assert((a + seq![' ']).last() == ' ');
        assert(tokens(a + seq![' ']) == tokens(a));
        assert(s[s.len() - 2] == ' ');
        assert(tokens(s) == tokens(s.drop_last()).push(seq![s.last()]));
        assert(seq![w[0]] =~= w.take(1));
    } else {
        lemma_tokens_space_word_prefix(a, w, k - 1);
        assert(s.drop_last() =~= a + seq![' '] + w.take(k - 1));
        assert(s[s.len() - 2] == w[k - 2]);
        assert(!is_ws(w[k - 2]));
        let t = tokens(s.drop_last());
        assert(t == tokens(a).push(w.take(k - 1)));
        assert(tokens(s) == t.update(t.len() - 1, t.last().push(s.last())));
        assert(w.take(k - 1).push(w[k - 1]) =~= w.take(k));
        assert(t.update(t.len() - 1, t.last().push(s.last())) =~= tokens(a).push(w.take(k)));
    }
}

/// Appending a space and a word adds that word to the words of a text.
pub proof fn lemma_tokens_space_word(a: Seq<char>, w: Seq<char>)
    requires
        w.len() > 0,
        no_ws(w),
    ensures
        tokens(a + seq![' '] + w) == tokens(a).push(w),
{
    lemma_tokens_space_word_prefix(a, w, w.len() as int);
    assert(w.take(w.len() as int) =~= w);
}

/// A text that starts and ends with a non-whitespace character is its own trim.
pub proof fn lemma_trim_fixed(s: Seq<char>)
    requires
        s.len() > 0,
        !is_ws(s[0]),
        !is_ws(s.last()),
    ensures
        trim(s) == s,
{
}

/// Leading whitespace does not change the trimmed text.
pub proof fn lemma_trim_start_ws(c: char, x: Seq<char>)
    requires
        is_ws(c),
    ensures
        trim_start(seq![c] + x) == trim_start(x),
{
    assert((seq![c] + x).drop_first() =~= x);
}


/// Trimming the start of a text with a whitespace character appended.
pub proof fn lemma_trim_start_push_ws(s: Seq<char>, c: char)
    requires
        is_ws(c),
    ensures
        trim_start(s.push(c)) == (if trim_start(s).len() > 0 {
            trim_start(s).push(c)
        } else {
            Seq::<char>::empty()
        }),
    decreases s.len(),
{
    assert(s.push(c)[0] == if s.len() == 0 {
        c
    } else {
        s[0]
    });
    if s.len() == 0 {
        assert(s.push(c).drop_first() =~= Seq::<char>::empty());
        assert(trim_start(Seq::<char>::empty()) == Seq::<char>::empty());
    } else if is_ws(s[0]) {
        assert(s.push(c).drop_first() =~= s.drop_first().push(c));
        lemma_trim_start_push_ws(s.drop_first(), c);
    }
}

/// A trailing carriage return does not change the trimmed text.
pub proof fn lemma_trim_strip_cr(l: Seq<char>)
    ensures
        trim(strip_cr(l)) == trim(l),
{
    if l.len() > 0 && l.last() == '\r' {
        let s = l.drop_last();
        assert(l =~= s.push('\r'));
        lemma_trim_start_push_ws(s, '\r');
        if trim_start(s).len() > 0 {
            assert(trim_start(s).push('\r').drop_last() =~= trim_start(s));
        }
    }
}

/// Trimming the end keeps every character up to the last non-whitespace one.
pub proof fn lemma_trim_end_prefix(s: Seq<char>, p: int) -> (m: int)
    requires
        0 <= p < s.len(),
        !is_ws(s[p]),
    ensures
        p < m <= s.len(),
        trim_end(s) == s.take(m),
    decreases s.len(),
{
    if is_ws(s.last()) {
        let m = lemma_trim_end_prefix(s.drop_last(), p);
        assert(s.drop_last().take(m) =~= s.take(m));
        m
    } else {
        assert(s.take(s.len() as int) =~= s);
        s.len() as int
    }
}


/// A lowercase hexadecimal digit.
pub open spec fn hex_digit_of(d: int) -> char {
    if d < 10 {
        digit(d)
    } else if d == 10 {
        'a'
    } else if d == 11 {
        'b'
    } else if d == 12 {
        'c'
    } else if d == 13 {
        'd'
    } else if d == 14 {
        'e'
    } else {
        'f'
    }
}

/// The lowercase hexadecimal text of `n`, without leading zeros.
pub open spec fn hex_text(n: nat) -> Seq<char>
    decreases n,
{
    if n < 16 {
        seq![hex_digit_of(n as int)]
    } else {
        hex_text(n / 16).push(hex_digit_of((n % 16) as int))
    }
}

fn hex_digit_char(d: u32) -> (r: char)
    requires
        d < 16,
    ensures
        r == hex_digit_of(d as int),
{
    if d < 10 {
        digit_char(d as u64)
    } else if d == 10 {
        'a'
    } else if d == 11 {
        'b'
    } else if d == 12 {
        'c'
    } else if d == 13 {
        'd'
    } else if d == 14 {
        'e'
    } else {
        'f'
    }
}

/// The lowercase hexadecimal digits of `n`.
fn hex_chars(n: u32) -> (r: Vec<char>)
    ensures
        r@ == hex_text(n as nat),
    decreases n,
{
    if n < 16 {
        let mut v: Vec<char> = Vec::new();
        v.push(hex_digit_char(n));
        assert(v@ =~= seq![hex_digit_of(n as int)]);
        v
    } else {
        let mut v = hex_chars(n / 16);
        v.push(hex_digit_char(n % 16));
        v
    }
}

/// Whether the `Debug` form of text writes `c` as a `\u{..}` escape: the ASCII and C1
/// control characters that have no short escape.
pub open spec fn debug_hex_escaped(c: char) -> bool {
    &&& c != '\0' && c != '\t' && c != '\n' && c != '\r'
    &&& ((c as u32) < 0x20 || (0x7f <= (c as u32) && (c as u32) <= 0x9f))
}

/// How the `Debug` form of text writes one character: `\0`, `\t`, `\n`, `\r`, `\"` and
/// `\\` for those characters, `\u{..}` in lowercase hexadecimal for the other control
/// characters, and the character itself otherwise.
pub open spec fn debug_escape_char(c: char) -> Seq<char> {
    if c == '\0' {
        seq!['\\', '0']
    } else if c == '\t' {
        seq!['\\', 't']
    } else if c == '\n' {
        seq!['\\', 'n']
    } else if c == '\r' {
        seq!['\\', 'r']
    } else if c == '"' {
        seq!['\\', '"']
    } else if c == '\\' {
        seq!['\\', '\\']
    } else if debug_hex_escaped(c) {
        seq!['\\', 'u', '{'] + hex_text(c as u32 as nat) + seq!['}']
    } else {
        seq![c]
    }
}

/// Every character of `s` written as the `Debug` form of text writes it.
pub open spec fn debug_escape(s: Seq<char>) -> Seq<char>
    decreases s.len(),
{
    if s.len() == 0 {
        Seq::empty()
    } else {
        debug_escape(s.drop_last()) + debug_escape_char(s.last())
    }
}

/// The `Debug` form of a text or path: between double quotes, escaped as
/// `debug_escape_char` says.
pub open spec fn debug_quoted(s: Seq<char>) -> Seq<char> {
    seq!['"'] + debug_escape(s) + seq!['"']
}

/// How one character is written in the `Debug` form of text.
fn debug_char(c: char) -> (r: Vec<char>)
    ensures
        r@ == debug_escape_char(c),
{
    let mut v: Vec<char> = Vec::new();
    if c == '\0' {
        v.push('\\');
        v.push('0');
    } else if c == '\t' {
        v.push('\\');
        v.push('t');
    } else if c == '\n' {
        v.push('\\');
        v.push('n');
    } else if c == '\r' {
        v.push('\\');
        v.push('r');
    } else if c == '"' {
        v.push('\\');
        v.push('"');
    } else if c == '\\' {
        v.push('\\');
        v.push('\\');
    } else {
        let n: u32 = c as u32;
        if n < 0x20 || (0x7f <= n && n <= 0x9f) {
            v.push('\\');
            v.push('u');
            v.push('{');
            let h = hex_chars(n);
            push_all(&mut v, h.as_slice());
            v.push('}');
            assert(v@ =~= seq!['\\', 'u', '{'] + hex_text(c as u32 as nat) + seq!['}']);
            return v;
        }
        v.push(c);
    }
    assert(v@ =~= debug_escape_char(c));
    v
}

/// The `Debug` form of a text or path, as `{:?}` writes it.
pub fn debug_quote(s: &str) -> (r: String)
    ensures
        r@ == debug_quoted(s@),
{
    let cs = chars_of(s);
    let mut out: Vec<char> = Vec::new();
    out.push('"');
    let mut i: usize = 0;
    assert(cs@.take(0) =~= Seq::<char>::empty());
    while i < cs.len()
        invariant
            i <= cs.len(),
            out@ == seq!['"'] + debug_escape(cs@.take(i as int)),
        decreases cs.len() - i,
    {
        assert(cs@.take(i + 1).drop_last() =~= cs@.take(i as int));
        assert(cs@.take(i + 1).last() == cs@[i as int]);
        let e = debug_char(cs[i]);
        push_all(&mut out, e.as_slice());
        i = i + 1;
        assert(out@ =~= seq!['"'] + debug_escape(cs@.take(i as int)));
    }
    assert(cs@.take(cs.len() as int) =~= cs@);
    out.push('"');
    assert(out@ =~= debug_quoted(s@));
    string_of(out.as_slice())
}


/// `c` with a-z mapped to A-Z.
pub open spec fn ascii_upper_char(c: char) -> char {
    if 'a' <= c && c <= 'z' {
        ((c as int) - 32) as char
    } else {
        c
    }
}

/// `s` with a-z mapped to A-Z.
pub open spec fn ascii_upper(s: Seq<char>) -> Seq<char> {
    s.map_values(|c: char| ascii_upper_char(c))
}

/// Lowercasing is the same on a text and its uppercase form.
pub proof fn lemma_lower_upper_agree(s: Seq<char>)
    ensures
        ascii_lower(ascii_upper(s)) == ascii_lower(s),
{
    assert(ascii_lower(ascii_upper(s)) =~= ascii_lower(s));
}


/// An occurrence in a prefix of a text is one in the text.
pub proof fn lemma_occurs_in_prefix(s: Seq<char>, n: int, w: Seq<char>, i: int)
    requires
        0 <= n <= s.len(),
        occurs_at(s.take(n), w, i),
    ensures
        occurs_at(s, w, i),
{
    assert(s.subrange(i, i + w.len()) =~= s.take(n).subrange(i, i + w.len()));
}

/// An occurrence in a suffix of a text is one in the text, shifted.
pub proof fn lemma_occurs_in_suffix(s: Seq<char>, n: int, w: Seq<char>, i: int)
    requires
        0 <= n <= s.len(),
        occurs_at(s.skip(n), w, i),
    ensures
        occurs_at(s, w, i + n),
{
    assert(s.subrange(i + n, i + n + w.len()) =~= s.skip(n).subrange(i, i + w.len()));
}

/// Every word of a text occurs in it; a text that ends in a non-whitespace character
/// ends with its last word.
pub proof fn lemma_tokens_occur(s: Seq<char>)
    ensures
        forall|i: int| 0 <= i < tokens(s).len() ==> contains(s, #[trigger] tokens(s)[i]),
        s.len() > 0 && !is_ws(s.last()) ==> tokens(s).len() > 0 && occurs_at(
            s,
            tokens(s).last(),
            s.len() - tokens(s).last().len(),
        ),
    decreases s.len(),
{
    if s.len() > 0 {
        let s0 = s.drop_last();
        let t = tokens(s0);
        let c = s.last();
        lemma_tokens_occur(s0);
        assert(s0 =~= s.take(s.len() - 1));
        assert forall|i: int| 0 <= i < t.len() implies contains(s, #[trigger] t[i]) by {
            let j = choose|j: int| occurs_at(s0, t[i], j);
            lemma_occurs_in_prefix(s, s.len() - 1, t[i], j);
        }
        if is_ws(c) {
        } else if s.len() >= 2 && !is_ws(s[s.len() - 2]) {
            assert(s0.last() == s[s.len() - 2]);
            let w = t.last().push(c);
            let st = s.len() - w.len();
            assert(s.subrange(st, st + w.len()) =~= s0.subrange(st, st + t.last().len()).push(c));
            assert(occurs_at(s, w, st));
            assert forall|i: int| 0 <= i < tokens(s).len() implies contains(s, #[trigger] tokens(s)[i]) by {
                if i == t.len() - 1 {
                    assert(tokens(s)[i] == w);
                } else {
                    assert(tokens(s)[i] == t[i]);
                }
            }
        } else {
            let w = seq![c];
            assert(s.subrange(s.len() - 1, s.len() as int) =~= w);
            assert(occurs_at(s, w, s.len() - 1));
            assert forall|i: int| 0 <= i < tokens(s).len() implies contains(s, #[trigger] tokens(s)[i]) by {
                if i == t.len() {
                    assert(tokens(s)[i] == w);
                } else {
                    assert(tokens(s)[i] == t[i]);
                }
            }
        }
    }
}

/// What occurs in the text without its leading whitespace occurs in the text.
pub proof fn lemma_trim_start_occurs(s: Seq<char>, w: Seq<char>)
    requires
        contains(trim_start(s), w),
    ensures
        contains(s, w),
    decreases s.len(),
{
    if s.len() > 0 && is_ws(s[0]) {
        lemma_trim_start_occurs(s.drop_first(), w);
        let j = choose|j: int| occurs_at(s.drop_first(), w, j);
        assert(s.drop_first() =~= s.skip(1));
        lemma_occurs_in_suffix(s, 1, w, j);
    }
}

/// What occurs in the text without its trailing whitespace occurs in the text.
pub proof fn lemma_trim_end_occurs(s: Seq<char>, w: Seq<char>)
    requires
        contains(trim_end(s), w),
    ensures
        contains(s, w),
    decreases s.len(),
{
    if s.len() > 0 && is_ws(s.last()) {
        lemma_trim_end_occurs(s.drop_last(), w);
        let j = choose|j: int| occurs_at(s.drop_last(), w, j);
        assert(s.drop_last() =~= s.take(s.len() - 1));
        lemma_occurs_in_prefix(s, s.len() - 1, w, j);
    }
}

/// What occurs in the trimmed text occurs in the text.
pub proof fn lemma_trim_occurs(s: Seq<char>, w: Seq<char>)
    requires
        contains(trim(s), w),
    ensures
        contains(s, w),
{
    lemma_trim_end_occurs(trim_start(s), w);
    lemma_trim_start_occurs(s, w);
}

/// What occurs in the text without its leading copies of `p` occurs in the text.
pub proof fn lemma_strip_prefix_occurs(s: Seq<char>, p: Seq<char>, w: Seq<char>)
    requires
        contains(strip_all_prefix(s, p), w),
    ensures
        contains(s, w),
    decreases s.len(),
{
    if p.len() > 0 && p.is_prefix_of(s) {
        lemma_strip_prefix_occurs(s.skip(p.len() as int), p, w);
        let j = choose|j: int| occurs_at(s.skip(p.len() as int), w, j);
        lemma_occurs_in_suffix(s, p.len() as int, w, j);
    }
}

/// Replacing a pattern that does not occur changes nothing.
pub proof fn lemma_replace_absent(s: Seq<char>, f: Seq<char>, t: Seq<char>)
    requires
        f.len() > 0,
        !contains(s, f),
    ensures
        replace_all(s, f, t) == s,
    decreases s.len(),
{
    if s.len() > 0 {
        if f.is_prefix_of(s) {
            assert(occurs_at(s, f, 0));
        }
        assert(!contains(s.drop_first(), f)) by {
            if contains(s.drop_first(), f) {
                let j = choose|j: int| occurs_at(s.drop_first(), f, j);
                assert(s.drop_first() =~= s.skip(1));
                lemma_occurs_in_suffix(s, 1, f, j);
            }
        }
        lemma_replace_absent(s.drop_first(), f, t);
        assert(seq![s[0]] + s.drop_first() =~= s);
    }
}

/// A text in which a pattern does not occur holds no longer pattern that begins with it.
pub proof fn lemma_absent_longer(s: Seq<char>, f: Seq<char>, g: Seq<char>)
    requires
        f.is_prefix_of(g),
        !contains(s, f),
    ensures
        !contains(s, g),
{
    if contains(s, g) {
        let j = choose|j: int| occurs_at(s, g, j);
        assert(s.subrange(j, j + f.len()) =~= g.subrange(0, f.len() as int));
        assert(occurs_at(s, f, j));
    }
}

} // verus!
