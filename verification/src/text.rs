//! Character-level text helpers: whitespace, trimming, line splitting, joining
//! and decimal rendering.

use vstd::prelude::*;
use vstd::string::*;

verus! {

/// A character with the Unicode `White_Space` property (what `char::is_whitespace`
/// and the regex class `\s` accept).
pub open spec fn is_white_space(c: char) -> bool {
    ||| ('\u{9}' <= c && c <= '\u{d}')
    ||| c == ' '
    ||| c == '\u{85}'
    ||| c == '\u{a0}'
    ||| c == '\u{1680}'
    ||| ('\u{2000}' <= c && c <= '\u{200a}')
    ||| c == '\u{2028}'
    ||| c == '\u{2029}'
    ||| c == '\u{202f}'
    ||| c == '\u{205f}'
    ||| c == '\u{3000}'
}

/// Whether `c` is a Unicode white-space character.
pub fn white_space(c: char) -> (b: bool)
    ensures
        b == is_white_space(c),
{
    ('\u{9}' <= c && c <= '\u{d}') || c == ' ' || c == '\u{85}' || c == '\u{a0}' || c
        == '\u{1680}' || ('\u{2000}' <= c && c <= '\u{200a}') || c == '\u{2028}' || c
        == '\u{2029}' || c == '\u{202f}' || c == '\u{205f}' || c == '\u{3000}'
}

/// The characters of `s`, in order.
pub fn chars_of(s: &str) -> (v: Vec<char>)
    ensures
        v@ == s@,
{
    let mut v: Vec<char> = Vec::new();
    for c in it: s.chars()
        invariant
            v@ == it.seq().take(it.index() as int),
            it.seq() == s@,
    {
        v.push(c);
    }
    v
}


/// `String::push`: appends one character at the end.
#[verifier::external_body]
pub(crate) fn push_char(s: &mut String, c: char)
    ensures
        final(s)@ == old(s)@.push(c),
{
    s.push(c);
}

/// A `String` holding the characters of `v`, in order.
pub fn string_of(v: &Vec<char>) -> (s: String)
    ensures
        s@ == v@,
{
    let mut s = String::new();
    for i in 0..v.len()
        invariant
            s@ == v@.take(i as int),
    {
        push_char(&mut s, v[i]);
        assert(v@.take(i + 1) == v@.take(i as int).push(v@[i as int]));
    }
    assert(v@.take(v.len() as int) == v@);
    s
}

/// `s` without its leading white space.
pub open spec fn trim_start(s: Seq<char>) -> Seq<char>
    decreases s.len(),
{
    if s.len() > 0 && is_white_space(s[0]) {
        trim_start(s.drop_first())
    } else {
        s
    }
}

/// `s` without its trailing white space.
pub open spec fn trim_end(s: Seq<char>) -> Seq<char>
    decreases s.len(),
{
    if s.len() > 0 && is_white_space(s.last()) {
        trim_end(s.drop_last())
    } else {
        s
    }
}

/// `s` without leading and trailing white space (what `str::trim` gives).
pub open spec fn trim(s: Seq<char>) -> Seq<char> {
    trim_end(trim_start(s))
}

/// The characters of `s` with leading and trailing white space removed.
pub fn trim_chars(s: &str) -> (t: Vec<char>)
    ensures
        t@ == trim(s@),
{
    let v = chars_of(s);
    let n = v.len();
    let mut a: usize = 0;
    assert(v@.subrange(0, n as int) == v@);
    while a < n && white_space(v[a])
        invariant
            a <= n,
            n == v@.len(),
            v@ == s@,
            trim_start(s@) == trim_start(v@.subrange(a as int, n as int)),
        decreases n - a,
    {
        assert(v@.subrange(a as int, n as int).drop_first() == v@.subrange(a + 1, n as int));
        a = a + 1;
    }
    assert(trim_start(s@) == v@.subrange(a as int, n as int));
    let mut b: usize = n;
    while b > a && white_space(v[b - 1])
        invariant
            a <= b <= n,
            n == v@.len(),
            trim(s@) == trim_end(v@.subrange(a as int, b as int)),
        decreases b,
    {
        assert(v@.subrange(a as int, b as int).drop_last() == v@.subrange(a as int, b - 1));
        b = b - 1;
    }
    let mut t: Vec<char> = Vec::new();
    let mut i: usize = a;
    while i < b
        invariant
            a <= i <= b <= n,
            n == v@.len(),
            t@ == v@.subrange(a as int, i as int),
        decreases b - i,
    {
        t.push(v[i]);
        assert(v@.subrange(a as int, i + 1) == v@.subrange(a as int, i as int).push(v@[i as int]));
        i = i + 1;
    }
    t
}

/// `s` trimmed as a `String`.
pub fn trim_string(s: &str) -> (t: String)
    ensures
        t@ == trim(s@),
{
    let v = trim_chars(s);
    string_of(&v)
}

/// A line with one trailing carriage return removed, if it has one.
pub open spec fn strip_cr(line: Seq<char>) -> Seq<char> {
    if line.len() > 0 && line.last() == '\r' {
        line.drop_last()
    } else {
        line
    }
}

/// Reading `s` left to right: the lines completed so far (each ended by `\n`, with a
/// `\r` before that `\n` dropped) and the line still open.
pub open spec fn line_scan(s: Seq<char>) -> (Seq<Seq<char>>, Seq<char>)
    decreases s.len(),
{
    if s.len() == 0 {
        (seq![], seq![])
    } else {
        let (done, open) = line_scan(s.drop_last());
        if s.last() == '\n' {
            (done.push(strip_cr(open)), seq![])
        } else {
            (done, open.push(s.last()))
        }
    }
}

/// The lines of `s` as `str::lines` yields them: split at `\n` or `\r\n`, without
/// the terminators; a final line ending yields no empty line after it.
pub open spec fn lines(s: Seq<char>) -> Seq<Seq<char>> {
    let (done, open) = line_scan(s);
    if open.len() == 0 {
        done
    } else {
        done.push(open)
    }
}

/// The views of a sequence of strings.
pub open spec fn views(v: Seq<String>) -> Seq<Seq<char>> {
    v.map_values(|x: String| x@)
}

/// The lines of `s` (see [`lines`]).
pub fn lines_of(s: &[char]) -> (out: Vec<String>)
    ensures
        views(out@) == lines(s@),
{
    let mut done: Vec<String> = Vec::new();
    let mut open: Vec<char> = Vec::new();
    for i in 0..s.len()
        invariant
            (views(done@), open@) == line_scan(s@.take(i as int)),
    {
        assert(s@.take(i + 1).drop_last() == s@.take(i as int));
        if s[i] == '\n' {
            let n = open.len();
            let line = if n > 0 && open[n - 1] == '\r' {
                open.pop();
                string_of(&open)
            } else {
                string_of(&open)
            };
            done.push(line);
            open = Vec::new();
            assert(views(done@) == line_scan(s@.take(i + 1)).0);
        } else {
            open.push(s[i]);
        }
    }
    assert(s@.take(s@.len() as int) == s@);
    if open.len() > 0 {
        let last = string_of(&open);
        done.push(last);
    }
    assert(views(done@) == lines(s@));
    done
}

/// The strings of `parts` with `sep` between each two neighbours.
pub open spec fn join(parts: Seq<Seq<char>>, sep: Seq<char>) -> Seq<char>
    decreases parts.len(),
{
    if parts.len() == 0 {
        seq![]
    } else if parts.len() == 1 {
        parts[0]
    } else {
        join(parts.drop_last(), sep) + sep + parts.last()
    }
}

/// `parts` joined with `sep` (what `[String]::join` gives).
pub fn join_strings(parts: &Vec<String>, sep: &str) -> (out: String)
    ensures
        out@ == join(views(parts@), sep@),
{
    let mut out = String::new();
    for i in 0..parts.len()
        invariant
            out@ == join(views(parts@.take(i as int)), sep@),
    {
        assert(views(parts@.take(i + 1)).drop_last() == views(parts@.take(i as int)));
        if i > 0 {
            out.append(sep);
        }
        out.append(parts[i].as_str());
    }
    assert(parts@.take(parts@.len() as int) == parts@);
    out
}

/// The decimal digit `d` (below ten) as a character.
pub open spec fn digit(d: nat) -> char {
    if d == 0 { '0' }
    else if d == 1 { '1' }
    else if d == 2 { '2' }
    else if d == 3 { '3' }
    else if d == 4 { '4' }
    else if d == 5 { '5' }
    else if d == 6 { '6' }
    else if d == 7 { '7' }
    else if d == 8 { '8' }
    else { '9' }
}

/// The decimal rendering of `n`, with no leading zeros (what `u32::to_string` gives).
pub open spec fn decimal(n: nat) -> Seq<char>
    decreases n,
{
    if n < 10 {
        seq![digit(n)]
    } else {
        decimal(n / 10).push(digit(n % 10))
    }
}

fn digit_char(d: u32) -> (c: char)
    requires
        d < 10,
    ensures
        c == digit(d as nat),
{
    match d {
        0 => '0',
        1 => '1',
        2 => '2',
        3 => '3',
        4 => '4',
        5 => '5',
        6 => '6',
        7 => '7',
        8 => '8',
        _ => '9',
    }
}

/// Appends the decimal rendering of `n` to `s`.
pub fn push_decimal(s: &mut String, n: u32)
    ensures
        final(s)@ == old(s)@ + decimal(n as nat),
    decreases n,
{
    if n >= 10 {
        push_decimal(s, n / 10);
    }
    push_char(s, digit_char(n % 10));
}

/// The decimal rendering of `n`.
pub fn decimal_string(n: u32) -> (s: String)
    ensures
        s@ == decimal(n as nat),
{
    let mut s = String::new();
    push_decimal(&mut s, n);
    s
}

/// Whether `a` and `b` hold the same characters.
pub fn str_eq(a: &str, b: &str) -> (r: bool)
    ensures
        r == (a@ == b@),
{
    let x = chars_of(a);
    let y = chars_of(b);
    if x.len() != y.len() {
        return false;
    }
    for i in 0..x.len()
        invariant
            x@.len() == y@.len(),
            x@ == a@,
            y@ == b@,
            forall|j: int| 0 <= j < i ==> x@[j] == y@[j],
    {
        if x[i] != y[i] {
            return false;
        }
    }
    assert(x@ == y@);
    true
}

/// Appends copies of the strings of `more` to `lines`.
pub fn extend_strings(lines: &mut Vec<String>, more: &Vec<String>)
    ensures
        views(final(lines)@) == views(old(lines)@) + views(more@),
{
    let ghost start = views(lines@);
    for i in 0..more.len()
        invariant
            views(lines@) == start + views(more@).take(i as int),
    {
        let ghost before = lines@;
        lines.push(more[i].clone());
        assert(views(lines@) == views(before).push(more@[i as int]@));
        assert(views(more@).take(i + 1) == views(more@).take(i as int).push(more@[i as int]@));
    }
    assert(views(more@).take(more@.len() as int) == views(more@));
}

/// `t` holds `s` as a contiguous piece, starting at `at`.
pub open spec fn piece_at(s: Seq<char>, t: Seq<char>, at: int) -> bool {
    0 <= at && at + s.len() <= t.len() && t.subrange(at, at + s.len()) == s
}

/// `t` holds `s` as a contiguous piece somewhere.
pub open spec fn has_piece(s: Seq<char>, t: Seq<char>) -> bool {
    exists|at: int| #[trigger] piece_at(s, t, at)
}

/// Joining keeps every part whole: each part is a piece of the joined string.
pub proof fn lemma_join_has_parts(parts: Seq<Seq<char>>, sep: Seq<char>)
    ensures
        forall|i: int| 0 <= i < parts.len() ==> has_piece(#[trigger] parts[i], join(parts, sep)),
    decreases parts.len(),
{
    let j = join(parts, sep);
    if parts.len() == 1 {
        assert(piece_at(parts[0], j, 0)) by {
            assert(j.subrange(0, parts[0].len() as int) =~= parts[0]);
        }
        assert(has_piece(parts[0], j));
    } else if parts.len() > 1 {
        let prev = parts.drop_last();
        lemma_join_has_parts(prev, sep);
        let pj = join(prev, sep);
        assert(j == pj + sep + parts.last());
        assert forall|i: int| 0 <= i < parts.len() implies has_piece(#[trigger] parts[i], j) by {
            if i < parts.len() - 1 {
                assert(prev[i] == parts[i]);
                assert(has_piece(prev[i], pj));
                let at = choose|at: int| piece_at(prev[i], pj, at);
                assert(j.subrange(at, at + parts[i].len()) =~= pj.subrange(at, at + parts[i].len()));
                assert(piece_at(parts[i], j, at));
            } else {
                let at: int = pj.len() as int + sep.len() as int;
                assert(j.subrange(at, at + parts[i].len()) =~= parts.last());
                assert(piece_at(parts[i], j, at));
            }
        }
    }
}

/// Trimming leaves a contiguous piece of the text that neither begins nor ends with
/// white space, and removes only white space around it.
#[verifier::rlimit(30)]
pub proof fn lemma_trim(s: Seq<char>)
    ensures
        trim(s).len() > 0 ==> !is_white_space(trim(s)[0]) && !is_white_space(trim(s).last()),
        exists|a: int| 0 <= a && a + trim(s).len() <= s.len() && #[trigger] s.subrange(a, a + trim(s).len()) == trim(s)
            && (forall|i: int| 0 <= i < a ==> is_white_space(s[i]))
            && (forall|i: int| a + trim(s).len() <= i < s.len() ==> is_white_space(s[i])),
{
    lemma_trim_start(s);
    let t = trim_start(s);
    lemma_trim_end(t);
    let a = s.len() - t.len();
    let e = trim_end(t);
    assert(s.subrange(a, a + e.len()) =~= t.subrange(0, e.len() as int));
    assert forall|i: int| a + e.len() <= i < s.len() implies is_white_space(s[i]) by {
        assert(s[i] == t[i - a]);
    }
    if e.len() > 0 {
        assert(e[0] == t[0]);
    }
    assert(e == trim(s));
    assert(t =~= s.subrange(a, s.len() as int));
    assert(e =~= t.subrange(0, e.len() as int));
    assert(s.subrange(a, a + e.len()) == e);
    assert(forall|i: int| 0 <= i < a ==> is_white_space(s[i]));
    assert(forall|i: int| a + e.len() <= i < s.len() ==> is_white_space(s[i]));
    assert(0 <= a && a + trim(s).len() <= s.len() && s.subrange(a, a + trim(s).len()) == trim(s)
        && (forall|i: int| 0 <= i < a ==> is_white_space(s[i]))
        && (forall|i: int| a + trim(s).len() <= i < s.len() ==> is_white_space(s[i])));
}

proof fn lemma_trim_start(s: Seq<char>)
    ensures
        trim_start(s).len() <= s.len(),
        trim_start(s) == s.subrange(s.len() - trim_start(s).len(), s.len() as int),
        forall|i: int| 0 <= i < s.len() - trim_start(s).len() ==> is_white_space(s[i]),
        trim_start(s).len() > 0 ==> !is_white_space(trim_start(s)[0]),
    decreases s.len(),
{
    if s.len() > 0 && is_white_space(s[0]) {
        lemma_trim_start(s.drop_first());
        let t = trim_start(s.drop_first());
        assert(s.drop_first().subrange(s.len() - 1 - t.len(), s.len() - 1) =~= s.subrange(s.len() - t.len(), s.len() as int));
        assert forall|i: int| 0 <= i < s.len() - t.len() implies is_white_space(s[i]) by {
            if i > 0 {
                assert(s[i] == s.drop_first()[i - 1]);
            }
        }
    } else {
        assert(s.subrange(0, s.len() as int) =~= s);
    }
}

proof fn lemma_trim_end(s: Seq<char>)
    ensures
        trim_end(s).len() <= s.len(),
        trim_end(s) == s.subrange(0, trim_end(s).len() as int),
        forall|i: int| trim_end(s).len() <= i < s.len() ==> is_white_space(s[i]),
        trim_end(s).len() > 0 ==> !is_white_space(trim_end(s).last()),
    decreases s.len(),
{
    if s.len() > 0 && is_white_space(s.last()) {
        lemma_trim_end(s.drop_last());
        let t = trim_end(s.drop_last());
        assert(s.drop_last().subrange(0, t.len() as int) =~= s.subrange(0, t.len() as int));
        assert forall|i: int| t.len() <= i < s.len() implies is_white_space(s[i]) by {
            if i < s.len() - 1 {
                assert(s[i] == s.drop_last()[i]);
            }
        }
    } else {
        assert(s.subrange(0, s.len() as int) =~= s);
    }
}

/// The number that a string of decimal digits stands for.
pub open spec fn decimal_value(s: Seq<char>) -> int
    decreases s.len(),
{
    if s.len() == 0 {
        0
    } else {
        decimal_value(s.drop_last()) * 10 + (s.last() as int - '0' as int)
    }
}

proof fn lemma_digit(d: nat)
    requires
        d < 10,
    ensures
        digit(d) as int - '0' as int == d,
        '0' <= digit(d) <= '9',
{
}

/// Decimal rendering reads back: every character is a digit `0`–`9`, the first is not
/// `0` unless the number is, and the digits stand for the number.
pub proof fn lemma_decimal(n: nat)
    ensures
        forall|i: int| 0 <= i < decimal(n).len() ==> '0' <= #[trigger] decimal(n)[i] <= '9',
        decimal(n).len() > 0,
        decimal(n)[0] == '0' ==> n == 0,
        decimal_value(decimal(n)) == n,
    decreases n,
{
    lemma_digit(n % 10);
    if n < 10 {
        assert(decimal(n).drop_last() =~= Seq::<char>::empty());
        assert(decimal_value(Seq::<char>::empty()) == 0);
        assert(decimal_value(decimal(n)) == 0 * 10 + (digit(n) as int - '0' as int));
    }
    if n >= 10 {
        lemma_decimal(n / 10);
        let p = decimal(n / 10);
        assert(decimal(n) == p.push(digit(n % 10)));
        assert(decimal(n).drop_last() == p);
        assert forall|i: int| 0 <= i < decimal(n).len() implies '0' <= #[trigger] decimal(n)[i] <= '9' by {
            if i < p.len() {
                assert(decimal(n)[i] == p[i]);
            }
        }
        assert(decimal(n)[0] == p[0]);
        assert(decimal_value(decimal(n)) == decimal_value(p) * 10 + (digit(n % 10) as int - '0' as int));
        assert(n == (n / 10) * 10 + n % 10);
    }
}

proof fn lemma_line_scan(s: Seq<char>)
    ensures
        forall|k: int| 0 <= k < line_scan(s).0.len() ==> !(#[trigger] line_scan(s).0[k]).contains('\n'),
        !line_scan(s).1.contains('\n'),
    decreases s.len(),
{
    if s.len() > 0 {
        lemma_line_scan(s.drop_last());
        let (done, open) = line_scan(s.drop_last());
        if s.last() == '\n' {
            let l = strip_cr(open);
            assert(!l.contains('\n')) by {
                if l.contains('\n') {
                    let j = choose|j: int| 0 <= j < l.len() && l[j] == '\n';
                    assert(open[j] == l[j]);
                }
            }
            assert forall|k: int| 0 <= k < done.push(l).len() implies !(#[trigger] done.push(l)[k]).contains('\n') by {
                if k < done.len() {
                    assert(done.push(l)[k] == done[k]);
                }
            }
            assert(!Seq::<char>::empty().contains('\n'));
        } else {
            let o = open.push(s.last());
            assert(!o.contains('\n')) by {
                if o.contains('\n') {
                    let j = choose|j: int| 0 <= j < o.len() && o[j] == '\n';
                    if j < open.len() {
                        assert(o[j] == open[j]);
                    }
                }
            }
        }
    }
}

/// No line holds a line break.
pub proof fn lemma_lines_unbroken(s: Seq<char>)
    ensures
        forall|k: int| 0 <= k < lines(s).len() ==> !(#[trigger] lines(s)[k]).contains('\n'),
{
    lemma_line_scan(s);
    let (done, open) = line_scan(s);
    if open.len() > 0 {
        assert forall|k: int| 0 <= k < lines(s).len() implies !(#[trigger] lines(s)[k]).contains('\n') by {
            if k < done.len() {
                assert(lines(s)[k] == done[k]);
            }
        }
    }
}

} // verus!
