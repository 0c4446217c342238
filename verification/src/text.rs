//! Character-level text handling shared by the whole library: trimming,
//! splitting, line breaking, prefixes, decimal rendering and parsing.
use vstd::prelude::*;

verus! {

// ── specifications ─────────────────────────────────────────────────────────

/// Whether `c` carries Unicode's `White_Space` property (what `char::is_whitespace`
/// reports): U+0009 to U+000D, U+0020, U+0085, U+00A0, U+1680, U+2000 to U+200A,
/// U+2028, U+2029, U+202F, U+205F and U+3000.
pub open spec fn white_space(c: char) -> bool {
    ||| '\u{9}' <= c <= '\u{d}'
    ||| c == ' '
    ||| c == '\u{85}'
    ||| c == '\u{a0}'
    ||| c == '\u{1680}'
    ||| '\u{2000}' <= c <= '\u{200a}'
    ||| c == '\u{2028}'
    ||| c == '\u{2029}'
    ||| c == '\u{202f}'
    ||| c == '\u{205f}'
    ||| c == '\u{3000}'
}

/// `s` without its leading white space.
pub open spec fn trim_start_spec(s: Seq<char>) -> Seq<char>
    decreases s.len(),
{
    if s.len() > 0 && white_space(s[0]) {
        trim_start_spec(s.drop_first())
    } else {
        s
    }
}

/// `s` without its trailing white space.
pub open spec fn trim_end_spec(s: Seq<char>) -> Seq<char>
    decreases s.len(),
{
    if s.len() > 0 && white_space(s.last()) {
        trim_end_spec(s.drop_last())
    } else {
        s
    }
}

/// `s` without leading and trailing white space (what `str::trim` returns).
pub open spec fn trim_spec(s: Seq<char>) -> Seq<char> {
    trim_end_spec(trim_start_spec(s))
}

/// The pieces of `s` between occurrences of `sep` (what `str::split` yields):
/// always at least one piece; `k` separators give `k + 1` pieces.
pub open spec fn split_spec(s: Seq<char>, sep: char) -> Seq<Seq<char>>
    decreases s.len(),
{
    if s.len() == 0 {
        seq![Seq::<char>::empty()]
    } else {
        let rest = split_spec(s.drop_first(), sep);
        if s[0] == sep {
            seq![Seq::<char>::empty()] + rest
        } else {
            rest.update(0, seq![s[0]] + rest[0])
        }
    }
}

/// `x` without one trailing carriage return, if it has one.
pub open spec fn strip_cr(x: Seq<char>) -> Seq<char> {
    if x.len() > 0 && x.last() == '\r' {
        x.drop_last()
    } else {
        x
    }
}

/// The lines of `s` (what `str::lines` yields): pieces between `'\n'`, each
/// piece that was ended by `'\n'` also losing one `'\r'` before it; a final
/// empty piece (text ending in `'\n'`, or no text at all) is not a line.
pub open spec fn lines_spec(s: Seq<char>) -> Seq<Seq<char>> {
    let parts = split_spec(s, '\n');
    let body = parts.take(parts.len() - 1).map_values(|p: Seq<char>| strip_cr(p));
    if parts.last().len() == 0 {
        body
    } else {
        body.push(parts.last())
    }
}

/// The views of a vector of strings.
pub open spec fn views(v: Seq<String>) -> Seq<Seq<char>> {
    v.map_values(|x: String| x@)
}

/// The views of a vector of string pairs.
pub open spec fn pair_views(v: Seq<(String, String)>) -> Seq<(Seq<char>, Seq<char>)> {
    v.map_values(|p: (String, String)| (p.0@, p.1@))
}

// ── primitives ─────────────────────────────────────────────────────────────

/// `String::push`: appends one character.
#[verifier::external_body]
pub fn push_char(s: &mut String, c: char)
    ensures
        final(s)@ == old(s)@.push(c),
{
    s.push(c);
}

/// Whether `c` is white space in Unicode's sense (as `char::is_whitespace`).
pub fn is_white_space(c: char) -> (r: bool)
    ensures
        r == white_space(c),
{
    ('\u{9}' <= c && c <= '\u{d}') || c == ' ' || c == '\u{85}' || c == '\u{a0}' || c == '\u{1680}'
        || ('\u{2000}' <= c && c <= '\u{200a}') || c == '\u{2028}' || c == '\u{2029}' || c
        == '\u{202f}' || c == '\u{205f}' || c == '\u{3000}'
}

// ── building blocks ────────────────────────────────────────────────────────

/// The characters of `s`, in order.
pub fn chars_of(s: &str) -> (r: Vec<char>)
    ensures
        r@ == s@,
{
    let mut r: Vec<char> = Vec::new();
    for c in it: s.chars()
        invariant
            r@ == it.history(),
    {
        r.push(c);
    }
    r
}

/// The string made of `chars[lo..hi]`.
pub fn string_of(chars: &Vec<char>, lo: usize, hi: usize) -> (r: String)
    requires
        lo <= hi <= chars.len(),
    ensures
        r@ == chars@.subrange(lo as int, hi as int),
{
    let mut r = String::new();
    let mut i = lo;
    while i < hi
        invariant
            lo <= i <= hi <= chars.len(),
            r@ == chars@.subrange(lo as int, i as int),
        decreases hi - i,
    {
        push_char(&mut r, chars[i]);
        assert(chars@.subrange(lo as int, i + 1) =~= chars@.subrange(lo as int, i as int).push(
            chars@[i as int],
        ));
        i += 1;
    }
    r
}

/// Whether two texts are the same.
pub fn same_text(a: &str, b: &str) -> (r: bool)
    ensures
        r == (a@ == b@),
{
    let x = a.to_owned();
    let y = b.to_owned();
    x == y
}

// ── trimming ───────────────────────────────────────────────────────────────

proof fn lemma_trim_start_step(s: Seq<char>, i: int)
    requires
        0 <= i < s.len(),
        white_space(s[i]),
    ensures
        trim_start_spec(s.skip(i)) == trim_start_spec(s.skip(i + 1)),
{
    assert(s.skip(i).drop_first() =~= s.skip(i + 1));
}

proof fn lemma_trim_end_step(s: Seq<char>, i: int, j: int)
    requires
        0 <= i < j <= s.len(),
        white_space(s[j - 1]),
    ensures
        trim_end_spec(s.subrange(i, j)) == trim_end_spec(s.subrange(i, j - 1)),
{
    assert(s.subrange(i, j).drop_last() =~= s.subrange(i, j - 1));
}

/// `s` without leading and trailing white space.
pub fn trim(s: &str) -> (r: String)
    ensures
        r@ == trim_spec(s@),
{
    let c = chars_of(s);
    let n = c.len();
    let mut i: usize = 0;
    assert(c@.skip(0) =~= c@);
    while i < n && is_white_space(c[i])
        invariant
            i <= n == c@.len(),
            trim_start_spec(c@) == trim_start_spec(c@.skip(i as int)),
        decreases n - i,
    {
        proof {
            lemma_trim_start_step(c@, i as int);
        }
        i += 1;
    }
    assert(trim_start_spec(c@.skip(i as int)) == c@.skip(i as int));
    let mut j: usize = n;
    assert(c@.skip(i as int) =~= c@.subrange(i as int, n as int));
    while j > i && is_white_space(c[j - 1])
        invariant
            i <= j <= n == c@.len(),
            trim_spec(c@) == trim_end_spec(c@.subrange(i as int, j as int)),
        decreases j,
    {
        proof {
            lemma_trim_end_step(c@, i as int, j as int);
        }
        j -= 1;
    }
    string_of(&c, i, j)
}

// ── splitting ──────────────────────────────────────────────────────────────

/// `parts` with `cur` put in front of its first piece.
pub open spec fn prepend_first(cur: Seq<char>, parts: Seq<Seq<char>>) -> Seq<Seq<char>> {
    parts.update(0, cur + parts[0])
}

pub proof fn lemma_split_nonempty(s: Seq<char>, sep: char)
    ensures
        split_spec(s, sep).len() >= 1,
    decreases s.len(),
{
    if s.len() > 0 {
        lemma_split_nonempty(s.drop_first(), sep);
    }
}

/// The pieces of `s` between occurrences of `sep`.
pub fn split_char(s: &str, sep: char) -> (r: Vec<String>)
    ensures
        views(r@) == split_spec(s@, sep),
{
    let c = chars_of(s);
    let n = c.len();
    let mut acc: Vec<String> = Vec::new();
    let mut start: usize = 0;
    let mut i: usize = 0;
    assert(c@.skip(0) =~= c@);
    proof {
        lemma_split_nonempty(c@, sep);
        assert(prepend_first(Seq::empty(), split_spec(c@, sep)) =~= split_spec(c@, sep));
    }
    while i < n
        invariant
            start <= i <= n == c@.len(),
            split_spec(c@, sep) == views(acc@) + prepend_first(
                c@.subrange(start as int, i as int),
                split_spec(c@.skip(i as int), sep),
            ),
        decreases n - i,
    {
        let ghost cur = c@.subrange(start as int, i as int);
        let ghost rest = split_spec(c@.skip((i + 1) as int), sep);
        proof {
            assert(c@.skip(i as int).drop_first() =~= c@.skip(i + 1));
            lemma_split_nonempty(c@.skip(i + 1), sep);
        }
        if c[i] == sep {
            let piece = string_of(&c, start, i);
            let ghost before = acc@;
            acc.push(piece);
            proof {
                assert(views(acc@) =~= views(before).push(cur)) by {
                    assert(acc@ =~= before.push(piece));
                };
            }
            i += 1;
            start = i;
            proof {
                assert(prepend_first(Seq::empty(), rest) =~= rest);
                assert(c@.subrange(start as int, i as int) =~= Seq::<char>::empty());
                assert(prepend_first(cur, seq![Seq::<char>::empty()] + rest) =~= seq![cur] + rest);
                assert(views(acc@) + rest =~= views(before) + (seq![cur] + rest));
            }
        } else {
            proof {
                assert(c@.subrange(start as int, i + 1) =~= cur.push(c@[i as int]));
                assert(cur + (seq![c@[i as int]] + rest[0]) =~= cur.push(c@[i as int]) + rest[0]);
                assert(prepend_first(cur, rest.update(0, seq![c@[i as int]] + rest[0]))
                    =~= prepend_first(cur.push(c@[i as int]), rest));
            }
            i += 1;
        }
    }
    let last = string_of(&c, start, n);
    proof {
        assert(c@.skip(n as int) =~= Seq::<char>::empty());
        assert(prepend_first(c@.subrange(start as int, n as int), seq![Seq::<char>::empty()])
            =~= seq![last@]);
    }
    let ghost before = acc@;
    acc.push(last);
    assert(views(acc@) =~= views(before) + seq![last@]);
    acc
}

/// The lines of `s`, as `str::lines` gives them.
pub fn lines(s: &str) -> (r: Vec<String>)
    ensures
        views(r@) == lines_spec(s@),
{
    let parts = split_char(s, '\n');
    let ghost p = views(parts@);
    proof {
        lemma_split_nonempty(s@, '\n');
    }
    let n = parts.len();
    let mut out: Vec<String> = Vec::new();
    let mut i: usize = 0;
    while i + 1 < n
        invariant
            n == parts@.len() >= 1,
            p == views(parts@),
            i + 1 <= n,
            views(out@) == p.take(i as int).map_values(|q: Seq<char>| strip_cr(q)),
        decreases n - i,
    {
        let line = strip_trailing_cr(&parts[i]);
        let ghost before = out@;
        out.push(line);
        assert(views(out@) =~= p.take(i + 1).map_values(|q: Seq<char>| strip_cr(q))) by {
            assert(out@ =~= before.push(line));
            assert(views(out@) =~= views(before).push(line@));
            assert(p.take(i + 1).map_values(|q: Seq<char>| strip_cr(q)) =~= p.take(
                i as int,
            ).map_values(|q: Seq<char>| strip_cr(q)).push(strip_cr(p[i as int])));
        };
        i += 1;
    }
    assert(i == n - 1);
    let last = &parts[n - 1];
    if last.as_str().is_empty() {
        out
    } else {
        let ghost before = out@;
        out.push(last.clone());
        assert(views(out@) =~= views(before).push(p.last()));
        out
    }
}

/// `x` without one trailing carriage return, if it has one.
pub fn strip_trailing_cr(x: &String) -> (r: String)
    ensures
        r@ == strip_cr(x@),
{
    let c = chars_of(x.as_str());
    let n = c.len();
    if n > 0 && c[n - 1] == '\r' {
        let r = string_of(&c, 0, n - 1);
        assert(r@ =~= x@.drop_last());
        r
    } else {
        let r = string_of(&c, 0, n);
        assert(r@ =~= x@);
        r
    }
}


// ── prefixes ───────────────────────────────────────────────────────────────

/// `s` without `prefix`, when `s` begins with it (what `str::strip_prefix` gives).
pub open spec fn strip_prefix_spec(s: Seq<char>, prefix: Seq<char>) -> Option<Seq<char>> {
    if prefix.is_prefix_of(s) {
        Some(s.skip(prefix.len() as int))
    } else {
        None
    }
}

/// `s` without `prefix`, when `s` begins with it.
pub fn strip_prefix(s: &str, prefix: &str) -> (r: Option<String>)
    ensures
        r matches Some(x) ==> strip_prefix_spec(s@, prefix@) == Some(x@),
        r is None ==> strip_prefix_spec(s@, prefix@) is None,
{
    let c = chars_of(s);
    let p = chars_of(prefix);
    let n = c.len();
    let m = p.len();
    if m > n {
        return None;
    }
    let mut i: usize = 0;
    while i < m
        invariant
            i <= m <= n,
            n == c@.len(),
            m == p@.len(),
            c@ == s@,
            p@ == prefix@,
            forall|k: int| 0 <= k < i ==> p@[k] == c@[k],
        decreases m - i,
    {
        if p[i] != c[i] {
            assert(!prefix@.is_prefix_of(s@)) by {
                assert(s@.subrange(0, m as int)[i as int] == c@[i as int]);
            };
            return None;
        }
        i += 1;
    }
    let rest = string_of(&c, m, n);
    assert(rest@ =~= s@.skip(m as int));
    Some(rest)
}

// ── decimal numbers ────────────────────────────────────────────────────────

/// The decimal digit character for `d` (0 through 9).
pub open spec fn digit_char(d: int) -> char {
    if d == 0 {
        '0'
    } else if d == 1 {
        '1'
    } else if d == 2 {
        '2'
    } else if d == 3 {
        '3'
    } else if d == 4 {
        '4'
    } else if d == 5 {
        '5'
    } else if d == 6 {
        '6'
    } else if d == 7 {
        '7'
    } else if d == 8 {
        '8'
    } else {
        '9'
    }
}

pub open spec fn is_digit(c: char) -> bool {
    '0' <= c <= '9'
}

pub open spec fn digit_value(c: char) -> int {
    c as int - '0' as int
}

pub open spec fn all_digits(s: Seq<char>) -> bool {
    forall|i: int| 0 <= i < s.len() ==> is_digit(#[trigger] s[i])
}

/// The number written by the digits `s` (most significant first).
pub open spec fn digits_value(s: Seq<char>) -> int
    decreases s.len(),
{
    if s.len() == 0 {
        0
    } else {
        digits_value(s.drop_last()) * 10 + digit_value(s.last())
    }
}

/// The decimal writing of `n`, without sign or leading zeros (what `u64`'s `Display` prints).
pub open spec fn decimal_spec(n: nat) -> Seq<char>
    decreases n,
{
    if n < 10 {
        seq![digit_char(n as int)]
    } else {
        decimal_spec(n / 10).push(digit_char((n % 10) as int))
    }
}

/// What `str::parse::<u64>` accepts: an optional `+`, then one or more ASCII
/// digits whose value fits in a `u64`.
pub open spec fn parse_u64_spec(s: Seq<char>) -> Option<u64> {
    let d = if s.len() > 0 && s[0] == '+' {
        s.drop_first()
    } else {
        s
    };
    if d.len() > 0 && all_digits(d) && digits_value(d) <= u64::MAX {
        Some(digits_value(d) as u64)
    } else {
        None
    }
}

fn digit(d: u64) -> (c: char)
    requires
        d < 10,
    ensures
        c == digit_char(d as int),
{
    if d == 0 {
        '0'
    } else if d == 1 {
        '1'
    } else if d == 2 {
        '2'
    } else if d == 3 {
        '3'
    } else if d == 4 {
        '4'
    } else if d == 5 {
        '5'
    } else if d == 6 {
        '6'
    } else if d == 7 {
        '7'
    } else if d == 8 {
        '8'
    } else {
        '9'
    }
}

/// Appends the decimal writing of `n` to `out`.
pub fn write_decimal(n: u64, out: &mut String)
    ensures
        final(out)@ == old(out)@ + decimal_spec(n as nat),
    decreases n,
{
    let ghost start = out@;
    if n >= 10 {
        write_decimal(n / 10, out);
    }
    let ghost mid = out@;
    push_char(out, digit(n % 10));
    proof {
        if n >= 10 {
            assert(mid == start + decimal_spec((n / 10) as nat));
            assert(out@ =~= start + decimal_spec((n / 10) as nat).push(digit_char((n % 10) as int)));
        } else {
            assert(out@ =~= start + decimal_spec(n as nat));
        }
    }
}

/// The decimal writing of `n`.
pub fn decimal(n: u64) -> (r: String)
    ensures
        r@ == decimal_spec(n as nat),
{
    let mut r = String::new();
    write_decimal(n, &mut r);
    assert(r@ =~= decimal_spec(n as nat));
    r
}

proof fn lemma_digits_value_nonneg(s: Seq<char>)
    requires
        all_digits(s),
    ensures
        digits_value(s) >= 0,
    decreases s.len(),
{
    if s.len() > 0 {
        assert(all_digits(s.drop_last()));
        lemma_digits_value_nonneg(s.drop_last());
    }
}

proof fn lemma_digits_value_prefix(s: Seq<char>, k: int)
    requires
        all_digits(s),
        0 <= k <= s.len(),
    ensures
        digits_value(s.take(k)) <= digits_value(s),
    decreases s.len(),
{
    if k < s.len() {
        assert(all_digits(s.drop_last()));
        lemma_digits_value_prefix(s.drop_last(), k);
        assert(s.drop_last().take(k) =~= s.take(k));
        lemma_digits_value_nonneg(s.drop_last());
    } else {
        assert(s.take(k) =~= s);
    }
}

/// The `u64` that `s` writes, as `str::parse::<u64>` reads it.
pub fn parse_u64(s: &str) -> (r: Option<u64>)
    ensures
        r == parse_u64_spec(s@),
{
    let c = chars_of(s);
    let n = c.len();
    let start: usize = if n > 0 && c[0] == '+' {
        1
    } else {
        0
    };
    let ghost d = if s@.len() > 0 && s@[0] == '+' {
        s@.drop_first()
    } else {
        s@
    };
    assert(d =~= c@.skip(start as int));
    if start == n {
        return None;
    }
    let mut acc: u64 = 0;
    let mut i: usize = start;
    assert(d.take(0) =~= Seq::<char>::empty());
    while i < n
        invariant
            start < n == c@.len(),
            start <= i <= n,
            c@ == s@,
            d == (if s@.len() > 0 && s@[0] == '+' {
                s@.drop_first()
            } else {
                s@
            }),
            d == c@.skip(start as int),
            forall|k: int| 0 <= k < i - start ==> is_digit(#[trigger] d[k]),
            acc as int == digits_value(d.take(i - start)),
        decreases n - i,
    {
        let ch = c[i];
        if !('0' <= ch && ch <= '9') {
            assert(!all_digits(d)) by {
                assert(d[i - start] == ch);
            };
            assert(parse_u64_spec(s@) is None);
            return None;
        }
        let dv: u64 = (ch as u32 - '0' as u32) as u64;
        let next: u128 = (acc as u128) * 10 + dv as u128;
        assert(d.take(i - start + 1).drop_last() =~= d.take(i - start));
        assert(d.take(i - start + 1).last() == ch);
        if next > u64::MAX as u128 {
            // The digits seen so far already exceed the range; later digits only add.
            let mut j = i + 1;
            while j < n
                invariant
                    start <= i < j <= n == c@.len(),
                    c@ == s@,
                    d == (if s@.len() > 0 && s@[0] == '+' {
                        s@.drop_first()
                    } else {
                        s@
                    }),
                    d == c@.skip(start as int),
                    digits_value(d.take(i - start + 1)) > u64::MAX,
                    forall|k: int| 0 <= k < j - start ==> is_digit(#[trigger] d[k]),
                decreases n - j,
            {
                if !('0' <= c[j] && c[j] <= '9') {
                    assert(!all_digits(d)) by {
                        assert(d[j - start] == c[j as int]);
                    };
                    return None;
                }
                j += 1;
            }
            proof {
                assert(all_digits(d));
                lemma_digits_value_prefix(d, i - start + 1);
            }
            return None;
        }
        acc = next as u64;
        i += 1;
    }
    assert(d.take(n - start) =~= d);
    Some(acc)
}

/// `parse_u64` reads back exactly what `decimal` writes.
pub proof fn law_decimal_parses_back(n: u64)
    ensures
        parse_u64_spec(decimal_spec(n as nat)) == Some(n),
{
    lemma_decimal_digits(n as nat);
}

proof fn lemma_decimal_digits(n: nat)
    ensures
        decimal_spec(n).len() >= 1,
        all_digits(decimal_spec(n)),
        digits_value(decimal_spec(n)) == n,
        decimal_spec(n)[0] != '+',
    decreases n,
{
    if n >= 10 {
        lemma_decimal_digits(n / 10);
        lemma_digit_char_value((n % 10) as int);
        let s = decimal_spec(n);
        assert(s.drop_last() =~= decimal_spec(n / 10));
        assert(s[0] == decimal_spec(n / 10)[0]);
        assert(digits_value(s) == digits_value(s.drop_last()) * 10 + digit_value(s.last()));
        assert(s.last() == digit_char((n % 10) as int));
        assert((n / 10) * 10 + n % 10 == n);
    } else {
        lemma_digit_char_value(n as int);
        assert(decimal_spec(n).drop_last() =~= Seq::<char>::empty());
        assert(digits_value(decimal_spec(n).drop_last()) == 0);
    }
}

proof fn lemma_digit_char_value(d: int)
    requires
        0 <= d < 10,
    ensures
        is_digit(digit_char(d)),
        digit_value(digit_char(d)) == d,
        digit_char(d) != '+',
{
}


// ── searching ──────────────────────────────────────────────────────────────

/// The first position at or after `i` where `pat` occurs in `s`.
pub open spec fn find_from(s: Seq<char>, pat: Seq<char>, i: int) -> Option<int>
    decreases s.len() + 1 - i,
{
    if i < 0 || i + pat.len() > s.len() {
        None
    } else if s.subrange(i, i + pat.len()) == pat {
        Some(i)
    } else {
        find_from(s, pat, i + 1)
    }
}

/// The first position where `pat` occurs in `s`.
pub open spec fn find_spec(s: Seq<char>, pat: Seq<char>) -> Option<int> {
    find_from(s, pat, 0)
}

/// What follows the first occurrence of `pat` in `s` (what `str::split_once` gives second).
pub open spec fn after_first_spec(s: Seq<char>, pat: Seq<char>) -> Option<Seq<char>> {
    match find_spec(s, pat) {
        Some(i) => Some(s.skip(i + pat.len())),
        None => None,
    }
}

/// What precedes the first occurrence of `pat` in `s`, or all of `s` (what
/// `str::split` yields first).
pub open spec fn before_first_spec(s: Seq<char>, pat: Seq<char>) -> Seq<char> {
    match find_spec(s, pat) {
        Some(i) => s.take(i),
        None => s,
    }
}

fn matches_at(c: &Vec<char>, p: &Vec<char>, i: usize) -> (r: bool)
    requires
        i + p@.len() <= c@.len(),
    ensures
        r == (c@.subrange(i as int, i + p@.len()) == p@),
{
    let n = c.len();
    let m = p.len();
    let mut j: usize = 0;
    while j < m
        invariant
            m == p@.len(),
            n == c@.len(),
            i + m <= n,
            j <= m,
            forall|k: int| 0 <= k < j ==> c@[i + k] == p@[k],
        decreases m - j,
    {
        if c[i + j] != p[j] {
            assert(c@.subrange(i as int, i + m)[j as int] != p@[j as int]);
            return false;
        }
        j += 1;
    }
    assert(c@.subrange(i as int, i + m) =~= p@);
    true
}

/// The first position (in characters) where `pat` occurs in `s`.
pub fn find(s: &str, pat: &str) -> (r: Option<usize>)
    ensures
        match r {
            Some(i) => find_spec(s@, pat@) == Some(i as int),
            None => find_spec(s@, pat@) is None,
        },
{
    let c = chars_of(s);
    let p = chars_of(pat);
    let n = c.len();
    let m = p.len();
    let mut i: usize = 0;
    while m <= n && i <= n - m
        invariant
            n == c@.len() == s@.len(),
            m == p@.len() == pat@.len(),
            c@ == s@,
            p@ == pat@,
            i <= n,
            find_spec(s@, pat@) == find_from(s@, pat@, i as int),
        decreases n - i,
    {
        if matches_at(&c, &p, i) {
            return Some(i);
        }
        assert(m > 0) by {
            if m == 0 {
                assert(c@.subrange(i as int, i as int) =~= p@);
            }
        };
        i += 1;
    }
    None
}

/// What follows the first occurrence of `pat` in `s`.
pub fn after_first(s: &str, pat: &str) -> (r: Option<String>)
    ensures
        ov_text(r) == after_first_spec(s@, pat@),
{
    match find(s, pat) {
        Some(i) => {
            let c = chars_of(s);
            let n = c.len();
            let m = pat.unicode_len();
            proof {
                lemma_find_from_bounds(s@, pat@, 0);
            }
            let rest = string_of(&c, i + m, n);
            assert(rest@ =~= s@.skip(i + pat@.len()));
            Some(rest)
        },
        None => None,
    }
}

/// What precedes the first occurrence of `pat` in `s`, or all of `s`.
pub fn before_first(s: &str, pat: &str) -> (r: String)
    ensures
        r@ == before_first_spec(s@, pat@),
{
    let c = chars_of(s);
    match find(s, pat) {
        Some(i) => {
            proof {
                lemma_find_from_bounds(s@, pat@, 0);
            }
            let r = string_of(&c, 0, i);
            assert(r@ =~= s@.take(i as int));
            r
        },
        None => {
            let r = string_of(&c, 0, c.len());
            assert(r@ =~= s@);
            r
        },
    }
}

proof fn lemma_find_from_bounds(s: Seq<char>, pat: Seq<char>, i: int)
    ensures
        find_from(s, pat, i) matches Some(j) ==> i <= j && 0 <= j && j + pat.len() <= s.len(),
    decreases s.len() + 1 - i,
{
    if !(i < 0 || i + pat.len() > s.len()) && s.subrange(i, i + pat.len()) != pat {
        lemma_find_from_bounds(s, pat, i + 1);
    }
}

pub open spec fn ov_text(o: Option<String>) -> Option<Seq<char>> {
    match o {
        Some(s) => Some(s@),
        None => None,
    }
}

} // verus!
