//! Line- and token-oriented text handling over character sequences:
//! searching, splitting into lines and whitespace-separated tokens,
//! trimming, joining, and decimal conversion. These are the textual
//! building blocks of URL resolution and response parsing.

use vstd::prelude::*;

verus! {

/// A blank character for this library's purposes: the ASCII space or tab.
pub open spec fn is_ws(c: char) -> bool {
    c == ' ' || c == '\t'
}

/// Index of the first occurrence of `c` in `s` at or after `i`;
/// `s.len()` when there is none.
pub open spec fn find_from(s: Seq<char>, i: int, c: char) -> int
    decreases s.len() - i,
{
    if i < 0 || i >= s.len() {
        s.len() as int
    } else if s[i] == c {
        i
    } else {
        find_from(s, i + 1, c)
    }
}

/// `find_from` returns the first occurrence at or after `i`:
/// it lies between `i` and the length, points at `c` when within range,
/// and nothing before it (from `i` on) is `c`.
pub proof fn lemma_find_from(s: Seq<char>, i: int, c: char)
    requires
        0 <= i <= s.len(),
    ensures
        i <= find_from(s, i, c) <= s.len(),
        find_from(s, i, c) < s.len() ==> s[find_from(s, i, c)] == c,
        forall|j: int| i <= j < find_from(s, i, c) ==> s[j] != c,
    decreases s.len() - i,
{
    if i < s.len() && s[i] != c {
        lemma_find_from(s, i + 1, c);
    }
}

/// First index at or after `start` where `c` occurs in `s`, or the
/// character length of `s` when it does not occur.
pub fn find_char_from(s: &str, start: usize, c: char) -> (r: usize)
    requires
        start <= s@.len(),
    ensures
        r == find_from(s@, start as int, c),
{
    let n: usize = s.unicode_len();
    let mut i: usize = start;
    while i < n
        invariant
            start <= i <= n,
            n == s@.len(),
            forall|j: int| start <= j < i ==> s@[j] != c,
        decreases n - i,
    {
        if s.get_char(i) == c {
            proof {
                lemma_find_from(s@, start as int, c);
            }
            return i;
        }
        i = i + 1;
    }
    proof {
        lemma_find_from(s@, start as int, c);
    }
    n
}

/// Index of the first blank (space or tab) in `s` at or after `i`;
/// `s.len()` when there is none.
pub open spec fn ws_from(s: Seq<char>, i: int) -> int
    decreases s.len() - i,
{
    if i < 0 || i >= s.len() {
        s.len() as int
    } else if is_ws(s[i]) {
        i
    } else {
        ws_from(s, i + 1)
    }
}

/// `ws_from` returns the first blank at or after `i`.
pub proof fn lemma_ws_from(s: Seq<char>, i: int)
    requires
        0 <= i <= s.len(),
    ensures
        i <= ws_from(s, i) <= s.len(),
        ws_from(s, i) < s.len() ==> is_ws(s[ws_from(s, i)]),
        forall|j: int| i <= j < ws_from(s, i) ==> !is_ws(s[j]),
    decreases s.len() - i,
{
    if i < s.len() && !is_ws(s[i]) {
        lemma_ws_from(s, i + 1);
    }
}

/// First index at or after `start` holding a blank, or the character
/// length of `s` when there is none.
pub fn find_ws_from(s: &str, start: usize) -> (r: usize)
    requires
        start <= s@.len(),
    ensures
        r == ws_from(s@, start as int),
{
    let n: usize = s.unicode_len();
    let mut i: usize = start;
    while i < n
        invariant
            start <= i <= n,
            n == s@.len(),
            forall|j: int| start <= j < i ==> !is_ws(s@[j]),
        decreases n - i,
    {
        let c = s.get_char(i);
        if c == ' ' || c == '\t' {
            proof {
                lemma_ws_from(s@, start as int);
            }
            return i;
        }
        i = i + 1;
    }
    proof {
        lemma_ws_from(s@, start as int);
    }
    n
}

/// A line with a trailing carriage return dropped.
pub open spec fn strip_cr(l: Seq<char>) -> Seq<char> {
    if l.len() > 0 && l[l.len() - 1] == '\r' {
        l.drop_last()
    } else {
        l
    }
}

/// The lines of `s` from index `i` on. A line ends at a `'\n'`, and a
/// `'\r'` just before the `'\n'` is not part of the line; text after the
/// last `'\n'`, if any, is a final line.
pub open spec fn lines_from(s: Seq<char>, i: int) -> Seq<Seq<char>>
    decreases s.len() - i + 1,
    via lines_from_decreases
{
    if i < 0 || i >= s.len() {
        Seq::empty()
    } else {
        let j = find_from(s, i, '\n');
        seq![strip_cr(s.subrange(i, j))] + lines_from(s, j + 1)
    }
}

#[via_fn]
proof fn lines_from_decreases(s: Seq<char>, i: int) {
    if 0 <= i < s.len() {
        lemma_find_from(s, i, '\n');
    }
}

/// Split `s` into its lines, as `lines_from` describes from the start.
pub fn split_lines(s: &str) -> (lines: Vec<String>)
    ensures
        lines.deep_view() == lines_from(s@, 0),
{
    let n: usize = s.unicode_len();
    let mut out: Vec<String> = Vec::new();
    let mut i: usize = 0;
    while i < n
        invariant
            i <= n,
            n == s@.len(),
            lines_from(s@, 0) == out.deep_view() + lines_from(s@, i as int),
        decreases n - i,
    {
        let j = find_char_from(s, i, '\n');
        proof {
            lemma_find_from(s@, i as int, '\n');
        }
        let line_end: usize = if j > i && s.get_char(j - 1) == '\r' {
            j - 1
        } else {
            j
        };
        let line = String::from_str(s.substring_char(i, line_end));
        out.push(line);
        proof {
            assert(strip_cr(s@.subrange(i as int, j as int)) =~= s@.subrange(
                i as int,
                line_end as int,
            ));
            assert(lines_from(s@, 0) =~= out.deep_view() + lines_from(s@, j + 1));
        }
        if j < n {
            i = j + 1;
        } else {
            i = n;
            proof {
                assert(lines_from(s@, j + 1) =~= lines_from(s@, n as int));
            }
        }
    }
    proof {
        assert(out.deep_view() =~= out.deep_view() + lines_from(s@, n as int));
    }
    out
}

/// The blank-separated tokens of `s` from index `i` on: maximal runs of
/// non-blank characters, in order.
pub open spec fn tokens_from(s: Seq<char>, i: int) -> Seq<Seq<char>>
    decreases s.len() - i + 1,
    via tokens_from_decreases
{
    if i < 0 || i >= s.len() {
        Seq::empty()
    } else if is_ws(s[i]) {
        tokens_from(s, i + 1)
    } else {
        let j = ws_from(s, i);
        seq![s.subrange(i, j)] + tokens_from(s, j + 1)
    }
}

#[via_fn]
proof fn tokens_from_decreases(s: Seq<char>, i: int) {
    if 0 <= i < s.len() {
        lemma_ws_from(s, i);
    }
}

/// Split `s` into its blank-separated tokens.
pub fn split_tokens(s: &str) -> (toks: Vec<String>)
    ensures
        toks.deep_view() == tokens_from(s@, 0),
{
    let n: usize = s.unicode_len();
    let mut out: Vec<String> = Vec::new();
    let mut i: usize = 0;
    while i < n
        invariant
            i <= n,
            n == s@.len(),
            tokens_from(s@, 0) == out.deep_view() + tokens_from(s@, i as int),
        decreases n - i,
    {
        let c = s.get_char(i);
        if c == ' ' || c == '\t' {
            i = i + 1;
        } else {
            let j = find_ws_from(s, i);
            proof {
                lemma_ws_from(s@, i as int);
            }
            out.push(String::from_str(s.substring_char(i, j)));
            proof {
                assert(tokens_from(s@, 0) =~= out.deep_view() + tokens_from(s@, j + 1));
            }
            if j < n {
                i = j + 1;
            } else {
                i = n;
                proof {
                    assert(tokens_from(s@, j + 1) =~= tokens_from(s@, n as int));
                }
            }
        }
    }
    proof {
        assert(out.deep_view() =~= out.deep_view() + tokens_from(s@, n as int));
    }
    out
}

/// `s` without its leading blanks.
pub open spec fn trim_start(s: Seq<char>) -> Seq<char>
    decreases s.len(),
{
    if s.len() > 0 && is_ws(s[0]) {
        trim_start(s.skip(1))
    } else {
        s
    }
}

/// `s` without its trailing blanks.
pub open spec fn trim_end(s: Seq<char>) -> Seq<char>
    decreases s.len(),
{
    if s.len() > 0 && is_ws(s.last()) {
        trim_end(s.drop_last())
    } else {
        s
    }
}

/// `s` without leading or trailing blanks.
pub open spec fn trimmed(s: Seq<char>) -> Seq<char> {
    trim_end(trim_start(s))
}

/// A line is blank when it holds nothing but blanks.
pub open spec fn is_blank_line(l: Seq<char>) -> bool {
    trimmed(l).len() == 0
}

/// When everything before `a` is blank and `a` is past the end or
/// non-blank, trimming the start drops exactly the first `a` characters.
proof fn lemma_trim_start_at(s: Seq<char>, a: int)
    requires
        0 <= a <= s.len(),
        forall|j: int| 0 <= j < a ==> is_ws(s[j]),
        a < s.len() ==> !is_ws(s[a]),
    ensures
        trim_start(s) == s.skip(a),
    decreases a,
{
    if a == 0 {
        assert(s.skip(0) =~= s);
    } else {
        lemma_trim_start_at(s.skip(1), a - 1);
        assert(s.skip(1).skip(a - 1) =~= s.skip(a));
    }
}

/// When everything from `b` on is blank and `b` is at the start or has a
/// non-blank just before it, trimming the end keeps exactly the first `b`
/// characters.
proof fn lemma_trim_end_at(s: Seq<char>, b: int)
    requires
        0 <= b <= s.len(),
        forall|j: int| b <= j < s.len() ==> is_ws(s[j]),
        b > 0 ==> !is_ws(s[b - 1]),
    ensures
        trim_end(s) == s.take(b),
    decreases s.len(),
{
    if s.len() > 0 && is_ws(s.last()) {
        assert(b < s.len());
        lemma_trim_end_at(s.drop_last(), b);
        assert(s.drop_last().take(b) =~= s.take(b));
    } else {
        assert(b == s.len());
        assert(s.take(b) =~= s);
    }
}

/// Whether the character of `s` at `i` is a blank.
fn blank_at(s: &str, i: usize) -> (b: bool)
    requires
        i < s@.len(),
    ensures
        b == is_ws(s@[i as int]),
{
    let c = s.get_char(i);
    c == ' ' || c == '\t'
}

/// Copy of `s` without leading or trailing blanks.
pub fn trim_str(s: &str) -> (r: String)
    ensures
        r@ == trimmed(s@),
{
    let n: usize = s.unicode_len();
    let mut a: usize = 0;
    while a < n && blank_at(s, a)
        invariant
            a <= n,
            n == s@.len(),
            forall|j: int| 0 <= j < a ==> is_ws(s@[j]),
        decreases n - a,
    {
        a = a + 1;
    }
    if a == n {
        proof {
            lemma_trim_start_at(s@, n as int);
            assert(s@.skip(n as int) =~= Seq::<char>::empty());
        }
        return String::new();
    }
    let mut b: usize = n;
    while b > a && blank_at(s, b - 1)
        invariant
            a <= b <= n,
            n == s@.len(),
            forall|j: int| b <= j < n ==> is_ws(s@[j]),
        decreases b,
    {
        b = b - 1;
    }
    proof {
        lemma_trim_start_at(s@, a as int);
        lemma_trim_end_at(s@.skip(a as int), b - a);
        assert(s@.skip(a as int).take(b - a) =~= s@.subrange(a as int, b as int));
    }
    String::from_str(s.substring_char(a, b))
}

/// The elements of `parts` from index `i` on, joined by the separator
/// `sep`.
pub open spec fn joined_from(parts: Seq<Seq<char>>, i: int, sep: Seq<char>) -> Seq<char>
    decreases parts.len() - i,
{
    if i < 0 || i >= parts.len() {
        Seq::empty()
    } else if i == parts.len() - 1 {
        parts[i]
    } else {
        parts[i] + sep + joined_from(parts, i + 1, sep)
    }
}

/// Join the elements of `parts` from index `from` on with the separator
/// `sep` between them.
pub fn join_with(parts: &Vec<String>, from: usize, sep: &str) -> (r: String)
    ensures
        r@ == joined_from(parts.deep_view(), from as int, sep@),
{
    let n: usize = parts.len();
    let mut r = String::new();
    if from >= n {
        return r;
    }
    let mut i: usize = n;
    while i > from
        invariant
            from <= i <= n,
            n == parts@.len(),
            r@ == joined_from(parts.deep_view(), i as int, sep@),
        decreases i,
    {
        let mut t = String::from_str(parts[i - 1].as_str());
        if i < n {
            t.append(sep);
            t = t.concat(r.as_str());
        }
        proof {
            assert(parts.deep_view()[i - 1] == parts@[i - 1]@);
        }
        r = t;
        i = i - 1;
    }
    r
}

/// A decimal digit.
pub open spec fn is_digit(c: char) -> bool {
    '0' as u32 <= c as u32 && c as u32 <= '9' as u32
}

/// The value of a decimal digit.
pub open spec fn digit_val(c: char) -> int {
    c as u32 - '0' as u32
}

/// Every character of `s` is a decimal digit.
pub open spec fn all_digits(s: Seq<char>) -> bool {
    forall|i: int| 0 <= i < s.len() ==> is_digit(s[i])
}

/// The value of `s` read as a decimal numeral.
pub open spec fn dec_val(s: Seq<char>) -> int
    decreases s.len(),
{
    if s.len() == 0 {
        0
    } else {
        dec_val(s.drop_last()) * 10 + digit_val(s.last())
    }
}

/// A digit string's value is non-negative.
pub proof fn lemma_dec_val_nonneg(s: Seq<char>)
    requires
        all_digits(s),
    ensures
        dec_val(s) >= 0,
    decreases s.len(),
{
    if s.len() > 0 {
        lemma_dec_val_nonneg(s.drop_last());
    }
}

/// Extending a digit string by one digit multiplies its value by ten and
/// adds the digit.
pub proof fn lemma_dec_val_take_step(s: Seq<char>, i: int)
    requires
        0 <= i < s.len(),
    ensures
        dec_val(s.take(i + 1)) == dec_val(s.take(i)) * 10 + digit_val(s[i]),
{
    assert(s.take(i + 1).drop_last() =~= s.take(i));
}

/// A digit string's value is at least the value of any of its prefixes.
pub proof fn lemma_dec_val_take_le(s: Seq<char>, i: int)
    requires
        all_digits(s),
        0 <= i <= s.len(),
    ensures
        dec_val(s.take(i)) <= dec_val(s),
    decreases s.len() - i,
{
    if i == s.len() {
        assert(s.take(i) =~= s);
    } else {
        lemma_dec_val_take_step(s, i);
        lemma_dec_val_nonneg(s.take(i));
        lemma_dec_val_take_le(s, i + 1);
    }
}

/// What reading `s` as an unsigned sixteen-bit decimal numeral yields:
/// its value when `s` is all digits, non-empty, and in range; nothing
/// otherwise.
pub open spec fn parsed_u16(s: Seq<char>) -> Option<u16> {
    if s.len() > 0 && all_digits(s) && dec_val(s) <= u16::MAX {
        Some(dec_val(s) as u16)
    } else {
        None
    }
}

/// Read `s` as an unsigned sixteen-bit decimal numeral.
pub fn parse_u16(s: &str) -> (r: Option<u16>)
    ensures
        r == parsed_u16(s@),
{
    let n: usize = s.unicode_len();
    if n == 0 {
        return None;
    }
    let mut acc: u32 = 0;
    let mut i: usize = 0;
    while i < n
        invariant
            i <= n,
            n == s@.len(),
            n > 0,
            all_digits(s@.take(i as int)),
            acc == dec_val(s@.take(i as int)),
            acc <= u16::MAX,
        decreases n - i,
    {
        let c = s.get_char(i);
        let u = c as u32;
        if u < '0' as u32 || u > '9' as u32 {
            assert(!is_digit(s@[i as int]));
            return None;
        }
        proof {
            lemma_dec_val_take_step(s@, i as int);
        }
        acc = acc * 10 + (u - '0' as u32);
        i = i + 1;
        if acc > u16::MAX as u32 {
            proof {
                if all_digits(s@) {
                    lemma_dec_val_take_le(s@, i as int);
                }
            }
            return None;
        }
    }
    proof {
        assert(s@.take(n as int) =~= s@);
    }
    Some(acc as u16)
}

/// The decimal digit character for a value below ten.
pub open spec fn digit_char(d: int) -> char {
    if d == 0 {
        '0'
    } else if d == 1 {
        '1'
    } else if d == 2 {
        '2'
    } else if d == 3 {
        '3'
    } else if d == 4 {
        '4'
    } else if d == 5 {
        '5'
    } else if d == 6 {
        '6'
    } else if d == 7 {
        '7'
    } else if d == 8 {
        '8'
    } else {
        '9'
    }
}

/// The decimal numeral of a non-negative number.
pub open spec fn dec_str(n: int) -> Seq<char>
    decreases n,
{
    if n < 10 {
        seq![digit_char(n)]
    } else {
        dec_str(n / 10) + seq![digit_char(n % 10)]
    }
}

/// The one-character string for a decimal digit value.
fn digit_str(d: u16) -> (r: &'static str)
    requires
        d < 10,
    ensures
        r@ == seq![digit_char(d as int)],
{
    if d == 0 {
        proof {
            reveal_strlit("0");
        }
        "0"
    } else if d == 1 {
        proof {
            reveal_strlit("1");
        }
        "1"
    } else if d == 2 {
        proof {
            reveal_strlit("2");
        }
        "2"
    } else if d == 3 {
        proof {
            reveal_strlit("3");
        }
        "3"
    } else if d == 4 {
        proof {
            reveal_strlit("4");
        }
        "4"
    } else if d == 5 {
        proof {
            reveal_strlit("5");
        }
        "5"
    } else if d == 6 {
        proof {
            reveal_strlit("6");
        }
        "6"
    } else if d == 7 {
        proof {
            reveal_strlit("7");
        }
        "7"
    } else if d == 8 {
        proof {
            reveal_strlit("8");
        }
        "8"
    } else {
        proof {
            reveal_strlit("9");
        }
        "9"
    }
}

/// The decimal numeral of `n`.
pub fn u16_to_dec(n: u16) -> (r: String)
    ensures
        r@ == dec_str(n as int),
    decreases n,
{
    if n < 10 {
        String::from_str(digit_str(n))
    } else {
        let mut r = u16_to_dec(n / 10);
        r.append(digit_str(n % 10));
        r
    }
}

} // verus!
