//! Text building blocks shared by the rest of the library: decimal and
//! hexadecimal rendering of integers, placeholder substitution, trimming,
//! and conversions between `str` and character vectors.

use vstd::prelude::*;

verus! {

/// The character of the hexadecimal digit `d` (upper case for 10..=15).
pub open spec fn hex_digit(d: nat) -> char {
    if d == 0 {
        '0'
    } else if d == 1 {
        '1'
    } else if d == 2 {
        '2'
    } else if d == 3 {
        '3'
    } else if d == 4 {
        '4'
    } else if d == 5 {
        '5'
    } else if d == 6 {
        '6'
    } else if d == 7 {
        '7'
    } else if d == 8 {
        '8'
    } else if d == 9 {
        '9'
    } else if d == 10 {
        'A'
    } else if d == 11 {
        'B'
    } else if d == 12 {
        'C'
    } else if d == 13 {
        'D'
    } else if d == 14 {
        'E'
    } else {
        'F'
    }
}

/// The decimal digits of `n`, most significant first, without leading zeros
/// (`0` is rendered as the single digit `0`).
pub open spec fn decimal(n: nat) -> Seq<char>
    decreases n,
{
    if n < 10 {
        seq![hex_digit(n)]
    } else {
        decimal(n / 10).push(hex_digit(n % 10))
    }
}

/// Whether `s` is a non-empty run of the decimal digits `0` to `9`.
pub open spec fn is_digits(s: Seq<char>) -> bool {
    &&& s.len() >= 1
    &&& forall|i: int| 0 <= i < s.len() ==> 48 <= (#[trigger] s[i] as u32) <= 57
}

/// The number that the decimal digits `s` stand for.
pub open spec fn digits_value(s: Seq<char>) -> int
    decreases s.len(),
{
    if s.len() == 0 {
        0
    } else {
        digits_value(s.drop_last()) * 10 + (s.last() as u32 - 48)
    }
}

/// Decimal rendering reads back: `decimal(n)` is a run of decimal digits,
/// with no leading zero but for `0` itself, that stands for `n`. So two
/// different numbers are never rendered alike.
pub proof fn lemma_decimal_reads_back(n: nat)
    ensures
        is_digits(decimal(n)),
        digits_value(decimal(n)) == n,
        decimal(n).len() > 1 ==> decimal(n)[0] != '0',
    decreases n,
{
    if n < 10 {
        assert(hex_digit(n) as u32 == n + 48);
        assert(decimal(n) == seq![hex_digit(n)]);
        assert(decimal(n).drop_last() =~= Seq::<char>::empty());
        assert(digits_value(Seq::<char>::empty()) == 0);
        assert(decimal(n).last() == hex_digit(n));
        assert(digits_value(decimal(n)) == digits_value(decimal(n).drop_last()) * 10 + (decimal(n).last() as u32 - 48));
    } else {
        lemma_decimal_reads_back(n / 10);
        let d = decimal(n);
        let h = decimal(n / 10);
        let r: nat = n % 10;
        assert(d == h.push(hex_digit(r)));
        assert(d.drop_last() =~= h);
        assert(hex_digit(r) as u32 == r + 48);
        assert forall|i: int| 0 <= i < d.len() implies 48 <= (#[trigger] d[i] as u32) <= 57 by {
            if i < h.len() {
                assert(d[i] == h[i]);
            }
        }
        assert(d[0] == h[0]);
        assert(digits_value(d) == digits_value(h) * 10 + (hex_digit(r) as u32 - 48));
        assert(n == (n / 10) * 10 + r);
        let m: nat = n / 10;
        if m < 10 {
            assert(h == seq![hex_digit(m)]);
            assert(hex_digit(m) as u32 == m + 48);
        } else {
            assert(h == decimal(m / 10).push(hex_digit(m % 10)));
            lemma_decimal_reads_back(m / 10);
            assert(h.len() > 1);
        }
    }
}

/// The lowest `width` hexadecimal digits of `n`, upper case, zero padded,
/// most significant first.
pub open spec fn hex_fixed(n: nat, width: nat) -> Seq<char>
    decreases width,
{
    if width == 0 {
        Seq::empty()
    } else {
        hex_fixed(n / 16, (width - 1) as nat).push(hex_digit(n % 16))
    }
}

/// `s` with every non-overlapping occurrence of `pat`, scanned from the left,
/// replaced by `rep`.
pub open spec fn replace_all(s: Seq<char>, pat: Seq<char>, rep: Seq<char>) -> Seq<char>
    decreases s.len(),
{
    if s.len() == 0 {
        Seq::empty()
    } else if 0 < pat.len() <= s.len() && s.take(pat.len() as int) == pat {
        rep + replace_all(s.skip(pat.len() as int), pat, rep)
    } else {
        seq![s[0]] + replace_all(s.skip(1), pat, rep)
    }
}

/// Whether `c` is one of the characters trimmed from the end of system
/// messages: carriage return, line feed or space.
pub open spec fn is_trailing_blank(c: char) -> bool {
    c == '\r' || c == '\n' || c == ' '
}

/// `s` without its trailing carriage returns, line feeds and spaces.
pub open spec fn trim_trailing_blanks(s: Seq<char>) -> Seq<char>
    decreases s.len(),
{
    if s.len() > 0 && is_trailing_blank(s.last()) {
        trim_trailing_blanks(s.drop_last())
    } else {
        s
    }
}

/// Appends one character to a `String` (std's `String::push`).
#[verifier::external_body]
pub(crate) fn push_char(s: &mut String, c: char)
    ensures
        final(s)@ == old(s)@.push(c),
{
    s.push(c);
}

/// Removes and returns the last character of a `String` (std's `String::pop`).
#[verifier::external_body]
pub(crate) fn pop_char(s: &mut String) -> (c: Option<char>)
    ensures
        old(s)@.len() == 0 ==> c is None && final(s)@ == old(s)@,
        old(s)@.len() > 0 ==> c == Some(old(s)@.last()) && final(s)@ == old(s)@.drop_last(),
{
    s.pop()
}

fn hex_digit_exec(d: u64) -> (c: char)
    requires
        d < 16,
    ensures
        c == hex_digit(d as nat),
{
    if d == 0 {
        '0'
    } else if d == 1 {
        '1'
    } else if d == 2 {
        '2'
    } else if d == 3 {
        '3'
    } else if d == 4 {
        '4'
    } else if d == 5 {
        '5'
    } else if d == 6 {
        '6'
    } else if d == 7 {
        '7'
    } else if d == 8 {
        '8'
    } else if d == 9 {
        '9'
    } else if d == 10 {
        'A'
    } else if d == 11 {
        'B'
    } else if d == 12 {
        'C'
    } else if d == 13 {
        'D'
    } else if d == 14 {
        'E'
    } else {
        'F'
    }
}

/// Renders `n` in decimal, as `n.to_string()` does.
pub fn decimal_string(n: u64) -> (s: String)
    ensures
        s@ == decimal(n as nat),
    decreases n,
{
    if n < 10 {
        let mut s = String::new();
        push_char(&mut s, hex_digit_exec(n));
        s
    } else {
        let mut s = decimal_string(n / 10);
        push_char(&mut s, hex_digit_exec(n % 10));
        s
    }
}

/// Renders the lowest `width` hexadecimal digits of `n`, upper case and zero
/// padded, as the format `{:0width$X}` does for a value below `16^width`.
pub fn hex_string(n: u64, width: u32) -> (s: String)
    ensures
        s@ == hex_fixed(n as nat, width as nat),
    decreases width,
{
    if width == 0 {
        String::new()
    } else {
        let mut s = hex_string(n / 16, width - 1);
        push_char(&mut s, hex_digit_exec(n % 16));
        s
    }
}

/// The characters of `s`, in order.
pub fn chars_of(s: &str) -> (v: Vec<char>)
    ensures
        v@ == s@,
{
    let n = s.unicode_len();
    let mut v: Vec<char> = Vec::new();
    let mut i: usize = 0;
    while i < n
        invariant
            n == s@.len(),
            i <= n,
            v@ == s@.take(i as int),
        decreases n - i,
    {
        let c = s.get_char(i);
        v.push(c);
        i = i + 1;
        assert(v@ =~= s@.take(i as int));
    }
    assert(v@ =~= s@);
    v
}

/// Whether `pat` occurs in `s` at position `at`.
fn matches_at(s: &Vec<char>, pat: &Vec<char>, at: usize) -> (b: bool)
    requires
        at <= s@.len(),
    ensures
        b == (pat@.len() <= s@.len() - at && s@.skip(at as int).take(pat@.len() as int)
            == pat@),
{
    if pat.len() > s.len() - at {
        return false;
    }
    let n = s.len();
    let mut j: usize = 0;
    while j < pat.len()
        invariant
            n == s@.len(),
            at <= s@.len(),
            pat@.len() <= s@.len() - at,
            j <= pat@.len(),
            forall|k: int| 0 <= k < j ==> s@[at + k] == pat@[k],
        decreases pat@.len() - j,
    {
        assert(at + j < s@.len());
        if s[at + j] != pat[j] {
            assert(s@.skip(at as int).take(pat@.len() as int)[j as int] != pat@[j as int]);
            return false;
        }
        j = j + 1;
    }
    assert(s@.skip(at as int).take(pat@.len() as int) =~= pat@);
    true
}

/// `s` with every non-overlapping occurrence of `pat` (scanned from the left)
/// replaced by `rep`, as `str::replace` does for a non-empty pattern.
pub fn replace_str(s: &str, pat: &str, rep: &str) -> (r: String)
    requires
        pat@.len() > 0,
    ensures
        r@ == replace_all(s@, pat@, rep@),
{
    let sv = chars_of(s);
    let pv = chars_of(pat);
    let mut out = String::new();
    let mut i: usize = 0;
    assert(sv@.skip(0) =~= sv@);
    while i < sv.len()
        invariant
            sv@ == s@,
            pv@ == pat@,
            pat@.len() > 0,
            i <= sv@.len(),
            replace_all(s@, pat@, rep@) == out@ + replace_all(sv@.skip(i as int), pat@, rep@),
        decreases sv@.len() - i,
    {
        let ghost rest = sv@.skip(i as int);
        let ghost before = out@;
        if matches_at(&sv, &pv, i) {
            out.append(rep);
            proof {
                assert(rest.skip(pat@.len() as int) =~= sv@.skip(i + pat@.len()));
                let tail = replace_all(sv@.skip(i + pat@.len()), pat@, rep@);
                assert(replace_all(rest, pat@, rep@) == rep@ + tail);
                assert(before + (rep@ + tail) =~= out@ + tail);
            }
            i = i + pv.len();
        } else {
            push_char(&mut out, sv[i]);
            proof {
                assert(rest.skip(1) =~= sv@.skip(i + 1));
                let tail = replace_all(sv@.skip(i + 1), pat@, rep@);
                assert(replace_all(rest, pat@, rep@) == seq![rest[0]] + tail);
                assert(before + (seq![rest[0]] + tail) =~= out@ + tail);
            }
            i = i + 1;
        }
    }
    assert(sv@.skip(i as int) =~= Seq::<char>::empty());
    assert(out@ + Seq::<char>::empty() =~= out@);
    out
}

/// `s` with its trailing carriage returns, line feeds and spaces removed.
pub fn trim_end_blanks(s: String) -> (r: String)
    ensures
        r@ == trim_trailing_blanks(s@),
{
    let mut r = s;
    loop
        invariant
            trim_trailing_blanks(r@) == trim_trailing_blanks(s@),
        ensures
            r@ == trim_trailing_blanks(s@),
        decreases r@.len(),
    {
        let ghost before = r@;
        match pop_char(&mut r) {
            None => {
                return r;
            },
            Some(c) => {
                if c == '\r' || c == '\n' || c == ' ' {
                    assert(r@ == before.drop_last());
                } else {
                    push_char(&mut r, c);
                    assert(r@ =~= before);
                    return r;
                }
            },
        }
    }
}

/// Whether `a` and `b` hold the same characters.
pub fn str_eq(a: &str, b: &str) -> (r: bool)
    ensures
        r == (a@ == b@),
{
    let x = chars_of(a);
    let y = chars_of(b);
    if x.len() != y.len() {
        return false;
    }
    let r = matches_at(&x, &y, 0);
    assert(x@.skip(0).take(y@.len() as int) =~= x@);
    r
}

/// Whether `s` begins with `prefix`.
pub fn starts_with_str(s: &str, prefix: &str) -> (r: bool)
    ensures
        r == (prefix@.len() <= s@.len() && s@.take(prefix@.len() as int) == prefix@),
{
    let x = chars_of(s);
    let y = chars_of(prefix);
    let r = matches_at(&x, &y, 0);
    assert(x@.skip(0) =~= x@);
    r
}

/// The concatenation of `a` and `b` as a new `String`.
pub fn concat2(a: &str, b: &str) -> (s: String)
    ensures
        s@ == a@ + b@,
{
    let mut s = String::from_str(a);
    s.append(b);
    s
}

} // verus!
