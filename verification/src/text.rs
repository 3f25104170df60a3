//! Text building blocks: decimal numbers, comparison and trimming over character sequences.

use vstd::prelude::*;
use vstd::string::*;

verus! {

/// `String::push` appends one character at the end.
pub assume_specification[ String::push ](s: &mut String, c: char)
    ensures
        final(s)@ == old(s)@.push(c),
;

/// The character of a decimal digit.
pub open spec fn digit_char(d: nat) -> char
    recommends
        d < 10,
{
    ('0' as int + d) as char
}

/// Decimal digits of `n` without leading zeros (`0` is one digit).
pub open spec fn dec(n: nat) -> Seq<char>
    decreases n,
{
    if n < 10 {
        seq![digit_char(n)]
    } else {
        dec(n / 10).push(digit_char(n % 10))
    }
}

/// The last `width` decimal digits of `n`, zero padded.
pub open spec fn dec_fixed(n: nat, width: nat) -> Seq<char>
    decreases width,
{
    if width == 0 {
        Seq::empty()
    } else {
        dec_fixed(n / 10, (width - 1) as nat).push(digit_char(n % 10))
    }
}

/// `n` with blanks in front until it is at least `width` characters long.
pub open spec fn dec_blank(n: nat, width: nat) -> Seq<char> {
    blanks((width - dec(n).len()) as int) + dec(n)
}

/// `n` with zeros in front until it is at least `width` characters long.
pub open spec fn dec_zero(n: nat, width: nat) -> Seq<char> {
    Seq::new(if dec(n).len() < width { (width - dec(n).len()) as nat } else { 0 }, |i: int| '0')
        + dec(n)
}

/// `n` blanks; none when `n` is negative.
pub open spec fn blanks(n: int) -> Seq<char> {
    Seq::new(if n < 0 { 0 } else { n as nat }, |i: int| ' ')
}

/// Decimal digits of a signed number, with `-` in front of a negative one.
pub open spec fn dec_signed(n: int) -> Seq<char> {
    if n < 0 {
        seq!['-'] + dec((-n) as nat)
    } else {
        dec(n as nat)
    }
}

/// The number that a run of decimal digits denotes.
pub open spec fn dec_value(s: Seq<char>) -> nat
    decreases s.len(),
{
    if s.len() == 0 {
        0
    } else {
        dec_value(s.drop_last()) * 10 + digit_value(s.last())
    }
}

/// The number that one decimal digit denotes; meaningless for other characters.
pub open spec fn digit_value(c: char) -> nat {
    (c as int - '0' as int) as nat
}

pub open spec fn is_digit(c: char) -> bool {
    '0' <= c <= '9'
}

pub open spec fn all_digits(s: Seq<char>) -> bool {
    forall|i: int| 0 <= i < s.len() ==> is_digit(#[trigger] s[i])
}

/// The characters with Unicode's `White_Space` property.
pub open spec fn is_blank(c: char) -> bool {
    ||| '\u{9}' <= c <= '\u{d}'
    ||| c == '\u{20}'
    ||| c == '\u{85}'
    ||| c == '\u{a0}'
    ||| c == '\u{1680}'
    ||| '\u{2000}' <= c <= '\u{200a}'
    ||| c == '\u{2028}'
    ||| c == '\u{2029}'
    ||| c == '\u{202f}'
    ||| c == '\u{205f}'
    ||| c == '\u{3000}'
}

pub open spec fn trim_start(s: Seq<char>) -> Seq<char>
    decreases s.len(),
{
    if s.len() > 0 && is_blank(s[0]) {
        trim_start(s.skip(1))
    } else {
        s
    }
}

pub open spec fn trim_end(s: Seq<char>) -> Seq<char>
    decreases s.len(),
{
    if s.len() > 0 && is_blank(s.last()) {
        trim_end(s.drop_last())
    } else {
        s
    }
}

/// `s` without the white space at both ends.
pub open spec fn trimmed(s: Seq<char>) -> Seq<char> {
    trim_end(trim_start(s))
}

pub open spec fn ends_with(s: Seq<char>, suffix: Seq<char>) -> bool {
    s.len() >= suffix.len() && s.skip(s.len() - suffix.len()) == suffix
}

pub open spec fn starts_with(s: Seq<char>, prefix: Seq<char>) -> bool {
    s.len() >= prefix.len() && s.take(prefix.len() as int) == prefix
}

/// Whether `part` occurs in `s` as a contiguous run.
pub open spec fn contains_text(s: Seq<char>, part: Seq<char>) -> bool {
    exists|i: int| 0 <= i <= s.len() - part.len() && #[trigger] s.subrange(i, i + part.len()) == part
}

/// The same text with the ASCII capitals replaced by small letters.
pub open spec fn ascii_lower(s: Seq<char>) -> Seq<char> {
    s.map_values(|c: char| if 'A' <= c <= 'Z' { (c as int + 32) as char } else { c })
}

pub open spec fn is_ascii_text(s: Seq<char>) -> bool {
    forall|i: int| 0 <= i < s.len() ==> (#[trigger] s[i]) as int <= 127
}

/// What `str::to_lowercase` makes of a text.
pub uninterp spec fn lowercased(s: Seq<char>) -> Seq<char>;

/// `str::to_lowercase`: the text with every character replaced by its Unicode lower case, which
/// depends on the text alone. On ASCII text only the letters `A` to `Z` change.
#[verifier::external_body]
pub(crate) fn lowercase(s: &str) -> (r: String)
    ensures
        r@ == lowercased(s@),
        is_ascii_text(s@) ==> r@ == ascii_lower(s@),
{
    s.to_lowercase()
}

pub fn digit(d: u64) -> (c: char)
    requires
        d < 10,
    ensures
        c == digit_char(d as nat),
{
    match d {
        0 => '0',
        1 => '1',
        2 => '2',
        3 => '3',
        4 => '4',
        5 => '5',
        6 => '6',
        7 => '7',
        8 => '8',
        _ => '9',
    }
}

/// Appends the decimal digits of `n`.
pub fn push_dec(out: &mut String, n: u64)
    ensures
        final(out)@ == old(out)@ + dec(n as nat),
    decreases n,
{
    if n >= 10 {
        push_dec(out, n / 10);
    }
    out.push(digit(n % 10));
}

/// Appends the decimal digits of `n`, which may be wider than a machine word.
pub fn push_dec_wide(out: &mut String, n: u128)
    ensures
        final(out)@ == old(out)@ + dec(n as nat),
    decreases n,
{
    if n >= 10 {
        push_dec_wide(out, n / 10);
    }
    out.push(digit((n % 10) as u64));
}

/// Appends the last `width` digits of `n`, zero padded.
pub fn push_dec_fixed(out: &mut String, n: u64, width: usize)
    ensures
        final(out)@ == old(out)@ + dec_fixed(n as nat, width as nat),
    decreases width,
{
    if width > 0 {
        push_dec_fixed(out, n / 10, width - 1);
        out.push(digit(n % 10));
    }
}

/// Appends a signed number.
pub fn push_dec_signed(out: &mut String, n: i64)
    ensures
        final(out)@ == old(out)@ + dec_signed(n as int),
{
    if n < 0 {
        out.push('-');
        let m: u64 = (-(n as i128)) as u64;
        push_dec(out, m);
    } else {
        push_dec(out, n as u64);
    }
}

/// Appends `n` with blanks in front up to `width` characters.
pub fn push_dec_blank(out: &mut String, n: u64, width: usize)
    ensures
        final(out)@ == old(out)@ + dec_blank(n as nat, width as nat),
{
    let text: String = dec_text(n);
    let len: usize = text.as_str().unicode_len();
    let ghost start = out@;
    let mut i: usize = len;
    while i < width
        invariant
            len <= i,
            i <= width || i == len,
            out@ == start + blanks(i - len),
        decreases width - i,
    {
        out.push(' ');
        assert(blanks(i + 1 - len) =~= blanks(i - len).push(' '));
        i += 1;
    }
    assert(blanks(width - len) =~= blanks(i - len));
    out.append(text.as_str());
}

/// Appends `n` with zeros in front up to `width` characters.
pub fn push_dec_zero(out: &mut String, n: u64, width: usize)
    ensures
        final(out)@ == old(out)@ + dec_zero(n as nat, width as nat),
{
    let text: String = dec_text(n);
    let len: usize = text.as_str().unicode_len();
    let ghost start = out@;
    let mut i: usize = len;
    while i < width
        invariant
            len <= i,
            i <= width || i == len,
            out@ == start + Seq::new((i - len) as nat, |j: int| '0'),
        decreases width - i,
    {
        out.push('0');
        assert(Seq::new((i + 1 - len) as nat, |j: int| '0') =~= Seq::new(
            (i - len) as nat,
            |j: int| '0',
        ).push('0'));
        i += 1;
    }
    out.append(text.as_str());
    assert(out@ =~= start + dec_zero(n as nat, width as nat));
}

/// The digit character of a number below 16.
pub open spec fn hex_char(d: nat) -> char {
    if d < 10 {
        digit_char(d)
    } else if d == 10 {
        'A'
    } else if d == 11 {
        'B'
    } else if d == 12 {
        'C'
    } else if d == 13 {
        'D'
    } else if d == 14 {
        'E'
    } else {
        'F'
    }
}

/// `n` in base 16, with zeros in front up to `width` digits.
pub open spec fn hex(n: nat, width: nat) -> Seq<char>
    decreases n + width,
{
    if n < 16 && width <= 1 {
        seq![hex_char(n)]
    } else {
        hex(
            n / 16,
            if width == 0 {
                0
            } else {
                (width - 1) as nat
            },
        ).push(hex_char(n % 16))
    }
}

fn hex_digit(d: u64) -> (c: char)
    requires
        d < 16,
    ensures
        c == hex_char(d as nat),
{
    match d {
        10 => 'A',
        11 => 'B',
        12 => 'C',
        13 => 'D',
        14 => 'E',
        15 => 'F',
        _ => digit(d),
    }
}

/// Appends `n` in base 16, with zeros in front up to `width` digits.
pub fn push_hex(out: &mut String, n: u64, width: usize)
    ensures
        final(out)@ == old(out)@ + hex(n as nat, width as nat),
    decreases n + width,
{
    if n >= 16 || width > 1 {
        push_hex(
            out,
            n / 16,
            if width == 0 {
                0
            } else {
                width - 1
            },
        );
    }
    out.push(hex_digit(n % 16));
    assert(out@ =~= old(out)@ + hex(n as nat, width as nat));
}

/// A number with its sign, a plus for zero too.
pub open spec fn dec_plus(n: int) -> Seq<char> {
    if n < 0 {
        dec_signed(n)
    } else {
        seq!['+'] + dec(n as nat)
    }
}

/// Appends a number with its sign.
pub fn push_dec_plus(out: &mut String, n: i64)
    ensures
        final(out)@ == old(out)@ + dec_plus(n as int),
{
    if n >= 0 {
        out.push('+');
    }
    push_dec_signed(out, n);
    assert(out@ =~= old(out)@ + dec_plus(n as int));
}

/// The decimal digits of `n`.
pub fn dec_text(n: u64) -> (r: String)
    ensures
        r@ == dec(n as nat),
{
    let mut s: String = String::new();
    push_dec(&mut s, n);
    assert(Seq::<char>::empty() + dec(n as nat) =~= dec(n as nat));
    s
}

/// The characters of `s`, one by one.
pub fn to_chars(s: &str) -> (v: Vec<char>)
    ensures
        v@ == s@,
{
    let mut v: Vec<char> = Vec::new();
    for c in it: s.chars()
        invariant
            it.seq() == s@,
            v@ == s@.take(it.index() as int),
    {
        v.push(c);
    }
    v
}

/// The text made of `v[from..to]`.
pub fn from_chars(v: &Vec<char>, from: usize, to: usize) -> (s: String)
    requires
        from <= to <= v@.len(),
    ensures
        s@ == v@.subrange(from as int, to as int),
{
    let mut s: String = String::new();
    let mut i: usize = from;
    while i < to
        invariant
            from <= i <= to <= v@.len(),
            s@ == v@.subrange(from as int, i as int),
        decreases to - i,
    {
        s.push(v[i]);
        i += 1;
        assert(v@.subrange(from as int, i as int) =~= v@.subrange(from as int, i - 1).push(
            v@[i - 1],
        ));
    }
    s
}

pub fn same_text(a: &str, b: &str) -> (r: bool)
    ensures
        r == (a@ == b@),
{
    a.to_owned() == b.to_owned()
}

/// A copy of `s` as an owned text.
pub fn owned(s: &str) -> (r: String)
    ensures
        r@ == s@,
{
    s.to_owned()
}

pub fn char_is_blank(c: char) -> (r: bool)
    ensures
        r == is_blank(c),
{
    ('\u{9}' <= c && c <= '\u{d}') || c == '\u{20}' || c == '\u{85}' || c == '\u{a0}'
        || c == '\u{1680}' || ('\u{2000}' <= c && c <= '\u{200a}') || c == '\u{2028}'
        || c == '\u{2029}' || c == '\u{202f}' || c == '\u{205f}' || c == '\u{3000}'
}

/// `s` without the white space at both ends, as `str::trim` gives it.
pub fn trim(s: &str) -> (r: String)
    ensures
        r@ == trimmed(s@),
{
    let v: Vec<char> = to_chars(s);
    let mut from: usize = 0;
    assert(v@.skip(0) =~= v@);
    while from < v.len() && char_is_blank(v[from])
        invariant
            0 <= from <= v@.len(),
            trim_start(v@) == trim_start(v@.skip(from as int)),
        decreases v@.len() - from,
    {
        assert(v@.skip(from as int).skip(1) =~= v@.skip(from + 1));
        from += 1;
    }
    let mut to: usize = v.len();
    assert(v@.subrange(from as int, to as int) =~= v@.skip(from as int));
    while to > from && char_is_blank(v[to - 1])
        invariant
            from <= to <= v@.len(),
            trimmed(v@) == trim_end(v@.subrange(from as int, to as int)),
        decreases to,
    {
        let ghost t = v@.subrange(from as int, to as int);
        assert(t.last() == v@[to - 1]);
        assert(t.drop_last() =~= v@.subrange(from as int, to - 1));
        to -= 1;
    }
    proof {
        let t = v@.subrange(from as int, to as int);
        if t.len() > 0 {
            assert(t.last() == v@[to - 1]);
        }
    }
    from_chars(&v, from, to)
}

/// Whether `v` ends with the characters of `suffix`.
pub fn chars_end_with(v: &Vec<char>, suffix: &str) -> (r: bool)
    ensures
        r == ends_with(v@, suffix@),
{
    let w: Vec<char> = to_chars(suffix);
    if v.len() < w.len() {
        return false;
    }
    let base: usize = v.len() - w.len();
    let mut i: usize = 0;
    while i < w.len()
        invariant
            0 <= i <= w@.len(),
            w@ == suffix@,
            base + w@.len() == v.len(),
            forall|j: int| 0 <= j < i ==> v@[base + j] == w@[j],
        decreases w@.len() - i,
    {
        if v[base + i] != w[i] {
            assert(v@.skip(base as int)[i as int] != w@[i as int]);
            return false;
        }
        i += 1;
    }
    assert(v@.skip(base as int) =~= w@);
    true
}

/// Whether `v` starts with the characters of `prefix`.
pub fn chars_start_with(v: &Vec<char>, prefix: &str) -> (r: bool)
    ensures
        r == starts_with(v@, prefix@),
{
    let w: Vec<char> = to_chars(prefix);
    if v.len() < w.len() {
        return false;
    }
    let mut i: usize = 0;
    while i < w.len()
        invariant
            0 <= i <= w@.len() <= v@.len(),
            w@ == prefix@,
            forall|j: int| 0 <= j < i ==> v@[j] == w@[j],
        decreases w@.len() - i,
    {
        if v[i] != w[i] {
            assert(v@.take(w@.len() as int)[i as int] != w@[i as int]);
            return false;
        }
        i += 1;
    }
    assert(v@.take(w@.len() as int) =~= w@);
    true
}

/// Whether `part` occurs in `s`.
pub fn text_contains(s: &str, part: &str) -> (r: bool)
    ensures
        r == contains_text(s@, part@),
{
    let v: Vec<char> = to_chars(s);
    let w: Vec<char> = to_chars(part);
    if v.len() < w.len() {
        return false;
    }
    let mut i: usize = 0;
    while i <= v.len() - w.len()
        invariant
            v@ == s@,
            w@ == part@,
            w@.len() <= v@.len(),
            0 <= i <= v@.len() - w@.len() + 1,
            forall|k: int| 0 <= k < i ==> #[trigger] v@.subrange(k, k + w@.len()) != w@,
        decreases v@.len() - i,
    {
        let mut j: usize = 0;
        while j < w.len() && v[i + j] == w[j]
            invariant
                0 <= j <= w@.len(),
                i + w@.len() <= v.len(),
                forall|k: int| 0 <= k < j ==> v@[i + k] == w@[k],
            decreases w@.len() - j,
        {
            j += 1;
        }
        if j == w.len() {
            assert(v@.subrange(i as int, i + w@.len()) =~= w@);
            return true;
        }
        assert(v@.subrange(i as int, i + w@.len())[j as int] != w@[j as int]);
        if i == v.len() {
            return false;
        }
        i += 1;
    }
    false
}

// ── Facts about decimal digits ──────────────────────────────────────────────

pub proof fn lemma_digit_char(d: nat)
    requires
        d < 10,
    ensures
        is_digit(digit_char(d)),
        digit_value(digit_char(d)) == d,
{
}

/// Writing a number in decimal and reading the digits gives the number back.
pub proof fn lemma_dec_round_trip(n: nat)
    ensures
        dec_value(dec(n)) == n,
        all_digits(dec(n)),
        dec(n).len() >= 1,
    decreases n,
{
    reveal_with_fuel(dec_value, 2);
    if n < 10 {
        assert(dec(n).drop_last() =~= Seq::<char>::empty());
    } else {
        lemma_dec_round_trip(n / 10);
        assert(dec(n).drop_last() =~= dec(n / 10));
    }
}

/// A zero-padded group of `width` digits denotes the number modulo `10^width`.
pub proof fn lemma_dec_fixed(n: nat, width: nat)
    ensures
        dec_fixed(n, width).len() == width,
        all_digits(dec_fixed(n, width)),
    decreases width,
{
    if width > 0 {
        lemma_dec_fixed(n / 10, (width - 1) as nat);
    }
}

// ── Laws ────────────────────────────────────────────────────────────────────

/// The number that digits of base 16 denote.
pub open spec fn hex_value(s: Seq<char>) -> nat
    decreases s.len(),
{
    if s.len() == 0 {
        0
    } else {
        hex_value(s.drop_last()) * 16 + (if '0' <= s.last() <= '9' {
            s.last() as int - '0' as int
        } else {
            s.last() as int - 'A' as int + 10
        }) as nat
    }
}

/// Base 16 gives the number back when it is read, in digits and capital letters, of which there are
/// as many as asked for at least, and no more than needed beyond that.
pub proof fn law_hex_digits(n: nat, width: nat)
    ensures
        hex_value(hex(n, width)) == n,
        hex(n, width).len() >= width,
        hex(n, width).len() >= 1,
        forall|i: int|
            0 <= i < hex(n, width).len() ==> is_digit(#[trigger] hex(n, width)[i]) || 'A' <= hex(
                n,
                width,
            )[i] <= 'F',
        hex(n, width).len() > width && hex(n, width).len() > 1 ==> hex(n, width)[0] != '0',
    decreases n + width,
{
    let s = hex(n, width);
    if n % 16 < 10 {
        lemma_digit_char(n % 16);
    }
    if n < 16 && width <= 1 {
        assert(s.drop_last() =~= Seq::<char>::empty());
        assert(s.last() == hex_char(n % 16));
        assert(hex_value(s) == hex_value(s.drop_last()) * 16 + n % 16);
    } else {
        let w: nat = if width == 0 {
            0
        } else {
            (width - 1) as nat
        };
        law_hex_digits(n / 16, w);
        let rest = hex(n / 16, w);
        assert(s == rest.push(hex_char(n % 16)));
        assert(s.drop_last() =~= rest);
        assert(s.last() == hex_char(n % 16));
        assert(hex_value(s) == hex_value(s.drop_last()) * 16 + n % 16);
        assert forall|i: int| 0 <= i < s.len() implies is_digit(#[trigger] s[i]) || 'A' <= s[i]
            <= 'F' by {
            if i < rest.len() {
                assert(s[i] == rest[i]);
            }
        }
        if s.len() > width && s.len() > 1 {
            assert(s[0] == rest[0]);
            if rest.len() == 1 {
                assert(rest.len() > w || w == 1);
                lemma_one_hex_digit(n / 16, w);
            }
        }
    }
}

/// A single digit of base 16 is the digit of its number.
proof fn lemma_one_hex_digit(n: nat, width: nat)
    requires
        hex(n, width).len() == 1,
    ensures
        hex(n, width) == seq![hex_char(n)],
        n < 16,
{
    if !(n < 16 && width <= 1) {
        let w: nat = if width == 0 {
            0
        } else {
            (width - 1) as nat
        };
        lemma_hex_length(n / 16, w);
    }
}

proof fn lemma_hex_length(n: nat, width: nat)
    ensures
        hex(n, width).len() >= 1,
    decreases n + width,
{
    if !(n < 16 && width <= 1) {
        lemma_hex_length(
            n / 16,
            if width == 0 {
                0
            } else {
                (width - 1) as nat
            },
        );
    }
}

/// The last digits of a number, zero padded, denote it modulo that power of ten; read together with
/// the digits in front they give the whole number back.
pub proof fn law_fixed_digits(n: nat, width: nat, rest: Seq<char>)
    ensures
        dec_fixed(n, width).len() == width,
        dec_value(rest + dec_fixed(n, width)) == dec_value(rest) * crate::decimal::pow10(width)
            + n % crate::decimal::pow10(width),
        crate::decimal::pow10(width) > 0,
    decreases width,
{
    let f = dec_fixed(n, width);
    if width == 0 {
        assert(rest + f =~= rest);
        assert(dec_value(rest) * 1 == dec_value(rest));
        assert(n % 1 == 0);
    } else {
        let w = (width - 1) as nat;
        let p = crate::decimal::pow10(w);
        law_fixed_digits(n / 10, w, rest);
        lemma_digit_char(n % 10);
        let all = rest + f;
        assert(all.drop_last() =~= rest + dec_fixed(n / 10, w));
        assert(all.last() == digit_char(n % 10));
        let v = dec_value(rest);
        let q = (n / 10) % p;
        assert((v * p + q) * 10 == v * (10 * p) + 10 * q) by (nonlinear_arith);
        vstd::arithmetic::div_mod::lemma_mod_breakdown(n as int, 10, p as int);
        assert(n % (10 * p) == 10 * ((n / 10) % p) + n % 10);
    }
}

/// Padding puts zeros or blanks in front of the digits, as many as the width asks for, and never
/// cuts any off.
pub proof fn law_padding(n: nat, width: nat)
    ensures
        dec_zero(n, width).len() == (if dec(n).len() < width {
            width
        } else {
            dec(n).len()
        }),
        dec_blank(n, width).len() == dec_zero(n, width).len(),
        ends_with(dec_zero(n, width), dec(n)),
        ends_with(dec_blank(n, width), dec(n)),
        forall|i: int|
            0 <= i < dec_zero(n, width).len() - dec(n).len() ==> #[trigger] dec_zero(n, width)[i]
                == '0',
        forall|i: int|
            0 <= i < dec_blank(n, width).len() - dec(n).len() ==> #[trigger] dec_blank(n, width)[i]
                == ' ',
{
    let z = dec_zero(n, width);
    let b = dec_blank(n, width);
    assert(z.skip(z.len() - dec(n).len()) =~= dec(n));
    assert(b.skip(b.len() - dec(n).len()) =~= dec(n));
}

/// A signed number is its digits with a minus in front if it is negative; written with its sign it
/// has a plus in front otherwise.
pub proof fn law_signs(n: nat)
    ensures
        dec_signed(n as int) == dec(n),
        n > 0 ==> dec_signed(-(n as int)) == seq!['-'] + dec(n),
        dec_plus(n as int) == seq!['+'] + dec(n),
        n > 0 ==> dec_plus(-(n as int)) == seq!['-'] + dec(n),
{
}

/// Trimming takes the white space off both ends and nothing else: blanks around a text that neither
/// begins nor ends with one go, and what is between stays.
pub proof fn law_trim(before: Seq<char>, s: Seq<char>, after: Seq<char>)
    requires
        forall|i: int| 0 <= i < before.len() ==> is_blank(#[trigger] before[i]),
        forall|i: int| 0 <= i < after.len() ==> is_blank(#[trigger] after[i]),
        s.len() > 0,
        !is_blank(s[0]),
        !is_blank(s.last()),
    ensures
        trimmed(before + s + after) == s,
        trimmed(before + after) == Seq::<char>::empty(),
{
    let t = s + after;
    lemma_trim_front(before, t);
    assert(before + s + after =~= before + t);
    assert(t[0] == s[0]);
    assert(trim_start(t) == t);
    lemma_trim_back(s, after);
    assert(trim_end(s) == s);
    let e = Seq::<char>::empty();
    lemma_trim_front(before + after, e);
    assert((before + after) + e =~= before + after);
    assert(trim_start(e) == e && trim_end(e) == e);
}

proof fn lemma_trim_front(before: Seq<char>, t: Seq<char>)
    requires
        forall|i: int| 0 <= i < before.len() ==> is_blank(#[trigger] before[i]),
    ensures
        trim_start(before + t) == trim_start(t),
    decreases before.len(),
{
    let s = before + t;
    if before.len() > 0 {
        assert(s[0] == before[0]);
        let rest = before.skip(1);
        assert forall|i: int| 0 <= i < rest.len() implies is_blank(#[trigger] rest[i]) by {
            assert(rest[i] == before[i + 1]);
        }
        lemma_trim_front(rest, t);
        assert(s.skip(1) =~= rest + t);
    } else {
        assert(s =~= t);
    }
}

proof fn lemma_trim_back(t: Seq<char>, after: Seq<char>)
    requires
        forall|i: int| 0 <= i < after.len() ==> is_blank(#[trigger] after[i]),
    ensures
        trim_end(t + after) == trim_end(t),
    decreases after.len(),
{
    let s = t + after;
    if after.len() > 0 {
        assert(s.last() == after[after.len() - 1]);
        lemma_trim_back(t, after.drop_last());
        assert(s.drop_last() =~= t + after.drop_last());
    } else {
        assert(s =~= t);
    }
}

/// A text begins with what it was put together from in front and ends with what came last; all of its
/// parts occur in it.
pub proof fn law_parts_of_a_text(a: Seq<char>, b: Seq<char>, c: Seq<char>)
    ensures
        starts_with(a + b, a),
        ends_with(a + b, b),
        contains_text(a + b + c, b),
        a.len() < b.len() ==> !starts_with(a, b) && !ends_with(a, b) && !contains_text(a, b),
{
    assert((a + b).take(a.len() as int) =~= a);
    assert((a + b).skip((a + b).len() - b.len()) =~= b);
    let i = a.len() as int;
    assert((a + b + c).subrange(i, i + b.len()) =~= b);
}

/// White space is the tab and the line ends, the blank and the other spaces of Unicode; no other
/// character is trimmed.
pub proof fn law_white_space(c: char)
    ensures
        is_blank(c) <==> {
            let u = c as int;
            ||| 9 <= u <= 13
            ||| u == 0x20
            ||| u == 0x85
            ||| u == 0xA0
            ||| u == 0x1680
            ||| 0x2000 <= u <= 0x200A
            ||| u == 0x2028
            ||| u == 0x2029
            ||| u == 0x202F
            ||| u == 0x205F
            ||| u == 0x3000
        },
{
}

/// The digits are the ten from 0 to 9 in order, each worth one more than the one before.
pub proof fn law_digits_in_order(d: nat)
    requires
        d < 9,
    ensures
        digit_char(0) == '0',
        digit_char(9) == '9',
        digit_char(d + 1) as int == digit_char(d) as int + 1,
        digit_value(digit_char(d)) == d,
{
    lemma_digit_char(d);
}

} // verus!
