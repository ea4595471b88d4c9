//! Text the readouts print: decimal and hex numbers, JSON string literals,
//! and the ASCII rendering of a decoded byte.

use vstd::prelude::*;
use vstd::string::*;

verus! {

/// `String::push`: appends one character to the end of the string.
#[verifier::external_body]
pub(crate) fn push_char(s: &mut String, c: char)
    ensures
        final(s)@ == old(s)@.push(c),
{
    s.push(c);
}

/// Append every character of `t` to `s`, in order.
pub fn push_str(s: &mut String, t: &str)
    ensures
        final(s)@ == old(s)@ + t@,
{
    let n = t.unicode_len();
    let mut i: usize = 0;
    while i < n
        invariant
            i <= n,
            n == t@.len(),
            s@ == old(s)@ + t@.take(i as int),
        decreases n - i,
    {
        push_char(s, t.get_char(i));
        i = i + 1;
        assert(s@ =~= old(s)@ + t@.take(i as int));
    }
    assert(t@.take(n as int) =~= t@);
}

/// The decimal digit `d` (0..=9) as a character.
pub open spec fn digit_char(d: int) -> char {
    (48 + d) as char
}

/// `n` in decimal, without leading zeros ("0" for zero).
pub open spec fn decimal(n: nat) -> Seq<char>
    decreases n,
{
    if n < 10 {
        seq![digit_char(n as int)]
    } else {
        decimal(n / 10).push(digit_char((n % 10) as int))
    }
}

/// The hex digit `d` (0..=15), upper case.
pub open spec fn hex_char(d: int) -> char {
    if d < 10 {
        (48 + d) as char
    } else {
        (55 + d) as char
    }
}

/// `v` as four upper-case hex digits (`{:04X}`).
pub open spec fn hex4(v: u16) -> Seq<char> {
    seq![
        hex_char(v as int / 4096),
        hex_char((v as int / 256) % 16),
        hex_char((v as int / 16) % 16),
        hex_char(v as int % 16),
    ]
}

fn digit(d: u64) -> (c: char)
    requires
        d < 10,
    ensures
        c == digit_char(d as int),
{
    match d {
        0 => '0',
        1 => '1',
        2 => '2',
        3 => '3',
        4 => '4',
        5 => '5',
        6 => '6',
        7 => '7',
        8 => '8',
        _ => '9',
    }
}

fn hex_digit(d: u16) -> (c: char)
    requires
        d < 16,
    ensures
        c == hex_char(d as int),
{
    match d {
        0 => '0',
        1 => '1',
        2 => '2',
        3 => '3',
        4 => '4',
        5 => '5',
        6 => '6',
        7 => '7',
        8 => '8',
        9 => '9',
        10 => 'A',
        11 => 'B',
        12 => 'C',
        13 => 'D',
        14 => 'E',
        _ => 'F',
    }
}

/// Append `n` in decimal to `s`.
pub fn push_decimal(s: &mut String, n: u64)
    ensures
        final(s)@ == old(s)@ + decimal(n as nat),
    decreases n,
{
    if n >= 10 {
        push_decimal(s, n / 10);
    }
    push_char(s, digit(n % 10));
    proof {
        if n >= 10 {
            assert(old(s)@ + decimal(n as nat) =~= old(s)@ + decimal((n / 10) as nat) + seq![
                digit_char((n % 10) as int),
            ]);
        }
    }
}

/// Append `v` as four upper-case hex digits to `s`.
pub fn push_hex4(s: &mut String, v: u16)
    ensures
        final(s)@ == old(s)@ + hex4(v),
{
    push_char(s, hex_digit(v / 4096));
    push_char(s, hex_digit((v / 256) % 16));
    push_char(s, hex_digit((v / 16) % 16));
    push_char(s, hex_digit(v % 16));
    assert(final(s)@ =~= old(s)@ + hex4(v));
}

/// How one character appears inside a JSON string literal: quote and
/// backslash escaped, line breaks and tabs as spaces, other control
/// characters as `?`.
pub open spec fn json_escape(c: char) -> Seq<char> {
    if c == '"' {
        seq!['\\', '"']
    } else if c == '\\' {
        seq!['\\', '\\']
    } else if c == '\n' || c == '\r' || c == '\t' {
        seq![' ']
    } else if (c as u32) < 0x20 {
        seq!['?']
    } else {
        seq![c]
    }
}

/// The escaped characters of `s`, in order.
pub open spec fn json_body(s: Seq<char>) -> Seq<char>
    decreases s.len(),
{
    if s.len() == 0 {
        Seq::empty()
    } else {
        json_body(s.drop_last()) + json_escape(s.last())
    }
}

/// `s` as a JSON string literal: in double quotes, escaped.
pub open spec fn json_text(s: Seq<char>) -> Seq<char> {
    seq!['"'] + json_body(s) + seq!['"']
}

/// A JSON string literal, escaped. Service labels come off the air, so they
/// can contain anything the standard's charset allows.
pub fn json_str(s: &str) -> (out: String)
    ensures
        out@ == json_text(s@),
{
    let n = s.unicode_len();
    let mut out = String::new();
    push_char(&mut out, '"');
    let mut i: usize = 0;
    while i < n
        invariant
            i <= n,
            n == s@.len(),
            out@ == seq!['"'] + json_body(s@.take(i as int)),
        decreases n - i,
    {
        let c = s.get_char(i);
        if c == '"' {
            push_char(&mut out, '\\');
            push_char(&mut out, '"');
        } else if c == '\\' {
            push_char(&mut out, '\\');
            push_char(&mut out, '\\');
        } else if c == '\n' || c == '\r' || c == '\t' {
            push_char(&mut out, ' ');
        } else if (c as u32) < 0x20 {
            push_char(&mut out, '?');
        } else {
            push_char(&mut out, c);
        }
        i = i + 1;
        assert(s@.take(i as int).drop_last() =~= s@.take((i - 1) as int));
        assert(out@ =~= seq!['"'] + json_body(s@.take(i as int)));
    }
    assert(s@.take(i as int) =~= s@);
    push_char(&mut out, '"');
    out
}

/// Whether `c` may stand unescaped in a JSON string: not a control
/// character, a quote or a backslash.
pub open spec fn json_plain(c: char) -> bool {
    (c as u32) >= 0x20 && c != '"' && c != '\\'
}

/// A valid piece of a JSON string literal: one unescaped character, or a
/// backslash followed by the quote or backslash it escapes.
pub open spec fn json_token(t: Seq<char>) -> bool {
    (t.len() == 1 && json_plain(t[0])) || (t.len() == 2 && t[0] == '\\' && (t[1] == '"' || t[1]
        == '\\'))
}

/// Whatever comes off the air, each character is written as a valid JSON
/// string token, and the escaped body holds no control character: the
/// literal is always a valid JSON string.
pub proof fn lemma_json_body_is_valid(s: Seq<char>, c: char)
    ensures
        json_token(json_escape(c)),
        forall|i: int| 0 <= i < json_body(s).len() ==> (#[trigger] json_body(s)[i] as u32) >= 0x20,
    decreases s.len(),
{
    if s.len() > 0 {
        lemma_json_body_is_valid(s.drop_last(), c);
        let b = json_body(s.drop_last());
        let e = json_escape(s.last());
        let t = json_body(s);
        assert(t == b + e);
        assert forall|i: int| 0 <= i < t.len() implies (#[trigger] t[i] as u32) >= 0x20 by {
            if i < b.len() {
                assert(t[i] == b[i]);
            } else {
                assert(t[i] == e[i - b.len()]);
            }
        }
    }
}

/// Text with nothing to escape is written as it is.
pub proof fn lemma_plain_text_is_unchanged(s: Seq<char>)
    requires
        forall|i: int| 0 <= i < s.len() ==> json_plain(#[trigger] s[i]),
    ensures
        json_body(s) == s,
    decreases s.len(),
{
    if s.len() > 0 {
        assert(json_plain(s[s.len() - 1]));
        lemma_plain_text_is_unchanged(s.drop_last());
        assert(s.drop_last().push(s.last()) =~= s);
    }
}

/// Whether the byte `c` prints as itself: ASCII graphic characters and the
/// space.
pub open spec fn printable_byte(c: u8) -> bool {
    0x20 <= c <= 0x7E
}

/// ASCII rendering of a decoded word's low byte, for the common case of
/// decoding text: the character in single quotes, or nothing.
pub fn printable(v: u64) -> (out: String)
    ensures
        out@ == (if printable_byte((v % 256) as u8) {
            seq!['\'', ((v % 256) as u8) as char, '\'']
        } else {
            Seq::<char>::empty()
        }),
{
    let c = (v % 256) as u8;
    let mut out = String::new();
    if c >= 0x20 && c <= 0x7E {
        push_char(&mut out, '\'');
        push_char(&mut out, c as char);
        push_char(&mut out, '\'');
    }
    out
}

/// The value of `c` as a digit in base `radix` (at most 36): `0`-`9`, then
/// `a`-`z` or `A`-`Z` for ten and up.
pub open spec fn digit_value(c: char, radix: nat) -> Option<nat> {
    let k = c as int;
    let v: int = if 48 <= k <= 57 {
        k - 48
    } else if 97 <= k <= 122 {
        k - 87
    } else if 65 <= k <= 90 {
        k - 55
    } else {
        36
    };
    if v < radix {
        Some(v as nat)
    } else {
        None
    }
}

/// The value of a string of digits in base `radix`, most significant
/// first, or `None` when a character is not a digit.
pub open spec fn digits_value(s: Seq<char>, radix: nat) -> Option<nat>
    decreases s.len(),
{
    if s.len() == 0 {
        Some(0)
    } else {
        match digits_value(s.drop_last(), radix) {
            Some(v) => match digit_value(s.last(), radix) {
                Some(d) => Some(v * radix + d),
                None => None,
            },
            None => None,
        }
    }
}

/// How an unsigned number of at most `max` is read in base `radix`: an
/// optional `+`, then at least one digit, the value at most `max`.
pub open spec fn unsigned_in_radix(s: Seq<char>, radix: nat, max: nat) -> Option<nat> {
    let body = if s.len() > 0 && s[0] == '+' {
        s.drop_first()
    } else {
        s
    };
    if body.len() == 0 {
        None
    } else {
        match digits_value(body, radix) {
            Some(v) => if v <= max {
                Some(v)
            } else {
                None
            },
            None => None,
        }
    }
}

/// How a 16-bit unsigned number is read in base `radix`.
pub open spec fn u16_in_radix(s: Seq<char>, radix: nat) -> Option<u16> {
    match unsigned_in_radix(s, radix, 0xFFFF) {
        Some(v) => Some(v as u16),
        None => None,
    }
}

/// How a 64-bit unsigned number is read in base `radix`.
pub open spec fn u64_in_radix(s: Seq<char>, radix: nat) -> Option<u64> {
    match unsigned_in_radix(s, radix, u64::MAX as nat) {
        Some(v) => Some(v as u64),
        None => None,
    }
}

/// Every prefix of a string of digits is one, and is worth no more.
proof fn lemma_prefix_value(s: Seq<char>, radix: nat, j: int)
    requires
        1 <= radix,
        0 <= j <= s.len(),
        digits_value(s, radix) is Some,
    ensures
        digits_value(s.take(j), radix) is Some,
        digits_value(s.take(j), radix)->0 <= digits_value(s, radix)->0,
    decreases s.len(),
{
    if j == s.len() {
        assert(s.take(j) =~= s);
    } else {
        assert(s.drop_last().take(j) =~= s.take(j));
        lemma_prefix_value(s.drop_last(), radix, j);
        let v = digits_value(s.drop_last(), radix)->0;
        let d = digit_value(s.last(), radix)->0;
        assert(v * radix + d >= v) by (nonlinear_arith)
            requires
                radix >= 1,
        ;
    }
}

fn char_digit(c: char, radix: u32) -> (d: Option<u32>)
    requires
        2 <= radix <= 36,
    ensures
        match d {
            Some(x) => digit_value(c, radix as nat) == Some(x as nat) && x < radix,
            None => digit_value(c, radix as nat) is None,
        },
{
    let k = c as u32;
    let v: u32 = if 48 <= k && k <= 57 {
        k - 48
    } else if 97 <= k && k <= 122 {
        k - 87
    } else if 65 <= k && k <= 90 {
        k - 55
    } else {
        36
    };
    if v < radix {
        Some(v)
    } else {
        None
    }
}

/// Read the characters of `s` from `from` on as an unsigned number of at
/// most `max` in base `radix`: an optional `+`, then digits.
fn parse_unsigned(s: &str, from: usize, radix: u32, max: u64) -> (r: Option<u64>)
    requires
        from <= s@.len(),
        2 <= radix <= 36,
    ensures
        match unsigned_in_radix(s@.skip(from as int), radix as nat, max as nat) {
            Some(v) => r == Some(v as u64),
            None => r is None,
        },
{
    let ghost t = s@.skip(from as int);
    let n = s.unicode_len();
    let mut i = from;
    if i < n && s.get_char(i) == '+' {
        i = i + 1;
    }
    let start = i;
    let ghost body = s@.skip(start as int);
    assert(body =~= (if t.len() > 0 && t[0] == '+' {
        t.drop_first()
    } else {
        t
    }));
    if start == n {
        return None;
    }
    let mut acc: u128 = 0;
    assert(body.take(0) =~= Seq::<char>::empty());
    while i < n
        invariant
            from <= start <= i <= n,
            n == s@.len(),
            body == s@.skip(start as int),
            start < n,
            t == s@.skip(from as int),
            body == (if t.len() > 0 && t[0] == '+' {
                t.drop_first()
            } else {
                t
            }),
            2 <= radix <= 36,
            digits_value(body.take(i - start), radix as nat) == Some(acc as nat),
            acc <= max,
        decreases n - i,
    {
        let c = s.get_char(i);
        assert(body.take(i + 1 - start).drop_last() =~= body.take(i - start));
        assert(body.take(i + 1 - start).last() == c);
        match char_digit(c, radix) {
            None => {
                proof {
                    if digits_value(body, radix as nat) is Some {
                        lemma_prefix_value(body, radix as nat, i + 1 - start);
                    }
                }
                return None;
            },
            Some(d) => {
                assert(acc * (radix as u128) <= 0xFFFF_FFFF_FFFF_FFFFu128 * 36) by (nonlinear_arith)
                    requires
                        acc <= 0xFFFF_FFFF_FFFF_FFFFu128,
                        radix <= 36,
                ;
                let next = acc * (radix as u128) + (d as u128);
                if next > max as u128 {
                    proof {
                        if digits_value(body, radix as nat) is Some {
                            lemma_prefix_value(body, radix as nat, i + 1 - start);
                        }
                    }
                    return None;
                }
                acc = next;
            },
        }
        i = i + 1;
    }
    assert(body.take(n - start) =~= body);
    Some(acc as u64)
}

/// Read the characters of `s` from `from` on as a 16-bit unsigned number in
/// base `radix`: an optional `+`, then digits, the value fitting in 16 bits.
pub fn parse_u16(s: &str, from: usize, radix: u32) -> (r: Option<u16>)
    requires
        from <= s@.len(),
        2 <= radix <= 36,
    ensures
        r == u16_in_radix(s@.skip(from as int), radix as nat),
{
    match parse_unsigned(s, from, radix, 0xFFFF) {
        Some(v) => Some(v as u16),
        None => None,
    }
}

/// Read the characters of `s` from `from` on as a 64-bit unsigned number in
/// base `radix`: an optional `+`, then digits, the value fitting in 64 bits.
pub fn parse_u64(s: &str, from: usize, radix: u32) -> (r: Option<u64>)
    requires
        from <= s@.len(),
        2 <= radix <= 36,
    ensures
        r == u64_in_radix(s@.skip(from as int), radix as nat),
{
    parse_unsigned(s, from, radix, u64::MAX)
}

/// Decimal text reads back as the number it was written from, and is made
/// of digits only.
pub proof fn lemma_decimal_reads_back(n: nat)
    ensures
        digits_value(decimal(n), 10) == Some(n),
        decimal(n).len() >= 1,
        forall|i: int| 0 <= i < decimal(n).len() ==> 48 <= #[trigger] (decimal(n)[i] as int) <= 57,
    decreases n,
{
    if n >= 10 {
        lemma_decimal_reads_back(n / 10);
        let s = decimal(n);
        assert(s.drop_last() =~= decimal(n / 10));
        assert(digit_char((n % 10) as int) as int == 48 + n % 10);
        assert forall|i: int| 0 <= i < s.len() implies 48 <= #[trigger] (s[i] as int) <= 57 by {
            if i < s.len() - 1 {
                assert(s[i] == decimal(n / 10)[i]);
            }
        }
    } else {
        assert(digit_char(n as int) as int == 48 + n);
        assert(decimal(n).drop_last() =~= Seq::<char>::empty());
        assert(digits_value(Seq::<char>::empty(), 10) == Some(0nat));
    }
}

/// A 64-bit number written in decimal reads back as itself.
pub proof fn lemma_decimal_u64_reads_back(n: u64)
    ensures
        u64_in_radix(decimal(n as nat), 10) == Some(n),
{
    lemma_decimal_reads_back(n as nat);
    assert(decimal(n as nat)[0] as int >= 48);
}

/// A number up to 65535 written in decimal reads back as a 16-bit number.
pub proof fn lemma_decimal_u16_reads_back(n: u16)
    ensures
        u16_in_radix(decimal(n as nat), 10) == Some(n),
{
    lemma_decimal_reads_back(n as nat);
    assert(decimal(n as nat)[0] as int >= 48);
}

/// The `Debug` form of a string: in double quotes, with quotes, backslashes
/// and characters that do not print escaped. It is a function of the
/// string alone.
pub uninterp spec fn str_debug(s: Seq<char>) -> Seq<char>;

/// `format!("{s:?}")`, std's `Debug` for `str`: returns the string's
/// `Debug` form, which depends on the string alone. What that form is for a
/// given string is left to std and not stated here.
#[verifier::external_body]
pub(crate) fn debug_str(s: &str) -> (out: String)
    ensures
        out@ == str_debug(s@),
{
    format!("{s:?}")
}

/// Whether two strings hold the same characters.
pub fn same_text(a: &str, b: &str) -> (eq: bool)
    ensures
        eq == (a@ == b@),
{
    let n = a.unicode_len();
    let m = b.unicode_len();
    if n != m {
        return false;
    }
    let mut i: usize = 0;
    while i < n
        invariant
            i <= n,
            n == a@.len(),
            n == b@.len(),
            a@.take(i as int) == b@.take(i as int),
        decreases n - i,
    {
        if a.get_char(i) != b.get_char(i) {
            return false;
        }
        assert(a@.take(i + 1) =~= a@.take(i as int).push(a@[i as int]));
        assert(b@.take(i + 1) =~= b@.take(i as int).push(b@[i as int]));
        i = i + 1;
    }
    assert(a@.take(n as int) =~= a@);
    assert(b@.take(n as int) =~= b@);
    true
}

} // verus!
