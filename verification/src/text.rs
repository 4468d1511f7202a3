//! Character-level text utilities: Unicode whitespace, trimming, decimal
//! printing and parsing of unsigned 16-bit numbers.
use vstd::prelude::*;

verus! {

/// The Unicode `White_Space` property, which `char::is_whitespace` follows.
pub open spec fn is_ws(c: char) -> bool {
    ||| c == ' '
    ||| ('\u{9}' <= c && c <= '\u{d}')
    ||| c == '\u{85}'
    ||| c == '\u{a0}'
    ||| c == '\u{1680}'
    ||| ('\u{2000}' <= c && c <= '\u{200a}')
    ||| c == '\u{2028}'
    ||| c == '\u{2029}'
    ||| c == '\u{202f}'
    ||| c == '\u{205f}'
    ||| c == '\u{3000}'
}

/// Whether `c` is Unicode whitespace.
pub fn is_whitespace(c: char) -> (r: bool)
    ensures
        r == is_ws(c),
{
    c == ' ' || ('\u{9}' <= c && c <= '\u{d}') || c == '\u{85}' || c == '\u{a0}' || c
        == '\u{1680}' || ('\u{2000}' <= c && c <= '\u{200a}') || c == '\u{2028}' || c
        == '\u{2029}' || c == '\u{202f}' || c == '\u{205f}' || c == '\u{3000}'
}

/// `s` without its leading whitespace.
pub open spec fn trim_start(s: Seq<char>) -> Seq<char>
    decreases s.len(),
{
    if s.len() > 0 && is_ws(s[0]) {
        trim_start(s.drop_first())
    } else {
        s
    }
}

/// `s` without its trailing whitespace.
pub open spec fn trim_end(s: Seq<char>) -> Seq<char>
    decreases s.len(),
{
    if s.len() > 0 && is_ws(s.last()) {
        trim_end(s.drop_last())
    } else {
        s
    }
}

/// `s` without leading and trailing whitespace, as `str::trim` gives it.
pub open spec fn trim(s: Seq<char>) -> Seq<char> {
    trim_end(trim_start(s))
}

/// The decimal digit character for `d < 10`.
pub open spec fn digit_char(d: nat) -> char {
    ((d + 48) as u32) as char
}

/// The decimal representation of `n`, without sign or leading zeros.
pub open spec fn dec(n: nat) -> Seq<char>
    decreases n,
{
    if n < 10 {
        seq![digit_char(n)]
    } else {
        dec(n / 10).push(digit_char(n % 10))
    }
}

fn digit_str(d: u32) -> (r: &'static str)
    requires
        d < 10,
    ensures
        r@ == seq![digit_char(d as nat)],
{
    proof {
        reveal_strlit("0");
        reveal_strlit("1");
        reveal_strlit("2");
        reveal_strlit("3");
        reveal_strlit("4");
        reveal_strlit("5");
        reveal_strlit("6");
        reveal_strlit("7");
        reveal_strlit("8");
        reveal_strlit("9");
    }
    if d == 0 {
        "0"
    } else if d == 1 {
        "1"
    } else if d == 2 {
        "2"
    } else if d == 3 {
        "3"
    } else if d == 4 {
        "4"
    } else if d == 5 {
        "5"
    } else if d == 6 {
        "6"
    } else if d == 7 {
        "7"
    } else if d == 8 {
        "8"
    } else {
        "9"
    }
}

/// The decimal representation of `n`, as `to_string` prints an unsigned number.
pub fn decimal(n: u32) -> (r: String)
    ensures
        r@ == dec(n as nat),
    decreases n,
{
    if n < 10 {
        String::from_str(digit_str(n))
    } else {
        let mut r = decimal(n / 10);
        r.append(digit_str(n % 10));
        r
    }
}

/// The characters of `s`, in order.
pub fn chars_of(s: &str) -> (v: Vec<char>)
    ensures
        v@ == s@,
{
    let mut v: Vec<char> = Vec::new();
    for c in it: s.chars()
        invariant
            v@ == it.seq().take(it.index() as int),
            it.seq() == s@,
    {
        v.push(c);
    }
    v
}

/// The characters `from..to` of `s`, as a slice of it; `ascii` tells that `s`
/// is ASCII, where a slice costs no scan.
pub fn slice_chars<'a>(s: &'a str, ascii: bool, from: usize, to: usize) -> (r: &'a str)
    requires
        ascii ==> s.is_ascii(),
        from <= to <= s@.len(),
    ensures
        r@ == s@.subrange(from as int, to as int),
{
    if ascii {
        s.substring_ascii(from, to)
    } else {
        s.substring_char(from, to)
    }
}

/// Whether two strings hold the same characters.
pub fn same_text(a: &str, b: &str) -> (r: bool)
    ensures
        r == (a@ == b@),
{
    let x = chars_of(a);
    let y = chars_of(b);
    if x.len() != y.len() {
        return false;
    }
    let mut i: usize = 0;
    while i < x.len()
        invariant
            x@ == a@,
            y@ == b@,
            x.len() == y.len(),
            i <= x.len(),
            forall|j: int| 0 <= j < i ==> x@[j] == y@[j],
        decreases x.len() - i,
    {
        if x[i] != y[i] {
            assert(a@[i as int] != b@[i as int]);
            return false;
        }
        i = i + 1;
    }
    assert(a@ =~= b@);
    true
}

/// Why a text is not an unsigned 16-bit number (the kinds of `ParseIntError`).
#[derive(Clone, Copy, Debug, PartialEq, Eq, Structural)]
pub enum IntErrorKind {
    Empty,
    InvalidDigit,
    PosOverflow,
}

pub open spec fn is_digit(c: char) -> bool {
    '0' <= c && c <= '9'
}

pub open spec fn digit_value(c: char) -> nat {
    (c as u32 - 48) as nat
}

/// Reads the decimal digits of `s` after the value `acc` read so far, from left
/// to right: a non-digit is refused before an overflow at the same place.
pub open spec fn scan_digits(s: Seq<char>, acc: nat) -> Result<nat, IntErrorKind>
    decreases s.len(),
{
    if s.len() == 0 {
        Ok(acc)
    } else if !is_digit(s[0]) {
        Err(IntErrorKind::InvalidDigit)
    } else if acc * 10 + digit_value(s[0]) > 65535 {
        Err(IntErrorKind::PosOverflow)
    } else {
        scan_digits(s.drop_first(), acc * 10 + digit_value(s[0]))
    }
}

/// The `u16` that `s` denotes: an optional `+` followed by decimal digits.
pub open spec fn parse_u16_spec(s: Seq<char>) -> Result<u16, IntErrorKind> {
    if s.len() == 0 {
        Err(IntErrorKind::Empty)
    } else if s.len() == 1 && (s[0] == '+' || s[0] == '-') {
        Err(IntErrorKind::InvalidDigit)
    } else {
        let digits = if s[0] == '+' {
            s.drop_first()
        } else {
            s
        };
        match scan_digits(digits, 0) {
            Ok(v) => Ok(v as u16),
            Err(e) => Err(e),
        }
    }
}

proof fn lemma_scan_bound(s: Seq<char>, acc: nat)
    requires
        acc <= 65535,
    ensures
        scan_digits(s, acc) matches Ok(v) ==> v <= 65535,
    decreases s.len(),
{
    if s.len() > 0 && is_digit(s[0]) && acc * 10 + digit_value(s[0]) <= 65535 {
        lemma_scan_bound(s.drop_first(), acc * 10 + digit_value(s[0]));
    }
}

/// Parses `s` as an unsigned 16-bit decimal number, as `str::parse::<u16>` does.
pub fn parse_u16(s: &str) -> (r: Result<u16, IntErrorKind>)
    ensures
        r == parse_u16_spec(s@),
{
    let c = chars_of(s);
    let n = c.len();
    if n == 0 {
        return Err(IntErrorKind::Empty);
    }
    if n == 1 && (c[0] == '+' || c[0] == '-') {
        return Err(IntErrorKind::InvalidDigit);
    }
    let start: usize = if c[0] == '+' {
        1
    } else {
        0
    };
    let ghost digits = s@.skip(start as int);
    assert(digits =~= (if s@[0] == '+' {
        s@.drop_first()
    } else {
        s@
    }));
    let mut acc: u32 = 0;
    let mut i: usize = start;
    while i < n
        invariant
            c@ == s@,
            n == c.len(),
            start <= i <= n,
            acc <= 65535,
            scan_digits(digits, 0) == scan_digits(s@.skip(i as int), acc as nat),
            digits == s@.skip(start as int),
            parse_u16_spec(s@) == (match scan_digits(digits, 0) {
                Ok(v) => Ok(v as u16),
                Err(e) => Err(e),
            }),
        decreases n - i,
    {
        let ghost rest = s@.skip(i as int);
        assert(rest[0] == c@[i as int]);
        assert(rest.drop_first() =~= s@.skip(i + 1));
        let ch = c[i];
        if !('0' <= ch && ch <= '9') {
            return Err(IntErrorKind::InvalidDigit);
        }
        let d: u32 = (ch as u32) - 48;
        if acc * 10 + d > 65535 {
            return Err(IntErrorKind::PosOverflow);
        }
        acc = acc * 10 + d;
        i = i + 1;
    }
    assert(s@.skip(n as int) =~= Seq::<char>::empty());
    proof {
        lemma_scan_bound(digits, 0);
    }
    Ok(acc as u16)
}

/// Reading one more digit continues from the value of the digits before it.
proof fn lemma_scan_push(s: Seq<char>, c: char, acc: nat)
    ensures
        scan_digits(s.push(c), acc) == (match scan_digits(s, acc) {
            Ok(v) => scan_digits(seq![c], v),
            Err(e) => Err(e),
        }),
    decreases s.len(),
{
    if s.len() > 0 {
        assert(s.push(c).drop_first() =~= s.drop_first().push(c));
        if is_digit(s[0]) && acc * 10 + digit_value(s[0]) <= 65535 {
            lemma_scan_push(s.drop_first(), c, acc * 10 + digit_value(s[0]));
        }
    } else {
        assert(s.push(c) =~= seq![c]);
    }
}

/// The decimal representation of a number is digits only, and is not empty.
pub proof fn lemma_dec_digits(n: nat)
    ensures
        dec(n).len() > 0,
        forall|j: int| 0 <= j < dec(n).len() ==> is_digit(#[trigger] dec(n)[j]),
    decreases n,
{
    if n >= 10 {
        lemma_dec_digits(n / 10);
    }
}

/// Printing a `u16` and parsing the text gives the number back.
pub proof fn lemma_dec_parse_roundtrip(n: u16)
    ensures
        parse_u16_spec(dec(n as nat)) == Ok::<u16, IntErrorKind>(n),
{
    lemma_dec_scan(n as nat);
    lemma_dec_digits(n as nat);
    let s = dec(n as nat);
    assert(is_digit(s[0]));
}

proof fn lemma_dec_scan(n: nat)
    requires
        n <= 65535,
    ensures
        scan_digits(dec(n), 0) == Ok::<nat, IntErrorKind>(n),
    decreases n,
{
    let d = digit_char(n % 10);
    assert(d as u32 == n % 10 + 48);
    assert(is_digit(d));
    assert(digit_value(d) == n % 10);
    assert(seq![d][0] == d);
    assert(seq![d].drop_first() =~= Seq::<char>::empty());
    assert(scan_digits(seq![d], n / 10) == Ok::<nat, IntErrorKind>((n / 10) * 10 + n % 10)) by {
        reveal_with_fuel(scan_digits, 2);
    }
    if n < 10 {
        assert(scan_digits(seq![d], 0) == Ok::<nat, IntErrorKind>(n)) by {
            reveal_with_fuel(scan_digits, 2);
        }
    } else {
        lemma_dec_scan(n / 10);
        lemma_scan_push(dec(n / 10), d, 0);
        assert(seq![d].drop_first() =~= Seq::<char>::empty());
        assert((n / 10) * 10 + n % 10 == n);
    }
}

/// Two `u16` numbers print alike only when they are equal.
pub proof fn lemma_dec_injective(a: u16, b: u16)
    ensures
        dec(a as nat) == dec(b as nat) ==> a == b,
{
    lemma_dec_parse_roundtrip(a);
    lemma_dec_parse_roundtrip(b);
}

} // verus!
