//! Text primitives: character escaping, decimal numbers, permissive decoding.

use vstd::prelude::*;
use vstd::string::StrSliceExecFns;

verus! {

/// The characters that the target markup renderer treats as formatting.
pub open spec fn is_reserved(c: char) -> bool {
    c == '*' || c == '_' || c == '[' || c == ']' || c == '(' || c == ')' || c == '~' || c == '>'
        || c == '#' || c == '+' || c == '-' || c == '=' || c == '|' || c == '{' || c == '}'
        || c == '.' || c == '!'
}

/// The escape character placed before every reserved character.
pub open spec fn escape_char() -> char {
    '\\'
}

/// `s` with every reserved character prefixed by the escape character.
pub open spec fn escaped(s: Seq<char>) -> Seq<char>
    decreases s.len(),
{
    if s.len() == 0 {
        Seq::empty()
    } else {
        let c = s.last();
        escaped(s.drop_last()) + if is_reserved(c) {
            seq![escape_char(), c]
        } else {
            seq![c]
        }
    }
}

/// The digit character for `d < 10`.
pub open spec fn digit_char(d: nat) -> char {
    ((d + 48) as u8) as char
}

/// Decimal notation of `n`, without sign or leading zeros.
pub open spec fn decimal_text(n: nat) -> Seq<char>
    decreases n,
{
    if n < 10 {
        seq![digit_char(n)]
    } else {
        decimal_text(n / 10).push(digit_char(n % 10))
    }
}

pub open spec fn is_digit(c: char) -> bool {
    '0' <= c && c <= '9'
}

/// The value of a sequence of decimal digits.
pub open spec fn digits_value(s: Seq<char>) -> nat
    decreases s.len(),
{
    if s.len() == 0 {
        0
    } else {
        digits_value(s.drop_last()) * 10 + (s.last() as nat - '0' as nat) as nat
    }
}

/// The `u32` that `s` spells: an optional `+` followed by one or more decimal
/// digits whose value fits in 32 bits.
pub open spec fn u32_of_text(s: Seq<char>) -> Option<u32> {
    let d = if s.len() > 0 && s[0] == '+' {
        s.skip(1)
    } else {
        s
    };
    if d.len() > 0 && (forall|i: int| 0 <= i < d.len() ==> is_digit(#[trigger] d[i]))
        && digits_value(d) <= u32::MAX {
        Some(digits_value(d) as u32)
    } else {
        None
    }
}

/// The `bool` that `s` spells, if it is one of the two literals.
pub open spec fn bool_of_text(s: Seq<char>) -> Option<bool> {
    if s == "true"@ {
        Some(true)
    } else if s == "false"@ {
        Some(false)
    } else {
        None
    }
}

/// What permissive UTF-8 decoding makes of `b`: valid sequences decoded,
/// each invalid one replaced by U+FFFD.
pub uninterp spec fn lossy_text(b: Seq<u8>) -> Seq<char>;

/// Relies on `String::from_utf8_lossy`, which never fails and hands valid
/// UTF-8, ASCII among it, back unchanged.
#[verifier::external_body]
pub(crate) fn decode_lossy(b: &[u8]) -> (r: String)
    ensures
        r@ == lossy_text(b@),
        (forall|i: int| 0 <= i < b@.len() ==> #[trigger] b@[i] < 128) ==> r@ == b@.map_values(
            |c: u8| c as char,
        ),
{
    String::from_utf8_lossy(b).into_owned()
}

/// Relies on `<u32 as FromStr>::from_str`: an optional `+` and decimal digits,
/// rejected when the value overflows.
#[verifier::external_body]
fn parse_u32(s: &str) -> (r: Option<u32>)
    ensures
        r == u32_of_text(s@),
{
    s.parse::<u32>().ok()
}

/// The `bool` that `s` spells: `true` or `false` exactly.
fn parse_bool(s: &str) -> (r: Option<bool>)
    ensures
        r == bool_of_text(s@),
{
    if same_text(s, "true") {
        Some(true)
    } else if same_text(s, "false") {
        Some(false)
    } else {
        None
    }
}

/// Relies on `<u32 as ToString>::to_string`: decimal notation.
#[verifier::external_body]
fn u32_to_text(n: u32) -> (r: String)
    ensures
        r@ == decimal_text(n as nat),
{
    n.to_string()
}

/// Relies on `String::push`: appends one character.
#[verifier::external_body]
fn push_char(s: &mut String, c: char)
    ensures
        final(s)@ == old(s)@.push(c),
{
    s.push(c)
}

/// Appends `t` to `s`.
pub fn push_text(s: &mut String, t: &str)
    ensures
        final(s)@ == old(s)@ + t@,
{
    s.append(t);
}

/// Appends the decimal notation of `n` to `s`.
pub fn push_decimal(s: &mut String, n: u32)
    ensures
        final(s)@ == old(s)@ + decimal_text(n as nat),
{
    let d = u32_to_text(n);
    s.append(d.as_str());
}

/// The count that an attribute value spells, or 0 when it spells none.
pub fn count_or_zero(s: &str) -> (r: u32)
    ensures
        r == match u32_of_text(s@) {
            Some(v) => v,
            None => 0u32,
        },
{
    match parse_u32(s) {
        Some(v) => v,
        None => 0,
    }
}

/// Whether a flag value spells `true`; anything else, `false` included, is false.
pub fn flag_is_set(s: &str) -> (r: bool)
    ensures
        r == (bool_of_text(s@) == Some(true)),
{
    match parse_bool(s) {
        Some(b) => b,
        None => false,
    }
}

/// Whether two texts are equal.
pub fn same_text(a: &str, b: &str) -> (r: bool)
    ensures
        r == (a@ == b@),
{
    let n = a.unicode_len();
    if n != b.unicode_len() {
        return false;
    }
    let mut i: usize = 0;
    while i < n
        invariant
            n == a@.len(),
            n == b@.len(),
            i <= n,
            a@.subrange(0, i as int) == b@.subrange(0, i as int),
        decreases n - i,
    {
        if a.get_char(i) != b.get_char(i) {
            return false;
        }
        assert(a@.subrange(0, i + 1) =~= a@.subrange(0, i as int).push(a@[i as int]));
        assert(b@.subrange(0, i + 1) =~= b@.subrange(0, i as int).push(b@[i as int]));
        i = i + 1;
    }
    assert(a@ =~= a@.subrange(0, n as int));
    assert(b@ =~= b@.subrange(0, n as int));
    true
}

/// Escapes every reserved character of `message` with a preceding backslash.
pub fn escape_markdown(message: &str) -> (r: String)
    ensures
        r@ == escaped(message@),
{
    let mut out = String::new();
    let n = message.unicode_len();
    let mut i: usize = 0;
    while i < n
        invariant
            n == message@.len(),
            i <= n,
            out@ == escaped(message@.subrange(0, i as int)),
        decreases n - i,
    {
        let c = message.get_char(i);
        let ghost before = message@.subrange(0, i as int);
        assert(message@.subrange(0, i + 1).drop_last() =~= before);
        if c == '*' || c == '_' || c == '[' || c == ']' || c == '(' || c == ')' || c == '~'
            || c == '>' || c == '#' || c == '+' || c == '-' || c == '=' || c == '|' || c == '{'
            || c == '}' || c == '.' || c == '!' {
            push_char(&mut out, '\\');
        }
        push_char(&mut out, c);
        assert(out@ =~= escaped(message@.subrange(0, i + 1)));
        i = i + 1;
    }
    assert(message@ =~= message@.subrange(0, n as int));
    out
}

} // verus!
