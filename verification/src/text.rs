//! Building text: decimal and hexadecimal numerals, identifier case
//! conversion, and character-level string helpers.

use vstd::prelude::*;

verus! {

/// The character for a decimal digit.
pub open spec fn digit_char(d: nat) -> char {
    if d == 0 { '0' }
    else if d == 1 { '1' }
    else if d == 2 { '2' }
    else if d == 3 { '3' }
    else if d == 4 { '4' }
    else if d == 5 { '5' }
    else if d == 6 { '6' }
    else if d == 7 { '7' }
    else if d == 8 { '8' }
    else { '9' }
}

/// The character for a hexadecimal digit, upper case.
pub open spec fn hex_char(d: nat) -> char {
    if d < 10 { digit_char(d) }
    else if d == 10 { 'A' }
    else if d == 11 { 'B' }
    else if d == 12 { 'C' }
    else if d == 13 { 'D' }
    else if d == 14 { 'E' }
    else { 'F' }
}

/// The decimal numeral of `n`, without leading zeros.
pub open spec fn decimal(n: nat) -> Seq<char>
    decreases n,
{
    if n < 10 {
        seq![digit_char(n)]
    } else {
        decimal(n / 10).push(digit_char(n % 10))
    }
}

/// The decimal numeral of a signed integer, with a leading `-` when negative.
pub open spec fn signed_decimal(n: int) -> Seq<char> {
    if n < 0 {
        seq!['-'] + decimal((-n) as nat)
    } else {
        decimal(n as nat)
    }
}

/// The last `width` hexadecimal digits of `n`, padded with zeros.
pub open spec fn hex_digits(n: nat, width: nat) -> Seq<char>
    decreases width,
{
    if width == 0 {
        Seq::empty()
    } else {
        hex_digits(n / 16, (width - 1) as nat).push(hex_char(n % 16))
    }
}

/// `0x` followed by the eight upper-case hexadecimal digits of a `u32`.
pub open spec fn hex_u32(n: u32) -> Seq<char> {
    seq!['0', 'x'] + hex_digits(n as nat, 8)
}

/// The text of a boolean literal.
pub open spec fn bool_text(b: bool) -> Seq<char> {
    if b { "true"@ } else { "false"@ }
}

/// Upper case of an ASCII lower-case letter; every other character is kept.
pub open spec fn upper_char(c: char) -> char {
    if 'a' <= c && c <= 'z' {
        ((c as u32) - 32) as char
    } else {
        c
    }
}

/// Every character of `s` through `upper_char`.
pub open spec fn upper(s: Seq<char>) -> Seq<char> {
    s.map_values(|c: char| upper_char(c))
}

/// Appends one character by std's `String::push`, which its documentation
/// describes as appending the given `char` to the end of the string: the
/// contract claims the characters afterwards are the old ones followed by
/// `c`. Nothing here proves it; vstd gives `String::push` no specification.
#[verifier::external_body]
pub(crate) fn push_char(s: &mut String, c: char)
    ensures
        final(s)@ == old(s)@.push(c),
{
    s.push(c);
}

fn digit_of(d: u64) -> (c: char)
    requires
        d < 10,
    ensures
        c == digit_char(d as nat),
{
    match d {
        0 => '0',
        1 => '1',
        2 => '2',
        3 => '3',
        4 => '4',
        5 => '5',
        6 => '6',
        7 => '7',
        8 => '8',
        _ => '9',
    }
}

fn hex_of(d: u32) -> (c: char)
    requires
        d < 16,
    ensures
        c == hex_char(d as nat),
{
    if d < 10 {
        digit_of(d as u64)
    } else {
        match d {
            10 => 'A',
            11 => 'B',
            12 => 'C',
            13 => 'D',
            14 => 'E',
            _ => 'F',
        }
    }
}

/// Appends the decimal numeral of `n`.
pub fn append_decimal(s: &mut String, n: u64)
    ensures
        final(s)@ == old(s)@ + decimal(n as nat),
    decreases n,
{
    if n < 10 {
        push_char(s, digit_of(n));
        assert(old(s)@.push(digit_char(n as nat)) =~= old(s)@ + decimal(n as nat));
    } else {
        append_decimal(s, n / 10);
        push_char(s, digit_of(n % 10));
        assert(old(s)@ + decimal(n as nat) =~= (old(s)@ + decimal((n / 10) as nat)).push(
            digit_char((n % 10) as nat),
        ));
    }
}

/// Appends the decimal numeral of a signed integer.
pub fn append_signed_decimal(s: &mut String, n: i64)
    ensures
        final(s)@ == old(s)@ + signed_decimal(n as int),
{
    if n < 0 {
        push_char(s, '-');
        let m: i128 = -(n as i128);
        append_decimal(s, m as u64);
        assert(old(s)@ + signed_decimal(n as int) =~= old(s)@.push('-') + decimal(m as nat));
    } else {
        append_decimal(s, n as u64);
    }
}

/// Appends the last `width` hexadecimal digits of `n`, zero padded.
pub fn append_hex_digits(s: &mut String, n: u32, width: u32)
    ensures
        final(s)@ == old(s)@ + hex_digits(n as nat, width as nat),
    decreases width,
{
    if width == 0 {
        assert(old(s)@ + hex_digits(n as nat, 0) =~= old(s)@);
    } else {
        append_hex_digits(s, n / 16, width - 1);
        push_char(s, hex_of(n % 16));
        assert(old(s)@ + hex_digits(n as nat, width as nat) =~= (old(s)@ + hex_digits(
            (n / 16) as nat,
            (width - 1) as nat,
        )).push(hex_char((n % 16) as nat)));
    }
}

/// Appends `n` as `0x` and eight upper-case hexadecimal digits.
pub fn append_hex_u32(s: &mut String, n: u32)
    ensures
        final(s)@ == old(s)@ + hex_u32(n),
{
    push_char(s, '0');
    push_char(s, 'x');
    append_hex_digits(s, n, 8);
    assert(old(s)@ + hex_u32(n) =~= old(s)@.push('0').push('x') + hex_digits(n as nat, 8));
}

/// Appends `true` or `false`.
pub fn append_bool(s: &mut String, b: bool)
    ensures
        final(s)@ == old(s)@ + bool_text(b),
{
    if b {
        s.append("true");
    } else {
        s.append("false");
    }
}

/// Whether two strings are equal.
pub fn str_eq(a: &str, b: &str) -> (r: bool)
    ensures
        r == (a@ == b@),
{
    a.to_owned() == b.to_owned()
}

/// The upper-case form of an identifier (ASCII letters only are changed).
pub fn to_upper(name: &str) -> (r: String)
    ensures
        r@ == upper(name@),
{
    let n = name.unicode_len();
    let mut out = String::new();
    let mut i: usize = 0;
    while i < n
        invariant
            n == name@.len(),
            i <= n,
            out@ =~= upper(name@.take(i as int)),
        decreases n - i,
    {
        let c = name.get_char(i);
        let u = if 'a' <= c && c <= 'z' {
            ((c as u8) - 32) as char
        } else {
            c
        };
        assert(u == upper_char(c)) by {
            if 'a' <= c && c <= 'z' {
                assert((c as u8) as u32 == c as u32);
            }
        }
        push_char(&mut out, u);
        i = i + 1;
        assert(upper(name@.take(i as int)) =~= upper(name@.take((i - 1) as int)).push(u));
    }
    assert(name@.take(n as int) =~= name@);
    out
}


/// Whether `t` occurs in `s` as a contiguous part.
pub open spec fn is_infix(t: Seq<char>, s: Seq<char>) -> bool {
    exists|i: int| 0 <= i && i + t.len() <= s.len() && #[trigger] s.subrange(i, i + t.len()) == t
}

/// Whether `s` begins with `t`.
pub open spec fn starts_with(s: Seq<char>, t: Seq<char>) -> bool {
    t.len() <= s.len() && s.subrange(0, t.len() as int) == t
}

/// Whether `s` ends with `t`.
pub open spec fn ends_with(s: Seq<char>, t: Seq<char>) -> bool {
    t.len() <= s.len() && s.subrange(s.len() - t.len(), s.len() as int) == t
}

/// Joining texts is associative.
pub broadcast proof fn lemma_concat_assoc(a: Seq<char>, b: Seq<char>, c: Seq<char>)
    ensures
        #[trigger] ((a + b) + c) == a + (b + c),
{
    assert(((a + b) + c) =~= a + (b + c));
}

/// A text put between two others occurs in the whole.
pub proof fn lemma_infix_between(a: Seq<char>, t: Seq<char>, b: Seq<char>)
    ensures
        is_infix(t, a + t + b),
{
    let i: int = a.len() as int;
    assert((a + t + b).subrange(i, i + t.len()) =~= t);
}

/// What occurs in a text occurs in any text that extends it on either side.
pub proof fn lemma_infix_grow(t: Seq<char>, x: Seq<char>, y: Seq<char>)
    requires
        is_infix(t, x),
    ensures
        is_infix(t, x + y),
        is_infix(t, y + x),
{
    let i = choose|i: int| 0 <= i && i + t.len() <= x.len() && #[trigger] x.subrange(i, i + t.len()) == t;
    assert((x + y).subrange(i, i + t.len()) =~= t);
    assert((y + x).subrange(y.len() + i, y.len() + i + t.len()) =~= t);
}

/// A text begins with its first part and ends with its last.
pub proof fn lemma_concat_ends(a: Seq<char>, b: Seq<char>)
    ensures
        starts_with(a + b, a),
        ends_with(a + b, b),
        is_infix(a, a + b),
        is_infix(b, a + b),
{
    assert((a + b).subrange(0, a.len() as int) =~= a);
    let i: int = 0;
    assert((a + b).subrange(i, i + a.len()) =~= a);
    assert((a + b).subrange(a.len() as int, (a + b).len() as int) =~= b);
    let j: int = a.len() as int;
    assert((a + b).subrange(j, j + b.len()) =~= b);
}

/// A text that begins with `t` still does when extended on the right.
pub proof fn lemma_starts_with_grow(s: Seq<char>, t: Seq<char>, y: Seq<char>)
    requires
        starts_with(s, t),
    ensures
        starts_with(s + y, t),
{
    assert((s + y).subrange(0, t.len() as int) =~= s.subrange(0, t.len() as int));
}

} // verus!
