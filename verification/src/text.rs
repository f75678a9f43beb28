//! Text helpers: comparing strings and rendering values as hexadecimal or
//! decimal text.

use vstd::prelude::*;
use vstd::string::*;

verus! {

/// The lower-case hexadecimal digit for a nibble.
pub open spec fn hex_digit(n: int) -> char {
    if n < 10 {
        (('0' as int) + n) as char
    } else {
        (('a' as int) + (n - 10)) as char
    }
}

/// Lower-case hexadecimal rendering: two characters per byte, high nibble first.
pub open spec fn hex_lower(bytes: Seq<u8>) -> Seq<char>
    decreases bytes.len(),
{
    if bytes.len() == 0 {
        Seq::empty()
    } else {
        hex_lower(bytes.drop_last()) + seq![
            hex_digit(bytes.last() as int / 16),
            hex_digit(bytes.last() as int % 16),
        ]
    }
}

/// The decimal digit for a number below ten.
pub open spec fn decimal_digit(n: int) -> char {
    (('0' as int) + n) as char
}

/// Decimal rendering of a natural number, without leading zeros.
pub open spec fn decimal(n: nat) -> Seq<char>
    decreases n,
{
    if n < 10 {
        seq![decimal_digit(n as int)]
    } else {
        decimal(n / 10).push(decimal_digit((n % 10) as int))
    }
}

/// The value of a lower-case hexadecimal digit.
pub open spec fn hex_value(c: char) -> int {
    if (c as int) <= ('9' as int) {
        (c as int) - ('0' as int)
    } else {
        (c as int) - ('a' as int) + 10
    }
}

/// Whether a character is a lower-case hexadecimal digit.
pub open spec fn is_hex_char(c: char) -> bool {
    (('0' as int) <= (c as int) <= ('9' as int)) || (('a' as int) <= (c as int) <= ('f' as int))
}

/// The hexadecimal digit of a nibble is a lower-case digit with that value.
proof fn lemma_hex_digit_value(n: int)
    requires
        0 <= n < 16,
    ensures
        is_hex_char(hex_digit(n)),
        hex_value(hex_digit(n)) == n,
{
}

/// Whether the two characters of `text` at byte position `i` are
/// lower-case hexadecimal digits whose values, high nibble first, make up
/// the byte `b`.
pub open spec fn hex_pair_reads(text: Seq<char>, i: int, b: u8) -> bool {
    &&& is_hex_char(text[2 * i])
    &&& is_hex_char(text[2 * i + 1])
    &&& hex_value(text[2 * i]) * 16 + hex_value(text[2 * i + 1]) == b
}

/// Lower-case hexadecimal text reads back as the bytes it renders: two
/// lower-case digits per byte, whose values, high nibble first, make up the
/// byte.
pub proof fn lemma_hex_lower_reads_back(bytes: Seq<u8>)
    ensures
        hex_lower(bytes).len() == 2 * bytes.len(),
        forall|i: int| 0 <= i < bytes.len() ==> hex_pair_reads(hex_lower(bytes), i, #[trigger] bytes[i]),
    decreases bytes.len(),
{
    if bytes.len() > 0 {
        let rest = bytes.drop_last();
        lemma_hex_lower_reads_back(rest);
        let b = bytes.last() as int;
        lemma_hex_digit_value(b / 16);
        lemma_hex_digit_value(b % 16);
        let h = hex_lower(bytes);
        let hr = hex_lower(rest);
        assert(h == hr + seq![hex_digit(b / 16), hex_digit(b % 16)]);
        assert forall|i: int| 0 <= i < bytes.len() implies hex_pair_reads(h, i, #[trigger] bytes[i]) by {
            if i < rest.len() {
                assert(rest[i] == bytes[i]);
                assert(hex_pair_reads(hr, i, rest[i]));
                assert(h[2 * i] == hr[2 * i]);
                assert(h[2 * i + 1] == hr[2 * i + 1]);
            } else {
                assert(i == rest.len());
                assert(bytes[i] == bytes.last());
                assert(h[2 * i] == hex_digit(b / 16));
                assert(h[2 * i + 1] == hex_digit(b % 16));
            }
        }
    }
}

/// The value of a text of decimal digits, most significant first.
pub open spec fn decimal_value(s: Seq<char>) -> int
    decreases s.len(),
{
    if s.len() == 0 {
        0
    } else {
        decimal_value(s.drop_last()) * 10 + ((s.last() as int) - ('0' as int))
    }
}

/// Decimal text reads back as the number it renders: it is made of decimal
/// digits whose value is the number, and it starts with a zero only where
/// the number is zero.
pub proof fn lemma_decimal_reads_back(n: nat)
    ensures
        decimal(n).len() > 0,
        decimal_value(decimal(n)) == n,
        forall|i: int|
            0 <= i < decimal(n).len() ==> ('0' as int) <= (#[trigger] decimal(n)[i] as int) <= ('9' as int),
        decimal(n)[0] == '0' <==> n == 0,
    decreases n,
{
    if n < 10 {
        assert(decimal(n) =~= seq![decimal_digit(n as int)]);
        assert(decimal(n).drop_last() =~= Seq::<char>::empty());
        assert(decimal_value(Seq::<char>::empty()) == 0);
        assert((decimal_digit(n as int) as int) - ('0' as int) == n);
    } else {
        lemma_decimal_reads_back(n / 10);
        let d = decimal(n / 10);
        assert(decimal(n) == d.push(decimal_digit((n % 10) as int)));
        assert(decimal(n).drop_last() =~= d);
        assert forall|i: int| 0 <= i < decimal(n).len() implies ('0' as int) <= (#[trigger] decimal(n)[i] as int)
            <= ('9' as int) by {
            if i < d.len() {
                assert(decimal(n)[i] == d[i]);
            }
        }
        assert(decimal(n)[0] == d[0]);
        assert((decimal_digit((n % 10) as int) as int) - ('0' as int) == n % 10);
        assert(decimal_value(decimal(n)) == decimal_value(d) * 10 + (n % 10));
    }
}

/// Appends one character to a string (`String::push`).
#[verifier::external_body]
pub fn push_char(s: &mut String, c: char)
    ensures
        final(s)@ == old(s)@.push(c),
{
    s.push(c);
}

/// Appends a string slice to a string.
pub fn push_str(s: &mut String, t: &str)
    ensures
        final(s)@ == old(s)@ + t@,
{
    s.append(t);
}

/// Lower-case hexadecimal rendering of bytes (`hex::encode`).
#[verifier::external_body]
pub fn hex_encode(bytes: &[u8]) -> (r: String)
    ensures
        r@ == hex_lower(bytes@),
{
    hex::encode(bytes)
}

/// Appends the decimal rendering of `n`.
pub fn push_decimal(s: &mut String, n: u64)
    ensures
        final(s)@ == old(s)@ + decimal(n as nat),
    decreases n,
{
    if n >= 10 {
        push_decimal(s, n / 10);
    }
    let d = (n % 10) as u32;
    let c = char_from_digit(d);
    push_char(s, c);
    assert(final(s)@ =~= old(s)@ + decimal(n as nat)) by {
        if n >= 10 {
            assert(decimal(n as nat) == decimal((n / 10) as nat).push(decimal_digit((n % 10) as int)));
        }
    }
}

/// The character of a decimal digit.
fn char_from_digit(d: u32) -> (c: char)
    requires
        d < 10,
    ensures
        c == decimal_digit(d as int),
{
    if d == 0 { '0' }
    else if d == 1 { '1' }
    else if d == 2 { '2' }
    else if d == 3 { '3' }
    else if d == 4 { '4' }
    else if d == 5 { '5' }
    else if d == 6 { '6' }
    else if d == 7 { '7' }
    else if d == 8 { '8' }
    else { '9' }
}

/// Compares two string slices for equality.
pub fn str_eq(a: &str, b: &str) -> (r: bool)
    ensures
        r == (a@ == b@),
{
    let n = a.unicode_len();
    if n != b.unicode_len() {
        return false;
    }
    let mut i: usize = 0;
    while i < n
        invariant
            n == a@.len(),
            n == b@.len(),
            i <= n,
            forall|j: int| 0 <= j < i ==> a@[j] == b@[j],
        decreases n - i,
    {
        if a.get_char(i) != b.get_char(i) {
            return false;
        }
        i = i + 1;
    }
    assert(a@ =~= b@);
    true
}

/// A string holding the characters of a slice.
pub fn string_of(t: &str) -> (r: String)
    ensures
        r@ == t@,
{
    t.to_owned()
}

} // verus!
