//! Character-level building blocks: decimal and hexadecimal renderings, and filtering.

use vstd::prelude::*;

verus! {

/// `String::push` appends one character.
pub assume_specification[ String::push ](s: &mut String, ch: char)
    ensures
        final(s)@ == old(s)@.push(ch),
;

/// The ASCII digit for `d < 10`.
pub open spec fn digit(d: nat) -> char {
    (48 + d) as char
}

/// Decimal rendering of `n`, without leading zeros ("0" for zero).
pub open spec fn decimal(n: nat) -> Seq<char>
    decreases n,
{
    if n < 10 {
        seq![digit(n)]
    } else {
        decimal(n / 10).push(digit(n % 10))
    }
}

/// A decimal rendering is at least one character long and made of ASCII digits only.
pub proof fn lemma_decimal_digits(n: nat)
    ensures
        decimal(n).len() >= 1,
        forall|i: int| 0 <= i < decimal(n).len() ==> 48 <= #[trigger] decimal(n)[i] as u32 <= 57,
    decreases n,
{
    if n >= 10 {
        lemma_decimal_digits(n / 10);
    }
}

/// Different numbers have different decimal renderings.
pub proof fn lemma_decimal_injective(n: nat, m: nat)
    requires
        decimal(n) == decimal(m),
    ensures
        n == m,
    decreases n,
{
    lemma_decimal_digits(n / 10);
    lemma_decimal_digits(m / 10);
    if n >= 10 && m >= 10 {
        assert(decimal(n).last() == digit(n % 10));
        assert(decimal(m).last() == digit(m % 10));
        assert(digit(n % 10) as u32 == 48 + n % 10);
        assert(digit(m % 10) as u32 == 48 + m % 10);
        assert(decimal(n / 10) =~= decimal(n).drop_last());
        assert(decimal(m / 10) =~= decimal(m).drop_last());
        lemma_decimal_injective(n / 10, m / 10);
    } else if n < 10 && m < 10 {
        assert(decimal(n)[0] == digit(n) && decimal(m)[0] == digit(m));
        assert(digit(n) as u32 == 48 + n);
        assert(digit(m) as u32 == 48 + m);
    } else if n < 10 {
        assert(decimal(m).len() >= 2);
    } else {
        assert(decimal(n).len() >= 2);
    }
}

/// A decimal rendering followed by a comma can be read back: the number and what follows
/// the digits are determined by the text.
pub proof fn lemma_decimal_prefix(n: nat, m: nat, s: Seq<char>, t: Seq<char>)
    requires
        decimal(n) + s == decimal(m) + t,
        s.len() > 0 && s[0] == ',',
        t.len() > 0 && t[0] == ',',
    ensures
        n == m,
        s == t,
{
    lemma_decimal_digits(n);
    lemma_decimal_digits(m);
    let l = decimal(n) + s;
    let k1 = decimal(n).len() as int;
    let k2 = decimal(m).len() as int;
    if k1 < k2 {
        assert(l[k1] == s[0]);
        assert(l[k1] == decimal(m)[k1]);
        assert(48 <= decimal(m)[k1] as u32);
    } else if k2 < k1 {
        assert(l[k2] == t[0]);
        assert(l[k2] == decimal(n)[k2]);
        assert(48 <= decimal(n)[k2] as u32);
    }
    assert(decimal(n) =~= l.subrange(0, k1));
    assert(decimal(m) =~= l.subrange(0, k2));
    lemma_decimal_injective(n, m);
    assert(s =~= l.subrange(k1, l.len() as int));
    assert(t =~= l.subrange(k2, l.len() as int));
}

/// The last `width` decimal digits of `n`, zero-padded on the left.
pub open spec fn fixed_digits(n: nat, width: nat) -> Seq<char>
    decreases width,
{
    if width == 0 {
        Seq::empty()
    } else {
        fixed_digits(n / 10, (width - 1) as nat).push(digit(n % 10))
    }
}

/// Lower-case hexadecimal digit for `d < 16`.
pub open spec fn hex_digit(d: nat) -> char {
    if d < 10 {
        (48 + d) as char
    } else {
        (87 + d) as char
    }
}

/// Upper-case hexadecimal digit for `d < 16`.
pub open spec fn hex_digit_upper(d: nat) -> char {
    if d < 10 {
        (48 + d) as char
    } else {
        (55 + d) as char
    }
}

/// Two lower-case hex digits per byte, most significant nibble first.
pub open spec fn hex_lower(bytes: Seq<u8>) -> Seq<char>
    decreases bytes.len(),
{
    if bytes.len() == 0 {
        Seq::empty()
    } else {
        hex_lower(bytes.drop_last()).push(hex_digit(bytes.last() as nat / 16)).push(
            hex_digit(bytes.last() as nat % 16),
        )
    }
}

/// Two upper-case hex digits per byte, most significant nibble first.
pub open spec fn hex_upper(bytes: Seq<u8>) -> Seq<char>
    decreases bytes.len(),
{
    if bytes.len() == 0 {
        Seq::empty()
    } else {
        hex_upper(bytes.drop_last()).push(hex_digit_upper(bytes.last() as nat / 16)).push(
            hex_digit_upper(bytes.last() as nat % 16),
        )
    }
}

/// A lower-case hexadecimal digit.
pub open spec fn is_lower_hex(c: char) -> bool {
    ('0' <= c && c <= '9') || ('a' <= c && c <= 'f')
}

/// An upper-case hexadecimal digit.
pub open spec fn is_upper_hex(c: char) -> bool {
    ('0' <= c && c <= '9') || ('A' <= c && c <= 'F')
}

/// The upper-case form of a lower-case hexadecimal digit.
pub open spec fn to_upper_hex(c: char) -> char {
    if 'a' <= c && c <= 'f' {
        (c as int - 32) as char
    } else {
        c
    }
}

/// Each byte gives two digits: its high nibble at `2 i`, its low nibble at `2 i + 1`.
pub proof fn lemma_hex_lower(bytes: Seq<u8>)
    ensures
        hex_lower(bytes).len() == 2 * bytes.len(),
        forall|i: int| 0 <= i < bytes.len() ==> hex_lower(bytes)[2 * i] == hex_digit(#[trigger] bytes[i] as nat / 16)
            && hex_lower(bytes)[2 * i + 1] == hex_digit(bytes[i] as nat % 16),
    decreases bytes.len(),
{
    if bytes.len() > 0 {
        lemma_hex_lower(bytes.drop_last());
        assert forall|i: int| 0 <= i < bytes.len() implies hex_lower(bytes)[2 * i] == hex_digit(
            #[trigger] bytes[i] as nat / 16,
        ) && hex_lower(bytes)[2 * i + 1] == hex_digit(bytes[i] as nat % 16) by {
            if i < bytes.len() - 1 {
                assert(bytes.drop_last()[i] == bytes[i]);
            }
        }
    }
}

/// The same for upper-case digits.
pub proof fn lemma_hex_upper(bytes: Seq<u8>)
    ensures
        hex_upper(bytes).len() == 2 * bytes.len(),
        forall|i: int| 0 <= i < bytes.len() ==> hex_upper(bytes)[2 * i] == hex_digit_upper(
            #[trigger] bytes[i] as nat / 16,
        ) && hex_upper(bytes)[2 * i + 1] == hex_digit_upper(bytes[i] as nat % 16),
    decreases bytes.len(),
{
    if bytes.len() > 0 {
        lemma_hex_upper(bytes.drop_last());
        assert forall|i: int| 0 <= i < bytes.len() implies hex_upper(bytes)[2 * i] == hex_digit_upper(
            #[trigger] bytes[i] as nat / 16,
        ) && hex_upper(bytes)[2 * i + 1] == hex_digit_upper(bytes[i] as nat % 16) by {
            if i < bytes.len() - 1 {
                assert(bytes.drop_last()[i] == bytes[i]);
            }
        }
    }
}

fn digit_char(d: u64) -> (c: char)
    requires
        d < 10,
    ensures
        c == digit(d as nat),
{
    ((48 + d) as u8) as char
}

/// Appends the decimal rendering of `n`.
pub fn push_decimal(out: &mut String, n: u64)
    ensures
        final(out)@ == old(out)@ + decimal(n as nat),
    decreases n,
{
    if n >= 10 {
        push_decimal(out, n / 10);
    }
    out.push(digit_char(n % 10));
    proof {
        if n >= 10 {
            assert(decimal(n as nat) == decimal((n / 10) as nat).push(digit((n % 10) as nat)));
        }
    }
}

/// Appends the last `width` digits of `n`, zero-padded.
pub fn push_fixed_digits(out: &mut String, n: u64, width: u64)
    ensures
        final(out)@ == old(out)@ + fixed_digits(n as nat, width as nat),
    decreases width,
{
    if width > 0 {
        push_fixed_digits(out, n / 10, width - 1);
        out.push(digit_char(n % 10));
    }
}

/// The decimal rendering of `n` as a new string.
pub fn decimal_string(n: u64) -> (r: String)
    ensures
        r@ == decimal(n as nat),
{
    let mut out = String::new();
    push_decimal(&mut out, n);
    out
}

fn hex_char(d: u8, upper: bool) -> (c: char)
    requires
        d < 16,
    ensures
        upper ==> c == hex_digit_upper(d as nat),
        !upper ==> c == hex_digit(d as nat),
{
    if d < 10 {
        (48 + d) as char
    } else if upper {
        (55 + d) as char
    } else {
        (87 + d) as char
    }
}

/// Lower-case hexadecimal rendering of `bytes`.
pub fn hex(bytes: &[u8]) -> (r: String)
    ensures
        r@ == hex_lower(bytes@),
{
    let mut out = String::new();
    let mut i: usize = 0;
    while i < bytes.len()
        invariant
            i <= bytes@.len(),
            out@ == hex_lower(bytes@.take(i as int)),
        decreases bytes@.len() - i,
    {
        let b = bytes[i];
        out.push(hex_char(b / 16, false));
        out.push(hex_char(b % 16, false));
        assert(bytes@.take(i + 1).drop_last() == bytes@.take(i as int));
        i = i + 1;
    }
    assert(bytes@.take(bytes@.len() as int) == bytes@);
    out
}

/// Upper-case hexadecimal rendering of `bytes`.
pub fn hex_string_upper(bytes: &[u8]) -> (r: String)
    ensures
        r@ == hex_upper(bytes@),
{
    let mut out = String::new();
    let mut i: usize = 0;
    while i < bytes.len()
        invariant
            i <= bytes@.len(),
            out@ == hex_upper(bytes@.take(i as int)),
        decreases bytes@.len() - i,
    {
        let b = bytes[i];
        out.push(hex_char(b / 16, true));
        out.push(hex_char(b % 16, true));
        assert(bytes@.take(i + 1).drop_last() == bytes@.take(i as int));
        i = i + 1;
    }
    assert(bytes@.take(bytes@.len() as int) == bytes@);
    out
}

} // verus!
