//! Hexadecimal fields of the traceparent token: what a string of digit
//! bytes denotes, bounded parsing, and fixed-width lowercase rendering.

use vstd::prelude::*;

verus! {

/// A byte that counts as a hexadecimal digit: '0'..'9', 'a'..'f' or 'A'..'F'.
pub open spec fn is_hex_digit(b: u8) -> bool {
    (0x30 <= b && b <= 0x39) || (0x61 <= b && b <= 0x66) || (0x41 <= b && b <= 0x46)
}

/// The numeric value of a hexadecimal digit byte (0 for any other byte).
pub open spec fn hex_digit_value(b: u8) -> nat {
    if 0x30 <= b && b <= 0x39 {
        (b - 0x30) as nat
    } else if 0x61 <= b && b <= 0x66 {
        (b - 0x61 + 10) as nat
    } else if 0x41 <= b && b <= 0x46 {
        (b - 0x41 + 10) as nat
    } else {
        0
    }
}

/// The number that a big-endian string of hexadecimal digit bytes denotes.
pub open spec fn hex_value(s: Seq<u8>) -> nat
    decreases s.len(),
{
    if s.len() == 0 {
        0
    } else {
        hex_value(s.drop_last()) * 16 + hex_digit_value(s.last())
    }
}

/// A well-formed hexadecimal field: non-empty and made of digit bytes only.
pub open spec fn is_hex_field(s: Seq<u8>) -> bool {
    s.len() > 0 && (forall|i: int| 0 <= i < s.len() ==> is_hex_digit(s[i]))
}

/// 16 raised to `n`: how many values a field of `n` digits can denote.
pub open spec fn pow16(n: nat) -> nat
    decreases n,
{
    if n == 0 {
        1
    } else {
        16 * pow16((n - 1) as nat)
    }
}

/// The lowercase digit byte denoting a value below 16.
pub open spec fn hex_digit_byte(d: nat) -> u8 {
    if d < 10 {
        (0x30 + d) as u8
    } else {
        (0x57 + d) as u8
    }
}

/// The fixed-width rendering of `v`: exactly `width` lowercase hexadecimal
/// digit bytes, most significant first, keeping the low `width` digits.
pub open spec fn hex_render(v: nat, width: nat) -> Seq<u8>
    decreases width,
{
    if width == 0 {
        Seq::empty()
    } else {
        hex_render(v / 16, (width - 1) as nat).push(hex_digit_byte(v % 16))
    }
}

/// A prefix of a digit string never denotes more than the whole string.
pub proof fn lemma_hex_value_prefix(s: Seq<u8>, i: int)
    requires
        0 <= i <= s.len(),
    ensures
        hex_value(s.take(i)) <= hex_value(s),
    decreases s.len(),
{
    if i == s.len() {
        assert(s.take(i) =~= s);
    } else {
        lemma_hex_value_prefix(s.drop_last(), i);
        assert(s.drop_last().take(i) =~= s.take(i));
    }
}

/// The numeric value of one hexadecimal digit byte, or `None` for any other byte.
fn hex_digit_of(b: u8) -> (r: Option<u8>)
    ensures
        r is Some <==> is_hex_digit(b),
        r matches Some(d) ==> d == hex_digit_value(b) && d < 16,
{
    if 0x30 <= b && b <= 0x39 {
        Some(b - 0x30)
    } else if 0x61 <= b && b <= 0x66 {
        Some(b - 0x61 + 10)
    } else if 0x41 <= b && b <= 0x46 {
        Some(b - 0x41 + 10)
    } else {
        None
    }
}

/// Parse a hexadecimal field, accepting exactly the well-formed fields whose
/// value is at most `max`.
pub fn parse_hex(s: &Vec<u8>, max: u128) -> (r: Option<u128>)
    ensures
        r is Some <==> is_hex_field(s@) && hex_value(s@) <= max,
        r matches Some(v) ==> v == hex_value(s@),
{
    if s.len() == 0 {
        return None;
    }
    let mut acc: u128 = 0;
    let mut i: usize = 0;
    while i < s.len()
        invariant
            0 <= i <= s@.len(),
            s@.len() > 0,
            acc <= max,
            acc == hex_value(s@.take(i as int)),
            forall|j: int| 0 <= j < i ==> is_hex_digit(s@[j]),
        decreases s@.len() - i,
    {
        let d = match hex_digit_of(s[i]) {
            Some(d) => d,
            None => {
                assert(!is_hex_digit(s@[i as int]));
                return None;
            },
        };
        proof {
            assert(s@.take(i + 1).drop_last() =~= s@.take(i as int));
            assert(s@.take(i + 1).last() == s@[i as int]);
            vstd::arithmetic::div_mod::lemma_fundamental_div_mod(max as int, 16);
        }
        if acc > max / 16 {
            proof {
                lemma_hex_value_prefix(s@, i + 1);
            }
            return None;
        }
        let acc16: u128 = acc * 16;
        if d as u128 > max - acc16 {
            proof {
                lemma_hex_value_prefix(s@, i + 1);
            }
            return None;
        }
        acc = acc16 + d as u128;
        i = i + 1;
    }
    proof {
        assert(s@.take(s@.len() as int) =~= s@);
    }
    Some(acc)
}

/// Render `v` as exactly `width` lowercase hexadecimal digit bytes.
pub fn render_hex(v: u128, width: usize) -> (r: Vec<u8>)
    ensures
        r@ == hex_render(v as nat, width as nat),
    decreases width,
{
    if width == 0 {
        Vec::new()
    } else {
        let mut r = render_hex(v / 16, width - 1);
        let d: u8 = (v % 16) as u8;
        let b: u8 = if d < 10 {
            0x30 + d
        } else {
            0x57 + d
        };
        r.push(b);
        r
    }
}

/// A rendering has its stated width and holds hexadecimal digit bytes only.
pub proof fn lemma_hex_render_digits(v: nat, width: nat)
    ensures
        hex_render(v, width).len() == width,
        forall|i: int| 0 <= i < width ==> is_hex_digit(#[trigger] hex_render(v, width)[i]),
    decreases width,
{
    if width > 0 {
        lemma_hex_render_digits(v / 16, (width - 1) as nat);
        assert forall|i: int| 0 <= i < width implies is_hex_digit(
            #[trigger] hex_render(v, width)[i],
        ) by {
            if i < width - 1 {
                assert(hex_render(v, width)[i] == hex_render(v / 16, (width - 1) as nat)[i]);
            } else {
                assert(hex_render(v, width)[i] == hex_digit_byte(v % 16));
            }
        }
    }
}

/// A value that fits the width is denoted exactly by its rendering.
pub proof fn lemma_hex_render_value(v: nat, width: nat)
    requires
        v < pow16(width),
    ensures
        hex_value(hex_render(v, width)) == v,
    decreases width,
{
    if width == 0 {
        assert(v == 0);
    } else {
        assert(v / 16 < pow16((width - 1) as nat)) by (nonlinear_arith)
            requires
                v < 16 * pow16((width - 1) as nat),
        ;
        lemma_hex_render_value(v / 16, (width - 1) as nat);
        let t = hex_render(v / 16, (width - 1) as nat);
        let b = hex_digit_byte(v % 16);
        assert(t.push(b).drop_last() =~= t);
        assert(hex_digit_value(b) == v % 16);
        vstd::arithmetic::div_mod::lemma_fundamental_div_mod(v as int, 16);
    }
}

/// The widths the token format uses cover the full range of their field types.
pub proof fn lemma_pow16_widths()
    ensures
        pow16(2) == 0x100,
        pow16(16) == 0x1_0000_0000_0000_0000,
        pow16(32) == 0x1_0000_0000_0000_0000_0000_0000_0000_0000,
{
    reveal_with_fuel(pow16, 33);
}

} // verus!
