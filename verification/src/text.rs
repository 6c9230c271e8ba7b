//! Verified text rendering for the monitoring projection: decimal numbers,
//! lowercase hexadecimal bytes, and the dotted and coloned address forms.

use vstd::prelude::*;
use vstd::string::StringExecFns;

verus! {

/// The character for one decimal digit value.
pub open spec fn dec_char(d: int) -> char {
    if d == 0 {
        '0'
    } else if d == 1 {
        '1'
    } else if d == 2 {
        '2'
    } else if d == 3 {
        '3'
    } else if d == 4 {
        '4'
    } else if d == 5 {
        '5'
    } else if d == 6 {
        '6'
    } else if d == 7 {
        '7'
    } else if d == 8 {
        '8'
    } else {
        '9'
    }
}

/// The decimal digit characters of `n`, most significant first, with no
/// leading zeros.
pub open spec fn dec_rep(n: int) -> Seq<char>
    recommends
        n >= 0,
    decreases n,
{
    if n < 10 {
        seq![dec_char(n)]
    } else {
        dec_rep(n / 10).push(dec_char(n % 10))
    }
}

/// The character for one hexadecimal digit value, lowercase.
pub open spec fn hex_char(d: int) -> char {
    if d < 10 {
        dec_char(d)
    } else if d == 10 {
        'a'
    } else if d == 11 {
        'b'
    } else if d == 12 {
        'c'
    } else if d == 13 {
        'd'
    } else if d == 14 {
        'e'
    } else {
        'f'
    }
}

/// The lowercase hexadecimal characters of one byte, without a leading zero.
pub open spec fn hex_rep(b: u8) -> Seq<char> {
    if b < 16 {
        seq![hex_char(b as int)]
    } else {
        seq![hex_char((b >> 4) as int), hex_char((b & 0xF) as int)]
    }
}

/// The bytes of a buffer in hexadecimal, joined with dots.
pub open spec fn hex_dotted(bs: Seq<u8>) -> Seq<char>
    decreases bs.len(),
{
    if bs.len() == 0 {
        Seq::empty()
    } else if bs.len() == 1 {
        hex_rep(bs[0])
    } else {
        hex_dotted(bs.drop_last()) + seq!['.'] + hex_rep(bs.last())
    }
}

/// The lowercase hexadecimal characters of a 16-bit group, without leading
/// zeros.
pub open spec fn hex_rep16(v: u16) -> Seq<char> {
    if v < 16 {
        seq![hex_char(v as int)]
    } else if v < 256 {
        seq![hex_char(((v >> 4) & 0xF) as int), hex_char((v & 0xF) as int)]
    } else if v < 4096 {
        seq![
            hex_char(((v >> 8) & 0xF) as int),
            hex_char(((v >> 4) & 0xF) as int),
            hex_char((v & 0xF) as int),
        ]
    } else {
        seq![
            hex_char(((v >> 12) & 0xF) as int),
            hex_char(((v >> 8) & 0xF) as int),
            hex_char(((v >> 4) & 0xF) as int),
            hex_char((v & 0xF) as int),
        ]
    }
}

/// An IPv4 address in dotted decimal form.
pub open spec fn v4_text(a: u32) -> Seq<char> {
    dec_rep(((a >> 24) & 0xFF) as int) + seq!['.'] + dec_rep(((a >> 16) & 0xFF) as int) + seq!['.']
        + dec_rep(((a >> 8) & 0xFF) as int) + seq!['.'] + dec_rep((a & 0xFF) as int)
}

/// An IPv6 address as eight colon-separated hexadecimal groups, written in
/// full (no zero-run compression).
pub open spec fn v6_text(a: u128) -> Seq<char> {
    hex_rep16((a >> 112) as u16) + seq![':'] + hex_rep16((a >> 96) as u16) + seq![':'] + hex_rep16(
        (a >> 80) as u16,
    ) + seq![':'] + hex_rep16((a >> 64) as u16) + seq![':'] + hex_rep16((a >> 48) as u16)
        + seq![':'] + hex_rep16((a >> 32) as u16) + seq![':'] + hex_rep16((a >> 16) as u16)
        + seq![':'] + hex_rep16(a as u16)
}

/// An address in its usual text form for either family.
pub open spec fn addr_text(a: crate::table::Addr) -> Seq<char> {
    match a {
        crate::table::Addr::V4(x) => v4_text(x),
        crate::table::Addr::V6(x) => v6_text(x),
    }
}

/// Append the character of one decimal digit value.
fn push_digit(s: &mut String, d: u8)
    requires
        d < 10,
    ensures
        final(s)@ == old(s)@.push(dec_char(d as int)),
{
    proof {
        reveal_strlit("0");
        reveal_strlit("1");
        reveal_strlit("2");
        reveal_strlit("3");
        reveal_strlit("4");
        reveal_strlit("5");
        reveal_strlit("6");
        reveal_strlit("7");
        reveal_strlit("8");
        reveal_strlit("9");
    }
    if d == 0 {
        s.append("0");
    } else if d == 1 {
        s.append("1");
    } else if d == 2 {
        s.append("2");
    } else if d == 3 {
        s.append("3");
    } else if d == 4 {
        s.append("4");
    } else if d == 5 {
        s.append("5");
    } else if d == 6 {
        s.append("6");
    } else if d == 7 {
        s.append("7");
    } else if d == 8 {
        s.append("8");
    } else {
        s.append("9");
    }
    proof {
        assert(s@ =~= old(s)@.push(dec_char(d as int)));
    }
}

/// Append the character of one hexadecimal digit value, lowercase.
fn push_hex_digit(s: &mut String, d: u8)
    requires
        d < 16,
    ensures
        final(s)@ == old(s)@.push(hex_char(d as int)),
{
    if d < 10 {
        push_digit(s, d);
    } else {
        proof {
            reveal_strlit("a");
            reveal_strlit("b");
            reveal_strlit("c");
            reveal_strlit("d");
            reveal_strlit("e");
            reveal_strlit("f");
        }
        if d == 10 {
            s.append("a");
        } else if d == 11 {
            s.append("b");
        } else if d == 12 {
            s.append("c");
        } else if d == 13 {
            s.append("d");
        } else if d == 14 {
            s.append("e");
        } else {
            s.append("f");
        }
        proof {
            assert(s@ =~= old(s)@.push(hex_char(d as int)));
        }
    }
}

/// The digit characters of a digit stack, read from the top down.
spec fn digit_chars(ds: Seq<u8>) -> Seq<char> {
    Seq::new(ds.len(), |i: int| dec_char(ds[ds.len() - 1 - i] as int))
}

/// Append the decimal form of `n`.
pub fn append_u64(s: &mut String, n: u64)
    ensures
        final(s)@ == old(s)@ + dec_rep(n as int),
{
    if n == 0 {
        push_digit(s, 0);
        proof {
            assert(s@ =~= old(s)@ + dec_rep(0));
        }
        return ;
    }
    let mut digits: Vec<u8> = Vec::new();
    let mut m: u64 = n;
    while m > 0
        invariant
            n > 0,
            forall|j: int| 0 <= j < digits@.len() ==> digits@[j] < 10,
            m > 0 ==> dec_rep(n as int) =~= dec_rep(m as int) + digit_chars(digits@),
            m == 0 ==> dec_rep(n as int) =~= digit_chars(digits@),
        decreases m,
    {
        let d: u8 = (m % 10) as u8;
        let ghost pre = digits@;
        digits.push(d);
        proof {
            assert(digit_chars(pre.push(d)) =~= seq![dec_char(d as int)] + digit_chars(pre));
            if m >= 10 {
                assert(dec_rep(m as int) == dec_rep(m as int / 10).push(dec_char(m as int % 10)));
                assert(dec_rep(m as int) =~= dec_rep(m as int / 10) + seq![
                    dec_char(m as int % 10),
                ]);
            } else {
                assert(dec_rep(m as int) =~= seq![dec_char(m as int)]);
            }
        }
        m = m / 10;
    }
    let len = digits.len();
    let mut i: usize = 0;
    while i < len
        invariant
            len == digits@.len(),
            i <= len,
            forall|j: int| 0 <= j < digits@.len() ==> digits@[j] < 10,
            dec_rep(n as int) =~= digit_chars(digits@),
            s@ =~= old(s)@ + digit_chars(digits@).subrange(0, i as int),
        decreases len - i,
    {
        push_digit(s, digits[len - 1 - i]);
        proof {
            assert(digit_chars(digits@)[i as int] == dec_char(digits@[len - 1 - i] as int));
            assert(digit_chars(digits@).subrange(0, i + 1) =~= digit_chars(digits@).subrange(
                0,
                i as int,
            ).push(digit_chars(digits@)[i as int]));
        }
        i += 1;
    }
    proof {
        assert(digit_chars(digits@).subrange(0, len as int) =~= digit_chars(digits@));
        assert(s@ =~= old(s)@ + dec_rep(n as int));
    }
}

/// The decimal form of `n` as a fresh string.
pub fn u64_string(n: u64) -> (r: String)
    ensures
        r@ == dec_rep(n as int),
{
    let mut s = String::new();
    append_u64(&mut s, n);
    proof {
        assert(s@ =~= dec_rep(n as int));
    }
    s
}

/// Append the hexadecimal form of one byte, without a leading zero.
pub fn append_hex_byte(s: &mut String, b: u8)
    ensures
        final(s)@ == old(s)@ + hex_rep(b),
{
    if b < 16 {
        push_hex_digit(s, b);
        proof {
            assert(s@ =~= old(s)@ + hex_rep(b));
        }
    } else {
        proof {
            assert((b >> 4) < 16 && (b & 0xF) < 16) by (bit_vector);
        }
        push_hex_digit(s, b >> 4);
        push_hex_digit(s, b & 0xF);
        proof {
            assert(s@ =~= old(s)@ + hex_rep(b));
        }
    }
}

/// Append the bytes of a buffer in hexadecimal, joined with dots.
pub fn append_hex_dotted(s: &mut String, bs: &[u8])
    ensures
        final(s)@ == old(s)@ + hex_dotted(bs@),
{
    proof {
        reveal_strlit(".");
    }
    let n = bs.len();
    let mut i: usize = 0;
    while i < n
        invariant
            i <= n,
            n == bs@.len(),
            s@ =~= old(s)@ + hex_dotted(bs@.subrange(0, i as int)),
        decreases n - i,
    {
        if i > 0 {
            s.append(".");
        }
        append_hex_byte(s, bs[i]);
        proof {
            reveal_strlit(".");
            let pre = bs@.subrange(0, i as int);
            let cur = bs@.subrange(0, i + 1);
            assert(cur.drop_last() =~= pre);
            assert(cur.last() == bs@[i as int]);
            if i == 0 {
                assert(hex_dotted(cur) == hex_rep(bs@[0]));
                assert(s@ =~= old(s)@ + hex_dotted(cur));
            } else {
                assert(hex_dotted(cur) == hex_dotted(pre) + seq!['.'] + hex_rep(bs@[i as int]));
                assert(s@ =~= old(s)@ + hex_dotted(cur));
            }
        }
        i += 1;
    }
    proof {
        assert(bs@.subrange(0, n as int) =~= bs@);
    }
}

/// Append the hexadecimal form of one 16-bit group, without leading zeros.
pub fn append_hex_u16(s: &mut String, v: u16)
    ensures
        final(s)@ == old(s)@ + hex_rep16(v),
{
    proof {
        assert(((v >> 12) & 0xF) < 16 && ((v >> 8) & 0xF) < 16 && ((v >> 4) & 0xF) < 16 && (v
            & 0xF) < 16) by (bit_vector);
    }
    if v >= 4096 {
        push_hex_digit(s, ((v >> 12) & 0xF) as u8);
    }
    if v >= 256 {
        push_hex_digit(s, ((v >> 8) & 0xF) as u8);
    }
    if v >= 16 {
        push_hex_digit(s, ((v >> 4) & 0xF) as u8);
    }
    push_hex_digit(s, (v & 0xF) as u8);
    proof {
        assert((v & 0xF) < 16 && (v & 0xF) == v || v >= 16) by (bit_vector);
        assert(s@ =~= old(s)@ + hex_rep16(v));
    }
}

/// Append the dotted decimal form of an IPv4 address.
pub fn append_v4(s: &mut String, a: u32)
    ensures
        final(s)@ == old(s)@ + v4_text(a),
{
    proof {
        reveal_strlit(".");
        assert(((a >> 24) & 0xFF) < 256 && ((a >> 16) & 0xFF) < 256 && ((a >> 8) & 0xFF) < 256 && (
        a & 0xFF) < 256) by (bit_vector);
    }
    append_u64(s, (((a >> 24) & 0xFF)) as u64);
    s.append(".");
    append_u64(s, (((a >> 16) & 0xFF)) as u64);
    s.append(".");
    append_u64(s, (((a >> 8) & 0xFF)) as u64);
    s.append(".");
    append_u64(s, ((a & 0xFF)) as u64);
    proof {
        assert(s@ =~= old(s)@ + v4_text(a));
    }
}

/// Append the full coloned hexadecimal form of an IPv6 address.
pub fn append_v6(s: &mut String, a: u128)
    ensures
        final(s)@ == old(s)@ + v6_text(a),
{
    proof {
        reveal_strlit(":");
    }
    append_hex_u16(s, (a >> 112) as u16);
    s.append(":");
    append_hex_u16(s, (a >> 96) as u16);
    s.append(":");
    append_hex_u16(s, (a >> 80) as u16);
    s.append(":");
    append_hex_u16(s, (a >> 64) as u16);
    s.append(":");
    append_hex_u16(s, (a >> 48) as u16);
    s.append(":");
    append_hex_u16(s, (a >> 32) as u16);
    s.append(":");
    append_hex_u16(s, (a >> 16) as u16);
    s.append(":");
    append_hex_u16(s, a as u16);
    proof {
        assert(s@ =~= old(s)@ + v6_text(a));
    }
}

/// The usual text form of an address, for either family.
pub fn addr_string(a: crate::table::Addr) -> (r: String)
    ensures
        r@ == addr_text(a),
{
    let mut s = String::new();
    match a {
        crate::table::Addr::V4(x) => append_v4(&mut s, x),
        crate::table::Addr::V6(x) => append_v6(&mut s, x),
    }
    proof {
        assert(s@ =~= addr_text(a));
    }
    s
}

} // verus!
