//! Big-endian byte marshaling and decimal text for 32- and 64-bit integers.

use vstd::prelude::*;
use vstd::arithmetic::power::pow;

verus! {

/// The `len` big-endian bytes of a non-negative integer, most significant first.
pub open spec fn be_bytes(n: int, len: nat) -> Seq<u8>
    decreases len,
{
    if len == 0 {
        seq![]
    } else {
        be_bytes(n / 256, (len - 1) as nat).push((n % 256) as u8)
    }
}

/// The integer that a byte sequence denotes when read big-endian.
pub open spec fn be_value(b: Seq<u8>) -> int
    decreases b.len(),
{
    if b.len() == 0 {
        0
    } else {
        be_value(b.drop_last()) * 256 + b.last()
    }
}

pub proof fn lemma_pow256_values()
    ensures
        pow(256, 0) == 1,
        pow(256, 1) == 0x100,
        pow(256, 2) == 0x1_0000,
        pow(256, 3) == 0x100_0000,
        pow(256, 4) == 0x1_0000_0000,
        pow(256, 5) == 0x100_0000_0000,
        pow(256, 6) == 0x1_0000_0000_0000,
        pow(256, 7) == 0x100_0000_0000_0000,
        pow(256, 8) == 0x1_0000_0000_0000_0000,
{
    reveal(pow);
    assert(pow(256, 0) == 1);
    assert(pow(256, 1) == 0x100);
    assert(pow(256, 2) == 0x1_0000);
    assert(pow(256, 3) == 0x100_0000);
    assert(pow(256, 4) == 0x1_0000_0000);
    assert(pow(256, 5) == 0x100_0000_0000);
    assert(pow(256, 6) == 0x1_0000_0000_0000);
    assert(pow(256, 7) == 0x100_0000_0000_0000);
    assert(pow(256, 8) == 0x1_0000_0000_0000_0000);
}

pub proof fn lemma_be_bytes_len(n: int, len: nat)
    ensures
        be_bytes(n, len).len() == len,
    decreases len,
{
    if len > 0 {
        lemma_be_bytes_len(n / 256, (len - 1) as nat);
    }
}

pub proof fn lemma_be_value_bound(b: Seq<u8>)
    ensures
        0 <= be_value(b) < pow(256, b.len()),
    decreases b.len(),
{
    reveal(pow);
    if b.len() > 0 {
        lemma_be_value_bound(b.drop_last());
        assert(pow(256, b.len()) == 256 * pow(256, (b.len() - 1) as nat));
    }
}

/// Reading back the big-endian bytes of an integer yields that integer.
pub proof fn lemma_be_round_trip(n: int, len: nat)
    requires
        0 <= n < pow(256, len),
    ensures
        be_value(be_bytes(n, len)) == n,
    decreases len,
{
    reveal(pow);
    if len == 0 {
    } else {
        let rest = be_bytes(n / 256, (len - 1) as nat);
        lemma_be_bytes_len(n / 256, (len - 1) as nat);
        assert(be_bytes(n, len).drop_last() =~= rest);
        assert(pow(256, len) == 256 * pow(256, (len - 1) as nat));
        lemma_be_round_trip(n / 256, (len - 1) as nat);
    }
}

/// The four big-endian bytes of a 32-bit integer.
pub fn u32_to_be_bytes(n: u32) -> (r: Vec<u8>)
    ensures
        r@ == be_bytes(n as int, 4),
{
    let b3: u8 = (n % 256) as u8;
    let n1: u32 = n / 256;
    let b2: u8 = (n1 % 256) as u8;
    let n2: u32 = n1 / 256;
    let b1: u8 = (n2 % 256) as u8;
    let n3: u32 = n2 / 256;
    let b0: u8 = (n3 % 256) as u8;
    proof {
        assert(n3 / 256 == 0);
        assert(be_bytes(0int, 0) =~= Seq::<u8>::empty());
        assert(be_bytes(n3 as int, 1) =~= seq![b0]);
        assert(be_bytes(n2 as int, 2) =~= seq![b0, b1]);
        assert(be_bytes(n1 as int, 3) =~= seq![b0, b1, b2]);
        assert(be_bytes(n as int, 4) =~= seq![b0, b1, b2, b3]);
    }
    let mut r: Vec<u8> = Vec::new();
    r.push(b0);
    r.push(b1);
    r.push(b2);
    r.push(b3);
    assert(r@ =~= seq![b0, b1, b2, b3]);
    r
}

/// The eight big-endian bytes of a 64-bit integer.
pub fn u64_to_be_bytes(n: u64) -> (r: Vec<u8>)
    ensures
        r@ == be_bytes(n as int, 8),
{
    let mut digits: Vec<u8> = Vec::new();
    let mut m: u64 = n;
    let mut i: usize = 0;
    while i < 8
        invariant
            i <= 8,
            be_bytes(n as int, 8) == be_bytes(m as int, (8 - i) as nat) + digits@,
            digits@.len() == i,
        decreases 8 - i,
    {
        let d: u8 = (m % 256) as u8;
        m = m / 256;
        digits.insert(0, d);
        proof {
            assert(be_bytes((m * 256 + d) as int, (8 - i) as nat) =~= be_bytes(
                m as int,
                (8 - i - 1) as nat,
            ).push(d));
            assert(be_bytes(m as int, (8 - i - 1) as nat).push(d) + digits@.drop_first() =~= be_bytes(
                m as int,
                (8 - i - 1) as nat,
            ) + digits@);
        }
        i = i + 1;
    }
    proof {
        assert(be_bytes(m as int, 0) + digits@ =~= digits@);
    }
    digits
}

/// The 32-bit integer held big-endian in four bytes of `data` starting at `start`.
pub fn u32_from_be_bytes(data: &[u8], start: usize) -> (r: u32)
    requires
        start + 4 <= data@.len(),
    ensures
        r as int == be_value(data@.subrange(start as int, start + 4)),
{
    proof {
        lemma_pow256_values();
    }
    let len: usize = data.len();
    let mut acc: u32 = 0;
    let mut i: usize = 0;
    while i < 4
        invariant
            i <= 4,
            start + 4 <= len == data@.len(),
            acc as int == be_value(data@.subrange(start as int, start + i)),
            acc < pow(256, i as nat),
        decreases 4 - i,
    {
        proof {
            reveal(pow);
            assert(pow(256, (i + 1) as nat) == 256 * pow(256, i as nat));
            lemma_pow256_values();
            vstd::arithmetic::power::lemma_pow_increases(256, (i + 1) as nat, 4);
            assert(data@.subrange(start as int, start + i + 1).drop_last() =~= data@.subrange(
                start as int,
                start + i,
            ));
        }
        acc = acc * 256 + (data[start + i] as u32);
        i = i + 1;
    }
    assert(data@.subrange(start as int, start + 4) =~= data@.subrange(start as int, start + i));
    acc
}

/// The 64-bit integer held big-endian in eight bytes of `data` starting at `start`.
pub fn u64_from_be_bytes(data: &[u8], start: usize) -> (r: u64)
    requires
        start + 8 <= data@.len(),
    ensures
        r as int == be_value(data@.subrange(start as int, start + 8)),
{
    proof {
        lemma_pow256_values();
    }
    let len: usize = data.len();
    let mut acc: u64 = 0;
    let mut i: usize = 0;
    while i < 8
        invariant
            i <= 8,
            start + 8 <= len == data@.len(),
            acc as int == be_value(data@.subrange(start as int, start + i)),
            acc < pow(256, i as nat),
        decreases 8 - i,
    {
        proof {
            reveal(pow);
            assert(pow(256, (i + 1) as nat) == 256 * pow(256, i as nat));
            lemma_pow256_values();
            vstd::arithmetic::power::lemma_pow_increases(256, (i + 1) as nat, 8);
            assert(data@.subrange(start as int, start + i + 1).drop_last() =~= data@.subrange(
                start as int,
                start + i,
            ));
        }
        acc = acc * 256 + (data[start + i] as u64);
        i = i + 1;
    }
    assert(data@.subrange(start as int, start + 8) =~= data@.subrange(start as int, start + i));
    acc
}

/// Decimal digit character for a value between zero and nine.
pub open spec fn dec_digit_char(d: int) -> char {
    if d == 0 {
        '0'
    } else if d == 1 {
        '1'
    } else if d == 2 {
        '2'
    } else if d == 3 {
        '3'
    } else if d == 4 {
        '4'
    } else if d == 5 {
        '5'
    } else if d == 6 {
        '6'
    } else if d == 7 {
        '7'
    } else if d == 8 {
        '8'
    } else {
        '9'
    }
}

/// Decimal text of a non-negative integer: no sign, no leading zero except for zero itself.
pub open spec fn dec_chars(n: nat) -> Seq<char>
    decreases n,
{
    if n < 10 {
        seq![dec_digit_char(n as int)]
    } else {
        dec_chars(n / 10).push(dec_digit_char((n % 10) as int))
    }
}

fn dec_digit_str(d: u32) -> (r: &'static str)
    requires
        d < 10,
    ensures
        r@ == seq![dec_digit_char(d as int)],
{
    proof {
        reveal_strlit("0");
        reveal_strlit("1");
        reveal_strlit("2");
        reveal_strlit("3");
        reveal_strlit("4");
        reveal_strlit("5");
        reveal_strlit("6");
        reveal_strlit("7");
        reveal_strlit("8");
        reveal_strlit("9");
    }
    let r: &'static str = if d == 0 {
        "0"
    } else if d == 1 {
        "1"
    } else if d == 2 {
        "2"
    } else if d == 3 {
        "3"
    } else if d == 4 {
        "4"
    } else if d == 5 {
        "5"
    } else if d == 6 {
        "6"
    } else if d == 7 {
        "7"
    } else if d == 8 {
        "8"
    } else {
        "9"
    };
    assert(r@ =~= seq![dec_digit_char(d as int)]);
    r
}

/// Renders a 32-bit integer as decimal text.
pub fn u32_to_dec_string(n: u32) -> (r: String)
    ensures
        r@ == dec_chars(n as nat),
    decreases n,
{
    if n < 10 {
        String::from_str(dec_digit_str(n))
    } else {
        let mut s = u32_to_dec_string(n / 10);
        s.append(dec_digit_str(n % 10));
        assert(s@ =~= dec_chars(n as nat));
        s
    }
}

/// Whether a byte is the ASCII code of a decimal digit.
pub open spec fn is_dec_byte(b: u8) -> bool {
    48 <= b <= 57
}

pub open spec fn all_dec_bytes(s: Seq<u8>) -> bool {
    forall|i: int| 0 <= i < s.len() ==> is_dec_byte(#[trigger] s[i])
}

/// The integer that a sequence of ASCII digit bytes denotes in decimal.
pub open spec fn dec_value(s: Seq<u8>) -> int
    decreases s.len(),
{
    if s.len() == 0 {
        0
    } else {
        dec_value(s.drop_last()) * 10 + (s.last() - 48)
    }
}

/// Parses decimal ASCII text into a 32-bit integer; `None` on empty input,
/// on a byte that is no digit, and on a value above the 32-bit range.
pub fn parse_dec_u32(data: &[u8]) -> (r: Option<u32>)
    ensures
        match r {
            Some(v) => data@.len() > 0 && all_dec_bytes(data@) && v as int == dec_value(data@),
            None => data@.len() == 0 || !all_dec_bytes(data@) || dec_value(data@) > u32::MAX,
        },
{
    let len: usize = data.len();
    if len == 0 {
        return None;
    }
    let mut acc: u64 = 0;
    let mut i: usize = 0;
    while i < len
        invariant
            i <= len == data@.len(),
            all_dec_bytes(data@.subrange(0, i as int)),
            0 <= dec_value(data@.subrange(0, i as int)),
            acc == if dec_value(data@.subrange(0, i as int)) <= u32::MAX {
                dec_value(data@.subrange(0, i as int))
            } else {
                0x1_0000_0000int
            },
        decreases len - i,
    {
        let b: u8 = data[i];
        if b < 48 || b > 57 {
            assert(!is_dec_byte(data@[i as int]));
            return None;
        }
        proof {
            assert(data@.subrange(0, i + 1).drop_last() =~= data@.subrange(0, i as int));
            assert(data@.subrange(0, i + 1).last() == data@[i as int]);
        }
        let next: u64 = acc * 10 + ((b - 48) as u64);
        if next > 0xFFFF_FFFF {
            acc = 0x1_0000_0000;
        } else {
            acc = next;
        }
        i = i + 1;
    }
    proof {
        assert(data@.subrange(0, len as int) =~= data@);
    }
    if acc > 0xFFFF_FFFF {
        None
    } else {
        Some(acc as u32)
    }
}

/// Every digit character of the decimal text is an ASCII digit, and reading
/// the text's bytes back as a decimal number yields the rendered value.
pub proof fn lemma_dec_chars_digits(n: nat)
    ensures
        dec_chars(n).len() > 0,
        forall|i: int|
            0 <= i < dec_chars(n).len() ==> '0' <= #[trigger] dec_chars(n)[i] <= '9',
        all_dec_bytes(dec_chars(n).map_values(|c: char| c as u8)),
        dec_value(dec_chars(n).map_values(|c: char| c as u8)) == n,
    decreases n,
{
    let s = dec_chars(n);
    let b = s.map_values(|c: char| c as u8);
    if n < 10 {
        assert(s =~= seq![dec_digit_char(n as int)]);
        assert(b =~= seq![dec_digit_char(n as int) as u8]);
        assert(dec_digit_char(n as int) as u8 == 48 + n);
        assert(b.drop_last() =~= Seq::<u8>::empty());
        assert(dec_value(Seq::<u8>::empty()) == 0);
        assert(b.last() == 48 + n);
        assert(dec_value(b) == n);
    } else {
        lemma_dec_chars_digits(n / 10);
        let s0 = dec_chars(n / 10);
        let b0 = s0.map_values(|c: char| c as u8);
        assert(s =~= s0.push(dec_digit_char((n % 10) as int)));
        assert(b =~= b0.push(dec_digit_char((n % 10) as int) as u8));
        assert(dec_digit_char((n % 10) as int) as u8 == 48 + n % 10);
        assert(b.drop_last() =~= b0);
        assert(b.last() == 48 + n % 10);
        assert(dec_value(b) == dec_value(b0) * 10 + (n % 10));
        assert(dec_value(b) == n);
    }
}

/// The identity round trip between collector and device: the decimal text the
/// collector renders into a response, once carried as bytes, parses back to
/// the same 32-bit identity.
pub proof fn lemma_dec_text_round_trip(n: u32)
    ensures
        vstd::utf8::encode_utf8(dec_chars(n as nat)).len() > 0,
        all_dec_bytes(vstd::utf8::encode_utf8(dec_chars(n as nat))),
        dec_value(vstd::utf8::encode_utf8(dec_chars(n as nat))) == n,
{
    let s = dec_chars(n as nat);
    lemma_dec_chars_digits(n as nat);
    assert(vstd::utf8::is_ascii_chars(s));
    vstd::utf8::is_ascii_chars_encode_utf8(s);
    assert(vstd::utf8::encode_utf8(s) =~= s.map_values(|c: char| c as u8));
}

} // verus!
