//! The spaced-hex textual form of a frame: every byte as two uppercase hex
//! digits, pairs joined by single spaces. Encoders produce this text as a
//! human-auditable intermediate form, and `Payload::to_binary` reads it back.

use vstd::prelude::*;

verus! {

/// Whether a character is one of the ASCII whitespace characters that the
/// textual form treats as separators.
pub open spec fn is_space_char(c: char) -> bool {
    c == ' ' || c == '\t' || c == '\n' || c == '\r'
}

/// Numeric value of a hexadecimal digit character, either case.
pub open spec fn hex_digit_value(c: char) -> Option<int> {
    if c == '0' {
        Some(0)
    } else if c == '1' {
        Some(1)
    } else if c == '2' {
        Some(2)
    } else if c == '3' {
        Some(3)
    } else if c == '4' {
        Some(4)
    } else if c == '5' {
        Some(5)
    } else if c == '6' {
        Some(6)
    } else if c == '7' {
        Some(7)
    } else if c == '8' {
        Some(8)
    } else if c == '9' {
        Some(9)
    } else if c == 'a' || c == 'A' {
        Some(10)
    } else if c == 'b' || c == 'B' {
        Some(11)
    } else if c == 'c' || c == 'C' {
        Some(12)
    } else if c == 'd' || c == 'D' {
        Some(13)
    } else if c == 'e' || c == 'E' {
        Some(14)
    } else if c == 'f' || c == 'F' {
        Some(15)
    } else {
        None
    }
}

/// Uppercase hexadecimal digit character of a value below sixteen.
pub open spec fn hex_digit_upper(d: int) -> char {
    if d == 0 {
        '0'
    } else if d == 1 {
        '1'
    } else if d == 2 {
        '2'
    } else if d == 3 {
        '3'
    } else if d == 4 {
        '4'
    } else if d == 5 {
        '5'
    } else if d == 6 {
        '6'
    } else if d == 7 {
        '7'
    } else if d == 8 {
        '8'
    } else if d == 9 {
        '9'
    } else if d == 10 {
        'A'
    } else if d == 11 {
        'B'
    } else if d == 12 {
        'C'
    } else if d == 13 {
        'D'
    } else if d == 14 {
        'E'
    } else {
        'F'
    }
}

/// The two uppercase hex digits of a byte, high nibble first.
pub open spec fn hex_pair_upper(b: u8) -> Seq<char> {
    seq![hex_digit_upper(b as int / 16), hex_digit_upper(b as int % 16)]
}

/// Flat uppercase hex text: two digits per byte, no separators.
pub open spec fn hex_upper_flat(bytes: Seq<u8>) -> Seq<char>
    decreases bytes.len(),
{
    if bytes.len() == 0 {
        seq![]
    } else {
        hex_pair_upper(bytes[0]) + hex_upper_flat(bytes.drop_first())
    }
}

/// Spaced uppercase hex text: two-digit pairs joined by single spaces.
pub open spec fn hex_text(bytes: Seq<u8>) -> Seq<char>
    decreases bytes.len(),
{
    if bytes.len() == 0 {
        seq![]
    } else if bytes.len() == 1 {
        hex_pair_upper(bytes[0])
    } else {
        hex_pair_upper(bytes[0]) + seq![' '] + hex_text(bytes.drop_first())
    }
}

pub proof fn lemma_hex_upper_flat_len(bytes: Seq<u8>)
    ensures
        hex_upper_flat(bytes).len() == 2 * bytes.len(),
    decreases bytes.len(),
{
    if bytes.len() > 0 {
        lemma_hex_upper_flat_len(bytes.drop_first());
    }
}

/// Each byte's pair sits at twice its index in the flat hex text.
pub proof fn lemma_hex_upper_flat_pair(bytes: Seq<u8>, i: int)
    requires
        0 <= i < bytes.len(),
    ensures
        hex_upper_flat(bytes).len() == 2 * bytes.len(),
        hex_upper_flat(bytes).subrange(2 * i, 2 * i + 2) == hex_pair_upper(bytes[i]),
    decreases i,
{
    lemma_hex_upper_flat_len(bytes);
    lemma_hex_upper_flat_len(bytes.drop_first());
    if i == 0 {
        assert(hex_upper_flat(bytes).subrange(0, 2) =~= hex_pair_upper(bytes[0]));
    } else {
        lemma_hex_upper_flat_pair(bytes.drop_first(), i - 1);
        assert(hex_upper_flat(bytes).subrange(2 * i, 2 * i + 2) =~= hex_upper_flat(
            bytes.drop_first(),
        ).subrange(2 * (i - 1), 2 * (i - 1) + 2));
    }
}

/// Extending the byte sequence extends its spaced hex text on the right.
pub proof fn lemma_hex_text_push(bytes: Seq<u8>, b: u8)
    ensures
        hex_text(bytes.push(b)) == if bytes.len() == 0 {
            hex_pair_upper(b)
        } else {
            hex_text(bytes) + seq![' '] + hex_pair_upper(b)
        },
    decreases bytes.len(),
{
    if bytes.len() == 0 {
        assert(bytes.push(b)[0] == b);
        assert(hex_text(bytes.push(b)) =~= hex_pair_upper(b));
    } else {
        lemma_hex_text_push(bytes.drop_first(), b);
        assert(bytes.push(b).drop_first() =~= bytes.drop_first().push(b));
        if bytes.len() == 1 {
            assert(hex_text(bytes.push(b)) =~= hex_text(bytes) + seq![' '] + hex_pair_upper(b));
        } else {
            assert(hex_text(bytes.push(b)) =~= hex_text(bytes) + seq![' '] + hex_pair_upper(b));
        }
    }
}

/// Relies on hex::encode_upper of the hex crate: the result holds two digits
/// per input byte, in byte order, high nibble first, from the uppercase digit
/// table.
#[verifier::external_body]
fn hex_encode_upper(bytes: &[u8]) -> (r: String)
    ensures
        r@ == hex_upper_flat(bytes@),
{
    hex::encode_upper(bytes)
}

/// Renders bytes as spaced uppercase hex text.
pub fn render_hex_text(bytes: &[u8]) -> (r: String)
    ensures
        r@ == hex_text(bytes@),
{
    let flat: String = hex_encode_upper(bytes);
    let flat_str: &str = flat.as_str();
    let flat_len: usize = flat_str.unicode_len();
    proof {
        lemma_hex_upper_flat_len(bytes@);
    }
    let n: usize = bytes.len();
    let mut out: String = String::new();
    let mut i: usize = 0;
    while i < n
        invariant
            i <= n == bytes@.len(),
            flat_str@ == hex_upper_flat(bytes@),
            flat_str@.len() == 2 * n,
            flat_len == 2 * n,
            out@ == hex_text(bytes@.subrange(0, i as int)),
        decreases n - i,
    {
        if i > 0 {
            out.append(" ");
            proof {
                reveal_strlit(" ");
            }
        }
        let pair: &str = flat_str.substring_char(2 * i, 2 * i + 2);
        out.append(pair);
        proof {
            lemma_hex_upper_flat_pair(bytes@, i as int);
            lemma_hex_text_push(bytes@.subrange(0, i as int), bytes@[i as int]);
            assert(bytes@.subrange(0, i + 1) =~= bytes@.subrange(0, i as int).push(
                bytes@[i as int],
            ));
            assert(out@ =~= hex_text(bytes@.subrange(0, i + 1)));
        }
        i = i + 1;
    }
    proof {
        assert(bytes@.subrange(0, n as int) =~= bytes@);
    }
    out
}

/// Whether a character is a separator of the textual form.
pub fn char_is_space(c: char) -> (r: bool)
    ensures
        r == is_space_char(c),
{
    c == ' ' || c == '\t' || c == '\n' || c == '\r'
}

/// The value of a hexadecimal digit character, either case.
pub fn char_hex_value(c: char) -> (r: Option<u8>)
    ensures
        match r {
            Some(d) => hex_digit_value(c) == Some(d as int),
            None => hex_digit_value(c) is None,
        },
{
    if c == '0' {
        Some(0)
    } else if c == '1' {
        Some(1)
    } else if c == '2' {
        Some(2)
    } else if c == '3' {
        Some(3)
    } else if c == '4' {
        Some(4)
    } else if c == '5' {
        Some(5)
    } else if c == '6' {
        Some(6)
    } else if c == '7' {
        Some(7)
    } else if c == '8' {
        Some(8)
    } else if c == '9' {
        Some(9)
    } else if c == 'a' || c == 'A' {
        Some(10)
    } else if c == 'b' || c == 'B' {
        Some(11)
    } else if c == 'c' || c == 'C' {
        Some(12)
    } else if c == 'd' || c == 'D' {
        Some(13)
    } else if c == 'e' || c == 'E' {
        Some(14)
    } else if c == 'f' || c == 'F' {
        Some(15)
    } else {
        None
    }
}

/// One pass of hex-token scanning over the text: `cur` holds the value of
/// the digits of the token read so far, `None` between tokens. A token ends
/// at whitespace or at the end of the text and contributes one byte; the
/// whole scan fails on a token above 255 and on a character that is neither
/// whitespace nor a hex digit.
pub open spec fn scan_hex_text(s: Seq<char>, cur: Option<int>) -> Option<Seq<u8>>
    decreases s.len(),
{
    if s.len() == 0 {
        match cur {
            None => Some(seq![]),
            Some(v) => if v <= 255 {
                Some(seq![v as u8])
            } else {
                None
            },
        }
    } else {
        let c = s[0];
        if is_space_char(c) {
            match cur {
                None => scan_hex_text(s.drop_first(), None),
                Some(v) => if v <= 255 {
                    match scan_hex_text(s.drop_first(), None) {
                        Some(t) => Some(seq![v as u8] + t),
                        None => None,
                    }
                } else {
                    None
                },
            }
        } else {
            match hex_digit_value(c) {
                Some(d) => scan_hex_text(
                    s.drop_first(),
                    Some(
                        match cur {
                            None => d,
                            Some(v) => v * 16 + d,
                        },
                    ),
                ),
                None => None,
            }
        }
    }
}

/// The bytes that a piece of spaced hex text denotes, if it is well formed.
pub open spec fn to_binary_view(s: Seq<char>) -> Option<Seq<u8>> {
    scan_hex_text(s, None)
}

/// An uppercase hex digit reads back as its value and is no separator.
pub proof fn lemma_hex_digit_upper_value(d: int)
    requires
        0 <= d < 16,
    ensures
        hex_digit_value(hex_digit_upper(d)) == Some(d),
        !is_space_char(hex_digit_upper(d)),
{
}

/// Parsing the spaced hex text of any byte sequence yields exactly those
/// bytes: the textual form round-trips.
pub proof fn lemma_hex_text_round_trip(bytes: Seq<u8>)
    ensures
        to_binary_view(hex_text(bytes)) == Some(bytes),
    decreases bytes.len(),
{
    if bytes.len() == 0 {
        assert(scan_hex_text(hex_text(bytes), None) == Some(bytes));
    } else {
        let b = bytes[0];
        let hi: int = b as int / 16;
        let lo: int = b as int % 16;
        lemma_hex_digit_upper_value(hi);
        lemma_hex_digit_upper_value(lo);
        let s = hex_text(bytes);
        let tail = if bytes.len() == 1 {
            Seq::<char>::empty()
        } else {
            seq![' '] + hex_text(bytes.drop_first())
        };
        assert(s =~= seq![hex_digit_upper(hi), hex_digit_upper(lo)] + tail);
        let s1 = s.drop_first();
        let s2 = s1.drop_first();
        assert(s1 =~= seq![hex_digit_upper(lo)] + tail);
        assert(s2 =~= tail);
        assert(scan_hex_text(s, None) == scan_hex_text(s1, Some(hi)));
        assert(hi * 16 + lo == b);
        assert(scan_hex_text(s1, Some(hi)) == scan_hex_text(s2, Some(b as int)));
        if bytes.len() == 1 {
            assert(scan_hex_text(s2, Some(b as int)) == Some(seq![b]));
            assert(seq![b] =~= bytes);
        } else {
            lemma_hex_text_round_trip(bytes.drop_first());
            let s3 = s2.drop_first();
            assert(s3 =~= hex_text(bytes.drop_first()));
            assert(scan_hex_text(s2, Some(b as int)) == match scan_hex_text(s3, None) {
                Some(t) => Some(seq![b] + t),
                None => None::<Seq<u8>>,
            });
            assert(seq![b] + bytes.drop_first() =~= bytes);
        }
    }
}

} // verus!
