//! The textual payload helpers: parsing spaced hex text into raw bytes, and
//! shaping a run of hex digits into the spaced, trimmed, uppercase wire text.

use vstd::prelude::*;
use crate::hex_text::{
    char_hex_value, char_is_space, hex_digit_value, is_space_char, scan_hex_text, to_binary_view,
};

verus! {

/// A space after every second character, counting every character of the
/// input, with a trailing space after a final complete pair.
pub open spec fn spaced(s: Seq<char>) -> Seq<char>
    decreases s.len(),
{
    if s.len() == 0 {
        seq![]
    } else if s.len() == 1 {
        seq![s[0]]
    } else {
        seq![s[0], s[1], ' '] + spaced(s.skip(2))
    }
}

/// The sequence with its leading separator characters removed.
pub open spec fn trim_start(s: Seq<char>) -> Seq<char>
    decreases s.len(),
{
    if s.len() > 0 && is_space_char(s[0]) {
        trim_start(s.drop_first())
    } else {
        s
    }
}

/// The sequence with its trailing separator characters removed.
pub open spec fn trim_end(s: Seq<char>) -> Seq<char>
    decreases s.len(),
{
    if s.len() > 0 && is_space_char(s.last()) {
        trim_end(s.drop_last())
    } else {
        s
    }
}

/// The sequence without leading and trailing separator characters.
pub open spec fn trimmed(s: Seq<char>) -> Seq<char> {
    trim_end(trim_start(s))
}

/// An ASCII lowercase letter mapped to its uppercase form; all other
/// characters unchanged.
pub open spec fn to_upper_char(c: char) -> char {
    if c == 'a' {
        'A'
    } else if c == 'b' {
        'B'
    } else if c == 'c' {
        'C'
    } else if c == 'd' {
        'D'
    } else if c == 'e' {
        'E'
    } else if c == 'f' {
        'F'
    } else if c == 'g' {
        'G'
    } else if c == 'h' {
        'H'
    } else if c == 'i' {
        'I'
    } else if c == 'j' {
        'J'
    } else if c == 'k' {
        'K'
    } else if c == 'l' {
        'L'
    } else if c == 'm' {
        'M'
    } else if c == 'n' {
        'N'
    } else if c == 'o' {
        'O'
    } else if c == 'p' {
        'P'
    } else if c == 'q' {
        'Q'
    } else if c == 'r' {
        'R'
    } else if c == 's' {
        'S'
    } else if c == 't' {
        'T'
    } else if c == 'u' {
        'U'
    } else if c == 'v' {
        'V'
    } else if c == 'w' {
        'W'
    } else if c == 'x' {
        'X'
    } else if c == 'y' {
        'Y'
    } else if c == 'z' {
        'Z'
    } else {
        c
    }
}

pub open spec fn upper_chars(s: Seq<char>) -> Seq<char> {
    s.map_values(|c: char| to_upper_char(c))
}

/// Appending one character extends the spaced form by that character, and by
/// a trailing space when it completes a pair.
pub proof fn lemma_spaced_push(s: Seq<char>, c: char)
    ensures
        spaced(s.push(c)) == if s.len() % 2 == 0 {
            spaced(s) + seq![c]
        } else {
            spaced(s) + seq![c, ' ']
        },
    decreases s.len(),
{
    if s.len() == 0 {
        assert(s.push(c)[0] == c);
        assert(spaced(s.push(c)) =~= spaced(s) + seq![c]);
    } else if s.len() == 1 {
        assert(s.push(c).skip(2) =~= Seq::<char>::empty());
        assert(spaced(Seq::<char>::empty()) =~= Seq::<char>::empty());
        assert(spaced(s.push(c)) =~= seq![s[0], c, ' ']);
        assert(spaced(s) + seq![c, ' '] =~= seq![s[0], c, ' ']);
    } else {
        lemma_spaced_push(s.skip(2), c);
        assert(s.push(c).skip(2) =~= s.skip(2).push(c));
        if s.len() % 2 == 0 {
            assert(spaced(s.push(c)) =~= spaced(s) + seq![c]);
        } else {
            assert(spaced(s.push(c)) =~= spaced(s) + seq![c, ' ']);
        }
    }
}

/// When the first `f` characters are separators and the one at `f` is not,
/// trimming the start drops exactly those `f` characters.
pub proof fn lemma_trim_start_at(s: Seq<char>, f: int)
    requires
        0 <= f <= s.len(),
        forall|k: int| 0 <= k < f ==> is_space_char(#[trigger] s[k]),
        f == s.len() || !is_space_char(s[f]),
    ensures
        trim_start(s) == s.skip(f),
    decreases f,
{
    if f == 0 {
        assert(s.skip(0) =~= s);
    } else {
        lemma_trim_start_at(s.drop_first(), f - 1);
        assert(s.drop_first().skip(f - 1) =~= s.skip(f));
    }
}

/// When the characters from `l` on are separators and the one before `l` is
/// not, trimming the end keeps exactly the first `l` characters.
pub proof fn lemma_trim_end_at(s: Seq<char>, l: int)
    requires
        0 <= l <= s.len(),
        forall|k: int| l <= k < s.len() ==> is_space_char(#[trigger] s[k]),
        l == 0 || !is_space_char(s[l - 1]),
    ensures
        trim_end(s) == s.take(l),
    decreases s.len() - l,
{
    if l == s.len() {
        if s.len() > 0 && is_space_char(s.last()) {
            assert(!is_space_char(s[l - 1]));
            assert(false);
        }
        assert(s.take(l) =~= s);
    } else {
        lemma_trim_end_at(s.drop_last(), l);
        assert(s.drop_last().take(l) =~= s.take(l));
    }
}

/// The textual payload helpers of the protocol.
#[derive(Debug)]
pub struct Payload;

impl Payload {
    /// Parses spaced hex text into the raw bytes it denotes: tokens are runs
    /// of hex digits between whitespace, and each token is one byte.
    pub fn to_binary(value: &str) -> (r: Result<Vec<u8>, String>)
        ensures
            r matches Ok(v) ==> to_binary_view(value@) == Some(v@),
            r matches Err(e) ==> to_binary_view(value@) is None && e@ == "unable to parse hex byte"@,
    {
        let n: usize = value.unicode_len();
        let mut bytes: Vec<u8> = Vec::new();
        let mut has_cur: bool = false;
        let mut cur: u32 = 0;
        let ghost mut cur_view: Option<int> = None;
        proof {
            assert(value@.skip(0) =~= value@);
            let t0 = scan_hex_text(value@, None);
            if t0 is Some {
                assert(Seq::<u8>::empty() + t0->0 =~= t0->0);
            }
        }
        let mut i: usize = 0;
        while i < n
            invariant
                i <= n == value@.len(),
                cur_view is None ==> !has_cur,
                cur_view matches Some(v) ==> has_cur && 0 <= v && ((v <= 255 && cur == v) || (v
                    > 255 && cur == 0x1000)),
                scan_hex_text(value@, None) == match scan_hex_text(value@.skip(i as int), cur_view) {
                    Some(t) => Some(bytes@ + t),
                    None => None::<Seq<u8>>,
                },
            decreases n - i,
        {
            let c: char = value.get_char(i);
            proof {
                assert(value@.skip(i as int)[0] == value@[i as int]);
                assert(value@.skip(i as int).drop_first() =~= value@.skip(i as int + 1));
            }
            if char_is_space(c) {
                if has_cur {
                    if cur > 255 {
                        return Err(String::from_str("unable to parse hex byte"));
                    }
                    let b: u8 = cur as u8;
                    bytes.push(b);
                    has_cur = false;
                    cur = 0;
                    proof {
                        let t_rest = scan_hex_text(value@.skip(i as int + 1), None);
                        if t_rest is Some {
                            let t = t_rest->0;
                            assert((bytes@.drop_last() + (seq![b] + t)) =~= (bytes@ + t));
                        }
                        cur_view = None;
                    }
                } else {
                    proof {
                        cur_view = None;
                    }
                }
            } else {
                match char_hex_value(c) {
                    Some(d) => {
                        if has_cur {
                            let raw: u32 = cur * 16 + (d as u32);
                            cur = if raw > 255 {
                                0x1000
                            } else {
                                raw
                            };
                            proof {
                                cur_view = Some(cur_view->0 * 16 + d);
                            }
                        } else {
                            cur = d as u32;
                            has_cur = true;
                            proof {
                                cur_view = Some(d as int);
                            }
                        }
                    },
                    None => {
                        return Err(String::from_str("unable to parse hex byte"));
                    },
                }
            }
            i = i + 1;
        }
        proof {
            assert(value@.skip(n as int) =~= Seq::<char>::empty());
        }
        if has_cur {
            if cur > 255 {
                return Err(String::from_str("unable to parse hex byte"));
            }
            let b: u8 = cur as u8;
            bytes.push(b);
            proof {
                assert(bytes@.drop_last() + seq![b] =~= bytes@);
            }
        } else {
            proof {
                assert(bytes@ + Seq::<u8>::empty() =~= bytes@);
            }
        }
        Ok(bytes)
    }

    /// Inserts a space after every second character, trims separator
    /// characters from both ends, and maps ASCII letters to uppercase.
    pub fn apply_spacing(value: &str) -> (r: String)
        ensures
            r@ == upper_chars(trimmed(spaced(value@))),
    {
        let n: usize = value.unicode_len();
        let mut with_spacing: String = String::new();
        let mut counter: u32 = 0;
        let mut i: usize = 0;
        while i < n
            invariant
                i <= n == value@.len(),
                with_spacing@ == spaced(value@.subrange(0, i as int)),
                counter == i % 2,
            decreases n - i,
        {
            let ch: &str = value.substring_char(i, i + 1);
            with_spacing.append(ch);
            counter = counter + 1;
            if counter == 2 {
                with_spacing.append(" ");
                counter = 0;
            }
            proof {
                reveal_strlit(" ");
                lemma_spaced_push(value@.subrange(0, i as int), value@[i as int]);
                assert(value@.subrange(0, i as int + 1) =~= value@.subrange(0, i as int).push(
                    value@[i as int],
                ));
                assert(with_spacing@ =~= spaced(value@.subrange(0, i as int + 1)));
            }
            i = i + 1;
        }
        proof {
            assert(value@.subrange(0, n as int) =~= value@);
        }
        let sp: &str = with_spacing.as_str();
        let m: usize = sp.unicode_len();
        let mut f: usize = 0;
        while f < m && char_is_space(sp.get_char(f))
            invariant
                0 <= f <= m == sp@.len(),
                forall|k: int| 0 <= k < f ==> is_space_char(#[trigger] sp@[k]),
            decreases m - f,
        {
            f = f + 1;
        }
        proof {
            lemma_trim_start_at(sp@, f as int);
        }
        if f == m {
            proof {
                assert(sp@.skip(m as int) =~= Seq::<char>::empty());
                assert(upper_chars(Seq::<char>::empty()) =~= Seq::<char>::empty());
            }
            return String::new();
        }
        let mut l: usize = m;
        while l > f && char_is_space(sp.get_char(l - 1))
            invariant
                f <= l <= m == sp@.len(),
                forall|k: int| l <= k < m ==> is_space_char(#[trigger] sp@[k]),
            decreases l,
        {
            l = l - 1;
        }
        proof {
            if l == f {
                assert(is_space_char(sp@[f as int]));
                assert(false);
            }
            let rest = sp@.skip(f as int);
            lemma_trim_end_at(rest, l - f);
            assert(rest.take(l - f) =~= sp@.subrange(f as int, l as int));
        }
        let t: &str = sp.substring_char(f, l);
        let tn: usize = t.unicode_len();
        let mut out: String = String::new();
        let mut j: usize = 0;
        while j < tn
            invariant
                j <= tn == t@.len(),
                out@ == upper_chars(t@.subrange(0, j as int)),
            decreases tn - j,
        {
            let c: char = t.get_char(j);
            match upper_char_str(c) {
                Some(u) => {
                    out.append(u);
                },
                None => {
                    let ch: &str = t.substring_char(j, j + 1);
                    out.append(ch);
                },
            }
            proof {
                assert(upper_chars(t@.subrange(0, j as int + 1)) =~= upper_chars(
                    t@.subrange(0, j as int),
                ).push(to_upper_char(t@[j as int])));
                assert(out@ =~= upper_chars(t@.subrange(0, j as int + 1)));
            }
            j = j + 1;
        }
        proof {
            assert(t@.subrange(0, tn as int) =~= t@);
        }
        out
    }
}

/// The uppercase form of an ASCII lowercase letter, as text; `None` for every
/// character that uppercasing leaves unchanged.
fn upper_char_str(c: char) -> (r: Option<&'static str>)
    ensures
        r matches Some(t) ==> t@ == seq![to_upper_char(c)],
        r is None ==> to_upper_char(c) == c,
{
    proof {
        reveal_strlit("A");
        reveal_strlit("B");
        reveal_strlit("C");
        reveal_strlit("D");
        reveal_strlit("E");
        reveal_strlit("F");
        reveal_strlit("G");
        reveal_strlit("H");
        reveal_strlit("I");
        reveal_strlit("J");
        reveal_strlit("K");
        reveal_strlit("L");
        reveal_strlit("M");
        reveal_strlit("N");
        reveal_strlit("O");
        reveal_strlit("P");
        reveal_strlit("Q");
        reveal_strlit("R");
        reveal_strlit("S");
        reveal_strlit("T");
        reveal_strlit("U");
        reveal_strlit("V");
        reveal_strlit("W");
        reveal_strlit("X");
        reveal_strlit("Y");
        reveal_strlit("Z");
    }
    if c == 'a' {
        Some("A")
    } else if c == 'b' {
        Some("B")
    } else if c == 'c' {
        Some("C")
    } else if c == 'd' {
        Some("D")
    } else if c == 'e' {
        Some("E")
    } else if c == 'f' {
        Some("F")
    } else if c == 'g' {
        Some("G")
    } else if c == 'h' {
        Some("H")
    } else if c == 'i' {
        Some("I")
    } else if c == 'j' {
        Some("J")
    } else if c == 'k' {
        Some("K")
    } else if c == 'l' {
        Some("L")
    } else if c == 'm' {
        Some("M")
    } else if c == 'n' {
        Some("N")
    } else if c == 'o' {
        Some("O")
    } else if c == 'p' {
        Some("P")
    } else if c == 'q' {
        Some("Q")
    } else if c == 'r' {
        Some("R")
    } else if c == 's' {
        Some("S")
    } else if c == 't' {
        Some("T")
    } else if c == 'u' {
        Some("U")
    } else if c == 'v' {
        Some("V")
    } else if c == 'w' {
        Some("W")
    } else if c == 'x' {
        Some("X")
    } else if c == 'y' {
        Some("Y")
    } else if c == 'z' {
        Some("Z")
    } else {
        None
    }
}

} // verus!
