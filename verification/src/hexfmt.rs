//! Lower-case hexadecimal encoding and decoding of byte strings.
use vstd::prelude::*;

use crate::text::push_char;

verus! {

/// The lower-case hex digit for a value below 16.
pub open spec fn hex_digit(n: u8) -> char {
    if n < 10 {
        ((n + 48) as u8) as char
    } else {
        ((n - 10 + 97) as u8) as char
    }
}

/// The value of a hex digit (either case), or `None` for any other character.
pub open spec fn hex_value(c: char) -> Option<u8> {
    if '0' <= c && c <= '9' {
        Some((c as u8 - 48) as u8)
    } else if 'a' <= c && c <= 'f' {
        Some((c as u8 - 97 + 10) as u8)
    } else if 'A' <= c && c <= 'F' {
        Some((c as u8 - 65 + 10) as u8)
    } else {
        None
    }
}

/// Two lower-case hex digits per byte, high nibble first.
pub open spec fn hex_encode(bytes: Seq<u8>) -> Seq<char>
    decreases bytes.len(),
{
    if bytes.len() == 0 {
        Seq::empty()
    } else {
        hex_encode(bytes.drop_last()).push(hex_digit(bytes.last() / 16)).push(
            hex_digit(bytes.last() % 16),
        )
    }
}

/// Decodes pairs of hex digits; `None` on odd length or a non-hex character.
pub open spec fn hex_decode(s: Seq<char>) -> Option<Seq<u8>>
    decreases s.len(),
{
    if s.len() == 0 {
        Some(Seq::empty())
    } else if s.len() == 1 {
        None
    } else {
        match (hex_decode(s.subrange(0, s.len() - 2)), hex_value(s[s.len() - 2]), hex_value(
            s[s.len() - 1],
        )) {
            (Some(prefix), Some(hi), Some(lo)) => Some(prefix.push((hi * 16 + lo) as u8)),
            _ => None,
        }
    }
}

pub proof fn lemma_hex_encode_len(bytes: Seq<u8>)
    ensures
        hex_encode(bytes).len() == 2 * bytes.len(),
    decreases bytes.len(),
{
    if bytes.len() > 0 {
        lemma_hex_encode_len(bytes.drop_last());
    }
}

fn digit_char(n: u8) -> (c: char)
    requires
        n < 16,
    ensures
        c == hex_digit(n),
{
    if n < 10 {
        (n + 48) as char
    } else {
        (n - 10 + 97) as char
    }
}

fn digit_value(c: char) -> (r: Option<u8>)
    ensures
        r == hex_value(c),
{
    if '0' <= c && c <= '9' {
        Some((c as u8 - 48) as u8)
    } else if 'a' <= c && c <= 'f' {
        Some((c as u8 - 97 + 10) as u8)
    } else if 'A' <= c && c <= 'F' {
        Some((c as u8 - 65 + 10) as u8)
    } else {
        None
    }
}

/// Encodes bytes as lower-case hex.
pub fn encode_hex(bytes: &[u8]) -> (r: String)
    ensures
        r@ == hex_encode(bytes@),
{
    let mut out = String::new();
    let mut i: usize = 0;
    while i < bytes.len()
        invariant
            i <= bytes@.len(),
            out@ == hex_encode(bytes@.subrange(0, i as int)),
        decreases bytes@.len() - i,
    {
        let b = bytes[i];
        push_char(&mut out, digit_char(b / 16));
        push_char(&mut out, digit_char(b % 16));
        proof {
            assert(bytes@.subrange(0, i + 1).drop_last() =~= bytes@.subrange(0, i as int));
        }
        i = i + 1;
    }
    proof {
        assert(bytes@.subrange(0, bytes@.len() as int) =~= bytes@);
    }
    out
}

/// Decodes a hex string (either case) into bytes.
pub fn decode_hex(s: &[char]) -> (r: Option<Vec<u8>>)
    ensures
        match r {
            Some(v) => hex_decode(s@) == Some(v@),
            None => hex_decode(s@) is None,
        },
{
    if s.len() % 2 == 1 {
        proof {
            lemma_odd_len_fails(s@);
        }
        return None;
    }
    let mut out: Vec<u8> = Vec::new();
    let mut i: usize = 0;
    while i < s.len()
        invariant
            s@.len() % 2 == 0,
            i <= s@.len(),
            i % 2 == 0,
            hex_decode(s@.subrange(0, i as int)) == Some(out@),
        decreases s@.len() - i,
    {
        let hi = digit_value(s[i]);
        let lo = digit_value(s[i + 1]);
        proof {
            let t = s@.subrange(0, i + 2);
            assert(t.subrange(0, t.len() - 2) =~= s@.subrange(0, i as int));
            assert(t[t.len() - 2] == s@[i as int]);
            assert(t[t.len() - 1] == s@[i + 1]);
        }
        match (hi, lo) {
            (Some(h), Some(l)) => {
                out.push(h * 16 + l);
            },
            _ => {
                proof {
                    lemma_prefix_fail_extends(s@, (i + 2) as nat);
                }
                return None;
            },
        }
        i = i + 2;
    }
    proof {
        assert(s@.subrange(0, s@.len() as int) =~= s@);
    }
    Some(out)
}

proof fn lemma_odd_len_fails(s: Seq<char>)
    requires
        s.len() % 2 == 1,
    ensures
        hex_decode(s) is None,
    decreases s.len(),
{
    if s.len() > 1 {
        lemma_odd_len_fails(s.subrange(0, s.len() - 2));
    }
}

/// Once a prefix of even length fails to decode, every longer even-length string fails.
proof fn lemma_prefix_fail_extends(s: Seq<char>, k: nat)
    requires
        k <= s.len(),
        k % 2 == 0,
        s.len() % 2 == 0,
        hex_decode(s.subrange(0, k as int)) is None,
    ensures
        hex_decode(s) is None,
    decreases s.len() - k,
{
    if k < s.len() {
        let t = s.subrange(0, (k + 2) as int);
        assert(t.subrange(0, t.len() - 2) =~= s.subrange(0, k as int));
        lemma_prefix_fail_extends(s, k + 2);
    } else {
        assert(s.subrange(0, k as int) =~= s);
    }
}

/// Decoding the encoding of any byte string gives the bytes back.
pub proof fn lemma_hex_roundtrip(bytes: Seq<u8>)
    ensures
        hex_decode(hex_encode(bytes)) == Some(bytes),
    decreases bytes.len(),
{
    if bytes.len() > 0 {
        let init = bytes.drop_last();
        lemma_hex_roundtrip(init);
        lemma_hex_encode_len(init);
        let e = hex_encode(bytes);
        let b = bytes.last();
        assert(e.subrange(0, e.len() - 2) =~= hex_encode(init));
        assert(hex_value(hex_digit(b / 16)) == Some(b / 16)) by {
            let n = b / 16;
            assert(n < 16);
            if n < 10 {
                assert(((n + 48) as u8) as char as u8 == n + 48);
            } else {
                assert(((n - 10 + 97) as u8) as char as u8 == n - 10 + 97);
            }
        }
        assert(hex_value(hex_digit(b % 16)) == Some(b % 16)) by {
            let n = b % 16;
            if n < 10 {
                assert(((n + 48) as u8) as char as u8 == n + 48);
            } else {
                assert(((n - 10 + 97) as u8) as char as u8 == n - 10 + 97);
            }
        }
        assert((b / 16) * 16 + b % 16 == b);
        assert(init.push(b) =~= bytes);
    }
}

} // verus!
