//! Lowercase `0x`-prefixed hex encoding of byte strings, and parsing of hex
//! address strings, stated over sequences of characters.

use vstd::prelude::*;
use vstd::string::StrSliceExecFns;
use vstd::string::StringExecFns;

verus! {

/// The lowercase hex character for a value below 16.
pub open spec fn hex_char_of(n: u8) -> char
    recommends
        n < 16,
{
    if n < 10 {
        (48 + n) as char
    } else {
        (87 + n) as char
    }
}

/// Whether `c` is a hex digit, upper or lower case.
pub open spec fn is_hex_digit(c: char) -> bool {
    (48 <= c as u32 && c as u32 <= 57) || (97 <= c as u32 && c as u32 <= 102) || (65 <= c as u32
        && c as u32 <= 70)
}

/// The numeric value of a hex digit.
pub open spec fn hex_val(c: char) -> u8
    recommends
        is_hex_digit(c),
{
    if 48 <= c as u32 && c as u32 <= 57 {
        (c as u32 - 48) as u8
    } else if 97 <= c as u32 && c as u32 <= 102 {
        (c as u32 - 87) as u8
    } else {
        (c as u32 - 55) as u8
    }
}

/// The lowercase hex spelling of a byte string, two characters per byte,
/// without a prefix.
pub open spec fn hex_of_bytes(b: Seq<u8>) -> Seq<char>
    decreases b.len(),
{
    if b.len() == 0 {
        Seq::empty()
    } else {
        hex_of_bytes(b.drop_last()) + seq![
            hex_char_of(b.last() / 16),
            hex_char_of(b.last() % 16),
        ]
    }
}

/// The `0x`-prefixed lowercase hex spelling of a byte string.
pub open spec fn hex_string_of(b: Seq<u8>) -> Seq<char> {
    seq!['0', 'x'] + hex_of_bytes(b)
}

/// Appends one lowercase hex character to `s`.
fn push_hex_char(s: &mut String, n: u8)
    requires
        n < 16,
    ensures
        final(s)@ == old(s)@.push(hex_char_of(n)),
{
    match n {
        0 => {
            s.append("0");
            proof { reveal_strlit("0"); }
        },
        1 => {
            s.append("1");
            proof { reveal_strlit("1"); }
        },
        2 => {
            s.append("2");
            proof { reveal_strlit("2"); }
        },
        3 => {
            s.append("3");
            proof { reveal_strlit("3"); }
        },
        4 => {
            s.append("4");
            proof { reveal_strlit("4"); }
        },
        5 => {
            s.append("5");
            proof { reveal_strlit("5"); }
        },
        6 => {
            s.append("6");
            proof { reveal_strlit("6"); }
        },
        7 => {
            s.append("7");
            proof { reveal_strlit("7"); }
        },
        8 => {
            s.append("8");
            proof { reveal_strlit("8"); }
        },
        9 => {
            s.append("9");
            proof { reveal_strlit("9"); }
        },
        10 => {
            s.append("a");
            proof { reveal_strlit("a"); }
        },
        11 => {
            s.append("b");
            proof { reveal_strlit("b"); }
        },
        12 => {
            s.append("c");
            proof { reveal_strlit("c"); }
        },
        13 => {
            s.append("d");
            proof { reveal_strlit("d"); }
        },
        14 => {
            s.append("e");
            proof { reveal_strlit("e"); }
        },
        _ => {
            s.append("f");
            proof { reveal_strlit("f"); }
        },
    }
    proof {
        assert(s@ =~= old(s)@.push(hex_char_of(n)));
    }
}

/// Encodes a byte string as `0x` followed by two lowercase hex characters per
/// byte.
pub fn encode_hex(bytes: &[u8]) -> (r: String)
    ensures
        r@ == hex_string_of(bytes@),
{
    let mut s = String::new();
    s.append("0x");
    proof {
        reveal_strlit("0x");
        assert(s@ =~= seq!['0', 'x'] + hex_of_bytes(bytes@.subrange(0, 0)));
    }
    let n = bytes.len();
    let mut i: usize = 0;
    while i < n
        invariant
            n == bytes@.len(),
            i <= n,
            s@ == seq!['0', 'x'] + hex_of_bytes(bytes@.subrange(0, i as int)),
        decreases n - i,
    {
        let b = bytes[i];
        push_hex_char(&mut s, b / 16);
        push_hex_char(&mut s, b % 16);
        proof {
            let pre = bytes@.subrange(0, i as int);
            let post = bytes@.subrange(0, i + 1);
            assert(post.drop_last() =~= pre);
            assert(post.last() == bytes@[i as int]);
            assert(s@ =~= seq!['0', 'x'] + hex_of_bytes(post));
        }
        i += 1;
    }
    proof {
        assert(bytes@.subrange(0, n as int) =~= bytes@);
    }
    s
}

/// The numeric value of one hex character, or `None` if `c` is no hex digit.
pub fn hex_digit_value(c: char) -> (r: Option<u8>)
    ensures
        r is Some <==> is_hex_digit(c),
        r is Some ==> r->0 == hex_val(c) && r->0 < 16,
{
    let v = c as u32;
    if 48 <= v && v <= 57 {
        Some((v - 48) as u8)
    } else if 97 <= v && v <= 102 {
        Some((v - 87) as u8)
    } else if 65 <= v && v <= 70 {
        Some((v - 55) as u8)
    } else {
        None
    }
}

} // verus!
