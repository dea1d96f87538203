//! 20-byte contract addresses and 32-byte hashes, with the lowercase
//! `0x`-prefixed hex form in which the store and the configuration carry them.

use crate::hex::encode_hex;
use crate::hex::hex_digit_value;
use crate::hex::hex_string_of;
use crate::hex::hex_val;
use crate::hex::is_hex_digit;
use vstd::prelude::*;
use vstd::string::StrSliceExecFns;

verus! {

/// Whether `s` is a well-formed address string: `0x` followed by exactly 40
/// hex digits, in either case.
pub open spec fn spec_address_str_ok(s: Seq<char>) -> bool {
    s.len() == 42 && s[0] == '0' && s[1] == 'x' && (forall|i: int|
        2 <= i < 42 ==> is_hex_digit(s[i]))
}

/// Whether the `k`-th digit pair of an address string is made of hex digits.
pub open spec fn spec_digit_pair_ok(s: Seq<char>, k: int) -> bool {
    is_hex_digit(s[2 + 2 * k]) && is_hex_digit(s[3 + 2 * k])
}

/// The byte denoted by the `k`-th digit pair of an address string.
pub open spec fn spec_parsed_byte(s: Seq<char>, k: int) -> u8 {
    (16 * hex_val(s[2 + 2 * k]) + hex_val(s[3 + 2 * k])) as u8
}

/// The 20 bytes denoted by a well-formed address string.
pub open spec fn spec_parse_address(s: Seq<char>) -> Seq<u8> {
    Seq::new(20, |k: int| spec_parsed_byte(s, k))
}

/// A 20-byte on-chain address.
#[derive(Clone, Copy)]
pub struct Address {
    pub bytes: [u8; 20],
}

/// A 32-byte value: a transaction hash or an event topic.
#[derive(Clone, Copy)]
pub struct Hash32 {
    pub bytes: [u8; 32],
}

impl View for Address {
    type V = Seq<u8>;

    open spec fn view(&self) -> Seq<u8> {
        self.bytes@
    }
}

impl View for Hash32 {
    type V = Seq<u8>;

    open spec fn view(&self) -> Seq<u8> {
        self.bytes@
    }
}

impl Address {
    /// The all-zero address.
    pub fn zero() -> (r: Address)
        ensures
            r@ == Seq::new(20, |i: int| 0u8),
    {
        let a = Address { bytes: [0u8; 20] };
        proof {
            assert(a@ =~= Seq::new(20, |i: int| 0u8));
        }
        a
    }

    /// Parses a `0x`-prefixed 40-hex-digit string, in either case, into an
    /// address; returns `None` on any other shape.
    pub fn parse(s: &str) -> (r: Option<Address>)
        ensures
            r is Some <==> spec_address_str_ok(s@),
            r is Some ==> r->0@ == spec_parse_address(s@),
    {
        if s.unicode_len() != 42 {
            return None;
        }
        if s.get_char(0) != '0' || s.get_char(1) != 'x' {
            return None;
        }
        let mut bytes = [0u8; 20];
        let mut j: usize = 0;
        while j < 20
            invariant
                s@.len() == 42,
                s@[0] == '0',
                s@[1] == 'x',
                j <= 20,
                forall|k: int|
                    #![trigger bytes@[k]]
                    #![trigger spec_digit_pair_ok(s@, k)]
                    0 <= k < j ==> spec_digit_pair_ok(s@, k) && bytes@[k] == spec_parsed_byte(
                        s@,
                        k,
                    ),
            decreases 20 - j,
        {
            let hi = match hex_digit_value(s.get_char(2 + 2 * j)) {
                Some(v) => v,
                None => {
                    return None;
                },
            };
            let lo = match hex_digit_value(s.get_char(3 + 2 * j)) {
                Some(v) => v,
                None => {
                    return None;
                },
            };
            bytes[j] = hi * 16 + lo;
            proof {
                assert(spec_digit_pair_ok(s@, j as int));
                assert(bytes@[j as int] == spec_parsed_byte(s@, j as int));
            }
            j += 1;
        }
        proof {
            assert forall|i: int| 2 <= i < 42 implies is_hex_digit(s@[i]) by {
                let k = (i - 2) / 2;
                assert(i - 2 == 2 * k + (i - 2) % 2) by (nonlinear_arith)
                    requires
                        2 <= i < 42,
                        k == (i - 2) / 2,
                ;
                assert(0 <= k < 20);
                assert(i == 2 + 2 * k || i == 3 + 2 * k);
                assert(spec_digit_pair_ok(s@, k));
            }
            assert forall|k: int| 0 <= k < 20 implies bytes@[k] == spec_parse_address(s@)[k] by {
                assert(bytes@[k] == spec_parsed_byte(s@, k));
            }
            assert(bytes@ =~= spec_parse_address(s@));
        }
        Some(Address { bytes })
    }

    /// The `0x`-prefixed lowercase hex spelling of this address.
    pub fn to_hex(&self) -> (r: String)
        ensures
            r@ == hex_string_of(self@),
    {
        encode_hex(self.bytes.as_slice())
    }

    /// Byte-for-byte equality of two addresses.
    pub fn same_as(&self, other: &Address) -> (r: bool)
        ensures
            r == (self@ =~= other@),
    {
        let mut i: usize = 0;
        while i < 20
            invariant
                i <= 20,
                forall|j: int| 0 <= j < i ==> self@[j] == other@[j],
            decreases 20 - i,
        {
            if self.bytes[i] != other.bytes[i] {
                return false;
            }
            i += 1;
        }
        proof {
            assert(self@ =~= other@);
        }
        true
    }
}

impl Hash32 {
    /// The all-zero hash.
    pub fn zero() -> (r: Hash32)
        ensures
            r@ == Seq::new(32, |i: int| 0u8),
    {
        let h = Hash32 { bytes: [0u8; 32] };
        proof {
            assert(h@ =~= Seq::new(32, |i: int| 0u8));
        }
        h
    }

    /// The `0x`-prefixed lowercase hex spelling of this hash.
    pub fn to_hex(&self) -> (r: String)
        ensures
            r@ == hex_string_of(self@),
    {
        encode_hex(self.bytes.as_slice())
    }

    /// Byte-for-byte equality of two hashes.
    pub fn same_as(&self, other: &Hash32) -> (r: bool)
        ensures
            r == (self@ =~= other@),
    {
        let mut i: usize = 0;
        while i < 32
            invariant
                i <= 32,
                forall|j: int| 0 <= j < i ==> self@[j] == other@[j],
            decreases 32 - i,
        {
            if self.bytes[i] != other.bytes[i] {
                return false;
            }
            i += 1;
        }
        proof {
            assert(self@ =~= other@);
        }
        true
    }
}

} // verus!
