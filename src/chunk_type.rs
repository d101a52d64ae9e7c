//! Four-byte chunk type tags, whose letter case carries four flags.

use vstd::prelude::*;
use vstd::string::StringSliceAdditionalSpecFns;
use vstd::utf8::{
    decode_utf8_encode_utf8, encode_utf8, partial_valid_utf8_extend_ascii_block, valid_utf8,
};

use crate::text::{decimal, decimal_string, replacement_string, utf8_text};

verus! {

/// Why a type tag was rejected.
#[derive(Debug, PartialEq, Eq)]
pub enum ChunkTypeError {
    /// A byte lies outside the ASCII range.
    InvalidEncoding,
    /// The text is not four bytes long; `found` is its length in bytes, in decimal.
    InvalidLength { found: String },
}

/// A byte in the ASCII range.
pub open spec fn is_ascii_byte(b: u8) -> bool {
    b < 0x80
}

/// Four bytes, each of them ASCII.
pub open spec fn valid_tag(s: Seq<u8>) -> bool {
    &&& s.len() == 4
    &&& forall|i: int| 0 <= i < 4 ==> is_ascii_byte(#[trigger] s[i])
}

/// An ASCII uppercase letter, `A` to `Z`.
pub open spec fn is_upper(b: u8) -> bool {
    0x41 <= b <= 0x5A
}

/// An ASCII lowercase letter, `a` to `z`.
pub open spec fn is_lower(b: u8) -> bool {
    0x61 <= b <= 0x7A
}

/// An ASCII letter of either case.
pub open spec fn is_letter(b: u8) -> bool {
    is_upper(b) || is_lower(b)
}

/// The same letter in the other case; other bytes are left as they are.
pub open spec fn flip_case(b: u8) -> u8 {
    if is_upper(b) {
        (b + 0x20) as u8
    } else if is_lower(b) {
        (b - 0x20) as u8
    } else {
        b
    }
}

/// The flag that byte `i` of a tag carries: bytes 0 to 2 (critical, public,
/// reserved bit valid) are set by an uppercase letter, byte 3 (safe to copy)
/// by a lowercase one.
pub open spec fn tag_flag(s: Seq<u8>, i: int) -> bool {
    if i == 3 {
        is_lower(s[3])
    } else {
        is_upper(s[i])
    }
}

/// A chunk type tag: four ASCII bytes, case preserved.
#[derive(Debug, Clone, Copy, PartialEq, Eq)]
pub struct ChunkType {
    bytes: [u8; 4],
}

impl View for ChunkType {
    type V = Seq<u8>;

    closed spec fn view(&self) -> Seq<u8> {
        self.bytes@
    }
}

impl ChunkType {
    #[verifier::type_invariant]
    spec fn inv(self) -> bool {
        valid_tag(self.bytes@)
    }

    /// The tag made of `value`, which must be all ASCII.
    pub fn try_from(value: [u8; 4]) -> (r: Result<ChunkType, ChunkTypeError>)
        ensures
            r is Ok <==> valid_tag(value@),
            r is Ok ==> r->Ok_0@ == value@,
            r is Err ==> r->Err_0 == ChunkTypeError::InvalidEncoding,
    {
        let mut i: usize = 0;
        while i < 4
            invariant
                i <= 4,
                forall|j: int| 0 <= j < i ==> is_ascii_byte(#[trigger] value@[j]),
            decreases 4 - i,
        {
            if value[i] >= 0x80 {
                return Err(ChunkTypeError::InvalidEncoding);
            }
            i += 1;
        }
        Ok(ChunkType { bytes: value })
    }

    /// The tag whose four bytes are the UTF-8 bytes of `s`.
    pub fn from_str(s: &str) -> (r: Result<ChunkType, ChunkTypeError>)
        ensures
            s.spec_bytes().len() != 4 ==> r is Err && r->Err_0 is InvalidLength
                && r->Err_0->found@ == decimal(s.spec_bytes().len()),
            s.spec_bytes().len() == 4 ==> {
                &&& r is Ok <==> valid_tag(s.spec_bytes())
                &&& r is Ok ==> r->Ok_0@ == s.spec_bytes()
                &&& r is Err ==> r->Err_0 == ChunkTypeError::InvalidEncoding
            },
    {
        let b = s.as_bytes();
        if b.len() != 4 {
            return Err(ChunkTypeError::InvalidLength { found: decimal_string(b.len()) });
        }
        let value: [u8; 4] = [b[0], b[1], b[2], b[3]];
        assert(value@ =~= s.spec_bytes());
        ChunkType::try_from(value)
    }

    /// The four bytes of the tag.
    pub fn bytes(&self) -> (r: [u8; 4])
        ensures
            r@ == self@,
            valid_tag(r@),
    {
        proof {
            use_type_invariant(self);
        }
        self.bytes
    }

    /// Byte 0 is uppercase.
    pub fn is_critical(&self) -> (r: bool)
        ensures
            r == tag_flag(self@, 0),
    {
        0x41 <= self.bytes[0] && self.bytes[0] <= 0x5A
    }

    /// Byte 1 is uppercase.
    pub fn is_public(&self) -> (r: bool)
        ensures
            r == tag_flag(self@, 1),
    {
        0x41 <= self.bytes[1] && self.bytes[1] <= 0x5A
    }

    /// Byte 2 is uppercase.
    pub fn is_reserved_bit_valid(&self) -> (r: bool)
        ensures
            r == tag_flag(self@, 2),
    {
        0x41 <= self.bytes[2] && self.bytes[2] <= 0x5A
    }

    /// Byte 3 is lowercase.
    pub fn is_safe_to_copy(&self) -> (r: bool)
        ensures
            r == tag_flag(self@, 3),
    {
        0x61 <= self.bytes[3] && self.bytes[3] <= 0x7A
    }

    /// The tag as text: the four characters whose UTF-8 bytes are the tag's.
    pub fn to_string(&self) -> (r: String)
        ensures
            encode_utf8(r@) == self@,
    {
        proof {
            use_type_invariant(self);
            ascii_is_utf8(self@);
            decode_utf8_encode_utf8(self@);
        }
        match utf8_text(&self.bytes) {
            Some(s) => s,
            None => replacement_string(4),
        }
    }
}

impl std::str::FromStr for ChunkType {
    type Err = ChunkTypeError;

    /// Same as the inherent `ChunkType::from_str`.
    fn from_str(s: &str) -> Result<ChunkType, ChunkTypeError> {
        ChunkType::from_str(s)
    }
}

/// ASCII bytes are valid UTF-8.
proof fn ascii_is_utf8(s: Seq<u8>)
    requires
        forall|i: int| 0 <= i < s.len() ==> is_ascii_byte(#[trigger] s[i]),
    ensures
        valid_utf8(s),
{
    assert(valid_utf8(s.subrange(0, 0))) by {
        reveal_with_fuel(valid_utf8, 1);
    }
    partial_valid_utf8_extend_ascii_block(s, 0, s.len() as int);
    assert(s.subrange(0, s.len() as int) =~= s);
}

/// Changing the case of one letter of a tag toggles the flag of that position
/// and leaves the tag valid and the other three flags as they were.
pub proof fn lemma_flip_case_toggles_one_flag(s: Seq<u8>, i: int)
    requires
        valid_tag(s),
        0 <= i < 4,
        is_letter(s[i]),
    ensures
        ({
            let t = s.update(i, flip_case(s[i]));
            &&& valid_tag(t)
            &&& tag_flag(t, i) != tag_flag(s, i)
            &&& forall|j: int| 0 <= j < 4 && j != i ==> #[trigger] tag_flag(t, j) == tag_flag(s, j)
        }),
{
}

} // verus!
