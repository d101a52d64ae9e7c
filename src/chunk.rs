//! Chunks: a big-endian payload length, a type tag, the payload, and a CRC-32
//! of tag and payload.

use vstd::prelude::*;
use vstd::utf8::{decode_utf8, valid_utf8};

use crate::chunk_type::{valid_tag, ChunkType, ChunkTypeError};
use crate::endian::{
    be_bytes, be_value, lemma_be_value_injective, lemma_be_value_of_bytes, push_be_u32, read_be_u32,
};
use crate::text::{replacement_string, replacement_text, utf8_text};

verus! {

/// The CRC-32 (ISO-HDLC, the IEEE 802.3 polynomial) of `bytes`.
pub uninterp spec fn crc32_iso_hdlc(bytes: Seq<u8>) -> u32;

/// Relies on the crc crate's `Crc::<u32>::checksum` under its `CRC_32_ISO_HDLC`
/// algorithm, whose value depends on the bytes alone.
#[verifier::external_body]
fn checksum(bytes: &[u8]) -> (r: u32)
    ensures
        r == crc32_iso_hdlc(bytes@),
{
    crc::Crc::<u32>::new(&crc::CRC_32_ISO_HDLC).checksum(bytes)
}

/// A disagreement between what a chunk declares and what it holds.
#[derive(Debug, PartialEq, Eq, Structural)]
pub enum ChunkError {
    /// The payload has `actual` bytes where `found` were declared.
    InvalidLength { actual: u32, found: u32 },
    /// The tag and payload have CRC `actual` where `found` was declared.
    InvalidCrc { actual: u32, found: u32 },
}

/// Why bytes could not be read as a chunk.
#[derive(Debug, PartialEq, Eq)]
pub enum DecodeError {
    /// The bytes end before the chunk does.
    UnexpectedEnd,
    /// The type tag is not valid.
    ChunkType(ChunkTypeError),
    /// The declared length or CRC does not match.
    Chunk(ChunkError),
}

/// What a chunk holds, as mathematical values.
pub struct ChunkView {
    pub length: u32,
    pub tag: Seq<u8>,
    pub data: Seq<u8>,
    pub crc: u32,
}

/// The chunk made of a tag and a payload, with its length and CRC derived.
pub open spec fn new_view(tag: Seq<u8>, data: Seq<u8>) -> ChunkView {
    ChunkView { length: data.len() as u32, tag, data, crc: crc32_iso_hdlc(tag + data) }
}

/// The bytes of a chunk: length, tag, payload, CRC.
pub open spec fn chunk_bytes(c: ChunkView) -> Seq<u8> {
    be_bytes(c.length) + c.tag + c.data + be_bytes(c.crc)
}

/// The chunk at the start of `b`, read field by field; bytes after it are
/// ignored.
pub open spec fn parse(b: Seq<u8>) -> Result<ChunkView, DecodeError> {
    if b.len() < 8 {
        Err(DecodeError::UnexpectedEnd)
    } else if !valid_tag(b.subrange(4, 8)) {
        Err(DecodeError::ChunkType(ChunkTypeError::InvalidEncoding))
    } else {
        let length = be_value(b.subrange(0, 4));
        let end = 8 + length;
        if b.len() < end + 4 {
            Err(DecodeError::UnexpectedEnd)
        } else {
            let tag = b.subrange(4, 8);
            let data = b.subrange(8, end);
            let found = be_value(b.subrange(end, end + 4));
            let derived = new_view(tag, data);
            if derived.length != length {
                Err(DecodeError::Chunk(ChunkError::InvalidLength { actual: derived.length, found: length }))
            } else if derived.crc != found {
                Err(DecodeError::Chunk(ChunkError::InvalidCrc { actual: derived.crc, found }))
            } else {
                Ok(derived)
            }
        }
    }
}

/// A chunk whose length and CRC agree with its tag and payload.
#[derive(Debug)]
pub struct Chunk {
    length: u32,
    chunk_type: ChunkType,
    chunk_data: Vec<u8>,
    crc: u32,
}

impl View for Chunk {
    type V = ChunkView;

    closed spec fn view(&self) -> ChunkView {
        ChunkView {
            length: self.length,
            tag: self.chunk_type@,
            data: self.chunk_data@,
            crc: self.crc,
        }
    }
}

impl Clone for Chunk {
    fn clone(&self) -> (r: Chunk)
        ensures
            r@ == self@,
    {
        proof {
            use_type_invariant(self);
        }
        Chunk {
            length: self.length,
            chunk_type: self.chunk_type,
            chunk_data: self.chunk_data.clone(),
            crc: self.crc,
        }
    }
}

impl Chunk {
    #[verifier::type_invariant]
    spec fn inv(self) -> bool {
        &&& self.length as nat == self.chunk_data@.len()
        &&& self.crc == crc32_iso_hdlc(self.chunk_type@ + self.chunk_data@)
    }

    /// The chunk holding `chunk_data` under `chunk_type`.
    pub fn new(chunk_type: ChunkType, chunk_data: Vec<u8>) -> (r: Chunk)
        requires
            chunk_data@.len() <= u32::MAX,
        ensures
            r@ == new_view(chunk_type@, chunk_data@),
    {
        let tag = chunk_type.bytes();
        let mut covered: Vec<u8> = Vec::new();
        let mut i: usize = 0;
        while i < 4
            invariant
                i <= 4,
                tag@.len() == 4,
                covered@ == tag@.subrange(0, i as int),
            decreases 4 - i,
        {
            covered.push(tag[i]);
            i += 1;
            assert(covered@ =~= tag@.subrange(0, i as int));
        }
        let mut j: usize = 0;
        while j < chunk_data.len()
            invariant
                j <= chunk_data@.len(),
                covered@ == tag@ + chunk_data@.subrange(0, j as int),
            decreases chunk_data@.len() - j,
        {
            covered.push(chunk_data[j]);
            j += 1;
            assert(covered@ =~= tag@ + chunk_data@.subrange(0, j as int));
        }
        assert(chunk_data@.subrange(0, chunk_data@.len() as int) =~= chunk_data@);
        let crc = checksum(covered.as_slice());
        Chunk { length: chunk_data.len() as u32, chunk_type, chunk_data, crc }
    }

    /// The declared payload length.
    pub fn length(&self) -> (r: u32)
        ensures
            r == self@.length,
            r as nat == self@.data.len(),
    {
        proof {
            use_type_invariant(self);
        }
        self.length
    }

    /// The type tag.
    pub fn chunk_type(&self) -> (r: &ChunkType)
        ensures
            r@ == self@.tag,
    {
        &self.chunk_type
    }

    /// The payload.
    pub fn chunk_data(&self) -> (r: &[u8])
        ensures
            r@ == self@.data,
    {
        self.chunk_data.as_slice()
    }

    /// The declared CRC.
    pub fn crc(&self) -> (r: u32)
        ensures
            r == self@.crc,
            r == crc32_iso_hdlc(self@.tag + self@.data),
    {
        proof {
            use_type_invariant(self);
        }
        self.crc
    }
    /// The chunk at the start of `value`: declared length, tag, payload and
    /// declared CRC, in that order, checked against the length and CRC that
    /// tag and payload give. Bytes after the chunk are ignored.
    pub fn try_from(value: &[u8]) -> (r: Result<Chunk, DecodeError>)
        ensures
            r is Ok <==> parse(value@) is Ok,
            r is Ok ==> r->Ok_0@ == parse(value@)->Ok_0,
            r is Err ==> r->Err_0 == parse(value@)->Err_0,
    {
        if value.len() < 8 {
            return Err(DecodeError::UnexpectedEnd);
        }
        let length = read_be_u32(value, 0);
        let chunk_type = match ChunkType::try_from([value[4], value[5], value[6], value[7]]) {
            Ok(t) => t,
            Err(e) => {
                assert(!valid_tag(value@.subrange(4, 8))) by {
                    assert(value@.subrange(4, 8) =~= [value[4], value[5], value[6], value[7]]@);
                }
                return Err(DecodeError::ChunkType(e));
            },
        };
        assert(chunk_type@ =~= value@.subrange(4, 8));
        let len = length as usize;
        if value.len() - 8 < len || value.len() - 8 - len < 4 {
            return Err(DecodeError::UnexpectedEnd);
        }
        let end = 8 + len;
        let mut chunk_data: Vec<u8> = Vec::new();
        let mut i: usize = 8;
        while i < end
            invariant
                8 <= i <= end,
                end + 4 <= value@.len(),
                chunk_data@ == value@.subrange(8, i as int),
            decreases end - i,
        {
            chunk_data.push(value[i]);
            i += 1;
            assert(chunk_data@ =~= value@.subrange(8, i as int));
        }
        let crc = read_be_u32(value, end);
        let chunk = Chunk::new(chunk_type, chunk_data);
        if chunk.length() != length {
            Err(DecodeError::Chunk(ChunkError::InvalidLength { actual: chunk.length(), found: length }))
        } else if chunk.crc() != crc {
            Err(DecodeError::Chunk(ChunkError::InvalidCrc { actual: chunk.crc(), found: crc }))
        } else {
            Ok(chunk)
        }
    }

    /// The bytes of the chunk: big-endian length, tag, payload, big-endian CRC.
    pub fn as_bytes(&self) -> (r: Vec<u8>)
        ensures
            r@ == chunk_bytes(self@),
    {
        let mut out: Vec<u8> = Vec::new();
        push_be_u32(&mut out, self.length);
        let tag = self.chunk_type.bytes();
        let mut i: usize = 0;
        while i < 4
            invariant
                i <= 4,
                tag@ == self@.tag,
                tag@.len() == 4,
                out@ == be_bytes(self@.length) + tag@.subrange(0, i as int),
            decreases 4 - i,
        {
            out.push(tag[i]);
            i += 1;
            assert(out@ =~= be_bytes(self@.length) + tag@.subrange(0, i as int));
        }
        let mut j: usize = 0;
        while j < self.chunk_data.len()
            invariant
                j <= self@.data.len(),
                out@ == be_bytes(self@.length) + self@.tag + self@.data.subrange(0, j as int),
            decreases self@.data.len() - j,
        {
            out.push(self.chunk_data[j]);
            j += 1;
            assert(out@ =~= be_bytes(self@.length) + self@.tag + self@.data.subrange(0, j as int));
        }
        assert(self@.data.subrange(0, self@.data.len() as int) =~= self@.data);
        push_be_u32(&mut out, self.crc);
        out
    }

    /// The payload as text: its UTF-8 reading where it is valid UTF-8, else
    /// one replacement character for each byte.
    pub fn to_string(&self) -> (r: String)
        ensures
            valid_utf8(self@.data) ==> r@ == decode_utf8(self@.data),
            !valid_utf8(self@.data) ==> r@ == replacement_text(self@.length as nat),
    {
        match utf8_text(self.chunk_data.as_slice()) {
            Some(s) => s,
            None => replacement_string(self.length as usize),
        }
    }
}

/// Reading the bytes of a chunk built from an ASCII tag and a payload gives
/// back that same chunk: length, tag, payload and CRC.
pub proof fn lemma_round_trip(tag: Seq<u8>, data: Seq<u8>)
    requires
        valid_tag(tag),
        data.len() <= u32::MAX,
    ensures
        parse(chunk_bytes(new_view(tag, data))) == Ok::<ChunkView, DecodeError>(new_view(tag, data)),
{
    let c = new_view(tag, data);
    let b = chunk_bytes(c);
    let end = 8 + data.len() as int;
    lemma_be_value_of_bytes(c.length);
    lemma_be_value_of_bytes(c.crc);
    assert(b.subrange(0, 4) =~= be_bytes(c.length));
    assert(b.subrange(4, 8) =~= tag);
    assert(b.subrange(8, end) =~= data);
    assert(b.subrange(end, end + 4) =~= be_bytes(c.crc));
}

/// Two chunks built from equal tags and equal payloads have equal lengths and
/// equal CRCs.
pub proof fn lemma_new_deterministic(tag1: Seq<u8>, data1: Seq<u8>, tag2: Seq<u8>, data2: Seq<u8>)
    requires
        tag1 == tag2,
        data1 == data2,
    ensures
        new_view(tag1, data1).length == new_view(tag2, data2).length,
        new_view(tag1, data1).crc == new_view(tag2, data2).crc,
{
}

/// `x` with bit `k` inverted.
pub open spec fn flip_bit(x: u8, k: u8) -> u8 {
    x ^ (1u8 << k)
}

/// Inverting any one bit of the CRC field in the bytes of a chunk built from an
/// ASCII tag and a payload makes reading them fail with `InvalidCrc`, which
/// reports the chunk's CRC as the actual one and the altered field as found.
pub proof fn lemma_crc_bit_flip_detected(tag: Seq<u8>, data: Seq<u8>, pos: int, k: u8)
    requires
        valid_tag(tag),
        data.len() <= u32::MAX,
        8 + data.len() <= pos < 12 + data.len(),
        k < 8,
    ensures
        ({
            let b = chunk_bytes(new_view(tag, data));
            let altered = b.update(pos, flip_bit(b[pos], k));
            let end = 8 + data.len() as int;
            &&& be_value(altered.subrange(end, end + 4)) != new_view(tag, data).crc
            &&& parse(altered) == Err::<ChunkView, DecodeError>(
                DecodeError::Chunk(
                    ChunkError::InvalidCrc {
                        actual: new_view(tag, data).crc,
                        found: be_value(altered.subrange(end, end + 4)),
                    },
                ),
            )
        }),
{
    let c = new_view(tag, data);
    let b = chunk_bytes(c);
    let x = b[pos];
    let altered = b.update(pos, flip_bit(x, k));
    let end = 8 + data.len() as int;
    lemma_be_value_of_bytes(c.length);
    lemma_be_value_of_bytes(c.crc);
    assert(altered.subrange(0, 4) =~= be_bytes(c.length));
    assert(altered.subrange(4, 8) =~= tag);
    assert(altered.subrange(8, end) =~= data);
    assert(b.subrange(end, end + 4) =~= be_bytes(c.crc));
    assert(x ^ (1u8 << k) != x) by (bit_vector)
        requires
            k < 8,
    ;
    let field = altered.subrange(end, end + 4);
    assert(field[pos - end] != be_bytes(c.crc)[pos - end]);
    if be_value(field) == c.crc {
        lemma_be_value_injective(field, be_bytes(c.crc));
    }
}

} // verus!
