use vstd::prelude::*;

verus! {

use crate::chunk_type::{ChunkType, all_letters};
use crate::crc32::{crc32, crc32_of};
use crate::encoding::{be32_val, be32_bytes, u32_from_be, u32_to_be, lemma_be32_roundtrip,
    lemma_be32_inverse};
use crate::errors::PngError;
use crate::text::utf8_to_string;
use vstd::slice::{slice_subrange, slice_to_vec};
use vstd::utf8::{valid_utf8, decode_utf8};

/// What a chunk holds, as mathematical values: its type bytes, its payload
/// bytes, and its stored checksum.
#[verifier::ext_equal]
pub ghost struct ChunkModel {
    pub t: Seq<u8>,
    pub p: Seq<u8>,
    pub crc: u32,
}

impl ChunkModel {
    /// The type is a four-letter code, the payload length fits the length
    /// field, and the checksum is the one computed over type and payload.
    pub open spec fn wf(&self) -> bool {
        &&& self.t.len() == 4
        &&& all_letters(self.t)
        &&& self.p.len() <= u32::MAX
        &&& self.crc == crc32_of(self.t + self.p)
    }
}

/// The exact byte layout of a chunk: big-endian payload length, type bytes,
/// payload bytes, big-endian checksum.
#[verifier::opaque]
pub open spec fn spec_chunk_bytes(m: ChunkModel) -> Seq<u8> {
    be32_bytes(m.p.len() as u32) + m.t + m.p + be32_bytes(m.crc)
}

/// What parsing a whole buffer as one chunk yields: the chunk's parts, or
/// the first error the checks raise. The buffer must be exactly the declared
/// length plus the twelve framing bytes; the type must be four letters; the
/// stored checksum must equal the computed one.
#[verifier::opaque]
pub open spec fn spec_chunk_from_bytes(b: Seq<u8>) -> Result<ChunkModel, PngError> {
    if b.len() < 12 {
        Err(PngError::MalformedChunk)
    } else {
        let len = be32_val(b.subrange(0, 4)) as int;
        if len + 12 != b.len() {
            Err(PngError::MalformedChunk)
        } else {
            let t = b.subrange(4, 8);
            let p = b.subrange(8, 8 + len);
            let crc = be32_val(b.subrange(8 + len, 12 + len));
            if !all_letters(t) {
                Err(PngError::InvalidTypeCode)
            } else if crc != crc32_of(t + p) {
                Err(PngError::ChecksumMismatch)
            } else {
                Ok(ChunkModel { t, p, crc })
            }
        }
    }
}

/// One record of the container: a type code, a payload, and the checksum
/// over both.
#[derive(Debug)]
pub struct Chunk {
    chunk_type: ChunkType,
    message_bytes: Vec<u8>,
    crc_chunk: u32,
}

impl View for Chunk {
    type V = ChunkModel;

    closed spec fn view(&self) -> ChunkModel {
        ChunkModel { t: self.chunk_type@, p: self.message_bytes@, crc: self.crc_chunk }
    }
}

impl Chunk {
    /// The chunk's parts satisfy the layout invariant.
    pub open spec fn wf(&self) -> bool {
        self@.wf()
    }

    /// Builds a chunk from a type code and a payload, computing the checksum.
    pub fn new(chunk_type: ChunkType, data: Vec<u8>) -> (r: Chunk)
        requires
            chunk_type.wf(),
            data@.len() <= u32::MAX,
        ensures
            r@ == (ChunkModel { t: chunk_type@, p: data@, crc: crc32_of(chunk_type@ + data@) }),
            r.wf(),
    {
        let tb = chunk_type.bytes();
        let mut crc_input: Vec<u8> = Vec::new();
        crc_input.push(tb[0]);
        crc_input.push(tb[1]);
        crc_input.push(tb[2]);
        crc_input.push(tb[3]);
        crc_input.extend_from_slice(data.as_slice());
        proof {
            assert(crc_input@ =~= chunk_type@ + data@);
        }
        let crc = crc32(crc_input.as_slice());
        Chunk { chunk_type, message_bytes: data, crc_chunk: crc }
    }

    /// The payload length, as the length field stores it.
    pub fn length(&self) -> (r: u32)
        requires
            self.wf(),
        ensures
            r == self@.p.len(),
    {
        self.message_bytes.len() as u32
    }

    /// The chunk's type code.
    pub fn chunk_type(&self) -> (r: &ChunkType)
        ensures
            r@ == self@.t,
    {
        &self.chunk_type
    }

    /// The payload bytes.
    pub fn data(&self) -> (r: &[u8])
        ensures
            r@ == self@.p,
    {
        self.message_bytes.as_slice()
    }

    /// The stored checksum.
    pub fn crc(&self) -> (r: u32)
        ensures
            r == self@.crc,
    {
        self.crc_chunk
    }

    /// The payload read as UTF-8 text; fails exactly when it is not UTF-8.
    pub fn data_as_string(&self) -> (r: Result<String, PngError>)
        ensures
            match r {
                Ok(s) => valid_utf8(self@.p) && s@ == decode_utf8(self@.p),
                Err(e) => e == PngError::InvalidText && !valid_utf8(self@.p),
            },
    {
        match utf8_to_string(self.message_bytes.as_slice()) {
            Some(s) => Ok(s),
            None => Err(PngError::InvalidText),
        }
    }

    /// The chunk's exact byte layout.
    pub fn as_bytes(&self) -> (r: Vec<u8>)
        requires
            self.wf(),
        ensures
            r@ == spec_chunk_bytes(self@),
    {
        let mut out = u32_to_be(self.message_bytes.len() as u32);
        let tb = self.chunk_type.bytes();
        out.push(tb[0]);
        out.push(tb[1]);
        out.push(tb[2]);
        out.push(tb[3]);
        out.extend_from_slice(self.message_bytes.as_slice());
        let mut crc_bytes = u32_to_be(self.crc_chunk);
        out.append(&mut crc_bytes);
        proof {
            reveal(spec_chunk_bytes);
            assert(out@ =~= spec_chunk_bytes(self@));
        }
        out
    }

    /// Parses one whole buffer as a chunk, verifying framing, type code and
    /// checksum exactly as [`spec_chunk_from_bytes`] lays them out.
    pub fn try_from(bytes: &[u8]) -> (r: Result<Chunk, PngError>)
        ensures
            match r {
                Ok(c) => c.wf() && spec_chunk_from_bytes(bytes@) == Ok::<ChunkModel, PngError>(c@),
                Err(e) => spec_chunk_from_bytes(bytes@) == Err::<ChunkModel, PngError>(e),
            },
    {
        proof {
            reveal(spec_chunk_from_bytes);
        }
        if bytes.len() < 12 {
            return Err(PngError::MalformedChunk);
        }
        let declared = u32_from_be(bytes[0], bytes[1], bytes[2], bytes[3]);
        proof {
            assert(seq![bytes@[0], bytes@[1], bytes@[2], bytes@[3]] =~= bytes@.subrange(0, 4));
        }
        let len = bytes.len() - 12;
        if declared as usize != len {
            return Err(PngError::MalformedChunk);
        }
        let type_arr: [u8; 4] = [bytes[4], bytes[5], bytes[6], bytes[7]];
        proof {
            assert(type_arr@ =~= bytes@.subrange(4, 8));
        }
        let chunk_type = match ChunkType::try_from(type_arr) {
            Ok(t) => t,
            Err(e) => {
                return Err(e);
            },
        };
        let payload_slice = slice_subrange(bytes, 8, 8 + len);
        let stored_crc = u32_from_be(bytes[8 + len], bytes[9 + len], bytes[10 + len],
            bytes[11 + len]);
        proof {
            assert(seq![bytes@[8 + len], bytes@[9 + len], bytes@[10 + len], bytes@[11 + len]]
                =~= bytes@.subrange(8 + len, 12 + len));
        }
        let mut crc_input: Vec<u8> = Vec::new();
        crc_input.push(type_arr[0]);
        crc_input.push(type_arr[1]);
        crc_input.push(type_arr[2]);
        crc_input.push(type_arr[3]);
        crc_input.extend_from_slice(payload_slice);
        proof {
            assert(crc_input@ =~= bytes@.subrange(4, 8) + bytes@.subrange(8, 8 + len));
        }
        let computed = crc32(crc_input.as_slice());
        if computed != stored_crc {
            return Err(PngError::ChecksumMismatch);
        }
        let message_bytes = slice_to_vec(payload_slice);
        Ok(Chunk { chunk_type, message_bytes, crc_chunk: stored_crc })
    }
}

/// Encode-then-decode round trip: parsing the serialization of any
/// well-formed chunk yields that chunk back, type, payload and checksum
/// all identical.
pub proof fn lemma_chunk_round_trip(m: ChunkModel)
    requires
        m.wf(),
    ensures
        spec_chunk_from_bytes(spec_chunk_bytes(m)) == Ok::<ChunkModel, PngError>(m),
{
    reveal(spec_chunk_bytes);
    reveal(spec_chunk_from_bytes);
    let b = spec_chunk_bytes(m);
    let len = m.p.len() as int;
    assert(b.subrange(0, 4) =~= be32_bytes(m.p.len() as u32));
    lemma_be32_roundtrip(m.p.len() as u32);
    assert(b.subrange(4, 8) =~= m.t);
    assert(b.subrange(8, 8 + len) =~= m.p);
    assert(b.subrange(8 + len, 12 + len) =~= be32_bytes(m.crc));
    lemma_be32_roundtrip(m.crc);
    assert(spec_chunk_from_bytes(b) matches Ok(r) && r =~= m);
}

/// Decode-then-encode round trip: a buffer that parses as a chunk is
/// reproduced exactly by serializing the parsed chunk, and the parsed chunk
/// is well formed.
pub proof fn lemma_chunk_bytes_exact(b: Seq<u8>, m: ChunkModel)
    requires
        spec_chunk_from_bytes(b) == Ok::<ChunkModel, PngError>(m),
    ensures
        spec_chunk_bytes(m) == b,
        m.wf(),
{
    reveal(spec_chunk_bytes);
    reveal(spec_chunk_from_bytes);
    let len = be32_val(b.subrange(0, 4)) as int;
    lemma_be32_inverse(b.subrange(0, 4));
    lemma_be32_inverse(b.subrange(8 + len, 12 + len));
    assert(spec_chunk_bytes(m) =~= b);
}

/// The header facts a reader of a chunk's bytes uses: a chunk's bytes are
/// its payload plus the twelve framing bytes, and the length field they open
/// with holds the payload length.
pub proof fn lemma_chunk_bytes_header(m: ChunkModel)
    requires
        m.wf(),
    ensures
        spec_chunk_bytes(m).len() == 12 + m.p.len(),
        be32_val(spec_chunk_bytes(m).subrange(0, 4)) == m.p.len(),
{
    reveal(spec_chunk_bytes);
    assert(spec_chunk_bytes(m).subrange(0, 4) =~= be32_bytes(m.p.len() as u32));
    lemma_be32_roundtrip(m.p.len() as u32);
}

} // verus!
