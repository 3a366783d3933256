use vstd::prelude::*;

verus! {

use crate::chunk::{Chunk, ChunkModel, spec_chunk_bytes, spec_chunk_from_bytes,
    lemma_chunk_round_trip, lemma_chunk_bytes_exact, lemma_chunk_bytes_header};
use crate::chunk_type::ChunkType;
use crate::encoding::{be32_val, u32_from_be, lemma_be32_roundtrip};
use crate::errors::PngError;
use vstd::slice::slice_subrange;

/// The fixed eight-byte signature that opens every well-formed buffer.
pub open spec fn spec_signature() -> Seq<u8> {
    seq![137u8, 80u8, 78u8, 71u8, 13u8, 10u8, 26u8, 10u8]
}

/// The models of a sequence of chunks.
pub open spec fn models(s: Seq<Chunk>) -> Seq<ChunkModel> {
    s.map_values(|c: Chunk| c@)
}

/// What parsing the chunk area of a buffer yields: the chunks laid end to
/// end, or the first error met walking them. Each step reads a declared
/// length, checks that a whole chunk of that length is present, parses it,
/// and moves past it; leftover bytes that do not frame a whole chunk are a
/// truncation.
pub open spec fn spec_parse_chunks(b: Seq<u8>) -> Result<Seq<ChunkModel>, PngError>
    decreases b.len(),
{
    if b.len() == 0 {
        Ok(Seq::empty())
    } else if b.len() < 12 {
        Err(PngError::TruncatedFile)
    } else {
        let len = be32_val(b.subrange(0, 4)) as int;
        if 12 + len > b.len() {
            Err(PngError::TruncatedFile)
        } else {
            match spec_chunk_from_bytes(b.subrange(0, 12 + len)) {
                Err(e) => Err(e),
                Ok(m) => match spec_parse_chunks(b.skip(12 + len)) {
                    Err(e) => Err(e),
                    Ok(rest) => Ok(seq![m] + rest),
                },
            }
        }
    }
}

/// What parsing a whole buffer yields: the signature is checked first, and
/// the rest of the buffer is the chunk area.
pub open spec fn spec_parse_container(b: Seq<u8>) -> Result<Seq<ChunkModel>, PngError> {
    if b.len() < 8 || b.subrange(0, 8) != spec_signature() {
        Err(PngError::BadSignature)
    } else {
        spec_parse_chunks(b.skip(8))
    }
}

/// The byte layout of a sequence of chunks, each serialized in order.
pub open spec fn spec_chunks_bytes(ms: Seq<ChunkModel>) -> Seq<u8>
    decreases ms.len(),
{
    if ms.len() == 0 {
        Seq::empty()
    } else {
        spec_chunk_bytes(ms[0]) + spec_chunks_bytes(ms.drop_first())
    }
}

/// The byte layout of a whole container: signature, then every chunk.
pub open spec fn spec_serialize(ms: Seq<ChunkModel>) -> Seq<u8> {
    spec_signature() + spec_chunks_bytes(ms)
}

/// The position of the first chunk whose type is `t`, or the sequence's
/// length when no chunk has that type.
pub open spec fn first_idx(ms: Seq<ChunkModel>, t: Seq<u8>) -> int
    decreases ms.len(),
{
    if ms.len() == 0 {
        0
    } else if ms[0].t == t {
        0
    } else {
        1 + first_idx(ms.drop_first(), t)
    }
}

/// The first chunk whose type is `t`, when one is present.
pub open spec fn spec_find(ms: Seq<ChunkModel>, t: Seq<u8>) -> Option<ChunkModel> {
    if first_idx(ms, t) < ms.len() {
        Some(ms[first_idx(ms, t)])
    } else {
        None
    }
}

/// `first_idx` points at a match, and nothing before it matches.
pub proof fn lemma_first_idx(ms: Seq<ChunkModel>, t: Seq<u8>)
    ensures
        0 <= first_idx(ms, t) <= ms.len(),
        first_idx(ms, t) < ms.len() ==> ms[first_idx(ms, t)].t == t,
        forall|j: int| 0 <= j < first_idx(ms, t) ==> (#[trigger] ms[j]).t != t,
    decreases ms.len(),
{
    if ms.len() != 0 && ms[0].t != t {
        lemma_first_idx(ms.drop_first(), t);
        assert forall|j: int| 0 <= j < first_idx(ms, t) implies (#[trigger] ms[j]).t != t by {
            if j >= 1 {
                assert(ms[j] == ms.drop_first()[j - 1]);
            }
        }
    }
}

/// A position with a match, before which nothing matches, is `first_idx`;
/// so is the length when nothing matches at all.
pub proof fn lemma_first_idx_is(ms: Seq<ChunkModel>, t: Seq<u8>, i: int)
    requires
        0 <= i <= ms.len(),
        forall|j: int| 0 <= j < i ==> (#[trigger] ms[j]).t != t,
        i < ms.len() ==> ms[i].t == t,
        i == ms.len() ==> forall|j: int| 0 <= j < ms.len() ==> (#[trigger] ms[j]).t != t,
    ensures
        first_idx(ms, t) == i,
    decreases ms.len(),
{
    if ms.len() == 0 {
    } else if ms[0].t == t {
        assert(i == 0);
    } else {
        assert(i >= 1);
        let d = ms.drop_first();
        assert forall|j: int| 0 <= j < i - 1 implies (#[trigger] d[j]).t != t by {
            assert(d[j] == ms[j + 1]);
        }
        if i == ms.len() {
            assert forall|j: int| 0 <= j < d.len() implies (#[trigger] d[j]).t != t by {
                assert(d[j] == ms[j + 1]);
            }
        }
        lemma_first_idx_is(d, t, i - 1);
    }
}

/// The container: an ordered sequence of chunks behind a fixed signature.
///
/// Order is significant and mirrors the on-disk order; parsing and
/// serializing are exact inverses, and mutation is only appending to the
/// end or removing the first chunk of a type.
#[derive(Debug)]
pub struct Container {
    chunks: Vec<Chunk>,
}

impl View for Container {
    type V = Seq<ChunkModel>;

    closed spec fn view(&self) -> Seq<ChunkModel> {
        models(self.chunks@)
    }
}

impl Container {
    /// Every chunk held satisfies the chunk invariant.
    pub open spec fn wf(&self) -> bool {
        forall|i: int| 0 <= i < self@.len() ==> (#[trigger] self@[i]).wf()
    }

    /// Builds a container holding the given chunks in the given order.
    pub fn from_chunks(chunks: Vec<Chunk>) -> (r: Container)
        requires
            forall|i: int| 0 <= i < chunks@.len() ==> (#[trigger] chunks@[i]).wf(),
        ensures
            r@ == models(chunks@),
            r.wf(),
    {
        Container { chunks }
    }

    /// The chunks, in order.
    pub fn chunks(&self) -> (r: &Vec<Chunk>)
        ensures
            models(r@) == self@,
    {
        &self.chunks
    }

    /// Parses a whole buffer: the fixed signature, then chunk after chunk
    /// until the buffer ends, exactly as [`spec_parse_container`] lays out.
    /// All-or-nothing: any failure discards every chunk already parsed.
    pub fn parse(bytes: &[u8]) -> (r: Result<Container, PngError>)
        ensures
            match r {
                Ok(c) => c.wf() && spec_parse_container(bytes@) == Ok::<Seq<ChunkModel>,
                    PngError>(c@),
                Err(e) => spec_parse_container(bytes@) == Err::<Seq<ChunkModel>, PngError>(e),
            },
            bytes@.len() < 8 || bytes@.subrange(0, 8) != spec_signature() ==> r == Err::<
                Container, PngError>(PngError::BadSignature),
    {
        if bytes.len() < 8 {
            return Err(PngError::BadSignature);
        }
        if !(bytes[0] == 137 && bytes[1] == 80 && bytes[2] == 78 && bytes[3] == 71
            && bytes[4] == 13 && bytes[5] == 10 && bytes[6] == 26 && bytes[7] == 10) {
            proof {
                assert(bytes@.subrange(0, 8) != spec_signature()) by {
                    if bytes@.subrange(0, 8) == spec_signature() {
                        assert(bytes@[0] == spec_signature()[0]);
                        assert(bytes@[1] == spec_signature()[1]);
                        assert(bytes@[2] == spec_signature()[2]);
                        assert(bytes@[3] == spec_signature()[3]);
                        assert(bytes@[4] == spec_signature()[4]);
                        assert(bytes@[5] == spec_signature()[5]);
                        assert(bytes@[6] == spec_signature()[6]);
                        assert(bytes@[7] == spec_signature()[7]);
                    }
                }
            }
            return Err(PngError::BadSignature);
        }
        proof {
            assert(bytes@.subrange(0, 8) =~= spec_signature());
        }
        let n = bytes.len();
        let mut chunks: Vec<Chunk> = Vec::new();
        let mut cursor: usize = 8;
        while cursor < n
            invariant
                8 <= cursor <= n,
                n == bytes@.len(),
                forall|i: int| 0 <= i < chunks@.len() ==> (#[trigger] chunks@[i]).wf(),
                spec_parse_container(bytes@) == cont_ok(models(chunks@),
                    spec_parse_chunks(bytes@.skip(cursor as int))),
            decreases n - cursor,
        {
            let ghost tail = bytes@.skip(cursor as int);
            if n - cursor < 12 {
                return Err(PngError::TruncatedFile);
            }
            let declared = u32_from_be(bytes[cursor], bytes[cursor + 1], bytes[cursor + 2],
                bytes[cursor + 3]);
            proof {
                assert(seq![bytes@[cursor as int], bytes@[cursor + 1], bytes@[cursor + 2],
                    bytes@[cursor + 3]] =~= tail.subrange(0, 4));
            }
            let rem = n - cursor - 12;
            let clen = declared as usize;
            if clen > rem {
                return Err(PngError::TruncatedFile);
            }
            let chunk_slice = slice_subrange(bytes, cursor, cursor + 12 + clen);
            proof {
                assert(chunk_slice@ =~= tail.subrange(0, 12 + clen as int));
            }
            let c = match Chunk::try_from(chunk_slice) {
                Ok(c) => c,
                Err(e) => {
                    return Err(e);
                },
            };
            let ghost prev_chunks = chunks@;
            chunks.push(c);
            cursor = cursor + 12 + clen;
            proof {
                assert(models(chunks@) =~= models(prev_chunks).push(c@));
                assert(tail.skip(12 + clen as int) =~= bytes@.skip(cursor as int));
                assert(be32_val(tail.subrange(0, 4)) == declared);
                assert(spec_chunk_from_bytes(tail.subrange(0, 12 + clen as int))
                    == Ok::<ChunkModel, PngError>(c@));
                assert(spec_parse_chunks(tail) == (match spec_parse_chunks(
                    tail.skip(12 + clen as int)) {
                    Err(e) => Err::<Seq<ChunkModel>, PngError>(e),
                    Ok(rest) => Ok::<Seq<ChunkModel>, PngError>(seq![c@] + rest),
                }));
                match spec_parse_chunks(bytes@.skip(cursor as int)) {
                    Ok(rest) => {
                        assert(models(prev_chunks) + (seq![c@] + rest) =~= models(
                            prev_chunks).push(c@) + rest);
                    },
                    Err(_) => {},
                }
            }
        }
        proof {
            assert(bytes@.skip(cursor as int) =~= Seq::<u8>::empty());
            assert(models(chunks@) + Seq::<ChunkModel>::empty() =~= models(chunks@));
        }
        Ok(Container { chunks })
    }

    /// The container's exact byte layout: the signature, then every chunk's
    /// bytes in sequence order.
    pub fn serialize(&self) -> (r: Vec<u8>)
        requires
            self.wf(),
        ensures
            r@ == spec_serialize(self@),
    {
        let mut out: Vec<u8> = Vec::new();
        out.push(137);
        out.push(80);
        out.push(78);
        out.push(71);
        out.push(13);
        out.push(10);
        out.push(26);
        out.push(10);
        proof {
            assert(out@ =~= spec_signature());
            assert(self@.take(0) =~= Seq::<ChunkModel>::empty());
        }
        let mut i: usize = 0;
        while i < self.chunks.len()
            invariant
                i <= self.chunks@.len(),
                self.wf(),
                self@ == models(self.chunks@),
                out@ == spec_signature() + spec_chunks_bytes(self@.take(i as int)),
            decreases self.chunks@.len() - i,
        {
            proof {
                assert(models(self.chunks@)[i as int] == self.chunks@[i as int]@);
                assert(self@[i as int].wf());
            }
            let mut cb = self.chunks[i].as_bytes();
            out.append(&mut cb);
            proof {
                lemma_chunks_bytes_snoc(self@.take(i + 1));
                assert(self@.take(i + 1).drop_last() =~= self@.take(i as int));
                assert((spec_signature() + spec_chunks_bytes(self@.take(i as int)))
                    + spec_chunk_bytes(self@[i as int])
                    =~= spec_signature() + spec_chunks_bytes(self@.take(i + 1)));
            }
            i += 1;
        }
        proof {
            assert(self@.take(self@.len() as int) =~= self@);
        }
        out
    }

    /// Appends a chunk at the end; nothing else moves.
    pub fn append(&mut self, chunk: Chunk)
        ensures
            final(self)@ == old(self)@.push(chunk@),
    {
        self.chunks.push(chunk);
        proof {
            assert(models(self.chunks@) =~= models(old(self).chunks@).push(chunk@));
        }
    }

    /// The first chunk whose type code is `code`, scanning in order; absence
    /// is not an error.
    pub fn find_by_type(&self, code: &ChunkType) -> (r: Option<&Chunk>)
        ensures
            match r {
                Some(c) => spec_find(self@, code@) == Some(c@),
                None => spec_find(self@, code@) is None,
            },
    {
        let mut i: usize = 0;
        while i < self.chunks.len()
            invariant
                i <= self.chunks@.len(),
                self@ == models(self.chunks@),
                forall|j: int| 0 <= j < i ==> (#[trigger] self@[j]).t != code@,
            decreases self.chunks@.len() - i,
        {
            if self.chunks[i].chunk_type().same_code(code) {
                proof {
                    lemma_first_idx_is(self@, code@, i as int);
                }
                return Some(&self.chunks[i]);
            }
            i += 1;
        }
        proof {
            lemma_first_idx_is(self@, code@, self@.len() as int);
        }
        None
    }

    /// Removes and returns the first chunk whose type code is `code`,
    /// preserving the order of the rest; fails, changing nothing, when no
    /// chunk has that type.
    pub fn remove_first(&mut self, code: &ChunkType) -> (r: Result<Chunk, PngError>)
        ensures
            match r {
                Ok(c) => {
                    &&& spec_find(old(self)@, code@) == Some(c@)
                    &&& final(self)@ == old(self)@.remove(first_idx(old(self)@, code@))
                },
                Err(e) => {
                    &&& e == PngError::ChunkNotFound
                    &&& spec_find(old(self)@, code@) is None
                    &&& final(self)@ == old(self)@
                },
            },
    {
        let mut i: usize = 0;
        while i < self.chunks.len()
            invariant
                i <= self.chunks@.len(),
                self@ == old(self)@,
                self@ == models(self.chunks@),
                forall|j: int| 0 <= j < i ==> (#[trigger] self@[j]).t != code@,
            decreases self.chunks@.len() - i,
        {
            if self.chunks[i].chunk_type().same_code(code) {
                proof {
                    lemma_first_idx_is(self@, code@, i as int);
                }
                let c = self.chunks.remove(i);
                proof {
                    assert(models(self.chunks@) =~= models(old(self).chunks@).remove(i as int));
                }
                return Ok(c);
            }
            i += 1;
        }
        proof {
            lemma_first_idx_is(self@, code@, self@.len() as int);
        }
        Err(PngError::ChunkNotFound)
    }
}

/// What folds a parsed prefix into the result of parsing the remainder.
spec fn cont_ok(pre: Seq<ChunkModel>, r: Result<Seq<ChunkModel>, PngError>) -> Result<
    Seq<ChunkModel>,
    PngError,
> {
    match r {
        Ok(ms) => Ok(pre + ms),
        Err(e) => Err(e),
    }
}

/// The bytes of a chunk sequence end with the bytes of its last chunk.
proof fn lemma_chunks_bytes_snoc(ms: Seq<ChunkModel>)
    requires
        ms.len() > 0,
    ensures
        spec_chunks_bytes(ms) == spec_chunks_bytes(ms.drop_last()) + spec_chunk_bytes(
            ms.last()),
    decreases ms.len(),
{
    if ms.len() == 1 {
        assert(spec_chunks_bytes(Seq::<ChunkModel>::empty()) == Seq::<u8>::empty());
        assert(ms.drop_last() =~= Seq::<ChunkModel>::empty());
        assert(ms.drop_first() =~= Seq::<ChunkModel>::empty());
        assert(spec_chunk_bytes(ms[0]) + Seq::<u8>::empty() =~= Seq::<u8>::empty()
            + spec_chunk_bytes(ms.last()));
    } else {
        let d = ms.drop_first();
        lemma_chunks_bytes_snoc(d);
        assert(d.drop_last() =~= ms.drop_last().drop_first());
        assert(spec_chunk_bytes(ms[0]) + (spec_chunks_bytes(d.drop_last()) + spec_chunk_bytes(
            ms.last())) =~= (spec_chunk_bytes(ms[0]) + spec_chunks_bytes(
            ms.drop_last().drop_first())) + spec_chunk_bytes(ms.last()));
    }
}

/// Parsing the bytes of well-formed chunks yields those chunks back.
proof fn lemma_parse_chunks_of_bytes(ms: Seq<ChunkModel>)
    requires
        forall|i: int| 0 <= i < ms.len() ==> (#[trigger] ms[i]).wf(),
    ensures
        spec_parse_chunks(spec_chunks_bytes(ms)) == Ok::<Seq<ChunkModel>, PngError>(ms),
    decreases ms.len(),
{
    if ms.len() == 0 {
        assert(ms =~= Seq::<ChunkModel>::empty());
    } else {
        let m = ms[0];
        let b = spec_chunks_bytes(ms);
        let cb = spec_chunk_bytes(m);
        let rest = spec_chunks_bytes(ms.drop_first());
        let len = m.p.len() as int;
        lemma_chunk_bytes_header(m);
        assert(b == cb + rest);
        assert(b.subrange(0, 4) =~= cb.subrange(0, 4));
        assert(b.subrange(0, 12 + len) =~= cb);
        lemma_chunk_round_trip(m);
        assert(b.skip(12 + len) =~= rest);
        lemma_parse_chunks_of_bytes(ms.drop_first());
        assert(seq![m] + ms.drop_first() =~= ms);
        assert(b.len() >= 12 + len);
        assert(be32_val(b.subrange(0, 4)) == m.p.len());
        assert(spec_chunk_from_bytes(b.subrange(0, 12 + len)) == Ok::<ChunkModel, PngError>(m));
        assert(spec_parse_chunks(b.skip(12 + len)) == Ok::<Seq<ChunkModel>, PngError>(
            ms.drop_first()));
        assert(spec_parse_chunks(b) == Ok::<Seq<ChunkModel>, PngError>(seq![m]
            + ms.drop_first()));
    }
}

/// Container round trip: parsing the serialization of any well-formed chunk
/// sequence succeeds and yields exactly that sequence.
pub proof fn lemma_container_round_trip(ms: Seq<ChunkModel>)
    requires
        forall|i: int| 0 <= i < ms.len() ==> (#[trigger] ms[i]).wf(),
    ensures
        spec_parse_container(spec_serialize(ms)) == Ok::<Seq<ChunkModel>, PngError>(ms),
{
    let b = spec_serialize(ms);
    assert(b.subrange(0, 8) =~= spec_signature());
    assert(b.skip(8) =~= spec_chunks_bytes(ms));
    lemma_parse_chunks_of_bytes(ms);
}

/// The bytes of chunks parsed out of a buffer are that buffer, and each
/// parsed chunk is well formed.
proof fn lemma_chunks_bytes_exact(b: Seq<u8>, ms: Seq<ChunkModel>)
    requires
        spec_parse_chunks(b) == Ok::<Seq<ChunkModel>, PngError>(ms),
    ensures
        spec_chunks_bytes(ms) == b,
        forall|i: int| 0 <= i < ms.len() ==> (#[trigger] ms[i]).wf(),
    decreases b.len(),
{
    if b.len() == 0 {
        assert(spec_chunks_bytes(ms) =~= b);
    } else {
        let len = be32_val(b.subrange(0, 4)) as int;
        let sub = b.subrange(0, 12 + len);
        let m = spec_chunk_from_bytes(sub)->Ok_0;
        let rest = spec_parse_chunks(b.skip(12 + len))->Ok_0;
        lemma_chunk_bytes_exact(sub, m);
        lemma_chunks_bytes_exact(b.skip(12 + len), rest);
        assert(ms == seq![m] + rest);
        assert(ms.drop_first() =~= rest);
        assert(spec_chunks_bytes(ms) == sub + b.skip(12 + len));
        assert(sub + b.skip(12 + len) =~= b) by {
            assert forall|i: int| 0 <= i < b.len() implies (sub + b.skip(12 + len))[i] == b[i]
                by {}
        }
        assert forall|i: int| 0 <= i < ms.len() implies (#[trigger] ms[i]).wf() by {
            if i >= 1 {
                assert(ms[i] == rest[i - 1]);
            }
        }
    }
}

/// A buffer that parses is reproduced exactly by serializing what was
/// parsed: the decode-then-encode round trip is the identity on valid
/// buffers.
pub proof fn lemma_serialize_exact(b: Seq<u8>, ms: Seq<ChunkModel>)
    requires
        spec_parse_container(b) == Ok::<Seq<ChunkModel>, PngError>(ms),
    ensures
        spec_serialize(ms) == b,
        forall|i: int| 0 <= i < ms.len() ==> (#[trigger] ms[i]).wf(),
{
    lemma_chunks_bytes_exact(b.skip(8), ms);
    assert(spec_signature() + b.skip(8) =~= b) by {
        assert forall|i: int| 0 <= i < b.len() implies (spec_signature() + b.skip(8))[i] == b[i]
            by {
            if i < 8 {
                assert(b.subrange(0, 8)[i] == b[i]);
            }
        }
    }
}

/// Appending a chunk and then looking its type up finds the appended chunk
/// when no earlier chunk has that type, and the earlier first match
/// otherwise.
pub proof fn lemma_append_then_find(ms: Seq<ChunkModel>, c: ChunkModel)
    ensures
        spec_find(ms.push(c), c.t) == (if spec_find(ms, c.t) is Some {
            spec_find(ms, c.t)
        } else {
            Some(c)
        }),
{
    lemma_first_idx(ms, c.t);
    let i = first_idx(ms, c.t);
    if i < ms.len() {
        lemma_first_idx_is(ms.push(c), c.t, i);
    } else {
        lemma_first_idx_is(ms.push(c), c.t, ms.len() as int);
    }
}

/// Removing the first chunk of a type and looking that type up again finds
/// what used to be the next match after the removed chunk — none when the
/// removed chunk was the only one of its type.
pub proof fn lemma_remove_then_find(ms: Seq<ChunkModel>, t: Seq<u8>)
    requires
        spec_find(ms, t) is Some,
    ensures
        spec_find(ms.remove(first_idx(ms, t)), t) == spec_find(ms.skip(first_idx(ms, t) + 1), t),
{
    let i = first_idx(ms, t);
    lemma_first_idx(ms, t);
    let r = ms.remove(i);
    let s = ms.skip(i + 1);
    lemma_first_idx(s, t);
    let fi = first_idx(s, t);
    if fi < s.len() {
        assert forall|j: int| 0 <= j < i + fi implies (#[trigger] r[j]).t != t by {
            if j >= i {
                assert(r[j] == s[j - i]);
            }
        }
        assert(r[i + fi] == s[fi]);
        lemma_first_idx_is(r, t, i + fi);
    } else {
        assert forall|j: int| 0 <= j < r.len() implies (#[trigger] r[j]).t != t by {
            if j >= i {
                assert(r[j] == s[j - i]);
            }
        }
        lemma_first_idx_is(r, t, r.len() as int);
    }
}

} // verus!
