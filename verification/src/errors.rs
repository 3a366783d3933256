use vstd::prelude::*;

verus! {

/// The closed set of failures the codec can report.
///
/// Every parse-time failure is fatal to the call that raised it: no partial
/// result is ever handed back alongside one of these.
#[derive(Clone, Copy, Debug, PartialEq, Eq, Structural)]
pub enum PngError {
    /// The first eight bytes of the buffer are not the fixed signature.
    BadSignature,
    /// A type-code text was not exactly four bytes long.
    InvalidLength,
    /// A type-code byte was not an ASCII letter.
    InvalidTypeCode,
    /// A chunk buffer's declared length does not match its actual size.
    MalformedChunk,
    /// The bytes after the signature do not split into whole chunks.
    TruncatedFile,
    /// A chunk's stored checksum differs from the one computed over its
    /// type and payload bytes.
    ChecksumMismatch,
    /// No chunk of the requested type is present.
    ChunkNotFound,
    /// A payload is not valid UTF-8.
    InvalidText,
}

impl PngError {
    /// A short, fixed description of the failure.
    pub fn describe(&self) -> (r: &'static str)
        ensures r@.len() > 0,
    {
        let s = match self {
            PngError::BadSignature => "bad signature",
            PngError::InvalidLength => "type code is not four bytes",
            PngError::InvalidTypeCode => "type code byte is not a letter",
            PngError::MalformedChunk => "chunk length does not match its size",
            PngError::TruncatedFile => "buffer does not split into whole chunks",
            PngError::ChecksumMismatch => "checksum mismatch",
            PngError::ChunkNotFound => "no chunk of that type",
            PngError::InvalidText => "payload is not valid text",
        };
        proof {
            reveal_strlit("bad signature");
            reveal_strlit("type code is not four bytes");
            reveal_strlit("type code byte is not a letter");
            reveal_strlit("chunk length does not match its size");
            reveal_strlit("buffer does not split into whole chunks");
            reveal_strlit("checksum mismatch");
            reveal_strlit("no chunk of that type");
            reveal_strlit("payload is not valid text");
        }
        s
    }
}

} // verus!
