use vstd::prelude::*;

verus! {

use crate::errors::PngError;
use crate::text::{ascii_chars, all_ascii, lemma_ascii_decode, utf8_to_string};
use vstd::string::StringSliceAdditionalSpecFns;

/// True for a lowercase ASCII letter.
pub open spec fn is_lower(b: u8) -> bool {
    97 <= b <= 122
}

/// True for an uppercase ASCII letter.
pub open spec fn is_upper(b: u8) -> bool {
    65 <= b <= 90
}

/// True for an ASCII letter of either case.
pub open spec fn is_letter(b: u8) -> bool {
    is_lower(b) || is_upper(b)
}

/// True when every byte of the sequence is an ASCII letter.
pub open spec fn all_letters(s: Seq<u8>) -> bool {
    forall|i: int| 0 <= i < s.len() ==> is_letter(#[trigger] s[i])
}

/// What reading a type code out of raw bytes yields: the bytes themselves
/// when they form a code, or the error that rejects them.
pub open spec fn spec_code_from(bytes: Seq<u8>) -> Result<Seq<u8>, PngError> {
    if bytes.len() != 4 {
        Err(PngError::InvalidLength)
    } else if all_letters(bytes) {
        Ok(bytes)
    } else {
        Err(PngError::InvalidTypeCode)
    }
}

/// A four-byte chunk type identifier.
///
/// Each byte is an ASCII letter; the case of each position carries one
/// boolean property of the chunk. A code whose third byte is lowercase is
/// still constructed, and only flagged by [`ChunkType::is_valid`].
#[derive(Debug, PartialEq, Eq, Clone, Copy)]
pub struct ChunkType {
    code: [u8; 4],
}

impl View for ChunkType {
    type V = Seq<u8>;

    closed spec fn view(&self) -> Seq<u8> {
        self.code@
    }
}

impl ChunkType {
    /// The code is four bytes, each an ASCII letter; constructors establish
    /// this.
    pub open spec fn wf(&self) -> bool {
        self@.len() == 4 && all_letters(self@)
    }

    /// Builds a type code from four raw bytes; each must be an ASCII letter.
    pub fn try_from(input: [u8; 4]) -> (r: Result<ChunkType, PngError>)
        ensures
            r matches Ok(t) ==> t@ == input@ && t.wf(),
            r is Ok <==> all_letters(input@),
            !all_letters(input@) ==> r == Err::<ChunkType, PngError>(PngError::InvalidTypeCode),
    {
        let mut i: usize = 0;
        while i < 4
            invariant
                i <= 4,
                forall|j: int| 0 <= j < i ==> is_letter(#[trigger] input@[j]),
            decreases 4 - i,
        {
            let b = input[i];
            if !((b >= 65 && b <= 90) || (b >= 97 && b <= 122)) {
                return Err(PngError::InvalidTypeCode);
            }
            i += 1;
        }
        Ok(ChunkType { code: input })
    }

    /// Builds a type code from text, which must be exactly four letter bytes.
    pub fn from_str(s: &str) -> (r: Result<ChunkType, PngError>)
        ensures
            match spec_code_from(s.spec_bytes()) {
                Ok(code) => r matches Ok(t) && t@ == code && t.wf(),
                Err(e) => r == Err::<ChunkType, PngError>(e),
            },
    {
        let bytes: &[u8] = s.as_bytes();
        if bytes.len() != 4 {
            return Err(PngError::InvalidLength);
        }
        let arr: [u8; 4] = [bytes[0], bytes[1], bytes[2], bytes[3]];
        proof {
            assert(arr@ =~= s.spec_bytes());
        }
        ChunkType::try_from(arr)
    }

    /// The raw bytes of the code.
    pub fn bytes(&self) -> (r: [u8; 4])
        ensures
            r@ == self@,
    {
        self.code
    }

    /// True when all four bytes are letters and the reserved position
    /// (third byte) is uppercase, as a conforming code requires.
    pub fn is_valid(&self) -> (r: bool)
        ensures
            r == (all_letters(self@) && is_upper(self@[2])),
    {
        let mut i: usize = 0;
        while i < 4
            invariant
                i <= 4,
                forall|j: int| 0 <= j < i ==> is_letter(#[trigger] self@[j]),
            decreases 4 - i,
        {
            let b = self.code[i];
            if !((b >= 65 && b <= 90) || (b >= 97 && b <= 122)) {
                return false;
            }
            i += 1;
        }
        self.code[2] >= 65 && self.code[2] <= 90
    }

    /// True when the first byte is uppercase: the chunk is critical rather
    /// than ancillary.
    pub fn is_critical(&self) -> (r: bool)
        ensures
            r == is_upper(self@[0]),
    {
        self.code[0] >= 65 && self.code[0] <= 90
    }

    /// True when the second byte is uppercase: the chunk is public rather
    /// than private.
    pub fn is_public(&self) -> (r: bool)
        ensures
            r == is_upper(self@[1]),
    {
        self.code[1] >= 65 && self.code[1] <= 90
    }

    /// True when the third byte is uppercase, as the reserved position of a
    /// conforming code must be.
    pub fn is_reserved_bit_valid(&self) -> (r: bool)
        ensures
            r == is_upper(self@[2]),
    {
        self.code[2] >= 65 && self.code[2] <= 90
    }

    /// True when the fourth byte is lowercase: the chunk is safe to copy.
    pub fn is_safe_to_copy(&self) -> (r: bool)
        ensures
            r == is_lower(self@[3]),
    {
        self.code[3] >= 97 && self.code[3] <= 122
    }

    /// True when this code and the other hold the same four bytes.
    pub fn same_code(&self, other: &ChunkType) -> (r: bool)
        ensures
            r == (self@ == other@),
    {
        let r = self.code[0] == other.code[0] && self.code[1] == other.code[1]
            && self.code[2] == other.code[2] && self.code[3] == other.code[3];
        proof {
            if r {
                assert(self@ =~= other@);
            }
        }
        r
    }

    /// The code as text, one character per byte.
    pub fn to_text(&self) -> (r: String)
        requires
            self.wf(),
        ensures
            r@ == ascii_chars(self@),
    {
        proof {
            assert(all_ascii(self@));
            lemma_ascii_decode(self@);
        }
        let s: &[u8] = self.code.as_slice();
        match utf8_to_string(s) {
            Some(t) => t,
            None => {
                proof {
                    assert(false);
                }
                String::new()
            },
        }
    }
}

} // verus!
