use pngme::chunk::Chunk;
use pngme::chunk_type::ChunkType;
use pngme::errors::PngError;
use pngme::png::Container;

const SIGNATURE: [u8; 8] = [137, 80, 78, 71, 13, 10, 26, 10];

fn chunk(type_code: &str, payload: &[u8]) -> Chunk {
    let ct = ChunkType::from_str(type_code).unwrap();
    Chunk::new(ct, payload.to_vec())
}

fn buffer_with(chunks: Vec<Chunk>) -> Vec<u8> {
    Container::from_chunks(chunks).serialize()
}

#[test]
fn test_parse_empty_container() {
    let c = Container::parse(&SIGNATURE).unwrap();
    assert_eq!(c.chunks().len(), 0);
    assert_eq!(c.serialize(), SIGNATURE.to_vec());
}

#[test]
fn test_container_round_trip() {
    // Container round trip: parsing a serialized container yields a
    // logically equal container.
    let buffer = buffer_with(vec![
        chunk("FrSt", b"first payload"),
        chunk("miDl", b""),
        chunk("LaSt", b"the last one"),
    ]);
    let parsed = Container::parse(&buffer).unwrap();
    assert_eq!(parsed.chunks().len(), 3);
    assert_eq!(parsed.chunks()[0].data(), b"first payload");
    assert_eq!(parsed.chunks()[1].data(), b"");
    assert_eq!(parsed.chunks()[2].chunk_type().bytes(), *b"LaSt");
    // Reserializing reproduces the original bytes exactly.
    assert_eq!(parsed.serialize(), buffer);
}

#[test]
fn test_bad_signature() {
    // A wrong first byte fails regardless of the remaining content.
    let mut buffer = buffer_with(vec![chunk("ruSt", b"hello")]);
    buffer[0] ^= 0x01;
    assert_eq!(Container::parse(&buffer).unwrap_err(), PngError::BadSignature);
    // A buffer shorter than the signature fails the same way.
    assert_eq!(Container::parse(&[137, 80]).unwrap_err(), PngError::BadSignature);
}

#[test]
fn test_truncated_file() {
    let mut buffer = buffer_with(vec![chunk("ruSt", b"hello")]);
    // Cutting the last byte leaves a partial chunk.
    buffer.pop();
    assert_eq!(Container::parse(&buffer).unwrap_err(), PngError::TruncatedFile);
    // Fewer than twelve bytes after the signature cannot frame a chunk.
    let mut short = SIGNATURE.to_vec();
    short.extend_from_slice(&[0, 0, 0, 0, 82]);
    assert_eq!(Container::parse(&short).unwrap_err(), PngError::TruncatedFile);
}

#[test]
fn test_flip_in_type_or_payload_fails_checksum() {
    // Flipping a byte in the type region (keeping it a letter) or any byte
    // of the payload region must fail with a checksum mismatch.
    let payload = b"payload under test";
    let buffer = buffer_with(vec![chunk("ruSt", payload)]);
    for i in 12..(16 + payload.len()) {
        let mut corrupted = buffer.clone();
        if i < 16 {
            // Type region: flip the case bit, which keeps the byte a letter.
            corrupted[i] ^= 0x20;
        } else {
            corrupted[i] ^= 0xFF;
        }
        assert_eq!(
            Container::parse(&corrupted).unwrap_err(),
            PngError::ChecksumMismatch,
            "flip at offset {} not caught",
            i
        );
    }
}

#[test]
fn test_secret_message_scenario() {
    // A container holding exactly one chunk with the secret payload parses,
    // and looking the type up hands the payload back as text.
    let code = "ruSt";
    let message = "This is where your secret message will be!";
    let buffer = buffer_with(vec![chunk(code, message.as_bytes())]);
    let parsed = Container::parse(&buffer).unwrap();
    let ct = ChunkType::from_str(code).unwrap();
    let found = parsed.find_by_type(&ct).unwrap();
    assert_eq!(found.data_as_string().unwrap(), message);
}

#[test]
fn test_checksum_field_flip_fails() {
    // The same buffer with any single checksum byte altered fails with a
    // checksum mismatch.
    let message = "This is where your secret message will be!";
    let buffer = buffer_with(vec![chunk("ruSt", message.as_bytes())]);
    let n = buffer.len();
    for i in (n - 4)..n {
        let mut corrupted = buffer.clone();
        corrupted[i] = corrupted[i].wrapping_add(1);
        assert_eq!(
            Container::parse(&corrupted).unwrap_err(),
            PngError::ChecksumMismatch,
            "flip at offset {} not caught",
            i
        );
    }
}

#[test]
fn test_append_then_find() {
    let mut container = Container::parse(&SIGNATURE).unwrap();
    let c = chunk("ruSt", b"appended");
    let ct = ChunkType::from_str("ruSt").unwrap();
    assert!(container.find_by_type(&ct).is_none());
    container.append(c);
    let found = container.find_by_type(&ct).unwrap();
    assert_eq!(found.data(), b"appended");
    assert_eq!(found.chunk_type().bytes(), *b"ruSt");
}

#[test]
fn test_remove_then_find_with_duplicates() {
    // Duplicates are permitted and never deduplicated: removing the first
    // match leaves the next one findable.
    let mut container = Container::from_chunks(vec![
        chunk("dupE", b"one"),
        chunk("othR", b"other"),
        chunk("dupE", b"two"),
    ]);
    let ct = ChunkType::from_str("dupE").unwrap();
    let removed = container.remove_first(&ct).unwrap();
    assert_eq!(removed.data(), b"one");
    let next = container.find_by_type(&ct).unwrap();
    assert_eq!(next.data(), b"two");
    // Removing the remaining match leaves none.
    let removed = container.remove_first(&ct).unwrap();
    assert_eq!(removed.data(), b"two");
    assert!(container.find_by_type(&ct).is_none());
    // The other chunk was never disturbed.
    assert_eq!(container.chunks().len(), 1);
    assert_eq!(container.chunks()[0].data(), b"other");
}

#[test]
fn test_remove_missing_chunk_fails_unchanged() {
    // Removing a type that is absent fails and leaves the sequence as it was.
    let mut container = Container::from_chunks(vec![chunk("ruSt", b"stays")]);
    let before = container.serialize();
    let ct = ChunkType::from_str("noNe").unwrap();
    assert_eq!(container.remove_first(&ct).unwrap_err(), PngError::ChunkNotFound);
    assert_eq!(container.serialize(), before);
}

#[test]
fn test_error_descriptions() {
    assert!(!PngError::BadSignature.describe().is_empty());
    assert!(!PngError::ChecksumMismatch.describe().is_empty());
    assert!(!PngError::ChunkNotFound.describe().is_empty());
}
