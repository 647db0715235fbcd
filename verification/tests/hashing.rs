use media_index::error::ErrorKind;
use media_index::hash::{check_regular_file, digest_hex, FileHashResult, Sha256};

fn hex_of_chunks(chunks: &[&[u8]]) -> String {
    let mut h = Sha256::new();
    for c in chunks {
        h.update(c);
    }
    h.finish_hex()
}

#[test]
fn digest_known_vectors() {
    assert_eq!(
        hex_of_chunks(&[]),
        "e3b0c44298fc1c149afbf4c8996fb92427ae41e4649b934ca495991b7852b855"
    );
    assert_eq!(
        hex_of_chunks(&[b"abc"]),
        "ba7816bf8f01cfea414140de5dae2223b00361a396177a9cb410ff61f20015ad"
    );
}

#[test]
fn digest_depends_on_content_alone() {
    // The same bytes, fed in different chunkings as if read from two files
    // at different paths, give the same digest.
    let one = hex_of_chunks(&[b"hello ", b"world"]);
    let other = hex_of_chunks(&[b"hel", b"lo w", b"orld"]);
    assert_eq!(one, other);
    assert_eq!(one, digest_hex(b"hello world"));
}

#[test]
fn digest_changes_on_single_byte_mutation() {
    let one = hex_of_chunks(&[b"hello world"]);
    let other = hex_of_chunks(&[b"hello worle"]);
    assert_ne!(one, other);
}

#[test]
fn non_regular_path_is_refused() {
    let e = check_regular_file(false).unwrap_err();
    assert_eq!(e.kind, ErrorKind::NotAFile);
    assert_eq!(e.message, "Not a file");
    assert!(check_regular_file(true).is_ok());
}

#[test]
fn hash_result_carries_path_and_digest() {
    let r = FileHashResult { path: String::from("/tmp/x"), hash: hex_of_chunks(&[b"abc"]) };
    assert_eq!(r.path, "/tmp/x");
    assert_eq!(r.hash.len(), 64);
}
