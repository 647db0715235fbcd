use vstd::prelude::*;

use crate::error::{AppError, ErrorKind};

verus! {

/// The SHA-256 digest of a byte sequence, as the crypto library computes it.
pub uninterp spec fn sha256_of(bytes: Seq<u8>) -> Seq<u8>;

#[verifier::external_type_specification]
#[verifier::external_body]
pub struct ExDigestContext(ring::digest::Context);

/// The lowercase hex digit character for a value in `0 ..= 15`.
pub open spec fn hex_digit(d: int) -> char {
    if d < 10 {
        crate::digits::digit_char(d)
    } else if d == 10 {
        'a'
    } else if d == 11 {
        'b'
    } else if d == 12 {
        'c'
    } else if d == 13 {
        'd'
    } else if d == 14 {
        'e'
    } else {
        'f'
    }
}

/// Lowercase hexadecimal encoding: two digits for each byte, high nibble
/// first.
pub open spec fn hex_of(bytes: Seq<u8>) -> Seq<char>
    decreases bytes.len(),
{
    if bytes.len() == 0 {
        Seq::<char>::empty()
    } else {
        hex_of(bytes.drop_last()) + seq![
            hex_digit(bytes.last() as int / 16),
            hex_digit(bytes.last() as int % 16),
        ]
    }
}

pub proof fn lemma_hex_of_len(bytes: Seq<u8>)
    ensures
        hex_of(bytes).len() == 2 * bytes.len(),
    decreases bytes.len(),
{
    if bytes.len() > 0 {
        lemma_hex_of_len(bytes.drop_last());
    }
}

/// Relies on `data_encoding::HEXLOWER.encode`: lowercase base-16 encoding of
/// the input bytes, two digits per byte, high nibble first. The length bound
/// keeps the encoder's output-length computation panic-free.
#[verifier::external_body]
fn hex_lower(bytes: &[u8]) -> (r: String)
    requires
        bytes@.len() <= usize::MAX / 512,
    ensures
        r@ == hex_of(bytes@),
{
    data_encoding::HEXLOWER.encode(bytes)
}

/// A streaming SHA-256 accumulator: file content is fed in bounded chunks,
/// so that a file is never loaded into memory whole. The ghost view records
/// every byte fed so far.
pub struct Sha256 {
    ctx: ring::digest::Context,
    fed: Ghost<Seq<u8>>,
}

impl Sha256 {
    /// All bytes absorbed so far.
    pub closed spec fn bytes(&self) -> Seq<u8> {
        self.fed@
    }

    /// Relies on `ring::digest::Context::new` with the SHA-256 algorithm:
    /// a fresh context has absorbed nothing.
    #[verifier::external_body]
    pub fn new() -> (r: Sha256)
        ensures
            r.bytes() == Seq::<u8>::empty(),
    {
        Sha256 {
            ctx: ring::digest::Context::new(&ring::digest::SHA256),
            fed: Ghost(Seq::empty()),
        }
    }

    /// Relies on `ring::digest::Context::update`: absorbs `data` after
    /// everything absorbed before. The length bound keeps the final digest
    /// computation below the SHA-256 input limit, where the library would
    /// panic.
    #[verifier::external_body]
    pub fn update(&mut self, data: &[u8])
        requires
            old(self).bytes().len() + data@.len() < 0x2000000000000000,
        ensures
            final(self).bytes() == old(self).bytes() + data@,
    {
        self.ctx.update(data);
    }

    /// Relies on `ring::digest::Context::finish`: the digest of all absorbed
    /// bytes, which for SHA-256 is 32 bytes long.
    #[verifier::external_body]
    pub fn finish(self) -> (r: Vec<u8>)
        requires
            self.bytes().len() < 0x2000000000000000,
        ensures
            r@ == sha256_of(self.bytes()),
            r@.len() == 32,
    {
        self.ctx.finish().as_ref().to_vec()
    }

    /// Finish the digest and render it as lowercase hexadecimal.
    pub fn finish_hex(self) -> (r: String)
        requires
            self.bytes().len() < 0x2000000000000000,
        ensures
            r@ == hex_of(sha256_of(self.bytes())),
            r@.len() == 64,
    {
        let digest = self.finish();
        proof {
            lemma_hex_of_len(digest@);
        }
        hex_lower(digest.as_slice())
    }
}

/// The hex fingerprint of one in-memory buffer, fed through the streaming
/// accumulator in one chunk.
pub fn digest_hex(data: &[u8]) -> (r: String)
    requires
        data@.len() < 0x2000000000000000,
    ensures
        r@ == hex_of(sha256_of(data@)),
        r@.len() == 64,
{
    let mut h = Sha256::new();
    h.update(data);
    proof {
        assert(h.bytes() =~= data@);
    }
    h.finish_hex()
}

/// The content fingerprint of one file: its path and the lowercase hex
/// SHA-256 digest of its full byte content.
#[derive(Debug)]
pub struct FileHashResult {
    pub path: String,
    pub hash: String,
}

/// Decide from a stat result whether a path may be hashed: only a regular
/// file qualifies; anything else - a missing path, a directory - is refused
/// with `NotAFile`, never a panic.
pub fn check_regular_file(is_regular_file: bool) -> (r: Result<(), AppError>)
    ensures
        match r {
            Ok(()) => is_regular_file,
            Err(e) => !is_regular_file && e.kind == ErrorKind::NotAFile && e.message@
                == "Not a file"@,
        },
{
    if is_regular_file {
        Ok(())
    } else {
        Err(AppError::with_kind(ErrorKind::NotAFile, "Not a file"))
    }
}

/// Law: the content fingerprint is a function of content alone. Two files
/// whose bytes are identical get the same digest text, whatever their paths
/// or the chunking in which their bytes were fed.
pub proof fn lemma_digest_content_only(b1: Seq<u8>, b2: Seq<u8>)
    requires
        b1 == b2,
    ensures
        hex_of(sha256_of(b1)) == hex_of(sha256_of(b2)),
{
}

} // verus!
