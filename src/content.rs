//! Content verification: the SHA-256 digest of an artifact's bytes, streamed in
//! chunks, compared with the digest that the manifest claims.

use vstd::prelude::*;
use sha2::Digest as _;
use crate::text::same_text;
use crate::json::digit_char;

verus! {

/// The bytes that a [`ContentHasher`] has absorbed, in order.
pub uninterp spec fn hashed_bytes(h: ContentHasher) -> Seq<u8>;

/// The SHA-256 digest of `data`.
pub uninterp spec fn sha256_of(data: Seq<u8>) -> Seq<u8>;

/// A SHA-256 computation over bytes handed in piece by piece, so that a large
/// file never has to be held in memory.
#[verifier::external_body]
pub struct ContentHasher {
    hasher: sha2::Sha256,
}

/// Relies on `sha2::Sha256::new`: a hasher that has absorbed nothing.
#[verifier::external_body]
fn sha256_start() -> (r: ContentHasher)
    ensures
        hashed_bytes(r) == Seq::<u8>::empty(),
{
    ContentHasher { hasher: sha2::Sha256::new() }
}

/// Relies on `sha2::Digest::update`: absorbs `chunk` after what came before.
#[verifier::external_body]
fn sha256_absorb(h: &mut ContentHasher, chunk: &[u8])
    ensures
        hashed_bytes(*final(h)) == hashed_bytes(*old(h)) + chunk@,
{
    h.hasher.update(chunk);
}

/// Relies on `sha2::Digest::finalize`: the 32-byte digest of all absorbed bytes.
#[verifier::external_body]
fn sha256_finish(h: ContentHasher) -> (r: Vec<u8>)
    ensures
        r@ == sha256_of(hashed_bytes(h)),
        r@.len() == 32,
{
    h.hasher.finalize().to_vec()
}

impl ContentHasher {
    /// A hasher that has absorbed nothing.
    pub fn new() -> (r: ContentHasher)
        ensures
            hashed_bytes(r) == Seq::<u8>::empty(),
    {
        sha256_start()
    }

    /// Absorbs `chunk` after the bytes handed in before.
    pub fn update(&mut self, chunk: &[u8])
        ensures
            hashed_bytes(*final(self)) == hashed_bytes(*old(self)) + chunk@,
    {
        sha256_absorb(self, chunk);
    }

    /// The digest of every byte handed in.
    pub fn finish(self) -> (r: Vec<u8>)
        ensures
            r@ == sha256_of(hashed_bytes(self)),
            r@.len() == 32,
    {
        sha256_finish(self)
    }
}

/// Lower-case hexadecimal text of `b`, two digits per byte.
pub open spec fn hex_lower(b: Seq<u8>) -> Seq<char> {
    Seq::new(2 * b.len(), |i: int| if i % 2 == 0 { digit_char((b[i / 2] / 16) as nat) } else { digit_char((b[i / 2] % 16) as nat) })
}

/// Relies on `hex::encode`: two lower-case digits per byte.
#[verifier::external_body]
fn to_hex(b: &[u8]) -> (r: String)
    ensures
        r@ == hex_lower(b@),
{
    hex::encode(b)
}

/// The result of checking one artifact's content.
pub struct ContentCheck {
    /// The observed digest equals the claimed one.
    pub verified: bool,
    /// The observed digest in lower-case hexadecimal, when the file could be read.
    pub observed_digest: Option<String>,
}

/// Compares the digest observed for an artifact (`None` when its file could not
/// be read) with the claimed digest text, exactly and case-sensitively.
pub fn check_digest(claimed: &str, observed: Option<Vec<u8>>) -> (r: ContentCheck)
    ensures
        match observed {
            None => !r.verified && r.observed_digest is None,
            Some(d) => {
                &&& r.observed_digest is Some
                &&& r.observed_digest->0@ == hex_lower(d@)
                &&& r.observed_digest->0@.len() == 2 * d@.len()
                &&& r.verified == (hex_lower(d@) == claimed@)
            },
        },
{
    match observed {
        None => ContentCheck { verified: false, observed_digest: None },
        Some(d) => {
            let h = to_hex(d.as_slice());
            let ok = same_text(h.as_str(), claimed);
            ContentCheck { verified: ok, observed_digest: Some(h) }
        },
    }
}

/// Verifies one artifact's content: `streamed` holds its file's bytes, or is
/// `None` when the file could not be read to the end.
pub fn check_content(claimed: &str, streamed: Option<ContentHasher>) -> (r: ContentCheck)
    ensures
        match streamed {
            None => !r.verified && r.observed_digest is None,
            Some(h) => {
                &&& r.observed_digest is Some
                &&& r.observed_digest->0@ == hex_lower(sha256_of(hashed_bytes(h)))
                &&& r.observed_digest->0@.len() == 64
                &&& r.verified == (hex_lower(sha256_of(hashed_bytes(h))) == claimed@)
            },
        },
{
    match streamed {
        None => check_digest(claimed, None),
        Some(h) => check_digest(claimed, Some(h.finish())),
    }
}

} // verus!
