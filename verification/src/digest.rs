//! SHA-256 over content that arrives in pieces.

use vstd::prelude::*;

verus! {

/// Content of this many bytes or more has no SHA-256 digest: its length in bits
/// does not fit 64 bits.
pub const CONTENT_LIMIT: u64 = 0x2000_0000_0000_0000;

/// Trusted: a running `sha2::Sha256`, kept opaque. The bytes that it has taken in
/// are given by [`absorbed`].
#[verifier::external_body]
pub struct Sha256 {
    inner: sha2::Sha256,
}

/// The bytes that a hasher has taken in, in order.
pub uninterp spec fn absorbed(hasher: Sha256) -> Seq<u8>;

/// The SHA-256 digest of a byte sequence.
pub uninterp spec fn sha256(bytes: Seq<u8>) -> Seq<u8>;

/// Trusted: `sha2::Digest::new` for SHA-256 gives a hasher that has taken in
/// nothing.
#[verifier::external_body]
fn sha256_new() -> (hasher: Sha256)
    ensures
        absorbed(hasher) == Seq::<u8>::empty(),
{
    Sha256 { inner: sha2::Digest::new() }
}

/// Trusted: `sha2::Digest::update` takes in further bytes. The hasher counts its
/// input in bits in 64 bits, so the content has to stay below the limit.
#[verifier::external_body]
fn sha256_update(hasher: &mut Sha256, bytes: &Vec<u8>)
    requires
        absorbed(*old(hasher)).len() + bytes@.len() < CONTENT_LIMIT,
    ensures
        absorbed(*final(hasher)) == absorbed(*old(hasher)) + bytes@,
{
    sha2::Digest::update(&mut hasher.inner, bytes)
}

/// Trusted: `sha2::Digest::finalize` gives the digest of what was taken in, 32
/// bytes, named by [`sha256`].
#[verifier::external_body]
fn sha256_finalize(hasher: Sha256) -> (digest: Vec<u8>)
    requires
        absorbed(hasher).len() < CONTENT_LIMIT,
    ensures
        digest@ == sha256(absorbed(hasher)),
        digest@.len() == 32,
{
    sha2::Digest::finalize(hasher.inner).to_vec()
}

/// The content of a download so far: its SHA-256 state and its length.
pub struct Content {
    hasher: Sha256,
    len: u64,
}

impl View for Content {
    type V = Seq<u8>;

    closed spec fn view(&self) -> Seq<u8> {
        absorbed(self.hasher)
    }
}

impl Content {
    #[verifier::type_invariant]
    spec fn counted(self) -> bool {
        self.len == absorbed(self.hasher).len() && self.len < CONTENT_LIMIT
    }

    /// No content.
    pub fn new() -> (content: Content)
        ensures
            content@ == Seq::<u8>::empty(),
    {
        Content { hasher: sha256_new(), len: 0 }
    }

    /// Whether `n` further bytes keep the content below the limit.
    pub fn fits(&self, n: usize) -> (fits: bool)
        ensures
            fits == (self@.len() + n < CONTENT_LIMIT),
    {
        proof {
            use_type_invariant(self);
        }
        (n as u64) < CONTENT_LIMIT - self.len
    }

    /// The content followed by `bytes`.
    pub fn with(self, bytes: &Vec<u8>) -> (content: Content)
        requires
            self@.len() + bytes@.len() < CONTENT_LIMIT,
        ensures
            content@ == self@ + bytes@,
    {
        proof {
            use_type_invariant(&self);
        }
        let len = self.len + bytes.len() as u64;
        let mut hasher = self.hasher;
        sha256_update(&mut hasher, bytes);
        Content { hasher, len }
    }

    /// The SHA-256 digest of the content.
    pub fn digest(self) -> (digest: Vec<u8>)
        ensures
            digest@ == sha256(self@),
            digest@.len() == 32,
    {
        proof {
            use_type_invariant(&self);
        }
        sha256_finalize(self.hasher)
    }
}

} // verus!
