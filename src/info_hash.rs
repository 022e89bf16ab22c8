use vstd::prelude::*;

verus! {

/// Length in bytes of a key identifier (a SHA-1 digest).
pub const ID_LEN: usize = 20;

/// Longest key that SHA-1 accepts: its bit length must fit in a `u64`.
pub const MAX_KEY_LEN: u64 = 0x1fff_ffff_ffff_ffff;

/// The SHA-1 digest of a byte sequence.
pub uninterp spec fn sha1_of(data: Seq<u8>) -> Seq<u8>;

/// Relies on `ring::digest::digest` with `SHA1_FOR_LEGACY_USE_ONLY`: the digest
/// depends on the bytes alone and is 20 bytes long.
#[verifier::external_body]
fn sha1_digest(data: &[u8]) -> (r: Vec<u8>)
    requires
        data@.len() <= MAX_KEY_LEN,
    ensures
        r@ == sha1_of(data@),
        r@.len() == ID_LEN,
{
    ring::digest::digest(&ring::digest::SHA1_FOR_LEGACY_USE_ONLY, data).as_ref().to_vec()
}

/// A fixed-length identifier derived from an arbitrary byte key; used as the
/// lookup and storage key of the engine.
pub struct InfoHash {
    bytes: Vec<u8>,
}

impl InfoHash {
    pub closed spec fn view(&self) -> Seq<u8> {
        self.bytes@
    }

    pub closed spec fn wf(&self) -> bool {
        self.bytes@.len() == ID_LEN
    }

    /// The identifier of `key`: its SHA-1 digest.
    pub fn new(key: &[u8]) -> (r: InfoHash)
        requires
            key@.len() <= MAX_KEY_LEN,
        ensures
            r.wf(),
            r@ == sha1_of(key@),
            r@.len() == ID_LEN,
    {
        InfoHash { bytes: sha1_digest(key) }
    }

    /// The identifier's bytes, to be handed to the engine for the length of a call.
    pub fn as_bytes(&self) -> (r: &[u8])
        ensures
            r@ == self@,
            self.wf() ==> r@.len() == ID_LEN,
    {
        self.bytes.as_slice()
    }

    pub fn len(&self) -> (r: usize)
        requires
            self.wf(),
        ensures
            r == self@.len(),
            r == ID_LEN,
    {
        self.bytes.len()
    }

    pub fn is_empty(&self) -> (r: bool)
        requires
            self.wf(),
        ensures
            r == (self@.len() == 0),
            !r,
    {
        self.bytes.len() == 0
    }
}

/// Equal keys always give equal identifiers, and every identifier has the
/// same fixed length.
pub proof fn lemma_same_key_same_id(k1: Seq<u8>, k2: Seq<u8>, h1: InfoHash, h2: InfoHash)
    requires
        k1 == k2,
        h1@ == sha1_of(k1),
        h2@ == sha1_of(k2),
        h1.wf(),
        h2.wf(),
    ensures
        h1@ == h2@,
        h1@.len() == h2@.len() == ID_LEN,
{
}

} // verus!
