//! The three digest algorithms behind one interface, one-shot and incremental.

use vstd::prelude::*;

use crate::hex::{bytes_to_hex_string, hex_string};

verus! {

/// The digest algorithms on offer.
#[derive(Copy, Clone, Debug, PartialEq, Eq, Structural)]
pub enum HashAlgorithm {
    MD5,
    SHA256,
    BLAKE3,
}

impl Default for HashAlgorithm {
    fn default() -> (algo: Self)
        ensures
            algo == HashAlgorithm::SHA256,
    {
        HashAlgorithm::SHA256
    }
}

impl HashAlgorithm {
    /// The algorithm that the flags of a run select: MD5 where it is asked for,
    /// else BLAKE3 where that is asked for, else the default.
    pub fn from_flags(md5: bool, blake3: bool) -> (algo: Self)
        ensures
            algo == if md5 {
                HashAlgorithm::MD5
            } else if blake3 {
                HashAlgorithm::BLAKE3
            } else {
                HashAlgorithm::SHA256
            },
    {
        if md5 {
            HashAlgorithm::MD5
        } else if blake3 {
            HashAlgorithm::BLAKE3
        } else {
            HashAlgorithm::default()
        }
    }

    /// The number of bytes in a digest of this algorithm.
    pub open spec fn digest_len(self) -> nat {
        match self {
            HashAlgorithm::MD5 => 16,
            HashAlgorithm::SHA256 => 32,
            HashAlgorithm::BLAKE3 => 32,
        }
    }

    /// The tag under which the algorithm appears in rendered output.
    pub open spec fn tag(self) -> Seq<char> {
        match self {
            HashAlgorithm::MD5 => "MD5"@,
            HashAlgorithm::SHA256 => "SHA256"@,
            HashAlgorithm::BLAKE3 => "BLAKE3"@,
        }
    }

    /// The tag under which the algorithm appears in rendered output.
    pub fn name(self) -> (s: &'static str)
        ensures
            s@ == self.tag(),
    {
        match self {
            HashAlgorithm::MD5 => "MD5",
            HashAlgorithm::SHA256 => "SHA256",
            HashAlgorithm::BLAKE3 => "BLAKE3",
        }
    }
}

/// The MD5 digest of a byte sequence.
pub uninterp spec fn md5_of(input: Seq<u8>) -> Seq<u8>;

/// The SHA-256 digest of a byte sequence.
pub uninterp spec fn sha256_of(input: Seq<u8>) -> Seq<u8>;

/// The BLAKE3 digest of a byte sequence, at the default output length.
pub uninterp spec fn blake3_of(input: Seq<u8>) -> Seq<u8>;

/// The digest of a byte sequence under an algorithm.
pub open spec fn digest_of(input: Seq<u8>, algo: HashAlgorithm) -> Seq<u8> {
    match algo {
        HashAlgorithm::MD5 => md5_of(input),
        HashAlgorithm::SHA256 => sha256_of(input),
        HashAlgorithm::BLAKE3 => blake3_of(input),
    }
}

/// The digest of a byte sequence under an algorithm, rendered in lowercase hexadecimal.
pub open spec fn hex_digest_of(input: Seq<u8>, algo: HashAlgorithm) -> Seq<char> {
    hex_string(digest_of(input, algo))
}

/// The running state after `input` has been folded into `state`.
pub open spec fn folded(state: Seq<u8>, input: Seq<u8>) -> Seq<u8> {
    state + input
}

/// The running state of an incremental digest: the bytes seen so far.
#[derive(Clone, Debug)]
pub struct HashImpl {
    pub bytes: Vec<u8>,
}

impl View for HashImpl {
    type V = Seq<u8>;

    open spec fn view(&self) -> Seq<u8> {
        self.bytes@
    }
}

impl HashImpl {
    /// A state that has seen nothing.
    pub fn new() -> (h: Self)
        ensures
            h@ == Seq::<u8>::empty(),
    {
        HashImpl { bytes: Vec::new() }
    }

    /// Folds `input` into the state, after everything seen before.
    pub fn update(&mut self, input: &[u8])
        ensures
            final(self)@ == folded(old(self)@, input@),
    {
        self.bytes.extend_from_slice(input);
        assert(self.bytes@ =~= old(self).bytes@ + input@);
    }

    /// The digest of `input` under `algo`.
    pub fn digest(input: &[u8], algo: HashAlgorithm) -> (d: Vec<u8>)
        ensures
            d@ == digest_of(input@, algo),
            d@.len() == algo.digest_len(),
    {
        match algo {
            HashAlgorithm::MD5 => Self::md5hash(input),
            HashAlgorithm::SHA256 => Self::sha256hash(input),
            HashAlgorithm::BLAKE3 => Self::blake3hash(input),
        }
    }

    /// The digest of everything seen so far, in lowercase hexadecimal.
    pub fn hex_digest(&self, algo: HashAlgorithm) -> (s: String)
        ensures
            s@ == hex_digest_of(self@, algo),
            s@.len() == 2 * algo.digest_len(),
    {
        let d = Self::digest(self.bytes.as_slice(), algo);
        bytes_to_hex_string(d.as_slice())
    }

    /// The digest of `input` alone, in lowercase hexadecimal.
    pub fn hex_digest_input(input: &[u8], algo: HashAlgorithm) -> (s: String)
        ensures
            s@ == hex_digest_of(input@, algo),
            s@.len() == 2 * algo.digest_len(),
    {
        let d = Self::digest(input, algo);
        bytes_to_hex_string(d.as_slice())
    }

    /// `md5::compute`. Not proved: that its 16 bytes depend on the input bytes alone.
    #[verifier::external_body]
    fn md5hash(input: &[u8]) -> (d: Vec<u8>)
        ensures
            d@ == md5_of(input@),
            d@.len() == 16,
    {
        md5::compute(input).0.to_vec()
    }

    /// `Digest::digest` of `sha2::Sha256`. Not proved: that its 32 bytes depend
    /// on the input bytes alone.
    #[verifier::external_body]
    fn sha256hash(input: &[u8]) -> (d: Vec<u8>)
        ensures
            d@ == sha256_of(input@),
            d@.len() == 32,
    {
        <sha2::Sha256 as sha2::Digest>::digest(input).to_vec()
    }

    /// `blake3::hash`. Not proved: that its 32 bytes depend on the input bytes alone.
    #[verifier::external_body]
    fn blake3hash(input: &[u8]) -> (d: Vec<u8>)
        ensures
            d@ == blake3_of(input@),
            d@.len() == 32,
    {
        blake3::hash(input).as_bytes().to_vec()
    }
}

/// A digest depends on the bytes and the algorithm alone: inputs that agree
/// byte for byte have one digest, and one rendering.
pub proof fn lemma_digest_is_determined(a: Seq<u8>, b: Seq<u8>, algo: HashAlgorithm)
    requires
        a.len() == b.len(),
        forall|k: int| 0 <= k < a.len() ==> a[k] == b[k],
    ensures
        digest_of(a, algo) == digest_of(b, algo),
        hex_digest_of(a, algo) == hex_digest_of(b, algo),
{
    assert(a =~= b);
}

/// Folding two inputs into a state one after the other leaves it as folding
/// their concatenation does.
pub proof fn lemma_fold_concat(state: Seq<u8>, x: Seq<u8>, y: Seq<u8>)
    ensures
        folded(folded(state, x), y) == folded(state, x + y),
{
    assert((state + x) + y =~= state + (x + y));
}

/// The digest of a fresh state after two updates, with `x` and then with `y`,
/// is the one-shot digest of `x` followed by `y`.
pub proof fn lemma_incremental_is_oneshot(x: Seq<u8>, y: Seq<u8>, algo: HashAlgorithm)
    ensures
        hex_digest_of(folded(folded(Seq::empty(), x), y), algo) == hex_digest_of(x + y, algo),
        digest_of(folded(folded(Seq::empty(), x), y), algo) == digest_of(x + y, algo),
{
    assert((Seq::<u8>::empty() + x) + y =~= x + y);
}

} // verus!
