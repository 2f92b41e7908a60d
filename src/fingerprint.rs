use multihash_codetable::MultihashDigest;
use vstd::prelude::*;

verus! {

/// Multicodec tag of raw binary content.
pub const RAW_CODEC: u8 = 0x55;

/// Multihash tag of SHA-2-256.
pub const SHA2_256_CODE: u8 = 0x12;

/// Length in bytes of a SHA-2-256 digest.
pub const SHA2_256_LEN: u8 = 32;

/// Version tag of the fingerprint encoding scheme (CID version 1).
pub const CID_VERSION: u8 = 1;

/// The SHA-2-256 digest of a byte sequence.
pub uninterp spec fn sha2_256_of(data: Seq<u8>) -> Seq<u8>;

/// The textual form (multibase) of a binary CID; empty for bytes that are no CID.
pub uninterp spec fn cid_text_of(cid: Seq<u8>) -> Seq<char>;

/// The binary form of the CID that a text names, if it names one.
pub uninterp spec fn cid_parse_of(text: Seq<char>) -> Option<Seq<u8>>;

/// The binary fingerprint of content: version, codec tag, hash tag, digest
/// length, then the digest. Each tag is below 128, so each takes one byte.
pub open spec fn content_fingerprint(data: Seq<u8>) -> Seq<u8> {
    seq![CID_VERSION, RAW_CODEC, SHA2_256_CODE, SHA2_256_LEN] + sha2_256_of(data)
}

/// Relies on multihash_codetable's `Code::Sha2_256.digest`: the SHA-2-256
/// digest of the input, 32 bytes long.
#[verifier::external_body]
fn sha2_256(data: &[u8]) -> (r: Vec<u8>)
    ensures
        r@ == sha2_256_of(data@),
        r@.len() == 32,
{
    multihash_codetable::Code::Sha2_256.digest(data).digest().to_vec()
}

/// Relies on cid's `Display` for `Cid` (after reading the binary form with
/// `Cid::try_from(&[u8])`): the multibase text of the identifier.
#[verifier::external_body]
fn cid_text(cid: &Vec<u8>) -> (r: String)
    ensures
        r@ == cid_text_of(cid@),
{
    match cid::Cid::try_from(cid.as_slice()) {
        Ok(c) => c.to_string(),
        Err(_) => String::new(),
    }
}

/// Relies on cid's `Cid::try_from(&str)`: parses a textual CID, handed back
/// in its binary form (`Cid::to_bytes`).
#[verifier::external_body]
fn cid_parse(text: &str) -> (r: Option<Vec<u8>>)
    ensures
        r.is_some() == cid_parse_of(text@).is_some(),
        r.is_some() ==> r.unwrap()@ == cid_parse_of(text@).unwrap(),
{
    cid::Cid::try_from(text).ok().map(|c| c.to_bytes())
}

/// A self-describing content identifier, held in its binary CID form.
#[derive(Debug)]
pub struct Fingerprint {
    bytes: Vec<u8>,
}

impl View for Fingerprint {
    type V = Seq<u8>;

    closed spec fn view(&self) -> Seq<u8> {
        self.bytes@
    }
}

impl Clone for Fingerprint {
    fn clone(&self) -> (r: Fingerprint)
        ensures
            r@ == self@,
    {
        Fingerprint { bytes: self.bytes.clone() }
    }
}

impl Fingerprint {
    /// The fingerprint of `data`: raw codec, SHA-2-256, CID version 1.
    pub fn of_bytes(data: &[u8]) -> (r: Fingerprint)
        ensures
            r@ == content_fingerprint(data@),
    {
        let digest = sha2_256(data);
        let mut bytes: Vec<u8> = Vec::with_capacity(36);
        bytes.push(CID_VERSION);
        bytes.push(RAW_CODEC);
        bytes.push(SHA2_256_CODE);
        bytes.push(SHA2_256_LEN);
        let mut i: usize = 0;
        while i < digest.len()
            invariant
                i <= digest@.len(),
                bytes@ == seq![CID_VERSION, RAW_CODEC, SHA2_256_CODE, SHA2_256_LEN] + digest@.subrange(0, i as int),
            decreases digest@.len() - i,
        {
            bytes.push(digest[i]);
            i = i + 1;
            assert(digest@.subrange(0, i as int) == digest@.subrange(0, i - 1) + seq![digest@[i - 1]]);
        }
        assert(digest@.subrange(0, digest@.len() as int) == digest@);
        Fingerprint { bytes }
    }

    /// Reads a fingerprint from its text form; `None` where the text names no CID.
    pub fn parse(text: &str) -> (r: Option<Fingerprint>)
        ensures
            r.is_some() == cid_parse_of(text@).is_some(),
            r.is_some() ==> r.unwrap()@ == cid_parse_of(text@).unwrap(),
    {
        match cid_parse(text) {
            Some(bytes) => Some(Fingerprint { bytes }),
            None => None,
        }
    }

    /// The binary form, also the key under which the routing table announces it.
    pub fn to_bytes(&self) -> (r: Vec<u8>)
        ensures
            r@ == self@,
    {
        self.bytes.clone()
    }

    /// The text form of the fingerprint.
    pub fn to_text(&self) -> (r: String)
        ensures
            r@ == cid_text_of(self@),
    {
        cid_text(&self.bytes)
    }

    /// Two fingerprints are equal iff their tags and digests match.
    pub fn same_as(&self, other: &Fingerprint) -> (r: bool)
        ensures
            r == (self@ == other@),
    {
        if self.bytes.len() != other.bytes.len() {
            return false;
        }
        let mut i: usize = 0;
        while i < self.bytes.len()
            invariant
                self.bytes@.len() == other.bytes@.len(),
                i <= self.bytes@.len(),
                self.bytes@.subrange(0, i as int) == other.bytes@.subrange(0, i as int),
            decreases self.bytes@.len() - i,
        {
            if self.bytes[i] != other.bytes[i] {
                assert(self.bytes@[i as int] != other.bytes@[i as int]);
                return false;
            }
            assert(self.bytes@.subrange(0, i + 1) == self.bytes@.subrange(0, i as int) + seq![self.bytes@[i as int]]);
            assert(other.bytes@.subrange(0, i + 1) == other.bytes@.subrange(0, i as int) + seq![other.bytes@[i as int]]);
            i = i + 1;
        }
        assert(self.bytes@ == self.bytes@.subrange(0, i as int));
        assert(other.bytes@ == other.bytes@.subrange(0, i as int));
        true
    }
}

/// Computing a fingerprint is a function of the content alone: equal content
/// always gives an equal fingerprint.
pub proof fn lemma_fingerprint_deterministic(a: Seq<u8>, b: Seq<u8>)
    requires
        a == b,
    ensures
        content_fingerprint(a) == content_fingerprint(b),
{
}

} // verus!
