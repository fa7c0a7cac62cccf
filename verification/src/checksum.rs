//! The digest of an upload, taken while its bytes stream by.

use rustc_serialize::hex::ToHex;
use vstd::prelude::*;
use vstd::string::*;
use crate::error::{Error, ErrorKind};

verus! {

/// A running SHA-256 computation of the `sha2` crate. Verus cannot take the
/// crate's own type into a signature, so the hasher is kept behind this
/// struct, which Verus does not look into.
#[verifier::external_body]
pub struct Hasher {
    inner: sha2::Sha256,
}

/// The SHA-256 digest of `data`, as the `sha2` crate computes it.
pub uninterp spec fn sha256(data: Seq<u8>) -> Seq<u8>;

/// The bytes that a hasher has taken in so far.
pub uninterp spec fn absorbed(hasher: Hasher) -> Seq<u8>;

/// The character that writes `n`, below sixteen, in base sixteen.
pub open spec fn hex_digit(n: u8) -> char {
    if n < 10 {
        (48 + n) as char
    } else {
        (87 + n) as char
    }
}

/// The text of `bytes` in base sixteen: two lower-case digits for each byte,
/// the high half first.
pub open spec fn hex(bytes: Seq<u8>) -> Seq<char> {
    Seq::new(
        2 * bytes.len(),
        |i: int|
            if i % 2 == 0 {
                hex_digit(bytes[i / 2] / 16)
            } else {
                hex_digit(bytes[i / 2] % 16)
            },
    )
}

/// Calls `sha2::Digest::new` for `sha2::Sha256`: a hasher that has taken in
/// nothing yet.
#[verifier::external_body]
fn hasher_new() -> (hasher: Hasher)
    ensures
        absorbed(hasher) == Seq::<u8>::empty(),
{
    Hasher { inner: sha2::Digest::new() }
}

/// Calls `sha2::Digest::update`: the hasher takes in `data` after what it
/// took in before.
#[verifier::external_body]
fn hasher_update(hasher: &mut Hasher, data: &[u8])
    ensures
        absorbed(*final(hasher)) == absorbed(*old(hasher)) + data@,
{
    sha2::Digest::update(&mut hasher.inner, data)
}

/// Calls `sha2::Digest::finalize` and copies the 32 bytes out: the digest of
/// all that the hasher took in, to which the contract gives the name
/// [`sha256`].
#[verifier::external_body]
fn hasher_finalize(hasher: Hasher) -> (digest: Vec<u8>)
    ensures
        digest@ == sha256(absorbed(hasher)),
{
    sha2::Digest::finalize(hasher.inner).to_vec()
}

/// Calls `rustc_serialize::hex::ToHex::to_hex` on a slice of bytes, which
/// writes each byte as two digits of `0123456789abcdef`.
#[verifier::external_body]
fn bytes_to_hex(bytes: &[u8]) -> (text: String)
    ensures
        text@ == hex(bytes@),
{
    bytes.to_hex()
}

/// The checksum of a package as the index records it: its digest in base
/// sixteen.
pub fn checksum_text(digest: &[u8]) -> (text: String)
    ensures
        text@ == hex(digest@),
{
    bytes_to_hex(digest)
}

/// Stands between the sender of an upload and the blob store. Every chunk
/// read from the sender is handed to [`ChecksumReader::feed`], which refuses
/// it when the upload grows beyond its limit and adds it to the running
/// digest otherwise. Nothing but the digest's state is kept.
pub struct ChecksumReader {
    limit: u64,
    consumed: u64,
    hasher: Hasher,
}

impl ChecksumReader {
    /// The most bytes that the reader lets through.
    pub closed spec fn limit(&self) -> u64 {
        self.limit
    }

    /// The bytes let through so far.
    pub closed spec fn seen(&self) -> Seq<u8> {
        absorbed(self.hasher)
    }

    /// The reader's count agrees with what it let through, and stays within
    /// the limit.
    pub closed spec fn wf(&self) -> bool {
        self.consumed == absorbed(self.hasher).len() && self.consumed <= self.limit
    }

    /// A reader that lets through at most `limit` bytes.
    pub fn new(limit: u64) -> (reader: ChecksumReader)
        ensures
            reader.wf(),
            reader.limit() == limit,
            reader.seen() == Seq::<u8>::empty(),
    {
        ChecksumReader { limit, consumed: 0, hasher: hasher_new() }
    }

    /// How many bytes went through so far.
    pub fn consumed(&self) -> (n: u64)
        requires
            self.wf(),
        ensures
            n == self.seen().len(),
    {
        self.consumed
    }

    /// Takes the next chunk that was read from the sender. Where the chunk
    /// would carry the upload beyond the limit, it is refused as a whole and
    /// the reader stays as it was; otherwise it joins the digest.
    pub fn feed(&mut self, chunk: &[u8]) -> (r: Result<(), Error>)
        requires
            old(self).wf(),
        ensures
            final(self).wf(),
            final(self).limit() == old(self).limit(),
            r is Ok <==> old(self).seen().len() + chunk@.len() <= old(self).limit(),
            match r {
                Ok(_) => final(self).seen() == old(self).seen() + chunk@,
                Err(e) => final(self).seen() == old(self).seen() && e.says(
                    ErrorKind::PayloadTooLarge,
                    "maximum upload size exceeded"@,
                ),
            },
    {
        let room: u64 = self.limit - self.consumed;
        if chunk.len() as u64 > room {
            return Err(Error::new(ErrorKind::PayloadTooLarge, "maximum upload size exceeded"));
        }
        hasher_update(&mut self.hasher, chunk);
        self.consumed = self.consumed + chunk.len() as u64;
        Ok(())
    }

    /// Ends the stream: the digest of all bytes let through, raw.
    pub fn finish(self) -> (digest: Vec<u8>)
        ensures
            digest@ == sha256(self.seen()),
    {
        hasher_finalize(self.hasher)
    }
}

} // verus!
