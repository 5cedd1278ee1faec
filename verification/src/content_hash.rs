//! Content addressing: an archive is known by the SHA-256 digest of its
//! bytes, written as 64 lowercase hexadecimal characters. Equal bytes give
//! equal digests, whatever the file is called and wherever it lies.

use vstd::prelude::*;

verus! {

/// The SHA-256 digest of `data`.
pub uninterp spec fn sha256(data: Seq<u8>) -> Seq<u8>;

/// A running SHA-256 computation: a `sha2::Sha256`. Nothing is known of
/// its inside but what [`absorbed`] names.
#[verifier::external_body]
pub struct Sha256State {
    state: sha2::Sha256,
}

/// The bytes that a running computation has taken in so far, in order.
pub uninterp spec fn absorbed(state: Sha256State) -> Seq<u8>;

/// Calls `sha2::Digest::new` for `Sha256`: a computation that has taken in
/// nothing yet.
#[verifier::external_body]
fn sha256_start() -> (state: Sha256State)
    ensures
        absorbed(state) == Seq::<u8>::empty(),
{
    Sha256State { state: <sha2::Sha256 as sha2::Digest>::new() }
}

/// Calls `sha2::Digest::update`: the computation takes in `chunk` after
/// what it has taken in before.
#[verifier::external_body]
fn sha256_absorb(state: &mut Sha256State, chunk: &[u8])
    ensures
        absorbed(*final(state)) == absorbed(*old(state)) + chunk@,
{
    sha2::Digest::update(&mut state.state, chunk)
}

/// Calls `sha2::Digest::finalize`: the digest of all that was taken in. Its
/// type in `sha2` is an array of 32 bytes.
#[verifier::external_body]
fn sha256_finish(state: Sha256State) -> (digest: Vec<u8>)
    ensures
        digest@ == sha256(absorbed(state)),
        digest@.len() == 32,
{
    sha2::Digest::finalize(state.state).to_vec()
}

/// The sixteen hexadecimal digits, lowercase.
pub open spec fn hex_digits() -> Seq<char> {
    seq!['0', '1', '2', '3', '4', '5', '6', '7', '8', '9', 'a', 'b', 'c', 'd', 'e', 'f']
}

/// `data` in lowercase hexadecimal: two digits for each byte, the high half
/// first.
pub open spec fn hex_lower(data: Seq<u8>) -> Seq<char> {
    Seq::new(
        2 * data.len(),
        |i: int|
            if i % 2 == 0 {
                hex_digits()[data[i / 2] as int / 16]
            } else {
                hex_digits()[data[i / 2] as int % 16]
            },
    )
}

/// Calls `hex::encode`, which writes each byte as two lowercase hexadecimal
/// digits, the high half first.
#[verifier::external_body]
fn hex_encode(data: &[u8]) -> (text: String)
    ensures
        text@ == hex_lower(data@),
{
    hex::encode(data)
}

/// The content hash of a file with these bytes.
pub open spec fn content_hash(bytes: Seq<u8>) -> Seq<char> {
    hex_lower(sha256(bytes))
}

/// Hashes a file that arrives in chunks.
pub struct ContentHasher {
    state: Sha256State,
}

impl ContentHasher {
    /// The bytes fed so far.
    pub closed spec fn fed(&self) -> Seq<u8> {
        absorbed(self.state)
    }

    /// A hasher that has been fed nothing.
    pub fn new() -> (hasher: ContentHasher)
        ensures
            hasher.fed() == Seq::<u8>::empty(),
    {
        ContentHasher { state: sha256_start() }
    }

    /// Feeds the next chunk of the file.
    pub fn update(&mut self, chunk: &[u8])
        ensures
            final(self).fed() == old(self).fed() + chunk@,
    {
        sha256_absorb(&mut self.state, chunk);
    }

    /// The content hash of everything fed.
    pub fn finish(self) -> (hash: String)
        ensures
            hash@ == content_hash(self.fed()),
            hash@.len() == 64,
    {
        let digest = sha256_finish(self.state);
        hex_encode(digest.as_slice())
    }
}

/// The content hash of a file held in memory.
pub fn hash_bytes(bytes: &[u8]) -> (hash: String)
    ensures
        hash@ == content_hash(bytes@),
        hash@.len() == 64,
{
    let mut hasher = ContentHasher::new();
    hasher.update(bytes);
    assert(Seq::<u8>::empty() + bytes@ =~= bytes@);
    hasher.finish()
}

/// The bytes of `chunks` laid end to end.
pub open spec fn joined(chunks: Seq<Seq<u8>>) -> Seq<u8>
    decreases chunks.len(),
{
    if chunks.len() == 0 {
        Seq::empty()
    } else {
        joined(chunks.drop_last()) + chunks.last()
    }
}

/// The content hash of a file that was read in chunks: it is the hash of
/// the file as a whole, however the chunks were cut.
pub fn hash_chunks(chunks: &Vec<Vec<u8>>) -> (hash: String)
    ensures
        hash@ == content_hash(joined(chunks.deep_view())),
        hash@.len() == 64,
{
    let mut hasher = ContentHasher::new();
    let ghost all = chunks.deep_view();
    let mut i: usize = 0;
    while i < chunks.len()
        invariant
            i <= chunks.len(),
            all == chunks.deep_view(),
            hasher.fed() == joined(all.take(i as int)),
        decreases chunks.len() - i,
    {
        proof {
            assert(all.take(i + 1).drop_last() =~= all.take(i as int));
            assert(all.take(i + 1).last() == chunks@[i as int]@);
        }
        hasher.update(chunks[i].as_slice());
        i += 1;
    }
    assert(all.take(chunks.len() as int) =~= all);
    hasher.finish()
}

} // verus!
