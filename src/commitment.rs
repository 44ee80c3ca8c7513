use vstd::prelude::*;
use vstd::string::*;
use vstd::utf8::encode_utf8;

use tiny_keccak::Hasher;

verus! {

/// The SHA3-256 digest of a byte sequence.
pub uninterp spec fn sha3_256_of(data: Seq<u8>) -> Seq<u8>;

/// Relies on tiny_keccak::Sha3::v256 with `update` and `finalize`: the
/// SHA3-256 digest of `data`, which depends on `data` alone.
#[verifier::external_body]
fn sha3_256(data: &[u8]) -> (r: [u8; 32])
    ensures
        r@ == sha3_256_of(data@),
{
    let mut hasher = tiny_keccak::Sha3::v256();
    let mut output = [0u8; 32];
    hasher.update(data);
    hasher.finalize(&mut output);
    output
}

/// The bytes that a commitment to `answer` with `nonce` covers: the UTF-8
/// encoding of the answer followed by that of the nonce, with no separator.
pub open spec fn commit_input(answer: Seq<char>, nonce: Seq<char>) -> Seq<u8> {
    encode_utf8(answer) + encode_utf8(nonce)
}

/// The commitment to `answer` under `nonce`.
pub open spec fn commitment_of(answer: Seq<char>, nonce: Seq<char>) -> Seq<u8> {
    sha3_256_of(commit_input(answer, nonce))
}

/// Concatenates two byte slices.
fn concat_bytes(a: &[u8], b: &[u8]) -> (r: Vec<u8>)
    ensures
        r@ == a@ + b@,
{
    let mut out: Vec<u8> = Vec::new();
    let mut i: usize = 0;
    while i < a.len()
        invariant
            i <= a@.len(),
            out@ == a@.subrange(0, i as int),
        decreases a@.len() - i,
    {
        out.push(a[i]);
        i = i + 1;
        assert(out@ =~= a@.subrange(0, i as int));
    }
    let mut j: usize = 0;
    while j < b.len()
        invariant
            j <= b@.len(),
            out@ == a@ + b@.subrange(0, j as int),
        decreases b@.len() - j,
    {
        out.push(b[j]);
        j = j + 1;
        assert(out@ =~= a@ + b@.subrange(0, j as int));
    }
    assert(a@ + b@.subrange(0, j as int) =~= a@ + b@);
    out
}

/// Computes the 32-byte commitment that a player submits for `answer` and `nonce`.
pub fn commit(answer: &str, nonce: &str) -> (r: [u8; 32])
    ensures
        r@ == commitment_of(answer@, nonce@),
{
    let input = concat_bytes(answer.as_bytes(), nonce.as_bytes());
    sha3_256(input.as_slice())
}

/// Whether a computed digest equals a stored commitment, byte for byte.
pub fn commitment_matches(digest: &[u8; 32], commitment: &[u8; 32]) -> (r: bool)
    ensures
        r == (digest@ == commitment@),
{
    crate::state::same_bytes(digest, commitment)
}

/// Whether `commitment` opens to `answer` under `nonce`.
pub open spec fn opens(answer: Seq<char>, nonce: Seq<char>, commitment: Seq<u8>) -> bool {
    commitment_of(answer, nonce) == commitment
}

/// Whether `commitment` is the commitment to `answer` under `nonce`.
pub fn verify_commit(answer: &str, nonce: &str, commitment: &[u8; 32]) -> (r: bool)
    ensures
        r == opens(answer@, nonce@, commitment@),
{
    let digest = commit(answer, nonce);
    commitment_matches(&digest, commitment)
}

/// A commitment made to an answer and a nonce opens to that same answer and
/// nonce: what `commit` returns, `verify_commit` accepts.
pub proof fn lemma_commit_then_verify(answer: Seq<char>, nonce: Seq<char>)
    ensures
        opens(answer, nonce, commitment_of(answer, nonce)),
{
}

} // verus!
