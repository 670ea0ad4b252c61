//! Limits on what a remote service may send back.
use vstd::prelude::*;

verus! {

/// The largest response body accepted, in bytes.
pub const MAX_BYTES: usize = 8 * 1024 * 1024;

/// Why a response was refused.
#[derive(Clone, Copy, Debug, PartialEq, Eq, Structural)]
pub enum ResponseError {
    /// The body grew past `MAX_BYTES`.
    TooLarge,
}

/// The body after a chunk is added, unless it would exceed the limit.
pub open spec fn appended(body: Seq<u8>, chunk: Seq<u8>) -> Option<Seq<u8>> {
    if body.len() + chunk.len() <= MAX_BYTES {
        Some(body + chunk)
    } else {
        None
    }
}

/// The body assembled from chunks received in order, unless the limit was passed.
pub open spec fn assembled(chunks: Seq<Seq<u8>>) -> Option<Seq<u8>>
    decreases chunks.len(),
{
    if chunks.len() == 0 {
        Some(Seq::empty())
    } else {
        match assembled(chunks.drop_last()) {
            Some(body) => appended(body, chunks.last()),
            None => None,
        }
    }
}

/// The total size of the chunks.
pub open spec fn total_len(chunks: Seq<Seq<u8>>) -> nat
    decreases chunks.len(),
{
    if chunks.len() == 0 {
        0
    } else {
        total_len(chunks.drop_last()) + chunks.last().len()
    }
}

/// The chunks run together.
pub open spec fn flatten_chunks(chunks: Seq<Seq<u8>>) -> Seq<u8>
    decreases chunks.len(),
{
    if chunks.len() == 0 {
        Seq::empty()
    } else {
        flatten_chunks(chunks.drop_last()) + chunks.last()
    }
}

/// A response is accepted exactly when its chunks together stay within the limit, and
/// then its body is all of them in order; an accepted body never exceeds the limit.
pub proof fn lemma_responses_within_limit(chunks: Seq<Seq<u8>>)
    ensures
        total_len(chunks) <= MAX_BYTES ==> assembled(chunks) == Some(flatten_chunks(chunks)),
        total_len(chunks) > MAX_BYTES ==> assembled(chunks) is None,
        assembled(chunks) matches Some(body) ==> body.len() <= MAX_BYTES,
    decreases chunks.len(),
{
    if chunks.len() > 0 {
        lemma_responses_within_limit(chunks.drop_last());
        lemma_flatten_len(chunks);
    }
}

proof fn lemma_flatten_len(chunks: Seq<Seq<u8>>)
    ensures
        flatten_chunks(chunks).len() == total_len(chunks),
    decreases chunks.len(),
{
    if chunks.len() > 0 {
        lemma_flatten_len(chunks.drop_last());
    }
}

/// Adds a received chunk to the body, unless the body would then exceed `MAX_BYTES`, in
/// which case the body is left as it was.
pub fn append_chunk(body: &mut Vec<u8>, chunk: &[u8]) -> (r: Result<(), ResponseError>)
    ensures
        match appended(old(body)@, chunk@) {
            Some(b) => r is Ok && final(body)@ == b,
            None => r == Err::<(), ResponseError>(ResponseError::TooLarge) && final(body)@
                == old(body)@,
        },
{
    if chunk.len() > MAX_BYTES || body.len() > MAX_BYTES - chunk.len() {
        return Err(ResponseError::TooLarge);
    }
    let ghost before = body@;
    let mut i: usize = 0;
    while i < chunk.len()
        invariant
            i <= chunk@.len(),
            body@ == before + chunk@.subrange(0, i as int),
        decreases chunk@.len() - i,
    {
        body.push(chunk[i]);
        assert(body@ =~= before + chunk@.subrange(0, i + 1));
        i = i + 1;
    }
    assert(chunk@.subrange(0, chunk@.len() as int) =~= chunk@);
    Ok(())
}

} // verus!
