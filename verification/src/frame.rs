//! Message framing: one message per line.
//!
//! A message ends at the first line feed of a buffer. What follows the line
//! feed belongs to no message yet, whatever it is, and a buffer without a
//! line feed holds no complete message.

use vstd::prelude::*;

verus! {

/// The byte that ends a message: a line feed.
pub const DELIMITER: u8 = 10;

/// Whether the first delimiter of `buffer` stands at `end`.
pub open spec fn is_frame_end(buffer: Seq<u8>, end: int) -> bool {
    &&& 0 <= end < buffer.len()
    &&& buffer[end] == DELIMITER
    &&& forall|j: int| 0 <= j < end ==> buffer[j] != DELIMITER
}

/// Whether `bytes` hold no delimiter.
pub open spec fn delimiter_free(bytes: Seq<u8>) -> bool {
    forall|i: int| 0 <= i < bytes.len() ==> bytes[i] != DELIMITER
}

/// Finds the end of the first message in `buffer`: the place of its
/// delimiter. The message is the bytes before that place.
pub fn frame_end(buffer: &[u8]) -> (end: Option<usize>)
    ensures
        match end {
            Some(place) => is_frame_end(buffer@, place as int),
            None => delimiter_free(buffer@),
        },
{
    let mut i: usize = 0;
    while i < buffer.len()
        invariant
            i <= buffer@.len(),
            forall|j: int| 0 <= j < i ==> buffer@[j] != DELIMITER,
        decreases buffer@.len() - i,
    {
        if buffer[i] == DELIMITER {
            return Some(i);
        }
        i += 1;
    }
    None
}

/// Ends `payload` with the delimiter.
pub fn seal(payload: Vec<u8>) -> (sealed: Vec<u8>)
    ensures
        sealed@ == payload@.push(DELIMITER),
{
    let mut sealed = payload;
    sealed.push(DELIMITER);
    sealed
}

/// A buffer has at most one frame end.
pub proof fn lemma_frame_end_is_unique(buffer: Seq<u8>, first: int, second: int)
    requires
        is_frame_end(buffer, first),
        is_frame_end(buffer, second),
    ensures
        first == second,
{
}

/// What follows the delimiter has no part in the message: with any bytes
/// after it, zero padding included, the frame ends at the same place and
/// holds the same bytes.
pub proof fn lemma_frame_ignores_what_follows(buffer: Seq<u8>, tail: Seq<u8>, end: int)
    requires
        is_frame_end(buffer, end),
    ensures
        is_frame_end(buffer + tail, end),
        (buffer + tail).take(end) == buffer.take(end),
{
    assert((buffer + tail).take(end) =~= buffer.take(end));
}

/// A sealed payload that holds no delimiter of its own is read back whole,
/// whatever follows it.
pub proof fn lemma_sealed_payload_is_one_frame(payload: Seq<u8>, tail: Seq<u8>)
    requires
        delimiter_free(payload),
    ensures
        is_frame_end(payload.push(DELIMITER) + tail, payload.len() as int),
        (payload.push(DELIMITER) + tail).take(payload.len() as int) == payload,
{
    let buffer = payload.push(DELIMITER) + tail;
    assert forall|j: int| 0 <= j < payload.len() implies buffer[j] != DELIMITER by {
        assert(buffer[j] == payload[j]);
    }
    assert(buffer.take(payload.len() as int) =~= payload);
}

} // verus!
