//! The padding that brackets every account buffer.

use vstd::prelude::*;
use vstd::slice::slice_subrange;
use crate::error::Error;
use crate::words::{
    bytes_of_words, lemma_bytes_of_their_words, lemma_words_of_their_bytes, read_words,
    words_of_bytes,
};

verus! {

/// The bytes with which every account buffer begins: `serum` in ASCII.
pub const ACCOUNT_HEAD_PADDING: [u8; 5] = [115, 101, 114, 117, 109];

/// The bytes with which every account buffer ends: `padding` in ASCII.
pub const ACCOUNT_TAIL_PADDING: [u8; 7] = [112, 97, 100, 100, 105, 110, 103];

/// The head padding as a sequence.
pub open spec fn head_padding() -> Seq<u8> {
    seq![115u8, 101u8, 114u8, 117u8, 109u8]
}

/// The tail padding as a sequence.
pub open spec fn tail_padding() -> Seq<u8> {
    seq![112u8, 97u8, 100u8, 100u8, 105u8, 110u8, 103u8]
}

/// The bytes of a buffer between its head and its tail padding.
pub open spec fn interior(data: Seq<u8>) -> Seq<u8>
    recommends
        data.len() >= 12,
{
    data.subrange(5, data.len() - 7)
}

/// What removing the padding from a buffer gives: the interior as words, or
/// the first of the four checks that the buffer fails.
pub open spec fn stripped(data: Seq<u8>) -> Result<Seq<u64>, Error> {
    if data.len() < 12 {
        Err(Error::TooSmall)
    } else if data.subrange(0, 5) != head_padding() {
        Err(Error::HeadMismatch)
    } else if data.subrange(data.len() - 7, data.len() as int) != tail_padding() {
        Err(Error::TailMismatch)
    } else if (data.len() - 12) % 8 != 0 {
        Err(Error::MisalignedLength)
    } else {
        Ok(words_of_bytes(interior(data)))
    }
}

/// The buffer that holds `words` between the two paddings.
pub open spec fn padded(words: Seq<u64>) -> Seq<u8> {
    head_padding() + bytes_of_words(words) + tail_padding()
}

/// Whether `data` holds `expected` from byte `at` on.
fn holds_at(data: &[u8], at: usize, expected: &[u8]) -> (same: bool)
    requires
        at + expected.len() <= data.len(),
    ensures
        same == (data@.subrange(at as int, at + expected.len()) == expected@),
{
    let n = expected.len();
    let mut i: usize = 0;
    while i < n
        invariant
            n == expected.len(),
            at + n <= data.len(),
            i <= n,
            forall|j: int| 0 <= j < i ==> data@[at + j] == expected@[j],
        decreases n - i,
    {
        if data[at + i] != expected[i] {
            assert(data@.subrange(at as int, at + n)[i as int] != expected@[i as int]);
            return false;
        }
        i += 1;
    }
    assert(data@.subrange(at as int, at + n) =~= expected@);
    true
}

/// Checks the head and tail padding of an account buffer and returns the
/// words between them.
pub fn remove_dex_account_padding(data: &[u8]) -> (words: Result<Vec<u64>, Error>)
    ensures
        match words {
            Ok(w) => stripped(data@) == Ok::<Seq<u64>, Error>(w@),
            Err(e) => stripped(data@) == Err::<Seq<u64>, Error>(e),
        },
{
    let len = data.len();
    if len < ACCOUNT_HEAD_PADDING.len() + ACCOUNT_TAIL_PADDING.len() {
        return Err(Error::TooSmall);
    }
    let head = ACCOUNT_HEAD_PADDING;
    let tail = ACCOUNT_TAIL_PADDING;
    assert(head@ =~= head_padding());
    assert(tail@ =~= tail_padding());
    if !holds_at(data, 0, head.as_slice()) {
        return Err(Error::HeadMismatch);
    }
    if !holds_at(data, len - 7, tail.as_slice()) {
        return Err(Error::TailMismatch);
    }
    if (len - 12) % 8 != 0 {
        return Err(Error::MisalignedLength);
    }
    let inner = slice_subrange(data, 5, len - 7);
    Ok(read_words(inner))
}

/// Any word sequence, written out between the two paddings, is read back
/// unchanged.
pub proof fn lemma_padding_round_trip(words: Seq<u64>)
    ensures
        stripped(padded(words)) == Ok::<Seq<u64>, Error>(words),
{
    let data = padded(words);
    lemma_words_of_their_bytes(words);
    assert(data.subrange(0, 5) =~= head_padding());
    assert(data.subrange(data.len() - 7, data.len() as int) =~= tail_padding());
    assert(interior(data) =~= bytes_of_words(words));
}

/// A buffer that is accepted is its own words written out between the two
/// paddings, so two accepted buffers with the same words are one buffer.
pub proof fn lemma_accepted_buffer_is_padded(data: Seq<u8>)
    requires
        stripped(data) is Ok,
    ensures
        padded(stripped(data)->Ok_0) == data,
{
    lemma_bytes_of_their_words(interior(data));
    assert(padded(stripped(data)->Ok_0) =~= data.subrange(0, 5) + interior(data) + data.subrange(
        data.len() - 7,
        data.len() as int,
    ));
    assert(data.subrange(0, 5) + interior(data) + data.subrange(
        data.len() - 7,
        data.len() as int,
    ) =~= data);
}

/// Changing one byte of the head padding of a buffer that is long enough
/// makes the head check fail.
pub proof fn lemma_head_byte_changed(data: Seq<u8>, at: int, byte: u8)
    requires
        data.len() >= 12,
        0 <= at < 5,
        data.subrange(0, 5) == head_padding(),
        byte != data[at],
    ensures
        stripped(data.update(at, byte)) == Err::<Seq<u64>, Error>(Error::HeadMismatch),
{
    let changed = data.update(at, byte);
    assert(changed.subrange(0, 5)[at] == byte);
    assert(data.subrange(0, 5)[at] == data[at]);
}

/// Changing one byte of the tail padding of a buffer whose head padding is
/// right makes the tail check fail.
pub proof fn lemma_tail_byte_changed(data: Seq<u8>, at: int, byte: u8)
    requires
        data.len() >= 12,
        data.len() - 7 <= at < data.len(),
        data.subrange(0, 5) == head_padding(),
        data.subrange(data.len() - 7, data.len() as int) == tail_padding(),
        byte != data[at],
    ensures
        stripped(data.update(at, byte)) == Err::<Seq<u64>, Error>(Error::TailMismatch),
{
    let changed = data.update(at, byte);
    let k = at - (data.len() - 7);
    assert(changed.subrange(0, 5) =~= data.subrange(0, 5));
    assert(changed.subrange(changed.len() - 7, changed.len() as int)[k] == byte);
    assert(data.subrange(data.len() - 7, data.len() as int)[k] == data[at]);
}

/// A buffer cut below twelve bytes is too small, whatever it holds.
pub proof fn lemma_truncated_is_too_small(data: Seq<u8>, len: int)
    requires
        0 <= len < 12,
        len <= data.len(),
    ensures
        stripped(data.subrange(0, len)) == Err::<Seq<u64>, Error>(Error::TooSmall),
{
}

} // verus!
