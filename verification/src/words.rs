//! Little-endian words: the unit in which an account's interior is read.

use vstd::prelude::*;

verus! {

/// The word that eight bytes spell, lowest byte first.
pub open spec fn word_of_bytes(b: Seq<u8>) -> u64
    recommends
        b.len() == 8,
{
    (b[0] as int + 0x100 * (b[1] as int) + 0x1_0000 * (b[2] as int) + 0x100_0000 * (b[3] as int)
        + 0x1_0000_0000 * (b[4] as int) + 0x100_0000_0000 * (b[5] as int) + 0x1_0000_0000_0000 * (
    b[6] as int) + 0x100_0000_0000_0000 * (b[7] as int)) as u64
}

/// The eight bytes of a word, lowest byte first.
pub open spec fn bytes_of_word(w: u64) -> Seq<u8> {
    seq![
        (w % 0x100) as u8,
        (w / 0x100 % 0x100) as u8,
        (w / 0x1_0000 % 0x100) as u8,
        (w / 0x100_0000 % 0x100) as u8,
        (w / 0x1_0000_0000 % 0x100) as u8,
        (w / 0x100_0000_0000 % 0x100) as u8,
        (w / 0x1_0000_0000_0000 % 0x100) as u8,
        (w / 0x100_0000_0000_0000 % 0x100) as u8,
    ]
}

/// The words that a byte sequence spells, eight bytes to a word; bytes past
/// the last full word are left out.
pub open spec fn words_of_bytes(b: Seq<u8>) -> Seq<u64> {
    Seq::new(b.len() / 8, |i: int| word_of_bytes(b.subrange(8 * i, 8 * i + 8)))
}

/// The bytes of a word sequence, each word lowest byte first.
pub open spec fn bytes_of_words(w: Seq<u64>) -> Seq<u8> {
    Seq::new(8 * w.len(), |j: int| bytes_of_word(w[j / 8])[j % 8])
}

/// Dividing by a power of 256 is dividing by 256 that many times.
proof fn lemma_repeated_division(w: u64)
    ensures
        w / 0x1_0000 == w / 0x100 / 0x100,
        w / 0x100_0000 == w / 0x1_0000 / 0x100,
        w / 0x1_0000_0000 == w / 0x100_0000 / 0x100,
        w / 0x100_0000_0000 == w / 0x1_0000_0000 / 0x100,
        w / 0x1_0000_0000_0000 == w / 0x100_0000_0000 / 0x100,
        w / 0x100_0000_0000_0000 == w / 0x1_0000_0000_0000 / 0x100,
        w / 0x100_0000_0000_0000 < 0x100,
{
    assert(w / 0x1_0000 == w / 0x100 / 0x100 && w / 0x100_0000 == w / 0x1_0000 / 0x100 && w
        / 0x1_0000_0000 == w / 0x100_0000 / 0x100 && w / 0x100_0000_0000 == w / 0x1_0000_0000
        / 0x100 && w / 0x1_0000_0000_0000 == w / 0x100_0000_0000 / 0x100 && w
        / 0x100_0000_0000_0000 == w / 0x1_0000_0000_0000 / 0x100 && w / 0x100_0000_0000_0000
        < 0x100) by (bit_vector);
}

/// Reading the bytes of a word gives the word back.
pub proof fn lemma_word_of_its_bytes(w: u64)
    ensures
        bytes_of_word(w).len() == 8,
        word_of_bytes(bytes_of_word(w)) == w,
{
    lemma_repeated_division(w);
    let q1 = w / 0x100;
    let q2 = w / 0x1_0000;
    let q3 = w / 0x100_0000;
    let q4 = w / 0x1_0000_0000;
    let q5 = w / 0x100_0000_0000;
    let q6 = w / 0x1_0000_0000_0000;
    let q7 = w / 0x100_0000_0000_0000;
    assert(w == w % 0x100 + 0x100 * q1);
    assert(q1 == q1 % 0x100 + 0x100 * q2);
    assert(q2 == q2 % 0x100 + 0x100 * q3);
    assert(q3 == q3 % 0x100 + 0x100 * q4);
    assert(q4 == q4 % 0x100 + 0x100 * q5);
    assert(q5 == q5 % 0x100 + 0x100 * q6);
    assert(q6 == q6 % 0x100 + 0x100 * q7);
    assert(q7 == q7 % 0x100);
}

/// Writing the word that eight bytes spell gives the bytes back.
pub proof fn lemma_bytes_of_their_word(b: Seq<u8>)
    requires
        b.len() == 8,
    ensures
        bytes_of_word(word_of_bytes(b)) == b,
{
    let w = word_of_bytes(b);
    lemma_repeated_division(w);
    let r7 = b[7] as int;
    let r6 = b[6] + 0x100 * r7;
    let r5 = b[5] + 0x100 * r6;
    let r4 = b[4] + 0x100 * r5;
    let r3 = b[3] + 0x100 * r4;
    let r2 = b[2] + 0x100 * r3;
    let r1 = b[1] + 0x100 * r2;
    let r0 = b[0] + 0x100 * r1;
    assert(w == r0);
    assert(w / 0x100 == r1 && w % 0x100 == b[0]);
    assert(r1 / 0x100 == r2 && r1 % 0x100 == b[1]);
    assert(r2 / 0x100 == r3 && r2 % 0x100 == b[2]);
    assert(r3 / 0x100 == r4 && r3 % 0x100 == b[3]);
    assert(r4 / 0x100 == r5 && r4 % 0x100 == b[4]);
    assert(r5 / 0x100 == r6 && r5 % 0x100 == b[5]);
    assert(r6 / 0x100 == r7 && r6 % 0x100 == b[6]);
    assert(r7 % 0x100 == b[7]);
    assert(bytes_of_word(w) =~= b);
}

/// Reading the bytes of a word sequence gives the sequence back.
pub proof fn lemma_words_of_their_bytes(w: Seq<u64>)
    ensures
        bytes_of_words(w).len() == 8 * w.len(),
        words_of_bytes(bytes_of_words(w)) == w,
{
    let b = bytes_of_words(w);
    assert forall|i: int| 0 <= i < w.len() implies #[trigger] words_of_bytes(b)[i] == w[i] by {
        let chunk = b.subrange(8 * i, 8 * i + 8);
        assert forall|k: int| 0 <= k < 8 implies chunk[k] == bytes_of_word(w[i])[k] by {
            assert((8 * i + k) / 8 == i);
            assert((8 * i + k) % 8 == k);
        }
        assert(chunk =~= bytes_of_word(w[i]));
        lemma_word_of_its_bytes(w[i]);
    }
    assert(words_of_bytes(b) =~= w);
}

/// Writing the words that a whole number of eight-byte groups spells gives the
/// bytes back.
pub proof fn lemma_bytes_of_their_words(b: Seq<u8>)
    requires
        b.len() % 8 == 0,
    ensures
        words_of_bytes(b).len() * 8 == b.len(),
        bytes_of_words(words_of_bytes(b)) == b,
{
    let w = words_of_bytes(b);
    assert forall|j: int| 0 <= j < b.len() implies #[trigger] bytes_of_words(w)[j] == b[j] by {
        let i = j / 8;
        let chunk = b.subrange(8 * i, 8 * i + 8);
        lemma_bytes_of_their_word(chunk);
        assert(chunk[j % 8] == b[j]);
    }
    assert(bytes_of_words(w) =~= b);
}

/// Reads the word that starts at byte `at`.
pub fn read_word(data: &[u8], at: usize) -> (w: u64)
    requires
        at + 8 <= data.len(),
    ensures
        w == word_of_bytes(data@.subrange(at as int, at + 8)),
{
    let w: u64 = data[at] as u64 + 0x100 * (data[at + 1] as u64) + 0x1_0000 * (data[at + 2] as u64)
        + 0x100_0000 * (data[at + 3] as u64) + 0x1_0000_0000 * (data[at + 4] as u64)
        + 0x100_0000_0000 * (data[at + 5] as u64) + 0x1_0000_0000_0000 * (data[at + 6] as u64)
        + 0x100_0000_0000_0000 * (data[at + 7] as u64);
    w
}

/// Splits a word into its eight bytes.
pub fn write_word(w: u64) -> (b: [u8; 8])
    ensures
        b@ == bytes_of_word(w),
{
    let b: [u8; 8] = [
        (w % 0x100) as u8,
        (w / 0x100 % 0x100) as u8,
        (w / 0x1_0000 % 0x100) as u8,
        (w / 0x100_0000 % 0x100) as u8,
        (w / 0x1_0000_0000 % 0x100) as u8,
        (w / 0x100_0000_0000 % 0x100) as u8,
        (w / 0x1_0000_0000_0000 % 0x100) as u8,
        (w / 0x100_0000_0000_0000 % 0x100) as u8,
    ];
    assert(b@ =~= bytes_of_word(w));
    b
}

/// Reads every full word of `data`, in order.
pub fn read_words(data: &[u8]) -> (words: Vec<u64>)
    ensures
        words@ == words_of_bytes(data@),
{
    let n: usize = data.len() / 8;
    let mut words: Vec<u64> = Vec::new();
    let mut i: usize = 0;
    while i < n
        invariant
            n == data.len() / 8,
            i <= n,
            words.len() == i,
            forall|k: int| 0 <= k < i ==> words[k] == #[trigger] words_of_bytes(data@)[k],
        decreases n - i,
    {
        let w = read_word(data, 8 * i);
        words.push(w);
        i += 1;
    }
    assert(words@ =~= words_of_bytes(data@));
    words
}

} // verus!
