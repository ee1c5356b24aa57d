//! Account identifiers.

use vstd::prelude::*;
use crate::words::{bytes_of_word, word_of_bytes, write_word, read_word, lemma_word_of_its_bytes, lemma_bytes_of_their_word};

verus! {

/// The identifier of an account: 32 bytes, held as the four little-endian
/// words that an account's interior stores for it. Only equality and the
/// derivation of a program address are ever asked of it.
#[derive(Clone, Copy, Debug, PartialEq, Eq, Structural, Hash)]
pub struct Pubkey {
    pub w0: u64,
    pub w1: u64,
    pub w2: u64,
    pub w3: u64,
}

impl View for Pubkey {
    type V = Seq<u8>;

    /// The 32 bytes of the identifier.
    open spec fn view(&self) -> Seq<u8> {
        bytes_of_word(self.w0) + bytes_of_word(self.w1) + bytes_of_word(self.w2) + bytes_of_word(
            self.w3,
        )
    }
}

impl Pubkey {
    /// The identifier that 32 bytes spell.
    pub open spec fn of_bytes(b: Seq<u8>) -> Pubkey
        recommends
            b.len() == 32,
    {
        Pubkey {
            w0: word_of_bytes(b.subrange(0, 8)),
            w1: word_of_bytes(b.subrange(8, 16)),
            w2: word_of_bytes(b.subrange(16, 24)),
            w3: word_of_bytes(b.subrange(24, 32)),
        }
    }

    /// The identifier stored in the four words that start at `at`.
    pub open spec fn of_words(words: Seq<u64>, at: int) -> Pubkey
        recommends
            0 <= at,
            at + 4 <= words.len(),
    {
        Pubkey { w0: words[at], w1: words[at + 1], w2: words[at + 2], w3: words[at + 3] }
    }

    /// Reads an identifier from its 32 bytes.
    pub fn from_bytes(bytes: &[u8; 32]) -> (key: Pubkey)
        ensures
            key == Pubkey::of_bytes(bytes@),
    {
        let b = bytes.as_slice();
        Pubkey {
            w0: read_word(b, 0),
            w1: read_word(b, 8),
            w2: read_word(b, 16),
            w3: read_word(b, 24),
        }
    }

    /// The 32 bytes of the identifier.
    pub fn to_bytes(&self) -> (bytes: [u8; 32])
        ensures
            bytes@ == self@,
    {
        let mut bytes: [u8; 32] = [0u8; 32];
        let b0 = write_word(self.w0);
        let b1 = write_word(self.w1);
        let b2 = write_word(self.w2);
        let b3 = write_word(self.w3);
        let mut k: usize = 0;
        while k < 8
            invariant
                k <= 8,
                b0@ == bytes_of_word(self.w0),
                b1@ == bytes_of_word(self.w1),
                b2@ == bytes_of_word(self.w2),
                b3@ == bytes_of_word(self.w3),
                forall|j: int| 0 <= j < k ==> bytes@[j] == b0@[j],
                forall|j: int| 0 <= j < k ==> bytes@[8 + j] == b1@[j],
                forall|j: int| 0 <= j < k ==> bytes@[16 + j] == b2@[j],
                forall|j: int| 0 <= j < k ==> bytes@[24 + j] == b3@[j],
            decreases 8 - k,
        {
            bytes[k] = b0[k];
            bytes[8 + k] = b1[k];
            bytes[16 + k] = b2[k];
            bytes[24 + k] = b3[k];
            k += 1;
        }
        assert(bytes@ =~= self@);
        bytes
    }

    /// Reads the identifier stored in the four words that start at `at`.
    pub fn from_words(words: &[u64], at: usize) -> (key: Pubkey)
        requires
            at + 4 <= words.len(),
        ensures
            key == Pubkey::of_words(words@, at as int),
    {
        Pubkey { w0: words[at], w1: words[at + 1], w2: words[at + 2], w3: words[at + 3] }
    }
}

/// An identifier read back from its own bytes is the same identifier, and
/// two identifiers with the same bytes are one.
pub proof fn lemma_pubkey_of_its_bytes(key: Pubkey)
    ensures
        key@.len() == 32,
        Pubkey::of_bytes(key@) == key,
{
    lemma_word_of_its_bytes(key.w0);
    lemma_word_of_its_bytes(key.w1);
    lemma_word_of_its_bytes(key.w2);
    lemma_word_of_its_bytes(key.w3);
    assert(key@.subrange(0, 8) =~= bytes_of_word(key.w0));
    assert(key@.subrange(8, 16) =~= bytes_of_word(key.w1));
    assert(key@.subrange(16, 24) =~= bytes_of_word(key.w2));
    assert(key@.subrange(24, 32) =~= bytes_of_word(key.w3));
}

/// The identifier that 32 bytes spell has exactly those bytes.
pub proof fn lemma_bytes_of_their_pubkey(b: Seq<u8>)
    requires
        b.len() == 32,
    ensures
        Pubkey::of_bytes(b)@ == b,
{
    lemma_bytes_of_their_word(b.subrange(0, 8));
    lemma_bytes_of_their_word(b.subrange(8, 16));
    lemma_bytes_of_their_word(b.subrange(16, 24));
    lemma_bytes_of_their_word(b.subrange(24, 32));
    assert(Pubkey::of_bytes(b)@ =~= b);
}

} // verus!
