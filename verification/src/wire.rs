//! Little-endian words on the wire.

use vstd::prelude::*;

verus! {

/// The four bytes of `x`, least significant first.
pub open spec fn le_bytes(x: u32) -> Seq<u8> {
    seq![
        (x % 256) as u8,
        (x / 256 % 256) as u8,
        (x / 65_536 % 256) as u8,
        (x / 16_777_216) as u8,
    ]
}

/// The number whose four bytes, least significant first, start at `at`.
pub open spec fn le_word(bytes: Seq<u8>, at: int) -> u32 {
    (bytes[at] + 256 * bytes[at + 1] + 65_536 * bytes[at + 2] + 16_777_216 * bytes[at + 3]) as u32
}

/// The bytes of every word in turn.
pub open spec fn le_bytes_of(words: Seq<u32>) -> Seq<u8> {
    Seq::new(words.len() * 4, |i: int| le_bytes(words[i / 4])[i % 4])
}

/// Reading a word back gives the word that was written.
pub proof fn lemma_word_round_trip(bytes: Seq<u8>, at: int, x: u32)
    requires
        0 <= at,
        at + 4 <= bytes.len(),
        forall|k: int| 0 <= k < 4 ==> #[trigger] bytes[at + k] == le_bytes(x)[k],
    ensures
        le_word(bytes, at) == x,
{
    assert(bytes[at + 0] == le_bytes(x)[0]);
    assert(bytes[at + 1] == le_bytes(x)[1]);
    assert(bytes[at + 2] == le_bytes(x)[2]);
    assert(bytes[at + 3] == le_bytes(x)[3]);
    assert(bytes[at] == bytes[at + 0]);
}

/// Writing a word that was read gives the bytes back.
pub proof fn lemma_bytes_round_trip(bytes: Seq<u8>, at: int)
    requires
        0 <= at,
        at + 4 <= bytes.len(),
    ensures
        le_bytes(le_word(bytes, at)) =~= bytes.subrange(at, at + 4),
{
    let b0 = bytes[at];
    let b1 = bytes[at + 1];
    let b2 = bytes[at + 2];
    let b3 = bytes[at + 3];
    let x = le_word(bytes, at);
    assert(x == b0 + 256 * b1 + 65_536 * b2 + 16_777_216 * b3);
    assert(x % 256 == b0);
    assert(x / 256 == b1 + 256 * b2 + 65_536 * b3);
    assert(x / 65_536 == b2 + 256 * b3);
    assert(x / 16_777_216 == b3);
}

/// Appends the four bytes of `x`, least significant first.
pub fn push_word(out: &mut Vec<u8>, x: u32)
    ensures
        final(out)@ == old(out)@ + le_bytes(x),
{
    out.push((x % 256) as u8);
    out.push((x / 256 % 256) as u8);
    out.push((x / 65_536 % 256) as u8);
    out.push((x / 16_777_216) as u8);
    proof {
        assert(out@ =~= old(out)@ + le_bytes(x));
    }
}

/// Reads the word whose bytes start at `at`.
pub fn read_word(bytes: &[u8], at: usize) -> (x: u32)
    requires
        at + 4 <= bytes@.len(),
    ensures
        x == le_word(bytes@, at as int),
{
    bytes[at] as u32 + 256 * bytes[at + 1] as u32 + 65_536 * bytes[at + 2] as u32 + 16_777_216
        * bytes[at + 3] as u32
}

/// Appends the bytes of every word in turn.
pub fn push_words(out: &mut Vec<u8>, words: &[u32])
    ensures
        final(out)@ == old(out)@ + le_bytes_of(words@),
{
    let ghost start = out@;
    let mut i: usize = 0;
    while i < words.len()
        invariant
            i <= words@.len(),
            out@ == start + le_bytes_of(words@.take(i as int)),
        decreases words@.len() - i,
    {
        let ghost before = out@;
        push_word(out, words[i]);
        proof {
            assert(out@ =~= start + le_bytes_of(words@.take(i + 1)));
        }
        i = i + 1;
    }
    proof {
        assert(words@.take(words@.len() as int) =~= words@);
    }
}

/// Reads `count` consecutive words, the first of them at `at`.
pub fn read_words(bytes: &[u8], at: usize, count: usize) -> (words: Vec<u32>)
    requires
        at + 4 * count <= bytes@.len(),
    ensures
        words@.len() == count,
        forall|i: int| 0 <= i < count ==> #[trigger] words@[i] == le_word(bytes@, at + 4 * i),
{
    let mut words: Vec<u32> = Vec::new();
    let len: usize = bytes.len();
    let mut i: usize = 0;
    while i < count
        invariant
            i <= count,
            len == bytes@.len(),
            at + 4 * count <= len,
            words@.len() == i,
            forall|k: int| 0 <= k < i ==> #[trigger] words@[k] == le_word(bytes@, at + 4 * k),
        decreases count - i,
    {
        words.push(read_word(bytes, at + 4 * i));
        i = i + 1;
    }
    words
}

/// What [`read_words`] reads of what [`push_words`] wrote is what was written.
pub proof fn lemma_words_round_trip(head: Seq<u8>, words: Seq<u32>, i: int)
    requires
        0 <= i < words.len(),
    ensures
        le_word(head + le_bytes_of(words), head.len() + 4 * i) == words[i],
{
    let bytes = head + le_bytes_of(words);
    let at = head.len() + 4 * i;
    assert forall|k: int| 0 <= k < 4 implies #[trigger] bytes[at + k] == le_bytes(words[i])[k] by {
        assert(bytes[at + k] == le_bytes_of(words)[4 * i + k]);
        assert((4 * i + k) / 4 == i);
        assert((4 * i + k) % 4 == k);
    }
    lemma_word_round_trip(bytes, at, words[i]);
}

/// The bytes of a word are the digits of the number to the base 256, the lowest first.
pub proof fn law_bytes_are_little_endian(x: u32)
    ensures
        le_bytes(x).len() == 4,
        x == le_bytes(x)[0] + 256 * le_bytes(x)[1] + 65_536 * le_bytes(x)[2] + 16_777_216
            * le_bytes(x)[3],
{
}

/// A word is read as the number that its four bytes are the digits of, to the base 256,
/// the lowest first.
pub proof fn law_words_are_little_endian(bytes: Seq<u8>, at: int)
    requires
        0 <= at,
        at + 4 <= bytes.len(),
    ensures
        le_word(bytes, at) == bytes[at] + 256 * bytes[at + 1] + 65_536 * bytes[at + 2] + 16_777_216
            * bytes[at + 3],
{
}

/// Words are written one behind the other, from the first on: word `i` is the number
/// whose digits are the four bytes from `4 * i` on.
pub proof fn law_words_are_written_in_order(words: Seq<u32>, i: int)
    requires
        0 <= i < words.len(),
    ensures
        le_bytes_of(words).len() == 4 * words.len(),
        words[i] == le_bytes_of(words)[4 * i] + 256 * le_bytes_of(words)[4 * i + 1] + 65_536
            * le_bytes_of(words)[4 * i + 2] + 16_777_216 * le_bytes_of(words)[4 * i + 3],
{
    lemma_words_round_trip(Seq::empty(), words, i);
    let bytes = le_bytes_of(words);
    assert(Seq::<u8>::empty() + bytes =~= bytes);
    law_words_are_little_endian(bytes, 4 * i);
}

} // verus!
