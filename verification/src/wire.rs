//! Little-endian integers inside byte buffers.
//!
//! A word is a `u32` laid out in four bytes, least significant first; a half
//! word is a `u16` in two. Runs of words are read from and appended to byte
//! buffers, and reading back what was appended gives the same words.

use vstd::prelude::*;

verus! {

/// The word whose bytes, least significant first, are `b0` to `b3`.
pub open spec fn word_of(b0: u8, b1: u8, b2: u8, b3: u8) -> u32 {
    (b0 + 256 * b1 + 65536 * b2 + 16777216 * b3) as u32
}

/// Byte `k` of a word, counting from the least significant.
pub open spec fn byte_of(w: u32, k: int) -> u8 {
    if k == 0 {
        (w % 256) as u8
    } else if k == 1 {
        (w / 256 % 256) as u8
    } else if k == 2 {
        (w / 65536 % 256) as u8
    } else {
        (w / 16777216 % 256) as u8
    }
}

/// The four bytes of a word.
pub open spec fn word_bytes(w: u32) -> Seq<u8> {
    seq![byte_of(w, 0), byte_of(w, 1), byte_of(w, 2), byte_of(w, 3)]
}

/// The word that starts at byte `at`.
pub open spec fn word_at(bytes: Seq<u8>, at: int) -> u32 {
    word_of(bytes[at], bytes[at + 1], bytes[at + 2], bytes[at + 3])
}

/// The bytes of a run of words, one word after the other.
pub open spec fn words_bytes(words: Seq<u32>) -> Seq<u8> {
    Seq::new(4 * words.len(), |i: int| byte_of(words[i / 4], i % 4))
}

/// The `n` words that start at byte `at`.
pub open spec fn words_at(bytes: Seq<u8>, at: int, n: nat) -> Seq<u32> {
    Seq::new(n, |k: int| word_at(bytes, at + 4 * k))
}

/// The half word whose bytes, least significant first, are `b0` and `b1`.
pub open spec fn half_of(b0: u8, b1: u8) -> u16 {
    (b0 + 256 * b1) as u16
}

/// The two bytes of a half word.
pub open spec fn half_bytes(h: u16) -> Seq<u8> {
    seq![(h % 256) as u8, (h / 256) as u8]
}

/// A word is recovered from its four bytes.
pub proof fn lemma_word_of_bytes(w: u32)
    ensures
        word_of(byte_of(w, 0), byte_of(w, 1), byte_of(w, 2), byte_of(w, 3)) == w,
        word_at(word_bytes(w), 0) == w,
{
}

/// A half word is recovered from its two bytes.
pub proof fn lemma_half_of_bytes(h: u16)
    ensures
        half_of(half_bytes(h)[0], half_bytes(h)[1]) == h,
{
}

/// A run of words is recovered from its bytes wherever they stand in a buffer.
pub proof fn lemma_words_at_words_bytes(before: Seq<u8>, words: Seq<u32>, after: Seq<u8>)
    ensures
        words_at(before + words_bytes(words) + after, before.len() as int, words.len()) == words,
{
    let bytes = before + words_bytes(words) + after;
    let at = before.len() as int;
    assert forall|k: int| 0 <= k < words.len() implies word_at(bytes, at + 4 * k) == words[k] by {
        let w = words[k];
        lemma_word_of_bytes(w);
    }
}

/// The bytes of a run that grows by one word grow by that word's bytes.
pub proof fn lemma_words_bytes_push(words: Seq<u32>, w: u32)
    ensures
        words_bytes(words.push(w)) == words_bytes(words) + word_bytes(w),
{
}

/// Reads the word that starts at byte `at`.
pub fn read_word(bytes: &[u8], at: usize) -> (w: u32)
    requires
        at + 4 <= bytes@.len(),
    ensures
        w == word_at(bytes@, at as int),
{
    let b0: u32 = bytes[at] as u32;
    let b1: u32 = bytes[at + 1] as u32;
    let b2: u32 = bytes[at + 2] as u32;
    let b3: u32 = bytes[at + 3] as u32;
    b0 + 256 * b1 + 65536 * b2 + 16777216 * b3
}

/// Reads the half word that starts at byte `at`.
pub fn read_half(bytes: &[u8], at: usize) -> (h: u16)
    requires
        at + 2 <= bytes@.len(),
    ensures
        h == half_of(bytes@[at as int], bytes@[at + 1]),
{
    let b0: u16 = bytes[at] as u16;
    let b1: u16 = bytes[at + 1] as u16;
    b0 + 256 * b1
}

/// Reads the `n` words that start at byte `at`.
pub fn read_words(bytes: &[u8], at: usize, n: usize) -> (words: Vec<u32>)
    requires
        at + 4 * n <= bytes@.len(),
    ensures
        words@ == words_at(bytes@, at as int, n as nat),
{
    let len: usize = bytes.len();
    let mut words: Vec<u32> = Vec::new();
    let mut k: usize = 0;
    while k < n
        invariant
            len == bytes@.len(),
            at + 4 * n <= len,
            k <= n,
            words@ == words_at(bytes@, at as int, k as nat),
        decreases n - k,
    {
        let w: u32 = read_word(bytes, at + 4 * k);
        words.push(w);
        k += 1;
    }
    words
}

/// Appends the four bytes of a word.
pub fn push_word(out: &mut Vec<u8>, w: u32)
    ensures
        final(out)@ == old(out)@ + word_bytes(w),
{
    out.push((w % 256) as u8);
    out.push((w / 256 % 256) as u8);
    out.push((w / 65536 % 256) as u8);
    out.push((w / 16777216 % 256) as u8);
}

/// Appends the two bytes of a half word.
pub fn push_half(out: &mut Vec<u8>, h: u16)
    ensures
        final(out)@ == old(out)@ + half_bytes(h),
{
    out.push((h % 256) as u8);
    out.push((h / 256) as u8);
}

/// Appends the bytes of a run of words.
pub fn push_words(out: &mut Vec<u8>, words: &[u32])
    ensures
        final(out)@ == old(out)@ + words_bytes(words@),
{
    let n: usize = words.len();
    let mut k: usize = 0;
    while k < n
        invariant
            n == words@.len(),
            k <= n,
            out@ == old(out)@ + words_bytes(words@.take(k as int)),
        decreases n - k,
    {
        push_word(out, words[k]);
        proof {
            lemma_words_bytes_push(words@.take(k as int), words@[k as int]);
        }
        k += 1;
    }
}

} // verus!
