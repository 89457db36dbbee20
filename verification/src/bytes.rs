//! Little-endian words and bytes.
//!
//! Every structure of the binary interface is a whole number of 32-bit words, so
//! the layouts are written over words, and this module alone ties words to bytes.

use vstd::prelude::*;

verus! {

/// Byte `i` of a word, counted from the low end.
pub open spec fn byte_of(w: u32, i: int) -> u8 {
    if i == 0 {
        w as u8
    } else if i == 1 {
        (w >> 8) as u8
    } else if i == 2 {
        (w >> 16) as u8
    } else {
        (w >> 24) as u8
    }
}

/// The word that four bytes make, low byte first.
pub open spec fn word_of(b0: u8, b1: u8, b2: u8, b3: u8) -> u32 {
    (b0 as u32) | ((b1 as u32) << 8) | ((b2 as u32) << 16) | ((b3 as u32) << 24)
}

/// The word at byte offset `at`.
pub open spec fn word_at(bytes: Seq<u8>, at: int) -> u32 {
    word_of(bytes[at], bytes[at + 1], bytes[at + 2], bytes[at + 3])
}

/// The low half of a double word.
pub open spec fn low_word(v: u64) -> u32 {
    v as u32
}

/// The high half of a double word.
pub open spec fn high_word(v: u64) -> u32 {
    (v >> 32) as u32
}

/// The double word with the given halves.
pub open spec fn double_word(lo: u32, hi: u32) -> u64 {
    (lo as u64) | ((hi as u64) << 32)
}

/// The word that holds a signed number in two's complement.
pub open spec fn word_of_signed(v: i32) -> u32 {
    v as u32
}

/// The signed number that a word holds in two's complement.
pub open spec fn signed_of_word(w: u32) -> i32 {
    w as i32
}

/// The bytes of a sequence of words.
pub open spec fn bytes_of_words(words: Seq<u32>) -> Seq<u8> {
    Seq::new(4 * words.len(), |i: int| byte_of(words[i / 4], i % 4))
}

/// The `count` words that start at byte offset `at`.
pub open spec fn words_at(bytes: Seq<u8>, at: int, count: nat) -> Seq<u32> {
    Seq::new(count, |i: int| word_at(bytes, at + 4 * i))
}

/// A word is the word of its own bytes.
pub broadcast proof fn word_of_bytes(w: u32)
    ensures
        #[trigger] word_of(byte_of(w, 0), byte_of(w, 1), byte_of(w, 2), byte_of(w, 3)) == w,
{
    assert(((w as u8) as u32) | ((((w >> 8) as u8) as u32) << 8) | ((((w >> 16) as u8) as u32)
        << 16) | ((((w >> 24) as u8) as u32) << 24) == w) by (bit_vector);
}

/// The bytes of a word of four bytes are those bytes.
pub proof fn bytes_of_word(b0: u8, b1: u8, b2: u8, b3: u8)
    ensures
        byte_of(word_of(b0, b1, b2, b3), 0) == b0,
        byte_of(word_of(b0, b1, b2, b3), 1) == b1,
        byte_of(word_of(b0, b1, b2, b3), 2) == b2,
        byte_of(word_of(b0, b1, b2, b3), 3) == b3,
{
    let w = word_of(b0, b1, b2, b3);
    assert(w as u8 == b0 && (w >> 8) as u8 == b1 && (w >> 16) as u8 == b2 && (w >> 24) as u8 == b3)
        by (bit_vector)
        requires
            w == (b0 as u32) | ((b1 as u32) << 8) | ((b2 as u32) << 16) | ((b3 as u32) << 24),
    ;
}

/// A signed number survives the way through a word.
pub broadcast proof fn signed_survives_word(v: i32)
    ensures
        #[trigger] signed_of_word(word_of_signed(v)) == v,
{
    assert((v as u32) as i32 == v) by (bit_vector);
}

/// A double word is made of its halves.
pub broadcast proof fn double_word_of_halves(v: u64)
    ensures
        #[trigger] double_word(low_word(v), high_word(v)) == v,
{
    assert(((v as u32) as u64) | ((((v >> 32) as u32) as u64) << 32) == v) by (bit_vector);
}

/// The halves of a double word are what it was made of.
pub proof fn halves_of_double_word(lo: u32, hi: u32)
    ensures
        low_word(double_word(lo, hi)) == lo,
        high_word(double_word(lo, hi)) == hi,
{
    let v = double_word(lo, hi);
    assert(v as u32 == lo && (v >> 32) as u32 == hi) by (bit_vector)
        requires
            v == (lo as u64) | ((hi as u64) << 32),
    ;
}

/// The word at a word boundary of a byte image, whatever follows the image.
pub proof fn word_in_image(words: Seq<u32>, rest: Seq<u8>, k: int)
    requires
        0 <= k < words.len(),
    ensures
        word_at(bytes_of_words(words) + rest, 4 * k) == words[k],
{
    broadcast use word_of_bytes;

    let bytes = bytes_of_words(words);
    let all = bytes + rest;
    assert(all[4 * k] == bytes[4 * k] == byte_of(words[k], 0));
    assert(all[4 * k + 1] == bytes[4 * k + 1] == byte_of(words[k], 1));
    assert(all[4 * k + 2] == bytes[4 * k + 2] == byte_of(words[k], 2));
    assert(all[4 * k + 3] == bytes[4 * k + 3] == byte_of(words[k], 3));
}

/// Reading the words back out of their bytes gives the words.
pub proof fn words_survive_bytes(words: Seq<u32>)
    ensures
        words_at(bytes_of_words(words), 0, words.len()) == words,
{
    broadcast use word_of_bytes;

    let bytes = bytes_of_words(words);
    assert forall|i: int| 0 <= i < words.len() implies #[trigger] words_at(
        bytes,
        0,
        words.len(),
    )[i] == words[i] by {
        assert(bytes[4 * i] == byte_of(words[i], 0));
        assert(bytes[4 * i + 1] == byte_of(words[i], 1));
        assert(bytes[4 * i + 2] == byte_of(words[i], 2));
        assert(bytes[4 * i + 3] == byte_of(words[i], 3));
    }
    assert(words_at(bytes, 0, words.len()) =~= words);
}

/// Words read from the middle of a byte image are the words that lie there.
pub proof fn words_at_bytes_of_words(words: Seq<u32>, start: int, count: nat)
    requires
        0 <= start,
        start + count <= words.len(),
    ensures
        words_at(bytes_of_words(words), 4 * start, count) == words.subrange(start, start + count),
{
    broadcast use word_of_bytes;

    let bytes = bytes_of_words(words);
    assert forall|i: int| 0 <= i < count implies #[trigger] words_at(bytes, 4 * start, count)[i]
        == words[start + i] by {
        let k = start + i;
        assert(4 * start + 4 * i == 4 * k);
        assert(bytes[4 * k] == byte_of(words[k], 0));
        assert(bytes[4 * k + 1] == byte_of(words[k], 1));
        assert(bytes[4 * k + 2] == byte_of(words[k], 2));
        assert(bytes[4 * k + 3] == byte_of(words[k], 3));
    }
    assert(words_at(bytes, 4 * start, count) =~= words.subrange(start, start + count));
}

/// The bytes of `words`, low byte of each word first.
pub fn words_to_bytes(words: &[u32]) -> (r: Vec<u8>)
    requires
        4 * words@.len() <= usize::MAX,
    ensures
        r@ == bytes_of_words(words@),
{
    let mut out: Vec<u8> = Vec::new();
    let mut i: usize = 0;
    while i < words.len()
        invariant
            i <= words@.len(),
            4 * words@.len() <= usize::MAX,
            out@.len() == 4 * i,
            forall|j: int| 0 <= j < out@.len() ==> out@[j] == byte_of(words@[j / 4], j % 4),
        decreases words@.len() - i,
    {
        let w: u32 = words[i];
        out.push(w as u8);
        out.push((w >> 8) as u8);
        out.push((w >> 16) as u8);
        out.push((w >> 24) as u8);
        i = i + 1;
    }
    assert(out@ =~= bytes_of_words(words@));
    out
}

/// The word at byte offset `at`.
pub fn read_word(bytes: &[u8], at: usize) -> (r: u32)
    requires
        at + 4 <= bytes@.len(),
    ensures
        r == word_at(bytes@, at as int),
{
    (bytes[at] as u32) | ((bytes[at + 1] as u32) << 8) | ((bytes[at + 2] as u32) << 16) | ((
    bytes[at + 3] as u32) << 24)
}

/// The `count` words that start at byte offset `at`.
pub fn read_words(bytes: &[u8], at: usize, count: usize) -> (r: Vec<u32>)
    requires
        at + 4 * count <= bytes@.len(),
    ensures
        r@ == words_at(bytes@, at as int, count as nat),
{
    let mut out: Vec<u32> = Vec::new();
    let mut i: usize = 0;
    let total: usize = bytes.len();
    while i < count
        invariant
            i <= count,
            at + 4 * count <= total == bytes@.len(),
            out@ == words_at(bytes@, at as int, i as nat),
        decreases count - i,
    {
        let w: u32 = read_word(bytes, at + 4 * i);
        out.push(w);
        i = i + 1;
        assert(out@ =~= words_at(bytes@, at as int, i as nat));
    }
    out
}

/// The word that holds a signed number in two's complement.
pub fn signed_to_word(v: i32) -> (r: u32)
    ensures
        r == word_of_signed(v),
{
    v as u32
}

/// The signed number that a word holds in two's complement.
pub fn word_to_signed(w: u32) -> (r: i32)
    ensures
        r == signed_of_word(w),
{
    w as i32
}

/// The low half of a double word.
pub fn low_half(v: u64) -> (r: u32)
    ensures
        r == low_word(v),
{
    v as u32
}

/// The high half of a double word.
pub fn high_half(v: u64) -> (r: u32)
    ensures
        r == high_word(v),
{
    (v >> 32) as u32
}

/// The double word with the given halves.
pub fn join_halves(lo: u32, hi: u32) -> (r: u64)
    ensures
        r == double_word(lo, hi),
{
    (lo as u64) | ((hi as u64) << 32)
}


/// A word is the sum of its bytes, each worth 256 times the one before it.
pub proof fn low_byte_comes_first(bytes: Seq<u8>, at: int)
    ensures
        word_at(bytes, at) == bytes[at] + 0x100 * bytes[at + 1] + 0x1_0000 * bytes[at + 2]
            + 0x100_0000 * bytes[at + 3],
{
    let (b0, b1, b2, b3) = (bytes[at], bytes[at + 1], bytes[at + 2], bytes[at + 3]);
    assert((b0 as u32) | ((b1 as u32) << 8) | ((b2 as u32) << 16) | ((b3 as u32) << 24) == b0
        + 0x100 * b1 + 0x1_0000 * b2 + 0x100_0000 * b3) by (bit_vector);
}

/// A double word is its low half plus 2^32 times its high half.
pub proof fn low_half_counts_once(lo: u32, hi: u32)
    ensures
        double_word(lo, hi) == lo + 0x1_0000_0000 * hi,
{
    assert((lo as u64) | ((hi as u64) << 32) == lo + 0x1_0000_0000 * hi) by (bit_vector);
}

/// A word holds a signed number in two's complement: negative ones stand 2^32 higher.
pub proof fn negative_words_stand_higher(w: u32)
    ensures
        signed_of_word(w) == (if w < 0x8000_0000 {
            w as int
        } else {
            w - 0x1_0000_0000
        }),
{
    assert(w < 0x8000_0000 ==> w as i32 == w) by (bit_vector);
    assert(w >= 0x8000_0000 ==> w as i32 == w - 0x1_0000_0000) by (bit_vector);
}

} // verus!
