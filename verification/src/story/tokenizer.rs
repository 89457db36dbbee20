//! From text to tokens: the longest known piece first, single bytes where none fits.

use crate::story::model::VOCAB;
use crate::text::same_bytes;
use vstd::prelude::*;
use vstd::slice::slice_subrange;

verus! {

/// The pieces of text that tokens stand for.
pub struct Tokenizer {
    pieces: Vec<String>,
    bos: usize,
    eos: usize,
    unk: usize,
    max_piece_bytes: usize,
}

/// The encodings of the pieces.
pub open spec fn encoded(pieces: Seq<Seq<char>>) -> Seq<Seq<u8>> {
    Seq::new(pieces.len(), |i: int| vstd::utf8::encode_utf8(pieces[i]))
}

/// The first piece, from `from` on, that is the given word.
pub open spec fn piece_from(pieces: Seq<Seq<u8>>, word: Seq<u8>, from: int) -> Option<usize>
    decreases pieces.len() - from,
{
    if from >= pieces.len() {
        None
    } else if pieces[from] == word {
        Some(from as usize)
    } else {
        piece_from(pieces, word, from + 1)
    }
}

/// The longest piece that the text continues with at `pos`, up to `end`: its token and
/// where it ends.
pub open spec fn longest_piece(pieces: Seq<Seq<u8>>, text: Seq<u8>, pos: int, end: int) -> Option<
    (usize, int),
>
    decreases end - pos,
{
    if end <= pos {
        None
    } else {
        match piece_from(pieces, text.subrange(pos, end), 0) {
            Some(token) => Some((token, end)),
            None => longest_piece(pieces, text, pos, end - 1),
        }
    }
}

/// A hexadecimal digit.
pub open spec fn hex_digit(value: int) -> u8 {
    if value < 10 {
        (48 + value) as u8
    } else {
        (55 + value) as u8
    }
}

/// The piece that stands for a single byte, such as `<0x0A>`.
pub open spec fn byte_piece(byte: u8) -> Seq<u8> {
    seq![60, 48, 120, hex_digit(byte as int / 16), hex_digit(byte as int % 16), 62]
}

/// The token of a single byte.
pub open spec fn byte_token(pieces: Seq<Seq<u8>>, unk: usize, byte: u8) -> usize {
    match piece_from(pieces, byte_piece(byte), 0) {
        Some(token) => token,
        None => unk,
    }
}

/// The tokens of the text from `pos` on.
pub open spec fn tokens_from(pieces: Seq<Seq<u8>>, unk: usize, text: Seq<u8>, pos: int) -> Seq<
    usize,
>
    decreases text.len() - pos,
{
    if pos >= text.len() {
        Seq::empty()
    } else {
        match longest_piece(pieces, text, pos, text.len() as int) {
            Some((token, end)) => if pos < end <= text.len() {
                seq![token] + tokens_from(pieces, unk, text, end)
            } else {
                Seq::empty()
            },
            None => {
                let next = pos + vstd::utf8::length_of_first_scalar(text.skip(pos));
                if pos < next <= text.len() {
                    Seq::new(
                        (next - pos) as nat,
                        |i: int| byte_token(pieces, unk, text[pos + i]),
                    ) + tokens_from(pieces, unk, text, next)
                } else {
                    Seq::empty()
                }
            },
        }
    }
}

/// The character that stands for a space at the start of a word.
pub open spec fn word_mark() -> char {
    '\u{2581}'
}

/// The text as the pieces write it: a mark in front, and a mark for every space.
pub open spec fn normalized(text: Seq<char>) -> Seq<char> {
    seq![word_mark()] + marked(text)
}

/// The text with a mark for every space.
pub open spec fn marked(text: Seq<char>) -> Seq<char> {
    Seq::new(
        text.len(),
        |i: int|
            if text[i] == ' ' {
                word_mark()
            } else {
                text[i]
            },
    )
}

/// The encoding of the mark.
spec fn mark_bytes() -> Seq<u8> {
    seq![0xe2, 0x96, 0x81]
}

/// The encoding of a text with a mark for every space, byte by byte.
spec fn marked_bytes(bytes: Seq<u8>) -> Seq<u8>
    decreases bytes.len(),
{
    if bytes.len() == 0 {
        Seq::empty()
    } else {
        (if bytes[0] == 0x20 {
            mark_bytes()
        } else {
            seq![bytes[0]]
        }) + marked_bytes(bytes.skip(1))
    }
}

proof fn marked_bytes_join(a: Seq<u8>, b: Seq<u8>)
    ensures
        marked_bytes(a + b) == marked_bytes(a) + marked_bytes(b),
    decreases a.len(),
{
    if a.len() == 0 {
        assert(a + b =~= b);
        assert(marked_bytes(a) + marked_bytes(b) =~= marked_bytes(b));
    } else {
        marked_bytes_join(a.skip(1), b);
        assert((a + b).skip(1) =~= a.skip(1) + b);
        let head = if a[0] == 0x20 {
            mark_bytes()
        } else {
            seq![a[0]]
        };
        assert(head + (marked_bytes(a.skip(1)) + marked_bytes(b)) =~= (head + marked_bytes(
            a.skip(1),
        )) + marked_bytes(b));
    }
}

proof fn unmarked_bytes(bytes: Seq<u8>)
    requires
        forall|i: int| 0 <= i < bytes.len() ==> #[trigger] bytes[i] != 0x20,
    ensures
        marked_bytes(bytes) == bytes,
    decreases bytes.len(),
{
    if bytes.len() > 0 {
        let rest = bytes.skip(1);
        assert forall|i: int| 0 <= i < rest.len() implies #[trigger] rest[i] != 0x20 by {
            assert(rest[i] == bytes[i + 1]);
        }
        unmarked_bytes(rest);
        assert(seq![bytes[0]] + rest =~= bytes);
    } else {
        assert(marked_bytes(bytes) =~= bytes);
    }
}

/// Encoding the mark.
proof fn mark_is_encoded()
    ensures
        vstd::utf8::encode_scalar(word_mark() as u32) == mark_bytes(),
{
    assert(0xE0u8 | ((0x2581u32 >> 12) & 0x0F) as u8 == 0xe2u8) by (bit_vector);
    assert(0x80u8 | ((0x2581u32 >> 6) & 0x3F) as u8 == 0x96u8) by (bit_vector);
    assert(0x80u8 | (0x2581u32 & 0x3F) as u8 == 0x81u8) by (bit_vector);
    assert(word_mark() as u32 == 0x2581u32);
    assert(vstd::utf8::encode_scalar(word_mark() as u32) =~= mark_bytes());
}

proof fn char_is_marked(c: char)
    ensures
        marked_bytes(vstd::utf8::encode_scalar(c as u32)) == vstd::utf8::encode_scalar(
            (if c == ' ' {
                word_mark()
            } else {
                c
            }) as u32,
        ),
{
    let v = c as u32;
    let bytes = vstd::utf8::encode_scalar(v);
    assert(v <= 0x7f ==> (v & 0x7F) as u8 == v) by (bit_vector);
    if c == ' ' {
        assert(v == 0x20);
        mark_is_encoded();
        assert(bytes =~= seq![0x20u8]);
        assert(bytes.skip(1) =~= Seq::<u8>::empty());
        assert(marked_bytes(bytes.skip(1)) =~= Seq::<u8>::empty());
        assert(marked_bytes(bytes) =~= mark_bytes());
    } else {
        let a = ((v >> 6) & 0x1F) as u8;
        let b = ((v >> 12) & 0x0F) as u8;
        let d = ((v >> 18) & 0x7) as u8;
        let e = (v & 0x3F) as u8;
        let f = ((v >> 6) & 0x3F) as u8;
        let g = ((v >> 12) & 0x3F) as u8;
        assert(0xC0u8 | a != 0x20u8 && 0xE0u8 | b != 0x20u8 && 0xF0u8 | d != 0x20u8 && 0x80u8 | e
            != 0x20u8 && 0x80u8 | f != 0x20u8 && 0x80u8 | g != 0x20u8) by (bit_vector);
        assert(v != 0x20);
        unmarked_bytes(bytes);
    }
}

/// Marking the spaces of a text marks those of its encoding.
proof fn marks_are_encoded(text: Seq<char>)
    ensures
        vstd::utf8::encode_utf8(marked(text)) == marked_bytes(vstd::utf8::encode_utf8(text)),
    decreases text.len(),
{
    if text.len() == 0 {
        assert(marked(text) =~= text);
        assert(marked_bytes(vstd::utf8::encode_utf8(text)) =~= Seq::<u8>::empty());
    } else {
        marks_are_encoded(text.drop_first());
        assert(marked(text).drop_first() =~= marked(text.drop_first()));
        char_is_marked(text[0]);
        marked_bytes_join(
            vstd::utf8::encode_scalar(text[0] as u32),
            vstd::utf8::encode_utf8(text.drop_first()),
        );
    }
}

/// The encoding of the text as the pieces write it.
pub fn normalize_llama_text(text: &str) -> (r: Vec<u8>)
    ensures
        r@ == vstd::utf8::encode_utf8(normalized(text@)),
{
    let bytes: &[u8] = text.as_bytes();
    let mut out: Vec<u8> = Vec::new();
    out.push(0xe2);
    out.push(0x96);
    out.push(0x81);
    let mut i: usize = 0;
    assert(marked_bytes(bytes@.take(0)) =~= Seq::<u8>::empty());
    assert(out@ =~= mark_bytes() + marked_bytes(bytes@.take(0)));
    while i < bytes.len()
        invariant
            i <= bytes@.len(),
            out@ == mark_bytes() + marked_bytes(bytes@.take(i as int)),
        decreases bytes@.len() - i,
    {
        let byte: u8 = bytes[i];
        let ghost before = out@;
        if byte == 0x20 {
            out.push(0xe2);
            out.push(0x96);
            out.push(0x81);
        } else {
            out.push(byte);
        }
        proof {
            let one = seq![byte];
            assert(bytes@.take(i + 1) =~= bytes@.take(i as int) + one);
            marked_bytes_join(bytes@.take(i as int), one);
            assert(one.skip(1) =~= Seq::<u8>::empty());
            assert(marked_bytes(one.skip(1)) =~= Seq::<u8>::empty());
            let added = if byte == 0x20 {
                mark_bytes()
            } else {
                one
            };
            assert(marked_bytes(one) =~= added);
            assert(out@ =~= before + added);
            assert(before + added =~= mark_bytes() + (marked_bytes(bytes@.take(i as int))
                + added));
        }
        i = i + 1;
    }
    proof {
        assert(bytes@.take(i as int) =~= bytes@);
        marks_are_encoded(text@);
        mark_is_encoded();
        let whole = normalized(text@);
        assert(whole.drop_first() =~= marked(text@));
    }
    out
}

/// A valid text that starts with a valid text goes on with one.
proof fn rest_is_valid(text: Seq<u8>, len: int)
    requires
        0 <= len <= text.len(),
        vstd::utf8::valid_utf8(text),
        vstd::utf8::valid_utf8(text.take(len)),
    ensures
        vstd::utf8::valid_utf8(text.skip(len)),
    decreases text.len(),
{
    if len == 0 {
        assert(text.skip(0) =~= text);
    } else {
        let head = text.take(len);
        let k = vstd::utf8::length_of_first_scalar(text);
        assert(head[0] == text[0]);
        assert(vstd::utf8::length_of_first_scalar(head) == k);
        assert(1 <= k <= len);
        let rest = vstd::utf8::pop_first_scalar(text);
        assert(vstd::utf8::pop_first_scalar(head) =~= rest.take(len - k));
        rest_is_valid(rest, len - k);
        assert(rest.skip(len - k) =~= text.skip(len));
    }
}

/// A match found from `from` on is a piece, and no piece before it is.
proof fn piece_from_finds(pieces: Seq<Seq<u8>>, word: Seq<u8>, from: int)
    requires
        0 <= from,
        pieces.len() <= usize::MAX,
    ensures
        match piece_from(pieces, word, from) {
            Some(token) => from <= token < pieces.len() && pieces[token as int] == word,
            None => forall|i: int| from <= i < pieces.len() ==> #[trigger] pieces[i] != word,
        },
    decreases pieces.len() - from,
{
    if from < pieces.len() && pieces[from] != word {
        piece_from_finds(pieces, word, from + 1);
    }
}

/// Pieces that are too long never match.
proof fn long_words_match_nothing(
    pieces: Seq<Seq<u8>>,
    text: Seq<u8>,
    pos: int,
    near: int,
    far: int,
    longest: int,
)
    requires
        0 <= pos <= near <= far <= text.len(),
        near >= pos + longest || near == far,
        pieces.len() <= usize::MAX,
        forall|i: int| 0 <= i < pieces.len() ==> (#[trigger] pieces[i]).len() <= longest,
    ensures
        longest_piece(pieces, text, pos, far) == longest_piece(pieces, text, pos, near),
    decreases far - near,
{
    if near < far {
        let word = text.subrange(pos, far);
        piece_from_finds(pieces, word, 0);
        assert(word.len() > longest);
        long_words_match_nothing(pieces, text, pos, near, far - 1, longest);
    }
}

proof fn longest_piece_ends(pieces: Seq<Seq<u8>>, text: Seq<u8>, pos: int, end: int)
    requires
        0 <= pos,
        end <= text.len(),
        pieces.len() <= usize::MAX,
    ensures
        longest_piece(pieces, text, pos, end) matches Some((token, at)) ==> {
            &&& pos < at <= end
            &&& token < pieces.len()
            &&& pieces[token as int] == text.subrange(pos, at)
        },
    decreases end - pos,
{
    if end > pos {
        piece_from_finds(pieces, text.subrange(pos, end), 0);
        if piece_from(pieces, text.subrange(pos, end), 0) is None {
            longest_piece_ends(pieces, text, pos, end - 1);
        }
    }
}

impl Tokenizer {
    /// The pieces of text.
    pub closed spec fn texts(&self) -> Seq<Seq<char>> {
        Seq::new(self.pieces@.len(), |i: int| self.pieces@[i]@)
    }

    /// The token that starts a text.
    pub closed spec fn bos_token(&self) -> usize {
        self.bos
    }

    /// The token that ends a text.
    pub closed spec fn eos_token(&self) -> usize {
        self.eos
    }

    /// The token for what is not known.
    pub closed spec fn unk_token(&self) -> usize {
        self.unk
    }

    /// There is a piece for every token, and none is longer than the longest.
    pub closed spec fn wf(&self) -> bool {
        &&& self.pieces@.len() == VOCAB
        &&& forall|i: int|
            0 <= i < self.pieces@.len() ==> (#[trigger] vstd::utf8::encode_utf8(
                self.pieces@[i]@,
            )).len() <= self.max_piece_bytes
    }

    /// A tokenizer, unless the number of pieces is not that of the model.
    pub fn new(pieces: Vec<String>, bos: usize, eos: usize, unk: usize) -> (r: Option<Self>)
        ensures
            match r {
                Some(tokenizer) => {
                    &&& pieces@.len() == VOCAB
                    &&& tokenizer.wf()
                    &&& tokenizer.texts() == Seq::new(pieces@.len(), |i: int| pieces@[i]@)
                    &&& tokenizer.bos_token() == bos
                    &&& tokenizer.eos_token() == eos
                    &&& tokenizer.unk_token() == unk
                },
                None => pieces@.len() != VOCAB,
            },
    {
        if pieces.len() != VOCAB {
            return None;
        }
        let mut longest: usize = 0;
        let mut i: usize = 0;
        while i < pieces.len()
            invariant
                i <= pieces@.len(),
                forall|j: int|
                    0 <= j < i ==> (#[trigger] vstd::utf8::encode_utf8(pieces@[j]@)).len()
                        <= longest,
            decreases pieces@.len() - i,
        {
            let len: usize = pieces[i].as_str().as_bytes().len();
            if len > longest {
                longest = len;
            }
            i = i + 1;
        }
        Some(Tokenizer { pieces, bos, eos, unk, max_piece_bytes: longest })
    }

    /// The token that starts a text.
    pub fn bos(&self) -> (r: usize)
        ensures
            r == self.bos_token(),
    {
        self.bos
    }

    /// The token that ends a text.
    pub fn eos(&self) -> (r: usize)
        ensures
            r == self.eos_token(),
    {
        self.eos
    }

    /// The token for what is not known.
    pub fn unk(&self) -> (r: usize)
        ensures
            r == self.unk_token(),
    {
        self.unk
    }

    /// The piece of a token.
    pub fn piece(&self, token: usize) -> (r: &str)
        ensures
            r@ == (if token < self.texts().len() {
                self.texts()[token as int]
            } else {
                "<bad-token>"@
            }),
    {
        if token < self.pieces.len() {
            self.pieces[token].as_str()
        } else {
            "<bad-token>"
        }
    }

    fn find(&self, word: &[u8]) -> (r: Option<usize>)
        ensures
            r == piece_from(encoded(self.texts()), word@, 0),
    {
        let ghost pieces = encoded(self.texts());
        let mut i: usize = 0;
        while i < self.pieces.len()
            invariant
                i <= self.pieces@.len(),
                pieces == encoded(self.texts()),
                piece_from(pieces, word@, 0) == piece_from(pieces, word@, i as int),
            decreases self.pieces@.len() - i,
        {
            let bytes: &[u8] = self.pieces[i].as_str().as_bytes();
            assert(pieces[i as int] == bytes@);
            if same_bytes(bytes, word) {
                return Some(i);
            }
            i = i + 1;
        }
        None
    }

    fn find_byte(&self, byte: u8) -> (r: usize)
        ensures
            r == byte_token(encoded(self.texts()), self.unk_token(), byte),
    {
        let high: u8 = byte / 16;
        let low: u8 = byte % 16;
        let first: u8 = if high < 10 {
            48 + high
        } else {
            55 + high
        };
        let second: u8 = if low < 10 {
            48 + low
        } else {
            55 + low
        };
        let word: Vec<u8> = vec![60, 48, 120, first, second, 62];
        assert(word@ =~= byte_piece(byte));
        match self.find(&word) {
            Some(token) => token,
            None => self.unk,
        }
    }

    fn find_longest(&self, text: &[u8], pos: usize) -> (r: Option<(usize, usize)>)
        requires
            self.wf(),
            pos < text@.len(),
        ensures
            match longest_piece(encoded(self.texts()), text@, pos as int, text@.len() as int) {
                Some((token, end)) => r matches Some((t, e)) && t == token && e == end,
                None => r is None,
            },
    {
        let ghost pieces = encoded(self.texts());
        let total: usize = text.len();
        let mut end: usize = if total - pos < self.max_piece_bytes {
            total
        } else {
            pos + self.max_piece_bytes
        };
        proof {
            assert forall|i: int| 0 <= i < pieces.len() implies (#[trigger] pieces[i]).len()
                <= self.max_piece_bytes by {
                assert(pieces[i] == vstd::utf8::encode_utf8(self.pieces@[i]@));
            }
            long_words_match_nothing(
                pieces,
                text@,
                pos as int,
                end as int,
                total as int,
                self.max_piece_bytes as int,
            );
        }
        while end > pos
            invariant
                pos <= end <= total == text@.len(),
                pieces == encoded(self.texts()),
                longest_piece(pieces, text@, pos as int, total as int) == longest_piece(
                    pieces,
                    text@,
                    pos as int,
                    end as int,
                ),
            decreases end,
        {
            match self.find(slice_subrange(text, pos, end)) {
                Some(token) => {
                    return Some((token, end));
                },
                None => {},
            }
            end = end - 1;
        }
        None
    }

    /// The tokens of a text, after the token that starts one where that is asked for.
    pub fn tokenize(&self, text: &str, add_bos: bool) -> (r: Vec<usize>)
        requires
            self.wf(),
        ensures
            r@ == (if add_bos {
                seq![self.bos_token()]
            } else {
                Seq::empty()
            }) + tokens_from(
                encoded(self.texts()),
                self.unk_token(),
                vstd::utf8::encode_utf8(normalized(text@)),
                0,
            ),
    {
        let ghost pieces = encoded(self.texts());
        let ghost unk = self.unk_token();
        let mut out: Vec<usize> = Vec::new();
        if add_bos {
            out.push(self.bos);
        }
        let ghost first = out@;
        assert(first =~= if add_bos {
            seq![self.bos_token()]
        } else {
            Seq::empty()
        });
        let whole: Vec<u8> = normalize_llama_text(text);
        proof {
            vstd::utf8::encode_utf8_valid_utf8(normalized(text@));
            assert(whole@.skip(0) =~= whole@);
        }
        let mut pos: usize = 0;
        let ghost all = first + tokens_from(pieces, unk, whole@, 0);
        while pos < whole.len()
            invariant
                self.wf(),
                pieces == encoded(self.texts()),
                unk == self.unk_token(),
                pos <= whole@.len(),
                vstd::utf8::valid_utf8(whole@.skip(pos as int)),
                all == out@ + tokens_from(pieces, unk, whole@, pos as int),
            decreases whole@.len() - pos,
        {
            let ghost rest = whole@.skip(pos as int);
            match self.find_longest(&whole, pos) {
                Some((token, end)) => {
                    proof {
                        longest_piece_ends(pieces, whole@, pos as int, whole@.len() as int);
                        let piece = pieces[token as int];
                        vstd::utf8::encode_utf8_valid_utf8(self.pieces@[token as int]@);
                        assert(rest.take(end - pos) =~= piece);
                        rest_is_valid(rest, end - pos);
                        assert(rest.skip(end - pos) =~= whole@.skip(end as int));
                        assert(out@ + (seq![token] + tokens_from(pieces, unk, whole@, end as int))
                            =~= out@.push(token) + tokens_from(pieces, unk, whole@, end as int));
                    }
                    out.push(token);
                    pos = end;
                },
                None => {
                    let next: usize = pos + scalar_len(whole[pos]);
                    let ghost before = out@;
                    let ghost start = pos as int;
                    proof {
                        assert(rest[0] == whole@[start]);
                        assert(next - start == vstd::utf8::length_of_first_scalar(rest));
                        assert(vstd::utf8::pop_first_scalar(rest) =~= whole@.skip(next as int));
                    }
                    while pos < next
                        invariant
                            self.wf(),
                            pieces == encoded(self.texts()),
                            unk == self.unk_token(),
                            start <= pos <= next <= whole@.len(),
                            out@ =~= before + Seq::new(
                                (pos - start) as nat,
                                |i: int| byte_token(pieces, unk, whole@[start + i]),
                            ),
                        decreases next - pos,
                    {
                        out.push(self.find_byte(whole[pos]));
                        pos = pos + 1;
                    }
                    assert(all =~= out@ + tokens_from(pieces, unk, whole@, next as int));
                },
            }
        }
        assert(out@ + Seq::<usize>::empty() =~= out@);
        out
    }
}

/// Bytes of the character that starts with the given byte.
fn scalar_len(lead: u8) -> (r: usize)
    ensures
        1 <= r <= 4,
        forall|bytes: Seq<u8>|
            #![trigger vstd::utf8::length_of_first_scalar(bytes)]
            bytes.len() > 0 && bytes[0] == lead && vstd::utf8::valid_first_scalar(bytes) ==> r
                == vstd::utf8::length_of_first_scalar(bytes) && r <= bytes.len(),
{
    if lead < 0x80 {
        1
    } else if lead < 0xe0 {
        2
    } else if lead < 0xf0 {
        3
    } else {
        4
    }
}

/// Every token that a text gives is one of the pieces, or the token for what is not known.
pub proof fn tokens_are_known(pieces: Seq<Seq<u8>>, unk: usize, text: Seq<u8>, pos: int)
    requires
        pieces.len() <= usize::MAX,
        0 <= pos,
    ensures
        forall|i: int|
            0 <= i < tokens_from(pieces, unk, text, pos).len() ==> {
                let token = #[trigger] tokens_from(pieces, unk, text, pos)[i];
                token < pieces.len() || token == unk
            },
    decreases text.len() - pos,
{
    if pos < text.len() {
        longest_piece_ends(pieces, text, pos, text.len() as int);
        match longest_piece(pieces, text, pos, text.len() as int) {
            Some((token, end)) => {
                tokens_are_known(pieces, unk, text, end);
                let tail = tokens_from(pieces, unk, text, end);
                let all = tokens_from(pieces, unk, text, pos);
                assert(all == seq![token] + tail);
                assert forall|i: int| 0 <= i < all.len() implies {
                    let token = #[trigger] all[i];
                    token < pieces.len() || token == unk
                } by {
                    if i > 0 {
                        assert(all[i] == tail[i - 1]);
                    }
                }
            },
            None => {
                let next = pos + vstd::utf8::length_of_first_scalar(text.skip(pos));
                if pos < next <= text.len() {
                    tokens_are_known(pieces, unk, text, next);
                    let head = Seq::new(
                        (next - pos) as nat,
                        |i: int| byte_token(pieces, unk, text[pos + i]),
                    );
                    let tail = tokens_from(pieces, unk, text, next);
                    let all = tokens_from(pieces, unk, text, pos);
                    assert(all == head + tail);
                    assert forall|b: u8| true implies {
                        let token = #[trigger] byte_token(pieces, unk, b);
                        token < pieces.len() || token == unk
                    } by {
                        piece_from_finds(pieces, byte_piece(b), 0);
                    }
                    assert forall|i: int| 0 <= i < all.len() implies {
                        let token = #[trigger] all[i];
                        token < pieces.len() || token == unk
                    } by {
                        if i >= head.len() {
                            assert(all[i] == tail[i - head.len()]);
                        }
                    }
                }
            },
        }
    }
}

/// A piece that is taken is the longest that fits: none that reaches further does.
pub proof fn longer_pieces_do_not_fit(
    pieces: Seq<Seq<u8>>,
    text: Seq<u8>,
    pos: int,
    end: int,
    other: int,
)
    requires
        0 <= pos < other <= end <= text.len(),
        pieces.len() <= usize::MAX,
        match longest_piece(pieces, text, pos, end) {
            Some((_, at)) => at < other,
            None => true,
        },
    ensures
        !pieces.contains(text.subrange(pos, other)),
    decreases end - pos,
{
    let word = text.subrange(pos, end);
    piece_from_finds(pieces, word, 0);
    if other < end {
        longer_pieces_do_not_fit(pieces, text, pos, end - 1, other);
    }
}

/// From `pos` on, some piece fits wherever the one before ends, so that no character is
/// taken byte by byte.
pub open spec fn all_in_pieces(pieces: Seq<Seq<u8>>, text: Seq<u8>, pos: int) -> bool
    decreases text.len() - pos,
{
    pos >= text.len() || match longest_piece(pieces, text, pos, text.len() as int) {
        Some((_, end)) => pos < end <= text.len() && all_in_pieces(pieces, text, end),
        None => false,
    }
}

/// The pieces of some tokens, one after another.
pub open spec fn joined(pieces: Seq<Seq<u8>>, tokens: Seq<usize>) -> Seq<u8>
    decreases tokens.len(),
{
    if tokens.len() == 0 {
        Seq::empty()
    } else {
        pieces[tokens[0] as int] + joined(pieces, tokens.skip(1))
    }
}

/// Where pieces cover a text, the pieces of its tokens, one after another, are the text.
pub proof fn tokens_join_to_text(pieces: Seq<Seq<u8>>, unk: usize, text: Seq<u8>, pos: int)
    requires
        pieces.len() <= usize::MAX,
        0 <= pos <= text.len(),
        all_in_pieces(pieces, text, pos),
    ensures
        joined(pieces, tokens_from(pieces, unk, text, pos)) == text.skip(pos),
    decreases text.len() - pos,
{
    if pos < text.len() {
        longest_piece_ends(pieces, text, pos, text.len() as int);
        let (token, end) = longest_piece(pieces, text, pos, text.len() as int)->0;
        tokens_join_to_text(pieces, unk, text, end);
        let tail = tokens_from(pieces, unk, text, end);
        let all = tokens_from(pieces, unk, text, pos);
        assert(all == seq![token] + tail);
        assert(all.skip(1) =~= tail);
        assert(text.subrange(pos, end) + text.skip(end) =~= text.skip(pos));
    } else {
        assert(joined(pieces, tokens_from(pieces, unk, text, pos)) =~= text.skip(pos));
    }
}


/// The value of a hexadecimal digit.
pub open spec fn hex_value(digit: u8) -> int {
    if '0' as int <= digit <= '9' as int {
        digit - '0' as int
    } else if 'A' as int <= digit <= 'F' as int {
        digit - 'A' as int + 10
    } else {
        -1
    }
}

/// The piece of a single byte holds its two hexadecimal digits between `<0x` and `>`.
pub proof fn byte_pieces_write_the_byte(byte: u8)
    ensures
        byte_piece(byte).len() == 6,
        byte_piece(byte)[0] == '<' as u8,
        byte_piece(byte)[1] == '0' as u8,
        byte_piece(byte)[2] == 'x' as u8,
        byte_piece(byte)[5] == '>' as u8,
        0 <= hex_value(byte_piece(byte)[3]) < 16,
        0 <= hex_value(byte_piece(byte)[4]) < 16,
        16 * hex_value(byte_piece(byte)[3]) + hex_value(byte_piece(byte)[4]) == byte,
{
}

/// With a space for every mark, the text as the pieces write it is the text behind a space.
pub proof fn marks_stand_for_spaces(text: Seq<char>, i: int)
    requires
        0 <= i < text.len(),
        forall|j: int| 0 <= j < text.len() ==> #[trigger] text[j] != '\u{2581}',
    ensures
        normalized(text).len() == text.len() + 1,
        normalized(text)[0] == '\u{2581}',
        text[i] == ' ' <==> normalized(text)[i + 1] == '\u{2581}',
        text[i] != ' ' ==> normalized(text)[i + 1] == text[i],
{
}

} // verus!
