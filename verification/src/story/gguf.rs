//! Model files: metadata, the tensor table, and where the tensors' bytes lie.

use crate::bytes::{join_halves, read_word};
use crate::story::model::VOCAB;
use crate::story::tokenizer::Tokenizer;
use crate::text::{same_text, utf8_text};
use vstd::prelude::*;
use vstd::slice::slice_subrange;

verus! {

/// First word of a model file.
pub const GGUF_MAGIC: u32 = 0x4655_4747;

/// Alignment of the tensors' bytes where the file does not say otherwise.
pub const DEFAULT_ALIGNMENT: u64 = 32;

/// Why a model file cannot be read.
#[derive(Clone, Copy, PartialEq, Eq, Debug)]
pub enum GgufError {
    /// A length leads past every address.
    OffsetOverflow,
    /// The file ends early.
    ShortFile,
    /// A text is no UTF-8.
    BadText,
    /// The file does not start as a model file does.
    BadMagic(u32),
    /// The version is not one that is read here.
    UnsupportedVersion(u32),
    /// The tokens are not an array of texts.
    BadItemType(u32),
    /// A value has an unknown type.
    UnknownValueType(u32),
    /// The file holds no tokens.
    MissingTokens,
    /// The number of tokens is not that of the model.
    VocabMismatch(usize),
    /// The alignment is no power of two.
    BadAlignment(u64),
}

/// A double word of a file.
pub open spec fn long_at(bytes: Seq<u8>, at: int) -> u64 {
    crate::bytes::double_word(
        crate::bytes::word_at(bytes, at),
        crate::bytes::word_at(bytes, at + 4),
    )
}

/// Where `len` bytes from `pos` on end.
pub open spec fn taken(bytes: Seq<u8>, pos: int, len: int) -> Result<int, GgufError> {
    if pos + len > usize::MAX {
        Err(GgufError::OffsetOverflow)
    } else if pos + len > bytes.len() {
        Err(GgufError::ShortFile)
    } else {
        Ok(pos + len)
    }
}

/// A word, and where it ends.
pub open spec fn word_read(bytes: Seq<u8>, pos: int) -> Result<(u32, int), GgufError> {
    match taken(bytes, pos, 4) {
        Ok(end) => Ok((crate::bytes::word_at(bytes, pos), end)),
        Err(err) => Err(err),
    }
}

/// A double word, and where it ends.
pub open spec fn long_read(bytes: Seq<u8>, pos: int) -> Result<(u64, int), GgufError> {
    match taken(bytes, pos, 8) {
        Ok(end) => Ok((long_at(bytes, pos), end)),
        Err(err) => Err(err),
    }
}

/// A text, led by its length, and where it ends.
pub open spec fn text_read(bytes: Seq<u8>, pos: int) -> Result<(Seq<char>, int), GgufError> {
    match long_read(bytes, pos) {
        Ok((len, at)) => match taken(bytes, at, len as int) {
            Ok(end) => if vstd::utf8::valid_utf8(bytes.subrange(at, end)) {
                Ok((vstd::utf8::decode_utf8(bytes.subrange(at, end)), end))
            } else {
                Err(GgufError::BadText)
            },
            Err(err) => Err(err),
        },
        Err(err) => Err(err),
    }
}

/// A number of texts after those that were read before, and where they end.
pub open spec fn texts_read(
    bytes: Seq<u8>,
    pos: int,
    count: nat,
    before: Seq<Seq<char>>,
) -> Result<(Seq<Seq<char>>, int), GgufError>
    decreases count,
{
    if count == 0 {
        Ok((before, pos))
    } else {
        match text_read(bytes, pos) {
            Ok((text, end)) => texts_read(bytes, end, (count - 1) as nat, before.push(text)),
            Err(err) => Err(err),
        }
    }
}

/// An array of texts, led by the type of its items and their number.
pub open spec fn text_array_read(bytes: Seq<u8>, pos: int) -> Result<
    (Seq<Seq<char>>, int),
    GgufError,
> {
    match word_read(bytes, pos) {
        Ok((item, at)) => if item != 8 {
            Err(GgufError::BadItemType(item))
        } else {
            match long_read(bytes, at) {
                Ok((count, start)) => texts_read(bytes, start, count as nat, Seq::empty()),
                Err(err) => Err(err),
            }
        },
        Err(err) => Err(err),
    }
}

/// Bytes of a value whose type fixes them.
pub open spec fn fixed_size(value_type: u32) -> Option<int> {
    if value_type == 0 || value_type == 1 || value_type == 7 {
        Some(1)
    } else if value_type == 2 || value_type == 3 {
        Some(2)
    } else if 4 <= value_type <= 6 {
        Some(4)
    } else if 10 <= value_type <= 12 {
        Some(8)
    } else {
        None
    }
}

/// Where a value of the given type ends.
pub open spec fn value_end(bytes: Seq<u8>, pos: int, value_type: u32) -> Result<int, GgufError>
    decreases bytes.len() - pos, 0nat,
{
    match fixed_size(value_type) {
        Some(size) => taken(bytes, pos, size),
        None => if value_type == 8 {
            match long_read(bytes, pos) {
                Ok((len, at)) => taken(bytes, at, len as int),
                Err(err) => Err(err),
            }
        } else if value_type == 9 {
            match word_read(bytes, pos) {
                Ok((item, at)) => match long_read(bytes, at) {
                    Ok((count, start)) => values_end(bytes, start, item, count as nat),
                    Err(err) => Err(err),
                },
                Err(err) => Err(err),
            }
        } else {
            Err(GgufError::UnknownValueType(value_type))
        },
    }
}

/// Where a number of values of one type end. Every value takes at least one byte.
pub open spec fn values_end(bytes: Seq<u8>, pos: int, item: u32, count: nat) -> Result<
    int,
    GgufError,
>
    decreases bytes.len() - pos, count + 1,
{
    if count == 0 {
        Ok(pos)
    } else {
        match value_end(bytes, pos, item) {
            Ok(end) => if pos < end <= bytes.len() {
                values_end(bytes, end, item, (count - 1) as nat)
            } else {
                Err(GgufError::ShortFile)
            },
            Err(err) => Err(err),
        }
    }
}

/// A value that can be skipped ends after it starts.
proof fn value_ends_later(bytes: Seq<u8>, pos: int, value_type: u32)
    requires
        0 <= pos <= bytes.len(),
    ensures
        value_end(bytes, pos, value_type) matches Ok(end) ==> pos < end <= bytes.len(),
    decreases bytes.len() - pos, 0nat,
{
    if fixed_size(value_type) is None && value_type == 9 && word_read(bytes, pos) is Ok {
        let (item, at) = word_read(bytes, pos)->Ok_0;
        if long_read(bytes, at) is Ok {
            let (count, start) = long_read(bytes, at)->Ok_0;
            values_end_later(bytes, start, item, count as nat);
        }
    }
}

proof fn values_end_later(bytes: Seq<u8>, pos: int, item: u32, count: nat)
    requires
        0 <= pos <= bytes.len(),
    ensures
        values_end(bytes, pos, item, count) matches Ok(end) ==> pos <= end <= bytes.len(),
    decreases bytes.len() - pos, count + 1,
{
    if count > 0 && value_end(bytes, pos, item) is Ok {
        let end = value_end(bytes, pos, item)->Ok_0;
        if pos < end <= bytes.len() {
            values_end_later(bytes, end, item, (count - 1) as nat);
        }
    }
}

/// What the metadata say.
pub struct Metadata {
    /// Alignment of the tensors' bytes.
    pub alignment: u64,
    /// The tokens, where there are any.
    pub pieces: Option<Seq<Seq<char>>>,
    /// The token that starts a text.
    pub bos: usize,
    /// The token that ends a text.
    pub eos: usize,
    /// The token for what is not known.
    pub unk: usize,
}

/// What holds where the metadata do not say otherwise.
pub open spec fn default_metadata() -> Metadata {
    Metadata { alignment: DEFAULT_ALIGNMENT, pieces: None, bos: 1, eos: 2, unk: 0 }
}

/// The metadata with one more entry: a key, the type of its value, and the value. Keys
/// that do not matter here are skipped; a later entry overrides an earlier one.
pub open spec fn entry_read(bytes: Seq<u8>, pos: int, before: Metadata) -> Result<
    (Metadata, int),
    GgufError,
> {
    match text_read(bytes, pos) {
        Ok((key, at)) => match word_read(bytes, at) {
            Ok((value_type, start)) => value_read(bytes, start, key, value_type, before),
            Err(err) => Err(err),
        },
        Err(err) => Err(err),
    }
}

/// The metadata with the value of a key.
pub open spec fn value_read(
    bytes: Seq<u8>,
    pos: int,
    key: Seq<char>,
    value_type: u32,
    before: Metadata,
) -> Result<(Metadata, int), GgufError> {
    let word = word_read(bytes, pos);
    if key == "general.alignment"@ && value_type == 4 {
        match word {
            Ok((value, end)) => Ok((Metadata { alignment: value as u64, ..before }, end)),
            Err(err) => Err(err),
        }
    } else if key == "tokenizer.ggml.tokens"@ && value_type == 9 {
        match text_array_read(bytes, pos) {
            Ok((pieces, end)) => Ok((Metadata { pieces: Some(pieces), ..before }, end)),
            Err(err) => Err(err),
        }
    } else if key == "tokenizer.ggml.bos_token_id"@ && value_type == 4 {
        match word {
            Ok((value, end)) => Ok((Metadata { bos: value as usize, ..before }, end)),
            Err(err) => Err(err),
        }
    } else if key == "tokenizer.ggml.eos_token_id"@ && value_type == 4 {
        match word {
            Ok((value, end)) => Ok((Metadata { eos: value as usize, ..before }, end)),
            Err(err) => Err(err),
        }
    } else if key == "tokenizer.ggml.unknown_token_id"@ && value_type == 4 {
        match word {
            Ok((value, end)) => Ok((Metadata { unk: value as usize, ..before }, end)),
            Err(err) => Err(err),
        }
    } else {
        match value_end(bytes, pos, value_type) {
            Ok(end) => Ok((before, end)),
            Err(err) => Err(err),
        }
    }
}

/// The metadata after a number of entries.
pub open spec fn entries_read(bytes: Seq<u8>, pos: int, count: nat, before: Metadata) -> Result<
    (Metadata, int),
    GgufError,
>
    decreases count,
{
    if count == 0 {
        Ok((before, pos))
    } else {
        match entry_read(bytes, pos, before) {
            Ok((after, end)) => entries_read(bytes, end, (count - 1) as nat, after),
            Err(err) => Err(err),
        }
    }
}

/// A line of the tensor table.
pub struct TensorEntry {
    /// Name.
    pub name: Seq<char>,
    /// Extents, the fastest axis first.
    pub shape: Seq<u64>,
    /// Element format.
    pub ggml_type: u32,
    /// Place of the bytes, from where the tensors' bytes start.
    pub offset: u64,
}

/// A number of extents after those that were read before.
pub open spec fn dims_read(bytes: Seq<u8>, pos: int, count: nat, before: Seq<u64>) -> Result<
    (Seq<u64>, int),
    GgufError,
>
    decreases count,
{
    if count == 0 {
        Ok((before, pos))
    } else {
        match long_read(bytes, pos) {
            Ok((dim, end)) => dims_read(bytes, end, (count - 1) as nat, before.push(dim)),
            Err(err) => Err(err),
        }
    }
}

/// A line of the tensor table: name, number of axes, extents, format and place.
pub open spec fn tensor_read(bytes: Seq<u8>, pos: int) -> Result<(TensorEntry, int), GgufError> {
    match text_read(bytes, pos) {
        Ok((name, p1)) => match word_read(bytes, p1) {
            Ok((ndim, p2)) => match dims_read(bytes, p2, ndim as nat, Seq::empty()) {
                Ok((shape, p3)) => match word_read(bytes, p3) {
                    Ok((ggml_type, p4)) => match long_read(bytes, p4) {
                        Ok((offset, end)) => Ok(
                            (TensorEntry { name, shape, ggml_type, offset }, end),
                        ),
                        Err(err) => Err(err),
                    },
                    Err(err) => Err(err),
                },
                Err(err) => Err(err),
            },
            Err(err) => Err(err),
        },
        Err(err) => Err(err),
    }
}

/// A number of lines of the tensor table after those that were read before.
pub open spec fn tensors_read(
    bytes: Seq<u8>,
    pos: int,
    count: nat,
    before: Seq<TensorEntry>,
) -> Result<(Seq<TensorEntry>, int), GgufError>
    decreases count,
{
    if count == 0 {
        Ok((before, pos))
    } else {
        match tensor_read(bytes, pos) {
            Ok((entry, end)) => tensors_read(bytes, end, (count - 1) as nat, before.push(entry)),
            Err(err) => Err(err),
        }
    }
}

/// Powers of two: one, and the doubles of powers of two.
pub open spec fn power_of_two(value: nat) -> bool
    decreases value,
{
    value == 1 || value > 1 && value % 2 == 0 && power_of_two(value / 2)
}

/// The first multiple of the alignment that is not below the value.
pub open spec fn aligned(value: int, alignment: int) -> int {
    (value + alignment - 1) / alignment * alignment
}

/// A model file.
pub struct ModelFile {
    /// What the metadata say.
    pub metadata: Metadata,
    /// Where the tensors' bytes start.
    pub data_start: int,
    /// The tensor table.
    pub tensors: Seq<TensorEntry>,
}

/// What a model file says, or why it cannot be read.
pub open spec fn file_read(bytes: Seq<u8>) -> Result<ModelFile, GgufError> {
    match word_read(bytes, 0) {
        Err(err) => Err(err),
        Ok((magic, p1)) => if magic != GGUF_MAGIC {
            Err(GgufError::BadMagic(magic))
        } else {
            match word_read(bytes, p1) {
                Err(err) => Err(err),
                Ok((version, p2)) => if version != 2 && version != 3 {
                    Err(GgufError::UnsupportedVersion(version))
                } else {
                    match long_read(bytes, p2) {
                        Err(err) => Err(err),
                        Ok((tensor_count, p3)) => match long_read(bytes, p3) {
                            Err(err) => Err(err),
                            Ok((entry_count, p4)) => body_read(
                                bytes,
                                p4,
                                entry_count as nat,
                                tensor_count as nat,
                            ),
                        },
                    }
                },
            }
        },
    }
}

/// The rest of a model file: metadata, tokens, the tensor table and where the tensors'
/// bytes start.
pub open spec fn body_read(bytes: Seq<u8>, pos: int, entry_count: nat, tensor_count: nat) -> Result<
    ModelFile,
    GgufError,
> {
    match entries_read(bytes, pos, entry_count, default_metadata()) {
        Err(err) => Err(err),
        Ok((metadata, at)) => match metadata.pieces {
            None => Err(GgufError::MissingTokens),
            Some(pieces) => if pieces.len() != VOCAB {
                Err(GgufError::VocabMismatch(pieces.len() as usize))
            } else {
                match tensors_read(bytes, at, tensor_count, Seq::empty()) {
                    Err(err) => Err(err),
                    Ok((tensors, end)) => if !power_of_two(metadata.alignment as nat) {
                        Err(GgufError::BadAlignment(metadata.alignment))
                    } else {
                        Ok(
                            ModelFile {
                                metadata,
                                data_start: aligned(end, metadata.alignment as int),
                                tensors,
                            },
                        )
                    },
                }
            },
        },
    }
}

/// Reads a model file from front to back.
struct Reader<'a> {
    data: &'a [u8],
    pos: usize,
}

impl<'a> Reader<'a> {
    spec fn wf(self) -> bool {
        self.pos <= self.data@.len()
    }

    fn take(&mut self, len: u64) -> (r: Result<&'a [u8], GgufError>)
        requires
            old(self).wf(),
        ensures
            final(self).wf(),
            final(self).data == old(self).data,
            match taken(old(self).data@, old(self).pos as int, len as int) {
                Ok(end) => {
                    &&& final(self).pos == end
                    &&& r matches Ok(bytes) && bytes@ == old(self).data@.subrange(
                        old(self).pos as int,
                        end,
                    )
                },
                Err(err) => r matches Err(e) && e == err,
            },
    {
        if len > usize::MAX as u64 {
            return Err(GgufError::OffsetOverflow);
        }
        let end: usize = match self.pos.checked_add(len as usize) {
            Some(end) => end,
            None => {
                return Err(GgufError::OffsetOverflow);
            },
        };
        if end > self.data.len() {
            return Err(GgufError::ShortFile);
        }
        let bytes: &'a [u8] = slice_subrange(self.data, self.pos, end);
        self.pos = end;
        Ok(bytes)
    }

    fn word(&mut self) -> (r: Result<u32, GgufError>)
        requires
            old(self).wf(),
        ensures
            final(self).wf(),
            final(self).data == old(self).data,
            match word_read(old(self).data@, old(self).pos as int) {
                Ok((value, end)) => {
                    &&& final(self).pos == end
                    &&& r matches Ok(v) && v == value
                },
                Err(err) => r matches Err(e) && e == err,
            },
    {
        let start: usize = self.pos;
        let bytes: &'a [u8] = self.take(4)?;
        Ok(read_word(self.data, start))
    }

    fn long(&mut self) -> (r: Result<u64, GgufError>)
        requires
            old(self).wf(),
        ensures
            final(self).wf(),
            final(self).data == old(self).data,
            match long_read(old(self).data@, old(self).pos as int) {
                Ok((value, end)) => {
                    &&& final(self).pos == end
                    &&& r matches Ok(v) && v == value
                },
                Err(err) => r matches Err(e) && e == err,
            },
    {
        let start: usize = self.pos;
        let bytes: &'a [u8] = self.take(8)?;
        Ok(join_halves(read_word(self.data, start), read_word(self.data, start + 4)))
    }

    fn text(&mut self) -> (r: Result<String, GgufError>)
        requires
            old(self).wf(),
        ensures
            final(self).wf(),
            final(self).data == old(self).data,
            match text_read(old(self).data@, old(self).pos as int) {
                Ok((value, end)) => {
                    &&& final(self).pos == end
                    &&& r matches Ok(v) && v@ == value
                },
                Err(err) => r matches Err(e) && e == err,
            },
    {
        let len: u64 = self.long()?;
        let bytes: &'a [u8] = self.take(len)?;
        let mut copy: Vec<u8> = Vec::new();
        let mut i: usize = 0;
        while i < bytes.len()
            invariant
                i <= bytes@.len(),
                copy@ =~= bytes@.take(i as int),
            decreases bytes@.len() - i,
        {
            copy.push(bytes[i]);
            i = i + 1;
        }
        assert(copy@ =~= bytes@);
        match utf8_text(copy) {
            Some(text) => Ok(text),
            None => Err(GgufError::BadText),
        }
    }

    fn text_array(&mut self) -> (r: Result<Vec<String>, GgufError>)
        requires
            old(self).wf(),
        ensures
            final(self).wf(),
            final(self).data == old(self).data,
            match text_array_read(old(self).data@, old(self).pos as int) {
                Ok((value, end)) => {
                    &&& final(self).pos == end
                    &&& r matches Ok(v) && texts_of(v@) == value
                },
                Err(err) => r matches Err(e) && e == err,
            },
    {
        let ghost data = self.data@;
        let item: u32 = self.word()?;
        if item != 8 {
            return Err(GgufError::BadItemType(item));
        }
        let count: u64 = self.long()?;
        let ghost start = self.pos as int;
        let mut texts: Vec<String> = Vec::new();
        let mut left: u64 = count;
        assert(texts_of(texts@) =~= Seq::empty());
        while left > 0
            invariant
                self.wf(),
                self.data == old(self).data,
                data == self.data@,
                text_array_read(data, old(self).pos as int) == texts_read(
                    data,
                    start,
                    count as nat,
                    Seq::empty(),
                ),
                texts_read(data, start, count as nat, Seq::empty()) == texts_read(
                    data,
                    self.pos as int,
                    left as nat,
                    texts_of(texts@),
                ),
            decreases left,
        {
            let ghost before = texts@;
            let text: String = self.text()?;
            texts.push(text);
            assert(texts_of(texts@) =~= texts_of(before).push(text@));
            left = left - 1;
        }
        Ok(texts)
    }

    fn skip_value(&mut self, value_type: u32) -> (r: Result<(), GgufError>)
        requires
            old(self).wf(),
        ensures
            final(self).wf(),
            final(self).data == old(self).data,
            match value_end(old(self).data@, old(self).pos as int, value_type) {
                Ok(end) => final(self).pos == end && r is Ok,
                Err(err) => r matches Err(e) && e == err,
            },
        decreases old(self).data@.len() - old(self).pos,
    {
        if value_type == 0 || value_type == 1 || value_type == 7 {
            let bytes: &'a [u8] = self.take(1)?;
            Ok(())
        } else if value_type == 2 || value_type == 3 {
            let bytes: &'a [u8] = self.take(2)?;
            Ok(())
        } else if value_type >= 4 && value_type <= 6 {
            let bytes: &'a [u8] = self.take(4)?;
            Ok(())
        } else if value_type >= 10 && value_type <= 12 {
            let bytes: &'a [u8] = self.take(8)?;
            Ok(())
        } else if value_type == 8 {
            let len: u64 = self.long()?;
            let bytes: &'a [u8] = self.take(len)?;
            Ok(())
        } else if value_type == 9 {
            let ghost data = self.data@;
            let ghost whole = value_end(data, self.pos as int, value_type);
            let item: u32 = self.word()?;
            let count: u64 = self.long()?;
            let mut left: u64 = count;
            while left > 0
                invariant
                    self.wf(),
                    self.data == old(self).data,
                    data == self.data@,
                    old(self).pos < self.pos,
                    whole == value_end(data, old(self).pos as int, value_type),
                    whole == values_end(data, self.pos as int, item, left as nat),
                decreases left,
            {
                proof {
                    value_ends_later(data, self.pos as int, item);
                }
                self.skip_value(item)?;
                left = left - 1;
            }
            Ok(())
        } else {
            Err(GgufError::UnknownValueType(value_type))
        }
    }
}

/// The characters of each text.
pub open spec fn texts_of(texts: Seq<String>) -> Seq<Seq<char>> {
    Seq::new(texts.len(), |i: int| texts[i]@)
}

/// A line of the tensor table.
pub struct TensorInfo {
    /// Name.
    pub name: String,
    /// Extents, the fastest axis first.
    pub shape: Vec<u64>,
    /// Element format.
    pub ggml_type: u32,
    /// Place of the bytes, from where the tensors' bytes start.
    pub offset: u64,
}

impl View for TensorInfo {
    type V = TensorEntry;

    open spec fn view(&self) -> TensorEntry {
        TensorEntry {
            name: self.name@,
            shape: self.shape@,
            ggml_type: self.ggml_type,
            offset: self.offset,
        }
    }
}

/// The lines of a tensor table.
pub open spec fn entries_of(tensors: Seq<TensorInfo>) -> Seq<TensorEntry> {
    Seq::new(tensors.len(), |i: int| tensors[i]@)
}

/// A model file.
pub struct Gguf {
    /// Alignment of the tensors' bytes.
    pub alignment: u64,
    /// Where the tensors' bytes start.
    pub data_start: usize,
    /// The tensor table.
    pub tensors: Vec<TensorInfo>,
    /// The tokens.
    pub tokenizer: Tokenizer,
}

impl Gguf {
    /// This is what a model file says.
    pub open spec fn holds(&self, file: ModelFile) -> bool {
        &&& self.alignment == file.metadata.alignment
        &&& self.data_start == file.data_start
        &&& entries_of(self.tensors@) == file.tensors
        &&& self.tokenizer.wf()
        &&& file.metadata.pieces == Some(self.tokenizer.texts())
        &&& self.tokenizer.bos_token() == file.metadata.bos
        &&& self.tokenizer.eos_token() == file.metadata.eos
        &&& self.tokenizer.unk_token() == file.metadata.unk
    }
}

/// The metadata that matter here.
struct Entries {
    alignment: u64,
    pieces: Option<Vec<String>>,
    bos: usize,
    eos: usize,
    unk: usize,
}

impl Entries {
    spec fn model(self) -> Metadata {
        Metadata {
            alignment: self.alignment,
            pieces: match self.pieces {
                Some(pieces) => Some(texts_of(pieces@)),
                None => None,
            },
            bos: self.bos,
            eos: self.eos,
            unk: self.unk,
        }
    }
}

impl<'a> Reader<'a> {
    fn entry(&mut self, entries: &mut Entries) -> (r: Result<(), GgufError>)
        requires
            old(self).wf(),
        ensures
            final(self).wf(),
            final(self).data == old(self).data,
            match entry_read(old(self).data@, old(self).pos as int, old(entries).model()) {
                Ok((metadata, end)) => {
                    &&& r is Ok
                    &&& final(self).pos == end
                    &&& final(entries).model() == metadata
                },
                Err(err) => r matches Err(e) && e == err,
            },
            old(entries).alignment <= u32::MAX ==> final(entries).alignment <= u32::MAX,
    {
        let key: String = self.text()?;
        let value_type: u32 = self.word()?;
        if value_type == 4 && same_text(key.as_str(), "general.alignment") {
            entries.alignment = self.word()? as u64;
        } else if value_type == 9 && same_text(key.as_str(), "tokenizer.ggml.tokens") {
            entries.pieces = Some(self.text_array()?);
        } else if value_type == 4 && same_text(key.as_str(), "tokenizer.ggml.bos_token_id") {
            entries.bos = self.word()? as usize;
        } else if value_type == 4 && same_text(key.as_str(), "tokenizer.ggml.eos_token_id") {
            entries.eos = self.word()? as usize;
        } else if value_type == 4 && same_text(key.as_str(), "tokenizer.ggml.unknown_token_id") {
            entries.unk = self.word()? as usize;
        } else {
            self.skip_value(value_type)?;
        }
        Ok(())
    }

    fn entries(&mut self, count: u64) -> (r: Result<Entries, GgufError>)
        requires
            old(self).wf(),
        ensures
            final(self).wf(),
            final(self).data == old(self).data,
            match entries_read(
                old(self).data@,
                old(self).pos as int,
                count as nat,
                default_metadata(),
            ) {
                Ok((metadata, end)) => {
                    &&& r matches Ok(entries) && entries.model() == metadata && entries.alignment
                        <= u32::MAX
                    &&& final(self).pos == end
                },
                Err(err) => r matches Err(e) && e == err,
            },
    {
        let ghost data = self.data@;
        let ghost whole = entries_read(data, self.pos as int, count as nat, default_metadata());
        let mut entries = Entries {
            alignment: DEFAULT_ALIGNMENT,
            pieces: None,
            bos: 1,
            eos: 2,
            unk: 0,
        };
        let mut left: u64 = count;
        while left > 0
            invariant
                self.wf(),
                self.data == old(self).data,
                data == self.data@,
                entries.alignment <= u32::MAX,
                whole == entries_read(
                    data,
                    old(self).pos as int,
                    count as nat,
                    default_metadata(),
                ),
                whole == entries_read(data, self.pos as int, left as nat, entries.model()),
            decreases left,
        {
            self.entry(&mut entries)?;
            left = left - 1;
        }
        Ok(entries)
    }

    fn tensor(&mut self) -> (r: Result<TensorInfo, GgufError>)
        requires
            old(self).wf(),
        ensures
            final(self).wf(),
            final(self).data == old(self).data,
            match tensor_read(old(self).data@, old(self).pos as int) {
                Ok((entry, end)) => {
                    &&& r matches Ok(info) && info@ == entry
                    &&& final(self).pos == end
                },
                Err(err) => r matches Err(e) && e == err,
            },
    {
        let ghost data = self.data@;
        let ghost whole = tensor_read(data, self.pos as int);
        let name: String = self.text()?;
        let ndim: u32 = self.word()?;
        let ghost start = self.pos as int;
        let mut shape: Vec<u64> = Vec::new();
        let mut left: u32 = ndim;
        while left > 0
            invariant
                self.wf(),
                self.data == old(self).data,
                data == self.data@,
                whole == tensor_read(data, old(self).pos as int),
                text_read(data, old(self).pos as int) matches Ok((text, at)) && text == name@
                    && word_read(data, at) == Ok::<(u32, int), GgufError>((ndim, start)),
                dims_read(data, start, ndim as nat, Seq::empty()) == dims_read(
                    data,
                    self.pos as int,
                    left as nat,
                    shape@,
                ),
            decreases left,
        {
            let dim: u64 = self.long()?;
            shape.push(dim);
            left = left - 1;
        }
        let ggml_type: u32 = self.word()?;
        let offset: u64 = self.long()?;
        Ok(TensorInfo { name, shape, ggml_type, offset })
    }

    fn tensors(&mut self, count: u64) -> (r: Result<Vec<TensorInfo>, GgufError>)
        requires
            old(self).wf(),
        ensures
            final(self).wf(),
            final(self).data == old(self).data,
            match tensors_read(
                old(self).data@,
                old(self).pos as int,
                count as nat,
                Seq::empty(),
            ) {
                Ok((table, end)) => {
                    &&& r matches Ok(tensors) && entries_of(tensors@) == table
                    &&& final(self).pos == end
                },
                Err(err) => r matches Err(e) && e == err,
            },
    {
        let ghost data = self.data@;
        let ghost whole = tensors_read(data, self.pos as int, count as nat, Seq::empty());
        let mut tensors: Vec<TensorInfo> = Vec::new();
        let mut left: u64 = count;
        assert(entries_of(tensors@) =~= Seq::empty());
        while left > 0
            invariant
                self.wf(),
                self.data == old(self).data,
                data == self.data@,
                whole == tensors_read(data, old(self).pos as int, count as nat, Seq::empty()),
                whole == tensors_read(data, self.pos as int, left as nat, entries_of(tensors@)),
            decreases left,
        {
            let ghost before = tensors@;
            let info: TensorInfo = self.tensor()?;
            tensors.push(info);
            assert(entries_of(tensors@) =~= entries_of(before).push(info@));
            left = left - 1;
        }
        Ok(tensors)
    }
}

/// Whether a number is a power of two.
fn is_power_of_two(value: u64) -> (r: bool)
    ensures
        r == power_of_two(value as nat),
{
    let mut rest: u64 = value;
    while rest > 1 && rest % 2 == 0
        invariant
            power_of_two(value as nat) == power_of_two(rest as nat),
        decreases rest,
    {
        rest = rest / 2;
    }
    rest == 1
}

/// The first multiple of the alignment that is not below the value.
pub fn align_up(value: u64, alignment: u64) -> (r: Result<u64, GgufError>)
    requires
        value + alignment <= u64::MAX,
    ensures
        match r {
            Ok(start) => {
                &&& power_of_two(alignment as nat)
                &&& start == aligned(value as int, alignment as int)
                &&& value <= start < value + alignment
                &&& start as int % alignment as int == 0
            },
            Err(err) => !power_of_two(alignment as nat) && err == GgufError::BadAlignment(
                alignment,
            ),
        },
{
    if !is_power_of_two(alignment) {
        return Err(GgufError::BadAlignment(alignment));
    }
    let count: u64 = (value + (alignment - 1)) / alignment;
    proof {
        let v = value as int;
        let a = alignment as int;
        let c = count as int;
        vstd::arithmetic::div_mod::lemma_fundamental_div_mod(v + a - 1, a);
        let m = (v + a - 1) % a;
        assert(a * c == v + a - 1 - m);
        assert(a * c == c * a) by (nonlinear_arith);
        vstd::arithmetic::div_mod::lemma_mod_multiples_basic(c, a);
    }
    Ok(count * alignment)
}

/// Reads a model file: metadata, tokens and the tensor table.
pub fn parse_gguf(bytes: &[u8]) -> (r: Result<Gguf, GgufError>)
    requires
        bytes@.len() <= isize::MAX,
    ensures
        match file_read(bytes@) {
            Ok(file) => r matches Ok(gguf) && gguf.holds(file),
            Err(err) => r matches Err(e) && e == err,
        },
{
    let mut reader = Reader { data: bytes, pos: 0 };
    let magic: u32 = reader.word()?;
    if magic != GGUF_MAGIC {
        return Err(GgufError::BadMagic(magic));
    }
    let version: u32 = reader.word()?;
    if version != 2 && version != 3 {
        return Err(GgufError::UnsupportedVersion(version));
    }
    let tensor_count: u64 = reader.long()?;
    let entry_count: u64 = reader.long()?;
    let entries: Entries = reader.entries(entry_count)?;
    let pieces: Vec<String> = match entries.pieces {
        Some(pieces) => pieces,
        None => {
            return Err(GgufError::MissingTokens);
        },
    };
    let piece_count: usize = pieces.len();
    let tokenizer: Tokenizer = match Tokenizer::new(
        pieces,
        entries.bos,
        entries.eos,
        entries.unk,
    ) {
        Some(tokenizer) => tokenizer,
        None => {
            return Err(GgufError::VocabMismatch(piece_count));
        },
    };
    assert(tokenizer.texts() =~= texts_of(pieces@));
    let tensors: Vec<TensorInfo> = reader.tensors(tensor_count)?;
    let data_start: u64 = align_up(reader.pos as u64, entries.alignment)?;
    proof {
        power_of_two_bound(entries.alignment as nat);
        assert(data_start <= usize::MAX);
    }
    Ok(Gguf { alignment: entries.alignment, data_start: data_start as usize, tensors, tokenizer })
}

/// A power of two that fits a word is at most half of what a word can hold.
proof fn power_of_two_bound(value: nat)
    requires
        power_of_two(value),
        value <= u32::MAX,
    ensures
        value <= 0x8000_0000,
{
    vstd::arithmetic::power2::lemma2_to64();
    halves_bound(value, 31);
}

proof fn halves_bound(value: nat, bits: nat)
    requires
        power_of_two(value),
        value < 2 * vstd::arithmetic::power2::pow2(bits),
        bits <= 31,
    ensures
        value <= vstd::arithmetic::power2::pow2(bits),
        bits == 31 ==> vstd::arithmetic::power2::pow2(bits) == 0x8000_0000,
    decreases bits,
{
    vstd::arithmetic::power2::lemma2_to64();
    if bits > 0 {
        vstd::arithmetic::power2::lemma_pow2_unfold(bits);
        if value > 1 {
            halves_bound(value / 2, (bits - 1) as nat);
        } else {
            vstd::arithmetic::power2::lemma_pow2_pos(bits);
        }
    }
}


/// A number as `n` bytes, low byte first.
pub open spec fn number_image(value: nat, n: nat) -> Seq<u8>
    decreases n,
{
    if n == 0 {
        Seq::empty()
    } else {
        seq![(value % 256) as u8] + number_image(value / 256, (n - 1) as nat)
    }
}

/// A text in a model file: its length in bytes, and its bytes.
pub open spec fn text_image(text: Seq<char>) -> Seq<u8> {
    number_image(vstd::utf8::encode_utf8(text).len(), 8) + vstd::utf8::encode_utf8(text)
}

/// Texts one after another.
pub open spec fn texts_image(texts: Seq<Seq<char>>) -> Seq<u8>
    decreases texts.len(),
{
    if texts.len() == 0 {
        Seq::empty()
    } else {
        text_image(texts[0]) + texts_image(texts.skip(1))
    }
}

/// Extents one after another.
pub open spec fn dims_image(shape: Seq<u64>) -> Seq<u8>
    decreases shape.len(),
{
    if shape.len() == 0 {
        Seq::empty()
    } else {
        number_image(shape[0] as nat, 8) + dims_image(shape.skip(1))
    }
}

/// A line of the tensor table: name, number of axes, extents, format and place.
pub open spec fn tensor_image(entry: TensorEntry) -> Seq<u8> {
    text_image(entry.name) + (number_image(entry.shape.len(), 4) + (dims_image(entry.shape) + (
    number_image(entry.ggml_type as nat, 4) + number_image(entry.offset as nat, 8))))
}

/// A tensor table.
pub open spec fn table_image(entries: Seq<TensorEntry>) -> Seq<u8>
    decreases entries.len(),
{
    if entries.len() == 0 {
        Seq::empty()
    } else {
        tensor_image(entries[0]) + table_image(entries.skip(1))
    }
}

/// The image stands in the file at `pos`.
pub open spec fn stands(bytes: Seq<u8>, pos: int, image: Seq<u8>) -> bool {
    &&& 0 <= pos
    &&& pos + image.len() <= bytes.len() <= usize::MAX
    &&& bytes.subrange(pos, pos + image.len()) == image
}

/// Parts of an image stand where the image stands.
proof fn parts_stand(bytes: Seq<u8>, pos: int, front: Seq<u8>, rest: Seq<u8>)
    requires
        stands(bytes, pos, front + rest),
    ensures
        stands(bytes, pos, front),
        stands(bytes, pos + front.len(), rest),
{
    let whole = bytes.subrange(pos, pos + front.len() + rest.len());
    assert(whole == front + rest);
    assert(bytes.subrange(pos, pos + front.len()) =~= front) by {
        assert forall|i: int| 0 <= i < front.len() implies bytes[pos + i] == front[i] by {
            assert(whole[i] == (front + rest)[i]);
        }
    }
    let at = pos + front.len();
    assert(bytes.subrange(at, at + rest.len()) =~= rest) by {
        assert forall|i: int| 0 <= i < rest.len() implies bytes[at + i] == rest[i] by {
            assert(whole[front.len() + i] == (front + rest)[front.len() + i]);
        }
    }
}

/// A word that was written is read.
pub proof fn written_word_is_read(bytes: Seq<u8>, pos: int, value: u32)
    requires
        stands(bytes, pos, number_image(value as nat, 4)),
    ensures
        number_image(value as nat, 4).len() == 4,
        word_read(bytes, pos) == Ok::<(u32, int), GgufError>((value, pos + 4)),
{
    reveal_with_fuel(number_image, 5);
    let v = value as nat;
    let image = number_image(v, 4);
    assert(image =~= seq![
        (v % 256) as u8,
        (v / 256 % 256) as u8,
        (v / 256 / 256 % 256) as u8,
        (v / 256 / 256 / 256 % 256) as u8,
    ]);
    let here = bytes.subrange(pos, pos + 4);
    assert(here[0] == bytes[pos] && here[1] == bytes[pos + 1] && here[2] == bytes[pos + 2]
        && here[3] == bytes[pos + 3]);
    crate::bytes::low_byte_comes_first(bytes, pos);
    assert(v == v % 256 + 256 * (v / 256 % 256) + 65536 * (v / 256 / 256 % 256) + 16777216 * (v
        / 256 / 256 / 256 % 256));
}

/// A double word that was written is read.
pub proof fn written_long_is_read(bytes: Seq<u8>, pos: int, value: u64)
    requires
        stands(bytes, pos, number_image(value as nat, 8)),
    ensures
        number_image(value as nat, 8).len() == 8,
        long_read(bytes, pos) == Ok::<(u64, int), GgufError>((value, pos + 8)),
{
    let (lo, hi) = (value as int % 0x1_0000_0000, value as int / 0x1_0000_0000);
    number_splits(value as nat);
    let front = number_image(lo as nat, 4);
    let back = number_image(hi as nat, 4);
    parts_stand(bytes, pos, front, back);
    reveal_with_fuel(number_image, 5);
    assert(front.len() == 4 && back.len() == 4);
    written_word_is_read(bytes, pos, lo as u32);
    written_word_is_read(bytes, pos + 4, hi as u32);
    crate::bytes::low_half_counts_once(lo as u32, hi as u32);
}

/// Eight bytes of a number are four of its low half and four of its high half.
proof fn number_splits(value: nat)
    requires
        value <= u64::MAX,
    ensures
        number_image(value, 8) == number_image((value as int % 0x1_0000_0000) as nat, 4)
            + number_image((value as int / 0x1_0000_0000) as nat, 4),
        number_image(value, 8).len() == 8,
{
    reveal_with_fuel(number_image, 9);
    let (lo, hi) = (
        (value as int % 0x1_0000_0000) as nat,
        (value as int / 0x1_0000_0000) as nat,
    );
    let v = value;
    assert(v / 256 / 256 / 256 / 256 == hi);
    assert(v % 256 == lo % 256);
    assert(v / 256 % 256 == lo / 256 % 256);
    assert(v / 256 / 256 % 256 == lo / 256 / 256 % 256);
    assert(v / 256 / 256 / 256 % 256 == lo / 256 / 256 / 256 % 256);
    assert(number_image(value, 8) =~= number_image(lo, 4) + number_image(hi, 4));
}

/// A text that was written is read, and reading goes on behind it.
pub proof fn written_text_is_read(bytes: Seq<u8>, pos: int, text: Seq<char>)
    requires
        stands(bytes, pos, text_image(text)),
    ensures
        text_read(bytes, pos) == Ok::<(Seq<char>, int), GgufError>(
            (text, pos + text_image(text).len()),
        ),
{
    let body = vstd::utf8::encode_utf8(text);
    parts_stand(bytes, pos, number_image(body.len(), 8), body);
    written_long_is_read(bytes, pos, body.len() as u64);
    vstd::utf8::encode_utf8_valid_utf8(text);
    vstd::utf8::encode_utf8_decode_utf8(text);
}

/// Texts that were written are read.
proof fn written_texts_are_read(
    bytes: Seq<u8>,
    pos: int,
    texts: Seq<Seq<char>>,
    before: Seq<Seq<char>>,
)
    requires
        stands(bytes, pos, texts_image(texts)),
    ensures
        texts_read(bytes, pos, texts.len(), before) == Ok::<(Seq<Seq<char>>, int), GgufError>(
            (before + texts, pos + texts_image(texts).len()),
        ),
    decreases texts.len(),
{
    if texts.len() > 0 {
        let (first, rest) = (texts[0], texts.skip(1));
        parts_stand(bytes, pos, text_image(first), texts_image(rest));
        written_text_is_read(bytes, pos, first);
        written_texts_are_read(bytes, pos + text_image(first).len(), rest, before.push(first));
        assert(before.push(first) + rest =~= before + texts);
    } else {
        assert(before + texts =~= before);
    }
}

proof fn written_dims_are_read(bytes: Seq<u8>, pos: int, shape: Seq<u64>, before: Seq<u64>)
    requires
        stands(bytes, pos, dims_image(shape)),
    ensures
        dims_read(bytes, pos, shape.len(), before) == Ok::<(Seq<u64>, int), GgufError>(
            (before + shape, pos + dims_image(shape).len()),
        ),
    decreases shape.len(),
{
    if shape.len() > 0 {
        let (first, rest) = (shape[0], shape.skip(1));
        parts_stand(bytes, pos, number_image(first as nat, 8), dims_image(rest));
        written_long_is_read(bytes, pos, first);
        written_dims_are_read(bytes, pos + 8, rest, before.push(first));
        assert(before.push(first) + rest =~= before + shape);
    } else {
        assert(before + shape =~= before);
    }
}

/// A line of the tensor table that was written is read.
pub proof fn written_tensor_is_read(bytes: Seq<u8>, pos: int, entry: TensorEntry)
    requires
        stands(bytes, pos, tensor_image(entry)),
        entry.shape.len() <= u32::MAX,
    ensures
        tensor_read(bytes, pos) == Ok::<(TensorEntry, int), GgufError>(
            (entry, pos + tensor_image(entry).len()),
        ),
{
    let name = text_image(entry.name);
    let axes = number_image(entry.shape.len(), 4);
    let dims = dims_image(entry.shape);
    let kind = number_image(entry.ggml_type as nat, 4);
    let place = number_image(entry.offset as nat, 8);
    parts_stand(bytes, pos, name, axes + (dims + (kind + place)));
    written_text_is_read(bytes, pos, entry.name);
    let p1 = pos + name.len();
    parts_stand(bytes, p1, axes, dims + (kind + place));
    written_word_is_read(bytes, p1, entry.shape.len() as u32);
    let p2 = p1 + 4;
    parts_stand(bytes, p2, dims, kind + place);
    written_dims_are_read(bytes, p2, entry.shape, Seq::empty());
    assert(Seq::<u64>::empty() + entry.shape =~= entry.shape);
    let p3 = p2 + dims.len();
    parts_stand(bytes, p3, kind, place);
    written_word_is_read(bytes, p3, entry.ggml_type);
    written_long_is_read(bytes, p3 + 4, entry.offset);
}

proof fn written_table_is_read(
    bytes: Seq<u8>,
    pos: int,
    entries: Seq<TensorEntry>,
    before: Seq<TensorEntry>,
)
    requires
        stands(bytes, pos, table_image(entries)),
        forall|i: int| 0 <= i < entries.len() ==> (#[trigger] entries[i]).shape.len() <= u32::MAX,
    ensures
        tensors_read(bytes, pos, entries.len(), before) == Ok::<
            (Seq<TensorEntry>, int),
            GgufError,
        >((before + entries, pos + table_image(entries).len())),
    decreases entries.len(),
{
    if entries.len() > 0 {
        let (first, rest) = (entries[0], entries.skip(1));
        parts_stand(bytes, pos, tensor_image(first), table_image(rest));
        written_tensor_is_read(bytes, pos, first);
        written_table_is_read(bytes, pos + tensor_image(first).len(), rest, before.push(first));
        assert(before.push(first) + rest =~= before + entries);
    } else {
        assert(before + entries =~= before);
    }
}

/// A number in the metadata: its key, the type of a word, and the word.
pub open spec fn number_entry(key: Seq<char>, value: u32) -> Seq<u8> {
    text_image(key) + (number_image(4, 4) + number_image(value as nat, 4))
}

/// Texts in the metadata: their key, the type of an array, that of its items, their number,
/// and the texts.
pub open spec fn texts_entry(key: Seq<char>, texts: Seq<Seq<char>>) -> Seq<u8> {
    text_image(key) + (number_image(9, 4) + (number_image(8, 4) + (number_image(texts.len(), 8)
        + texts_image(texts))))
}

proof fn keys_differ()
    ensures
        "general.alignment"@ != "tokenizer.ggml.tokens"@,
        "tokenizer.ggml.bos_token_id"@ != "tokenizer.ggml.tokens"@,
        "tokenizer.ggml.eos_token_id"@ != "tokenizer.ggml.tokens"@,
        "tokenizer.ggml.unknown_token_id"@ != "tokenizer.ggml.tokens"@,
        "general.alignment"@ != "tokenizer.ggml.bos_token_id"@,
        "general.alignment"@ != "tokenizer.ggml.eos_token_id"@,
        "general.alignment"@ != "tokenizer.ggml.unknown_token_id"@,
        "tokenizer.ggml.bos_token_id"@ != "tokenizer.ggml.eos_token_id"@,
        "tokenizer.ggml.bos_token_id"@ != "tokenizer.ggml.unknown_token_id"@,
        "tokenizer.ggml.eos_token_id"@ != "tokenizer.ggml.unknown_token_id"@,
{
    reveal_strlit("general.alignment");
    reveal_strlit("tokenizer.ggml.tokens");
    reveal_strlit("tokenizer.ggml.bos_token_id");
    reveal_strlit("tokenizer.ggml.eos_token_id");
    reveal_strlit("tokenizer.ggml.unknown_token_id");
    assert("general.alignment"@.len() == 17);
    assert("tokenizer.ggml.tokens"@.len() == 21);
    assert("tokenizer.ggml.bos_token_id"@.len() == 27);
    assert("tokenizer.ggml.eos_token_id"@.len() == 27);
    assert("tokenizer.ggml.unknown_token_id"@.len() == 31);
    assert("tokenizer.ggml.bos_token_id"@[15] == 'b');
    assert("tokenizer.ggml.eos_token_id"@[15] == 'e');
}

/// A number of the metadata goes where its key says, and nothing else changes; other keys are
/// passed over.
pub proof fn written_number_is_read(
    bytes: Seq<u8>,
    pos: int,
    key: Seq<char>,
    value: u32,
    before: Metadata,
)
    requires
        stands(bytes, pos, number_entry(key, value)),
    ensures
        ({
            let after = if key == "general.alignment"@ {
                Metadata { alignment: value as u64, ..before }
            } else if key == "tokenizer.ggml.bos_token_id"@ {
                Metadata { bos: value as usize, ..before }
            } else if key == "tokenizer.ggml.eos_token_id"@ {
                Metadata { eos: value as usize, ..before }
            } else if key == "tokenizer.ggml.unknown_token_id"@ {
                Metadata { unk: value as usize, ..before }
            } else {
                before
            };
            entry_read(bytes, pos, before) == Ok::<(Metadata, int), GgufError>(
                (after, pos + number_entry(key, value).len()),
            )
        }),
{
    keys_differ();
    let (name, kind, word) = (
        text_image(key),
        number_image(4, 4),
        number_image(value as nat, 4),
    );
    parts_stand(bytes, pos, name, kind + word);
    written_text_is_read(bytes, pos, key);
    let at = pos + name.len();
    parts_stand(bytes, at, kind, word);
    written_word_is_read(bytes, at, 4);
    written_word_is_read(bytes, at + 4, value);
    assert(value_end(bytes, at + 4, 4) == taken(bytes, at + 4, 4));
}

/// The tokens of the metadata are read as they were written.
pub proof fn written_tokens_are_read(
    bytes: Seq<u8>,
    pos: int,
    texts: Seq<Seq<char>>,
    before: Metadata,
)
    requires
        stands(bytes, pos, texts_entry("tokenizer.ggml.tokens"@, texts)),
        texts.len() <= u64::MAX,
    ensures
        entry_read(bytes, pos, before) == Ok::<(Metadata, int), GgufError>(
            (
                Metadata { pieces: Some(texts), ..before },
                pos + texts_entry("tokenizer.ggml.tokens"@, texts).len(),
            ),
        ),
{
    keys_differ();
    let key = "tokenizer.ggml.tokens"@;
    let (name, array, item) = (text_image(key), number_image(9, 4), number_image(8, 4));
    let (count, body) = (number_image(texts.len(), 8), texts_image(texts));
    parts_stand(bytes, pos, name, array + (item + (count + body)));
    written_text_is_read(bytes, pos, key);
    let p1 = pos + name.len();
    parts_stand(bytes, p1, array, item + (count + body));
    written_word_is_read(bytes, p1, 9);
    parts_stand(bytes, p1 + 4, item, count + body);
    written_word_is_read(bytes, p1 + 4, 8);
    parts_stand(bytes, p1 + 8, count, body);
    written_long_is_read(bytes, p1 + 8, texts.len() as u64);
    written_texts_are_read(bytes, p1 + 16, texts, Seq::empty());
    assert(Seq::<Seq<char>>::empty() + texts =~= texts);
}

/// The start of a model file: the letters "GGUF", the version, the number of tensors, and the
/// number of entries of the metadata.
pub open spec fn head_image(version: u32, tensors: nat, entries: nat) -> Seq<u8> {
    seq![0x47u8, 0x47, 0x55, 0x46] + (number_image(version as nat, 4) + (number_image(tensors, 8)
        + number_image(entries, 8)))
}

/// A model file that was written is read: what stands behind the head is read as that many
/// entries, and behind them as that many tensors, whose bytes start at the first multiple of
/// the alignment behind the table.
pub proof fn written_file_is_read(
    bytes: Seq<u8>,
    version: u32,
    entry_count: u64,
    metadata: Metadata,
    at: int,
    tensors: Seq<TensorEntry>,
)
    requires
        version == 2 || version == 3,
        tensors.len() <= u64::MAX,
        stands(bytes, 0, head_image(version, tensors.len(), entry_count as nat)),
        entries_read(bytes, 24, entry_count as nat, default_metadata()) == Ok::<
            (Metadata, int),
            GgufError,
        >((metadata, at)),
        stands(bytes, at, table_image(tensors)),
        forall|i: int| 0 <= i < tensors.len() ==> (#[trigger] tensors[i]).shape.len() <= u32::MAX,
        metadata.pieces matches Some(pieces) && pieces.len() == VOCAB,
        power_of_two(metadata.alignment as nat),
    ensures
        match file_read(bytes) {
            Ok(file) => {
                let end = at + table_image(tensors).len();
                &&& file.metadata == metadata
                &&& file.tensors == tensors
                &&& end <= file.data_start < end + metadata.alignment
                &&& file.data_start % (metadata.alignment as int) == 0
            },
            Err(_) => false,
        },
{
    let magic = seq![0x47u8, 0x47, 0x55, 0x46];
    let kind = number_image(version as nat, 4);
    let (first, second) = (number_image(tensors.len(), 8), number_image(entry_count as nat, 8));
    parts_stand(bytes, 0, magic, kind + (first + second));
    let here = bytes.subrange(0, 4);
    assert(here[0] == bytes[0] && here[1] == bytes[1] && here[2] == bytes[2] && here[3]
        == bytes[3]);
    crate::bytes::low_byte_comes_first(bytes, 0);
    parts_stand(bytes, 4, kind, first + second);
    written_word_is_read(bytes, 4, version);
    parts_stand(bytes, 8, first, second);
    written_long_is_read(bytes, 8, tensors.len() as u64);
    written_long_is_read(bytes, 16, entry_count);
    written_table_is_read(bytes, at, tensors, Seq::empty());
    assert(Seq::<TensorEntry>::empty() + tensors =~= tensors);
    let (end, unit) = (at + table_image(tensors).len(), metadata.alignment as int);
    let whole = (end + unit - 1) / unit;
    assert(end <= whole * unit < end + unit && (whole * unit) % unit == 0) by (nonlinear_arith)
        requires
            whole == (end + unit - 1) / unit,
            unit > 0,
    ;
}

/// Without an entry that says otherwise, tensors are aligned to 32 bytes, texts start with
/// token one and end with token two, and token zero stands for what is not known.
pub proof fn metadata_has_defaults()
    ensures
        default_metadata() == (Metadata { alignment: 32, pieces: None, bos: 1, eos: 2, unk: 0 }),
{
}

} // verus!
