//! What the user types: arguments, token lists and lines of text.

use crate::story::tokenizer::Tokenizer;
use crate::text::{chars_of, parse_number, same_text, trim};
use vstd::prelude::*;
use vstd::slice::slice_subrange;

verus! {

/// Why a list of token ids cannot be read.
#[derive(Clone, Copy, PartialEq, Eq, Debug)]
pub enum TokenListError {
    /// An id is missing.
    Empty,
    /// An id is no number.
    Bad,
}

/// White space of the ASCII range.
pub open spec fn is_ascii_space(c: char) -> bool {
    c == ' ' || c == '\t' || c == '\n' || c == '\u{c}' || c == '\r'
}

/// Whether a character ends an id: a comma, or white space where that counts.
pub open spec fn ends_id(c: char, spaces: bool) -> bool {
    c == ',' || spaces && is_ascii_space(c)
}

/// Where the part of the text that starts at `from` ends.
pub open spec fn part_end(text: Seq<char>, from: int, spaces: bool) -> int
    decreases text.len() - from,
{
    if from >= text.len() {
        text.len() as int
    } else if ends_id(text[from], spaces) {
        from
    } else {
        part_end(text, from + 1, spaces)
    }
}

/// The ids of a list that is separated by commas, from `from` on. There is white space
/// around an id at most.
pub open spec fn listed_ids(text: Seq<char>, from: int, before: Seq<usize>) -> Result<
    Seq<usize>,
    TokenListError,
>
    decreases text.len() - from,
{
    let end = part_end(text, from, false);
    let part = crate::text::trimmed(text.subrange(from, end));
    if part.len() == 0 {
        Err(TokenListError::Empty)
    } else {
        match crate::text::number(part) {
            None => Err(TokenListError::Bad),
            Some(id) => if from <= end < text.len() {
                listed_ids(text, end + 1, before.push(id))
            } else {
                Ok(before.push(id))
            },
        }
    }
}

/// The ids of a list that is separated by commas and white space, from `from` on. Empty
/// parts do not count.
pub open spec fn typed_ids(text: Seq<char>, from: int, before: Seq<usize>) -> Result<
    Seq<usize>,
    TokenListError,
>
    decreases text.len() - from,
{
    let end = part_end(text, from, true);
    let part = text.subrange(from, end);
    let after = if part.len() == 0 {
        Some(before)
    } else {
        match crate::text::number(part) {
            None => None,
            Some(id) => Some(before.push(id)),
        }
    };
    match after {
        None => Err(TokenListError::Bad),
        Some(ids) => if from <= end < text.len() {
            typed_ids(text, end + 1, ids)
        } else {
            Ok(ids)
        },
    }
}

fn find_part_end(text: &[char], from: usize, spaces: bool) -> (r: usize)
    requires
        from <= text@.len(),
    ensures
        r == part_end(text@, from as int, spaces),
        from <= r <= text@.len(),
{
    let count: usize = text.len();
    let mut at: usize = from;
    while at < count
        invariant
            from <= at <= count == text@.len(),
            part_end(text@, from as int, spaces) == part_end(text@, at as int, spaces),
        decreases count - at,
    {
        let c: char = text[at];
        if c == ',' || (spaces && (c == ' ' || c == '\t' || c == '\n' || c == '\u{c}' || c
            == '\r')) {
            return at;
        }
        at = at + 1;
    }
    at
}

/// Reads a list of token ids that is separated by commas.
pub fn parse_tokens(raw: &str) -> (r: Result<Vec<usize>, TokenListError>)
    ensures
        match listed_ids(raw@, 0, Seq::empty()) {
            Ok(ids) => r matches Ok(v) && v@ == ids,
            Err(err) => r matches Err(e) && e == err,
        },
{
    let text: Vec<char> = chars_of(raw);
    let count: usize = text.len();
    let mut ids: Vec<usize> = Vec::new();
    let mut from: usize = 0;
    loop
        invariant
            from <= count == text@.len(),
            text@ == raw@,
            listed_ids(raw@, 0, Seq::empty()) == listed_ids(raw@, from as int, ids@),
        decreases count - from,
    {
        let end: usize = find_part_end(&text, from, false);
        let part: &[char] = slice_subrange(&text, from, end);
        let (start, stop) = trim(part);
        let inner: &[char] = slice_subrange(part, start, stop);
        if inner.len() == 0 {
            return Err(TokenListError::Empty);
        }
        let id: usize = match parse_number(inner) {
            Some(id) => id,
            None => {
                return Err(TokenListError::Bad);
            },
        };
        ids.push(id);
        if end >= count {
            return Ok(ids);
        }
        from = end + 1;
    }
}

/// Whether a line is a list of ids rather than text: digits, commas and white space only.
pub open spec fn is_id_list(text: Seq<char>) -> bool {
    forall|i: int|
        0 <= i < text.len() ==> crate::text::is_digit(#[trigger] text[i]) || ends_id(text[i], true)
}

fn looks_like_ids(text: &[char]) -> (r: bool)
    ensures
        r == is_id_list(text@),
{
    let count: usize = text.len();
    let mut i: usize = 0;
    while i < count
        invariant
            i <= count == text@.len(),
            forall|j: int|
                0 <= j < i ==> crate::text::is_digit(#[trigger] text@[j]) || ends_id(
                    text@[j],
                    true,
                ),
        decreases count - i,
    {
        let c: char = text[i];
        let fits: bool = (c >= '0' && c <= '9') || c == ',' || c == ' ' || c == '\t' || c == '\n'
            || c == '\u{c}' || c == '\r';
        if !fits {
            assert(!(crate::text::is_digit(text@[i as int]) || ends_id(text@[i as int], true)));
            return false;
        }
        i = i + 1;
    }
    true
}

/// What a line means: the ids that it lists, or else the tokens of its text.
pub open spec fn line_tokens(raw: Seq<char>, tokenizer: Tokenizer) -> Result<
    Seq<usize>,
    TokenListError,
> {
    if is_id_list(raw) {
        typed_ids(raw, 0, Seq::empty())
    } else {
        Ok(
            crate::story::tokenizer::tokens_from(
                crate::story::tokenizer::encoded(tokenizer.texts()),
                tokenizer.unk_token(),
                vstd::utf8::encode_utf8(crate::story::tokenizer::normalized(raw)),
                0,
            ),
        )
    }
}

/// Reads a line: the ids that it lists, or else the tokens of its text.
pub fn parse_token_or_text_input(raw: &str, tokenizer: &Tokenizer) -> (r: Result<
    Vec<usize>,
    TokenListError,
>)
    requires
        tokenizer.wf(),
    ensures
        match line_tokens(raw@, *tokenizer) {
            Ok(tokens) => r matches Ok(v) && v@ == tokens,
            Err(err) => r matches Err(e) && e == err,
        },
{
    let text: Vec<char> = chars_of(raw);
    if !looks_like_ids(&text) {
        let tokens: Vec<usize> = tokenizer.tokenize(raw, false);
        assert(tokens@ =~= line_tokens(raw@, *tokenizer)->Ok_0);
        return Ok(tokens);
    }
    let count: usize = text.len();
    let mut ids: Vec<usize> = Vec::new();
    let mut from: usize = 0;
    loop
        invariant
            from <= count == text@.len(),
            text@ == raw@,
            is_id_list(raw@),
            typed_ids(raw@, 0, Seq::empty()) == typed_ids(raw@, from as int, ids@),
        decreases count - from,
    {
        let end: usize = find_part_end(&text, from, true);
        if end > from {
            match parse_number(slice_subrange(&text, from, end)) {
                Some(id) => {
                    ids.push(id);
                },
                None => {
                    return Err(TokenListError::Bad);
                },
            }
        }
        if end >= count {
            return Ok(ids);
        }
        from = end + 1;
    }
}

/// Why the arguments cannot be used.
#[derive(Clone, Copy, PartialEq, Eq, Debug)]
pub enum ArgError {
    /// The numbered argument wants a value.
    MissingValue(usize),
    /// The token list cannot be read.
    Tokens(TokenListError),
    /// The temperature is no number.
    BadTemp,
    /// The number of steps is no number.
    BadCount,
    /// The numbered argument is not known.
    Unknown(usize),
    /// No model is named.
    MissingModel,
}

/// What the arguments say.
pub struct ArgState {
    /// The model file.
    pub model: Option<Seq<char>>,
    /// The text to start from.
    pub prompt: Option<Seq<char>>,
    /// The tokens to start from.
    pub tokens: Seq<usize>,
    /// Bits of the temperature.
    pub temp: u32,
    /// Number of steps.
    pub n_predict: usize,
    /// The file that values are written out to.
    pub dump: Seq<char>,
    /// Whether tensors are listed.
    pub list_tensors: bool,
    /// Whether lines are read.
    pub interactive: bool,
}

/// What holds without arguments.
pub open spec fn no_args() -> ArgState {
    ArgState {
        model: None,
        prompt: None,
        tokens: Seq::empty(),
        temp: 0,
        n_predict: 1,
        dump: "ggml.txt"@,
        list_tensors: false,
        interactive: false,
    }
}

/// What the arguments say after one that takes a value.
pub open spec fn with_value(
    arg: Seq<char>,
    value: Seq<char>,
    temp: Option<u32>,
    state: ArgState,
) -> Result<ArgState, ArgError> {
    if arg == "--model"@ || arg == "-m"@ {
        Ok(ArgState { model: Some(value), ..state })
    } else if arg == "--prompt"@ || arg == "-p"@ {
        Ok(ArgState { prompt: Some(value), ..state })
    } else if arg == "--tokens"@ {
        match listed_ids(value, 0, Seq::empty()) {
            Ok(tokens) => Ok(ArgState { tokens, ..state }),
            Err(err) => Err(ArgError::Tokens(err)),
        }
    } else if arg == "--temp"@ {
        match temp {
            Some(temp) => Ok(ArgState { temp, ..state }),
            None => Err(ArgError::BadTemp),
        }
    } else if arg == "-n"@ || arg == "--n-predict"@ {
        match crate::text::number(value) {
            Some(n_predict) => Ok(ArgState { n_predict, ..state }),
            None => Err(ArgError::BadCount),
        }
    } else {
        Ok(ArgState { dump: value, ..state })
    }
}

/// An argument that takes a value.
pub open spec fn takes_value(arg: Seq<char>) -> bool {
    arg == "--model"@ || arg == "-m"@ || arg == "--prompt"@ || arg == "-p"@ || arg == "--tokens"@
        || arg == "--temp"@ || arg == "-n"@ || arg == "--n-predict"@ || arg == "--dump"@
}

/// What the arguments from `at` on say; nothing where help is asked for. `temps` holds
/// each argument read as a temperature.
pub open spec fn args_read(
    args: Seq<Seq<char>>,
    temps: Seq<Option<u32>>,
    at: int,
    state: ArgState,
) -> Result<Option<ArgState>, ArgError>
    decreases args.len() - at,
{
    if at >= args.len() {
        Ok(Some(state))
    } else if takes_value(args[at]) {
        if at + 1 >= args.len() {
            Err(ArgError::MissingValue(at as usize))
        } else {
            match with_value(args[at], args[at + 1], temps[at + 1], state) {
                Ok(next) => args_read(args, temps, at + 2, next),
                Err(err) => Err(err),
            }
        }
    } else if args[at] == "--list-tensors"@ {
        args_read(args, temps, at + 1, ArgState { list_tensors: true, ..state })
    } else if args[at] == "--interactive"@ || args[at] == "-i"@ {
        args_read(args, temps, at + 1, ArgState { interactive: true, ..state })
    } else if args[at] == "--help"@ || args[at] == "-h"@ {
        Ok(None)
    } else {
        Err(ArgError::Unknown(at as usize))
    }
}

/// The arguments.
pub struct Args {
    /// The model file.
    pub model: String,
    /// The text to start from.
    pub prompt: Option<String>,
    /// The tokens to start from.
    pub tokens: Vec<usize>,
    /// Bits of the temperature.
    pub temp: u32,
    /// Number of steps.
    pub n_predict: usize,
    /// The file that values are written out to.
    pub dump: String,
    /// Whether tensors are listed.
    pub list_tensors: bool,
    /// Whether lines are read.
    pub interactive: bool,
}

impl Args {
    /// This is what the arguments say.
    pub open spec fn holds(&self, state: ArgState) -> bool {
        &&& state.model == Some(self.model@)
        &&& state.prompt == text_view(self.prompt)
        &&& state.tokens == self.tokens@
        &&& state.temp == self.temp
        &&& state.n_predict == self.n_predict
        &&& state.dump == self.dump@
        &&& state.list_tensors == self.list_tensors
        &&& state.interactive == self.interactive
    }
}

/// The characters of a text that may be missing.
pub open spec fn text_view(text: Option<String>) -> Option<Seq<char>> {
    match text {
        Some(text) => Some(text@),
        None => None,
    }
}

/// The arguments while they are read.
struct Draft {
    model: Option<String>,
    prompt: Option<String>,
    tokens: Vec<usize>,
    temp: u32,
    n_predict: usize,
    dump: String,
    list_tensors: bool,
    interactive: bool,
}

impl Draft {
    spec fn state(self) -> ArgState {
        ArgState {
            model: text_view(self.model),
            prompt: text_view(self.prompt),
            tokens: self.tokens@,
            temp: self.temp,
            n_predict: self.n_predict,
            dump: self.dump@,
            list_tensors: self.list_tensors,
            interactive: self.interactive,
        }
    }

    fn set(&mut self, arg: &String, value: &String, temp: Option<u32>) -> (r: Result<(), ArgError>)
        requires
            takes_value(arg@),
        ensures
            match with_value(arg@, value@, temp, old(self).state()) {
                Ok(next) => r is Ok && final(self).state() == next,
                Err(err) => r matches Err(e) && e == err,
            },
    {
        if same_text(arg.as_str(), "--model") || same_text(arg.as_str(), "-m") {
            self.model = Some(value.clone());
        } else if same_text(arg.as_str(), "--prompt") || same_text(arg.as_str(), "-p") {
            self.prompt = Some(value.clone());
        } else if same_text(arg.as_str(), "--tokens") {
            match parse_tokens(value.as_str()) {
                Ok(tokens) => {
                    self.tokens = tokens;
                },
                Err(err) => {
                    return Err(ArgError::Tokens(err));
                },
            }
        } else if same_text(arg.as_str(), "--temp") {
            match temp {
                Some(temp) => {
                    self.temp = temp;
                },
                None => {
                    return Err(ArgError::BadTemp);
                },
            }
        } else if same_text(arg.as_str(), "-n") || same_text(arg.as_str(), "--n-predict") {
            let digits: Vec<char> = chars_of(value.as_str());
            match parse_number(&digits) {
                Some(n_predict) => {
                    self.n_predict = n_predict;
                },
                None => {
                    return Err(ArgError::BadCount);
                },
            }
        } else {
            self.dump = value.clone();
        }
        Ok(())
    }
}

fn wants_value(arg: &String) -> (r: bool)
    ensures
        r == takes_value(arg@),
{
    let arg: &str = arg.as_str();
    same_text(arg, "--model") || same_text(arg, "-m") || same_text(arg, "--prompt") || same_text(
        arg,
        "-p",
    ) || same_text(arg, "--tokens") || same_text(arg, "--temp") || same_text(arg, "-n")
        || same_text(arg, "--n-predict") || same_text(arg, "--dump")
}

/// The full name of an argument that takes a value.
pub open spec fn full_name(arg: Seq<char>) -> Seq<char> {
    if arg == "-m"@ {
        "--model"@
    } else if arg == "-p"@ {
        "--prompt"@
    } else if arg == "-n"@ {
        "--n-predict"@
    } else {
        arg
    }
}

/// The full name of an argument that takes a value, for messages.
pub fn name_in_full(arg: &str) -> (r: &str)
    ensures
        r@ == full_name(arg@),
{
    if same_text(arg, "-m") {
        "--model"
    } else if same_text(arg, "-p") {
        "--prompt"
    } else if same_text(arg, "-n") {
        "--n-predict"
    } else {
        arg
    }
}

/// The texts of the arguments.
pub open spec fn arg_texts(args: Seq<String>) -> Seq<Seq<char>> {
    Seq::new(args.len(), |i: int| args[i]@)
}

/// Reads the arguments; nothing comes back where help is asked for. `temps` holds each
/// argument read as a temperature, where it can be.
pub fn parse_args(args: &Vec<String>, temps: &Vec<Option<u32>>) -> (r: Result<
    Option<Args>,
    ArgError,
>)
    requires
        temps@.len() == args@.len(),
    ensures
        match args_read(arg_texts(args@), temps@, 0, no_args()) {
            Ok(Some(state)) => match r {
                Ok(Some(read)) => read.holds(state),
                Ok(None) => false,
                Err(err) => state.model is None && err == ArgError::MissingModel,
            },
            Ok(None) => r matches Ok(read) && read is None,
            Err(err) => r matches Err(e) && e == err,
        },
{
    let ghost texts = arg_texts(args@);
    let ghost whole = args_read(texts, temps@, 0, no_args());
    let mut draft = Draft {
        model: None,
        prompt: None,
        tokens: Vec::new(),
        temp: 0,
        n_predict: 1,
        dump: "ggml.txt".to_owned(),
        list_tensors: false,
        interactive: false,
    };
    let count: usize = args.len();
    let mut at: usize = 0;
    while at < count
        invariant
            at <= count == args@.len(),
            temps@.len() == count,
            texts == arg_texts(args@),
            whole == args_read(texts, temps@, 0, no_args()),
            whole == args_read(texts, temps@, at as int, draft.state()),
        decreases count - at,
    {
        let arg: &String = &args[at];
        assert(texts[at as int] == arg@);
        if wants_value(arg) {
            if at >= count - 1 {
                return Err(ArgError::MissingValue(at));
            }
            assert(texts[at + 1] == args@[at + 1]@);
            draft.set(arg, &args[at + 1], temps[at + 1])?;
            at = at + 2;
        } else if same_text(arg.as_str(), "--list-tensors") {
            draft.list_tensors = true;
            at = at + 1;
        } else if same_text(arg.as_str(), "--interactive") || same_text(arg.as_str(), "-i") {
            draft.interactive = true;
            at = at + 1;
        } else if same_text(arg.as_str(), "--help") || same_text(arg.as_str(), "-h") {
            return Ok(None);
        } else {
            return Err(ArgError::Unknown(at));
        }
    }
    match draft.model {
        Some(model) => Ok(
            Some(
                Args {
                    model,
                    prompt: draft.prompt,
                    tokens: draft.tokens,
                    temp: draft.temp,
                    n_predict: draft.n_predict,
                    dump: draft.dump,
                    list_tensors: draft.list_tensors,
                    interactive: draft.interactive,
                },
            ),
        ),
        None => Err(ArgError::MissingModel),
    }
}


/// Ids in decimal digits with a comma between each two.
pub open spec fn ids_text(ids: Seq<usize>) -> Seq<char>
    decreases ids.len(),
{
    if ids.len() == 0 {
        Seq::empty()
    } else if ids.len() == 1 {
        crate::text::decimal(ids[0] as nat)
    } else {
        crate::text::decimal(ids[0] as nat) + seq![','] + ids_text(ids.skip(1))
    }
}

/// A part ends at the first character that ends an id.
proof fn part_ends_there(text: Seq<char>, from: int, end: int, spaces: bool)
    requires
        0 <= from <= end <= text.len(),
        forall|i: int| from <= i < end ==> !ends_id(#[trigger] text[i], spaces),
        end == text.len() || ends_id(text[end], spaces),
    ensures
        part_end(text, from, spaces) == end,
    decreases end - from,
{
    if from < end {
        assert(!ends_id(text[from], spaces));
        part_ends_there(text, from + 1, end, spaces);
    }
}

/// The first id of a written list is its first part, and the rest stands behind the comma.
proof fn first_id_is_first_part(text: Seq<char>, from: int, ids: Seq<usize>, spaces: bool) -> (end:
    int)
    requires
        0 <= from <= text.len(),
        ids.len() > 0,
        text.skip(from) == ids_text(ids),
    ensures
        from < end <= text.len(),
        part_end(text, from, spaces) == end,
        text.subrange(from, end) == crate::text::decimal(ids[0] as nat),
        ids.len() == 1 <==> end == text.len(),
        ids.len() > 1 ==> text.skip(end + 1) == ids_text(ids.skip(1)),
{
    let digits = crate::text::decimal(ids[0] as nat);
    crate::text::decimal_has_its_value(ids[0] as nat);
    let rest = text.skip(from);
    let end = from + digits.len();
    if ids.len() > 1 {
        assert(rest == digits + seq![','] + ids_text(ids.skip(1)));
        assert(rest[digits.len() as int] == ',');
        assert(text[end] == rest[digits.len() as int]);
        assert(text.skip(end + 1) =~= rest.skip(digits.len() as int + 1));
        assert(rest.skip(digits.len() as int + 1) =~= ids_text(ids.skip(1)));
    }
    assert forall|i: int| from <= i < end implies !ends_id(#[trigger] text[i], spaces) by {
        assert(text[i] == rest[i - from]);
        assert(rest[i - from] == digits[i - from]);
        assert(crate::text::is_digit(digits[i - from]));
    }
    assert(text.subrange(from, end) =~= digits) by {
        assert forall|i: int| 0 <= i < digits.len() implies text[from + i] == digits[i] by {
            assert(rest[i] == text[from + i]);
        }
    }
    part_ends_there(text, from, end, spaces);
    end
}

/// White space stands nowhere in decimal digits, so that trimming leaves them alone.
proof fn digits_stay_untrimmed(value: nat)
    ensures
        crate::text::trimmed(crate::text::decimal(value)) == crate::text::decimal(value),
{
    let digits = crate::text::decimal(value);
    crate::text::decimal_has_its_value(value);
    let r = crate::text::trimming_takes_white_space(digits);
    if r.0 > 0 {
        assert(crate::text::is_white_space(digits[0]));
        assert(crate::text::is_digit(digits[0]));
    }
    if r.1 < digits.len() {
        assert(crate::text::is_white_space(digits[r.1]));
        assert(crate::text::is_digit(digits[r.1]));
    }
    assert(digits.subrange(0, digits.len() as int) =~= digits);
}

proof fn written_ids_from(text: Seq<char>, from: int, ids: Seq<usize>, before: Seq<usize>)
    requires
        0 <= from <= text.len(),
        ids.len() > 0,
        text.skip(from) == ids_text(ids),
    ensures
        listed_ids(text, from, before) == Ok::<Seq<usize>, TokenListError>(before + ids),
        typed_ids(text, from, before) == Ok::<Seq<usize>, TokenListError>(before + ids),
    decreases ids.len(),
{
    let end = first_id_is_first_part(text, from, ids, false);
    let same = first_id_is_first_part(text, from, ids, true);
    digits_stay_untrimmed(ids[0] as nat);
    crate::text::written_number_is_read(ids[0]);
    crate::text::decimal_has_its_value(ids[0] as nat);
    if ids.len() > 1 {
        written_ids_from(text, end + 1, ids.skip(1), before.push(ids[0]));
        assert(before.push(ids[0]) + ids.skip(1) =~= before + ids);
    } else {
        assert(before.push(ids[0]) =~= before + ids);
    }
}

/// Ids that were written with commas between them are read in order, both as a list and as a
/// typed line.
pub proof fn written_ids_are_read(ids: Seq<usize>)
    requires
        ids.len() > 0,
    ensures
        listed_ids(ids_text(ids), 0, Seq::empty()) == Ok::<Seq<usize>, TokenListError>(ids),
        typed_ids(ids_text(ids), 0, Seq::empty()) == Ok::<Seq<usize>, TokenListError>(ids),
{
    assert(ids_text(ids).skip(0) =~= ids_text(ids));
    written_ids_from(ids_text(ids), 0, ids, Seq::empty());
    assert(Seq::<usize>::empty() + ids =~= ids);
}

/// An option with a value sets what it is named after, under its short name as under its long
/// one, and leaves everything else alone.
pub proof fn options_set_their_own_part(value: Seq<char>, temp: Option<u32>, state: ArgState)
    ensures
        with_value("-m"@, value, temp, state) == with_value("--model"@, value, temp, state),
        with_value("-p"@, value, temp, state) == with_value("--prompt"@, value, temp, state),
        with_value("-n"@, value, temp, state) == with_value("--n-predict"@, value, temp, state),
        with_value("--model"@, value, temp, state) == Ok::<ArgState, ArgError>(
            ArgState { model: Some(value), ..state },
        ),
        with_value("--prompt"@, value, temp, state) == Ok::<ArgState, ArgError>(
            ArgState { prompt: Some(value), ..state },
        ),
        with_value("--dump"@, value, temp, state) == Ok::<ArgState, ArgError>(
            ArgState { dump: value, ..state },
        ),
        temp matches Some(bits) ==> with_value("--temp"@, value, temp, state) == Ok::<
            ArgState,
            ArgError,
        >(ArgState { temp: bits, ..state }),
        crate::text::number(value) matches Some(count) ==> with_value(
            "--n-predict"@,
            value,
            temp,
            state,
        ) == Ok::<ArgState, ArgError>(ArgState { n_predict: count, ..state }),
        listed_ids(value, 0, Seq::empty()) matches Ok(ids) ==> with_value(
            "--tokens"@,
            value,
            temp,
            state,
        ) == Ok::<ArgState, ArgError>(ArgState { tokens: ids, ..state }),
{
    reveal_strlit("-m");
    reveal_strlit("-p");
    reveal_strlit("-n");
    reveal_strlit("--model");
    reveal_strlit("--prompt");
    reveal_strlit("--tokens");
    reveal_strlit("--temp");
    reveal_strlit("--n-predict");
    reveal_strlit("--dump");
    assert("-m"@.len() == 2 && "-p"@.len() == 2 && "-n"@.len() == 2);
    assert("-m"@[1] == 'm' && "-p"@[1] == 'p' && "-n"@[1] == 'n');
    assert("--model"@.len() == 7 && "--prompt"@.len() == 8 && "--tokens"@.len() == 8);
    assert("--temp"@.len() == 6 && "--n-predict"@.len() == 11 && "--dump"@.len() == 6);
    assert("--prompt"@[2] == 'p' && "--tokens"@[2] == 't');
    assert("--temp"@[2] == 't' && "--dump"@[2] == 'd');
}

} // verus!
