//! The story model: its file, its tokens and its forward pass.

use k3_hera::story::forward::{
    check_tokens, describe_step, dump_due, last_logits_start, make_causal_mask, make_positions,
    plan_forward, ForwardError, Mark, Operand, Work, LOGITS_NODE, STEPS,
};
use k3_hera::story::gguf::{align_up, parse_gguf, GgufError, TensorInfo};
use k3_hera::story::input::{
    name_in_full, parse_args, parse_token_or_text_input, parse_tokens, ArgError, TokenListError,
};
use k3_hera::story::model::{LayerWeight, Weight, CONTEXT, HIDDEN_SCORE_BITS, VOCAB};
use k3_hera::story::sample::{
    greedy_token, next_unit, reach_token, sample_next_token, seed_from_tokens, SampleError,
    TokenSource,
};
use k3_hera::story::session::{Action, Session};
use k3_hera::story::tokenizer::{normalize_llama_text, Tokenizer};
use k3_hera::story::weights::{
    checked_tensor_bytes, find_tensor, ggml_tensor_nbytes, ggml_type_to_ai_dtype,
    load_model_weights, load_weight, quant_row_bytes, validate_story_layout, LoadError,
};
use k3_hera::text::{chars_of, parse_number, same_text, trim};
use k3_hera::uabi::desc::{AiDtype, AiTensorDesc};
use k3_hera::uabi::kernel::KernelOp;

fn pieces() -> Vec<String> {
    let mut pieces: Vec<String> = (0..VOCAB).map(|id| format!("unused {id}")).collect();
    pieces[0] = "<unk>".to_string();
    pieces[1] = "<s>".to_string();
    pieces[2] = "</s>".to_string();
    pieces[13] = "<0x0A>".to_string();
    pieces[300] = "\u{2581}Once".to_string();
    pieces[301] = "\u{2581}upon".to_string();
    pieces[302] = "\u{2581}On".to_string();
    pieces[303] = "\u{2581}".to_string();
    pieces[304] = "up".to_string();
    pieces[305] = "\u{2581}".to_string();
    pieces
}

fn tokenizer() -> Tokenizer {
    match Tokenizer::new(pieces(), 1, 2, 0) {
        Some(tokenizer) => tokenizer,
        None => panic!("tokenizer should be made"),
    }
}

fn put_word(bytes: &mut Vec<u8>, value: u32) {
    bytes.extend(value.to_le_bytes());
}

fn put_long(bytes: &mut Vec<u8>, value: u64) {
    bytes.extend(value.to_le_bytes());
}

fn put_text(bytes: &mut Vec<u8>, text: &str) {
    put_long(bytes, text.len() as u64);
    bytes.extend(text.as_bytes());
}

/// A model file with one small tensor of single-precision elements.
fn model_file() -> Vec<u8> {
    let mut bytes = Vec::new();
    put_word(&mut bytes, 0x4655_4747);
    put_word(&mut bytes, 3);
    put_long(&mut bytes, 1);
    put_long(&mut bytes, 4);
    put_text(&mut bytes, "general.alignment");
    put_word(&mut bytes, 4);
    put_word(&mut bytes, 64);
    put_text(&mut bytes, "some.nested.list");
    put_word(&mut bytes, 9);
    put_word(&mut bytes, 9);
    put_long(&mut bytes, 2);
    for _ in 0..2 {
        put_word(&mut bytes, 0);
        put_long(&mut bytes, 3);
        bytes.extend([1, 2, 3]);
    }
    put_text(&mut bytes, "tokenizer.ggml.tokens");
    put_word(&mut bytes, 9);
    put_word(&mut bytes, 8);
    put_long(&mut bytes, VOCAB as u64);
    for piece in pieces() {
        put_text(&mut bytes, &piece);
    }
    put_text(&mut bytes, "tokenizer.ggml.eos_token_id");
    put_word(&mut bytes, 4);
    put_word(&mut bytes, 7);
    put_text(&mut bytes, "norm.weight");
    put_word(&mut bytes, 2);
    put_long(&mut bytes, 3);
    put_long(&mut bytes, 2);
    put_word(&mut bytes, 0);
    put_long(&mut bytes, 64);
    while bytes.len() % 64 != 0 {
        bytes.push(0);
    }
    bytes.extend([0xff; 64]);
    bytes.extend((0..24).collect::<Vec<u8>>());
    bytes
}

#[test]
fn model_files_are_read() {
    let bytes = model_file();
    let gguf = match parse_gguf(&bytes) {
        Ok(gguf) => gguf,
        Err(err) => panic!("file should be read: {err:?}"),
    };
    assert_eq!(gguf.alignment, 64);
    assert_eq!(gguf.data_start, bytes.len() - 88);
    assert_eq!(gguf.tensors.len(), 1);
    assert_eq!(gguf.tensors[0].name, "norm.weight");
    assert_eq!(gguf.tensors[0].shape, vec![3, 2]);
    assert_eq!(gguf.tokenizer.bos(), 1);
    assert_eq!(gguf.tokenizer.eos(), 7);
    assert_eq!(gguf.tokenizer.unk(), 0);
    assert_eq!(gguf.tokenizer.piece(300), "\u{2581}Once");
    assert_eq!(gguf.tokenizer.piece(VOCAB), "<bad-token>");
    assert_eq!(find_tensor(&gguf.tensors, "norm.weight"), Some(0));
    assert_eq!(find_tensor(&gguf.tensors, "other"), None);
    let weights = match load_model_weights(&bytes, &gguf) {
        Ok(weights) => weights,
        Err(err) => panic!("weights should be loaded: {err:?}"),
    };
    let tensor = weights.tensor("norm.weight").unwrap();
    assert_eq!(tensor.as_slice(), (0..24).collect::<Vec<u8>>().as_slice());
    assert_eq!(tensor.dtype(), AiDtype(AiDtype::F32));
    assert!(weights.tensor("missing").is_none());
}

#[test]
fn damaged_model_files_are_refused() {
    let good = model_file();
    assert_eq!(parse_gguf(&good[..3]).err(), Some(GgufError::ShortFile));
    let mut bad = good.clone();
    bad[0] = 0;
    assert!(matches!(parse_gguf(&bad), Err(GgufError::BadMagic(_))));
    let mut bad = good.clone();
    bad[4] = 1;
    assert_eq!(
        parse_gguf(&bad).err(),
        Some(GgufError::UnsupportedVersion(1))
    );
    let mut bad = good.clone();
    bad[16] = 1;
    assert_eq!(parse_gguf(&bad).err(), Some(GgufError::MissingTokens));
    let key = 24 + 8;
    let mut bad = good.clone();
    bad[key] = 0xff;
    assert_eq!(parse_gguf(&bad).err(), Some(GgufError::BadText));
    let kind = key + "general.alignment".len();
    let mut bad = good.clone();
    bad[kind] = 13;
    assert_eq!(
        parse_gguf(&bad).err(),
        Some(GgufError::UnknownValueType(13))
    );
    let mut bad = good.clone();
    bad[kind + 4] = 65;
    assert_eq!(parse_gguf(&bad).err(), Some(GgufError::BadAlignment(65)));
    let mut bad = good.clone();
    for byte in &mut bad[24..32] {
        *byte = 0xff;
    }
    assert_eq!(parse_gguf(&bad).err(), Some(GgufError::OffsetOverflow));
    let mut few = Vec::new();
    put_word(&mut few, 0x4655_4747);
    put_word(&mut few, 2);
    put_long(&mut few, 0);
    put_long(&mut few, 1);
    put_text(&mut few, "tokenizer.ggml.tokens");
    put_word(&mut few, 9);
    let at = few.len();
    put_word(&mut few, 8);
    put_long(&mut few, 0);
    assert_eq!(parse_gguf(&few).err(), Some(GgufError::VocabMismatch(0)));
    few[at] = 4;
    assert_eq!(parse_gguf(&few).err(), Some(GgufError::BadItemType(4)));
}

#[test]
fn positions_are_aligned_upwards() {
    assert_eq!(align_up(0, 32), Ok(0));
    assert_eq!(align_up(1, 32), Ok(32));
    assert_eq!(align_up(32, 32), Ok(32));
    assert_eq!(align_up(5, 0), Err(GgufError::BadAlignment(0)));
    assert_eq!(align_up(5, 12), Err(GgufError::BadAlignment(12)));
}

fn info(shape: &[u64], ggml_type: u32, offset: u64) -> TensorInfo {
    TensorInfo {
        name: "w".to_string(),
        shape: shape.to_vec(),
        ggml_type,
        offset,
    }
}

#[test]
fn sizes_of_weights() {
    assert_eq!(ggml_tensor_nbytes(&info(&[3, 2], 0, 0)), Ok(24));
    assert_eq!(ggml_tensor_nbytes(&info(&[64, 3], 8, 0)), Ok(204));
    assert_eq!(ggml_tensor_nbytes(&info(&[256], 11, 0)), Ok(110));
    assert_eq!(ggml_tensor_nbytes(&info(&[32, 2, 2], 20, 0)), Ok(72));
    assert_eq!(
        ggml_tensor_nbytes(&info(&[], 0, 0)),
        Err(LoadError::EmptyShape)
    );
    assert_eq!(
        ggml_tensor_nbytes(&info(&[33], 8, 0)),
        Err(LoadError::NotMultiple)
    );
    assert_eq!(
        ggml_tensor_nbytes(&info(&[3], 5, 0)),
        Err(LoadError::UnsupportedType(5))
    );
    assert_eq!(
        ggml_tensor_nbytes(&info(&[1, u64::MAX, 2], 0, 0)),
        Err(LoadError::SizeOverflow)
    );
    assert_eq!(
        ggml_tensor_nbytes(&info(&[u64::MAX], 0, 0)),
        Err(LoadError::RowOverflow)
    );
    assert_eq!(quant_row_bytes(64, 32, 34), Ok(68));
    assert_eq!(
        ggml_type_to_ai_dtype(11),
        Some(AiDtype(AiDtype::Q3_K))
    );
    assert_eq!(ggml_type_to_ai_dtype(0), None);
    assert!(validate_story_layout(&info(&[288, 32_000], 8, 0)));
    assert!(!validate_story_layout(&info(&[288, 32_000], 0, 0)));
    assert!(!validate_story_layout(&info(&[288, 31_999], 8, 0)));
}

#[test]
fn weights_must_lie_in_the_file() {
    let bytes = vec![1_u8; 40];
    assert_eq!(checked_tensor_bytes(&bytes, 8, 8, 24).unwrap().len(), 24);
    assert_eq!(
        checked_tensor_bytes(&bytes, 8, 9, 24),
        Err(LoadError::PastEnd)
    );
    assert_eq!(
        checked_tensor_bytes(&bytes, 8, u64::MAX, 24),
        Err(LoadError::OffsetOverflow)
    );
    assert_eq!(
        checked_tensor_bytes(&bytes, 8, u64::MAX - 8, 24),
        Err(LoadError::EndOverflow)
    );
    assert_eq!(
        load_weight(&bytes, 0, &info(&[1 << 33], 0, 0)).err(),
        Some(LoadError::DimOverflow)
    );
    let blocks = match load_weight(&bytes, 4, &info(&[32], 8, 2)) {
        Ok(tensor) => tensor,
        Err(err) => panic!("weight should be loaded: {err:?}"),
    };
    assert_eq!(blocks.as_slice().len(), 34);
    assert_eq!(blocks.dtype(), AiDtype(AiDtype::Q8_0));
    assert!(matches!(
        load_weight(&bytes, 0, &info(&[3, 0], 0, 0)),
        Err(LoadError::Alloc(_))
    ));
}

#[test]
fn the_longest_piece_wins() {
    let tokenizer = tokenizer();
    assert_eq!(
        normalize_llama_text("a b"),
        "\u{2581}a\u{2581}b".as_bytes().to_vec()
    );
    assert_eq!(tokenizer.tokenize("Once upon", true), vec![1, 300, 301]);
    assert_eq!(tokenizer.tokenize("Once upon", false), vec![300, 301]);
    assert_eq!(tokenizer.tokenize("up", false), vec![303, 304]);
    assert_eq!(tokenizer.tokenize("\n", false), vec![303, 13]);
    assert_eq!(tokenizer.tokenize("\u{e9}", false), vec![303, 0, 0]);
    assert!(Tokenizer::new(vec!["x".to_string()], 1, 2, 0).is_none());
}

#[test]
fn token_lists_are_read() {
    assert_eq!(parse_tokens("1,9038,2501"), Ok(vec![1, 9038, 2501]));
    assert_eq!(parse_tokens(" 1 , +2 "), Ok(vec![1, 2]));
    assert_eq!(parse_tokens("1,,2"), Err(TokenListError::Empty));
    assert_eq!(parse_tokens(""), Err(TokenListError::Empty));
    assert_eq!(parse_tokens("1,x"), Err(TokenListError::Bad));
    assert_eq!(
        parse_tokens("99999999999999999999999"),
        Err(TokenListError::Bad)
    );
    let tokenizer = tokenizer();
    assert_eq!(
        parse_token_or_text_input("1, 2  3", &tokenizer),
        Ok(vec![1, 2, 3])
    );
    assert_eq!(
        parse_token_or_text_input("Once", &tokenizer),
        Ok(vec![300])
    );
    assert_eq!(parse_token_or_text_input(", ,", &tokenizer), Ok(vec![]));
}

#[test]
fn text_is_trimmed_and_numbers_are_read() {
    let text = chars_of(" \u{3000}a b\t");
    let (start, end) = trim(&text);
    assert_eq!(text[start..end].iter().collect::<String>(), "a b");
    assert_eq!(parse_number(&chars_of("0042")), Some(42));
    assert_eq!(parse_number(&chars_of("+")), None);
    assert_eq!(parse_number(&chars_of("-1")), None);
    assert!(same_text("abc", "abc"));
    assert!(!same_text("abc", "abd"));
}

fn arguments(list: &[&str]) -> (Vec<String>, Vec<Option<u32>>) {
    let args: Vec<String> = list.iter().map(|arg| arg.to_string()).collect();
    let temps = args
        .iter()
        .map(|arg| arg.parse::<f32>().ok().map(f32::to_bits))
        .collect();
    (args, temps)
}

#[test]
fn arguments_are_read() {
    let (args, temps) = arguments(&[
        "--model",
        "story.gguf",
        "--prompt",
        "Once upon",
        "-n",
        "16",
        "--temp",
        "0.5",
        "--dump",
        "out.txt",
        "-i",
        "--list-tensors",
        "--tokens",
        "1,2",
    ]);
    let read = match parse_args(&args, &temps) {
        Ok(Some(read)) => read,
        _ => panic!("arguments should be read"),
    };
    assert_eq!(read.model, "story.gguf");
    assert_eq!(read.prompt.as_deref(), Some("Once upon"));
    assert_eq!(read.tokens, vec![1, 2]);
    assert_eq!(read.temp, 0.5_f32.to_bits());
    assert_eq!(read.n_predict, 16);
    assert_eq!(read.dump, "out.txt");
    assert!(read.list_tensors);
    assert!(read.interactive);

    let (args, temps) = arguments(&["-m", "story.gguf"]);
    let read = match parse_args(&args, &temps) {
        Ok(Some(read)) => read,
        _ => panic!("arguments should be read"),
    };
    assert_eq!(read.dump, "ggml.txt");
    assert_eq!(read.n_predict, 1);
    assert_eq!(read.temp, 0);

    let fault = |list: &[&str]| {
        let (args, temps) = arguments(list);
        parse_args(&args, &temps).err()
    };
    assert_eq!(fault(&[]), Some(ArgError::MissingModel));
    assert_eq!(fault(&["--model"]), Some(ArgError::MissingValue(0)));
    assert_eq!(fault(&["-i", "what"]), Some(ArgError::Unknown(1)));
    assert_eq!(fault(&["--temp", "hot"]), Some(ArgError::BadTemp));
    assert_eq!(fault(&["-n", "-1"]), Some(ArgError::BadCount));
    assert_eq!(
        fault(&["--tokens", ","]),
        Some(ArgError::Tokens(TokenListError::Empty))
    );
    let (args, temps) = arguments(&["--help", "what"]);
    assert!(matches!(parse_args(&args, &temps), Ok(None)));
}

#[test]
fn the_forward_pass_is_planned() {
    let steps = match plan_forward(&[1, 2, 3]) {
        Ok(steps) => steps,
        Err(_) => panic!("tokens should be accepted"),
    };
    assert_eq!(steps.len(), STEPS);
    assert_eq!(steps[0].work, Work::LookUp);
    assert_eq!(steps[0].first, Operand::Weight(Weight::TokenEmbedding));
    assert_eq!(steps[2].mark, Some(Mark::Embedding));
    assert_eq!(steps[3].first, Operand::Value(2));
    assert_eq!(
        steps[3].second,
        Some(Operand::Weight(Weight::Layer(0, LayerWeight::AttnNorm)))
    );
    assert_eq!(steps[12].shape.to_vec(), vec![6, 3, 3]);
    assert_eq!(steps[24].first, Operand::Value(23));
    assert_eq!(
        steps[128].mark,
        Some(Mark::FfnResidual(5))
    );
    assert_eq!(steps[130].shape.to_vec(), vec![1, 1, 3, 32_000]);
    for (index, step) in steps.iter().enumerate() {
        for operand in [Some(step.first), step.second].into_iter().flatten() {
            if let Operand::Value(from) = operand {
                assert!(from < index);
            }
        }
    }
    let marks: Vec<usize> = steps
        .iter()
        .filter_map(|step| step.mark)
        .map(|mark| mark.node())
        .collect();
    assert_eq!(marks, (0..LOGITS_NODE).collect::<Vec<_>>());
    assert_eq!(Mark::AttnResidual(4).name(), "blk.4.attn_residual");
    assert_eq!(Mark::Embedding.op(), "GET_ROWS+TRANSPOSE");
    assert_eq!(
        Weight::Layer(2, LayerWeight::FfnDown).name(),
        "blk.2.ffn_down.weight"
    );
    assert_eq!(last_logits_start(3), 64_000);
    assert!(dump_due(1, 3));
    assert!(!dump_due(0, 3));
    assert!(!dump_due(2, 3));
}

#[test]
fn unknown_tokens_are_refused() {
    assert_eq!(check_tokens(&[]), Err(ForwardError::NoTokens));
    assert_eq!(
        check_tokens(&[1; 257]),
        Err(ForwardError::TooLong(257))
    );
    assert_eq!(
        check_tokens(&[1, 32_000, 40_000]),
        Err(ForwardError::OutOfVocab(32_000))
    );
    assert_eq!(check_tokens(&[31_999; 256]), Ok(()));
}

#[test]
fn steps_become_kernels() {
    let steps = match plan_forward(&[1, 2, 3]) {
        Ok(steps) => steps,
        Err(_) => panic!("tokens should be accepted"),
    };
    let tensor = AiTensorDesc::default();
    let desc = describe_step(steps[3].work, &[tensor, tensor, tensor]);
    assert_eq!(desc.op, KernelOp(KernelOp::RMS_NORM));
    assert_eq!(desc.input_count.get(), 2);
    assert_eq!(desc.output_count.get(), 1);
    let word = |at: usize| {
        u32::from_le_bytes([
            desc.attr_inline[at],
            desc.attr_inline[at + 1],
            desc.attr_inline[at + 2],
            desc.attr_inline[at + 3],
        ])
    };
    assert_eq!(word(0), 288);
    assert_eq!(f32::from_bits(word(4)), 1.0e-5);
    let scale = describe_step(Work::Scale, &[tensor, tensor]);
    let bits = u32::from_le_bytes([
        scale.attr_inline[0],
        scale.attr_inline[1],
        scale.attr_inline[2],
        scale.attr_inline[3],
    ]);
    assert_eq!(f32::from_bits(bits), 1.0 / 48.0_f32.sqrt());
    assert_eq!(scale.input_count.get(), 1);
}

#[test]
fn positions_and_masks() {
    assert_eq!(make_positions(3), vec![0, 1, 2]);
    let hidden = HIDDEN_SCORE_BITS;
    assert_eq!(f32::from_bits(hidden), -1.0e30);
    assert_eq!(
        make_causal_mask(3),
        vec![0, hidden, hidden, 0, 0, hidden, 0, 0, 0]
    );
}

#[test]
fn the_last_of_the_largest_is_picked() {
    let bits = |values: &[f32]| values.iter().map(|v| v.to_bits()).collect::<Vec<_>>();
    assert_eq!(greedy_token(&bits(&[1.0, 3.0, -2.0, 3.0, 0.5])), 3);
    let spend = |left: u64, logit: u32| left.saturating_sub(u64::from(logit));
    let used_up = |left: u64| left == 0;
    assert_eq!(reach_token(&[3, 4, 5], 7, &spend, &used_up), 1);
    assert_eq!(reach_token(&[3, 4, 5], 100, &spend, &used_up), 2);
    let total = |_: &[u32]| Some(10_u64);
    let none = |_: &[u32]| None;
    let scale = |unit: u64, sum: u64| unit % sum + 1;
    let mut rng = 5;
    assert_eq!(
        sample_next_token(&[1, 2], true, &mut rng, &total, &scale, &spend, &used_up),
        Err(SampleError::LogitsMismatch(2))
    );
    let logits = vec![1_u32; VOCAB];
    assert_eq!(
        sample_next_token(&logits, true, &mut rng, &total, &scale, &spend, &used_up),
        Ok(VOCAB - 1)
    );
    assert_eq!(
        sample_next_token(&logits, false, &mut rng, &none, &scale, &spend, &used_up),
        Err(SampleError::BadDistribution)
    );
    assert_eq!(rng, 5);
    let picked = sample_next_token(&logits, false, &mut rng, &total, &scale, &spend, &used_up);
    assert_eq!(picked, Ok(((rng >> 11) % 10) as usize));
}

#[test]
fn random_states_are_reproducible() {
    assert_eq!(seed_from_tokens(&[]), 0x9e37_79b9_7f4a_7c15);
    let one = (0x9e37_79b9_7f4a_7c15_u64 ^ 7)
        .wrapping_mul(0xbf58_476d_1ce4_e5b9)
        .rotate_left(27);
    assert_eq!(seed_from_tokens(&[7]), one);
    let mut state = 1_u64;
    let unit = next_unit(&mut state);
    let mut x = 1_u64;
    x ^= x << 13;
    x ^= x >> 7;
    x ^= x << 17;
    assert_eq!(state, x);
    assert_eq!(unit, x >> 11);
    let mut source = TokenSource { next: 1 };
    assert_eq!(source.next(), 1);
    assert_eq!(source.next(), 2);
}

#[test]
fn a_run_takes_its_course() {
    let tokenizer = tokenizer();
    let (args, temps) = arguments(&["-m", "x", "-i", "-n", "3"]);
    let args = match parse_args(&args, &temps) {
        Ok(Some(read)) => read,
        _ => panic!("arguments should be read"),
    };
    let mut session = Session::start(&args);
    assert_eq!(session.action(), Action::ReadLine { first: true });
    session.on_line(Some(""), &tokenizer).unwrap();
    assert_eq!(session.step, 1);
    session.on_line(Some("Once"), &tokenizer).unwrap();
    assert_eq!(session.tokens, vec![300]);
    assert_eq!(session.action(), Action::Predict);
    session.on_token(9).unwrap();
    assert_eq!(session.tokens, vec![300, 9]);
    assert_eq!(session.action(), Action::ReadLine { first: false });
    session.on_line(Some(""), &tokenizer).unwrap();
    assert_eq!(session.action(), Action::Predict);
    session.on_token(10).unwrap();
    assert_eq!(session.action(), Action::Stop);

    let mut ended = Session::start(&args);
    ended.on_line(Some("/exit"), &tokenizer).unwrap();
    assert_eq!(ended.action(), Action::Stop);

    let (list, temps) = arguments(&["-m", "x", "-n", "1"]);
    let mut args = match parse_args(&list, &temps) {
        Ok(Some(read)) => read,
        _ => panic!("arguments should be read"),
    };
    args.tokens = vec![1; CONTEXT];
    let mut full = Session::start(&args);
    assert_eq!(full.action(), Action::Predict);
    assert_eq!(
        full.on_token(3),
        Err(ForwardError::TooLong(CONTEXT + 1))
    );
}

#[test]
fn white_space_is_what_unicode_lists() {
    let listed = |code: u32| {
        (0x9..=0xd).contains(&code)
            || (0x2000..=0x200a).contains(&code)
            || [
                0x20, 0x85, 0xa0, 0x1680, 0x2028, 0x2029, 0x202f, 0x205f, 0x3000,
            ]
            .contains(&code)
    };
    for c in '\0'..=char::MAX {
        let (start, end) = trim(&[c]);
        assert_eq!(start == end, listed(c as u32));
    }
}

#[test]
fn tokens_join_to_the_text() {
    let tokenizer = tokenizer();
    let pieces = pieces();
    let tokens = tokenizer.tokenize("Once upon up", false);
    assert!(!tokens.contains(&0));
    let joined: String = tokens
        .iter()
        .map(|token| pieces[*token as usize].as_str())
        .collect();
    assert_eq!(joined.as_bytes().to_vec(), normalize_llama_text("Once upon up"));
}

#[test]
fn short_arguments_have_full_names() {
    for (short, full) in [("-m", "--model"), ("-p", "--prompt"), ("-n", "--n-predict")] {
        assert_eq!(name_in_full(short), full);
    }
    assert_eq!(name_in_full("--dump"), "--dump");
}
