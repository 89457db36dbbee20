//! The forward pass of the story model, as a list of kernels to run in order.

use crate::story::model::{
    layer_label, LayerWeight, Weight, ATTENTION_SCALE_BITS, CONTEXT, FFN, HEAD_DIM, HIDDEN, N_HEAD,
    N_LAYER, ONE_BITS, RMS_EPS_BITS, ROPE_FREQ_BASE_BITS, VOCAB,
};
use crate::uabi::desc::{AiDtype, AiKernelDesc, AiTensorDesc};
use crate::uabi::kernel::{AiTargetHint, KernelOp};
use crate::uabi::kernelattr::{
    BinaryAttr, CopyAttr, GetRowsAttr, GluAttr, MatMulAttr, RmsNormAttr, RopeAttr,
    SoftmaxAttr, TransposeAttr, UnaryAttr,
};
use crate::uabi::types::{
    DimCount, DimSize, ElemStride, FloatBits, OpFlags, TensorAxis, TensorCount,
};
use vstd::prelude::*;
use vstd::string::StringExecFns;

verus! {

/// Steps before the first layer.
pub const EMBEDDING_STEPS: usize = 3;

/// Steps of a layer.
pub const LAYER_STEPS: usize = 21;

/// All steps: the embedding, six layers, the last normalisation and the logits.
pub const STEPS: usize = 131;

/// A product of two batches of matrices. Strides are counted in elements.
#[derive(Clone, Copy, PartialEq, Eq, Debug)]
pub struct Product {
    /// Rows of the output.
    pub m: u32,
    /// Columns of the output.
    pub n: u32,
    /// Length of the reduced axis.
    pub k: u32,
    /// Number of matrices; zero means one.
    pub batch: u32,
    /// Step between rows of the left matrix.
    pub lhs_row: u32,
    /// Step between columns of the left matrix.
    pub lhs_col: u32,
    /// Step between left matrices.
    pub lhs_batch: u32,
    /// Step between rows of the right matrix.
    pub rhs_row: u32,
    /// Step between columns of the right matrix.
    pub rhs_col: u32,
    /// Step between right matrices.
    pub rhs_batch: u32,
    /// Step between rows of the output.
    pub out_row: u32,
    /// Step between columns of the output.
    pub out_col: u32,
    /// Step between outputs.
    pub out_batch: u32,
}

/// What a step computes.
#[derive(Clone, Copy, PartialEq, Eq, Debug)]
pub enum Work {
    /// Looks up the rows of the tokens.
    LookUp,
    /// Swaps the first two of four axes.
    Transpose,
    /// Gives the elements another shape.
    Reshape,
    /// Divides each row by its root mean square and scales it.
    Norm,
    /// Multiplies matrices.
    Product(Product),
    /// Rotates pairs of entries by the position.
    Rotate,
    /// Multiplies by the attention scale.
    Scale,
    /// Turns masked scores into weights along the last axis.
    MaskedSoftmax,
    /// Multiplies one state with the activation of another.
    Gate,
    /// Adds element by element.
    Sum,
}

/// What a step reads.
#[derive(Clone, Copy, PartialEq, Eq, Debug)]
pub enum Operand {
    /// A weight of the model.
    Weight(Weight),
    /// What the numbered step computed.
    Value(usize),
    /// The token ids.
    Tokens,
    /// The positions, counted from zero.
    Positions,
    /// The mask that hides later positions.
    Mask,
}

/// Extents of up to four axes.
#[derive(Clone, Copy, PartialEq, Eq, Debug)]
pub struct Extents {
    /// Number of axes, three or four.
    pub rank: usize,
    /// Extent of the first axis.
    pub first: u32,
    /// Extent of the second axis.
    pub second: u32,
    /// Extent of the third axis.
    pub third: u32,
    /// Extent of the fourth axis, or one.
    pub fourth: u32,
}

/// A value that is written out for comparison.
#[derive(Clone, Copy, PartialEq, Eq, Debug)]
pub enum Mark {
    /// The embedded tokens.
    Embedding,
    /// The normalised input of a layer.
    AttnNorm(usize),
    /// The hidden state after attention.
    AttnResidual(usize),
    /// The hidden state after the feed-forward part.
    FfnResidual(usize),
}

/// One kernel of the forward pass.
#[derive(Clone, Copy, PartialEq, Eq, Debug)]
pub struct Step {
    /// What is computed.
    pub work: Work,
    /// What is read first.
    pub first: Operand,
    /// What is read second.
    pub second: Option<Operand>,
    /// Extents of what comes out.
    pub shape: Extents,
    /// Whether the output is written out.
    pub mark: Option<Mark>,
}

/// Why a forward pass cannot be planned.
#[derive(Clone, Copy, PartialEq, Eq, Debug)]
pub enum ForwardError {
    /// There is no token.
    NoTokens,
    /// There are more tokens than the model can look at.
    TooLong(usize),
    /// A token is not one of the model's.
    OutOfVocab(usize),
}

/// Four axes.
pub open spec fn extents(first: u32, second: u32, third: u32, fourth: u32) -> Extents {
    Extents { rank: 4, first, second, third, fourth }
}

/// A hidden state for each position.
pub open spec fn rows(seq: u32, width: usize) -> Extents {
    extents(1, 1, seq, width as u32)
}

/// A head of each position.
pub open spec fn heads(seq: u32) -> Extents {
    extents(1, seq, N_HEAD as u32, HEAD_DIM as u32)
}

/// A score for each head and each pair of positions.
pub open spec fn scores(seq: u32) -> Extents {
    Extents { rank: 3, first: N_HEAD as u32, second: seq, third: seq, fourth: 1 }
}

impl Extents {
    /// Number of elements.
    pub open spec fn count(self) -> int {
        self.first * self.second * self.third * self.fourth
    }

    /// The extents as a list.
    pub open spec fn list(self) -> Seq<u32> {
        if self.rank == 3 {
            seq![self.first, self.second, self.third]
        } else {
            seq![self.first, self.second, self.third, self.fourth]
        }
    }

    /// The extents as a list.
    pub fn to_vec(self) -> (r: Vec<u32>)
        ensures
            r@ == self.list(),
    {
        let r: Vec<u32> = if self.rank == 3 {
            vec![self.first, self.second, self.third]
        } else {
            vec![self.first, self.second, self.third, self.fourth]
        };
        assert(r@ =~= self.list());
        r
    }
}

/// The product of a weight and the rows of a state: from `from` entries to `to`.
pub open spec fn projection(seq: u32, from: usize, to: usize) -> Product {
    Product {
        m: to as u32,
        n: seq,
        k: from as u32,
        batch: 0,
        lhs_row: 0,
        lhs_col: 0,
        lhs_batch: 0,
        rhs_row: 1,
        rhs_col: from as u32,
        rhs_batch: 0,
        out_row: 1,
        out_col: to as u32,
        out_batch: 0,
    }
}

/// Each query times each key, head by head.
pub open spec fn attention_scores(seq: u32) -> Product {
    Product {
        m: seq,
        n: seq,
        k: HEAD_DIM as u32,
        batch: N_HEAD as u32,
        lhs_row: HIDDEN as u32,
        lhs_col: 1,
        lhs_batch: HEAD_DIM as u32,
        rhs_row: 1,
        rhs_col: HIDDEN as u32,
        rhs_batch: HEAD_DIM as u32,
        out_row: seq,
        out_col: 1,
        out_batch: (seq * seq) as u32,
    }
}

/// The values weighted by the scores, head by head.
pub open spec fn attention_values(seq: u32) -> Product {
    Product {
        m: seq,
        n: HEAD_DIM as u32,
        k: seq,
        batch: N_HEAD as u32,
        lhs_row: seq,
        lhs_col: 1,
        lhs_batch: (seq * seq) as u32,
        rhs_row: HIDDEN as u32,
        rhs_col: 1,
        rhs_batch: HEAD_DIM as u32,
        out_row: HIDDEN as u32,
        out_col: 1,
        out_batch: HEAD_DIM as u32,
    }
}

/// A step that reads one value.
pub open spec fn on_one(work: Work, from: int, shape: Extents) -> Step {
    Step { work, first: Operand::Value(from as usize), second: None, shape, mark: None }
}

/// A step that reads two values.
pub open spec fn on_two(work: Work, from: int, with: int, shape: Extents) -> Step {
    Step {
        work,
        first: Operand::Value(from as usize),
        second: Some(Operand::Value(with as usize)),
        shape,
        mark: None,
    }
}

/// A step that multiplies a weight with a state.
pub open spec fn project(seq: u32, weight: Weight, state: int, from: usize, to: usize) -> Step {
    Step {
        work: Work::Product(projection(seq, from, to)),
        first: Operand::Weight(weight),
        second: Some(Operand::Value(state as usize)),
        shape: rows(seq, to),
        mark: None,
    }
}

/// A step that normalises a hidden state.
pub open spec fn normalise(seq: u32, state: int, weight: Weight) -> Step {
    Step {
        work: Work::Norm,
        first: Operand::Value(state as usize),
        second: Some(Operand::Weight(weight)),
        shape: rows(seq, HIDDEN),
        mark: None,
    }
}

/// The step of a layer with the given place in it. The layer reads the hidden state that
/// the step before it left.
pub open spec fn layer_step(seq: u32, layer: usize, part: int) -> Step {
    let base = EMBEDDING_STEPS + LAYER_STEPS * layer;
    let weight = |w: LayerWeight| Weight::Layer(layer, w);
    if part == 0 {
        Step {
            mark: Some(Mark::AttnNorm(layer)),
            ..normalise(seq, base - 1, weight(LayerWeight::AttnNorm))
        }
    } else if part == 1 {
        project(seq, weight(LayerWeight::AttnQ), base, HIDDEN, HIDDEN)
    } else if part == 2 {
        project(seq, weight(LayerWeight::AttnK), base, HIDDEN, HIDDEN)
    } else if part == 3 {
        project(seq, weight(LayerWeight::AttnV), base, HIDDEN, HIDDEN)
    } else if part <= 6 {
        on_one(Work::Reshape, base + part - 3, heads(seq))
    } else if part <= 8 {
        Step {
            second: Some(Operand::Positions),
            ..on_one(Work::Rotate, base + part - 3, heads(seq))
        }
    } else if part == 9 {
        on_two(Work::Product(attention_scores(seq)), base + 7, base + 8, scores(seq))
    } else if part == 10 {
        on_one(Work::Scale, base + 9, scores(seq))
    } else if part == 11 {
        Step {
            second: Some(Operand::Mask),
            ..on_one(Work::MaskedSoftmax, base + 10, scores(seq))
        }
    } else if part == 12 {
        on_two(Work::Product(attention_values(seq)), base + 11, base + 6, heads(seq))
    } else if part == 13 {
        project(seq, weight(LayerWeight::AttnOutput), base + 12, HIDDEN, HIDDEN)
    } else if part == 14 {
        Step {
            mark: Some(Mark::AttnResidual(layer)),
            ..on_two(Work::Sum, base - 1, base + 13, rows(seq, HIDDEN))
        }
    } else if part == 15 {
        normalise(seq, base + 14, weight(LayerWeight::FfnNorm))
    } else if part == 16 {
        project(seq, weight(LayerWeight::FfnGate), base + 15, HIDDEN, FFN)
    } else if part == 17 {
        project(seq, weight(LayerWeight::FfnUp), base + 15, HIDDEN, FFN)
    } else if part == 18 {
        on_two(Work::Gate, base + 16, base + 17, rows(seq, FFN))
    } else if part == 19 {
        project(seq, weight(LayerWeight::FfnDown), base + 18, FFN, HIDDEN)
    } else {
        Step {
            mark: Some(Mark::FfnResidual(layer)),
            ..on_two(Work::Sum, base + 14, base + 19, rows(seq, HIDDEN))
        }
    }
}

/// The step with the given number.
pub open spec fn step_of(seq: u32, index: int) -> Step {
    if index == 0 {
        Step {
            work: Work::LookUp,
            first: Operand::Weight(Weight::TokenEmbedding),
            second: Some(Operand::Tokens),
            shape: extents(HIDDEN as u32, seq, 1, 1),
            mark: None,
        }
    } else if index == 1 {
        on_one(Work::Transpose, 0, extents(seq, HIDDEN as u32, 1, 1))
    } else if index == 2 {
        Step { mark: Some(Mark::Embedding), ..on_one(Work::Reshape, 1, rows(seq, HIDDEN)) }
    } else if index < 129 {
        layer_step(
            seq,
            ((index - 3) / (LAYER_STEPS as int)) as usize,
            (index - 3) % (LAYER_STEPS as int),
        )
    } else if index == 129 {
        normalise(seq, 128, Weight::OutputNorm)
    } else {
        project(seq, Weight::TokenEmbedding, 129, HIDDEN, VOCAB)
    }
}

/// What is wrong with a sequence of tokens, where anything is.
pub open spec fn tokens_fault(tokens: Seq<usize>) -> Option<ForwardError> {
    if tokens.len() == 0 {
        Some(ForwardError::NoTokens)
    } else if tokens.len() > CONTEXT {
        Some(ForwardError::TooLong(tokens.len() as usize))
    } else {
        first_unknown(tokens)
    }
}

/// The first token that the model does not know.
pub open spec fn first_unknown(tokens: Seq<usize>) -> Option<ForwardError>
    decreases tokens.len(),
{
    if tokens.len() == 0 {
        None
    } else if tokens[0] >= VOCAB {
        Some(ForwardError::OutOfVocab(tokens[0]))
    } else {
        first_unknown(tokens.skip(1))
    }
}

/// Checks a sequence of tokens.
pub fn check_tokens(tokens: &[usize]) -> (r: Result<(), ForwardError>)
    ensures
        r == (match tokens_fault(tokens@) {
            None => Ok::<(), ForwardError>(()),
            Some(err) => Err(err),
        }),
{
    let count: usize = tokens.len();
    if count == 0 {
        return Err(ForwardError::NoTokens);
    }
    if count > CONTEXT {
        return Err(ForwardError::TooLong(count));
    }
    let mut i: usize = 0;
    assert(tokens@.skip(0) =~= tokens@);
    while i < count
        invariant
            i <= count == tokens@.len(),
            0 < count <= CONTEXT,
            first_unknown(tokens@) == first_unknown(tokens@.skip(i as int)),
        decreases count - i,
    {
        let token: usize = tokens[i];
        assert(tokens@.skip(i as int).skip(1) =~= tokens@.skip(i + 1));
        if token >= VOCAB {
            return Err(ForwardError::OutOfVocab(token));
        }
        i = i + 1;
    }
    Ok(())
}

fn four(first: u32, second: u32, third: u32, fourth: u32) -> (r: Extents)
    ensures
        r == extents(first, second, third, fourth),
{
    Extents { rank: 4, first, second, third, fourth }
}

fn state_rows(seq: u32, width: usize) -> (r: Extents)
    requires
        width <= VOCAB,
    ensures
        r == rows(seq, width),
{
    four(1, 1, seq, width as u32)
}

fn read_one(work: Work, from: usize, shape: Extents) -> (r: Step)
    ensures
        r == on_one(work, from as int, shape),
{
    Step { work, first: Operand::Value(from), second: None, shape, mark: None }
}

fn read_two(work: Work, from: usize, with: usize, shape: Extents) -> (r: Step)
    ensures
        r == on_two(work, from as int, with as int, shape),
{
    Step {
        work,
        first: Operand::Value(from),
        second: Some(Operand::Value(with)),
        shape,
        mark: None,
    }
}

fn project_state(seq: u32, weight: Weight, state: usize, from: usize, to: usize) -> (r: Step)
    requires
        from <= VOCAB,
        to <= VOCAB,
    ensures
        r == project(seq, weight, state as int, from, to),
{
    let product = Product {
        m: to as u32,
        n: seq,
        k: from as u32,
        batch: 0,
        lhs_row: 0,
        lhs_col: 0,
        lhs_batch: 0,
        rhs_row: 1,
        rhs_col: from as u32,
        rhs_batch: 0,
        out_row: 1,
        out_col: to as u32,
        out_batch: 0,
    };
    Step {
        work: Work::Product(product),
        first: Operand::Weight(weight),
        second: Some(Operand::Value(state)),
        shape: state_rows(seq, to),
        mark: None,
    }
}

fn normalise_state(seq: u32, state: usize, weight: Weight) -> (r: Step)
    ensures
        r == normalise(seq, state as int, weight),
{
    Step {
        work: Work::Norm,
        first: Operand::Value(state),
        second: Some(Operand::Weight(weight)),
        shape: state_rows(seq, HIDDEN),
        mark: None,
    }
}

proof fn square_is_small(seq: u32)
    requires
        seq <= CONTEXT,
    ensures
        0 <= seq * seq <= 65536,
{
    assert(0 <= seq * seq <= 65536) by (nonlinear_arith)
        requires
            0 <= seq <= 256,
    ;
}

fn score_product(seq: u32) -> (r: Product)
    requires
        seq <= CONTEXT,
    ensures
        r == attention_scores(seq),
{
    proof {
        square_is_small(seq);
    }
    Product {
        m: seq,
        n: seq,
        k: HEAD_DIM as u32,
        batch: N_HEAD as u32,
        lhs_row: HIDDEN as u32,
        lhs_col: 1,
        lhs_batch: HEAD_DIM as u32,
        rhs_row: 1,
        rhs_col: HIDDEN as u32,
        rhs_batch: HEAD_DIM as u32,
        out_row: seq,
        out_col: 1,
        out_batch: seq * seq,
    }
}

fn value_product(seq: u32) -> (r: Product)
    requires
        seq <= CONTEXT,
    ensures
        r == attention_values(seq),
{
    proof {
        square_is_small(seq);
    }
    Product {
        m: seq,
        n: HEAD_DIM as u32,
        k: seq,
        batch: N_HEAD as u32,
        lhs_row: seq,
        lhs_col: 1,
        lhs_batch: seq * seq,
        rhs_row: HIDDEN as u32,
        rhs_col: 1,
        rhs_batch: HEAD_DIM as u32,
        out_row: HIDDEN as u32,
        out_col: 1,
        out_batch: HEAD_DIM as u32,
    }
}

/// Adds the steps of a layer.
fn push_layer(steps: &mut Vec<Step>, seq: u32, layer: usize)
    requires
        seq <= CONTEXT,
        layer < N_LAYER,
        old(steps)@.len() == EMBEDDING_STEPS + LAYER_STEPS * layer,
        forall|i: int|
            0 <= i < old(steps)@.len() ==> #[trigger] old(steps)@[i] == step_of(seq, i),
    ensures
        final(steps)@.len() == EMBEDDING_STEPS + LAYER_STEPS * (layer + 1),
        forall|i: int|
            0 <= i < final(steps)@.len() ==> #[trigger] final(steps)@[i] == step_of(seq, i),
{
    let ghost before = steps@;
    let base: usize = steps.len();
    let by_head: Extents = four(1, seq, N_HEAD as u32, HEAD_DIM as u32);
    let by_pair = Extents { rank: 3, first: N_HEAD as u32, second: seq, third: seq, fourth: 1 };
    let state: Extents = state_rows(seq, HIDDEN);

    let mut norm: Step = normalise_state(
        seq,
        base - 1,
        Weight::Layer(layer, LayerWeight::AttnNorm),
    );
    norm.mark = Some(Mark::AttnNorm(layer));
    steps.push(norm);
    steps.push(
        project_state(seq, Weight::Layer(layer, LayerWeight::AttnQ), base, HIDDEN, HIDDEN),
    );
    steps.push(
        project_state(seq, Weight::Layer(layer, LayerWeight::AttnK), base, HIDDEN, HIDDEN),
    );
    steps.push(
        project_state(seq, Weight::Layer(layer, LayerWeight::AttnV), base, HIDDEN, HIDDEN),
    );
    steps.push(read_one(Work::Reshape, base + 1, by_head));
    steps.push(read_one(Work::Reshape, base + 2, by_head));
    steps.push(read_one(Work::Reshape, base + 3, by_head));
    let mut query: Step = read_one(Work::Rotate, base + 4, by_head);
    query.second = Some(Operand::Positions);
    steps.push(query);
    let mut key: Step = read_one(Work::Rotate, base + 5, by_head);
    key.second = Some(Operand::Positions);
    steps.push(key);
    steps.push(read_two(Work::Product(score_product(seq)), base + 7, base + 8, by_pair));
    steps.push(read_one(Work::Scale, base + 9, by_pair));
    let mut weights: Step = read_one(Work::MaskedSoftmax, base + 10, by_pair);
    weights.second = Some(Operand::Mask);
    steps.push(weights);
    steps.push(read_two(Work::Product(value_product(seq)), base + 11, base + 6, by_head));
    steps.push(
        project_state(
            seq,
            Weight::Layer(layer, LayerWeight::AttnOutput),
            base + 12,
            HIDDEN,
            HIDDEN,
        ),
    );
    let mut attended: Step = read_two(Work::Sum, base - 1, base + 13, state);
    attended.mark = Some(Mark::AttnResidual(layer));
    steps.push(attended);

    steps.push(
        normalise_state(seq, base + 14, Weight::Layer(layer, LayerWeight::FfnNorm)),
    );
    steps.push(
        project_state(seq, Weight::Layer(layer, LayerWeight::FfnGate), base + 15, HIDDEN, FFN),
    );
    steps.push(
        project_state(seq, Weight::Layer(layer, LayerWeight::FfnUp), base + 15, HIDDEN, FFN),
    );
    steps.push(read_two(Work::Gate, base + 16, base + 17, state_rows(seq, FFN)));
    steps.push(
        project_state(seq, Weight::Layer(layer, LayerWeight::FfnDown), base + 18, FFN, HIDDEN),
    );
    let mut fed: Step = read_two(Work::Sum, base + 14, base + 19, state);
    fed.mark = Some(Mark::FfnResidual(layer));
    steps.push(fed);
    proof {
        assert forall|i: int| 0 <= i < steps@.len() implies #[trigger] steps@[i] == step_of(
            seq,
            i,
        ) by {
            if i < base {
                assert(steps@[i] == before[i]);
            } else {
                place_in_layer(layer as int, i - base);
                assert(i - 3 == 21 * layer + (i - base));
            }
        }
    }
}

proof fn place_in_layer(layer: int, part: int)
    requires
        0 <= layer < 6,
        0 <= part < 21,
    ensures
        (21 * layer + part) / 21 == layer,
        (21 * layer + part) % 21 == part,
{
}

/// The forward pass over a sequence of tokens: every step in order.
pub fn plan_forward(tokens: &[usize]) -> (r: Result<Vec<Step>, ForwardError>)
    ensures
        match r {
            Ok(steps) => {
                &&& tokens_fault(tokens@) is None
                &&& steps@ == Seq::new(STEPS as nat, |i: int| step_of(tokens@.len() as u32, i))
            },
            Err(err) => tokens_fault(tokens@) == Some(err),
        },
{
    check_tokens(tokens)?;
    let seq: u32 = tokens.len() as u32;
    let mut steps: Vec<Step> = Vec::new();
    steps.push(
        Step {
            work: Work::LookUp,
            first: Operand::Weight(Weight::TokenEmbedding),
            second: Some(Operand::Tokens),
            shape: four(HIDDEN as u32, seq, 1, 1),
            mark: None,
        },
    );
    steps.push(read_one(Work::Transpose, 0, four(seq, HIDDEN as u32, 1, 1)));
    let mut embedded: Step = read_one(Work::Reshape, 1, state_rows(seq, HIDDEN));
    embedded.mark = Some(Mark::Embedding);
    steps.push(embedded);
    let mut layer: usize = 0;
    while layer < N_LAYER
        invariant
            layer <= N_LAYER,
            seq <= CONTEXT,
            steps@.len() == EMBEDDING_STEPS + LAYER_STEPS * layer,
            forall|i: int| 0 <= i < steps@.len() ==> #[trigger] steps@[i] == step_of(seq, i),
        decreases N_LAYER - layer,
    {
        push_layer(&mut steps, seq, layer);
        layer = layer + 1;
    }
    steps.push(normalise_state(seq, 128, Weight::OutputNorm));
    steps.push(project_state(seq, Weight::TokenEmbedding, 129, HIDDEN, VOCAB));
    assert(steps@ =~= Seq::new(STEPS as nat, |i: int| step_of(tokens@.len() as u32, i)));
    Ok(steps)
}

/// The operation of a step.
pub open spec fn op_of(work: Work) -> KernelOp {
    KernelOp(
        match work {
            Work::LookUp => KernelOp::GET_ROWS,
            Work::Transpose => KernelOp::TRANSPOSE,
            Work::Reshape => KernelOp::COPY,
            Work::Norm => KernelOp::RMS_NORM,
            Work::Product(_) => KernelOp::MAT_MUL,
            Work::Rotate => KernelOp::ROPE,
            Work::Scale => KernelOp::SCALE,
            Work::MaskedSoftmax => KernelOp::SOFTMAX,
            Work::Gate => KernelOp::GLU,
            Work::Sum => KernelOp::ADD,
        },
    )
}

/// A number of zero words.
pub open spec fn zeros(count: nat) -> Seq<u32> {
    Seq::new(count, |i: int| 0u32)
}

/// The words of a step's attribute.
pub open spec fn attr_of(work: Work) -> Seq<u32> {
    match work {
        Work::LookUp => zeros(16),
        Work::Transpose => seq![
            4u32,
            crate::bytes::word_of_signed(1),
            crate::bytes::word_of_signed(0),
            crate::bytes::word_of_signed(2),
            crate::bytes::word_of_signed(3),
            crate::bytes::word_of_signed(4),
            crate::bytes::word_of_signed(5),
            crate::bytes::word_of_signed(6),
            crate::bytes::word_of_signed(7),
        ] + zeros(7),
        Work::Reshape => zeros(16),
        Work::Norm => seq![HIDDEN as u32, RMS_EPS_BITS] + zeros(14),
        Work::Product(p) => seq![
            p.m,
            p.n,
            p.k,
            p.batch,
            p.lhs_row,
            p.lhs_col,
            p.lhs_batch,
            p.rhs_row,
            p.rhs_col,
            p.rhs_batch,
            p.out_row,
            p.out_col,
            p.out_batch,
            0,
            AiDtype::F32,
        ] + zeros(3),
        Work::Rotate => seq![
            HEAD_DIM as u32,
            RopeAttr::MODE_NEOX,
            CONTEXT as u32,
            N_HEAD as u32,
            ROPE_FREQ_BASE_BITS,
            ONE_BITS,
            0,
            ONE_BITS,
        ] + zeros(8),
        Work::Scale => seq![ATTENTION_SCALE_BITS] + zeros(15),
        Work::MaskedSoftmax => seq![
            crate::bytes::word_of_signed(2),
            ONE_BITS,
            0,
            SoftmaxAttr::HAS_MASK,
        ] + zeros(12),
        Work::Gate => seq![GluAttr::OP_SWIGLU] + zeros(15),
        Work::Sum => seq![0u32, ONE_BITS, ONE_BITS] + zeros(13),
    }
}

/// The kernel of a step, for tensors that are its inputs and then its output.
pub fn describe_step(work: Work, tensors: &[AiTensorDesc]) -> (r: AiKernelDesc)
    requires
        2 <= tensors@.len() <= 3,
    ensures
        r.describes(
            op_of(work),
            attr_of(work),
            AiTargetHint(AiTargetHint::AUTO),
            TensorCount((tensors@.len() - 1) as u32),
            TensorCount(1),
            tensors@,
        ),
{
    let auto = AiTargetHint(AiTargetHint::AUTO);
    let inputs = TensorCount(tensors.len() as u32 - 1);
    let outputs = TensorCount(1);
    match work {
        Work::LookUp => {
            let attr = GetRowsAttr::default();
            assert(crate::uabi::kernelattr::InlineAttr::words(attr) =~= attr_of(work));
            AiKernelDesc::new_with_op(
                KernelOp(KernelOp::GET_ROWS),
                &attr,
                auto,
                inputs,
                outputs,
                tensors,
            )
        },
        Work::Transpose => {
            let mut attr = TransposeAttr::default();
            attr.rank = DimCount(4);
            attr.perm = [
                TensorAxis(1),
                TensorAxis(0),
                TensorAxis(2),
                TensorAxis(3),
                TensorAxis(4),
                TensorAxis(5),
                TensorAxis(6),
                TensorAxis(7),
            ];
            assert(crate::uabi::kernelattr::InlineAttr::words(attr) =~= attr_of(work));
            AiKernelDesc::new_with_op(
                KernelOp(KernelOp::TRANSPOSE),
                &attr,
                auto,
                inputs,
                outputs,
                tensors,
            )
        },
        Work::Reshape => {
            let attr = CopyAttr::default();
            assert(crate::uabi::kernelattr::InlineAttr::words(attr) =~= attr_of(work));
            AiKernelDesc::new_with_op(
                KernelOp(KernelOp::COPY),
                &attr,
                auto,
                inputs,
                outputs,
                tensors,
            )
        },
        Work::Norm => {
            let mut attr = RmsNormAttr::default();
            attr.hidden_size = DimSize(HIDDEN as u32);
            attr.eps = FloatBits(RMS_EPS_BITS);
            assert(crate::uabi::kernelattr::InlineAttr::words(attr) =~= attr_of(work));
            AiKernelDesc::new_with_op(
                KernelOp(KernelOp::RMS_NORM),
                &attr,
                auto,
                inputs,
                outputs,
                tensors,
            )
        },
        Work::Product(product) => {
            let mut attr = MatMulAttr::default();
            attr.m = DimSize(product.m);
            attr.n = DimSize(product.n);
            attr.k = DimSize(product.k);
            attr.batch = DimSize(product.batch);
            attr.lhs_row_stride = ElemStride(product.lhs_row);
            attr.lhs_col_stride = ElemStride(product.lhs_col);
            attr.lhs_batch_stride = ElemStride(product.lhs_batch);
            attr.rhs_row_stride = ElemStride(product.rhs_row);
            attr.rhs_col_stride = ElemStride(product.rhs_col);
            attr.rhs_batch_stride = ElemStride(product.rhs_batch);
            attr.out_row_stride = ElemStride(product.out_row);
            attr.out_col_stride = ElemStride(product.out_col);
            attr.out_batch_stride = ElemStride(product.out_batch);
            attr.flags = OpFlags(0);
            attr.accum_dtype = AiDtype(AiDtype::F32);
            assert(crate::uabi::kernelattr::InlineAttr::words(attr) =~= attr_of(work));
            AiKernelDesc::new_with_op(
                KernelOp(KernelOp::MAT_MUL),
                &attr,
                auto,
                inputs,
                outputs,
                tensors,
            )
        },
        Work::Rotate => {
            let mut attr = RopeAttr::default();
            attr.n_dims = DimSize(HEAD_DIM as u32);
            attr.mode = RopeAttr::MODE_NEOX;
            attr.n_ctx = DimSize(CONTEXT as u32);
            attr.head_count = DimSize(N_HEAD as u32);
            attr.freq_base = FloatBits(ROPE_FREQ_BASE_BITS);
            attr.freq_scale = FloatBits(ONE_BITS);
            attr.ext_factor = FloatBits(0);
            attr.attn_factor = FloatBits(ONE_BITS);
            attr.beta_fast = FloatBits(0);
            attr.beta_slow = FloatBits(0);
            assert(crate::uabi::kernelattr::InlineAttr::words(attr) =~= attr_of(work));
            AiKernelDesc::new_with_op(
                KernelOp(KernelOp::ROPE),
                &attr,
                auto,
                inputs,
                outputs,
                tensors,
            )
        },
        Work::Scale => {
            let mut attr = UnaryAttr::default();
            attr.alpha = FloatBits(ATTENTION_SCALE_BITS);
            attr.beta = FloatBits(0);
            assert(crate::uabi::kernelattr::InlineAttr::words(attr) =~= attr_of(work));
            AiKernelDesc::new_with_op(
                KernelOp(KernelOp::SCALE),
                &attr,
                auto,
                inputs,
                outputs,
                tensors,
            )
        },
        Work::MaskedSoftmax => {
            let mut attr = SoftmaxAttr::default();
            attr.axis = TensorAxis(2);
            attr.scale = FloatBits(ONE_BITS);
            attr.max_bias = FloatBits(0);
            attr.flags = OpFlags(SoftmaxAttr::HAS_MASK);
            assert(crate::uabi::kernelattr::InlineAttr::words(attr) =~= attr_of(work));
            AiKernelDesc::new_with_op(
                KernelOp(KernelOp::SOFTMAX),
                &attr,
                auto,
                inputs,
                outputs,
                tensors,
            )
        },
        Work::Gate => {
            let mut attr = GluAttr::default();
            attr.op = GluAttr::OP_SWIGLU;
            attr.swapped = 0;
            assert(crate::uabi::kernelattr::InlineAttr::words(attr) =~= attr_of(work));
            AiKernelDesc::new_with_op(
                KernelOp(KernelOp::GLU),
                &attr,
                auto,
                inputs,
                outputs,
                tensors,
            )
        },
        Work::Sum => {
            let mut attr = BinaryAttr::default();
            attr.broadcast_kind = 0;
            attr.alpha = FloatBits(ONE_BITS);
            attr.beta = FloatBits(ONE_BITS);
            assert(crate::uabi::kernelattr::InlineAttr::words(attr) =~= attr_of(work));
            AiKernelDesc::new_with_op(
                KernelOp(KernelOp::ADD),
                &attr,
                auto,
                inputs,
                outputs,
                tensors,
            )
        },
    }
}

/// The positions of a sequence: zero, one, two and so on.
pub fn make_positions(seq: usize) -> (r: Vec<i64>)
    requires
        seq <= CONTEXT,
    ensures
        r@ == Seq::new(seq as nat, |i: int| i as i64),
{
    let mut positions: Vec<i64> = Vec::new();
    let mut i: usize = 0;
    while i < seq
        invariant
            i <= seq <= CONTEXT,
            positions@ == Seq::new(i as nat, |j: int| j as i64),
        decreases seq - i,
    {
        positions.push(i as i64);
        i = i + 1;
        assert(positions@ =~= Seq::new(i as nat, |j: int| j as i64));
    }
    positions
}

/// The mask of a query and a key: a later key is hidden.
pub open spec fn mask_bits(query: int, key: int) -> u32 {
    if query < key {
        crate::story::model::HIDDEN_SCORE_BITS
    } else {
        0
    }
}

/// The mask that hides later positions, one row for each query.
pub fn make_causal_mask(seq: usize) -> (r: Vec<u32>)
    requires
        seq <= CONTEXT,
    ensures
        r@.len() == seq * seq,
        forall|query: int, key: int|
            0 <= query < seq && 0 <= key < seq ==> #[trigger] r@[query * seq + key] == mask_bits(
                query,
                key,
            ),
{
    let mut mask: Vec<u32> = Vec::new();
    let mut query: usize = 0;
    assert(0 * seq == 0) by (nonlinear_arith);
    while query < seq
        invariant
            query <= seq,
            mask@.len() == query * seq,
            forall|q: int, k: int|
                0 <= q < query && 0 <= k < seq ==> #[trigger] mask@[q * seq + k] == mask_bits(q, k),
        decreases seq - query,
    {
        let ghost done = mask@;
        let mut key: usize = 0;
        while key < seq
            invariant
                query < seq,
                key <= seq,
                done.len() == query * seq,
                mask@.len() == done.len() + key,
                forall|i: int| 0 <= i < done.len() ==> #[trigger] mask@[i] == done[i],
                forall|k: int|
                    0 <= k < key ==> #[trigger] mask@[done.len() + k] == mask_bits(query as int, k),
            decreases seq - key,
        {
            if key > query {
                mask.push(crate::story::model::HIDDEN_SCORE_BITS);
            } else {
                mask.push(0);
            }
            key = key + 1;
        }
        assert((query + 1) * seq == query * seq + seq) by (nonlinear_arith);
        assert forall|q: int, k: int| 0 <= q < query + 1 && 0 <= k < seq implies #[trigger] mask@[q
            * seq + k] == mask_bits(q, k) by {
            if q < query {
                assert(0 <= q * seq + k < query * seq) by (nonlinear_arith)
                    requires
                        0 <= q,
                        q + 1 <= query,
                        0 <= k < seq,
                ;
                assert(mask@[q * seq + k] == done[q * seq + k]);
            } else {
                assert(mask@[done.len() + k] == mask_bits(query as int, k));
            }
        }
        query = query + 1;
    }
    mask
}

/// Whether marked values are written out for a sequence of this length.
pub fn dump_due(stride: usize, seq: usize) -> (r: bool)
    ensures
        r == (stride != 0 && seq as int % stride as int == 0),
{
    stride != 0 && seq % stride == 0
}

impl Mark {
    /// The number under which the value is written out.
    pub open spec fn number(self) -> int {
        match self {
            Mark::Embedding => 0,
            Mark::AttnNorm(layer) => 1 + 3 * layer,
            Mark::AttnResidual(layer) => 2 + 3 * layer,
            Mark::FfnResidual(layer) => 3 + 3 * layer,
        }
    }

    /// The operation under which the value is written out.
    pub open spec fn op_text(self) -> Seq<char> {
        match self {
            Mark::Embedding => "GET_ROWS+TRANSPOSE"@,
            Mark::AttnNorm(_) => "RMS_NORM"@,
            _ => "ADD"@,
        }
    }

    /// The name under which the value is written out.
    pub open spec fn text(self) -> Seq<char> {
        match self {
            Mark::Embedding => "embd"@,
            Mark::AttnNorm(layer) => crate::story::model::layer_name(layer) + ".attn_norm"@,
            Mark::AttnResidual(layer) => crate::story::model::layer_name(layer)
                + ".attn_residual"@,
            Mark::FfnResidual(layer) => crate::story::model::layer_name(layer) + ".ffn_residual"@,
        }
    }

    /// The mark is one of this model's.
    pub open spec fn in_model(self) -> bool {
        match self {
            Mark::Embedding => true,
            Mark::AttnNorm(layer) => layer < N_LAYER,
            Mark::AttnResidual(layer) => layer < N_LAYER,
            Mark::FfnResidual(layer) => layer < N_LAYER,
        }
    }

    /// The number under which the value is written out.
    pub fn node(self) -> (r: usize)
        requires
            self.in_model(),
        ensures
            r == self.number(),
    {
        match self {
            Mark::Embedding => 0,
            Mark::AttnNorm(layer) => 1 + 3 * layer,
            Mark::AttnResidual(layer) => 2 + 3 * layer,
            Mark::FfnResidual(layer) => 3 + 3 * layer,
        }
    }

    /// The operation under which the value is written out.
    pub fn op(self) -> (r: &'static str)
        ensures
            r@ == self.op_text(),
    {
        match self {
            Mark::Embedding => "GET_ROWS+TRANSPOSE",
            Mark::AttnNorm(_) => "RMS_NORM",
            Mark::AttnResidual(_) => "ADD",
            Mark::FfnResidual(_) => "ADD",
        }
    }

    /// The name under which the value is written out.
    pub fn name(self) -> (r: String)
        requires
            self.in_model(),
        ensures
            r@ == self.text(),
    {
        match self {
            Mark::Embedding => "embd".to_owned(),
            Mark::AttnNorm(layer) => {
                let mut name: String = layer_label(layer);
                name.append(".attn_norm");
                name
            },
            Mark::AttnResidual(layer) => {
                let mut name: String = layer_label(layer);
                name.append(".attn_residual");
                name
            },
            Mark::FfnResidual(layer) => {
                let mut name: String = layer_label(layer);
                name.append(".ffn_residual");
                name
            },
        }
    }
}

/// The number under which the last logits are written out.
pub const LOGITS_NODE: usize = 19;

/// Where the logits of the last position start among all logits.
pub fn last_logits_start(seq: usize) -> (r: usize)
    requires
        1 <= seq <= CONTEXT,
    ensures
        r == (seq - 1) * VOCAB,
{
    (seq - 1) * VOCAB
}

/// An operand that is known before the numbered step.
pub open spec fn known_before(operand: Operand, index: int) -> bool {
    match operand {
        Operand::Value(from) => from < index,
        Operand::Weight(weight) => weight.in_model(),
        _ => true,
    }
}

/// Every step reads weights of the model, inputs, and what earlier steps computed.
pub proof fn operands_come_earlier(seq: u32, index: int)
    requires
        0 <= index < STEPS,
    ensures
        known_before(step_of(seq, index).first, index),
        step_of(seq, index).second matches Some(operand) ==> known_before(operand, index),
        step_of(seq, index).mark matches Some(mark) ==> mark.in_model(),
{
    if 3 <= index < 129 {
        let layer = (index - 3) / 21;
        assert(0 <= layer < 6);
        assert(index == 3 + 21 * layer + (index - 3) % 21);
    }
}

/// Extents of an operand; a weight and the inputs have none here.
pub open spec fn shape_of(seq: u32, operand: Operand) -> Option<Extents> {
    match operand {
        Operand::Value(from) => Some(step_of(seq, from as int).shape),
        _ => None,
    }
}

/// A step that keeps the number of elements gives out as many as it reads.
pub proof fn elements_are_kept(seq: u32, index: int)
    requires
        0 <= index < STEPS,
        step_of(seq, index).work is Transpose || step_of(seq, index).work is Reshape || step_of(
            seq,
            index,
        ).work is Norm || step_of(seq, index).work is Rotate || step_of(seq, index).work is Scale
            || step_of(seq, index).work is MaskedSoftmax || step_of(seq, index).work is Gate
            || step_of(seq, index).work is Sum,
    ensures
        shape_of(seq, step_of(seq, index).first) matches Some(shape) && shape.count() == step_of(
            seq,
            index,
        ).shape.count(),
{
    let s = seq as int;
    assert(s * 288 * 1 * 1 == 1 * 1 * s * 288 && 288 * s * 1 * 1 == s * 288 * 1 * 1 && 1 * 1 * s
        * 288 == 1 * s * 6 * 48) by (nonlinear_arith);
    if 3 <= index < 129 {
        let layer = (index - 3) / 21;
        let part = (index - 3) % 21;
        assert(0 <= layer < 6);
        let base = 3 + 21 * layer;
        assert(index == base + part);
        if part == 0 || part == 14 {
            if layer > 0 {
                place_in_layer(layer - 1, 20);
                assert(base - 1 - 3 == 21 * (layer - 1) + 20);
            }
        }
        if part > 0 {
            earlier_parts(layer);
        }
    } else if index == 129 {
        place_in_layer(5, 20);
    }
}

proof fn earlier_parts(layer: int)
    requires
        0 <= layer < 6,
    ensures
        forall|part: int|
            0 <= part < 21 ==> (#[trigger] (3 + 21 * layer + part) - 3) / 21 == layer && ((3 + 21
                * layer + part) - 3) % 21 == part,
{
    assert forall|part: int| 0 <= part < 21 implies (#[trigger] (3 + 21 * layer + part) - 3) / 21
        == layer && ((3 + 21 * layer + part) - 3) % 21 == part by {
        place_in_layer(layer, part);
    }
}

/// Number of matrices of a product; zero stands for one.
pub open spec fn batches(product: Product) -> int {
    if product.batch == 0 {
        1
    } else {
        product.batch as int
    }
}

/// The right matrices and the outputs lie within buffers of the given lengths, and so do
/// the left matrices unless they are in a block format.
pub open spec fn product_fits(product: Product, lhs: Option<int>, rhs: int, out: int) -> bool {
    let p = product;
    &&& lhs matches Some(len) ==> crate::backend::matmul::fits(
        len,
        batches(p),
        p.m as int,
        p.k as int,
        p.lhs_row as int,
        p.lhs_col as int,
        p.lhs_batch as int,
    )
    &&& crate::backend::matmul::fits(
        rhs,
        batches(p),
        p.k as int,
        p.n as int,
        p.rhs_row as int,
        p.rhs_col as int,
        p.rhs_batch as int,
    )
    &&& crate::backend::matmul::fits(
        out,
        batches(p),
        p.m as int,
        p.n as int,
        p.out_row as int,
        p.out_col as int,
        p.out_batch as int,
    )
}

/// Every product stays within the values that it reads and writes.
pub proof fn products_stay_inside(seq: u32, index: int)
    requires
        1 <= seq <= CONTEXT,
        0 <= index < STEPS,
        step_of(seq, index).work is Product,
    ensures
        ({
            let step = step_of(seq, index);
            let lhs = match shape_of(seq, step.first) {
                Some(shape) => Some(shape.count()),
                None => None,
            };
            &&& step.second matches Some(second) && shape_of(seq, second) matches Some(rhs)
                && product_fits(step.work->Product_0, lhs, rhs.count(), step.shape.count())
        }),
{
    let s = seq as int;
    if 3 <= index < 129 {
        let layer = (index - 3) / 21;
        let part = (index - 3) % 21;
        assert(0 <= layer < 6);
        assert(index == 3 + 21 * layer + part);
        earlier_parts(layer);
        if part == 9 || part == 12 {
            attention_fits(seq);
        } else if part == 16 || part == 17 {
            projection_fits(seq, HIDDEN, FFN);
        } else if part == 19 {
            projection_fits(seq, FFN, HIDDEN);
        } else {
            projection_fits(seq, HIDDEN, HIDDEN);
            assert(1 * 1 * s * 288 == 1 * s * 6 * 48) by (nonlinear_arith);
        }
    } else {
        projection_fits(seq, HIDDEN, VOCAB);
    }
}

proof fn projection_fits(seq: u32, from: usize, to: usize)
    requires
        1 <= seq <= CONTEXT,
        1 <= from <= VOCAB,
        1 <= to <= VOCAB,
    ensures
        product_fits(
            projection(seq, from, to),
            None,
            rows(seq, from).count(),
            rows(seq, to).count(),
        ),
{
    let s = seq as int;
    let f = from as int;
    let t = to as int;
    assert((f - 1) * 1 + (s - 1) * f < 1 * 1 * s * f) by (nonlinear_arith);
    assert((t - 1) * 1 + (s - 1) * t < 1 * 1 * s * t) by (nonlinear_arith);
}

proof fn attention_fits(seq: u32)
    requires
        1 <= seq <= CONTEXT,
    ensures
        product_fits(
            attention_scores(seq),
            Some(heads(seq).count()),
            heads(seq).count(),
            scores(seq).count(),
        ),
        product_fits(
            attention_values(seq),
            Some(scores(seq).count()),
            heads(seq).count(),
            heads(seq).count(),
        ),
{
    square_is_small(seq);
    let s = seq as int;
    assert(5 * 48 + (s - 1) * 288 + 47 < 1 * s * 6 * 48) by (nonlinear_arith)
        requires
            s >= 1,
    ;
    assert(5 * (s * s) + (s - 1) * s + (s - 1) * 1 < 6 * s * s * 1) by (nonlinear_arith)
        requires
            s >= 1,
    ;
}

/// What a value is made of: which kernel made it, in which shape, and of what.
pub enum Term {
    /// A weight of the model.
    Weight(Weight),
    /// The token ids.
    Tokens,
    /// The positions.
    Positions,
    /// The mask that hides later positions.
    Mask,
    /// Nothing: no earlier step computes it.
    Missing,
    /// What a kernel makes of one value or two. Of a product it holds the extents.
    Made(Work, Extents, Box<Term>, Option<Box<Term>>),
}

/// A kernel; of a product, the extents alone.
pub open spec fn without_strides(work: Work) -> Work {
    match work {
        Work::Product(p) => product_of(p.m, p.n, p.k, p.batch),
        _ => work,
    }
}

/// A product of matrices of `m` by `k` and `k` by `n`, so many of each.
pub open spec fn product_of(m: u32, n: u32, k: u32, batch: u32) -> Work {
    Work::Product(
        Product {
            m,
            n,
            k,
            batch,
            lhs_row: 0,
            lhs_col: 0,
            lhs_batch: 0,
            rhs_row: 0,
            rhs_col: 0,
            rhs_batch: 0,
            out_row: 0,
            out_col: 0,
            out_batch: 0,
        },
    )
}

/// What the numbered step of a plan computes.
pub open spec fn computed(steps: Seq<Step>, index: int) -> Term
    decreases index, 1int,
{
    if 0 <= index < steps.len() {
        let step = steps[index];
        Term::Made(
            without_strides(step.work),
            step.shape,
            Box::new(read_by(steps, step.first, index)),
            match step.second {
                Some(second) => Some(Box::new(read_by(steps, second, index))),
                None => None,
            },
        )
    } else {
        Term::Missing
    }
}

/// What the numbered step of a plan reads under an operand.
pub open spec fn read_by(steps: Seq<Step>, operand: Operand, index: int) -> Term
    decreases index, 0int,
{
    match operand {
        Operand::Weight(weight) => Term::Weight(weight),
        Operand::Tokens => Term::Tokens,
        Operand::Positions => Term::Positions,
        Operand::Mask => Term::Mask,
        Operand::Value(from) => if from < index {
            computed(steps, from as int)
        } else {
            Term::Missing
        },
    }
}

/// What a kernel makes of one value.
pub open spec fn made(work: Work, shape: Extents, first: Term) -> Term {
    Term::Made(work, shape, Box::new(first), None)
}

/// What a kernel makes of two values.
pub open spec fn made_of(work: Work, shape: Extents, first: Term, second: Term) -> Term {
    Term::Made(work, shape, Box::new(first), Some(Box::new(second)))
}

/// A row of `width` entries for each position.
pub open spec fn row_shape(seq: u32, width: u32) -> Extents {
    Extents { rank: 4, first: 1, second: 1, third: seq, fourth: width }
}

/// Heads of each position: six of 48 entries.
pub open spec fn head_shape(seq: u32) -> Extents {
    Extents { rank: 4, first: 1, second: seq, third: 6, fourth: 48 }
}

/// For each head, a score for each pair of positions.
pub open spec fn pair_shape(seq: u32) -> Extents {
    Extents { rank: 3, first: 6, second: seq, third: seq, fourth: 1 }
}

/// A weight times the rows of a state.
pub open spec fn weighted(seq: u32, weight: Weight, state: Term, from: u32, to: u32) -> Term {
    made_of(product_of(to, seq, from, 0), row_shape(seq, to), Term::Weight(weight), state)
}

/// The rows of a state, normalised and scaled by a weight.
pub open spec fn normalised(seq: u32, state: Term, weight: Weight) -> Term {
    made_of(Work::Norm, row_shape(seq, 288), state, Term::Weight(weight))
}

/// The rows of a state split into heads.
pub open spec fn by_heads(seq: u32, state: Term) -> Term {
    made(Work::Reshape, head_shape(seq), state)
}

/// Heads rotated by their positions.
pub open spec fn rotated(seq: u32, state: Term) -> Term {
    made_of(Work::Rotate, head_shape(seq), state, Term::Positions)
}

/// Attention: the values, weighted by the softmax of the masked and scaled products of each
/// query with each key. Queries and keys are rotated, values are not.
pub open spec fn attention(seq: u32, query: Term, key: Term, value: Term) -> Term {
    let pairs = pair_shape(seq);
    let products = made_of(
        product_of(seq, seq, 48, 6),
        pairs,
        rotated(seq, query),
        rotated(seq, key),
    );
    let shares = made_of(
        Work::MaskedSoftmax,
        pairs,
        made(Work::Scale, pairs, products),
        Term::Mask,
    );
    made_of(product_of(seq, 48, seq, 6), head_shape(seq), shares, value)
}

/// The hidden state after the attention of a layer: the state itself, and what attention
/// over its normalised rows gives.
pub open spec fn attended(seq: u32, layer: usize, state: Term) -> Term {
    let x = normalised(seq, state, Weight::Layer(layer, LayerWeight::AttnNorm));
    let gathered = attention(
        seq,
        by_heads(seq, weighted(seq, Weight::Layer(layer, LayerWeight::AttnQ), x, 288, 288)),
        by_heads(seq, weighted(seq, Weight::Layer(layer, LayerWeight::AttnK), x, 288, 288)),
        by_heads(seq, weighted(seq, Weight::Layer(layer, LayerWeight::AttnV), x, 288, 288)),
    );
    made_of(
        Work::Sum,
        row_shape(seq, 288),
        state,
        weighted(seq, Weight::Layer(layer, LayerWeight::AttnOutput), gathered, 288, 288),
    )
}

/// The hidden state after the feed-forward part of a layer: the state itself, and the gated
/// unit over its normalised rows.
pub open spec fn fed_forward(seq: u32, layer: usize, state: Term) -> Term {
    let x = normalised(seq, state, Weight::Layer(layer, LayerWeight::FfnNorm));
    let unit = made_of(
        Work::Gate,
        row_shape(seq, 768),
        weighted(seq, Weight::Layer(layer, LayerWeight::FfnGate), x, 288, 768),
        weighted(seq, Weight::Layer(layer, LayerWeight::FfnUp), x, 288, 768),
    );
    made_of(
        Work::Sum,
        row_shape(seq, 288),
        state,
        weighted(seq, Weight::Layer(layer, LayerWeight::FfnDown), unit, 768, 288),
    )
}

/// The hidden state after so many layers: the embedded tokens before the first.
pub open spec fn hidden_state(seq: u32, layers: nat) -> Term
    decreases layers,
{
    if layers == 0 {
        let looked_up = made_of(
            Work::LookUp,
            Extents { rank: 4, first: 288, second: seq, third: 1, fourth: 1 },
            Term::Weight(Weight::TokenEmbedding),
            Term::Tokens,
        );
        let turned = made(
            Work::Transpose,
            Extents { rank: 4, first: seq, second: 288, third: 1, fourth: 1 },
            looked_up,
        );
        made(Work::Reshape, row_shape(seq, 288), turned)
    } else {
        let layer = (layers - 1) as nat;
        fed_forward(seq, layer as usize, attended(seq, layer as usize, hidden_state(seq, layer)))
    }
}

/// The logits of every position: the embedding times the normalised last hidden state.
pub open spec fn logits(seq: u32) -> Term {
    weighted(
        seq,
        Weight::TokenEmbedding,
        normalised(seq, hidden_state(seq, 6), Weight::OutputNorm),
        288,
        32000,
    )
}

/// The steps are those of a sequence of the given length.
spec fn is_plan(seq: u32, steps: Seq<Step>) -> bool {
    steps == Seq::new(STEPS as nat, |i: int| step_of(seq, i))
}

/// A layer turns the hidden state before it into the one after it.
proof fn layer_computes(seq: u32, steps: Seq<Step>, layer: int)
    requires
        is_plan(seq, steps),
        0 <= layer < 6,
        computed(steps, 2 + 21 * layer) == hidden_state(seq, layer as nat),
    ensures
        ({
            let state = hidden_state(seq, layer as nat);
            let l = layer as usize;
            &&& computed(steps, 3 + 21 * layer) == normalised(
                seq,
                state,
                Weight::Layer(l, LayerWeight::AttnNorm),
            )
            &&& computed(steps, 17 + 21 * layer) == attended(seq, l, state)
            &&& computed(steps, 23 + 21 * layer) == hidden_state(seq, (layer + 1) as nat)
        }),
{
    let l = layer as usize;
    let base = 3 + 21 * layer;
    let state = hidden_state(seq, layer as nat);
    earlier_parts(layer);
    assert forall|part: int| 0 <= part < 21 implies #[trigger] steps[3 + 21 * layer + part]
        == layer_step(seq, l, part) by {
        place_in_layer(layer, part);
        assert(((3 + 21 * layer + part) - 3) / 21 == layer);
    }
    let x = normalised(seq, state, Weight::Layer(l, LayerWeight::AttnNorm));
    let q = weighted(seq, Weight::Layer(l, LayerWeight::AttnQ), x, 288, 288);
    let k = weighted(seq, Weight::Layer(l, LayerWeight::AttnK), x, 288, 288);
    let v = weighted(seq, Weight::Layer(l, LayerWeight::AttnV), x, 288, 288);
    assert(steps[base + 0] == layer_step(seq, l, 0));
    assert(computed(steps, base) == x);
    assert(steps[base + 1] == layer_step(seq, l, 1));
    assert(computed(steps, base + 1) == q);
    assert(steps[base + 2] == layer_step(seq, l, 2));
    assert(computed(steps, base + 2) == k);
    assert(steps[base + 3] == layer_step(seq, l, 3));
    assert(computed(steps, base + 3) == v);
    assert(steps[base + 4] == layer_step(seq, l, 4));
    assert(computed(steps, base + 4) == by_heads(seq, q));
    assert(steps[base + 5] == layer_step(seq, l, 5));
    assert(computed(steps, base + 5) == by_heads(seq, k));
    assert(steps[base + 6] == layer_step(seq, l, 6));
    assert(computed(steps, base + 6) == by_heads(seq, v));
    assert(steps[base + 7] == layer_step(seq, l, 7));
    assert(computed(steps, base + 7) == rotated(seq, by_heads(seq, q)));
    assert(steps[base + 8] == layer_step(seq, l, 8));
    assert(computed(steps, base + 8) == rotated(seq, by_heads(seq, k)));
    let pairs = pair_shape(seq);
    let products = made_of(
        product_of(seq, seq, 48, 6),
        pairs,
        rotated(seq, by_heads(seq, q)),
        rotated(seq, by_heads(seq, k)),
    );
    assert(steps[base + 9] == layer_step(seq, l, 9));
    assert(computed(steps, base + 9) == products);
    assert(steps[base + 10] == layer_step(seq, l, 10));
    assert(computed(steps, base + 10) == made(Work::Scale, pairs, products));
    let shares = made_of(
        Work::MaskedSoftmax,
        pairs,
        made(Work::Scale, pairs, products),
        Term::Mask,
    );
    assert(steps[base + 11] == layer_step(seq, l, 11));
    assert(computed(steps, base + 11) == shares);
    let gathered = attention(seq, by_heads(seq, q), by_heads(seq, k), by_heads(seq, v));
    assert(steps[base + 12] == layer_step(seq, l, 12));
    assert(computed(steps, base + 12) == gathered);
    let output = weighted(seq, Weight::Layer(l, LayerWeight::AttnOutput), gathered, 288, 288);
    assert(steps[base + 13] == layer_step(seq, l, 13));
    assert(computed(steps, base + 13) == output);
    let after = attended(seq, l, state);
    assert(steps[base + 14] == layer_step(seq, l, 14));
    assert(computed(steps, base + 14) == after);
    let y = normalised(seq, after, Weight::Layer(l, LayerWeight::FfnNorm));
    assert(steps[base + 15] == layer_step(seq, l, 15));
    assert(computed(steps, base + 15) == y);
    let gate = weighted(seq, Weight::Layer(l, LayerWeight::FfnGate), y, 288, 768);
    let up = weighted(seq, Weight::Layer(l, LayerWeight::FfnUp), y, 288, 768);
    assert(steps[base + 16] == layer_step(seq, l, 16));
    assert(computed(steps, base + 16) == gate);
    assert(steps[base + 17] == layer_step(seq, l, 17));
    assert(computed(steps, base + 17) == up);
    let unit = made_of(Work::Gate, row_shape(seq, 768), gate, up);
    assert(steps[base + 18] == layer_step(seq, l, 18));
    assert(computed(steps, base + 18) == unit);
    let down = weighted(seq, Weight::Layer(l, LayerWeight::FfnDown), unit, 768, 288);
    assert(steps[base + 19] == layer_step(seq, l, 19));
    assert(computed(steps, base + 19) == down);
    assert(steps[base + 20] == layer_step(seq, l, 20));
    assert(computed(steps, base + 20) == fed_forward(seq, l, after));
}

/// So many layers give the hidden state after them.
proof fn layers_compute(seq: u32, steps: Seq<Step>, layers: int)
    requires
        is_plan(seq, steps),
        0 <= layers <= 6,
    ensures
        computed(steps, 2 + 21 * layers) == hidden_state(seq, layers as nat),
    decreases layers,
{
    if layers == 0 {
        assert(steps[0] == step_of(seq, 0) && steps[1] == step_of(seq, 1) && steps[2] == step_of(
            seq,
            2,
        ));
        assert(computed(steps, 0) == made_of(
            Work::LookUp,
            Extents { rank: 4, first: 288, second: seq, third: 1, fourth: 1 },
            Term::Weight(Weight::TokenEmbedding),
            Term::Tokens,
        ));
        assert(computed(steps, 1) == made(
            Work::Transpose,
            Extents { rank: 4, first: seq, second: 288, third: 1, fourth: 1 },
            computed(steps, 0),
        ));
    } else {
        layers_compute(seq, steps, layers - 1);
        layer_computes(seq, steps, layers - 1);
    }
}

/// A plan computes the model: its last step gives the logits. Tokens are embedded; each of
/// six layers adds attention and then a gated unit to the hidden state, over normalised
/// rows; and the normalised last state meets the embedding again.
pub proof fn plan_computes_the_model(tokens: &[usize], steps: Vec<Step>)
    requires
        call_ensures(plan_forward, (tokens,), Ok(steps)),
    ensures
        steps@.len() == 131,
        computed(steps@, 130) == logits(tokens@.len() as u32),
{
    let seq = tokens@.len() as u32;
    layers_compute(seq, steps@, 6);
    assert(steps@[129] == step_of(seq, 129) && steps@[130] == step_of(seq, 130));
    assert(computed(steps@, 129) == normalised(seq, hidden_state(seq, 6), Weight::OutputNorm));
}

/// A step that is written out under a name computes what the name says.
pub proof fn marks_name_what_is_computed(tokens: &[usize], steps: Vec<Step>, index: int)
    requires
        call_ensures(plan_forward, (tokens,), Ok(steps)),
        0 <= index < steps@.len(),
    ensures
        ({
            let seq = tokens@.len() as u32;
            match steps@[index].mark {
                None => true,
                Some(Mark::Embedding) => computed(steps@, index) == hidden_state(seq, 0),
                Some(Mark::AttnNorm(layer)) => layer < 6 && computed(steps@, index) == normalised(
                    seq,
                    hidden_state(seq, layer as nat),
                    Weight::Layer(layer, LayerWeight::AttnNorm),
                ),
                Some(Mark::AttnResidual(layer)) => layer < 6 && computed(steps@, index)
                    == attended(seq, layer, hidden_state(seq, layer as nat)),
                Some(Mark::FfnResidual(layer)) => layer < 6 && computed(steps@, index)
                    == hidden_state(seq, layer as nat + 1),
            }
        }),
        index == 2 || (3 <= index < 129 && ((index - 3) % 21 == 0 || (index - 3) % 21 == 14 || (
        index - 3) % 21 == 20)) <==> steps@[index].mark is Some,
{
    let seq = tokens@.len() as u32;
    assert(steps@[index] == step_of(seq, index));
    if 3 <= index < 129 {
        let layer = (index - 3) / 21;
        assert(0 <= layer < 6);
        assert(index == 3 + 21 * layer + (index - 3) % 21);
        layers_compute(seq, steps@, layer);
        layer_computes(seq, steps@, layer);
    } else if index == 2 {
        layers_compute(seq, steps@, 0);
    }
}

/// A step reads what another computed.
pub open spec fn reads(step: Step, index: int) -> bool {
    step.first == Operand::Value(index as usize) || step.second == Some(
        Operand::Value(index as usize),
    )
}

/// Nothing is computed in vain: whatever a step computes, but for the logits, a later step
/// reads.
pub proof fn values_are_used(tokens: &[usize], steps: Vec<Step>, index: int)
    requires
        call_ensures(plan_forward, (tokens,), Ok(steps)),
        0 <= index < 130,
    ensures
        exists|later: int| index < later < 131 && reads(#[trigger] steps@[later], index),
{
    let seq = tokens@.len() as u32;
    assert(forall|i: int| 0 <= i < 131 ==> #[trigger] steps@[i] == step_of(seq, i));
    if index < 2 {
        assert(reads(steps@[index + 1], index));
    } else if index == 128 {
        assert(reads(steps@[129], index));
    } else if index == 129 {
        assert(reads(steps@[130], index));
    } else if index == 2 {
        assert(reads(steps@[3], index));
    } else {
        let layer = (index - 3) / 21;
        let part = (index - 3) % 21;
        assert(0 <= layer < 6);
        assert(index == 3 + 21 * layer + part);
        earlier_parts(layer);
        let on = if part == 0 {
            1int
        } else if part <= 5 {
            part + 3
        } else if part == 6 {
            12
        } else if part == 7 || part == 8 {
            9
        } else if part <= 15 {
            part + 1
        } else if part == 16 {
            18
        } else if part <= 19 {
            part + 1
        } else {
            21
        };
        if on < 21 {
            place_in_layer(layer, on);
            assert(steps@[3 + 21 * layer + on] == layer_step(seq, layer as usize, on));
            assert(reads(steps@[3 + 21 * layer + on], index));
        } else {
            place_in_layer(layer + 1, 0);
            assert(steps@[3 + 21 * (layer + 1)] == layer_step(seq, (layer + 1) as usize, 0));
            assert(reads(steps@[3 + 21 * (layer + 1)], index));
        }
    }
}

/// A value is made with the help of a weight.
pub open spec fn depends(term: Term, weight: Weight) -> bool
    decreases term,
{
    match term {
        Term::Weight(own) => own == weight,
        Term::Made(_, _, first, second) => depends(*first, weight) || match second {
            Some(second) => depends(*second, weight),
            None => false,
        },
        _ => false,
    }
}

proof fn state_depends(seq: u32, layers: nat, weight: Weight)
    requires
        layers <= 6,
        weight matches Weight::Layer(layer, _) ==> layer < layers,
        weight !is OutputNorm,
    ensures
        depends(hidden_state(seq, layers), weight),
    decreases layers,
{
    reveal_with_fuel(depends, 4);
    if layers > 0 {
        let layer = (layers - 1) as nat;
        let l = layer as usize;
        let state = hidden_state(seq, layer);
        let after = attended(seq, l, state);
        let own = weight matches Weight::Layer(own, _) && own == l;
        if !own {
            state_depends(seq, layer, weight);
            assert(depends(after, weight));
        } else {
            let x = normalised(seq, state, Weight::Layer(l, LayerWeight::AttnNorm));
            let q = weighted(seq, Weight::Layer(l, LayerWeight::AttnQ), x, 288, 288);
            let k = weighted(seq, Weight::Layer(l, LayerWeight::AttnK), x, 288, 288);
            let v = weighted(seq, Weight::Layer(l, LayerWeight::AttnV), x, 288, 288);
            let gathered = attention(seq, by_heads(seq, q), by_heads(seq, k), by_heads(seq, v));
            let products = made_of(
                product_of(seq, seq, 48, 6),
                pair_shape(seq),
                rotated(seq, by_heads(seq, q)),
                rotated(seq, by_heads(seq, k)),
            );
            assert(depends(q, weight) ==> depends(rotated(seq, by_heads(seq, q)), weight));
            assert(depends(k, weight) ==> depends(rotated(seq, by_heads(seq, k)), weight));
            assert(depends(rotated(seq, by_heads(seq, q)), weight) || depends(
                rotated(seq, by_heads(seq, k)),
                weight,
            ) ==> depends(products, weight));
            assert(depends(products, weight) ==> depends(
                made(Work::Scale, pair_shape(seq), products),
                weight,
            ));
            assert(depends(products, weight) || depends(by_heads(seq, v), weight) ==> depends(
                gathered,
                weight,
            ));
            assert(depends(v, weight) ==> depends(by_heads(seq, v), weight));
            assert(depends(gathered, weight) || weight == Weight::Layer(
                l,
                LayerWeight::AttnOutput,
            ) ==> depends(after, weight));
            assert(depends(x, weight) ==> depends(q, weight));
            let y = normalised(seq, after, Weight::Layer(l, LayerWeight::FfnNorm));
            let gate = weighted(seq, Weight::Layer(l, LayerWeight::FfnGate), y, 288, 768);
            let up = weighted(seq, Weight::Layer(l, LayerWeight::FfnUp), y, 288, 768);
            let unit = made_of(Work::Gate, row_shape(seq, 768), gate, up);
            assert(depends(y, weight) ==> depends(gate, weight));
            assert(depends(gate, weight) || depends(up, weight) ==> depends(unit, weight));
        }
    }
}

/// Every weight of the model has a part in the logits.
pub proof fn weights_reach_the_logits(tokens: &[usize], steps: Vec<Step>, weight: Weight)
    requires
        call_ensures(plan_forward, (tokens,), Ok(steps)),
        weight.in_model(),
    ensures
        depends(computed(steps@, 130), weight),
{
    let seq = tokens@.len() as u32;
    plan_computes_the_model(tokens, steps);
    reveal_with_fuel(depends, 4);
    if weight !is OutputNorm {
        state_depends(seq, 6, weight);
    }
    let last = normalised(seq, hidden_state(seq, 6), Weight::OutputNorm);
    assert(depends(last, weight));
}

/// Where the elements of a product lie. A weight meets row `s` of a state, entry by entry,
/// and gives row `s` of the output. A score is where query `i` and key `j` of a head meet,
/// entry by entry; and what head `h` of position `i` gathers is where its scores meet the
/// entries of that head, position by position.
pub proof fn products_meet_rows_and_heads(
    tokens: &[usize],
    steps: Vec<Step>,
    index: int,
    h: int,
    i: int,
    j: int,
    d: int,
)
    requires
        call_ensures(plan_forward, (tokens,), Ok(steps)),
        0 <= index < steps@.len(),
        steps@[index].work is Product,
    ensures
        ({
            let seq = tokens@.len() as int;
            let p = steps@[index].work->Product_0;
            let head = |position: int| (position * 6 + h) * 48 + d;
            let score = (h * seq + i) * seq + j;
            let lhs = |row: int, col: int| h * p.lhs_batch + row * p.lhs_row + col * p.lhs_col;
            let rhs = |row: int, col: int| h * p.rhs_batch + row * p.rhs_row + col * p.rhs_col;
            let out = |row: int, col: int| h * p.out_batch + row * p.out_row + col * p.out_col;
            if steps@[index].first is Weight {
                &&& rhs(d, i) == i * p.k + d
                &&& out(d, i) == i * p.m + d
            } else if steps@[index].shape == pair_shape(seq as u32) {
                &&& lhs(i, d) == head(i)
                &&& rhs(d, j) == head(j)
                &&& out(i, j) == score
            } else {
                &&& steps@[index].shape == head_shape(seq as u32)
                &&& lhs(i, j) == score
                &&& rhs(j, d) == head(j)
                &&& out(i, d) == head(i)
            }
        }),
{
    let seq = tokens@.len() as int;
    assert(steps@[index] == step_of(seq as u32, index));
    square_is_small(seq as u32);
    let p = steps@[index].work->Product_0;
    let s = seq as u32;
    assert((h * seq + i) * seq + j == h * (seq * seq) + i * seq + j) by (nonlinear_arith);
    let square = (s * s) as u32;
    assert(square == seq * seq);
    if steps@[index].first is Weight {
        assert(p == projection(s, p.k as usize, p.m as usize));
        assert(h * p.rhs_batch == 0 && h * p.out_batch == 0) by (nonlinear_arith)
            requires
                p.rhs_batch == 0,
                p.out_batch == 0,
        ;
        assert(d * p.rhs_row == d && d * p.out_row == d) by (nonlinear_arith)
            requires
                p.rhs_row == 1,
                p.out_row == 1,
        ;
    } else {
        assert(p == attention_scores(s) || p == attention_values(s));
        assert(h * square == h * (seq * seq)) by (nonlinear_arith)
            requires
                square == seq * seq,
        ;
        if p == attention_scores(s) {
            heads_apart(p.lhs_row as int, p.lhs_batch as int, p.lhs_col as int, i, h, d);
            heads_apart(p.rhs_col as int, p.rhs_batch as int, p.rhs_row as int, j, h, d);
            assert(h * p.out_batch + i * p.out_row + j * p.out_col == (h * seq + i) * seq + j);
        } else {
            heads_apart(p.rhs_row as int, p.rhs_batch as int, p.rhs_col as int, j, h, d);
            heads_apart(p.out_row as int, p.out_batch as int, p.out_col as int, i, h, d);
            assert(h * p.lhs_batch + i * p.lhs_row + j * p.lhs_col == (h * seq + i) * seq + j);
        }
    }
}

/// An entry of a head, found by strides.
proof fn heads_apart(row: int, head: int, entry: int, position: int, h: int, d: int)
    requires
        row == 288,
        head == 48,
        entry == 1,
    ensures
        h * head + position * row + d * entry == (position * 6 + h) * 48 + d,
        h * head + d * entry + position * row == (position * 6 + h) * 48 + d,
{
    assert(h * head == h * 48 && position * row == position * 288 && d * entry == d)
        by (nonlinear_arith)
        requires
            row == 288,
            head == 48,
            entry == 1,
    ;
}

/// A described product has the extents and the strides that were asked for, at the places
/// where the kernel looks for them.
pub proof fn described_product_is_asked_for(product: Product)
    ensures
        ({
            let attr = <MatMulAttr as crate::uabi::kernelattr::InlineAttr>::of_words(
                attr_of(Work::Product(product)),
            );
            &&& attr.m.0 == product.m && attr.n.0 == product.n && attr.k.0 == product.k
            &&& attr.batch.0 == product.batch
            &&& attr.lhs_row_stride.0 == product.lhs_row
            &&& attr.lhs_col_stride.0 == product.lhs_col
            &&& attr.lhs_batch_stride.0 == product.lhs_batch
            &&& attr.rhs_row_stride.0 == product.rhs_row
            &&& attr.rhs_col_stride.0 == product.rhs_col
            &&& attr.rhs_batch_stride.0 == product.rhs_batch
            &&& attr.out_row_stride.0 == product.out_row
            &&& attr.out_col_stride.0 == product.out_col
            &&& attr.out_batch_stride.0 == product.out_batch
            &&& attr.flags.0 == 0
            &&& attr.accum_dtype.0 == AiDtype::F32
        }),
{
}

/// The other kernels are described with the model's parameters, at the places where the
/// kernels look for them.
pub proof fn described_kernels_have_their_parameters()
    ensures
        ({
            let attr = <RmsNormAttr as crate::uabi::kernelattr::InlineAttr>::of_words(
                attr_of(Work::Norm),
            );
            attr.hidden_size.0 == HIDDEN && attr.eps.0 == RMS_EPS_BITS
        }),
        ({
            let attr = <RopeAttr as crate::uabi::kernelattr::InlineAttr>::of_words(
                attr_of(Work::Rotate),
            );
            &&& attr.n_dims.0 == HEAD_DIM
            &&& attr.head_count.0 == N_HEAD
            &&& attr.mode == RopeAttr::MODE_NEOX
            &&& attr.n_ctx.0 == CONTEXT
            &&& attr.freq_base.0 == ROPE_FREQ_BASE_BITS
            &&& attr.freq_scale.0 == ONE_BITS
            &&& attr.attn_factor.0 == ONE_BITS
            &&& attr.ext_factor.0 == 0
        }),
        ({
            let attr = <UnaryAttr as crate::uabi::kernelattr::InlineAttr>::of_words(
                attr_of(Work::Scale),
            );
            attr.alpha.0 == ATTENTION_SCALE_BITS && attr.beta.0 == 0
        }),
        ({
            let attr = <SoftmaxAttr as crate::uabi::kernelattr::InlineAttr>::of_words(
                attr_of(Work::MaskedSoftmax),
            );
            &&& attr.axis.0 == 2
            &&& attr.scale.0 == ONE_BITS
            &&& attr.max_bias.0 == 0
            &&& attr.flags.0 == SoftmaxAttr::HAS_MASK
        }),
        ({
            let attr = <GluAttr as crate::uabi::kernelattr::InlineAttr>::of_words(
                attr_of(Work::Gate),
            );
            attr.op == GluAttr::OP_SWIGLU && attr.swapped == 0 && attr.flags.0 == 0
        }),
        ({
            let attr = <BinaryAttr as crate::uabi::kernelattr::InlineAttr>::of_words(
                attr_of(Work::Sum),
            );
            attr.broadcast_kind == 0 && attr.alpha.0 == ONE_BITS && attr.beta.0 == ONE_BITS
        }),
{
}


/// A step asks for the kernel that does its work.
pub proof fn steps_ask_for_their_kernels(product: Product)
    ensures
        op_of(Work::Product(product)).0 == crate::backend::dispatch::Kernel::MatMul.op(),
        op_of(Work::Transpose).0 == crate::backend::dispatch::Kernel::Transpose.op(),
        op_of(Work::Reshape).0 == crate::backend::dispatch::Kernel::Copy.op(),
        op_of(Work::Norm).0 == crate::backend::dispatch::Kernel::RmsNorm.op(),
        op_of(Work::Rotate).0 == crate::backend::dispatch::Kernel::Rope.op(),
        op_of(Work::Scale).0 == crate::backend::dispatch::Kernel::Scale.op(),
        op_of(Work::MaskedSoftmax).0 == crate::backend::dispatch::Kernel::Softmax.op(),
        op_of(Work::Gate).0 == crate::backend::dispatch::Kernel::Glu.op(),
        op_of(Work::Sum).0 == crate::backend::dispatch::Kernel::Add.op(),
        op_of(Work::LookUp).0 == KernelOp::GET_ROWS,
{
}

/// A query sees itself and what came before it: the mask leaves those scores alone and sinks
/// the others by a large negative number.
pub proof fn later_positions_are_hidden(seq: usize, mask: Vec<u32>, query: int, key: int)
    requires
        call_ensures(make_causal_mask, (seq,), mask),
        0 <= query < seq <= CONTEXT,
        0 <= key < seq,
    ensures
        mask@[query * seq + key] == 0 <==> key <= query,
        key > query ==> crate::backend::topk::number_below(mask@[query * seq + key], 0),
{
    assert(mask@[query * seq + key] == mask_bits(query, key));
}

/// The positions of a sequence count from zero, and the logits of its last position are the
/// last ones.
pub proof fn last_position_comes_last(seq: usize, positions: Vec<i64>, start: usize)
    requires
        call_ensures(make_positions, (seq,), positions),
        call_ensures(last_logits_start, (seq,), start),
        1 <= seq <= CONTEXT,
    ensures
        positions@.len() == seq,
        positions@[0] == 0,
        forall|i: int|
            1 <= i < positions@.len() ==> #[trigger] positions@[i] == positions@[i - 1] + 1,
        start + VOCAB == rows(seq as u32, VOCAB).count(),
{
    assert((seq - 1) * VOCAB + VOCAB == seq * VOCAB) by (nonlinear_arith);
    assert(1 * 1 * seq * VOCAB == seq * VOCAB) by (nonlinear_arith);
    assert(rows(seq as u32, VOCAB).count() == 1 * 1 * seq * VOCAB);
}

/// Values that are written out are numbered in the order in which they are computed, without
/// a gap: the embedding first, then three for each layer.
pub proof fn marks_are_numbered_in_order(seq: u32, index: int)
    requires
        0 <= index < STEPS,
    ensures
        step_of(seq, index).mark matches Some(mark) ==> {
            let number = mark.number();
            &&& 0 <= number <= 18
            &&& number == 0 <==> index == 2
            &&& number > 0 ==> {
                let layer = (number - 1) / 3;
                let place = (number - 1) % 3;
                index == 3 + 21 * layer + (if place == 0 {
                    0int
                } else if place == 1 {
                    14
                } else {
                    20
                })
            }
        },
{
    if 3 <= index < 129 {
        let (layer, part) = ((index - 3) / 21, (index - 3) % 21);
        assert(0 <= layer < 6 && index == 3 + 21 * layer + part);
        assert(LAYER_STEPS == 21);
    }
}


/// A sequence of tokens is accepted where it is neither empty nor longer than what the model
/// looks at, and the model knows every token; else the first fault in this order is told.
pub proof fn known_tokens_are_accepted(tokens: Seq<usize>)
    ensures
        tokens_fault(tokens) is None <==> 1 <= tokens.len() <= 256 && forall|i: int|
            0 <= i < tokens.len() ==> #[trigger] tokens[i] < 32000,
        tokens.len() == 0 ==> tokens_fault(tokens) == Some(ForwardError::NoTokens),
        tokens.len() > 256 ==> tokens_fault(tokens) == Some(
            ForwardError::TooLong(tokens.len() as usize),
        ),
{
    unknown_token_is_told(tokens);
}

/// The token that is told is the first that the model does not know.
proof fn unknown_token_is_told(tokens: Seq<usize>)
    ensures
        first_unknown(tokens) is None <==> forall|i: int|
            0 <= i < tokens.len() ==> #[trigger] tokens[i] < VOCAB,
    decreases tokens.len(),
{
    if tokens.len() > 0 && tokens[0] < VOCAB {
        let rest = tokens.skip(1);
        unknown_token_is_told(rest);
        if forall|i: int| 0 <= i < rest.len() ==> #[trigger] rest[i] < VOCAB {
            assert forall|i: int| 0 <= i < tokens.len() implies #[trigger] tokens[i] < VOCAB by {
                if i > 0 {
                    assert(rest[i - 1] == tokens[i]);
                }
            }
        }
        if forall|i: int| 0 <= i < tokens.len() ==> #[trigger] tokens[i] < VOCAB {
            assert forall|i: int| 0 <= i < rest.len() implies #[trigger] rest[i] < VOCAB by {
                assert(tokens[i + 1] < VOCAB);
            }
        }
    }
}

/// The first token that the model does not know is named.
pub proof fn first_unknown_token_is_named(tokens: Seq<usize>, i: int)
    requires
        1 <= tokens.len() <= 256,
        0 <= i < tokens.len(),
        tokens[i] >= 32000,
        forall|j: int| 0 <= j < i ==> #[trigger] tokens[j] < 32000,
    ensures
        tokens_fault(tokens) == Some(ForwardError::OutOfVocab(tokens[i])),
{
    first_unknown_found(tokens, i);
}

proof fn first_unknown_found(tokens: Seq<usize>, i: int)
    requires
        0 <= i < tokens.len(),
        tokens[i] >= VOCAB,
        forall|j: int| 0 <= j < i ==> #[trigger] tokens[j] < VOCAB,
    ensures
        first_unknown(tokens) == Some(ForwardError::OutOfVocab(tokens[i])),
    decreases tokens.len(),
{
    if i > 0 {
        let rest = tokens.skip(1);
        assert(tokens[0] < VOCAB);
        assert forall|j: int| 0 <= j < i - 1 implies #[trigger] rest[j] < VOCAB by {
            assert(tokens[j + 1] < VOCAB);
        }
        first_unknown_found(rest, i - 1);
    }
}


/// Values are written out for every sequence whose length is a multiple of the stride, and
/// for none where the stride is zero.
pub proof fn dumps_come_at_multiples(stride: usize, seq: usize, due: bool, k: int)
    requires
        call_ensures(dump_due, (stride, seq), due),
    ensures
        stride == 0 ==> !due,
        stride > 0 && seq == k * stride ==> due,
        stride > 0 && k * stride < seq < k * stride + stride ==> !due,
{
    let s = stride as int;
    if s > 0 && seq == k * s {
        assert((k * s) % s == 0) by (nonlinear_arith)
            requires
                s > 0,
        ;
    }
    if s > 0 && k * s < seq < k * s + s {
        let rest = seq as int - k * s;
        assert((k * s + rest) % s == rest) by (nonlinear_arith)
            requires
                0 < rest < s,
        ;
    }
}

} // verus!
