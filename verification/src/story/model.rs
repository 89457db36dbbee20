//! The story model: its sizes and the names of its weights.

use vstd::prelude::*;
use vstd::string::StringExecFns;

verus! {

/// Length of a hidden state.
pub const HIDDEN: usize = 288;

/// Number of layers.
pub const N_LAYER: usize = 6;

/// Number of attention heads.
pub const N_HEAD: usize = 6;

/// Length of a head.
pub const HEAD_DIM: usize = 48;

/// Length of a feed-forward state.
pub const FFN: usize = 768;

/// Number of tokens that the model knows.
pub const VOCAB: usize = 32_000;

/// Longest sequence that the model can look at.
pub const CONTEXT: usize = 256;

/// Bits of the constant that keeps a root mean square above zero, `1.0e-5`.
pub const RMS_EPS_BITS: u32 = 0x3727_c5ac;

/// Bits of the base of the rotary frequencies, `10_000.0`.
pub const ROPE_FREQ_BASE_BITS: u32 = 0x461c_4000;

/// Bits of `1 / sqrt(HEAD_DIM)`.
pub const ATTENTION_SCALE_BITS: u32 = 0x3e13_cd3a;

/// Bits of `1.0`.
pub const ONE_BITS: u32 = 0x3f80_0000;

/// Bits of the score that hides a later position, `-1.0e30`.
pub const HIDDEN_SCORE_BITS: u32 = 0xf149_f2ca;

/// A weight that every layer has.
#[derive(Clone, Copy, PartialEq, Eq, Debug)]
pub enum LayerWeight {
    /// Scale of the normalisation before attention.
    AttnNorm,
    /// Projection to queries.
    AttnQ,
    /// Projection to keys.
    AttnK,
    /// Projection to values.
    AttnV,
    /// Projection of what attention gathered.
    AttnOutput,
    /// Scale of the normalisation before the feed-forward part.
    FfnNorm,
    /// Projection to what goes through the activation.
    FfnGate,
    /// Projection to what is multiplied with the activation.
    FfnUp,
    /// Projection back to a hidden state.
    FfnDown,
}

/// A weight of the model.
#[derive(Clone, Copy, PartialEq, Eq, Debug)]
pub enum Weight {
    /// One row for each token; also projects to the logits.
    TokenEmbedding,
    /// Scale of the last normalisation.
    OutputNorm,
    /// A weight of the numbered layer.
    Layer(usize, LayerWeight),
}

/// What the names of a layer's parts start with.
pub open spec fn layer_name(layer: usize) -> Seq<char> {
    if layer == 0 {
        "blk.0"@
    } else if layer == 1 {
        "blk.1"@
    } else if layer == 2 {
        "blk.2"@
    } else if layer == 3 {
        "blk.3"@
    } else if layer == 4 {
        "blk.4"@
    } else {
        "blk.5"@
    }
}

impl LayerWeight {
    /// What the name of the weight ends with.
    pub open spec fn suffix(self) -> Seq<char> {
        match self {
            LayerWeight::AttnNorm => ".attn_norm.weight"@,
            LayerWeight::AttnQ => ".attn_q.weight"@,
            LayerWeight::AttnK => ".attn_k.weight"@,
            LayerWeight::AttnV => ".attn_v.weight"@,
            LayerWeight::AttnOutput => ".attn_output.weight"@,
            LayerWeight::FfnNorm => ".ffn_norm.weight"@,
            LayerWeight::FfnGate => ".ffn_gate.weight"@,
            LayerWeight::FfnUp => ".ffn_up.weight"@,
            LayerWeight::FfnDown => ".ffn_down.weight"@,
        }
    }
}

impl Weight {
    /// The name of the weight in a model file.
    pub open spec fn text(self) -> Seq<char> {
        match self {
            Weight::TokenEmbedding => "token_embd.weight"@,
            Weight::OutputNorm => "output_norm.weight"@,
            Weight::Layer(layer, part) => layer_name(layer) + part.suffix(),
        }
    }

    /// The weight is one of this model's.
    pub open spec fn in_model(self) -> bool {
        self matches Weight::Layer(layer, _) ==> layer < N_LAYER
    }

    /// The name of the weight in a model file.
    pub fn name(self) -> (r: String)
        requires
            self.in_model(),
        ensures
            r@ == self.text(),
    {
        match self {
            Weight::TokenEmbedding => "token_embd.weight".to_owned(),
            Weight::OutputNorm => "output_norm.weight".to_owned(),
            Weight::Layer(layer, part) => {
                let mut name: String = layer_label(layer);
                name.append(
                    match part {
                        LayerWeight::AttnNorm => ".attn_norm.weight",
                        LayerWeight::AttnQ => ".attn_q.weight",
                        LayerWeight::AttnK => ".attn_k.weight",
                        LayerWeight::AttnV => ".attn_v.weight",
                        LayerWeight::AttnOutput => ".attn_output.weight",
                        LayerWeight::FfnNorm => ".ffn_norm.weight",
                        LayerWeight::FfnGate => ".ffn_gate.weight",
                        LayerWeight::FfnUp => ".ffn_up.weight",
                        LayerWeight::FfnDown => ".ffn_down.weight",
                    },
                );
                name
            },
        }
    }
}

/// What the names of a layer's parts start with.
pub fn layer_label(layer: usize) -> (r: String)
    requires
        layer < N_LAYER,
    ensures
        r@ == layer_name(layer),
{
    if layer == 0 {
        "blk.0".to_owned()
    } else if layer == 1 {
        "blk.1".to_owned()
    } else if layer == 2 {
        "blk.2".to_owned()
    } else if layer == 3 {
        "blk.3".to_owned()
    } else if layer == 4 {
        "blk.4".to_owned()
    } else {
        "blk.5".to_owned()
    }
}


/// The name of a layer ends with its number.
pub proof fn layer_names_count(layer: usize)
    requires
        layer < N_LAYER,
    ensures
        layer_name(layer).len() == 5,
        layer_name(layer).take(4) == "blk."@,
        layer_name(layer)[4] as int == '0' as int + layer,
{
    reveal_strlit("blk.");
    reveal_strlit("blk.0");
    reveal_strlit("blk.1");
    reveal_strlit("blk.2");
    reveal_strlit("blk.3");
    reveal_strlit("blk.4");
    reveal_strlit("blk.5");
    assert(layer_name(layer).take(4) =~= "blk."@);
}

/// The name of a weight tells its part: queries, keys and values by their letter, and the
/// parts of the feed-forward network by their first.
pub proof fn suffixes_tell_the_part()
    ensures
        LayerWeight::AttnQ.suffix()[6] == 'q',
        LayerWeight::AttnK.suffix()[6] == 'k',
        LayerWeight::AttnV.suffix()[6] == 'v',
        LayerWeight::AttnOutput.suffix()[6] == 'o',
        LayerWeight::AttnNorm.suffix()[6] == 'n',
        LayerWeight::FfnNorm.suffix()[5] == 'n',
        LayerWeight::FfnGate.suffix()[5] == 'g',
        LayerWeight::FfnUp.suffix()[5] == 'u',
        LayerWeight::FfnDown.suffix()[5] == 'd',
        LayerWeight::AttnNorm.suffix()[1] == 'a',
        LayerWeight::FfnNorm.suffix()[1] == 'f',
{
    reveal_strlit(".attn_norm.weight");
    reveal_strlit(".attn_q.weight");
    reveal_strlit(".attn_k.weight");
    reveal_strlit(".attn_v.weight");
    reveal_strlit(".attn_output.weight");
    reveal_strlit(".ffn_norm.weight");
    reveal_strlit(".ffn_gate.weight");
    reveal_strlit(".ffn_up.weight");
    reveal_strlit(".ffn_down.weight");
}

} // verus!
