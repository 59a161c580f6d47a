//! The values that pass between the literal coder, the state it shares
//! with the other commands of a block, and the entropy coder behind it.

use vstd::prelude::*;

verus! {

use crate::codec::priors::LiteralNibblePriorType;

/// How one operation of the coder ended.
#[derive(Clone, Copy, Debug, PartialEq, Eq, Structural)]
pub enum CoderResult {
    Success,
    NeedsMoreInput,
    NeedsMoreOutput,
    Failure,
}

/// Step size of the update of a distribution after a coded symbol, from
/// the largest to the smallest.
#[allow(non_camel_case_types)]
#[derive(Clone, Copy, Debug, PartialEq, Eq, Structural)]
pub enum Speed {
    FAST,
    MED,
    MUD,
    SLOW,
    GLACIAL,
}

/// Three bits of the signed class of each of the last two bytes.
pub const LITERAL_PREDICTION_MODE_SIGN: u8 = 0;

/// The class of the last two bytes as UTF-8 text.
pub const LITERAL_PREDICTION_MODE_UTF8: u8 = 1;

/// The six high bits of the last byte.
pub const LITERAL_PREDICTION_MODE_MSB6: u8 = 2;

/// The six low bits of the last byte.
pub const LITERAL_PREDICTION_MODE_LSB6: u8 = 3;

/// The way a context is drawn from the two bytes before a literal: one of
/// the four `LITERAL_PREDICTION_MODE` constants.
#[derive(Clone, Copy, Debug, PartialEq, Eq, Structural)]
pub struct LiteralPredictionModeNibble(pub u8);

/// A run of literal bytes. `prob` is empty, or holds for each nibble of
/// `data` four bytes that describe its distribution from outside.
pub struct LiteralCommand {
    pub data: Vec<u8>,
    pub prob: Vec<u8>,
}

impl LiteralCommand {
    /// `prob` is empty or has eight bytes for each byte of `data`, and the
    /// nibbles of `data` can be counted in 32 bits.
    pub open spec fn wf(&self) -> bool {
        &&& self.data.len() < 0x8000_0000
        &&& (self.prob.len() == 0 || self.prob.len() == 8 * self.data.len())
    }

    /// A command without bytes, as a decoder hands it in.
    pub fn nop() -> (r: Self)
        ensures
            r.data@ == Seq::<u8>::empty(),
            r.prob@ == Seq::<u8>::empty(),
            r.wf(),
    {
        LiteralCommand { data: Vec::new(), prob: Vec::new() }
    }
}

/// What the commands of a block share and the literal coder reads and
/// writes.
pub struct BlockKeeper {
    /// Distance in bytes, from 0 to 8, of the byte that keys the stride
    /// model; 0 counts as 1.
    pub stride: u8,
    /// The last eight bytes put out, the most recent in the top byte.
    pub last_8_literals: u64,
    pub literal_prediction_mode: LiteralPredictionModeNibble,
    /// 64 entries for every literal block type.
    pub literal_context_map: Vec<u8>,
    /// Whether contexts pass through `literal_context_map` and the
    /// context-map model takes part.
    pub materialized_prediction_mode: bool,
    /// Whether the two models are blended.
    pub combine_literal_predictions: bool,
    /// Zero switches the update of `model_weights` off.
    pub dynamic_context_mixing: u8,
    /// Weight of the stride model and weight of the context-map model.
    pub model_weights: [i32; 2],
    pub literal_adaptation: Speed,
    /// Length of the literal run last entered.
    pub last_llen: u32,
    pub literal_block_type: u8,
    pub command_block_type: u8,
}

impl BlockKeeper {
    /// The stride is at most 8, the mode is one of the four, no weight is
    /// negative, and a context map in use has 64 entries for every block
    /// type up to the current one.
    pub open spec fn wf(&self) -> bool {
        &&& self.stride <= 8
        &&& self.literal_prediction_mode.0 <= LITERAL_PREDICTION_MODE_LSB6
        &&& self.model_weights[0] >= 0
        &&& self.model_weights[1] >= 0
        &&& (self.materialized_prediction_mode ==> self.literal_context_map.len() >= 64 * (
        self.literal_block_type + 1))
    }

    /// A keeper at the start of a block: no bytes seen, both weights equal.
    pub fn new(
        stride: u8,
        literal_prediction_mode: LiteralPredictionModeNibble,
        literal_context_map: Vec<u8>,
        materialized_prediction_mode: bool,
        combine_literal_predictions: bool,
        dynamic_context_mixing: u8,
        literal_adaptation: Speed,
    ) -> (r: Self)
        requires
            stride <= 8,
            literal_prediction_mode.0 <= LITERAL_PREDICTION_MODE_LSB6,
            materialized_prediction_mode ==> literal_context_map.len() >= 64,
        ensures
            r.wf(),
            r.stride == stride,
            r.last_8_literals == 0,
            r.literal_prediction_mode == literal_prediction_mode,
            r.literal_context_map == literal_context_map,
            r.materialized_prediction_mode == materialized_prediction_mode,
            r.combine_literal_predictions == combine_literal_predictions,
            r.dynamic_context_mixing == dynamic_context_mixing,
            r.model_weights[0] == 1,
            r.model_weights[1] == 1,
            r.literal_adaptation == literal_adaptation,
            r.last_llen == 0,
            r.literal_block_type == 0,
            r.command_block_type == 0,
    {
        BlockKeeper {
            stride,
            last_8_literals: 0,
            literal_prediction_mode,
            literal_context_map,
            materialized_prediction_mode,
            combine_literal_predictions,
            dynamic_context_mixing,
            model_weights: [1, 1],
            literal_adaptation,
            last_llen: 0,
            literal_block_type: 0,
            command_block_type: 0,
        }
    }

    /// The block type that selects the part of the context map.
    pub fn get_literal_block_type(&self) -> (r: u8)
        ensures
            r == self.literal_block_type,
    {
        self.literal_block_type
    }

    /// The block type that keys the distributions of the run length.
    pub fn get_command_block_type(&self) -> (r: u8)
        ensures
            r == self.command_block_type,
    {
        self.command_block_type
    }
}

/// Where a distribution lies in a collection of priors.
pub type PriorKey = (usize, usize, usize, usize);

/// Which of the two models, or which blend of them, a literal nibble is
/// coded with.
#[derive(Clone, Copy, Debug, PartialEq, Eq, Structural)]
pub enum Mixing {
    /// The stride model alone.
    Stride,
    /// The context-map model alone.
    ContextMap,
    /// The average of the context-map model and the stride model, in
    /// which the context-map model has the weight `cm_weight` out of
    /// `1 << BLEND_FIXED_POINT_PRECISION`.
    Average { cm_weight: i32 },
}

/// The distributions that one nibble is coded with and how they are
/// updated afterwards.
#[derive(Clone, Copy, Debug, PartialEq, Eq)]
pub enum NibbleModel {
    /// A nibble of the run length: the distribution of `kind` for the
    /// command block type `ctype`, blended with `speed` after coding.
    Count { kind: LiteralNibblePriorType, ctype: u8, speed: Speed },
    /// A nibble of a literal byte.
    Literal {
        /// `FirstNibble` for the high nibble, `SecondNibble` for the low.
        kind: LiteralNibblePriorType,
        /// Key of the stride distribution among the literal priors.
        stride_key: PriorKey,
        /// Key of the context-map distribution among the context-map
        /// priors.
        cm_key: PriorKey,
        mixing: Mixing,
        /// Four bytes from outside that describe the distribution to code
        /// with, in place of `mixing`, together with the stride
        /// distribution.
        external: Option<(u8, u8, u8, u8)>,
        /// Speed at which the stride distribution is blended afterwards.
        stride_speed: Speed,
        /// Speed at which the context-map distribution is blended
        /// afterwards.
        cm_speed: Speed,
    },
}

} // verus!
