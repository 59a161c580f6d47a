//! The coder of one run of literal bytes: the length of the run, then two
//! nibbles for every byte, high before low. One routine serves the encoder
//! and the decoder. It can be left between any two nibbles and entered
//! again, since everything it knows lives in `LiteralState` and in the
//! `BlockKeeper`.

use vstd::prelude::*;

verus! {

use crate::bits::{bit_length, lemma_u32_bit_length};
use crate::buffer::alloc_cell;
use crate::codec::context::{actual_context, pushed, stride_byte};
use crate::codec::mixer::{
    compute_mixing_weight, compute_new_weight, mixing_weight, new_weight, normalize_weights,
    normalized_weight, Prob,
};
use crate::codec::priors::LiteralNibblePriorType;
use crate::interface::{
    BlockKeeper, CoderResult, LiteralCommand, Mixing, NibbleModel, Speed,
};

/// Where the coder stands within one run.
#[derive(Copy, Clone, Debug, PartialEq, Eq, Hash, Structural)]
pub enum LiteralSubstate {
    /// Nothing of the run has been coded.
    Begin,
    /// Next comes the nibble that holds a length up to 15.
    LiteralCountSmall,
    /// Next comes the nibble that holds the bit length of the length
    /// less 16.
    LiteralCountFirst,
    /// Next comes the nibble that holds what that bit length has above 15.
    LiteralCountLengthGreater14Less25,
    /// Next comes a nibble of the length less 16: the number of its bits
    /// that are still to come, and what is known of it so far.
    LiteralCountMantissaNibbles(u8, u32),
    /// Next comes the nibble of the run with this index.
    LiteralNibbleIndex(u32),
    /// The whole run has been coded.
    FullyDecoded,
}

/// The run being coded and the place reached in it. On both sides `lc.data`
/// is the buffer of the run's length that fills up nibble by nibble.
pub struct LiteralState {
    pub lc: LiteralCommand,
    pub state: LiteralSubstate,
}

/// A `LiteralState` as a mathematical value.
pub struct LiteralStateView {
    pub data: Seq<u8>,
    pub prob: Seq<u8>,
    pub state: LiteralSubstate,
}

impl View for LiteralState {
    type V = LiteralStateView;

    open spec fn view(&self) -> LiteralStateView {
        LiteralStateView { data: self.lc.data@, prob: self.lc.prob@, state: self.state }
    }
}

/// What the coder asks of the entropy coder for one nibble.
#[derive(Clone, Copy, Debug, PartialEq, Eq)]
pub struct NibbleRequest {
    /// The nibble to write. A decoder puts the nibble it read in its place.
    pub symbol: u8,
    /// The account that the cost of the nibble goes to.
    pub billing: LiteralSubstate,
    pub model: NibbleModel,
}

/// What the entropy coder reports of one coded nibble.
#[derive(Clone, Copy, Debug, PartialEq, Eq, Structural)]
pub struct NibbleOutcome {
    /// The nibble that was written or read.
    pub symbol: u8,
    /// The frequency that the nibble was coded with.
    pub freq: Prob,
    /// The frequency that the stride distribution gave the nibble.
    pub stride_freq: Prob,
    /// The frequency that the context-map distribution gave the nibble.
    pub cm_freq: Prob,
}

impl NibbleOutcome {
    /// The symbol is a nibble and the frequency it was coded with is not
    /// negative.
    pub open spec fn wf(&self) -> bool {
        self.symbol < 16 && self.freq >= 0
    }
}

/// The longest run whose length the count nibbles can express.
pub const MAX_CODED_LENGTH: u32 = 0x4000_000f;

/// The length less 16 as the 32 bits in which the coder holds it.
pub open spec fn large_length(len: nat) -> u32 {
    if len >= 16 {
        (len - 16) as u32
    } else {
        (len + 0x1_0000_0000 - 16) as u32
    }
}

/// Bit length of the length less 16, and 0 for the lengths up to 16.
pub open spec fn lllen(len: nat) -> nat {
    if len >= 16 {
        bit_length((len - 16) as nat)
    } else {
        0
    }
}

/// The least multiple of four that is not below `bits`.
pub open spec fn round_up_mod_4_spec(bits: nat) -> nat {
    ((bits + 3) / 4) * 4
}

/// The nibble that states a length up to 15, or 15 for a longer run.
pub open spec fn count_small_symbol(len: nat) -> u8 {
    if len == 0 || len > 15 {
        15
    } else {
        (len - 1) as u8
    }
}

/// The nibble that states the bit length of the length less 16, or 15 for
/// a bit length of 15 and more.
pub open spec fn count_first_symbol(len: nat) -> u8 {
    if lllen(len) < 15 {
        lllen(len) as u8
    } else {
        15
    }
}

/// The nibble that states what the bit length has above 15.
pub open spec fn count_last_symbol(len: nat) -> u8 {
    if lllen(len) >= 15 {
        (lllen(len) - 15) as u8
    } else {
        (lllen(len) + 241) as u8
    }
}

/// The nibble of the length less 16 that ends above bit `len_remaining -
/// 4`, among the bits not yet known.
pub open spec fn mantissa_symbol(len: nat, len_remaining: u8, decoded_so_far: u32) -> u8 {
    (((large_length(len) ^ decoded_so_far) >> ((len_remaining - 4) as u32)) & 0xf) as u8
}

/// The byte of the command at `index`, and 0 where the command has none,
/// as a decoder's command has not.
pub open spec fn source_byte(cmd: LiteralCommand, index: int) -> u8 {
    if 0 <= index < cmd.data@.len() {
        cmd.data@[index]
    } else {
        0
    }
}

/// The four bytes that describe the distribution of the nibble `index`
/// from outside, where the command holds them.
pub open spec fn external_probs(cmd: LiteralCommand, index: nat) -> Option<(u8, u8, u8, u8)> {
    let st = index as int * 4;
    if st + 4 <= cmd.prob@.len() {
        Some((cmd.prob@[st], cmd.prob@[st + 1], cmd.prob@[st + 2], cmd.prob@[st + 3]))
    } else {
        None
    }
}

impl LiteralStateView {
    /// The numbers in the state are within the bounds that the steps
    /// rely on.
    pub open spec fn wf(self) -> bool {
        match self.state {
            LiteralSubstate::LiteralCountMantissaNibbles(len_remaining, _) => 4 <= len_remaining
                <= 32 && len_remaining % 4 == 0,
            LiteralSubstate::LiteralNibbleIndex(index) => 1 <= self.data.len() < 0x8000_0000
                && index < 2 * self.data.len(),
            _ => true,
        }
    }

    /// The next step codes a nibble.
    pub open spec fn expects_nibble(self) -> bool {
        self.state != LiteralSubstate::Begin && self.state != LiteralSubstate::FullyDecoded
    }

    /// The state from which the first nibble is coded.
    pub open spec fn entered(self) -> LiteralStateView {
        if self.state == LiteralSubstate::Begin {
            LiteralStateView { state: LiteralSubstate::LiteralCountSmall, ..self }
        } else {
            self
        }
    }

    /// The account that the next nibble is billed to: the state without
    /// what varies from run to run.
    pub open spec fn billing(self) -> LiteralSubstate {
        match self.state {
            LiteralSubstate::LiteralCountMantissaNibbles(_, _) => LiteralSubstate::LiteralCountMantissaNibbles(0, 0),
            LiteralSubstate::LiteralNibbleIndex(index) => LiteralSubstate::LiteralNibbleIndex(index % 2),
            _ => self.state,
        }
    }

    /// The nibble that an encoder of `cmd` writes next.
    pub open spec fn symbol(self, cmd: LiteralCommand) -> u8 {
        let len = cmd.data@.len();
        match self.state {
            LiteralSubstate::LiteralCountSmall => count_small_symbol(len),
            LiteralSubstate::LiteralCountFirst => count_first_symbol(len),
            LiteralSubstate::LiteralCountLengthGreater14Less25 => count_last_symbol(len),
            LiteralSubstate::LiteralCountMantissaNibbles(len_remaining, decoded_so_far) => mantissa_symbol(len, len_remaining, decoded_so_far),
            LiteralSubstate::LiteralNibbleIndex(index) => if index % 2 == 0 {
                source_byte(cmd, index as int / 2) >> 4
            } else {
                source_byte(cmd, index as int / 2) & 0xf
            },
            _ => 0,
        }
    }

    /// The distributions that the next nibble is coded with.
    pub open spec fn model(self, keeper: BlockKeeper, cmd: LiteralCommand) -> NibbleModel {
        let ctype = keeper.command_block_type;
        match self.state {
            LiteralSubstate::LiteralCountFirst => NibbleModel::Count {
                kind: LiteralNibblePriorType::SizeBegNib,
                ctype,
                speed: Speed::MUD,
            },
            LiteralSubstate::LiteralCountLengthGreater14Less25 => NibbleModel::Count {
                kind: LiteralNibblePriorType::SizeLastNib,
                ctype,
                speed: Speed::MUD,
            },
            LiteralSubstate::LiteralCountMantissaNibbles(_, _) => NibbleModel::Count {
                kind: LiteralNibblePriorType::SizeMantissaNib,
                ctype,
                speed: Speed::MUD,
            },
            LiteralSubstate::LiteralNibbleIndex(index) => {
                let high = index % 2 == 0;
                let cur_byte_prior = (self.data[index as int / 2] >> 4) as usize;
                let context = actual_context(keeper);
                NibbleModel::Literal {
                    kind: if high {
                        LiteralNibblePriorType::FirstNibble
                    } else {
                        LiteralNibblePriorType::SecondNibble
                    },
                    stride_key: (
                        keeper.stride as usize,
                        if high {
                            context
                        } else {
                            cur_byte_prior
                        },
                        stride_byte(keeper) as usize,
                        0,
                    ),
                    cm_key: (
                        0,
                        context,
                        if high {
                            0
                        } else {
                            cur_byte_prior
                        },
                        0,
                    ),
                    mixing: if !keeper.materialized_prediction_mode {
                        Mixing::Stride
                    } else if !keeper.combine_literal_predictions {
                        Mixing::ContextMap
                    } else {
                        Mixing::Average {
                            cm_weight: mixing_weight(
                                keeper.model_weights[0] as int,
                                keeper.model_weights[1] as int,
                            ) as i32,
                        }
                    },
                    external: external_probs(cmd, index as nat),
                    stride_speed: keeper.literal_adaptation,
                    cm_speed: Speed::GLACIAL,
                }
            },
            _ => NibbleModel::Count {
                kind: LiteralNibblePriorType::CountSmall,
                ctype,
                speed: Speed::MED,
            },
        }
    }

    /// What is asked of the entropy coder for the next nibble.
    pub open spec fn request(self, keeper: BlockKeeper, cmd: LiteralCommand) -> NibbleRequest {
        NibbleRequest { symbol: self.symbol(cmd), billing: self.billing(), model: self.model(keeper, cmd) }
    }
}

/// The weights after a nibble was coded: both are normalized and then
/// moved, the first by the frequency that the stride model gave the nibble
/// and the second by the one that the context-map model gave it.
pub open spec fn updated_weights(weights: [i32; 2], outcome: NibbleOutcome) -> [i32; 2] {
    let w0 = weights[0] as int;
    let w1 = weights[1] as int;
    [
        new_weight(normalized_weight(w0, w0, w1) as i32, outcome.stride_freq, outcome.freq),
        new_weight(normalized_weight(w1, w0, w1) as i32, outcome.cm_freq, outcome.freq),
    ]
}

impl LiteralStateView {
    /// The state at the first nibble of a run of `len` bytes, with a buffer
    /// of zeros to fill.
    pub open spec fn with_buffer(self, len: nat) -> LiteralStateView {
        LiteralStateView {
            data: Seq::new(len, |i: int| 0u8),
            state: LiteralSubstate::LiteralNibbleIndex(0),
            ..self
        }
    }

    /// Whether the coded nibble `symbol` can be taken in: it cannot where
    /// it completes a run length of `2^31` bytes or more.
    pub open spec fn accepts(self, symbol: u8) -> bool {
        match self.state {
            LiteralSubstate::LiteralCountMantissaNibbles(len_remaining, decoded_so_far) => len_remaining
                != 4 || (decoded_so_far | symbol as u32) + 16 < 0x8000_0000,
            _ => true,
        }
    }

    /// The state after the nibble `symbol` was coded.
    pub open spec fn advanced(self, symbol: u8) -> LiteralStateView {
        match self.state {
            LiteralSubstate::LiteralCountSmall => if symbol == 15 {
                LiteralStateView { state: LiteralSubstate::LiteralCountFirst, ..self }
            } else {
                self.with_buffer(symbol as nat + 1)
            },
            LiteralSubstate::LiteralCountFirst => if symbol == 15 {
                LiteralStateView { state: LiteralSubstate::LiteralCountLengthGreater14Less25, ..self }
            } else if symbol <= 1 {
                self.with_buffer(16 + symbol as nat)
            } else {
                LiteralStateView {
                    state: LiteralSubstate::LiteralCountMantissaNibbles(
                        round_up_mod_4_spec((symbol - 1) as nat) as u8,
                        1u32 << ((symbol - 1) as u32),
                    ),
                    ..self
                }
            },
            LiteralSubstate::LiteralCountLengthGreater14Less25 => LiteralStateView {
                state: LiteralSubstate::LiteralCountMantissaNibbles(
                    round_up_mod_4_spec((symbol + 14) as nat) as u8,
                    1u32 << ((symbol + 14) as u32),
                ),
                ..self
            },
            LiteralSubstate::LiteralCountMantissaNibbles(len_remaining, decoded_so_far) => {
                let next_len_remaining = (len_remaining - 4) as u8;
                let next_decoded_so_far = decoded_so_far | ((symbol as u32) << (next_len_remaining as u32));
                if next_len_remaining == 0 {
                    self.with_buffer(next_decoded_so_far as nat + 16)
                } else {
                    LiteralStateView {
                        state: LiteralSubstate::LiteralCountMantissaNibbles(
                            next_len_remaining,
                            next_decoded_so_far,
                        ),
                        ..self
                    }
                }
            },
            LiteralSubstate::LiteralNibbleIndex(index) => LiteralStateView {
                data: self.data.update(index as int / 2, self.deposited(symbol)),
                state: if index + 1 == 2 * self.data.len() {
                    LiteralSubstate::FullyDecoded
                } else {
                    LiteralSubstate::LiteralNibbleIndex((index + 1) as u32)
                },
                ..self
            },
            _ => self,
        }
    }

    /// The byte under the nibble index after `symbol` was put into its
    /// half: the high half for an even index, the low half for an odd one.
    pub open spec fn deposited(self, symbol: u8) -> u8 {
        match self.state {
            LiteralSubstate::LiteralNibbleIndex(index) => if index % 2 == 0 {
                self.data[index as int / 2] | (symbol << 4)
            } else {
                self.data[index as int / 2] | symbol
            },
            _ => 0,
        }
    }

    /// What the coded nibble leaves in the keeper. Only the nibbles of
    /// literal bytes touch it: each records the length of the run, each
    /// moves the weights where mixing is switched on, and the low nibble
    /// of a byte appends the byte to the window.
    pub open spec fn keeper_after(self, keeper: BlockKeeper, outcome: NibbleOutcome) -> BlockKeeper {
        match self.state {
            LiteralSubstate::LiteralNibbleIndex(index) => BlockKeeper {
                last_llen: self.data.len() as u32,
                model_weights: if keeper.materialized_prediction_mode && keeper.dynamic_context_mixing
                    != 0 {
                    updated_weights(keeper.model_weights, outcome)
                } else {
                    keeper.model_weights
                },
                last_8_literals: if index % 2 == 1 {
                    pushed(keeper.last_8_literals, self.deposited(outcome.symbol))
                } else {
                    keeper.last_8_literals
                },
                ..keeper
            },
            _ => keeper,
        }
    }
}

/// One step of the coder: the state and the keeper after the entropy coder
/// reported `outcome`. Nothing changes where no nibble was due or the
/// outcome cannot be taken in.
pub open spec fn step(state: LiteralStateView, keeper: BlockKeeper, outcome: NibbleOutcome) -> (
    LiteralStateView,
    BlockKeeper,
) {
    if state.expects_nibble() && outcome.wf() && state.accepts(outcome.symbol) {
        (state.advanced(outcome.symbol), state.keeper_after(keeper, outcome))
    } else {
        (state, keeper)
    }
}

/// The steps for a sequence of outcomes, one after the other.
pub open spec fn run(state: LiteralStateView, keeper: BlockKeeper, outcomes: Seq<NibbleOutcome>) -> (
    LiteralStateView,
    BlockKeeper,
)
    decreases outcomes.len(),
{
    if outcomes.len() == 0 {
        (state, keeper)
    } else {
        let (next_state, next_keeper) = step(state, keeper, outcomes[0]);
        run(next_state, next_keeper, outcomes.skip(1))
    }
}

/// The least multiple of four that is not below `bits`.
pub fn round_up_mod_4(bits: u8) -> (r: u8)
    requires
        bits <= 32,
    ensures
        r == round_up_mod_4_spec(bits as nat),
        bits <= r < bits + 4,
        r % 4 == 0,
{
    ((bits + 3) / 4) * 4
}

proof fn lemma_nibble_bits(x: u32, byte: u8)
    by (bit_vector)
    ensures
        (x & 0xf) <= 15,
        (byte >> 4) <= 15,
        (byte & 0xf) <= 15,
{
}

impl LiteralState {
    /// A coder at the start of a run.
    pub fn new() -> (r: Self)
        ensures
            r@.state == LiteralSubstate::Begin,
            r@.data == Seq::<u8>::empty(),
            r@.prob == Seq::<u8>::empty(),
            r@.wf(),
    {
        LiteralState { lc: LiteralCommand::nop(), state: LiteralSubstate::Begin }
    }

    /// The nibble that an encoder of `in_cmd` writes next.
    fn next_symbol(&self, in_cmd: &LiteralCommand) -> (r: u8)
        requires
            self@.wf(),
            self@.expects_nibble(),
            in_cmd.wf(),
        ensures
            r == self@.symbol(*in_cmd),
    {
        let literal_len: u32 = in_cmd.data.len() as u32;
        let serialized_large_literal_len: u32 = literal_len.wrapping_sub(16);
        proof {
            lemma_u32_bit_length(serialized_large_literal_len);
        }
        let lllen: u8 = if literal_len >= 16 {
            (32 - serialized_large_literal_len.leading_zeros()) as u8
        } else {
            0
        };
        match self.state {
            LiteralSubstate::LiteralCountSmall => {
                let len_less_1 = literal_len.wrapping_sub(1);
                if len_less_1 < 15 {
                    len_less_1 as u8
                } else {
                    15
                }
            },
            LiteralSubstate::LiteralCountFirst => {
                if lllen < 15 {
                    lllen
                } else {
                    15
                }
            },
            LiteralSubstate::LiteralCountLengthGreater14Less25 => lllen.wrapping_sub(15),
            LiteralSubstate::LiteralCountMantissaNibbles(len_remaining, decoded_so_far) => {
                let next_len_remaining: u8 = len_remaining - 4;
                let last_nib_as_u32: u32 = ((serialized_large_literal_len ^ decoded_so_far)
                    >> next_len_remaining) & 0xf;
                proof {
                    lemma_nibble_bits((serialized_large_literal_len ^ decoded_so_far) >> next_len_remaining, 0);
                }
                last_nib_as_u32 as u8
            },
            LiteralSubstate::LiteralNibbleIndex(nibble_index) => {
                let byte_index: usize = (nibble_index / 2) as usize;
                let byte: u8 = if byte_index < in_cmd.data.len() {
                    in_cmd.data[byte_index]
                } else {
                    0
                };
                if nibble_index % 2 == 0 {
                    byte >> 4
                } else {
                    byte & 0xf
                }
            },
            _ => 0,
        }
    }

    /// The distributions that the next nibble is coded with.
    fn next_model(&self, keeper: &BlockKeeper, in_cmd: &LiteralCommand) -> (r: NibbleModel)
        requires
            self@.wf(),
            self@.expects_nibble(),
            keeper.wf(),
            in_cmd.wf(),
        ensures
            r == self@.model(*keeper, *in_cmd),
    {
        let ctype = keeper.get_command_block_type();
        match self.state {
            LiteralSubstate::LiteralCountFirst => NibbleModel::Count {
                kind: LiteralNibblePriorType::SizeBegNib,
                ctype,
                speed: Speed::MUD,
            },
            LiteralSubstate::LiteralCountLengthGreater14Less25 => NibbleModel::Count {
                kind: LiteralNibblePriorType::SizeLastNib,
                ctype,
                speed: Speed::MUD,
            },
            LiteralSubstate::LiteralCountMantissaNibbles(_, _) => NibbleModel::Count {
                kind: LiteralNibblePriorType::SizeMantissaNib,
                ctype,
                speed: Speed::MUD,
            },
            LiteralSubstate::LiteralNibbleIndex(nibble_index) => {
                let byte_index: usize = (nibble_index / 2) as usize;
                let high_nibble = nibble_index % 2 == 0;
                let stride_byte = keeper.stride_byte();
                let actual_context = keeper.actual_context();
                let cur_byte_prior = (self.lc.data[byte_index] >> 4) as usize;
                let mixing = if !keeper.materialized_prediction_mode {
                    Mixing::Stride
                } else if !keeper.combine_literal_predictions {
                    Mixing::ContextMap
                } else {
                    Mixing::Average { cm_weight: compute_mixing_weight(&keeper.model_weights) }
                };
                let st: u64 = nibble_index as u64 * 4;
                let external = if st + 4 <= in_cmd.prob.len() as u64 {
                    let st: usize = st as usize;
                    Some(
                        (
                            in_cmd.prob[st],
                            in_cmd.prob[st + 1],
                            in_cmd.prob[st + 2],
                            in_cmd.prob[st + 3],
                        ),
                    )
                } else {
                    None
                };
                NibbleModel::Literal {
                    kind: if high_nibble {
                        LiteralNibblePriorType::FirstNibble
                    } else {
                        LiteralNibblePriorType::SecondNibble
                    },
                    stride_key: (
                        keeper.stride as usize,
                        if high_nibble {
                            actual_context
                        } else {
                            cur_byte_prior
                        },
                        stride_byte,
                        0,
                    ),
                    cm_key: (
                        0,
                        actual_context,
                        if high_nibble {
                            0
                        } else {
                            cur_byte_prior
                        },
                        0,
                    ),
                    mixing,
                    external,
                    stride_speed: keeper.literal_adaptation,
                    cm_speed: Speed::GLACIAL,
                }
            },
            _ => NibbleModel::Count {
                kind: LiteralNibblePriorType::CountSmall,
                ctype,
                speed: Speed::MED,
            },
        }
    }

    /// What to ask of the entropy coder for the next nibble: the nibble
    /// that an encoder of `in_cmd` writes, the account it is billed to and
    /// the distributions to code it with. A decoder passes a command
    /// without bytes.
    pub fn next_request(&self, keeper: &BlockKeeper, in_cmd: &LiteralCommand) -> (r: NibbleRequest)
        requires
            self@.wf(),
            self@.expects_nibble(),
            keeper.wf(),
            in_cmd.wf(),
        ensures
            r == self@.request(*keeper, *in_cmd),
    {
        let billing = match self.state {
            LiteralSubstate::LiteralCountMantissaNibbles(_, _) => LiteralSubstate::LiteralCountMantissaNibbles(0, 0),
            LiteralSubstate::LiteralNibbleIndex(index) => LiteralSubstate::LiteralNibbleIndex(index % 2),
            _ => self.state,
        };
        NibbleRequest {
            symbol: self.next_symbol(in_cmd),
            billing,
            model: self.next_model(keeper, in_cmd),
        }
    }
}

proof fn lemma_count_bits(symbol: u8, decoded_so_far: u32, next: u8)
    by (bit_vector)
    ensures
        symbol < 16 && next <= 28 ==> ((symbol as u32) << (next as u32)) == (symbol as u64) << (
        next as u64),
        symbol < 16 ==> (decoded_so_far | ((symbol as u32) << 0u32)) == (decoded_so_far | symbol as u32),
{
}

impl LiteralState {
    /// Takes in what the entropy coder reported of the nibble that was
    /// due: moves to the next state, allocates the buffer once the length
    /// is known, deposits a nibble of a literal byte and brings the keeper
    /// up to date. An outcome that is no nibble, that has a negative
    /// frequency or that completes a length of `2^31` or more is refused;
    /// then nothing changes.
    pub fn advance(&mut self, keeper: &mut BlockKeeper, outcome: &NibbleOutcome) -> (accepted: bool)
        requires
            old(self)@.wf(),
            old(self)@.expects_nibble(),
            old(keeper).wf(),
        ensures
            accepted == (outcome.wf() && old(self)@.accepts(outcome.symbol)),
            (final(self)@, *final(keeper)) == step(old(self)@, *old(keeper), *outcome),
            final(self)@.wf(),
            final(keeper).wf(),
    {
        let symbol = outcome.symbol;
        if symbol > 15 || outcome.freq < 0 {
            return false;
        }
        match self.state {
            LiteralSubstate::LiteralCountSmall => {
                if symbol == 15 {
                    self.state = LiteralSubstate::LiteralCountFirst;
                } else {
                    self.lc.data = alloc_cell(symbol as usize + 1);
                    self.state = LiteralSubstate::LiteralNibbleIndex(0);
                    assert(self@.data =~= old(self)@.with_buffer(symbol as nat + 1).data);
                }
            },
            LiteralSubstate::LiteralCountFirst => {
                if symbol == 15 {
                    self.state = LiteralSubstate::LiteralCountLengthGreater14Less25;
                } else if symbol <= 1 {
                    self.lc.data = alloc_cell(16 + symbol as usize);
                    self.state = LiteralSubstate::LiteralNibbleIndex(0);
                    assert(self@.data =~= old(self)@.with_buffer(16 + symbol as nat).data);
                } else {
                    self.state = LiteralSubstate::LiteralCountMantissaNibbles(
                        round_up_mod_4(symbol - 1),
                        1u32 << (symbol - 1),
                    );
                }
            },
            LiteralSubstate::LiteralCountLengthGreater14Less25 => {
                self.state = LiteralSubstate::LiteralCountMantissaNibbles(
                    round_up_mod_4(symbol + 14),
                    1u32 << (symbol + 14),
                );
            },
            LiteralSubstate::LiteralCountMantissaNibbles(len_remaining, decoded_so_far) => {
                let next_len_remaining: u8 = len_remaining - 4;
                proof {
                    lemma_count_bits(symbol, decoded_so_far, next_len_remaining);
                }
                let next_decoded_so_far: u32 = decoded_so_far | ((symbol as u32) << next_len_remaining);
                if next_len_remaining == 0 {
                    if next_decoded_so_far >= 0x8000_0000 - 16 {
                        return false;
                    }
                    self.lc.data = alloc_cell(next_decoded_so_far as usize + 16);
                    self.state = LiteralSubstate::LiteralNibbleIndex(0);
                    assert(self@.data =~= old(self)@.with_buffer(next_decoded_so_far as nat + 16).data);
                } else {
                    self.state = LiteralSubstate::LiteralCountMantissaNibbles(
                        next_len_remaining,
                        next_decoded_so_far,
                    );
                }
            },
            LiteralSubstate::LiteralNibbleIndex(nibble_index) => {
                keeper.last_llen = self.lc.data.len() as u32;
                let byte_index: usize = (nibble_index / 2) as usize;
                let high_nibble = nibble_index % 2 == 0;
                if keeper.materialized_prediction_mode && keeper.dynamic_context_mixing != 0 {
                    let model_probs: [Prob; 2] = [outcome.stride_freq, outcome.cm_freq];
                    let mut weights = keeper.model_weights;
                    normalize_weights(&mut weights);
                    let w0new = compute_new_weight(
                        model_probs,
                        outcome.freq,
                        weights,
                        false,
                        keeper.dynamic_context_mixing,
                    );
                    let w1new = compute_new_weight(
                        model_probs,
                        outcome.freq,
                        weights,
                        true,
                        keeper.dynamic_context_mixing,
                    );
                    keeper.model_weights = [w0new, w1new];
                    assert(keeper.model_weights =~= updated_weights(old(keeper).model_weights, *outcome));
                }
                let cur_byte: u8 = if high_nibble {
                    self.lc.data[byte_index] | (symbol << 4)
                } else {
                    self.lc.data[byte_index] | symbol
                };
                self.lc.data.set(byte_index, cur_byte);
                if !high_nibble {
                    keeper.push_literal_byte(cur_byte);
                }
                if nibble_index as u64 + 1 == (self.lc.data.len() as u64) * 2 {
                    self.state = LiteralSubstate::FullyDecoded;
                } else {
                    self.state = LiteralSubstate::LiteralNibbleIndex(nibble_index + 1);
                }
            },
            _ => {},
        }
        assert(self@ == old(self)@.advanced(symbol));
        assert(*keeper == old(self)@.keeper_after(*old(keeper), *outcome));
        true
    }
}

/// The entropy coder together with the distributions it codes with. An
/// encoder writes the nibble of the request; a decoder reads one in its
/// place.
pub trait NibbleCoder {
    /// Moves bytes between the coder's own buffer and the two slices, and
    /// advances the offsets by what it took and gave.
    fn drain_or_fill_internal_buffer(
        &mut self,
        input_bytes: &[u8],
        input_offset: &mut usize,
        output_bytes: &mut [u8],
        output_offset: &mut usize,
    ) -> CoderResult;

    /// Codes one nibble with the distributions that the request names,
    /// updates them at the speeds it names and reports the nibble and its
    /// frequencies.
    fn get_or_put_nibble(&mut self, request: &NibbleRequest) -> NibbleOutcome;
}

/// What lives across the commands of a block: the entropy coder and the
/// keeper.
pub struct CrossCommandState<Coder: NibbleCoder> {
    pub coder: Coder,
    pub bk: BlockKeeper,
}

/// Number of steps that a run in `state` can still take.
pub open spec fn steps_left(state: LiteralStateView) -> nat {
    match state.state {
        LiteralSubstate::Begin => 0x2_0000_0000,
        LiteralSubstate::LiteralCountSmall => 0x1_ffff_ffff,
        LiteralSubstate::LiteralCountFirst => 0x1_ffff_fffe,
        LiteralSubstate::LiteralCountLengthGreater14Less25 => 0x1_ffff_fffd,
        LiteralSubstate::LiteralCountMantissaNibbles(len_remaining, _) => (0x1_0000_0000
            + len_remaining) as nat,
        LiteralSubstate::LiteralNibbleIndex(index) => (2 * state.data.len() - index) as nat,
        LiteralSubstate::FullyDecoded => 0,
    }
}

/// A run may be cut anywhere: taking in `first` and then, from the state
/// and keeper so reached, `rest` ends where taking in both at once ends.
/// Nothing but the state and the keeper is carried across the cut.
pub proof fn lemma_run_resumes(
    state: LiteralStateView,
    keeper: BlockKeeper,
    first: Seq<NibbleOutcome>,
    rest: Seq<NibbleOutcome>,
)
    ensures
        run(state, keeper, first + rest) == run(
            run(state, keeper, first).0,
            run(state, keeper, first).1,
            rest,
        ),
    decreases first.len(),
{
    if first.len() == 0 {
        assert(first + rest =~= rest);
    } else {
        let (next_state, next_keeper) = step(state, keeper, first[0]);
        assert((first + rest).skip(1) =~= first.skip(1) + rest);
        lemma_run_resumes(next_state, next_keeper, first.skip(1), rest);
    }
}

/// Taking in one more outcome is one more step.
pub proof fn lemma_run_push(
    state: LiteralStateView,
    keeper: BlockKeeper,
    outcomes: Seq<NibbleOutcome>,
    outcome: NibbleOutcome,
)
    ensures
        run(state, keeper, outcomes.push(outcome)) == step(
            run(state, keeper, outcomes).0,
            run(state, keeper, outcomes).1,
            outcome,
        ),
{
    let last = seq![outcome];
    assert(outcomes.push(outcome) =~= outcomes + last);
    lemma_run_resumes(state, keeper, outcomes, last);
    let (s1, k1) = run(state, keeper, outcomes);
    assert(last.skip(1).len() == 0);
    assert(run(s1, k1, last) == run(step(s1, k1, last[0]).0, step(s1, k1, last[0]).1, last.skip(1)));
}

impl LiteralState {
    /// Codes the run as far as the entropy coder lets it: before every
    /// step the coder drains or fills its buffer, and whatever it reports
    /// other than success is handed back at once, with the state and the
    /// keeper as the steps before left them, so that a later call goes on
    /// from there. `Success` is returned only when the run is complete. An
    /// outcome that `advance` refuses ends the call with `Failure`.
    ///
    /// An encoder passes the command to write as `in_cmd`, a decoder a
    /// command without bytes; the bytes of the run fill `self.lc.data` on
    /// both sides.
    pub fn encode_or_decode<Coder: NibbleCoder>(
        &mut self,
        superstate: &mut CrossCommandState<Coder>,
        in_cmd: &LiteralCommand,
        input_bytes: &[u8],
        input_offset: &mut usize,
        output_bytes: &mut [u8],
        output_offset: &mut usize,
    ) -> (r: CoderResult)
        requires
            old(self)@.wf(),
            old(superstate).bk.wf(),
            in_cmd.wf(),
        ensures
            final(self)@.wf(),
            final(superstate).bk.wf(),
            r == CoderResult::Success ==> final(self)@.state == LiteralSubstate::FullyDecoded,
            (final(self)@ == old(self)@ && final(superstate).bk == old(superstate).bk) || exists|
                outcomes: Seq<NibbleOutcome>,
            |
                (final(self)@, final(superstate).bk) == #[trigger] run(
                    old(self)@.entered(),
                    old(superstate).bk,
                    outcomes,
                ),
    {
        let ghost mut outcomes: Seq<NibbleOutcome> = Seq::empty();
        let ghost mut entered: bool = false;
        loop
            invariant
                self@.wf(),
                superstate.bk.wf(),
                in_cmd.wf(),
                !entered ==> self@ == old(self)@ && superstate.bk == old(superstate).bk
                    && outcomes.len() == 0,
                entered ==> (self@, superstate.bk) == run(
                    old(self)@.entered(),
                    old(superstate).bk,
                    outcomes,
                ),
                entered ==> self@.state != LiteralSubstate::Begin,
            decreases steps_left(self@),
        {
            match superstate.coder.drain_or_fill_internal_buffer(
                input_bytes,
                input_offset,
                output_bytes,
                output_offset,
            ) {
                CoderResult::Success => {},
                need_something => {
                    return need_something;
                },
            }
            match self.state {
                LiteralSubstate::Begin => {
                    self.state = LiteralSubstate::LiteralCountSmall;
                    proof {
                        entered = true;
                        assert(outcomes.len() == 0);
                    }
                },
                LiteralSubstate::FullyDecoded => {
                    return CoderResult::Success;
                },
                _ => {
                    let request = self.next_request(&superstate.bk, in_cmd);
                    let outcome = superstate.coder.get_or_put_nibble(&request);
                    proof {
                        if !entered {
                            assert(outcomes.len() == 0);
                            assert((self@, superstate.bk) == run(
                                old(self)@.entered(),
                                old(superstate).bk,
                                outcomes,
                            ));
                        }
                    }
                    if !self.advance(&mut superstate.bk, &outcome) {
                        return CoderResult::Failure;
                    }
                    proof {
                        lemma_run_push(old(self)@.entered(), old(superstate).bk, outcomes, outcome);
                        outcomes = outcomes.push(outcome);
                        entered = true;
                    }
                    if let LiteralSubstate::FullyDecoded = self.state {
                        return CoderResult::Success;
                    }
                },
            }
        }
    }
}

/// Outside probabilities override the models. Where the command holds
/// them for its whole run, the request for every nibble of the run names
/// the four bytes of that nibble, which the entropy coder then codes with
/// in place of the blend; where the command holds none, no request names
/// any.
pub proof fn lemma_external_probs_override(
    state: LiteralStateView,
    keeper: BlockKeeper,
    cmd: LiteralCommand,
    index: u32,
)
    requires
        state.state == LiteralSubstate::LiteralNibbleIndex(index),
        index < 2 * cmd.data@.len(),
        cmd.prob@.len() == 0 || cmd.prob@.len() == 8 * cmd.data@.len(),
    ensures
        state.request(keeper, cmd).model matches NibbleModel::Literal { external, .. } && external
            == (if cmd.prob@.len() == 0 {
            None
        } else {
            Some(
                (
                    cmd.prob@[4 * index],
                    cmd.prob@[4 * index + 1],
                    cmd.prob@[4 * index + 2],
                    cmd.prob@[4 * index + 3],
                ),
            )
        }),
{
}

} // verus!
