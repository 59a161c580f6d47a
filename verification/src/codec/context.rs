//! The contexts of a literal: what the bytes before it select among the
//! priors.

use vstd::prelude::*;

verus! {

use crate::constants::{
    signed_3_bit_context_lookup, utf8_context_lookup, SIGNED_3_BIT_CONTEXT_LOOKUP,
    UTF8_CONTEXT_LOOKUP,
};
use crate::interface::{
    BlockKeeper, LiteralPredictionModeNibble, LITERAL_PREDICTION_MODE_LSB6,
    LITERAL_PREDICTION_MODE_MSB6, LITERAL_PREDICTION_MODE_SIGN, LITERAL_PREDICTION_MODE_UTF8,
};

/// The byte that was put out `back` bytes ago, for `back` from 1 to 8, in
/// a window that holds the most recent byte in its top eight bits.
pub open spec fn byte_back(window: u64, back: int) -> u8 {
    ((window >> ((64 - 8 * back) as u64)) & 0xff) as u8
}

/// The window after `byte` was put out.
pub open spec fn pushed(window: u64, byte: u8) -> u64 {
    (window >> 8) | ((byte as u64) << 56)
}

/// Context of UTF-8 text.
pub open spec fn utf8_context(prev_byte: u8, prev_prev_byte: u8) -> u8 {
    UTF8_CONTEXT_LOOKUP[prev_byte as int] | UTF8_CONTEXT_LOOKUP[prev_prev_byte as int + 256]
}

/// Context of signed samples: three bits for each of the two bytes.
pub open spec fn sign_context(prev_byte: u8, prev_prev_byte: u8) -> u8 {
    (SIGNED_3_BIT_CONTEXT_LOOKUP[prev_byte as int] << 3)
        | SIGNED_3_BIT_CONTEXT_LOOKUP[prev_prev_byte as int]
}

/// The six high bits of the last byte.
pub open spec fn msb6_context(prev_byte: u8) -> u8 {
    prev_byte >> 2
}

/// The six low bits of the last byte.
pub open spec fn lsb6_context(prev_byte: u8) -> u8 {
    prev_byte & 0x3f
}

/// The context that `mode` draws from the last two bytes.
pub open spec fn selected_context(mode: u8, prev_byte: u8, prev_prev_byte: u8) -> u8 {
    if mode == LITERAL_PREDICTION_MODE_SIGN {
        sign_context(prev_byte, prev_prev_byte)
    } else if mode == LITERAL_PREDICTION_MODE_UTF8 {
        utf8_context(prev_byte, prev_prev_byte)
    } else if mode == LITERAL_PREDICTION_MODE_MSB6 {
        msb6_context(prev_byte)
    } else {
        lsb6_context(prev_byte)
    }
}

/// The context that the keeper's mode draws from its window.
pub open spec fn window_context(keeper: BlockKeeper) -> u8 {
    selected_context(
        keeper.literal_prediction_mode.0,
        byte_back(keeper.last_8_literals, 1),
        byte_back(keeper.last_8_literals, 2),
    )
}

/// The context under which the priors are looked up: the entry of the
/// context map for the window's context and the literal block type, or
/// the window's context itself where no map is in use.
pub open spec fn actual_context(keeper: BlockKeeper) -> usize {
    if keeper.materialized_prediction_mode {
        keeper.literal_context_map@[window_context(keeper) + 64 * keeper.literal_block_type] as usize
    } else {
        window_context(keeper) as usize
    }
}

/// The byte that keys the stride model: the one put out `stride` bytes
/// ago, where a stride of zero counts as one.
pub open spec fn stride_byte(keeper: BlockKeeper) -> u8 {
    byte_back(
        keeper.last_8_literals,
        if keeper.stride == 0 {
            1
        } else {
            keeper.stride as int
        },
    )
}

proof fn lemma_context_bits(a: u8, b: u8)
    by (bit_vector)
    ensures
        a <= 63 && b <= 63 ==> (a | b) <= 63,
        a <= 7 && b <= 7 ==> ((a << 3) | b) <= 63,
        (a >> 2) <= 63,
        (a & 0x3f) <= 63,
{
}

proof fn lemma_window_bits(window: u64, byte: u8, back: u64)
    by (bit_vector)
    ensures
        ((window >> 56) & 0xff) <= 0xff,
        ((window >> 48) & 0xff) <= 0xff,
        ((((window >> 8) | ((byte as u64) << 56)) >> 56) & 0xff) == byte,
        1 <= back <= 7 ==> ((((window >> 8) | ((byte as u64) << 56)) >> ((64 - 8 * (back + 1)) as u64))
            & 0xff) == ((window >> ((64 - 8 * back) as u64)) & 0xff),
        1 <= back <= 8 ==> ((window >> ((64 - 8 * back + 4) as u64)) & 0xf) * 16 + ((window >> ((64
            - 8 * back) as u64)) & 0xf) == ((window >> ((64 - 8 * back) as u64)) & 0xff),
        1 <= back <= 8 ==> ((window >> ((64 - 8 * back) as u64)) & 0xff) <= 0xff,
{
}

/// The window holds its bytes in the order in which they were pushed: the
/// pushed byte is the most recent, and every earlier byte moves one place
/// back.
pub proof fn lemma_pushed_window(window: u64, byte: u8, back: int)
    requires
        1 <= back <= 7,
    ensures
        byte_back(pushed(window, byte), 1) == byte,
        byte_back(pushed(window, byte), back + 1) == byte_back(window, back),
{
    lemma_window_bits(window, byte, back as u64);
}

/// Draws the context of a literal from the two bytes before it.
pub fn literal_context(mode: LiteralPredictionModeNibble, prev_byte: u8, prev_prev_byte: u8) -> (r: u8)
    requires
        mode.0 <= LITERAL_PREDICTION_MODE_LSB6,
    ensures
        r == selected_context(mode.0, prev_byte, prev_prev_byte),
        r <= 63,
{
    if mode.0 == LITERAL_PREDICTION_MODE_SIGN {
        let hi = signed_3_bit_context_lookup(prev_byte as usize);
        let lo = signed_3_bit_context_lookup(prev_prev_byte as usize);
        proof {
            lemma_context_bits(hi, lo);
        }
        (hi << 3) | lo
    } else if mode.0 == LITERAL_PREDICTION_MODE_UTF8 {
        let hi = utf8_context_lookup(prev_byte as usize);
        let lo = utf8_context_lookup(prev_prev_byte as usize + 256);
        proof {
            lemma_context_bits(hi, lo);
        }
        hi | lo
    } else if mode.0 == LITERAL_PREDICTION_MODE_MSB6 {
        proof {
            lemma_context_bits(prev_byte, 0);
        }
        prev_byte >> 2
    } else {
        proof {
            lemma_context_bits(prev_byte, 0);
        }
        prev_byte & 0x3f
    }
}

impl BlockKeeper {
    /// Appends `byte` to the window of the last eight bytes.
    pub fn push_literal_byte(&mut self, byte: u8)
        ensures
            *final(self) == (BlockKeeper { last_8_literals: pushed(old(self).last_8_literals, byte), ..*old(self) }),
    {
        self.last_8_literals = (self.last_8_literals >> 8) | ((byte as u64) << 56);
    }

    /// The context of the next literal, before the context map.
    pub fn selected_context(&self) -> (r: u8)
        requires
            self.wf(),
        ensures
            r == window_context(*self),
            r <= 63,
    {
        proof {
            lemma_window_bits(self.last_8_literals, 0, 1);
        }
        let prev_byte = ((self.last_8_literals >> 0x38) & 0xff) as u8;
        let prev_prev_byte = ((self.last_8_literals >> 0x30) & 0xff) as u8;
        literal_context(self.literal_prediction_mode, prev_byte, prev_prev_byte)
    }

    /// The context of the next literal, after the context map where one is
    /// in use.
    pub fn actual_context(&self) -> (r: usize)
        requires
            self.wf(),
        ensures
            r == actual_context(*self),
            r <= 255,
    {
        let selected_context = self.selected_context();
        if self.materialized_prediction_mode {
            let cmap_index = selected_context as usize + 64 * (self.get_literal_block_type() as usize);
            self.literal_context_map[cmap_index] as usize
        } else {
            selected_context as usize
        }
    }

    /// The byte that keys the stride model.
    pub fn stride_byte(&self) -> (r: usize)
        requires
            self.wf(),
        ensures
            r == stride_byte(*self),
            r <= 255,
    {
        let stride: u8 = if self.stride < 1 {
            1
        } else {
            self.stride
        };
        proof {
            lemma_window_bits(self.last_8_literals, 0, stride as u64);
        }
        let base_shift: u8 = 0x40 - stride * 8;
        let k0 = ((self.last_8_literals >> (base_shift + 4)) & 0xf) as usize;
        let k1 = ((self.last_8_literals >> base_shift) & 0xf) as usize;
        k0 * 16 + k1
    }
}

} // verus!
