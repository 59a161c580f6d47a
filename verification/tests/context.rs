use brotli::enc::constants::{kSigned3BitContextLookup, kUTF8ContextLookup};
use divans::codec::context::literal_context;
use divans::constants::{
    signed_3_bit_context_lookup, utf8_context_lookup, BLEND_FIXED_POINT_PRECISION, LOG2_SCALE,
    SIGNED_3_BIT_CONTEXT_LOOKUP, UTF8_CONTEXT_LOOKUP,
};
use divans::interface::{
    BlockKeeper, LiteralPredictionModeNibble, Speed, LITERAL_PREDICTION_MODE_LSB6,
    LITERAL_PREDICTION_MODE_MSB6, LITERAL_PREDICTION_MODE_SIGN, LITERAL_PREDICTION_MODE_UTF8,
};

fn keeper(mode: u8, stride: u8, map: Vec<u8>, materialized: bool) -> BlockKeeper {
    BlockKeeper::new(
        stride,
        LiteralPredictionModeNibble(mode),
        map,
        materialized,
        false,
        0,
        Speed::MUD,
    )
}

#[test]
fn tables_are_those_of_brotli() {
    assert_eq!(UTF8_CONTEXT_LOOKUP[..], kUTF8ContextLookup[..]);
    assert_eq!(SIGNED_3_BIT_CONTEXT_LOOKUP[..], kSigned3BitContextLookup[..]);
    for i in 0..512 {
        assert_eq!(utf8_context_lookup(i), kUTF8ContextLookup[i]);
    }
    for i in 0..256 {
        assert_eq!(signed_3_bit_context_lookup(i), kSigned3BitContextLookup[i]);
    }
    assert_eq!(LOG2_SCALE, 15);
    assert_eq!(BLEND_FIXED_POINT_PRECISION, 15);
}

#[test]
fn context_by_mode() {
    let sign = LiteralPredictionModeNibble(LITERAL_PREDICTION_MODE_SIGN);
    let utf8 = LiteralPredictionModeNibble(LITERAL_PREDICTION_MODE_UTF8);
    let msb6 = LiteralPredictionModeNibble(LITERAL_PREDICTION_MODE_MSB6);
    let lsb6 = LiteralPredictionModeNibble(LITERAL_PREDICTION_MODE_LSB6);
    assert_eq!(literal_context(sign, 0xff, 0x00), 7 << 3);
    assert_eq!(literal_context(sign, 0x00, 0xff), 7);
    assert_eq!(literal_context(sign, 0x10, 0x80), (2 << 3) | 4);
    assert_eq!(literal_context(utf8, b'a', b' '), 56);
    assert_eq!(literal_context(utf8, b'e', b'a'), 56 | 3);
    assert_eq!(literal_context(utf8, b' ', b'.'), 8 | 1);
    assert_eq!(literal_context(utf8, 0xc3, 0xe2), 3 | 2);
    assert_eq!(literal_context(msb6, 0xff, 0x12), 63);
    assert_eq!(literal_context(msb6, 0x41, 0x12), 0x10);
    assert_eq!(literal_context(lsb6, 0x7f, 0x12), 63);
    assert_eq!(literal_context(lsb6, 0x41, 0x12), 1);
}

#[test]
fn contexts_fit_in_six_bits() {
    for mode in 0..4u8 {
        for last in 0..=255u8 {
            for before in 0..=255u8 {
                assert!(literal_context(LiteralPredictionModeNibble(mode), last, before) < 64);
            }
        }
    }
}

#[test]
fn window_holds_the_most_recent_byte_on_top() {
    let mut bk = keeper(LITERAL_PREDICTION_MODE_LSB6, 1, Vec::new(), false);
    for byte in 1..=8u8 {
        bk.push_literal_byte(byte);
    }
    assert_eq!(bk.last_8_literals, 0x0807_0605_0403_0201);
    bk.push_literal_byte(0xab);
    assert_eq!(bk.last_8_literals, 0xab08_0706_0504_0302);
    assert_eq!(bk.selected_context(), 0xab & 0x3f);
}

#[test]
fn stride_picks_the_byte_that_far_back() {
    for stride in 0..=8u8 {
        let mut bk = keeper(LITERAL_PREDICTION_MODE_UTF8, stride, Vec::new(), false);
        for byte in 0xa1..=0xa8u8 {
            bk.push_literal_byte(byte);
        }
        let back = if stride == 0 { 1 } else { stride };
        assert_eq!(bk.stride_byte(), (0xa9 - back) as usize);
    }
}

#[test]
fn context_map_remaps_by_block_type() {
    let map: Vec<u8> = (0..128u32).map(|i| (255 - i) as u8).collect();
    let mut bk = keeper(LITERAL_PREDICTION_MODE_MSB6, 1, map.clone(), true);
    bk.push_literal_byte(0x0c);
    assert_eq!(bk.selected_context(), 3);
    assert_eq!(bk.actual_context(), 252);
    bk.literal_block_type = 1;
    assert_eq!(bk.get_literal_block_type(), 1);
    assert_eq!(bk.actual_context(), (255 - 67) as usize);
    let mut plain = keeper(LITERAL_PREDICTION_MODE_MSB6, 1, map, false);
    plain.push_literal_byte(0x0c);
    assert_eq!(plain.actual_context(), 3);
    assert_eq!(plain.get_command_block_type(), 0);
}
