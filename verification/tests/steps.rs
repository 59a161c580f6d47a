use divans::codec::literal::{LiteralState, LiteralSubstate, NibbleOutcome, NibbleRequest};
use divans::codec::priors::LiteralNibblePriorType;
use divans::interface::{
    BlockKeeper, LiteralCommand, LiteralPredictionModeNibble, Mixing, NibbleModel, Speed,
    LITERAL_PREDICTION_MODE_MSB6,
};

fn keeper(materialized: bool, combine: bool, dyn_mix: u8) -> BlockKeeper {
    let map: Vec<u8> = (0..64u8).map(|i| 100 + i).collect();
    BlockKeeper::new(
        2,
        LiteralPredictionModeNibble(LITERAL_PREDICTION_MODE_MSB6),
        map,
        materialized,
        combine,
        dyn_mix,
        Speed::SLOW,
    )
}

fn echo(request: &NibbleRequest) -> NibbleOutcome {
    NibbleOutcome { symbol: request.symbol, freq: 100, stride_freq: 50, cm_freq: 200 }
}

fn entered() -> LiteralState {
    let mut state = LiteralState::new();
    assert_eq!(state.state, LiteralSubstate::Begin);
    state.state = LiteralSubstate::LiteralCountSmall;
    state
}

#[test]
fn count_states_in_order() {
    let cmd = LiteralCommand { data: vec![0u8; 65536 + 16], prob: Vec::new() };
    let mut bk = keeper(false, false, 0);
    let mut state = entered();
    let mut trace = Vec::new();
    while !matches!(state.state, LiteralSubstate::LiteralNibbleIndex(_)) {
        let request = state.next_request(&bk, &cmd);
        trace.push((state.state, request.symbol));
        assert!(state.advance(&mut bk, &echo(&request)));
    }
    // 65536 has seventeen bits: the sixteen below the highest take four nibbles
    assert_eq!(
        trace,
        vec![
            (LiteralSubstate::LiteralCountSmall, 15),
            (LiteralSubstate::LiteralCountFirst, 15),
            (LiteralSubstate::LiteralCountLengthGreater14Less25, 2),
            (LiteralSubstate::LiteralCountMantissaNibbles(16, 1 << 16), 0),
            (LiteralSubstate::LiteralCountMantissaNibbles(12, 1 << 16), 0),
            (LiteralSubstate::LiteralCountMantissaNibbles(8, 1 << 16), 0),
            (LiteralSubstate::LiteralCountMantissaNibbles(4, 1 << 16), 0),
        ]
    );
    assert_eq!(state.lc.data, vec![0u8; 65536 + 16]);
    assert_eq!(bk.last_llen, 0);
}

#[test]
fn longest_length_takes_eleven_nibbles() {
    let len = 1usize << 30;
    let cmd = LiteralCommand { data: vec![0u8; len], prob: Vec::new() };
    let mut bk = keeper(false, false, 0);
    let mut state = entered();
    let mut symbols = Vec::new();
    while !matches!(state.state, LiteralSubstate::LiteralNibbleIndex(_)) {
        let request = state.next_request(&bk, &cmd);
        symbols.push(request.symbol);
        assert!(state.advance(&mut bk, &echo(&request)));
    }
    // 2^30 - 16 = 0x3ffffff0 has thirty bits
    assert_eq!(symbols, vec![15, 15, 15, 0x1, 0xf, 0xf, 0xf, 0xf, 0xf, 0xf, 0x0]);
    assert_eq!(state.lc.data.len(), len);
    assert_eq!(state.state, LiteralSubstate::LiteralNibbleIndex(0));
}

#[test]
fn literal_requests_name_keys_and_mixing() {
    let cmd = LiteralCommand { data: vec![0xab, 0xcd, 0xef], prob: Vec::new() };
    let mut bk = keeper(true, true, 0);
    bk.command_block_type = 5;
    let mut state = entered();
    let request = state.next_request(&bk, &cmd);
    assert_eq!(
        request.model,
        NibbleModel::Count { kind: LiteralNibblePriorType::CountSmall, ctype: 5, speed: Speed::MED }
    );
    assert!(state.advance(&mut bk, &echo(&request)));
    let mut requests = Vec::new();
    while state.state != LiteralSubstate::FullyDecoded {
        let request = state.next_request(&bk, &cmd);
        requests.push(request);
        assert!(state.advance(&mut bk, &echo(&request)));
    }
    assert_eq!(requests.len(), 6);
    // first byte: the window is empty, context 0 maps to 100
    assert_eq!(
        requests[0].model,
        NibbleModel::Literal {
            kind: LiteralNibblePriorType::FirstNibble,
            stride_key: (2, 100, 0, 0),
            cm_key: (0, 100, 0, 0),
            mixing: Mixing::Average { cm_weight: 16384 },
            external: None,
            stride_speed: Speed::SLOW,
            cm_speed: Speed::GLACIAL,
        }
    );
    assert_eq!(
        requests[1].model,
        NibbleModel::Literal {
            kind: LiteralNibblePriorType::SecondNibble,
            stride_key: (2, 0xa, 0, 0),
            cm_key: (0, 100, 0xa, 0),
            mixing: Mixing::Average { cm_weight: 16384 },
            external: None,
            stride_speed: Speed::SLOW,
            cm_speed: Speed::GLACIAL,
        }
    );
    // third byte: last byte 0xcd gives context 0x33, two back is 0xab
    assert_eq!(
        requests[4].model,
        NibbleModel::Literal {
            kind: LiteralNibblePriorType::FirstNibble,
            stride_key: (2, 100 + 0x33, 0xab, 0),
            cm_key: (0, 100 + 0x33, 0, 0),
            mixing: Mixing::Average { cm_weight: 16384 },
            external: None,
            stride_speed: Speed::SLOW,
            cm_speed: Speed::GLACIAL,
        }
    );
    assert_eq!(requests.iter().map(|r| r.symbol).collect::<Vec<u8>>(), vec![0xa, 0xb, 0xc, 0xd, 0xe, 0xf]);
    assert_eq!(state.lc.data, cmd.data);
    assert_eq!(bk.last_llen, 3);
    assert_eq!(bk.model_weights, [1, 1]);
}

#[test]
fn mixing_follows_the_switches() {
    let cmd = LiteralCommand { data: vec![0x11], prob: Vec::new() };
    for (materialized, combine, expected) in [
        (false, false, Mixing::Stride),
        (false, true, Mixing::Stride),
        (true, false, Mixing::ContextMap),
        (true, true, Mixing::Average { cm_weight: 16384 }),
    ] {
        let mut bk = keeper(materialized, combine, 0);
        let mut state = entered();
        let request = state.next_request(&bk, &cmd);
        assert!(state.advance(&mut bk, &echo(&request)));
        match state.next_request(&bk, &cmd).model {
            NibbleModel::Literal { mixing, .. } => assert_eq!(mixing, expected),
            NibbleModel::Count { .. } => panic!("a literal nibble was due"),
        }
    }
}

#[test]
fn weights_move_only_with_dynamic_mixing_and_a_context_map() {
    let cmd = LiteralCommand { data: vec![0x11], prob: Vec::new() };
    for (materialized, dyn_mix, moved) in [(true, 3u8, true), (true, 0, false), (false, 3, false)] {
        let mut bk = keeper(materialized, true, dyn_mix);
        let mut state = entered();
        while state.state != LiteralSubstate::FullyDecoded {
            let request = state.next_request(&bk, &cmd);
            assert!(state.advance(&mut bk, &echo(&request)));
        }
        assert_eq!(bk.model_weights != [1, 1], moved);
        if moved {
            // two updates with frequencies 50 and 200 against 100
            assert_eq!(bk.model_weights[0], 0);
            assert!(bk.model_weights[1] > 1);
        }
    }
}

#[test]
fn refused_outcomes_change_nothing() {
    let cmd = LiteralCommand { data: vec![0x11], prob: Vec::new() };
    let mut bk = keeper(true, true, 3);
    let mut state = entered();
    assert!(!state.advance(&mut bk, &NibbleOutcome { symbol: 16, freq: 1, stride_freq: 1, cm_freq: 1 }));
    assert!(!state.advance(&mut bk, &NibbleOutcome { symbol: 0, freq: -1, stride_freq: 1, cm_freq: 1 }));
    assert_eq!(state.state, LiteralSubstate::LiteralCountSmall);
    assert_eq!(bk.model_weights, [1, 1]);
    let request = state.next_request(&bk, &cmd);
    assert_eq!(request.symbol, 0);
}

#[test]
fn two_encoders_write_the_same_nibbles() {
    let cmd = LiteralCommand { data: (0..200u8).collect(), prob: Vec::new() };
    let mut streams = Vec::new();
    for (materialized, dyn_mix, freq) in [(false, 0u8, 7i16), (true, 9, 31000), (true, 9, 31000)] {
        let mut bk = keeper(materialized, true, dyn_mix);
        let mut state = entered();
        let mut symbols = Vec::new();
        while state.state != LiteralSubstate::FullyDecoded {
            let request = state.next_request(&bk, &cmd);
            symbols.push(request.symbol);
            let outcome = NibbleOutcome { symbol: request.symbol, freq, stride_freq: 9, cm_freq: 99 };
            assert!(state.advance(&mut bk, &outcome));
        }
        streams.push((symbols, bk.model_weights, bk.last_8_literals));
    }
    assert_eq!(streams[0].0, streams[1].0);
    assert_eq!(streams[1], streams[2]);
}
