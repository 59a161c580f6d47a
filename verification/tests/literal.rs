use divans::codec::literal::{
    CrossCommandState, LiteralState, LiteralSubstate, NibbleCoder, NibbleOutcome, NibbleRequest,
};
use divans::codec::priors::LiteralNibblePriorType;
use divans::interface::{
    BlockKeeper, CoderResult, LiteralCommand, LiteralPredictionModeNibble, Mixing, NibbleModel,
    Speed, LITERAL_PREDICTION_MODE_LSB6, LITERAL_PREDICTION_MODE_MSB6,
    LITERAL_PREDICTION_MODE_SIGN, LITERAL_PREDICTION_MODE_UTF8,
};

/// Writes down every request and answers with the nibble asked for.
struct Recorder {
    requests: Vec<NibbleRequest>,
}

impl NibbleCoder for Recorder {
    fn drain_or_fill_internal_buffer(
        &mut self,
        _input_bytes: &[u8],
        _input_offset: &mut usize,
        _output_bytes: &mut [u8],
        _output_offset: &mut usize,
    ) -> CoderResult {
        CoderResult::Success
    }

    fn get_or_put_nibble(&mut self, request: &NibbleRequest) -> NibbleOutcome {
        self.requests.push(*request);
        NibbleOutcome { symbol: request.symbol, freq: 2048, stride_freq: 2048, cm_freq: 2048 }
    }
}

/// Answers with recorded nibbles, whatever is asked for.
struct Player {
    nibbles: Vec<u8>,
    next: usize,
}

impl NibbleCoder for Player {
    fn drain_or_fill_internal_buffer(
        &mut self,
        _input_bytes: &[u8],
        _input_offset: &mut usize,
        _output_bytes: &mut [u8],
        _output_offset: &mut usize,
    ) -> CoderResult {
        if self.next < self.nibbles.len() {
            CoderResult::Success
        } else {
            CoderResult::NeedsMoreInput
        }
    }

    fn get_or_put_nibble(&mut self, _request: &NibbleRequest) -> NibbleOutcome {
        let symbol = self.nibbles[self.next];
        self.next += 1;
        NibbleOutcome { symbol, freq: 2048, stride_freq: 2048, cm_freq: 2048 }
    }
}

fn plain_keeper() -> BlockKeeper {
    BlockKeeper::new(
        0,
        LiteralPredictionModeNibble(LITERAL_PREDICTION_MODE_UTF8),
        Vec::new(),
        false,
        false,
        0,
        Speed::MUD,
    )
}

fn encode(data: Vec<u8>) -> (Vec<NibbleRequest>, LiteralState, BlockKeeper) {
    let cmd = LiteralCommand { data, prob: Vec::new() };
    let mut state = LiteralState::new();
    let mut superstate =
        CrossCommandState { coder: Recorder { requests: Vec::new() }, bk: plain_keeper() };
    let mut input_offset = 0usize;
    let mut output_offset = 0usize;
    let mut output = [0u8; 1];
    let result = state.encode_or_decode(
        &mut superstate,
        &cmd,
        &[],
        &mut input_offset,
        &mut output,
        &mut output_offset,
    );
    assert_eq!(result, CoderResult::Success);
    assert_eq!(state.state, LiteralSubstate::FullyDecoded);
    assert_eq!(state.lc.data, cmd.data);
    (superstate.coder.requests, state, superstate.bk)
}

fn decode(nibbles: Vec<u8>) -> (CoderResult, LiteralState, BlockKeeper) {
    let cmd = LiteralCommand::nop();
    let mut state = LiteralState::new();
    let mut superstate = CrossCommandState { coder: Player { nibbles, next: 0 }, bk: plain_keeper() };
    let mut input_offset = 0usize;
    let mut output_offset = 0usize;
    let mut output = [0u8; 1];
    let result = state.encode_or_decode(
        &mut superstate,
        &cmd,
        &[],
        &mut input_offset,
        &mut output,
        &mut output_offset,
    );
    (result, state, superstate.bk)
}

fn kinds(requests: &[NibbleRequest]) -> Vec<LiteralNibblePriorType> {
    requests
        .iter()
        .map(|r| match r.model {
            NibbleModel::Count { kind, .. } => kind,
            NibbleModel::Literal { kind, .. } => kind,
        })
        .collect()
}

fn symbols(requests: &[NibbleRequest]) -> Vec<u8> {
    requests.iter().map(|r| r.symbol).collect()
}

fn count_nibbles(requests: &[NibbleRequest]) -> usize {
    requests.iter().filter(|r| matches!(r.model, NibbleModel::Count { .. })).count()
}

#[test]
fn single_byte_run() {
    let (requests, _, keeper) = encode(b"A".to_vec());
    assert_eq!(symbols(&requests), vec![0, 0x4, 0x1]);
    assert_eq!(
        kinds(&requests),
        vec![
            LiteralNibblePriorType::CountSmall,
            LiteralNibblePriorType::FirstNibble,
            LiteralNibblePriorType::SecondNibble
        ]
    );
    assert_eq!(keeper.last_llen, 1);
    assert_eq!(keeper.last_8_literals, 0x41u64 << 56);
    let (result, state, keeper) = decode(vec![0, 0x4, 0x1]);
    assert_eq!(result, CoderResult::Success);
    assert_eq!(state.lc.data, b"A".to_vec());
    assert_eq!(keeper.last_8_literals, 0x41u64 << 56);
}

#[test]
fn sixteen_zero_bytes() {
    let (requests, _, _) = encode(vec![0u8; 16]);
    assert_eq!(requests.len(), 34);
    assert_eq!(requests[0].symbol, 15);
    assert_eq!(requests[1].symbol, 0);
    assert_eq!(
        kinds(&requests[..2]),
        vec![LiteralNibblePriorType::CountSmall, LiteralNibblePriorType::SizeBegNib]
    );
    assert!(requests[2..].iter().all(|r| r.symbol == 0));
    assert!(requests[2..].iter().all(|r| matches!(r.model, NibbleModel::Literal { .. })));
}

#[test]
fn twenty_four_bytes() {
    let data: Vec<u8> = (0u8..24).collect();
    let (requests, _, _) = encode(data.clone());
    assert_eq!(symbols(&requests[..3]), vec![15, 4, 0]);
    assert_eq!(
        kinds(&requests[..3]),
        vec![
            LiteralNibblePriorType::CountSmall,
            LiteralNibblePriorType::SizeBegNib,
            LiteralNibblePriorType::SizeMantissaNib
        ]
    );
    assert_eq!(count_nibbles(&requests), 3);
    let (result, state, _) = decode(symbols(&requests));
    assert_eq!(result, CoderResult::Success);
    assert_eq!(state.lc.data, data);
}

#[test]
fn one_kibibyte() {
    let data: Vec<u8> = (0..1024u32).map(|i| (i * 7) as u8).collect();
    let (requests, _, _) = encode(data.clone());
    // 1008 = 0b11_1111_0000: ten bits, of which nine follow the first
    assert_eq!(symbols(&requests[..5]), vec![15, 10, 0x1, 0xf, 0x0]);
    assert_eq!(
        kinds(&requests[..5]),
        vec![
            LiteralNibblePriorType::CountSmall,
            LiteralNibblePriorType::SizeBegNib,
            LiteralNibblePriorType::SizeMantissaNib,
            LiteralNibblePriorType::SizeMantissaNib,
            LiteralNibblePriorType::SizeMantissaNib
        ]
    );
    assert_eq!(count_nibbles(&requests), 5);
    let (result, state, _) = decode(symbols(&requests));
    assert_eq!(result, CoderResult::Success);
    assert_eq!(state.lc.data, data);
}

#[test]
fn sixty_four_kibibytes() {
    let data: Vec<u8> = (0..65536u32).map(|i| (i ^ (i >> 8)) as u8).collect();
    let (requests, _, keeper) = encode(data.clone());
    // 65520 = 0xfff0: sixteen bits, of which fifteen follow the first
    assert_eq!(symbols(&requests[..7]), vec![15, 15, 1, 0x7, 0xf, 0xf, 0x0]);
    assert_eq!(
        kinds(&requests[..3]),
        vec![
            LiteralNibblePriorType::CountSmall,
            LiteralNibblePriorType::SizeBegNib,
            LiteralNibblePriorType::SizeLastNib
        ]
    );
    assert_eq!(count_nibbles(&requests), 7);
    assert_eq!(requests.len(), 7 + 2 * 65536);
    assert_eq!(keeper.last_llen, 65536);
    let (result, state, _) = decode(symbols(&requests));
    assert_eq!(result, CoderResult::Success);
    assert_eq!(state.lc.data, data);
}

#[test]
fn count_nibbles_by_length() {
    for (len, expected) in
        [(1usize, 1usize), (15, 1), (16, 2), (17, 2), (18, 3), (24, 3), (25, 3), (1024, 5), (65536, 7)]
    {
        let (requests, _, _) = encode(vec![0x5a; len]);
        assert_eq!(count_nibbles(&requests), expected, "length {}", len);
        assert_eq!(requests.len(), expected + 2 * len);
    }
}

#[test]
fn billing_forgets_what_varies() {
    // 48 - 16 = 32 has six bits, of which five follow the first: two nibbles
    let (requests, _, _) = encode(vec![1u8; 48]);
    assert_eq!(requests[0].billing, LiteralSubstate::LiteralCountSmall);
    assert_eq!(requests[1].billing, LiteralSubstate::LiteralCountFirst);
    assert_eq!(requests[2].billing, LiteralSubstate::LiteralCountMantissaNibbles(0, 0));
    assert_eq!(requests[3].billing, LiteralSubstate::LiteralCountMantissaNibbles(0, 0));
    assert_eq!(requests[4].billing, LiteralSubstate::LiteralNibbleIndex(0));
    assert_eq!(requests[5].billing, LiteralSubstate::LiteralNibbleIndex(1));
    assert_eq!(requests[6].billing, LiteralSubstate::LiteralNibbleIndex(0));
}

#[test]
fn count_speeds() {
    let (requests, _, _) = encode(vec![1u8; 70000]);
    let speeds: Vec<Speed> = requests[..4]
        .iter()
        .map(|r| match r.model {
            NibbleModel::Count { speed, .. } => speed,
            NibbleModel::Literal { .. } => panic!("a count nibble was due"),
        })
        .collect();
    assert_eq!(speeds, vec![Speed::MED, Speed::MUD, Speed::MUD, Speed::MUD]);
}

#[test]
fn plain_mode_codes_with_the_stride_model() {
    let (requests, _, _) = encode(b"abc".to_vec());
    for request in &requests[1..] {
        match request.model {
            NibbleModel::Literal { mixing, external, stride_speed, cm_speed, .. } => {
                assert_eq!(mixing, Mixing::Stride);
                assert_eq!(external, None);
                assert_eq!(stride_speed, Speed::MUD);
                assert_eq!(cm_speed, Speed::GLACIAL);
            }
            NibbleModel::Count { .. } => panic!("a literal nibble was due"),
        }
    }
}

#[test]
fn stalls_are_handed_back_and_resumed() {
    let (requests, _, _) = encode(b"resumable literal run".to_vec());
    let nibbles = symbols(&requests);
    let cmd = LiteralCommand::nop();
    let mut state = LiteralState::new();
    let mut superstate = CrossCommandState { coder: Player { nibbles: Vec::new(), next: 0 }, bk: plain_keeper() };
    let mut input_offset = 0usize;
    let mut output_offset = 0usize;
    let mut output = [0u8; 1];
    for (i, nibble) in nibbles.iter().enumerate() {
        let result = state.encode_or_decode(
            &mut superstate,
            &cmd,
            &[],
            &mut input_offset,
            &mut output,
            &mut output_offset,
        );
        assert_eq!(result, CoderResult::NeedsMoreInput, "before nibble {}", i);
        superstate.coder.nibbles.push(*nibble);
    }
    let result = state.encode_or_decode(
        &mut superstate,
        &cmd,
        &[],
        &mut input_offset,
        &mut output,
        &mut output_offset,
    );
    assert_eq!(result, CoderResult::Success);
    assert_eq!(state.lc.data, b"resumable literal run".to_vec());
    let (_, _, one_shot) = decode(nibbles);
    assert_eq!(superstate.bk.last_8_literals, one_shot.last_8_literals);
    assert_eq!(superstate.bk.last_llen, one_shot.last_llen);
    assert_eq!(superstate.bk.model_weights, one_shot.model_weights);
}

#[test]
fn a_symbol_above_fifteen_is_refused() {
    let (result, state, _) = decode(vec![16]);
    assert_eq!(result, CoderResult::Failure);
    assert_eq!(state.state, LiteralSubstate::LiteralCountSmall);
}

#[test]
fn a_length_of_two_gibibytes_is_refused() {
    // bit length 15 + 15 = 30 gives 32 mantissa bits; all ones is 2^32 - 1
    let (result, state, _) = decode(vec![15, 15, 15, 0xf, 0xf, 0xf, 0xf, 0xf, 0xf, 0xf, 0xf]);
    assert_eq!(result, CoderResult::Failure);
    assert_eq!(state.state, LiteralSubstate::LiteralCountMantissaNibbles(4, 0xffff_fff0));
}

#[test]
fn modes_are_the_four_constants() {
    assert_eq!(LITERAL_PREDICTION_MODE_SIGN, 0);
    assert_eq!(LITERAL_PREDICTION_MODE_UTF8, 1);
    assert_eq!(LITERAL_PREDICTION_MODE_MSB6, 2);
    assert_eq!(LITERAL_PREDICTION_MODE_LSB6, 3);
}
