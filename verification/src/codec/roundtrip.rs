//! What an encoder writes, a decoder reads back: the nibbles of a run, its
//! length first, and the proof that taking them in rebuilds the run.

use vstd::prelude::*;

verus! {

use crate::bits::{bit_length, lemma_bit_length_at_most, lemma_bit_length_bounds, lemma_one_shl};
use crate::codec::context::pushed;
use crate::codec::literal::{
    large_length, lllen, round_up_mod_4_spec, run, step, LiteralStateView, LiteralSubstate,
    NibbleOutcome, MAX_CODED_LENGTH,
};
use crate::interface::{BlockKeeper, LiteralCommand};

/// Number of nibbles that carry the bits of the length less 16 below its
/// highest bit.
pub open spec fn mantissa_nibbles(len: nat) -> nat {
    round_up_mod_4_spec((lllen(len) - 1) as nat) / 4
}

/// Number of nibbles that state the length of a run of `len` bytes: one
/// up to 15 bytes, two for 16 and 17, and beyond that the two of them,
/// a third where the bit length of `len - 16` is 15 or more, and the
/// nibbles of the mantissa.
pub open spec fn count_nibbles(len: nat) -> nat {
    if len <= 15 {
        1
    } else if len <= 17 {
        2
    } else if lllen(len) < 15 {
        2 + mantissa_nibbles(len)
    } else {
        3 + mantissa_nibbles(len)
    }
}

/// Number of nibbles of a whole run: those of its length and two for
/// every byte.
pub open spec fn coded_nibbles(len: nat) -> nat {
    count_nibbles(len) + 2 * len
}

/// The window after all of `bytes` were put out, first to last.
pub open spec fn pushed_all(window: u64, bytes: Seq<u8>) -> u64
    decreases bytes.len(),
{
    if bytes.len() == 0 {
        window
    } else {
        pushed(pushed_all(window, bytes.drop_last()), bytes.last())
    }
}

/// What is known of the length less 16 (`ll`) while its mantissa is read,
/// where `top` is the highest bit of `ll`: everything above bit
/// `len_remaining`, below it no more than `top`, and nothing that is not
/// in `ll`.
pub open spec fn mantissa_known(ll: u32, top: u32, len_remaining: u8, decoded_so_far: u32) -> bool {
    &&& (decoded_so_far & !ll) == 0
    &&& (top & !decoded_so_far) == 0
    &&& ((ll ^ decoded_so_far) as u64) < (1u64 << (len_remaining as u64))
    &&& ((decoded_so_far & !top) as u64) & sub_one(1u64 << (len_remaining as u64)) == 0
}

/// `x - 1` for a power of two `x`: the mask of the bits below its bit.
pub open spec fn sub_one(x: u64) -> u64 {
    (x - 1) as u64
}

proof fn lemma_mantissa_start(ll: u32, k: u32, len_remaining: u8)
    by (bit_vector)
    ensures
        k < 32 && (1u64 << (k as u64)) <= (ll as u64) && (ll as u64) < (1u64 << ((k + 1) as u64)) && k
            <= len_remaining && len_remaining <= 32 ==> ((1u32 << k) & !ll) == 0 && ((ll ^ (1u32
            << k)) as u64) < (1u64 << (len_remaining as u64)) && ((1u32 << k) & !(1u32 << k)) == 0 && (((
        1u32 << k) & !(1u32 << k)) as u64) & (((1u64 << (len_remaining as u64)) - 1) as u64) == 0,
{
}

proof fn lemma_mantissa_step(ll: u32, top: u32, len_remaining: u8, decoded_so_far: u32)
    by (bit_vector)
    ensures
        4 <= len_remaining <= 32 && (decoded_so_far & !ll) == 0 && (top & !decoded_so_far) == 0 && ((ll
            ^ decoded_so_far) as u64) < (1u64 << (len_remaining as u64)) && ((decoded_so_far
            & !top) as u64) & (((1u64 << (len_remaining as u64)) - 1) as u64) == 0 ==> ({
            let next = (len_remaining - 4) as u8;
            let nibble = (((ll ^ decoded_so_far) >> ((len_remaining - 4) as u32)) & 0xf) as u8;
            let known = decoded_so_far | ((nibble as u32) << (next as u32));
            &&& nibble < 16
            &&& nibble == (((ll ^ top) >> ((len_remaining - 4) as u32)) & 0xf) as u8
            &&& (known & !ll) == 0
            &&& (top & !known) == 0
            &&& ((ll ^ known) as u64) < (1u64 << (next as u64))
            &&& ((known & !top) as u64) & (((1u64 << (next as u64)) - 1) as u64) == 0
            &&& (next == 0 ==> known == ll)
        }),
{
}

/// The highest bit of the length less 16, for lengths from 17 on.
pub open spec fn top_bit(len: nat) -> u32 {
    1u32 << ((lllen(len) - 1) as u32)
}

/// The nibbles of the bytes, the high nibble of each before its low one.
pub open spec fn data_nibbles(data: Seq<u8>) -> Seq<u8> {
    Seq::new(
        2 * data.len(),
        |i: int|
            if i % 2 == 0 {
                data[i / 2] >> 4
            } else {
                data[i / 2] & 0xf
            },
    )
}

/// The nibbles that state the length `len` of a run. Up to 15 the length
/// less one is the only nibble. Beyond that the first nibble is 15 and the
/// second is the bit length of `len - 16`, which for 16 and 17 says all;
/// a bit length of 15 or more takes a second nibble of 15 and a third
/// with what it has above 15. Then come the bits of `len - 16` below its
/// highest, four to a nibble, the highest first.
pub open spec fn length_nibbles(len: nat) -> Seq<u8> {
    if len <= 15 {
        seq![(len - 1) as u8]
    } else if len <= 17 {
        seq![15u8, (len - 16) as u8]
    } else {
        let head = if lllen(len) < 15 {
            seq![15u8, lllen(len) as u8]
        } else {
            seq![15u8, 15u8, (lllen(len) - 15) as u8]
        };
        head + Seq::new(
            mantissa_nibbles(len),
            |j: int|
                (((large_length(len) ^ top_bit(len)) >> ((4 * (mantissa_nibbles(len) - 1 - j)) as u32))
                    & 0xf) as u8,
        )
    }
}

/// The nibbles of a run, in the order in which they are coded: those of
/// its length, then those of its bytes.
pub open spec fn nibbles_of(data: Seq<u8>) -> Seq<u8> {
    length_nibbles(data.len()) + data_nibbles(data)
}

/// An outcome with the nibble that an encoder of `cmd` writes in `state`
/// and the frequencies of `report`.
pub open spec fn echoed(state: LiteralStateView, cmd: LiteralCommand, report: NibbleOutcome) -> NibbleOutcome {
    NibbleOutcome { symbol: state.symbol(cmd), ..report }
}

/// The outcomes of an encoder of `cmd` that starts in `state`, where the
/// entropy coder answers every request with the nibble asked for and with
/// the frequencies of the next of `reports`.
pub open spec fn encoded(
    state: LiteralStateView,
    keeper: BlockKeeper,
    cmd: LiteralCommand,
    reports: Seq<NibbleOutcome>,
) -> Seq<NibbleOutcome>
    decreases reports.len(),
{
    if reports.len() == 0 {
        Seq::empty()
    } else {
        let outcome = echoed(state, cmd, reports[0]);
        let (next_state, next_keeper) = step(state, keeper, outcome);
        seq![outcome] + encoded(next_state, next_keeper, cmd, reports.skip(1))
    }
}

/// Number of nibbles that an encoder of a run of `len` bytes still has to
/// write in `state`.
pub open spec fn remaining(state: LiteralStateView, len: nat) -> nat {
    match state.state {
        LiteralSubstate::Begin => coded_nibbles(len),
        LiteralSubstate::LiteralCountSmall => coded_nibbles(len),
        LiteralSubstate::LiteralCountFirst => (coded_nibbles(len) - 1) as nat,
        LiteralSubstate::LiteralCountLengthGreater14Less25 => (coded_nibbles(len) - 2) as nat,
        LiteralSubstate::LiteralCountMantissaNibbles(len_remaining, _) => len_remaining as nat / 4 + 2
            * len,
        LiteralSubstate::LiteralNibbleIndex(index) => (2 * len - index) as nat,
        LiteralSubstate::FullyDecoded => 0,
    }
}

/// The state and the keeper are what an encoder of `cmd` reaches from the
/// state `LiteralCountSmall` and a keeper with the window `window`: the
/// length is known as far as its nibbles were written, the buffer holds
/// the nibbles written and zeros behind them, and the window holds the
/// bytes completed.
pub open spec fn on_track(state: LiteralStateView, keeper: BlockKeeper, cmd: LiteralCommand, window: u64) -> bool {
    let len = cmd.data@.len();
    match state.state {
        LiteralSubstate::Begin => false,
        LiteralSubstate::LiteralCountSmall => keeper.last_8_literals == window,
        LiteralSubstate::LiteralCountFirst => len >= 16 && keeper.last_8_literals == window,
        LiteralSubstate::LiteralCountLengthGreater14Less25 => len >= 16 && lllen(len) >= 15
            && keeper.last_8_literals == window,
        LiteralSubstate::LiteralCountMantissaNibbles(len_remaining, decoded_so_far) => {
            &&& len >= 18
            &&& 4 <= len_remaining <= 32
            &&& len_remaining % 4 == 0
            &&& len_remaining <= 4 * mantissa_nibbles(len)
            &&& mantissa_known(large_length(len), top_bit(len), len_remaining, decoded_so_far)
            &&& keeper.last_8_literals == window
        },
        LiteralSubstate::LiteralNibbleIndex(index) => {
            &&& state.data.len() == len
            &&& index < 2 * len
            &&& forall|j: int| 0 <= j < index as int / 2 ==> state.data[j] == cmd.data@[j]
            &&& (index % 2 == 1 ==> state.data[index as int / 2] == cmd.data@[index as int / 2] & 0xf0)
            &&& (index % 2 == 0 ==> state.data[index as int / 2] == 0)
            &&& forall|j: int| index as int / 2 < j < len ==> state.data[j] == 0
            &&& keeper.last_8_literals == pushed_all(window, cmd.data@.take(index as int / 2))
            &&& (index > 0 ==> keeper.last_llen == len)
        },
        LiteralSubstate::FullyDecoded => {
            &&& state.data == cmd.data@
            &&& keeper.last_8_literals == pushed_all(window, cmd.data@)
            &&& keeper.last_llen == len
        },
    }
}

proof fn lemma_deposit_bits(byte: u8)
    by (bit_vector)
    ensures
        (byte >> 4) < 16,
        (byte & 0xf) < 16,
        (0u8 | ((byte >> 4) << 4)) == byte & 0xf0,
        ((byte & 0xf0) | (byte & 0xf)) == byte,
{
}

/// Bounds of the bit length of the length less 16 for the lengths that can
/// be coded.
pub proof fn lemma_lllen_bounds(len: nat)
    requires
        16 <= len <= MAX_CODED_LENGTH,
    ensures
        lllen(len) <= 30,
        len == 16 ==> lllen(len) == 0,
        len == 17 ==> lllen(len) == 1,
        len >= 18 ==> lllen(len) >= 2,
        large_length(len) == len - 16,
{
    let ll = (len - 16) as nat;
    vstd::arithmetic::power2::lemma2_to64();
    lemma_bit_length_at_most(ll, 30);
    lemma_bit_length_bounds(ll);
    if len == 17 {
        assert(bit_length(1) == 1 + bit_length(0)) by {
            assert(1nat / 2 == 0);
        }
    }
    if len >= 18 {
        if bit_length(ll) < 2 {
            vstd::arithmetic::power2::lemma_pow2_strictly_increases(bit_length(ll), 2);
            if bit_length(ll) == 0 {
            } else {
                assert(bit_length(ll) == 1);
                assert(ll < vstd::arithmetic::power2::pow2(1));
            }
        }
    }
}

/// One nibble of an encoder that is on track: the nibble it writes is
/// taken in, the encoder stays on track, and one nibble less is left.
pub proof fn lemma_encoder_step(
    state: LiteralStateView,
    keeper: BlockKeeper,
    cmd: LiteralCommand,
    window: u64,
    report: NibbleOutcome,
)
    requires
        1 <= cmd.data@.len() <= MAX_CODED_LENGTH,
        on_track(state, keeper, cmd, window),
        state.expects_nibble(),
        report.freq >= 0,
    ensures
        echoed(state, cmd, report).wf(),
        state.accepts(echoed(state, cmd, report).symbol),
        on_track(
            step(state, keeper, echoed(state, cmd, report)).0,
            step(state, keeper, echoed(state, cmd, report)).1,
            cmd,
            window,
        ),
        remaining(step(state, keeper, echoed(state, cmd, report)).0, cmd.data@.len()) + 1 == remaining(
            state,
            cmd.data@.len(),
        ),
        remaining(state, cmd.data@.len()) <= coded_nibbles(cmd.data@.len()),
        echoed(state, cmd, report).symbol == nibbles_of(cmd.data@)[coded_nibbles(cmd.data@.len())
            - remaining(state, cmd.data@.len())],
{
    let len = cmd.data@.len();
    let outcome = echoed(state, cmd, report);
    assert(length_nibbles(len).len() == count_nibbles(len));
    let symbol = outcome.symbol;
    let (next, next_keeper) = step(state, keeper, outcome);
    let ll = large_length(len);
    if len >= 16 {
        lemma_lllen_bounds(len);
    }
    match state.state {
        LiteralSubstate::LiteralCountSmall => {
            if len <= 15 {
                assert(next.data.len() == len);
                assert(cmd.data@.take(0) =~= Seq::<u8>::empty());
            }
        },
        LiteralSubstate::LiteralCountFirst => {
            if lllen(len) >= 15 {
            } else if lllen(len) <= 1 {
                assert(next.data.len() == len);
                assert(cmd.data@.take(0) =~= Seq::<u8>::empty());
            } else {
                let k = (lllen(len) - 1) as nat;
                lemma_bit_length_bounds((len - 16) as nat);
                lemma_one_shl(k);
                lemma_one_shl(k + 1);
                lemma_mantissa_start(ll, k as u32, round_up_mod_4_spec(k) as u8);
            }
        },
        LiteralSubstate::LiteralCountLengthGreater14Less25 => {
            let k = (lllen(len) - 1) as nat;
            lemma_bit_length_bounds((len - 16) as nat);
            lemma_one_shl(k);
            lemma_one_shl(k + 1);
            lemma_mantissa_start(ll, k as u32, round_up_mod_4_spec(k) as u8);
        },
        LiteralSubstate::LiteralCountMantissaNibbles(len_remaining, decoded_so_far) => {
            lemma_mantissa_step(ll, top_bit(len), len_remaining, decoded_so_far);
            if len_remaining == 4 {
                assert(symbol as u32 == (symbol as u32) << 0u32) by (bit_vector);
                assert(next.data.len() == len);
                assert(cmd.data@.take(0) =~= Seq::<u8>::empty());
            }
        },
        LiteralSubstate::LiteralNibbleIndex(index) => {
            let at = index as int / 2;
            lemma_deposit_bits(cmd.data@[at]);
            if index % 2 == 1 {
                assert(cmd.data@.take(at + 1).drop_last() =~= cmd.data@.take(at));
                if index + 1 == 2 * len {
                    assert(cmd.data@.take(at + 1) =~= cmd.data@);
                    assert(next.data =~= cmd.data@);
                }
            }
        },
        _ => {},
    }
}

/// An encoder that is on track stays on track for as many nibbles as are
/// left, and every one of them is taken in.
pub proof fn lemma_encoder_run(
    state: LiteralStateView,
    keeper: BlockKeeper,
    cmd: LiteralCommand,
    window: u64,
    reports: Seq<NibbleOutcome>,
)
    requires
        1 <= cmd.data@.len() <= MAX_CODED_LENGTH,
        on_track(state, keeper, cmd, window),
        reports.len() <= remaining(state, cmd.data@.len()),
        forall|i: int| 0 <= i < reports.len() ==> (#[trigger] reports[i]).freq >= 0,
    ensures
        encoded(state, keeper, cmd, reports).len() == reports.len(),
        forall|i: int|
            0 <= i < reports.len() ==> (#[trigger] encoded(state, keeper, cmd, reports)[i]).wf(),
        on_track(
            run(state, keeper, encoded(state, keeper, cmd, reports)).0,
            run(state, keeper, encoded(state, keeper, cmd, reports)).1,
            cmd,
            window,
        ),
        remaining(run(state, keeper, encoded(state, keeper, cmd, reports)).0, cmd.data@.len())
            + reports.len() == remaining(state, cmd.data@.len()),
        remaining(state, cmd.data@.len()) <= coded_nibbles(cmd.data@.len()),
        forall|i: int|
            0 <= i < reports.len() ==> (#[trigger] encoded(state, keeper, cmd, reports)[i]).symbol
                == nibbles_of(cmd.data@)[coded_nibbles(cmd.data@.len()) - remaining(
                state,
                cmd.data@.len(),
            ) + i],
    decreases reports.len(),
{
    let len = cmd.data@.len();
    let outcomes = encoded(state, keeper, cmd, reports);
    if reports.len() == 0 {
        lemma_remaining_bound(state, keeper, cmd, window);
    }
    if reports.len() > 0 {
        let outcome = echoed(state, cmd, reports[0]);
        let (next, next_keeper) = step(state, keeper, outcome);
        let rest = encoded(next, next_keeper, cmd, reports.skip(1));
        lemma_encoder_step(state, keeper, cmd, window, reports[0]);
        assert forall|i: int| 0 <= i < reports.skip(1).len() implies (#[trigger] reports.skip(1)[i]).freq
            >= 0 by {
            assert(reports.skip(1)[i] == reports[i + 1]);
        }
        lemma_encoder_run(next, next_keeper, cmd, window, reports.skip(1));
        assert(outcomes == seq![outcome] + rest);
        assert(outcomes[0] == outcome);
        assert(outcomes.skip(1) =~= rest);
        assert forall|i: int| 0 <= i < reports.len() implies (#[trigger] outcomes[i]).wf() by {
            if i > 0 {
                assert(outcomes[i] == rest[i - 1]);
            }
        }
        assert forall|i: int| 0 <= i < reports.len() implies (#[trigger] outcomes[i]).symbol
            == nibbles_of(cmd.data@)[coded_nibbles(len) - remaining(state, len) + i] by {
            if i > 0 {
                assert(outcomes[i] == rest[i - 1]);
            }
        }
    }
}

/// No state on track has more nibbles left than a run has.
proof fn lemma_remaining_bound(state: LiteralStateView, keeper: BlockKeeper, cmd: LiteralCommand, window: u64)
    requires
        1 <= cmd.data@.len() <= MAX_CODED_LENGTH,
        on_track(state, keeper, cmd, window),
    ensures
        remaining(state, cmd.data@.len()) <= coded_nibbles(cmd.data@.len()),
{
    let len = cmd.data@.len();
    if len >= 16 {
        lemma_lllen_bounds(len);
    }
}

/// The state in which the first nibble of a run is due.
pub open spec fn start() -> LiteralStateView {
    LiteralStateView {
        data: Seq::empty(),
        prob: Seq::empty(),
        state: LiteralSubstate::LiteralCountSmall,
    }
}

/// The count in terms of the bit length alone: beyond 17 bytes the nibbles
/// of the length are two, or three from a bit length of 15 on, and a
/// quarter of the bit length of `len - 16`, rounded up, except that a bit
/// length of one more than a multiple of four takes one nibble less.
pub proof fn lemma_count_nibbles_by_bit_length(len: nat)
    requires
        18 <= len <= MAX_CODED_LENGTH,
    ensures
        count_nibbles(len) == (if lllen(len) < 15 {
            2nat
        } else {
            3nat
        }) + (lllen(len) + 3) / 4 - (if lllen(len) % 4 == 1 {
            1nat
        } else {
            0nat
        }),
        3 <= count_nibbles(len) <= 11,
{
    lemma_lllen_bounds(len);
}

/// The nibbles of the length state the length. After the `count_nibbles`
/// nibbles that an encoder of `cmd` writes first, whoever takes them in
/// stands at the first nibble of a zeroed buffer that is as long as the
/// run.
pub proof fn lemma_length_is_coded(keeper: BlockKeeper, cmd: LiteralCommand, reports: Seq<NibbleOutcome>)
    requires
        1 <= cmd.data@.len() <= MAX_CODED_LENGTH,
        reports.len() == count_nibbles(cmd.data@.len()),
        forall|i: int| 0 <= i < reports.len() ==> (#[trigger] reports[i]).freq >= 0,
    ensures
        run(start(), keeper, encoded(start(), keeper, cmd, reports)).0.state
            == LiteralSubstate::LiteralNibbleIndex(0),
        run(start(), keeper, encoded(start(), keeper, cmd, reports)).0.data == Seq::new(
            cmd.data@.len(),
            |i: int| 0u8,
        ),
        run(start(), keeper, encoded(start(), keeper, cmd, reports)).1 == keeper,
{
    let len = cmd.data@.len();
    lemma_encoder_run(start(), keeper, cmd, keeper.last_8_literals, reports);
    lemma_count_steps_keep(start(), keeper, cmd, reports);
    let end = run(start(), keeper, encoded(start(), keeper, cmd, reports)).0;
    if len >= 16 {
        lemma_lllen_bounds(len);
    }
    assert(remaining(end, len) == 2 * len);
    assert(end.state == LiteralSubstate::LiteralNibbleIndex(0));
    assert(end.data =~= Seq::new(len, |i: int| 0u8));
}

/// The nibbles of the length leave the keeper alone.
proof fn lemma_count_steps_keep(
    state: LiteralStateView,
    keeper: BlockKeeper,
    cmd: LiteralCommand,
    reports: Seq<NibbleOutcome>,
)
    requires
        1 <= cmd.data@.len() <= MAX_CODED_LENGTH,
        on_track(state, keeper, cmd, keeper.last_8_literals),
        reports.len() + 2 * cmd.data@.len() <= remaining(state, cmd.data@.len()),
        forall|i: int| 0 <= i < reports.len() ==> (#[trigger] reports[i]).freq >= 0,
    ensures
        run(state, keeper, encoded(state, keeper, cmd, reports)).1 == keeper,
    decreases reports.len(),
{
    let outcomes = encoded(state, keeper, cmd, reports);
    if reports.len() > 0 {
        let outcome = echoed(state, cmd, reports[0]);
        let (next, next_keeper) = step(state, keeper, outcome);
        let rest = encoded(next, next_keeper, cmd, reports.skip(1));
        lemma_encoder_step(state, keeper, cmd, keeper.last_8_literals, reports[0]);
        assert(next_keeper == keeper);
        assert forall|i: int| 0 <= i < reports.skip(1).len() implies (#[trigger] reports.skip(1)[i]).freq
            >= 0 by {
            assert(reports.skip(1)[i] == reports[i + 1]);
        }
        lemma_count_steps_keep(next, next_keeper, cmd, reports.skip(1));
        assert(outcomes == seq![outcome] + rest);
        assert(outcomes[0] == outcome);
        assert(outcomes.skip(1) =~= rest);
    }
}

/// What an encoder writes is `nibbles_of` its run, whatever the keeper
/// holds and whatever frequencies the entropy coder reports: two encoders
/// of the same run write the same nibbles.
pub proof fn lemma_encoder_writes_nibbles_of(
    keeper: BlockKeeper,
    cmd: LiteralCommand,
    reports: Seq<NibbleOutcome>,
)
    requires
        1 <= cmd.data@.len() <= MAX_CODED_LENGTH,
        reports.len() == coded_nibbles(cmd.data@.len()),
        forall|i: int| 0 <= i < reports.len() ==> (#[trigger] reports[i]).freq >= 0,
    ensures
        nibbles_of(cmd.data@).len() == coded_nibbles(cmd.data@.len()),
        encoded(start(), keeper, cmd, reports).len() == coded_nibbles(cmd.data@.len()),
        forall|i: int|
            0 <= i < coded_nibbles(cmd.data@.len()) ==> (#[trigger] encoded(
                start(),
                keeper,
                cmd,
                reports,
            )[i]).symbol == nibbles_of(cmd.data@)[i],
{
    lemma_encoder_run(start(), keeper, cmd, keeper.last_8_literals, reports);
    assert(length_nibbles(cmd.data@.len()).len() == count_nibbles(cmd.data@.len()));
}

/// Coding a run and reading it back gives the run. Let an encoder code
/// `cmd`, whose run is not empty and not longer than `MAX_CODED_LENGTH`,
/// from the keeper `keeper`, and let the entropy coder report any
/// frequencies that are not negative. The encoder then writes
/// `coded_nibbles` nibbles, and whoever takes these outcomes in from the
/// same keeper, with no command at hand, ends with the bytes of the run
/// in its buffer, the length of the run as `last_llen` and the bytes of
/// the run at the end of its window. `run` looks at no command: it is the
/// decoder as much as the encoder, so both end with the same state and
/// the same keeper, weights included.
pub proof fn lemma_round_trip(keeper: BlockKeeper, cmd: LiteralCommand, reports: Seq<NibbleOutcome>)
    requires
        1 <= cmd.data@.len() <= MAX_CODED_LENGTH,
        reports.len() == coded_nibbles(cmd.data@.len()),
        forall|i: int| 0 <= i < reports.len() ==> (#[trigger] reports[i]).freq >= 0,
    ensures
        encoded(start(), keeper, cmd, reports).len() == coded_nibbles(cmd.data@.len()),
        forall|i: int|
            0 <= i < reports.len() ==> (#[trigger] encoded(start(), keeper, cmd, reports)[i]).wf(),
        run(start(), keeper, encoded(start(), keeper, cmd, reports)).0.state
            == LiteralSubstate::FullyDecoded,
        run(start(), keeper, encoded(start(), keeper, cmd, reports)).0.data == cmd.data@,
        run(start(), keeper, encoded(start(), keeper, cmd, reports)).1.last_llen
            == cmd.data@.len(),
        run(start(), keeper, encoded(start(), keeper, cmd, reports)).1.last_8_literals
            == pushed_all(keeper.last_8_literals, cmd.data@),
{
    lemma_encoder_run(start(), keeper, cmd, keeper.last_8_literals, reports);
    let end = run(start(), keeper, encoded(start(), keeper, cmd, reports)).0;
    assert(remaining(end, cmd.data@.len()) == 0);
    if cmd.data@.len() >= 16 {
        lemma_lllen_bounds(cmd.data@.len());
    }
}

} // verus!
