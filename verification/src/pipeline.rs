use vstd::prelude::*;
use vstd::utf8::encode_utf8;
use crate::config::{set_constants, settings_in, ConfigError, Constants};
use crate::fountain::rows;
use crate::frame::{
    canvas_fits, canvas_size, composited, grids, make_apng, Animation, AnimationView,
    CompositeError,
};
use crate::matrix::{binary_code, binary_code_side, make_qr_codes};
use crate::packet::{
    make_data_packs, outcome_view, packable, packet_count, packet_len, packetized,
    PacketizeError, MAX_PACKET_LEN,
};
use crate::source::{hex_bytes, is_hex, prepare_hex, prepare_text, trimmed, SourceError};

verus! {

/// Why a run gave no animation.
#[derive(Debug, Clone, Copy, PartialEq, Eq)]
pub enum RunError {
    /// The payload could not be read from its text.
    Source(SourceError),
    /// The settings could not be read from their text.
    Config(ConfigError),
    /// The payload did not become packets.
    Packetize(PacketizeError),
    /// The scaling is not positive, or the border is negative.
    InvalidGeometry,
    /// The canvas is too large to be drawn.
    CanvasTooLarge,
    /// The matrices did not become frames.
    Composite(CompositeError),
}

/// The matrix codes of a set of packets, in their order.
pub open spec fn codes_of(packets: Seq<Seq<u8>>) -> Seq<Seq<Seq<bool>>> {
    Seq::new(packets.len(), |i: int| binary_code(packets[i]))
}

/// The animation shown for a set of matrix codes, or the reason why none is.
pub open spec fn composed(codes: Seq<Seq<Seq<bool>>>, c: Constants) -> Result<
    AnimationView,
    RunError,
>
    recommends
        codes.len() > 0,
{
    if c.scaling <= 0 || c.border < 0 {
        Err(RunError::InvalidGeometry)
    } else if !canvas_fits(codes[0].len() as int, c) {
        Err(RunError::CanvasTooLarge)
    } else {
        match composited(codes, c) {
            Ok(animation) => Ok(animation),
            Err(e) => Err(RunError::Composite(e)),
        }
    }
}

/// What a run on a payload and its settings gives.
pub open spec fn animation_of(payload: Seq<u8>, c: Constants) -> Result<AnimationView, RunError> {
    match packetized(payload, c.chunk_size) {
        Err(e) => Err(RunError::Packetize(e)),
        Ok(packets) => composed(codes_of(packets), c),
    }
}

/// The model of the outcome of a run.
pub open spec fn run_view(out: Result<Animation, RunError>) -> Result<AnimationView, RunError> {
    match out {
        Ok(animation) => Ok(animation@),
        Err(e) => Err(e),
    }
}

/// The whole pipeline on a loaded payload: packets, matrix codes, frames.
/// The packets of a payload are of one length, so their codes are of one
/// size, and the run does not end on matrices that disagree.
pub fn run_payload(payload: Vec<u8>, constants: &Constants) -> (out: Result<Animation, RunError>)
    ensures
        run_view(out) == animation_of(payload@, *constants),
        out is Ok ==> packable(payload@.len() as int, constants.chunk_size),
        constants.well_formed() ==> out != Err::<Animation, RunError>(RunError::InvalidGeometry),
        !(out matches Err(RunError::Composite(_))),
        out matches Ok(animation) ==> {
            &&& animation.frames@.len() == packet_count(
                payload@.len() as int,
                constants.chunk_size,
            )
            &&& animation.frame_count == animation.frames@.len()
            &&& animation.height == animation.width
            &&& forall|i: int|
                0 <= i < animation.frames@.len() ==> {
                    &&& (#[trigger] animation.frames@[i]).pixels@.len() == animation.width
                        * animation.height
                    &&& animation.frames@[i].delay_num == constants.fps_nom
                    &&& animation.frames@[i].delay_den == constants.fps_den
                }
        },
{
    let ghost wanted = packetized(payload@, constants.chunk_size);
    let ghost one_len = packet_len(constants.chunk_size);
    let packets = match make_data_packs(payload, constants) {
        Ok(packets) => packets,
        Err(e) => {
            return Err(RunError::Packetize(e));
        },
    };
    let ghost plain = rows(packets@);
    assert(wanted == Ok::<Seq<Seq<u8>>, PacketizeError>(plain));
    assert forall|i: int| 0 <= i < packets@.len() implies (#[trigger] packets@[i])@.len()
        <= MAX_PACKET_LEN by {}
    let ghost lens = Seq::new(packets@.len(), |i: int| packets@[i]@.len());
    let matrices = make_qr_codes(packets);
    let ghost codes = codes_of(plain);
    assert(grids(matrices@) =~= codes);
    assert forall|i: int| 0 <= i < matrices@.len() implies (#[trigger] matrices@[i])@.len()
        == binary_code_side(one_len) by {
        assert(lens[i] == one_len);
    }
    if constants.scaling <= 0 || constants.border < 0 {
        return Err(RunError::InvalidGeometry);
    }
    if canvas_size(matrices[0].size(), constants).is_none() {
        return Err(RunError::CanvasTooLarge);
    }
    match make_apng(matrices, constants) {
        Ok(animation) => Ok(animation),
        Err(e) => Err(RunError::Composite(e)),
    }
}

/// What a run on a payload written in hexadecimal digits gives.
pub open spec fn hex_run_of(contents: Seq<char>, setup: Seq<char>) -> Result<
    AnimationView,
    RunError,
> {
    let digits = encode_utf8(trimmed(contents));
    if !is_hex(digits) {
        Err(RunError::Source(SourceError::InvalidHex))
    } else {
        match settings_in(setup) {
            Err(e) => Err(RunError::Config(e)),
            Ok(c) => animation_of(hex_bytes(digits), c),
        }
    }
}

/// What a run on a payload given as text gives.
pub open spec fn text_run_of(contents: Seq<char>, setup: Seq<char>) -> Result<
    AnimationView,
    RunError,
> {
    match settings_in(setup) {
        Err(e) => Err(RunError::Config(e)),
        Ok(c) => animation_of(encode_utf8(contents), c),
    }
}

/// Runs the pipeline on a payload written in hexadecimal digits, with the
/// settings that the text of a settings file gives.
pub fn run_hex(contents: &str, setup: &str) -> (out: Result<Animation, RunError>)
    ensures
        run_view(out) == hex_run_of(contents@, setup@),
        !(out matches Err(RunError::InvalidGeometry)),
        !(out matches Err(RunError::Composite(_))),
{
    let data = match prepare_hex(contents) {
        Ok(data) => data,
        Err(e) => {
            return Err(RunError::Source(e));
        },
    };
    let constants = match set_constants(setup) {
        Ok(constants) => constants,
        Err(e) => {
            return Err(RunError::Config(e));
        },
    };
    run_payload(data, &constants)
}

/// Runs the pipeline on the bytes of a text, with the settings that the text
/// of a settings file gives.
pub fn run_text(contents: &str, setup: &str) -> (out: Result<Animation, RunError>)
    ensures
        run_view(out) == text_run_of(contents@, setup@),
        !(out matches Err(RunError::InvalidGeometry)),
        !(out matches Err(RunError::Composite(_))),
{
    let data = prepare_text(contents);
    let constants = match set_constants(setup) {
        Ok(constants) => constants,
        Err(e) => {
            return Err(RunError::Config(e));
        },
    };
    run_payload(data, &constants)
}

/// A run is a function of its payload and settings: two outcomes that the
/// pipeline may give for the same payload and settings are the same error,
/// or animations of the same size with the same frames and delays.
pub proof fn rerun_is_identical(
    payload: Seq<u8>,
    c: Constants,
    first: Result<Animation, RunError>,
    second: Result<Animation, RunError>,
)
    requires
        run_view(first) == animation_of(payload, c),
        run_view(second) == animation_of(payload, c),
    ensures
        run_view(first) == run_view(second),
        first is Ok <==> second is Ok,
        first is Ok ==> {
            let a = first->Ok_0;
            let b = second->Ok_0;
            &&& a.width == b.width
            &&& a.height == b.height
            &&& a.frame_count == b.frame_count
            &&& a.frames@.len() == b.frames@.len()
            &&& forall|i: int|
                0 <= i < a.frames@.len() ==> (#[trigger] a.frames@[i])@ == b.frames@[i]@
        },
{
    if first is Ok {
        let a = first->Ok_0;
        let b = second->Ok_0;
        assert(a@ == b@);
        assert(a@.frames.len() == a.frames@.len());
        assert(b@.frames.len() == b.frames@.len());
        assert forall|i: int| 0 <= i < a.frames@.len() implies (#[trigger] a.frames@[i])@
            == b.frames@[i]@ by {
            assert(a@.frames[i] == a.frames@[i]@);
            assert(b@.frames[i] == b.frames@[i]@);
        }
    }
}

/// Packetizing is a function of the payload and the symbol size: two
/// outcomes for the same payload and size are the same error, or the same
/// packets, byte for byte, headers included.
pub proof fn repacketize_is_identical(
    payload: Seq<u8>,
    chunk_size: u16,
    first: Result<Vec<Vec<u8>>, PacketizeError>,
    second: Result<Vec<Vec<u8>>, PacketizeError>,
)
    requires
        outcome_view(first) == packetized(payload, chunk_size),
        outcome_view(second) == packetized(payload, chunk_size),
    ensures
        outcome_view(first) == outcome_view(second),
        first is Ok ==> second is Ok && first->Ok_0@.len() == second->Ok_0@.len() && forall|i: int|
            0 <= i < first->Ok_0@.len() ==> (#[trigger] first->Ok_0@[i])@ == second->Ok_0@[i]@,
{
    if first is Ok {
        let a = first->Ok_0;
        let b = second->Ok_0;
        assert(rows(a@) == rows(b@));
        assert(rows(a@).len() == a@.len());
        assert forall|i: int| 0 <= i < a@.len() implies (#[trigger] a@[i])@ == b@[i]@ by {
            assert(rows(a@)[i] == a@[i]@);
            assert(rows(b@)[i] == b@[i]@);
        }
    }
}

} // verus!
