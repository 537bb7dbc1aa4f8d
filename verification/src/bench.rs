//! The encoder benchmark: a box moves over the screen, every frame is encoded, and
//! the stream that came out is decoded again.
use crate::annexb;
use crate::annexb::nal_units;
use crate::bytes;
use crate::codec;
use crate::codec::{decode_unit, open_decoder, size, Planes};
use crate::encoder::{EncodeCall, VideoEncoder};
use crate::error::EncodeError;
use crate::picture::BgraFrame;
use openh264::decoder::Decoder;
use std::time::{Duration, Instant};
use vstd::prelude::*;
use vstd::string::StringExecFns;

verus! {

/// Pixels in a row of the screen.
pub const WIDTH: u32 = 1920;

/// Rows of the screen.
pub const HEIGHT: u32 = 1080;

/// Frames in a second.
pub const FPS: u32 = 30;

/// Frames that are encoded.
pub const FRAME_COUNT: usize = 300;

/// The side of the box.
pub const BOX_SIZE: usize = 96;

// ---------------------------------------------------------------------------
// Drawing.
// ---------------------------------------------------------------------------

/// The pixel lies in this row of a box whose left edge is at `x`.
pub open spec fn in_row(pixel: int, row: int, x: int, size: int) -> bool {
    row * WIDTH + x <= pixel < row * WIDTH + x + size
}

/// The pixel lies in the first `rows` rows of a box whose corner is at `x`, `y`.
pub open spec fn in_rows(pixel: int, x: int, y: int, size: int, rows: int) -> bool {
    exists|row: int| y <= row < y + rows && #[trigger] in_row(pixel, row, x, size)
}

/// A screen with a box drawn on it.
pub open spec fn with_box(
    bgra: Seq<u8>,
    x: int,
    y: int,
    size: int,
    colour: Seq<u8>,
) -> Seq<u8> {
    Seq::new(
        bgra.len(),
        |i: int|
            if in_rows(i / 4, x, y, size, size) {
                colour[i % 4]
            } else {
                bgra[i]
            },
    )
}

/// The box lies inside so many bytes.
pub open spec fn box_fits(length: nat, x: int, y: int, size: int) -> bool {
    size > 0 ==> ((y + size - 1) * WIDTH + x + size) * 4 <= length
}

/// Draws a box.
pub fn fill_rect(bgra: &mut [u8], x: usize, y: usize, size: usize, color: [u8; 4])
    requires
        box_fits(old(bgra)@.len(), x as int, y as int, size as int),
        y + size <= usize::MAX,
    ensures
        final(bgra)@ == with_box(old(bgra)@, x as int, y as int, size as int, color@),
{
    let ghost before = bgra@;
    let length: usize = bgra.len();
    let mut rows: usize = 0;
    while rows < size
        invariant
            rows <= size,
            box_fits(before.len(), x as int, y as int, size as int),
            y + size <= usize::MAX,
            length == before.len(),
            before == old(bgra)@,
            bgra@.len() == before.len(),
            forall|i: int|
                0 <= i < before.len() ==> #[trigger] bgra@[i] == (if in_rows(
                    i / 4,
                    x as int,
                    y as int,
                    size as int,
                    rows as int,
                ) {
                    color@[i % 4]
                } else {
                    before[i]
                }),
        decreases size - rows,
    {
        let row: usize = y + rows;
        let ghost above = bgra@;
        let mut columns: usize = 0;
        while columns < size
            invariant
                columns <= size,
                rows < size,
                row == y + rows,
                y + size <= usize::MAX,
                box_fits(before.len(), x as int, y as int, size as int),
                length == before.len(),
                above.len() == before.len(),
                bgra@.len() == before.len(),
                forall|i: int|
                    0 <= i < before.len() ==> #[trigger] bgra@[i] == (if in_row(
                        i / 4,
                        row as int,
                        x as int,
                        columns as int,
                    ) {
                        color@[i % 4]
                    } else {
                        above[i]
                    }),
            decreases size - columns,
        {
            assert(row * WIDTH <= (y + size - 1) * WIDTH);
            let pixel: usize = (row * WIDTH as usize + x + columns) * 4;
            bgra[pixel] = color[0];
            bgra[pixel + 1] = color[1];
            bgra[pixel + 2] = color[2];
            bgra[pixel + 3] = color[3];
            columns += 1;
        }
        proof {
            let x = x as int;
            let y = y as int;
            let size = size as int;
            let done = rows as int;
            assert forall|i: int| 0 <= i < before.len() implies #[trigger] bgra@[i] == (if in_rows(
                i / 4,
                x,
                y,
                size,
                done + 1,
            ) {
                color@[i % 4]
            } else {
                before[i]
            }) by {
                let pixel = i / 4;
                if in_row(pixel, row as int, x, size) {
                    assert(in_rows(pixel, x, y, size, done + 1));
                } else if in_rows(pixel, x, y, size, done) {
                    let other = choose|other: int|
                        y <= other < y + done && #[trigger] in_row(pixel, other, x, size);
                    assert(in_row(pixel, other, x, size));
                    assert(in_rows(pixel, x, y, size, done + 1));
                } else if in_rows(pixel, x, y, size, done + 1) {
                    let other = choose|other: int|
                        y <= other < y + done + 1 && #[trigger] in_row(pixel, other, x, size);
                    assert(in_row(pixel, other, x, size));
                }
                assert(bgra@[i] == if in_row(pixel, row as int, x, size) {
                    color@[i % 4]
                } else {
                    above[i]
                });
            }
        }
        rows += 1;
    }
    assert(bgra@ =~= with_box(before, x as int, y as int, size as int, color@));
}

/// The column of the box in a frame.
pub open spec fn box_x(frame: int) -> int {
    frame * 11 % (WIDTH - BOX_SIZE)
}

/// The row of the box in a frame.
pub open spec fn box_y(frame: int) -> int {
    frame * 7 % (HEIGHT - BOX_SIZE)
}

/// The colour of the screen without the box.
pub open spec fn background() -> Seq<u8> {
    seq![24u8, 18u8, 12u8, 255u8]
}

/// The colour of the box in a frame.
pub open spec fn box_colour(frame: int) -> Seq<u8> {
    seq![
        (frame % 256 * 17 % 256) as u8,
        (frame % 256 * 29 % 256) as u8,
        (frame % 256 * 43 % 256) as u8,
        255u8,
    ]
}

/// The frame before this one; the first has none and stands for itself.
pub open spec fn previous(frame: int) -> int {
    if frame > 0 {
        frame - 1
    } else {
        0
    }
}

/// A screen on which the box has moved to where it is in a frame. Its first byte
/// counts the frames.
pub open spec fn moved(bgra: Seq<u8>, frame: int) -> Seq<u8> {
    let cleared = with_box(
        bgra,
        box_x(previous(frame)),
        box_y(previous(frame)),
        BOX_SIZE as int,
        background(),
    );
    with_box(
        cleared,
        box_x(frame),
        box_y(frame),
        BOX_SIZE as int,
        box_colour(frame),
    ).update(0, (frame % 256) as u8)
}

/// So many bytes hold the box where it is in a frame.
pub open spec fn holds_box(length: nat, frame: int) -> bool {
    box_fits(length, box_x(frame), box_y(frame), BOX_SIZE as int)
}

/// The box never leaves the screen: it fits a screen of the benchmark's size in
/// every frame, and no row of it runs over the right edge.
pub proof fn law_box_stays_on_screen(frame: int)
    requires
        frame >= 0,
    ensures
        holds_box((WIDTH * HEIGHT * 4) as nat, frame),
        0 <= box_x(frame) < WIDTH - BOX_SIZE,
        0 <= box_y(frame) < HEIGHT - BOX_SIZE,
{
}

/// Moves the box to where it is in a frame.
pub fn draw_moving_frame(bgra: &mut [u8], frame_index: usize)
    requires
        frame_index * 11 <= usize::MAX,
        holds_box(old(bgra)@.len(), frame_index as int),
        holds_box(old(bgra)@.len(), previous(frame_index as int)),
    ensures
        final(bgra)@ == moved(old(bgra)@, frame_index as int),
{
    let width: usize = WIDTH as usize - BOX_SIZE;
    let height: usize = HEIGHT as usize - BOX_SIZE;
    let before: usize = frame_index.saturating_sub(1);
    let x: usize = frame_index * 11 % width;
    let y: usize = frame_index * 7 % height;
    let previous_x: usize = before * 11 % width;
    let previous_y: usize = before * 7 % height;
    proof {
        law_box_stays_on_screen(frame_index as int);
        law_box_stays_on_screen(before as int);
    }
    fill_rect(bgra, previous_x, previous_y, BOX_SIZE, [24, 18, 12, 255]);
    let count: u8 = (frame_index % 256) as u8;
    let colour: [u8; 4] = [
        count.wrapping_mul(17),
        count.wrapping_mul(29),
        count.wrapping_mul(43),
        255,
    ];
    fill_rect(bgra, x, y, BOX_SIZE, colour);
    assert([24u8, 18u8, 12u8, 255u8]@ =~= background());
    assert(colour@ =~= box_colour(frame_index as int));
    bgra[0] = count;
}

// ---------------------------------------------------------------------------
// Encoding.
// ---------------------------------------------------------------------------

/// A point in time, as `std` takes it from a clock of the machine.
#[verifier::external_type_specification]
#[verifier::external_body]
pub struct ExInstant(std::time::Instant);

/// Reads the clock, through `Instant::now`. Nothing is believed of the time.
#[verifier::external_body]
fn now() -> (instant: Instant) {
    Instant::now()
}

/// The time since then, through `Instant::elapsed`. Nothing is believed of it.
#[verifier::external_body]
fn elapsed(since: &Instant) -> (time: Duration) {
    since.elapsed()
}

/// The screen at the beginning, without the box.
pub open spec fn empty_screen() -> Seq<u8> {
    Seq::new((WIDTH * HEIGHT * 4) as nat, |i: int| background()[i % 4])
}

/// The screen in a frame.
pub open spec fn screen(frame: nat) -> Seq<u8>
    decreases frame,
{
    moved(
        if frame == 0 {
            empty_screen()
        } else {
            screen((frame - 1) as nat)
        },
        frame as int,
    )
}

/// The box lies on a byte of the screen in a frame.
pub open spec fn under_box(frame: int, i: int) -> bool {
    in_rows(i / 4, box_x(frame), box_y(frame), BOX_SIZE as int, BOX_SIZE as int)
}

/// The box leaves no trail: in every frame the screen shows the box where it is and
/// the background everywhere else. Only the first byte differs: it counts the frames.
pub proof fn law_box_leaves_no_trail(frame: nat, i: int)
    requires
        0 <= i < WIDTH * HEIGHT * 4,
    ensures
        screen(frame).len() == WIDTH * HEIGHT * 4,
        screen(frame)[i] == if i == 0 {
            (frame as int % 256) as u8
        } else if under_box(frame as int, i) {
            box_colour(frame as int)[i % 4]
        } else {
            background()[i % 4]
        },
    decreases frame,
{
    if frame > 0 {
        law_box_leaves_no_trail((frame - 1) as nat, i);
    }
}

/// The time of a frame in milliseconds.
pub open spec fn frame_time(frame: int) -> int {
    frame * 1000 / FPS as int
}

/// The encoder was handed the frames of the benchmark from the first on, in order.
pub open spec fn frames_in_order(calls: Seq<EncodeCall>) -> bool {
    forall|k: int|
        0 <= k < calls.len() ==> {
            &&& (#[trigger] calls[k]).width == WIDTH
            &&& calls[k].height == HEIGHT
            &&& calls[k].data == screen(k as nat)
            &&& calls[k].timestamp_ms == frame_time(k)
        }
}

/// All of the calls gave a part of the stream.
pub open spec fn all_emitted(calls: Seq<EncodeCall>) -> bool {
    forall|k: int| 0 <= k < calls.len() ==> (#[trigger] calls[k]).emitted is Ok
}

/// The stream that some calls gave.
pub open spec fn stream_of(calls: Seq<EncodeCall>) -> Seq<u8>
    decreases calls.len(),
{
    if calls.len() == 0 {
        Seq::empty()
    } else {
        stream_of(calls.drop_last()) + calls.last().emitted->Ok_0
    }
}

/// How many of the calls gave something of the stream.
pub open spec fn frames_of(calls: Seq<EncodeCall>) -> nat
    decreases calls.len(),
{
    if calls.len() == 0 {
        0
    } else {
        frames_of(calls.drop_last()) + if calls.last().emitted->Ok_0.len() > 0 {
            1nat
        } else {
            0nat
        }
    }
}

/// What the encoder gave for the benchmark's frames.
#[derive(Debug)]
pub struct Recording {
    /// The stream.
    pub bitstream: Vec<u8>,
    /// How many frames gave something of the stream.
    pub frames_encoded: usize,
    /// How long each frame took.
    pub durations: Vec<Duration>,
}

impl Recording {
    /// Adds what the encoder gave for a frame, and how long it took.
    pub fn add(&mut self, part: Vec<u8>, took: Duration)
        requires
            part@.len() > 0 ==> old(self).frames_encoded < usize::MAX,
        ensures
            final(self).bitstream@ == old(self).bitstream@ + part@,
            final(self).frames_encoded == old(self).frames_encoded + if part@.len() > 0 {
                1int
            } else {
                0int
            },
            final(self).durations@ == old(self).durations@.push(took),
    {
        self.durations.push(took);
        if part.len() > 0 {
            self.frames_encoded += 1;
        }
        bytes::append(&mut self.bitstream, part.as_slice());
    }
}

/// The encoder takes all frames of the benchmark.
pub open spec fn takes_frames<E: VideoEncoder>() -> bool {
    forall|frame: int|
        0 <= frame < FRAME_COUNT ==> #[trigger] E::accepts(
            WIDTH,
            HEIGHT,
            frame_time(frame) as u64,
        )
}

/// What an encoder was handed and what was recorded of it: all frames, or those up
/// to the first that it failed on.
pub open spec fn recorded(
    calls: Seq<EncodeCall>,
    recording: Result<Recording, EncodeError>,
) -> bool {
    &&& frames_in_order(calls)
    &&& match recording {
        Ok(recording) => {
            &&& calls.len() == FRAME_COUNT
            &&& all_emitted(calls)
            &&& recording.bitstream@ == stream_of(calls)
            &&& recording.frames_encoded == frames_of(calls)
            &&& recording.durations@.len() == FRAME_COUNT
        },
        Err(error) => {
            &&& 0 < calls.len() <= FRAME_COUNT
            &&& all_emitted(calls.drop_last())
            &&& calls.last().emitted == Err::<Seq<u8>, EncodeError>(error)
        },
    }
}

/// A screen in the background's colour.
fn draw_background() -> (bgra: Vec<u8>)
    ensures
        bgra@ == empty_screen(),
{
    let size: usize = WIDTH as usize * HEIGHT as usize * 4;
    let mut bgra: Vec<u8> = Vec::with_capacity(size);
    let colour: [u8; 4] = [24, 18, 12, 255];
    let mut i: usize = 0;
    while i < size
        invariant
            i <= size,
            size == WIDTH * HEIGHT * 4,
            colour@ == background(),
            bgra@.len() == i,
            forall|k: int| 0 <= k < i ==> #[trigger] bgra@[k] == background()[k % 4],
        decreases size - i,
    {
        bgra.push(colour[i % 4]);
        i += 1;
    }
    assert(bgra@ =~= empty_screen());
    bgra
}

/// Hands all frames to an encoder and records what it gives. Stops at the first
/// error.
pub fn record<E: VideoEncoder>(encoder: &mut E) -> (recording: Result<Recording, EncodeError>)
    requires
        takes_frames::<E>(),
    ensures
        exists|calls: Seq<EncodeCall>|
            {
                &&& final(encoder).calls() == old(encoder).calls() + calls
                &&& #[trigger] recorded(calls, recording)
            },
{
    let mut bgra = draw_background();
    let mut recording = Recording {
        bitstream: Vec::new(),
        frames_encoded: 0,
        durations: Vec::with_capacity(FRAME_COUNT),
    };
    let mut failure: Option<EncodeError> = None;
    let mut frame_index: usize = 0;
    let ghost mut calls: Seq<EncodeCall> = Seq::empty();
    assert(old(encoder).calls() + calls =~= old(encoder).calls());
    while frame_index < FRAME_COUNT && failure.is_none()
        invariant
            frame_index <= FRAME_COUNT,
            takes_frames::<E>(),
            encoder.calls() == old(encoder).calls() + calls,
            calls.len() == frame_index,
            frames_in_order(calls),
            bgra@.len() == WIDTH * HEIGHT * 4,
            bgra@ == if frame_index == 0 {
                empty_screen()
            } else {
                screen((frame_index - 1) as nat)
            },
            failure is Some ==> {
                &&& calls.len() > 0
                &&& all_emitted(calls.drop_last())
                &&& calls.last().emitted == Err::<Seq<u8>, EncodeError>(failure->Some_0)
            },
            failure is None ==> {
                &&& all_emitted(calls)
                &&& recording.bitstream@ == stream_of(calls)
                &&& recording.frames_encoded == frames_of(calls)
                &&& recording.frames_encoded <= frame_index
                &&& recording.durations@.len() == frame_index
            },
        decreases FRAME_COUNT - frame_index,
    {
        proof {
            law_box_stays_on_screen(frame_index as int);
            law_box_stays_on_screen(previous(frame_index as int));
            assert(E::accepts(WIDTH, HEIGHT, frame_time(frame_index as int) as u64));
        }
        draw_moving_frame(bgra.as_mut_slice(), frame_index);
        assert(bgra@ == screen(frame_index as nat));
        let time: u64 = frame_index as u64 * 1000 / FPS as u64;
        let frame = BgraFrame { width: WIDTH, height: HEIGHT, data: bgra.as_slice() };
        let start = now();
        let encoded = encoder.encode(frame, time);
        let ghost call = crate::encoder::encode_call(frame, time, encoded);
        proof {
            let longer = calls.push(call);
            assert((old(encoder).calls() + calls).push(call) =~= old(encoder).calls() + longer);
            assert(longer.drop_last() =~= calls);
            calls = longer;
        }
        match encoded {
            Ok(part) => {
                recording.add(part, elapsed(&start));
            },
            Err(error) => {
                failure = Some(error);
            },
        }
        frame_index += 1;
    }
    match failure {
        Some(error) => {
            let recorded_frames = Err(error);
            assert(recorded(calls, recorded_frames));
            recorded_frames
        },
        None => {
            let recorded_frames = Ok(recording);
            assert(recorded(calls, recorded_frames));
            recorded_frames
        },
    }
}

// ---------------------------------------------------------------------------
// Decoding.
// ---------------------------------------------------------------------------

/// What the size that came of a unit decides: a picture of the benchmark's size ends
/// the search, and so does an error; anything else does not.
pub open spec fn verdict_on(size: Result<Option<(usize, usize)>, openh264::Error>) -> Option<
    Result<bool, openh264::Error>,
> {
    match size {
        Ok(Some(size)) => if size.0 == WIDTH && size.1 == HEIGHT {
            Some(Ok(true))
        } else {
            None
        },
        Ok(None) => None,
        Err(error) => Some(Err(error)),
    }
}

/// Weighs the size that came of a unit.
pub fn weighed(size: Result<Option<(usize, usize)>, openh264::Error>) -> (verdict: Option<
    Result<bool, openh264::Error>,
>)
    ensures
        verdict == verdict_on(size),
{
    match size {
        Ok(Some((width, height))) => if width == WIDTH as usize && height == HEIGHT as usize {
            Some(Ok(true))
        } else {
            None
        },
        Ok(None) => None,
        Err(error) => Some(Err(error)),
    }
}

/// What a call of the decoder decides.
pub open spec fn decision(outcome: Result<Option<Planes>, openh264::Error>) -> Option<
    Result<bool, openh264::Error>,
> {
    verdict_on(codec::size_in(outcome))
}

/// The units were decoded in order, up to the first that decided. What it decided was
/// found; where none did, nothing was.
pub open spec fn examined(
    calls: Seq<(Seq<u8>, Result<Option<Planes>, openh264::Error>)>,
    units: Seq<Seq<u8>>,
    found: Result<bool, openh264::Error>,
) -> bool {
    &&& calls.len() <= units.len()
    &&& forall|k: int| 0 <= k < calls.len() ==> (#[trigger] calls[k]).0 == units[k]
    &&& forall|k: int| 0 <= k < calls.len() - 1 ==> decision((#[trigger] calls[k]).1) is None
    &&& if calls.len() > 0 && decision(calls.last().1) is Some {
        decision(calls.last().1) == Some(found)
    } else {
        calls.len() == units.len() && found == Ok::<bool, openh264::Error>(false)
    }
}

/// Decodes a stream until a picture of the benchmark's size comes out of it.
pub fn examine(decoder: &mut Decoder, bitstream: &[u8]) -> (found: Result<bool, openh264::Error>)
    ensures
        exists|calls: Seq<(Seq<u8>, Result<Option<Planes>, openh264::Error>)>|
            codec::decoder_calls(*final(decoder)) == codec::decoder_calls(*old(decoder)) + calls
                && #[trigger] examined(calls, annexb::units_from(bitstream@, 0), found),
{
    let units = nal_units(bitstream);
    let ghost split = annexb::units_from(bitstream@, 0);
    let ghost before = codec::decoder_calls(*decoder);
    let ghost mut calls: Seq<(Seq<u8>, Result<Option<Planes>, openh264::Error>)> = Seq::empty();
    assert(before + calls =~= before);
    let mut verdict: Option<Result<bool, openh264::Error>> = None;
    let mut i: usize = 0;
    while i < units.len() && verdict.is_none()
        invariant
            i <= units@.len(),
            units.deep_view() == split,
            before == codec::decoder_calls(*old(decoder)),
            codec::decoder_calls(*decoder) == before + calls,
            calls.len() == i,
            forall|k: int| 0 <= k < calls.len() ==> (#[trigger] calls[k]).0 == split[k],
            forall|k: int| 0 <= k < calls.len() - 1 ==> decision((#[trigger] calls[k]).1) is None,
            calls.len() > 0 ==> verdict == decision(calls.last().1),
            calls.len() == 0 ==> verdict is None,
        decreases units.len() - i,
    {
        assert(units.deep_view()[i as int] == units@[i as int]@);
        let decoded = decode_unit(decoder, units[i].as_slice());
        let ghost call = (units@[i as int]@, codec::planes_of(decoded));
        verdict = weighed(size(decoded));
        proof {
            let longer = calls.push(call);
            assert((before + calls).push(call) =~= before + longer);
            calls = longer;
        }
        i += 1;
    }
    assert(units.deep_view().len() == units@.len());
    let found = match verdict {
        Some(found) => found,
        None => Ok(false),
    };
    assert(examined(calls, split, found));
    found
}

/// The decoder `decoder` became `used` when the units of a stream were handed to it,
/// and this was found.
pub open spec fn decided(
    decoder: Decoder,
    used: Decoder,
    bitstream: Seq<u8>,
    found: Result<bool, openh264::Error>,
) -> bool {
    exists|calls: Seq<(Seq<u8>, Result<Option<Planes>, openh264::Error>)>|
        codec::decoder_calls(used) == codec::decoder_calls(decoder) + calls && #[trigger] examined(
            calls,
            annexb::units_from(bitstream, 0),
            found,
        )
}

/// What is found in a stream, given what came of opening a decoder: the codec's error
/// where there is none, else what that decoder finds.
pub open spec fn found_by(
    opened: Result<Decoder, openh264::Error>,
    bitstream: Seq<u8>,
    found: Result<bool, openh264::Error>,
) -> bool {
    match opened {
        Ok(decoder) => exists|used: Decoder| #[trigger]
            decided(decoder, used, bitstream, found),
        Err(error) => found == Err::<bool, openh264::Error>(error),
    }
}

/// The decoder, if it could be opened, has decoded nothing yet.
pub open spec fn fresh(opened: Result<Decoder, openh264::Error>) -> bool {
    opened matches Ok(decoder) ==> codec::decoder_calls(decoder).len() == 0
}

/// This was found in a stream by a fresh decoder, or is the error of opening one.
pub open spec fn decoded_freshly(
    bitstream: Seq<u8>,
    found: Result<bool, openh264::Error>,
) -> bool {
    exists|opened: Result<Decoder, openh264::Error>|
        fresh(opened) && #[trigger] found_by(opened, bitstream, found)
}

/// Whether a fresh decoder gets a picture of the benchmark's size out of a stream.
/// Fails where no decoder can be opened, and where it fails on the stream.
pub fn verify_decode(bitstream: &[u8]) -> (found: Result<bool, openh264::Error>)
    ensures
        decoded_freshly(bitstream@, found),
{
    verify_with(open_decoder(), bitstream)
}

/// Whether a decoder gets a picture of the benchmark's size out of a stream, given
/// what came of opening the decoder.
pub fn verify_with(opened: Result<Decoder, openh264::Error>, bitstream: &[u8]) -> (found: Result<
    bool,
    openh264::Error,
>)
    ensures
        found_by(opened, bitstream@, found),
{
    match opened {
        Ok(decoder) => {
            let ghost before = decoder;
            let mut decoder = decoder;
            let found = examine(&mut decoder, bitstream);
            assert(decided(before, decoder, bitstream@, found));
            found
        },
        Err(error) => Err(error),
    }
}

// ---------------------------------------------------------------------------
// The run.
// ---------------------------------------------------------------------------

/// The result of a run.
#[derive(Debug)]
pub struct BenchRun {
    /// What was measured.
    pub path: &'static str,
    /// How many frames gave something of the stream.
    pub frames_encoded: usize,
    /// A decoder got a picture out of the stream.
    pub decode_verified: bool,
    /// How long each frame took.
    pub durations: Vec<Duration>,
}

/// Why a run gave no result.
#[derive(Debug)]
pub enum BenchError {
    /// The encoder failed on a frame.
    Encode(EncodeError),
    /// The decoder failed on the stream.
    Decode(openh264::Error),
    /// The stream held no picture of the right size, on this path.
    NotDecoded(&'static str),
}

impl BenchError {
    /// The error as a message. An error of the codec is told in the codec's own
    /// words.
    pub fn message(&self) -> (text: String)
        ensures
            match *self {
                BenchError::Encode(error) => error.told_as(text),
                BenchError::Decode(error) => vstd::string::to_string_from_display_ensures::<
                    openh264::Error,
                >(&error, text),
                BenchError::NotDecoded(path) => text@ == path@
                    + " encoder output did not decode at 1920x1080"@,
            },
    {
        match self {
            BenchError::Encode(error) => error.message(),
            BenchError::Decode(error) => error.to_string(),
            BenchError::NotDecoded(path) => {
                let mut text = (*path).to_string();
                text.append(" encoder output did not decode at 1920x1080");
                text
            },
        }
    }
}

/// The result of a run, from what was recorded and what the decoder said of it.
pub open spec fn run_result(
    path: &'static str,
    recording: Result<Recording, EncodeError>,
    found: Result<bool, openh264::Error>,
    run: Result<BenchRun, BenchError>,
) -> bool {
    match recording {
        Err(error) => run == Err::<BenchRun, BenchError>(BenchError::Encode(error)),
        Ok(recording) => match found {
            Err(error) => run == Err::<BenchRun, BenchError>(BenchError::Decode(error)),
            Ok(found) => if found {
                run == Ok::<BenchRun, BenchError>(
                    BenchRun {
                        path,
                        frames_encoded: recording.frames_encoded,
                        decode_verified: true,
                        durations: recording.durations,
                    },
                )
            } else {
                run == Err::<BenchRun, BenchError>(BenchError::NotDecoded(path))
            },
        },
    }
}

/// Makes the result of a run out of what was recorded and what the decoder said of
/// it. Where the encoder failed, what a decoder said does not count.
pub fn finish(
    path: &'static str,
    recording: Result<Recording, EncodeError>,
    found: Result<bool, openh264::Error>,
) -> (run: Result<BenchRun, BenchError>)
    ensures
        run_result(path, recording, found, run),
{
    match recording {
        Err(error) => Err(BenchError::Encode(error)),
        Ok(recording) => match found {
            Err(error) => Err(BenchError::Decode(error)),
            Ok(found) => if found {
                Ok(
                    BenchRun {
                        path,
                        frames_encoded: recording.frames_encoded,
                        decode_verified: found,
                        durations: recording.durations,
                    },
                )
            } else {
                Err(BenchError::NotDecoded(path))
            },
        },
    }
}

/// A run: the encoder was handed its frames by these calls and no others, and the
/// stream that it gave was decoded.
pub open spec fn benched(
    path: &'static str,
    calls: Seq<EncodeCall>,
    run: Result<BenchRun, BenchError>,
) -> bool {
    exists|recording: Result<Recording, EncodeError>, found: Result<bool, openh264::Error>|
        {
            &&& #[trigger] recorded(calls, recording)
            &&& recording is Ok ==> decoded_freshly(stream_of(calls), found)
            &&& #[trigger] run_result(path, recording, found, run)
        }
}

/// The encoder `encoder` became `used` by some calls.
pub open spec fn called<E: VideoEncoder>(encoder: E, used: E, calls: Seq<EncodeCall>) -> bool {
    used.calls() == encoder.calls() + calls
}

/// Runs the benchmark on an encoder.
pub fn run_encoder<E: VideoEncoder>(path: &'static str, encoder: E) -> (run: Result<
    BenchRun,
    BenchError,
>)
    requires
        takes_frames::<E>(),
    ensures
        exists|used: E, calls: Seq<EncodeCall>|
            #[trigger] called(encoder, used, calls) && benched(path, calls, run),
{
    let ghost before = encoder;
    let mut encoder = encoder;
    let recording = record(&mut encoder);
    let ghost calls = choose|calls: Seq<EncodeCall>|
        {
            &&& encoder.calls() == before.calls() + calls
            &&& #[trigger] recorded(calls, recording)
        };
    let found = match &recording {
        Ok(recording) => verify_decode(recording.bitstream.as_slice()),
        Err(_) => Ok(false),
    };
    let ghost parts = (recording, found);
    let run = finish(path, recording, found);
    proof {
        assert(recorded(calls, parts.0));
        assert(run_result(path, parts.0, parts.1, run));
        assert(called(before, encoder, calls));
    }
    run
}

/// A run that fails on the encoder fails with the error of the encoder's last call,
/// and it is the first that failed. A run that succeeds had three hundred calls that
/// all gave a part of the stream, and its figures are those of these parts.
pub proof fn law_run_tells_of_the_calls(
    path: &'static str,
    calls: Seq<EncodeCall>,
    run: Result<BenchRun, BenchError>,
)
    requires
        benched(path, calls, run),
    ensures
        frames_in_order(calls),
        0 < calls.len() <= FRAME_COUNT,
        all_emitted(calls.drop_last()),
        run matches Err(BenchError::Encode(error)) ==> calls.last().emitted == Err::<
            Seq<u8>,
            EncodeError,
        >(error),
        calls.last().emitted matches Err(error) ==> run == Err::<BenchRun, BenchError>(
            BenchError::Encode(error),
        ),
        !(run matches Err(BenchError::Encode(_))) ==> calls.len() == FRAME_COUNT && all_emitted(
            calls,
        ),
        run matches Err(BenchError::Decode(error)) ==> decoded_freshly(stream_of(calls), Err(error)),
        run matches Err(BenchError::NotDecoded(named)) ==> named == path && decoded_freshly(
            stream_of(calls),
            Ok(false),
        ),
        run matches Ok(run) ==> {
            &&& run.path == path
            &&& run.decode_verified
            &&& run.durations@.len() == FRAME_COUNT
            &&& run.frames_encoded == frames_of(calls)
            &&& 1 <= run.frames_encoded <= FRAME_COUNT
            &&& decoded_freshly(stream_of(calls), Ok(true))
        },
{
    let (recording, found) = choose|
        recording: Result<Recording, EncodeError>,
        found: Result<bool, openh264::Error>,
    |
        {
            &&& #[trigger] recorded(calls, recording)
            &&& recording is Ok ==> decoded_freshly(stream_of(calls), found)
            &&& #[trigger] run_result(path, recording, found, run)
        };
    assert(recorded(calls, recording));
    assert(run_result(path, recording, found, run));
    if recording is Ok {
        assert forall|k: int| 0 <= k < calls.drop_last().len() implies (
        #[trigger] calls.drop_last()[k]).emitted is Ok by {
            assert(calls[k].emitted is Ok);
        }
        assert(calls[calls.len() - 1].emitted is Ok);
        lemma_frames_of(calls);
        if run is Ok {
            assert(found == Ok::<bool, openh264::Error>(true));
            if stream_of(calls).len() == 0 {
                lemma_nothing_is_found(stream_of(calls), found);
            }
        }
    }
}

/// The call gave nothing of the stream.
pub open spec fn gave_nothing(call: EncodeCall) -> bool {
    call.emitted matches Ok(part) && part.len() == 0
}

/// An encoder that answers every frame with nothing gives a stream without a
/// picture: the run ends with that error, or, where no decoder can be opened, with
/// the decoder's.
pub proof fn law_empty_answers_are_not_decoded(
    path: &'static str,
    calls: Seq<EncodeCall>,
    run: Result<BenchRun, BenchError>,
)
    requires
        benched(path, calls, run),
        forall|k: int| 0 <= k < calls.len() ==> gave_nothing(#[trigger] calls[k]),
    ensures
        run == Err::<BenchRun, BenchError>(BenchError::NotDecoded(path)) || run matches Err(
            BenchError::Decode(_),
        ),
{
    law_run_tells_of_the_calls(path, calls, run);
    let (recording, found) = choose|
        recording: Result<Recording, EncodeError>,
        found: Result<bool, openh264::Error>,
    |
        {
            &&& #[trigger] recorded(calls, recording)
            &&& recording is Ok ==> decoded_freshly(stream_of(calls), found)
            &&& #[trigger] run_result(path, recording, found, run)
        };
    assert(recorded(calls, recording));
    assert(run_result(path, recording, found, run));
    assert(gave_nothing(calls[calls.len() - 1]));
    lemma_empty_stream(calls);
    lemma_nothing_is_found(stream_of(calls), found);
}

/// An opened decoder finds nothing in an empty stream, and does not fail on it.
pub proof fn law_empty_stream_holds_no_picture(
    decoder: Decoder,
    bitstream: Seq<u8>,
    found: Result<bool, openh264::Error>,
)
    requires
        bitstream.len() == 0,
        found_by(Ok(decoder), bitstream, found),
    ensures
        found == Ok::<bool, openh264::Error>(false),
{
    assert(annexb::units_from(bitstream, 0).len() == 0);
    let used = choose|used: Decoder| #[trigger]
        decided(decoder, used, bitstream, found);
    assert(decided(decoder, used, bitstream, found));
}

/// Parts without bytes give a stream without bytes.
proof fn lemma_empty_stream(calls: Seq<EncodeCall>)
    requires
        forall|k: int| 0 <= k < calls.len() ==> gave_nothing(#[trigger] calls[k]),
    ensures
        stream_of(calls).len() == 0,
    decreases calls.len(),
{
    if calls.len() > 0 {
        assert forall|k: int| 0 <= k < calls.drop_last().len() implies gave_nothing(
            #[trigger] calls.drop_last()[k],
        ) by {
            assert(gave_nothing(calls[k]));
        }
        lemma_empty_stream(calls.drop_last());
        assert(gave_nothing(calls[calls.len() - 1]));
    }
}

/// At most every call counts as a frame, and none does exactly where the stream is
/// empty.
proof fn lemma_frames_of(calls: Seq<EncodeCall>)
    ensures
        frames_of(calls) <= calls.len(),
        frames_of(calls) == 0 ==> stream_of(calls).len() == 0,
    decreases calls.len(),
{
    if calls.len() > 0 {
        lemma_frames_of(calls.drop_last());
    }
}

/// Nothing is found in an empty stream.
proof fn lemma_nothing_is_found(bitstream: Seq<u8>, found: Result<bool, openh264::Error>)
    requires
        bitstream.len() == 0,
        decoded_freshly(bitstream, found),
    ensures
        found != Ok::<bool, openh264::Error>(true),
{
    let opened = choose|opened: Result<Decoder, openh264::Error>|
        fresh(opened) && #[trigger] found_by(opened, bitstream, found);
    if let Ok(decoder) = opened {
        law_empty_stream_holds_no_picture(decoder, bitstream, found);
    }
}

// ---------------------------------------------------------------------------
// The figures.
// ---------------------------------------------------------------------------

/// The values from the smallest to the largest.
pub open spec fn ascending(values: Seq<u64>) -> bool {
    forall|i: int, j: int| 0 <= i <= j < values.len() ==> values[i] <= values[j]
}

/// The same values, from the smallest to the largest.
pub open spec fn in_order(sorted: Seq<u64>, values: Seq<u64>) -> bool {
    ascending(sorted) && sorted.to_multiset() == values.to_multiset()
}

/// Sorts values through `slice::sort_unstable`. Believed of it: the values are the
/// same, from the smallest to the largest.
#[verifier::external_body]
fn sort(values: &mut Vec<u64>)
    ensures
        in_order(final(values)@, old(values)@),
{
    values.sort_unstable();
}

/// The place of the median in a sorted list.
pub open spec fn median_place(count: int) -> int {
    count / 2
}

/// The place in a sorted list up to which ninety-five of a hundred values stand.
pub open spec fn p95_place(count: int) -> int {
    (count * 95 + 99) / 100 - 1
}

/// The figures that are told of a run, in nanoseconds.
#[derive(Clone, Copy, Debug, PartialEq, Eq, Structural)]
pub struct Ranks {
    /// The median.
    pub median: u64,
    /// The value that ninety-five of a hundred do not exceed.
    pub p95: u64,
}

/// Ranks how long the frames took.
pub fn rank(durations: Vec<u64>) -> (ranks: Ranks)
    requires
        0 < durations@.len(),
        durations@.len() * 95 <= usize::MAX,
    ensures
        exists|sorted: Seq<u64>|
            {
                &&& #[trigger] in_order(sorted, durations@)
                &&& ranks.median == sorted[median_place(durations@.len() as int)]
                &&& ranks.p95 == sorted[p95_place(durations@.len() as int)]
            },
{
    let ghost values = durations@;
    let mut sorted = durations;
    sort(&mut sorted);
    proof {
        broadcast use vstd::seq_lib::group_to_multiset_ensures;

        assert(sorted@.len() == sorted@.to_multiset().len());
        assert(values.len() == values.to_multiset().len());
    }
    let count: usize = sorted.len();
    assert(in_order(sorted@, values));
    let share: usize = count * 95;
    let place: usize = if share % 100 == 0 {
        share / 100 - 1
    } else {
        share / 100
    };
    Ranks { median: sorted[count / 2], p95: sorted[place] }
}

/// The place of the ninety-five percent stands in the list, at least ninety-five of
/// a hundred values stand up to it, and up to no earlier place do as many.
pub proof fn law_p95_place_is_the_first_that_covers(count: int)
    requires
        count > 0,
    ensures
        0 <= p95_place(count) < count,
        (p95_place(count) + 1) * 100 >= count * 95,
        p95_place(count) * 100 < count * 95,
        median_place(count) < count,
{
}

/// The place in the middle has as many values before it as behind it, or one more.
pub proof fn law_median_stands_in_the_middle(count: int)
    requires
        count > 0,
    ensures
        0 <= median_place(count) < count,
        0 <= median_place(count) - (count - 1 - median_place(count)) <= 1,
{
}

/// Values in order are the same values, from the smallest to the largest.
pub proof fn law_order_keeps_the_values(sorted: Seq<u64>, values: Seq<u64>, i: int, j: int)
    requires
        in_order(sorted, values),
        0 <= i <= j < sorted.len(),
    ensures
        sorted[i] <= sorted[j],
        sorted.to_multiset() == values.to_multiset(),
{
}

// ---------------------------------------------------------------------------
// What the run is, pixel by pixel and call by call.
// ---------------------------------------------------------------------------

/// A box covers its square and nothing else, wherever it is and however large: all four
/// bytes of a pixel in it have the box's colour, and every other byte stays.
pub proof fn law_box_covers_its_square(
    bgra: Seq<u8>,
    x: int,
    y: int,
    size: int,
    colour: Seq<u8>,
    column: int,
    row: int,
    byte: int,
)
    requires
        0 <= x,
        0 <= y,
        x + size <= 1920,
        0 <= column < 1920,
        0 <= row,
        0 <= byte < 4,
        (row * 1920 + column) * 4 + byte < bgra.len(),
    ensures
        with_box(bgra, x, y, size, colour).len() == bgra.len(),
        with_box(bgra, x, y, size, colour)[(row * 1920 + column) * 4 + byte] == if x <= column < x
            + size && y <= row < y + size {
            colour[byte]
        } else {
            bgra[(row * 1920 + column) * 4 + byte]
        },
{
    let pixel = row * 1920 + column;
    let i = pixel * 4 + byte;
    assert(i / 4 == pixel && i % 4 == byte);
    if x <= column < x + size && y <= row < y + size {
        assert(in_row(pixel, row, x, size));
    }
    if in_rows(pixel, x, y, size, size) {
        let other = choose|other: int| y <= other < y + size && #[trigger] in_row(
            pixel,
            other,
            x,
            size,
        );
        assert(other == row);
    }
}

/// The box starts in the corner and moves on from frame to frame by eleven columns and
/// seven rows; at the edge it begins again on the other side.
pub proof fn law_box_moves_on(frame: int)
    requires
        frame >= 0,
    ensures
        box_x(0) == 0,
        box_y(0) == 0,
        box_x(frame + 1) == box_x(frame) + 11 || box_x(frame + 1) == box_x(frame) + 11 - 1824,
        box_y(frame + 1) == box_y(frame) + 7 || box_y(frame + 1) == box_y(frame) + 7 - 984,
        0 <= box_x(frame) < 1824,
        0 <= box_y(frame) < 984,
{
    lemma_next_multiple(frame, 11, 1824);
    lemma_next_multiple(frame, 7, 984);
    vstd::arithmetic::div_mod::lemma_mod_bound(frame * 11, 1824);
    vstd::arithmetic::div_mod::lemma_mod_bound(frame * 7, 984);
}

/// The box starts without colour. From frame to frame its blue, green and red grow by
/// seventeen, twenty-nine and forty-three, modulo 256; its alpha is full.
pub proof fn law_box_changes_its_colour(frame: int)
    requires
        frame >= 0,
    ensures
        box_colour(frame).len() == 4,
        forall|i: int| 0 <= i < 3 ==> box_colour(0)[i] == 0,
        box_colour(frame + 1)[0] == (box_colour(frame)[0] + 17) % 256,
        box_colour(frame + 1)[1] == (box_colour(frame)[1] + 29) % 256,
        box_colour(frame + 1)[2] == (box_colour(frame)[2] + 43) % 256,
        box_colour(frame)[3] == 255,
{
    lemma_next_shade(frame, 17);
    lemma_next_shade(frame, 29);
    lemma_next_shade(frame, 43);
}

/// A shade grows by its factor, modulo 256.
proof fn lemma_next_shade(frame: int, factor: int)
    requires
        0 <= frame,
        0 < factor < 256,
    ensures
        0 <= frame % 256 * factor % 256 < 256,
        (frame + 1) % 256 * factor % 256 == (frame % 256 * factor % 256 + factor) % 256,
{
    let counted = frame % 256;
    lemma_next_multiple(counted, factor, 256);
    vstd::arithmetic::div_mod::lemma_mod_bound(counted * factor, 256);
    if counted == 255 {
        assert((frame + 1) % 256 == 0);
        assert(0 * factor == 0) by (nonlinear_arith);
        assert((counted + 1) * factor == 256 * factor);
        assert(256 * factor % 256 == 0);
    } else {
        assert((frame + 1) % 256 == counted + 1);
    }
}

/// A multiple modulo a number grows by the factor, and begins again when it gets there.
proof fn lemma_next_multiple(n: int, factor: int, modulus: int)
    requires
        0 <= n,
        0 < factor < modulus,
    ensures
        (n + 1) * factor % modulus == if n * factor % modulus + factor < modulus {
            n * factor % modulus + factor
        } else {
            n * factor % modulus + factor - modulus
        },
{
    let value = n * factor;
    let quotient = value / modulus;
    let rest = value % modulus;
    vstd::arithmetic::div_mod::lemma_fundamental_div_mod(value, modulus);
    vstd::arithmetic::div_mod::lemma_mod_bound(value, modulus);
    assert((n + 1) * factor == value + factor) by (nonlinear_arith)
        requires
            value == n * factor,
    ;
    assert(modulus * quotient == quotient * modulus) by (nonlinear_arith);
    assert((quotient + 1) * modulus == quotient * modulus + modulus) by (nonlinear_arith);
    if rest + factor < modulus {
        vstd::arithmetic::div_mod::lemma_fundamental_div_mod_converse(
            value + factor,
            modulus,
            quotient,
            rest + factor,
        );
    } else {
        vstd::arithmetic::div_mod::lemma_fundamental_div_mod_converse(
            value + factor,
            modulus,
            quotient + 1,
            rest + factor - modulus,
        );
    }
}

/// Every pixel of every frame is the box's or the background's: the box's where it is in
/// that frame, in a square of ninety-six, and else blue 24, green 18 and red 12. The very
/// first byte counts the frames, modulo 256.
pub proof fn law_screen_shows_the_box_alone(frame: nat, column: int, row: int, byte: int)
    requires
        0 <= column < 1920,
        0 <= row < 1080,
        0 <= byte < 4,
    ensures
        screen(frame).len() == 1920 * 1080 * 4,
        screen(frame)[(row * 1920 + column) * 4 + byte] == if row == 0 && column == 0 && byte == 0 {
            frame as int % 256
        } else if box_x(frame as int) <= column < box_x(frame as int) + 96 && box_y(frame as int)
            <= row < box_y(frame as int) + 96 {
            box_colour(frame as int)[byte] as int
        } else if byte == 0 {
            24
        } else if byte == 1 {
            18
        } else if byte == 2 {
            12
        } else {
            255
        },
{
    let x = box_x(frame as int);
    let y = box_y(frame as int);
    let pixel = row * 1920 + column;
    let i = pixel * 4 + byte;
    law_box_moves_on(frame as int);
    law_box_leaves_no_trail(frame, i);
    assert(i / 4 == pixel && i % 4 == byte);
    if x <= column < x + 96 && y <= row < y + 96 {
        assert(in_row(pixel, row, x, 96));
        assert(under_box(frame as int, i));
    }
    if under_box(frame as int, i) {
        let other = choose|other: int| y <= other < y + 96 && #[trigger] in_row(pixel, other, x, 96);
        assert(other == row);
    }
}

/// Moving the box clears where it was in the frame before, draws it where it is, and
/// counts the frame in the first byte. Every other pixel stays as it was.
pub proof fn law_moving_touches_two_squares(
    bgra: Seq<u8>,
    frame: int,
    column: int,
    row: int,
    byte: int,
)
    requires
        frame >= 0,
        0 <= column < 1920,
        0 <= row,
        0 <= byte < 4,
        (row * 1920 + column) * 4 + byte < bgra.len(),
    ensures
        moved(bgra, frame).len() == bgra.len(),
        ({
            let was: int = if frame > 0 {
                frame - 1
            } else {
                0
            };
            let i = (row * 1920 + column) * 4 + byte;
            moved(bgra, frame)[i] == if i == 0 {
                frame % 256
            } else if box_x(frame) <= column < box_x(frame) + 96 && box_y(frame) <= row < box_y(
                frame,
            ) + 96 {
                box_colour(frame)[byte] as int
            } else if box_x(was) <= column < box_x(was) + 96 && box_y(was) <= row < box_y(was)
                + 96 {
                seq![24int, 18int, 12int, 255int][byte]
            } else {
                bgra[i] as int
            }
        }),
{
    let was: int = if frame > 0 {
        frame - 1
    } else {
        0
    };
    law_box_moves_on(frame);
    law_box_moves_on(was);
    let cleared = with_box(bgra, box_x(was), box_y(was), 96, background());
    law_box_covers_its_square(
        bgra,
        box_x(was),
        box_y(was),
        96,
        background(),
        column,
        row,
        byte,
    );
    law_box_covers_its_square(
        cleared,
        box_x(frame),
        box_y(frame),
        96,
        box_colour(frame),
        column,
        row,
        byte,
    );
}

/// The frames follow each other at thirty in a second: a frame's time is the last whole
/// millisecond up to its thirtieths of a second.
pub proof fn law_frames_come_thirty_a_second(frame: int)
    requires
        frame >= 0,
    ensures
        30 * frame_time(frame) <= 1000 * frame < 30 * frame_time(frame) + 30,
        frame_time(frame + 30) == frame_time(frame) + 1000,
{
}

/// Each call of a recording hands over its frame: the call's place is the frame's number,
/// the screen is the one of that frame, and the size and the time are the benchmark's.
pub proof fn law_calls_hand_over_their_frames(calls: Seq<EncodeCall>, k: int)
    requires
        frames_in_order(calls),
        0 <= k < calls.len(),
    ensures
        calls[k].width == 1920,
        calls[k].height == 1080,
        calls[k].data == screen(k as nat),
        30 * calls[k].timestamp_ms <= 1000 * k < 30 * calls[k].timestamp_ms + 30,
{
    law_frames_come_thirty_a_second(k);
    assert(calls[k].width == WIDTH);
}

/// One more call adds its part behind the stream, and counts as a frame if the part is not
/// empty.
pub proof fn law_each_call_adds_its_part(calls: Seq<EncodeCall>, call: EncodeCall, part: Seq<u8>)
    requires
        call.emitted == Ok::<Seq<u8>, EncodeError>(part),
    ensures
        stream_of(Seq::empty()).len() == 0,
        frames_of(Seq::empty()) == 0,
        stream_of(calls.push(call)) == stream_of(calls) + part,
        part.len() > 0 ==> frames_of(calls.push(call)) == frames_of(calls) + 1,
        part.len() == 0 ==> frames_of(calls.push(call)) == frames_of(calls),
{
    assert(calls.push(call).drop_last() =~= calls);
    assert(calls.push(call).last() == call);
}

/// A recording is of three hundred frames, with the time and the part of each; one that
/// fails ends with the first call that failed, and with its error.
pub proof fn law_recording_holds_every_part(
    calls: Seq<EncodeCall>,
    recording: Result<Recording, EncodeError>,
    k: int,
)
    requires
        recorded(calls, recording),
        0 <= k < calls.len(),
    ensures
        frames_in_order(calls),
        0 < calls.len() <= 300,
        k < calls.len() - 1 || recording is Ok ==> calls[k].emitted is Ok,
        recording matches Ok(recording) ==> {
            &&& calls.len() == 300
            &&& recording.durations@.len() == 300
            &&& recording.bitstream@ == stream_of(calls)
            &&& recording.frames_encoded == frames_of(calls)
        },
        recording matches Err(error) ==> calls.last().emitted == Err::<Seq<u8>, EncodeError>(error),
{
    if recording is Err && k < calls.len() - 1 {
        assert(calls.drop_last()[k].emitted is Ok);
    }
}

/// A picture of 1920 by 1080 ends the search well, an error ends it with that error, and
/// nothing else ends it.
pub proof fn law_only_a_full_picture_counts(
    width: usize,
    height: usize,
    planes: Planes,
    error: openh264::Error,
)
    ensures
        verdict_on(Ok(Some((width, height)))) == if width == 1920 && height == 1080 {
            Some(Ok::<bool, openh264::Error>(true))
        } else {
            None
        },
        verdict_on(Ok(None)) is None,
        verdict_on(Err(error)) == Some(Err::<bool, openh264::Error>(error)),
        decision(Ok(Some(planes))) == if planes.layout.width == 1920 && planes.layout.height
            == 1080 {
            Some(Ok::<bool, openh264::Error>(true))
        } else {
            None
        },
        decision(Ok(None)) is None,
        decision(Err(error)) == Some(Err::<bool, openh264::Error>(error)),
{
}

/// A unit's outcome is neither a picture of 1920 by 1080 nor an error.
pub open spec fn passed_over(outcome: Result<Option<Planes>, openh264::Error>) -> bool {
    match outcome {
        Ok(Some(planes)) => planes.layout.width != 1920 || planes.layout.height != 1080,
        Ok(None) => true,
        Err(_) => false,
    }
}

/// The units are decoded in order until one of them decides: a picture was found exactly
/// where the last unit that was decoded gave one of 1920 by 1080, an error is that of the
/// last one, and nothing was found exactly where all were decoded and none decided.
pub proof fn law_search_ends_with_what_decides(
    calls: Seq<(Seq<u8>, Result<Option<Planes>, openh264::Error>)>,
    units: Seq<Seq<u8>>,
    found: Result<bool, openh264::Error>,
    k: int,
)
    requires
        examined(calls, units, found),
    ensures
        calls.len() <= units.len(),
        0 <= k < calls.len() ==> calls[k].0 == units[k],
        0 <= k < calls.len() - 1 ==> passed_over(calls[k].1),
        match found {
            Ok(true) => calls.len() > 0 && (calls.last().1 matches Ok(Some(planes))
                && planes.layout.width == 1920 && planes.layout.height == 1080),
            Ok(false) => calls.len() == units.len() && (0 <= k < calls.len() ==> passed_over(
                calls[k].1,
            )),
            Err(error) => calls.len() > 0 && calls.last().1 == Err::<
                Option<Planes>,
                openh264::Error,
            >(error),
        },
{
    if 0 <= k < calls.len() {
        assert(calls[k].0 == units[k]);
    }
}

/// What is found with a decoder is found by handing it the units of the stream, behind
/// what it had got before; without a decoder, it is the error of opening one. A fresh
/// decoder has got nothing before.
pub proof fn law_found_by_decoding(
    opened: Result<Decoder, openh264::Error>,
    bitstream: Seq<u8>,
    found: Result<bool, openh264::Error>,
)
    requires
        found_by(opened, bitstream, found),
    ensures
        opened matches Err(error) ==> found == Err::<bool, openh264::Error>(error),
        opened matches Ok(decoder) ==> exists|
            used: Decoder,
            calls: Seq<(Seq<u8>, Result<Option<Planes>, openh264::Error>)>,
        |
            #[trigger] codec::decoder_calls(used) == codec::decoder_calls(decoder) + calls
                && #[trigger] examined(calls, annexb::units_from(bitstream, 0), found),
        fresh(opened) && opened is Ok ==> codec::decoder_calls(opened->Ok_0).len() == 0,
{
    if let Ok(decoder) = opened {
        let used = choose|used: Decoder| #[trigger] decided(decoder, used, bitstream, found);
        assert(decided(decoder, used, bitstream, found));
    }
}

/// The result of a run is made of what was recorded: the encoder's error comes first, then
/// the decoder's, then that nothing was found on this path. Else the run has the figures
/// of the recording.
pub proof fn law_result_is_that_of_the_recording(
    path: &'static str,
    recording: Result<Recording, EncodeError>,
    found: Result<bool, openh264::Error>,
    run: Result<BenchRun, BenchError>,
)
    requires
        run_result(path, recording, found, run),
    ensures
        match run {
            Err(BenchError::Encode(error)) => recording == Err::<Recording, EncodeError>(error),
            Err(BenchError::Decode(error)) => recording is Ok && found == Err::<
                bool,
                openh264::Error,
            >(error),
            Err(BenchError::NotDecoded(named)) => recording is Ok && found == Ok::<
                bool,
                openh264::Error,
            >(false) && named == path,
            Ok(run) => {
                &&& found == Ok::<bool, openh264::Error>(true)
                &&& recording matches Ok(recording)
                &&& run.path == path
                &&& run.decode_verified
                &&& run.frames_encoded == recording.frames_encoded
                &&& run.durations == recording.durations
            },
        },
{
}

/// Wherever a box is drawn, also over the right edge, each of its lines is as long as the
/// box is wide, and begins one row of the screen behind the line above it. What lies on
/// none of its lines stays.
pub proof fn law_box_is_drawn_line_by_line(
    bgra: Seq<u8>,
    x: int,
    y: int,
    size: int,
    colour: Seq<u8>,
    line: int,
    across: int,
    byte: int,
)
    requires
        0 <= line < size,
        0 <= across < size,
        0 <= byte < 4,
        0 <= ((y + line) * 1920 + x + across) * 4,
        ((y + line) * 1920 + x + across) * 4 + byte < bgra.len(),
    ensures
        with_box(bgra, x, y, size, colour)[((y + line) * 1920 + x + across) * 4 + byte]
            == colour[byte],
{
    let pixel = (y + line) * 1920 + x + across;
    let i = pixel * 4 + byte;
    assert(i / 4 == pixel && i % 4 == byte);
    assert(in_row(pixel, y + line, x, size));
}

/// The pixel lies on a line of a box.
pub open spec fn on_line(pixel: int, x: int, y: int, size: int, line: int) -> bool {
    0 <= line < size && (y + line) * 1920 + x <= pixel < (y + line) * 1920 + x + size
}

/// A byte whose pixel lies on no line of a box stays as it was.
pub proof fn law_box_leaves_the_rest(
    bgra: Seq<u8>,
    x: int,
    y: int,
    size: int,
    colour: Seq<u8>,
    i: int,
)
    requires
        0 <= i < bgra.len(),
        forall|line: int| !#[trigger] on_line(i / 4, x, y, size, line),
    ensures
        with_box(bgra, x, y, size, colour)[i] == bgra[i],
{
    if in_rows(i / 4, x, y, size, size) {
        let row = choose|row: int| y <= row < y + size && #[trigger] in_row(i / 4, row, x, size);
        assert(on_line(i / 4, x, y, size, row - y));
    }
}

/// A run adds its calls behind those that the encoder had got before.
pub proof fn law_run_adds_its_calls<E: VideoEncoder>(
    encoder: E,
    used: E,
    calls: Seq<EncodeCall>,
)
    requires
        called(encoder, used, calls),
    ensures
        used.calls().len() == encoder.calls().len() + calls.len(),
        used.calls().take(encoder.calls().len() as int) == encoder.calls(),
        used.calls().skip(encoder.calls().len() as int) == calls,
{
    assert(used.calls().take(encoder.calls().len() as int) =~= encoder.calls());
    assert(used.calls().skip(encoder.calls().len() as int) =~= calls);
}

/// A stream that was decoded freshly was handed, unit by unit, to a decoder that had got
/// nothing before, or no decoder could be opened.
pub proof fn law_fresh_decoding_starts_from_nothing(
    bitstream: Seq<u8>,
    found: Result<bool, openh264::Error>,
)
    requires
        decoded_freshly(bitstream, found),
    ensures
        found is Err || exists|
            used: Decoder,
            calls: Seq<(Seq<u8>, Result<Option<Planes>, openh264::Error>)>,
        |
            #[trigger] codec::decoder_calls(used) == calls && #[trigger] examined(
                calls,
                annexb::units_from(bitstream, 0),
                found,
            ),
{
    let opened = choose|opened: Result<Decoder, openh264::Error>|
        fresh(opened) && #[trigger] found_by(opened, bitstream, found);
    law_found_by_decoding(opened, bitstream, found);
    if let Ok(decoder) = opened {
        let (used, calls) = choose|
            used: Decoder,
            calls: Seq<(Seq<u8>, Result<Option<Planes>, openh264::Error>)>,
        |
            #[trigger] codec::decoder_calls(used) == codec::decoder_calls(decoder) + calls
                && #[trigger] examined(calls, annexb::units_from(bitstream, 0), found);
        assert(codec::decoder_calls(decoder) + calls =~= calls);
        assert(codec::decoder_calls(used) == calls);
        assert(examined(calls, annexb::units_from(bitstream, 0), found));
    }
}

} // verus!
