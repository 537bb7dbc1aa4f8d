//! Encoding in hardware, through a Media Foundation transform.
//!
//! The transform itself is reached through calls of the operating system. This
//! file holds what is decided between those calls: each of them is named by an
//! action, and what came of it is handed back as an event.
use crate::annexb;
use crate::annexb::{contains_parameter_sets, to_annex_b, BitstreamError};
use crate::bytes;
use crate::error::EncodeError;
use crate::picture;
use crate::picture::{bgra_to_nv12, validate_frame, BgraFrame};
use vstd::prelude::*;

verus! {

/// The transform reports that its output type has changed.
pub const MF_E_TRANSFORM_STREAM_CHANGE: u32 = 0xC00D6D61;

/// The transform has nothing to emit before it gets more input.
pub const MF_E_TRANSFORM_NEED_MORE_INPUT: u32 = 0xC00D6D72;

/// No event is waiting.
pub const MF_E_NO_EVENTS_AVAILABLE: u32 = 0xC00D3E80;

/// The event by which a transform asks for a picture.
pub const ME_TRANSFORM_NEED_INPUT: u32 = 601;

/// The event by which a transform announces output.
pub const ME_TRANSFORM_HAVE_OUTPUT: u32 = 602;

/// The flag of a transform that brings its own output buffers.
pub const MFT_OUTPUT_STREAM_PROVIDES_SAMPLES: u32 = 0x100;

/// The bit rate that is asked of the encoder, in bits a second.
pub const AVERAGE_BITRATE: u32 = 8_000_000;

/// The main profile of H.264.
pub const MAIN_PROFILE: u32 = 77;

// ---------------------------------------------------------------------------
// Media types and samples.
// ---------------------------------------------------------------------------

/// Two numbers in one attribute: the first in the upper half.
pub open spec fn packed_ratio(numerator: u32, denominator: u32) -> int {
    numerator * 0x1_0000_0000 + denominator
}

/// Packs two numbers into one attribute.
pub fn pack_ratio(numerator: u32, denominator: u32) -> (packed: u64)
    ensures
        packed == packed_ratio(numerator, denominator),
{
    assert((((numerator as u64) << 32) | denominator as u64) == numerator * 0x1_0000_0000
        + denominator) by (bit_vector);
    ((numerator as u64) << 32) | denominator as u64
}

/// Both numbers can be read back from the attribute.
pub proof fn law_packed_ratio_keeps_both(numerator: u32, denominator: u32)
    ensures
        packed_ratio(numerator, denominator) / 0x1_0000_0000 == numerator,
        packed_ratio(numerator, denominator) % 0x1_0000_0000 == denominator,
        0 <= packed_ratio(numerator, denominator) <= u64::MAX,
{
}

/// The attributes of a video type that depend on the stream.
#[derive(Clone, Copy, Debug, PartialEq, Eq, Structural)]
pub struct VideoType {
    /// Width and height.
    pub frame_size: u64,
    /// Frames in a second, as a fraction.
    pub frame_rate: u64,
    /// Width and height of a pixel.
    pub pixel_aspect_ratio: u64,
}

/// The attributes of a stream of pictures: whole frames in a second, square
/// pixels.
pub open spec fn attributes_of(width: u32, height: u32, fps: u32) -> VideoType {
    VideoType {
        frame_size: packed_ratio(width, height) as u64,
        frame_rate: packed_ratio(fps, 1) as u64,
        pixel_aspect_ratio: packed_ratio(1, 1) as u64,
    }
}

/// The attributes of a stream of pictures.
pub fn video_type(width: u32, height: u32, fps: u32) -> (attributes: VideoType)
    ensures
        attributes == attributes_of(width, height, fps),
{
    VideoType {
        frame_size: pack_ratio(width, height),
        frame_rate: pack_ratio(fps, 1),
        pixel_aspect_ratio: pack_ratio(1, 1),
    }
}

/// A call that is made of a transform while it is activated.
#[derive(Clone, Copy, Debug, PartialEq, Eq, Structural)]
pub enum ActivationCall {
    /// Unlock a transform that sends events.
    UnlockAsync,
    /// Ask for low latency.
    LowLatency,
    /// Set the type of the H.264 output.
    SetOutputType {
        /// What depends on the stream.
        attributes: VideoType,
        /// Bits in a second.
        bitrate: u32,
        /// The profile.
        profile: u32,
    },
    /// Set the type of the NV12 input.
    SetInputType {
        /// What depends on the stream.
        attributes: VideoType,
    },
    /// Ask for the size of an output buffer.
    ReadBufferSize,
    /// Ask for the transform's events.
    ReadEvents,
    /// Read the sequence header of the output type.
    ReadHeader,
    /// Drop what the transform may still hold.
    Flush,
    /// Announce that streaming begins.
    BeginStreaming,
    /// Announce the start of the stream.
    StartStream,
}

/// The calls that activate a transform, in order.
pub open spec fn activation(is_async: bool, attributes: VideoType) -> Seq<ActivationCall> {
    let types = seq![
        ActivationCall::LowLatency,
        ActivationCall::SetOutputType {
            attributes,
            bitrate: AVERAGE_BITRATE,
            profile: MAIN_PROFILE,
        },
        ActivationCall::SetInputType { attributes },
        ActivationCall::ReadBufferSize,
    ];
    let streaming = seq![
        ActivationCall::ReadHeader,
        ActivationCall::Flush,
        ActivationCall::BeginStreaming,
        ActivationCall::StartStream,
    ];
    if is_async {
        seq![ActivationCall::UnlockAsync] + types + seq![ActivationCall::ReadEvents] + streaming
    } else {
        types + streaming
    }
}

/// Whether a transform sends events, from the attribute that tells it. Without the
/// attribute it does not.
pub fn sends_events(attribute: Option<u32>) -> (is_async: bool)
    ensures
        is_async == (attribute matches Some(value) && value != 0),
{
    match attribute {
        Some(value) => value != 0,
        None => false,
    }
}

/// The calls that activate a transform for a stream of pictures, in order. The
/// first that fails ends the activation.
pub fn activation_calls(is_async: bool, width: u32, height: u32, fps: u32) -> (calls: Vec<
    ActivationCall,
>)
    ensures
        calls@ == activation(is_async, attributes_of(width, height, fps)),
{
    let attributes = video_type(width, height, fps);
    let mut calls: Vec<ActivationCall> = Vec::new();
    if is_async {
        calls.push(ActivationCall::UnlockAsync);
    }
    calls.push(ActivationCall::LowLatency);
    calls.push(
        ActivationCall::SetOutputType {
            attributes,
            bitrate: AVERAGE_BITRATE,
            profile: MAIN_PROFILE,
        },
    );
    calls.push(ActivationCall::SetInputType { attributes });
    calls.push(ActivationCall::ReadBufferSize);
    if is_async {
        calls.push(ActivationCall::ReadEvents);
    }
    calls.push(ActivationCall::ReadHeader);
    calls.push(ActivationCall::Flush);
    calls.push(ActivationCall::BeginStreaming);
    calls.push(ActivationCall::StartStream);
    assert(calls@ =~= activation(is_async, attributes_of(width, height, fps)));
    calls
}

/// A transform that sends events is unlocked before anything is set and asked for
/// its events, and one that does not is neither. Streaming begins last, when both
/// types are set, the output's before the input's.
pub proof fn law_activation_keeps_its_order(is_async: bool, attributes: VideoType)
    ensures
        ({
            let calls = activation(is_async, attributes);
            let skipped: int = if is_async {
                1
            } else {
                0
            };
            &&& is_async ==> calls[0] is UnlockAsync && calls.contains(ActivationCall::ReadEvents)
            &&& !is_async ==> forall|i: int|
                0 <= i < calls.len() ==> !((#[trigger] calls[i]) is UnlockAsync)
                    && !(calls[i] is ReadEvents)
            &&& calls[skipped + 1] is SetOutputType
            &&& calls[skipped + 2] is SetInputType
            &&& calls[calls.len() - 3] is Flush
            &&& calls[calls.len() - 2] is BeginStreaming
            &&& calls[calls.len() - 1] is StartStream
            &&& skipped + 2 < calls.len() - 3
        }),
{
    let calls = activation(is_async, attributes);
    if is_async {
        assert(calls[5] == ActivationCall::ReadEvents);
    }
}

/// A picture in the form that the transform takes.
#[derive(Debug)]
pub struct InputSample {
    /// The picture, as NV12.
    pub nv12: Vec<u8>,
    /// Its time, in units of a hundred nanoseconds.
    pub time: i64,
    /// How long it is shown, in the same unit.
    pub duration: i64,
}

/// Whether the caller has to bring a buffer for the output.
pub fn needs_buffer(flags: u32) -> (needs: bool)
    ensures
        needs == (flags as int / 0x100 % 2 == 0),
{
    assert((flags & 0x100 == 0) == ((flags / 0x100) % 2 == 0)) by (bit_vector);
    flags & MFT_OUTPUT_STREAM_PROVIDES_SAMPLES == 0
}

/// The parameter sets in a type's sequence header. A header that is missing or
/// that cannot be read counts as none.
pub open spec fn sets_in(header: Option<Vec<u8>>) -> Seq<u8> {
    match header {
        Some(bytes) => match annexb::as_annex_b(bytes@) {
            Ok(sets) => sets,
            Err(_) => Seq::empty(),
        },
        None => Seq::empty(),
    }
}

/// Reads the parameter sets out of a type's sequence header.
pub fn media_type_parameter_sets(header: Option<Vec<u8>>) -> (sets: Vec<u8>)
    ensures
        sets@ == sets_in(header),
{
    match header {
        Some(bytes) => match to_annex_b(bytes.as_slice()) {
            Ok(sets) => sets,
            Err(_) => Vec::new(),
        },
        None => Vec::new(),
    }
}

// ---------------------------------------------------------------------------
// Encoding a picture.
// ---------------------------------------------------------------------------

/// A call that is to be made of the transform, or the end of an encoding.
#[derive(Debug)]
pub enum DeviceAction {
    /// Wait for the transform's next event.
    Wait,
    /// Take the transform's next event, if one is there.
    Poll,
    /// Hand the picture over.
    Feed,
    /// Ask for output.
    Collect,
    /// Take up the output type that the transform now offers.
    RenewType,
    /// Read the sequence header of the current output type.
    ReadHeader,
    /// The picture is encoded; this is the part of the stream that came out.
    Finish(Vec<u8>),
    /// The picture could not be encoded.
    Fail(DeviceError),
}

/// What came of a call.
#[derive(Debug)]
pub enum DeviceEvent {
    /// An event arrived, with its type.
    Arrived(u32),
    /// Getting an event failed, with this code.
    NoEvent(u32),
    /// The picture was taken.
    Fed,
    /// Output was collected; there may be no sample in it.
    Collected(Option<Vec<u8>>),
    /// The transform refused to give output, with this code.
    Refused(u32),
    /// The output type was taken up; its sequence header, if it has one.
    Renewed(Option<Vec<u8>>),
    /// The current output type's sequence header, if it has one.
    Header(Option<Vec<u8>>),
    /// Some other call that belongs to the action failed, with this code.
    Failed(u32),
}

/// Why the transform did not encode a picture.
#[derive(Clone, Copy, Debug, PartialEq, Eq, Structural)]
pub enum DeviceError {
    /// A call failed with this code.
    System(u32),
    /// The transform emitted something that is no H.264 stream.
    Bitstream(BitstreamError),
    /// The event does not belong to the action that was asked for.
    Unexpected,
}

/// What the encoder is waiting for.
#[derive(Clone, Copy, Debug, PartialEq, Eq, Structural)]
pub enum Phase {
    /// For the next picture.
    Idle,
    /// For an event, as long as it takes.
    Waiting,
    /// For an event that is already there.
    Polling,
    /// For the picture to be taken.
    Feeding,
    /// For output.
    Collecting,
    /// For a new output type.
    Renewing,
    /// For the sequence header.
    Reading,
}

/// The state of an encoder.
#[verifier::ext_equal]
pub struct DeviceState {
    /// The transform sends events, and takes a picture only when it asked for one.
    pub is_async: bool,
    /// The parameter sets of the output type, as Annex B; empty where unknown.
    pub parameter_sets: Seq<u8>,
    /// Something of the stream has been emitted, led by the parameter sets where
    /// they were known.
    pub headers_sent: bool,
    /// How many pictures the transform has asked for and not got.
    pub need_input: nat,
    /// What is being waited for.
    pub phase: Phase,
    /// The picture has been handed over.
    pub fed: bool,
    /// Output that waits for the sequence header.
    pub held: Seq<u8>,
    /// What the transform emitted while this picture was encoded.
    pub encoded: Seq<u8>,
}

/// An action, with its bytes.
pub enum DeviceStep {
    /// See `DeviceAction::Wait`.
    Wait,
    /// See `DeviceAction::Poll`.
    Poll,
    /// See `DeviceAction::Feed`.
    Feed,
    /// See `DeviceAction::Collect`.
    Collect,
    /// See `DeviceAction::RenewType`.
    RenewType,
    /// See `DeviceAction::ReadHeader`.
    ReadHeader,
    /// See `DeviceAction::Finish`.
    Finish(Seq<u8>),
    /// See `DeviceAction::Fail`.
    Fail(DeviceError),
}

impl View for DeviceAction {
    type V = DeviceStep;

    open spec fn view(&self) -> DeviceStep {
        match *self {
            DeviceAction::Wait => DeviceStep::Wait,
            DeviceAction::Poll => DeviceStep::Poll,
            DeviceAction::Feed => DeviceStep::Feed,
            DeviceAction::Collect => DeviceStep::Collect,
            DeviceAction::RenewType => DeviceStep::RenewType,
            DeviceAction::ReadHeader => DeviceStep::ReadHeader,
            DeviceAction::Finish(stream) => DeviceStep::Finish(stream@),
            DeviceAction::Fail(error) => DeviceStep::Fail(error),
        }
    }
}

/// What comes out for a piece of output: the first piece of the stream is led by
/// the parameter sets, unless it has its own or none are known.
pub open spec fn led_output(state: DeviceState, output: Seq<u8>) -> Seq<u8> {
    if !state.headers_sent && output.len() > 0 && !annexb::has_parameter_sets(output) {
        state.parameter_sets + output
    } else {
        output
    }
}

/// The event is a request for a picture.
pub open spec fn asks_for_input(event: DeviceEvent) -> bool {
    event matches DeviceEvent::Arrived(kind) && kind == ME_TRANSFORM_NEED_INPUT
}

impl DeviceState {
    /// The picture is only handed over on request, where the transform makes
    /// requests.
    pub open spec fn well_formed(self) -> bool {
        self.phase is Feeding && self.is_async ==> self.need_input > 0
    }

    /// The call that is due when nothing is open: hand the picture over as soon as
    /// the transform takes it, then collect until there is nothing left.
    pub open spec fn resume(self) -> (DeviceState, DeviceStep) {
        if !self.fed && self.is_async && self.need_input == 0 {
            (DeviceState { phase: Phase::Waiting, ..self }, DeviceStep::Wait)
        } else if !self.fed {
            (DeviceState { phase: Phase::Feeding, ..self }, DeviceStep::Feed)
        } else if self.is_async {
            (DeviceState { phase: Phase::Polling, ..self }, DeviceStep::Poll)
        } else {
            (DeviceState { phase: Phase::Collecting, ..self }, DeviceStep::Collect)
        }
    }

    /// The encoding of a picture begins.
    pub open spec fn begin(self) -> (DeviceState, DeviceStep) {
        (DeviceState { fed: false, held: Seq::empty(), encoded: Seq::empty(), ..self }).resume()
    }

    /// The encoding is over, and everything that came out is handed on.
    pub open spec fn finish(self) -> (DeviceState, DeviceStep) {
        (
            DeviceState { phase: Phase::Idle, held: Seq::empty(), encoded: Seq::empty(), ..self },
            DeviceStep::Finish(self.encoded),
        )
    }

    /// The encoding is over, and what came out of it is dropped.
    pub open spec fn fail(self, error: DeviceError) -> (DeviceState, DeviceStep) {
        (
            DeviceState { phase: Phase::Idle, held: Seq::empty(), encoded: Seq::empty(), ..self },
            DeviceStep::Fail(error),
        )
    }

    /// A call failed while output was collected. A transform without events says
    /// in this way that it has emitted everything.
    pub open spec fn collecting_failed(self, code: u32) -> (DeviceState, DeviceStep) {
        if !self.is_async && code == MF_E_TRANSFORM_NEED_MORE_INPUT {
            self.finish()
        } else {
            self.fail(DeviceError::System(code))
        }
    }

    /// A piece of output is complete.
    pub open spec fn deliver(self, output: Seq<u8>) -> (DeviceState, DeviceStep) {
        (DeviceState {
            encoded: self.encoded + led_output(self, output),
            headers_sent: self.headers_sent || output.len() > 0,
            held: Seq::empty(),
            ..self
        }).resume()
    }

    /// Where the encoder goes from here, and what it does next.
    pub open spec fn next(self, event: DeviceEvent) -> (DeviceState, DeviceStep) {
        match (self.phase, event) {
            (Phase::Waiting, DeviceEvent::Arrived(kind)) => self.arrived(kind),
            (Phase::Polling, DeviceEvent::Arrived(kind)) => self.arrived(kind),
            (Phase::Waiting, DeviceEvent::NoEvent(code)) => self.fail(DeviceError::System(code)),
            (Phase::Polling, DeviceEvent::NoEvent(code)) => if code == MF_E_NO_EVENTS_AVAILABLE {
                self.finish()
            } else {
                self.fail(DeviceError::System(code))
            },
            (Phase::Waiting, DeviceEvent::Failed(code)) => self.fail(DeviceError::System(code)),
            (Phase::Polling, DeviceEvent::Failed(code)) => self.fail(DeviceError::System(code)),
            (Phase::Feeding, DeviceEvent::Fed) => (DeviceState {
                fed: true,
                need_input: if self.is_async {
                    (self.need_input - 1) as nat
                } else {
                    self.need_input
                },
                ..self
            }).resume(),
            (Phase::Feeding, DeviceEvent::Failed(code)) => self.fail(DeviceError::System(code)),
            (Phase::Collecting, DeviceEvent::Collected(None)) => self.resume(),
            (Phase::Collecting, DeviceEvent::Collected(Some(output))) => match annexb::as_annex_b(
                output@,
            ) {
                Ok(stream) => if self.parameter_sets.len() == 0 {
                    (
                        DeviceState { phase: Phase::Reading, held: stream, ..self },
                        DeviceStep::ReadHeader,
                    )
                } else {
                    self.deliver(stream)
                },
                Err(error) => self.fail(DeviceError::Bitstream(error)),
            },
            (Phase::Collecting, DeviceEvent::Refused(code)) => if code
                == MF_E_TRANSFORM_STREAM_CHANGE {
                (DeviceState { phase: Phase::Renewing, ..self }, DeviceStep::RenewType)
            } else {
                self.collecting_failed(code)
            },
            (Phase::Collecting, DeviceEvent::Failed(code)) => self.collecting_failed(code),
            (Phase::Renewing, DeviceEvent::Renewed(header)) => (DeviceState {
                parameter_sets: sets_in(header),
                ..self
            }).resume(),
            (Phase::Renewing, DeviceEvent::Failed(code)) => self.collecting_failed(code),
            (Phase::Reading, DeviceEvent::Header(header)) => (DeviceState {
                parameter_sets: sets_in(header),
                ..self
            }).deliver(self.held),
            (Phase::Reading, DeviceEvent::Failed(code)) => self.collecting_failed(code),
            _ => self.fail(DeviceError::Unexpected),
        }
    }

    /// An event of the transform: a request for a picture is counted, output is
    /// collected, and other events are passed over.
    pub open spec fn arrived(self, kind: u32) -> (DeviceState, DeviceStep) {
        if kind == ME_TRANSFORM_NEED_INPUT {
            (DeviceState { need_input: self.need_input + 1, ..self }).resume()
        } else if kind == ME_TRANSFORM_HAVE_OUTPUT {
            (DeviceState { phase: Phase::Collecting, ..self }, DeviceStep::Collect)
        } else {
            self.resume()
        }
    }
}

/// An encoder in hardware, from its activation on.
pub struct HardwareEncoder {
    width: u32,
    height: u32,
    fps: u32,
    output_size: u32,
    is_async: bool,
    parameter_sets: Vec<u8>,
    headers_sent: bool,
    need_input: u32,
    phase: Phase,
    fed: bool,
    held: Vec<u8>,
    encoded: Vec<u8>,
}

impl View for HardwareEncoder {
    type V = DeviceState;

    closed spec fn view(&self) -> DeviceState {
        DeviceState {
            is_async: self.is_async,
            parameter_sets: self.parameter_sets@,
            headers_sent: self.headers_sent,
            need_input: self.need_input as nat,
            phase: self.phase,
            fed: self.fed,
            held: self.held@,
            encoded: self.encoded@,
        }
    }
}

impl HardwareEncoder {
    /// The size of the pictures, and the number of frames in a second.
    pub closed spec fn geometry(&self) -> (u32, u32, u32) {
        (self.width, self.height, self.fps)
    }

    /// The frame's data fits its dimensions, and these are those of the stream.
    pub open spec fn fits(&self, frame: BgraFrame<'_>) -> bool {
        &&& frame.well_sized()
        &&& frame.width == self.geometry().0
        &&& frame.height == self.geometry().1
    }

    /// The size of an output buffer that the caller brings.
    pub closed spec fn buffer_size(&self) -> u32 {
        self.output_size
    }

    /// The encoder for a transform that was just activated. `stream_size` is the
    /// buffer size that the transform asks for, and `header` the sequence header
    /// of its output type.
    pub fn new(
        width: u32,
        height: u32,
        fps: u32,
        stream_size: u32,
        is_async: bool,
        header: Option<Vec<u8>>,
    ) -> (encoder: Self)
        requires
            width * height <= u32::MAX,
        ensures
            encoder.geometry() == (width, height, fps),
            encoder.buffer_size() == if stream_size >= width * height {
                stream_size as int
            } else {
                width * height
            },
            encoder@ == (DeviceState {
                is_async,
                parameter_sets: sets_in(header),
                headers_sent: false,
                need_input: 0,
                phase: Phase::Idle,
                fed: false,
                held: Seq::empty(),
                encoded: Seq::empty(),
            }),
            encoder@.well_formed(),
    {
        assert(0 <= width * height) by (nonlinear_arith);
        let area: u32 = width * height;
        HardwareEncoder {
            width,
            height,
            fps,
            output_size: if stream_size >= area {
                stream_size
            } else {
                area
            },
            is_async,
            parameter_sets: media_type_parameter_sets(header),
            headers_sent: false,
            need_input: 0,
            phase: Phase::Idle,
            fed: false,
            held: Vec::new(),
            encoded: Vec::new(),
        }
    }

    /// The size of an output buffer that the caller brings.
    pub fn output_size(&self) -> (size: u32)
        ensures
            size == self.buffer_size(),
    {
        self.output_size
    }

    /// How many pictures the transform has asked for and not got.
    pub fn requests(&self) -> (count: u32)
        ensures
            count == self@.need_input,
    {
        self.need_input
    }

    /// Brings a picture into the form that the transform takes. Turns away a frame
    /// whose data does not fit its dimensions, and one whose dimensions are not
    /// those of the stream.
    pub fn input_sample(&self, frame: BgraFrame<'_>, timestamp_ms: u64) -> (sample: Result<
        InputSample,
        EncodeError,
    >)
        requires
            frame.addressable(),
            self.fits(frame) ==> {
                &&& self.geometry().0 % 2 == 0
                &&& self.geometry().1 % 2 == 0
                &&& self.geometry().0 * self.geometry().1 * 3 <= u32::MAX
                &&& self.geometry().2 > 0
                &&& timestamp_ms * 10_000 <= u64::MAX
            },
        ensures
            !frame.well_sized() ==> sample == Err::<InputSample, EncodeError>(
                (EncodeError::FrameSize {
                    actual: frame.data@.len() as usize,
                    expected: frame.expected() as usize,
                }),
            ),
            frame.well_sized() && !self.fits(frame) ==> sample == Err::<InputSample, EncodeError>(
                EncodeError::DimensionsChanged,
            ),
            self.fits(frame) ==> {
                &&& sample matches Ok(input)
                &&& input.nv12@ == picture::nv12_of(
                    frame.data@,
                    frame.width as int,
                    frame.height as int,
                )
                &&& input.time == (timestamp_ms * 10_000) as i64
                &&& input.duration == 10_000_000int / self.geometry().2 as int
            },
    {
        match validate_frame(frame) {
            Ok(()) => {},
            Err(error) => {
                return Err(error);
            },
        }
        if frame.width != self.width || frame.height != self.height {
            return Err(EncodeError::DimensionsChanged);
        }
        assert(0 <= self.width * self.height) by (nonlinear_arith);
        let size: usize = (self.width * self.height * 3 / 2) as usize;
        let mut nv12: Vec<u8> = Vec::new();
        nv12.resize(size, 0);
        bgra_to_nv12(
            frame.data,
            self.width as usize,
            self.height as usize,
            nv12.as_mut_slice(),
        );
        assert(nv12@ =~= picture::nv12_of(frame.data@, frame.width as int, frame.height as int));
        Ok(
            InputSample {
                nv12,
                time: (timestamp_ms * 10_000) as i64,
                duration: (10_000_000 / self.fps) as i64,
            },
        )
    }

    /// Begins to encode a picture; says which call is due.
    pub fn begin(&mut self) -> (action: DeviceAction)
        ensures
            (final(self)@, action@) == old(self)@.begin(),
            final(self)@.well_formed(),
            final(self).geometry() == old(self).geometry(),
            final(self).buffer_size() == old(self).buffer_size(),
    {
        self.fed = false;
        self.held = Vec::new();
        self.encoded = Vec::new();
        assert(self@ =~= (DeviceState {
            fed: false,
            held: Seq::empty(),
            encoded: Seq::empty(),
            ..old(self)@
        }));
        self.resume()
    }

    /// Takes what came of the last call; says which call is due.
    pub fn step(&mut self, event: DeviceEvent) -> (action: DeviceAction)
        requires
            old(self)@.well_formed(),
            asks_for_input(event) ==> old(self)@.need_input < u32::MAX,
        ensures
            (final(self)@, action@) == old(self)@.next(event),
            final(self)@.well_formed(),
            final(self).geometry() == old(self).geometry(),
            final(self).buffer_size() == old(self).buffer_size(),
    {
        match self.phase {
            Phase::Idle => self.fail(DeviceError::Unexpected),
            Phase::Waiting => match event {
                DeviceEvent::Arrived(kind) => self.arrived(kind),
                DeviceEvent::NoEvent(code) => self.fail(DeviceError::System(code)),
                DeviceEvent::Failed(code) => self.fail(DeviceError::System(code)),
                _ => self.fail(DeviceError::Unexpected),
            },
            Phase::Polling => match event {
                DeviceEvent::Arrived(kind) => self.arrived(kind),
                DeviceEvent::NoEvent(code) => if code == MF_E_NO_EVENTS_AVAILABLE {
                    self.finish()
                } else {
                    self.fail(DeviceError::System(code))
                },
                DeviceEvent::Failed(code) => self.fail(DeviceError::System(code)),
                _ => self.fail(DeviceError::Unexpected),
            },
            Phase::Feeding => match event {
                DeviceEvent::Fed => {
                    if self.is_async {
                        self.need_input = self.need_input - 1;
                    }
                    self.fed = true;
                    self.resume()
                },
                DeviceEvent::Failed(code) => self.fail(DeviceError::System(code)),
                _ => self.fail(DeviceError::Unexpected),
            },
            Phase::Collecting => match event {
                DeviceEvent::Collected(output) => self.collected(output),
                DeviceEvent::Refused(code) => if code == MF_E_TRANSFORM_STREAM_CHANGE {
                    self.phase = Phase::Renewing;
                    DeviceAction::RenewType
                } else {
                    self.collecting_failed(code)
                },
                DeviceEvent::Failed(code) => self.collecting_failed(code),
                _ => self.fail(DeviceError::Unexpected),
            },
            Phase::Renewing => match event {
                DeviceEvent::Renewed(header) => {
                    self.parameter_sets = media_type_parameter_sets(header);
                    self.resume()
                },
                DeviceEvent::Failed(code) => self.collecting_failed(code),
                _ => self.fail(DeviceError::Unexpected),
            },
            Phase::Reading => match event {
                DeviceEvent::Header(header) => {
                    self.parameter_sets = media_type_parameter_sets(header);
                    let mut output: Vec<u8> = Vec::new();
                    std::mem::swap(&mut output, &mut self.held);
                    self.deliver(output)
                },
                DeviceEvent::Failed(code) => self.collecting_failed(code),
                _ => self.fail(DeviceError::Unexpected),
            },
        }
    }

    fn resume(&mut self) -> (action: DeviceAction)
        ensures
            (final(self)@, action@) == old(self)@.resume(),
            final(self)@.well_formed(),
            final(self).geometry() == old(self).geometry(),
            final(self).buffer_size() == old(self).buffer_size(),
    {
        if !self.fed && self.is_async && self.need_input == 0 {
            self.phase = Phase::Waiting;
            DeviceAction::Wait
        } else if !self.fed {
            self.phase = Phase::Feeding;
            DeviceAction::Feed
        } else if self.is_async {
            self.phase = Phase::Polling;
            DeviceAction::Poll
        } else {
            self.phase = Phase::Collecting;
            DeviceAction::Collect
        }
    }

    fn arrived(&mut self, kind: u32) -> (action: DeviceAction)
        requires
            kind == ME_TRANSFORM_NEED_INPUT ==> old(self)@.need_input < u32::MAX,
        ensures
            (final(self)@, action@) == old(self)@.arrived(kind),
            final(self)@.well_formed(),
            final(self).geometry() == old(self).geometry(),
            final(self).buffer_size() == old(self).buffer_size(),
    {
        if kind == ME_TRANSFORM_NEED_INPUT {
            self.need_input = self.need_input + 1;
            self.resume()
        } else if kind == ME_TRANSFORM_HAVE_OUTPUT {
            self.phase = Phase::Collecting;
            DeviceAction::Collect
        } else {
            self.resume()
        }
    }

    fn collected(&mut self, output: Option<Vec<u8>>) -> (action: DeviceAction)
        requires
            old(self)@.phase is Collecting,
        ensures
            (final(self)@, action@) == old(self)@.next(DeviceEvent::Collected(output)),
            final(self)@.well_formed(),
            final(self).geometry() == old(self).geometry(),
            final(self).buffer_size() == old(self).buffer_size(),
    {
        match output {
            None => self.resume(),
            Some(bytes) => match to_annex_b(bytes.as_slice()) {
                Ok(stream) => if self.parameter_sets.len() == 0 {
                    self.phase = Phase::Reading;
                    self.held = stream;
                    DeviceAction::ReadHeader
                } else {
                    self.deliver(stream)
                },
                Err(error) => self.fail(DeviceError::Bitstream(error)),
            },
        }
    }

    fn deliver(&mut self, output: Vec<u8>) -> (action: DeviceAction)
        ensures
            (final(self)@, action@) == old(self)@.deliver(output@),
            final(self)@.well_formed(),
            final(self).geometry() == old(self).geometry(),
            final(self).buffer_size() == old(self).buffer_size(),
    {
        let ghost before = self@;
        self.held = Vec::new();
        if !self.headers_sent && output.len() > 0 {
            self.headers_sent = true;
            if !contains_parameter_sets(output.as_slice()) {
                bytes::append(&mut self.encoded, self.parameter_sets.as_slice());
            }
        }
        bytes::append(&mut self.encoded, output.as_slice());
        assert(self.encoded@ =~= before.encoded + led_output(before, output@));
        self.resume()
    }

    fn collecting_failed(&mut self, code: u32) -> (action: DeviceAction)
        ensures
            (final(self)@, action@) == old(self)@.collecting_failed(code),
            final(self)@.well_formed(),
            final(self).geometry() == old(self).geometry(),
            final(self).buffer_size() == old(self).buffer_size(),
    {
        if !self.is_async && code == MF_E_TRANSFORM_NEED_MORE_INPUT {
            self.finish()
        } else {
            self.fail(DeviceError::System(code))
        }
    }

    fn finish(&mut self) -> (action: DeviceAction)
        ensures
            (final(self)@, action@) == old(self)@.finish(),
            final(self)@.well_formed(),
            final(self).geometry() == old(self).geometry(),
            final(self).buffer_size() == old(self).buffer_size(),
    {
        let mut stream: Vec<u8> = Vec::new();
        std::mem::swap(&mut stream, &mut self.encoded);
        self.phase = Phase::Idle;
        self.held = Vec::new();
        DeviceAction::Finish(stream)
    }

    fn fail(&mut self, error: DeviceError) -> (action: DeviceAction)
        ensures
            (final(self)@, action@) == old(self)@.fail(error),
            final(self)@.well_formed(),
            final(self).geometry() == old(self).geometry(),
            final(self).buffer_size() == old(self).buffer_size(),
    {
        self.phase = Phase::Idle;
        self.held = Vec::new();
        self.encoded = Vec::new();
        DeviceAction::Fail(error)
    }
}

// ---------------------------------------------------------------------------
// What holds of every course of events.
// ---------------------------------------------------------------------------

/// State and due call after some events, from the beginning of a picture on.
pub open spec fn after(start: DeviceState, events: Seq<DeviceEvent>) -> (DeviceState, DeviceStep)
    decreases events.len(),
{
    if events.len() == 0 {
        start.begin()
    } else {
        after(start, events.drop_last()).0.next(events.last())
    }
}

/// The output that an event completes: a sample in Annex B form, once the
/// parameter sets have been looked up.
pub open spec fn completed(state: DeviceState, event: DeviceEvent) -> Seq<u8> {
    match (state.phase, event) {
        (Phase::Collecting, DeviceEvent::Collected(Some(output))) => match annexb::as_annex_b(
            output@,
        ) {
            Ok(stream) => if state.parameter_sets.len() == 0 {
                Seq::empty()
            } else {
                led_output(state, stream)
            },
            Err(_) => Seq::empty(),
        },
        (Phase::Reading, DeviceEvent::Header(header)) => led_output(
            DeviceState { parameter_sets: sets_in(header), ..state },
            state.held,
        ),
        _ => Seq::empty(),
    }
}

/// Everything that some events completed, in order.
pub open spec fn completed_in(start: DeviceState, events: Seq<DeviceEvent>) -> Seq<u8>
    decreases events.len(),
{
    if events.len() == 0 {
        Seq::empty()
    } else {
        completed_in(start, events.drop_last()) + completed(
            after(start, events.drop_last()).0,
            events.last(),
        )
    }
}

/// The encoding is still going on.
pub open spec fn going_on(step: DeviceStep) -> bool {
    !(step is Finish) && !(step is Fail)
}

/// One event keeps an encoder in order: it hands the picture over only on a request
/// that is open, and counts the requests.
proof fn lemma_requests(state: DeviceState, event: DeviceEvent)
    requires
        state.is_async,
        state.well_formed(),
    ensures
        state.next(event).0.is_async,
        state.next(event).0.well_formed(),
        state.next(event).1 is Feed ==> state.next(event).0.need_input > 0,
        waits_for(state.phase, event) ==> state.next(event).0.need_input == state.need_input
            + if asks_for_input(event) {
            1int
        } else {
            0int
        } - if event is Fed {
            1int
        } else {
            0int
        },
        waits_for(state.phase, event) ==> state.next(event).0.fed == (state.fed || event is Fed),
{
}

/// One event keeps the order of handing over and collecting.
proof fn lemma_feeding(state: DeviceState, event: DeviceEvent)
    requires
        state.phase is Feeding ==> !state.fed,
        state.phase is Waiting ==> !state.fed,
        state.phase is Polling ==> state.fed,
    ensures
        ({
            let (next, step) = state.next(event);
            &&& next.fed ==> !(step is Feed)
            &&& next.phase is Feeding ==> !next.fed
            &&& next.phase is Waiting ==> !next.fed
            &&& next.phase is Polling ==> next.fed
        }),
{
}

/// A transform that makes requests gets a picture only while a request of its own
/// is open.
pub proof fn law_feeds_only_on_request(start: DeviceState, events: Seq<DeviceEvent>)
    requires
        start.is_async,
    ensures
        after(start, events).1 is Feed ==> after(start, events).0.need_input > 0,
        after(start, events).0.is_async,
        after(start, events).0.well_formed(),
    decreases events.len(),
{
    if events.len() > 0 {
        law_feeds_only_on_request(start, events.drop_last());
        lemma_requests(after(start, events.drop_last()).0, events.last());
    }
}

/// How many requests for a picture are among some events.
pub open spec fn requests_in(events: Seq<DeviceEvent>) -> nat
    decreases events.len(),
{
    if events.len() == 0 {
        0
    } else {
        requests_in(events.drop_last()) + if asks_for_input(events.last()) {
            1nat
        } else {
            0nat
        }
    }
}

/// No request is lost while a picture is encoded: those that were open before and
/// those that arrived are open still, but for the one that the picture answered.
pub proof fn law_requests_are_kept(start: DeviceState, events: Seq<DeviceEvent>)
    requires
        start.is_async,
        forall|n: int|
            0 <= n < events.len() ==> #[trigger] waits_for(
                after(start, events.take(n)).0.phase,
                events[n],
            ),
    ensures
        after(start, events).0.need_input == start.need_input + requests_in(events) - if after(
            start,
            events,
        ).0.fed {
            1int
        } else {
            0int
        },
    decreases events.len(),
{
    if events.len() > 0 {
        let before = events.drop_last();
        assert(events.take(events.len() - 1) =~= before);
        assert forall|n: int| 0 <= n < before.len() implies #[trigger] waits_for(
            after(start, before.take(n)).0.phase,
            before[n],
        ) by {
            assert(before.take(n) =~= events.take(n));
            assert(waits_for(after(start, events.take(n)).0.phase, events[n]));
        }
        law_requests_are_kept(start, before);
        law_feeds_only_on_request(start, before);
        law_feeding_comes_first(start, before);
        assert(waits_for(after(start, events.take(events.len() - 1)).0.phase, events.last()));
        lemma_requests(after(start, before).0, events.last());
    }
}

/// The event can follow the call that is being waited for.
pub open spec fn waits_for(phase: Phase, event: DeviceEvent) -> bool {
    match event {
        DeviceEvent::Arrived(_) | DeviceEvent::NoEvent(_) => phase is Waiting || phase is Polling,
        DeviceEvent::Fed => phase is Feeding,
        DeviceEvent::Collected(_) | DeviceEvent::Refused(_) => phase is Collecting,
        DeviceEvent::Renewed(_) => phase is Renewing,
        DeviceEvent::Header(_) => phase is Reading,
        DeviceEvent::Failed(_) => !(phase is Idle),
    }
}

/// The picture is handed over once: a call that hands it over is never due again
/// after it was taken.
pub proof fn law_feeding_comes_first(start: DeviceState, events: Seq<DeviceEvent>)
    ensures
        after(start, events).0.fed ==> !(after(start, events).1 is Feed),
        after(start, events).0.phase is Feeding ==> !after(start, events).0.fed,
        after(start, events).0.phase is Waiting ==> !after(start, events).0.fed,
        after(start, events).0.phase is Polling ==> after(start, events).0.fed,
    decreases events.len(),
{
    if events.len() > 0 {
        law_feeding_comes_first(start, events.drop_last());
        lemma_feeding(after(start, events.drop_last()).0, events.last());
    }
}

/// One event adds to what was collected just what it completes.
proof fn lemma_collects(state: DeviceState, event: DeviceEvent)
    ensures
        going_on(state.next(event).1) ==> state.next(event).0.encoded == state.encoded + completed(
            state,
            event,
        ),
        state.next(event).1 matches DeviceStep::Finish(stream) ==> stream == state.encoded
            + completed(state, event),
{
    assert(state.encoded + Seq::<u8>::empty() =~= state.encoded);
}

/// Nothing that the transform emitted is lost or reordered: a finished encoding
/// hands on all completed output, in order.
pub proof fn law_all_output_is_handed_on(start: DeviceState, events: Seq<DeviceEvent>)
    requires
        forall|n: int| 0 <= n < events.len() ==> going_on(#[trigger] after(start, events.take(n)).1),
    ensures
        going_on(after(start, events).1) ==> after(start, events).0.encoded == completed_in(
            start,
            events,
        ),
        after(start, events).1 matches DeviceStep::Finish(stream) ==> stream == completed_in(
            start,
            events,
        ),
    decreases events.len(),
{
    if events.len() > 0 {
        let before = events.drop_last();
        assert(events.take(events.len() - 1) =~= before);
        assert(going_on(after(start, events.take(events.len() - 1)).1));
        assert forall|n: int| 0 <= n < before.len() implies going_on(
            #[trigger] after(start, before.take(n)).1,
        ) by {
            assert(before.take(n) =~= events.take(n));
        }
        law_all_output_is_handed_on(start, before);
        lemma_collects(after(start, before).0, events.last());
    }
}

/// A fresh decoder can start with the first piece of a stream: where the parameter
/// sets of the output type are known, or the output brings its own, the first
/// piece that is handed on holds them.
pub proof fn law_first_output_has_parameter_sets(state: DeviceState, output: Seq<u8>)
    requires
        !state.headers_sent,
        output.len() > 0,
        annexb::has_parameter_sets(state.parameter_sets) || annexb::has_parameter_sets(output),
    ensures
        annexb::has_parameter_sets(led_output(state, output)),
        state.deliver(output).0.encoded == state.encoded + led_output(state, output),
        state.deliver(output).0.headers_sent,
{
    if !annexb::has_parameter_sets(output) {
        annexb::law_parameter_sets_stay(state.parameter_sets, output);
    }
}

/// A sequence header that holds what a decoder starts from.
pub open spec fn brings_parameter_sets(event: DeviceEvent) -> bool {
    match event {
        DeviceEvent::Renewed(header) => annexb::has_parameter_sets(sets_in(header)),
        DeviceEvent::Header(header) => annexb::has_parameter_sets(sets_in(header)),
        _ => true,
    }
}

/// What is known of the parameter sets while the first piece of a stream is on its
/// way: those of the output type are complete where they are known, and what was
/// collected so far is either empty or holds them.
pub open spec fn leads_well(state: DeviceState, step: DeviceStep) -> bool {
    let sets = state.parameter_sets;
    &&& sets.len() == 0 || annexb::has_parameter_sets(sets)
    &&& going_on(step) && !state.headers_sent ==> state.encoded.len() == 0
    &&& going_on(step) && state.headers_sent ==> annexb::has_parameter_sets(state.encoded)
    &&& step matches DeviceStep::Finish(stream) ==> stream.len() == 0
        || annexb::has_parameter_sets(stream)
}

/// One event keeps what is known of the parameter sets.
proof fn lemma_leads_well(state: DeviceState, step: DeviceStep, event: DeviceEvent)
    requires
        leads_well(state, step),
        going_on(step),
        brings_parameter_sets(event),
    ensures
        leads_well(state.next(event).0, state.next(event).1),
{
    match (state.phase, event) {
        (Phase::Collecting, DeviceEvent::Collected(Some(output))) => {
            match annexb::as_annex_b(output@) {
                Ok(stream) => {
                    if state.parameter_sets.len() > 0 {
                        lemma_delivered_parameter_sets(state, stream);
                    }
                },
                Err(_) => {},
            }
        },
        (Phase::Reading, DeviceEvent::Header(header)) => {
            lemma_delivered_parameter_sets(
                DeviceState { parameter_sets: sets_in(header), ..state },
                state.held,
            );
        },
        _ => {},
    }
}

/// A stream starts with parameter sets, however the transform behaves: as long as
/// the sequence headers that were read hold them, and nothing was handed on
/// before, what an encoding hands on is either empty or holds them.
pub proof fn law_stream_starts_with_parameter_sets(start: DeviceState, events: Seq<DeviceEvent>)
    requires
        !start.headers_sent,
        start.parameter_sets.len() == 0 || annexb::has_parameter_sets(start.parameter_sets),
        forall|n: int| 0 <= n < events.len() ==> brings_parameter_sets(#[trigger] events[n]),
        forall|n: int| 0 <= n < events.len() ==> going_on(#[trigger] after(start, events.take(n)).1),
    ensures
        leads_well(after(start, events).0, after(start, events).1),
    decreases events.len(),
{
    if events.len() > 0 {
        let before = events.drop_last();
        assert(events.take(events.len() - 1) =~= before);
        assert(going_on(after(start, events.take(events.len() - 1)).1));
        assert forall|n: int| 0 <= n < before.len() implies going_on(
            #[trigger] after(start, before.take(n)).1,
        ) by {
            assert(before.take(n) =~= events.take(n));
        }
        assert forall|n: int| 0 <= n < before.len() implies brings_parameter_sets(
            #[trigger] before[n],
        ) by {
            assert(before[n] == events[n]);
        }
        law_stream_starts_with_parameter_sets(start, before);
        let (state, step) = after(start, before);
        assert(brings_parameter_sets(events[events.len() - 1]));
        lemma_leads_well(state, step, events.last());
    }
}

/// Delivering keeps the parameter sets in what was collected, or brings them in.
proof fn lemma_delivered_parameter_sets(state: DeviceState, output: Seq<u8>)
    requires
        annexb::has_parameter_sets(state.parameter_sets) || state.parameter_sets.len() == 0,
        state.headers_sent ==> annexb::has_parameter_sets(state.encoded),
        !state.headers_sent ==> state.encoded.len() == 0,
    ensures
        annexb::has_parameter_sets(state.parameter_sets) && state.deliver(output).0.headers_sent
            ==> annexb::has_parameter_sets(state.deliver(output).0.encoded),
        !state.deliver(output).0.headers_sent ==> state.deliver(output).0.encoded.len() == 0,
{
    let piece = led_output(state, output);
    if state.headers_sent {
        annexb::law_parameter_sets_stay(state.encoded, piece);
    } else {
        assert(state.encoded + piece =~= piece);
        if output.len() > 0 && annexb::has_parameter_sets(state.parameter_sets) {
            law_first_output_has_parameter_sets(state, output);
        }
    }
}

/// The parameter sets are put in front at most once: when a part of the stream has
/// been handed on, all later output passes unchanged, and this never reverts.
pub proof fn law_parameter_sets_lead_once(state: DeviceState, event: DeviceEvent, output: Seq<u8>)
    requires
        state.headers_sent,
    ensures
        led_output(state, output) == output,
        state.next(event).0.headers_sent,
        state.begin().0.headers_sent,
{
}

/// An encoding that begins again after a failure owes nothing to the one before:
/// what the failed one had collected is gone, and the requests, the parameter sets
/// and the state of the stream are as the failure left them.
pub proof fn law_failure_leaves_a_clean_start(state: DeviceState, event: DeviceEvent)
    requires
        state.next(event).1 is Fail,
    ensures
        state.next(event).0.phase is Idle,
        state.next(event).0.encoded.len() == 0,
        state.next(event).0.held.len() == 0,
        state.next(event).0.need_input == state.need_input,
        state.next(event).0.parameter_sets == state.parameter_sets,
        state.next(event).0.headers_sent == state.headers_sent,
{
}

// ---------------------------------------------------------------------------
// What each event does, in terms of the bytes and the codes of the system.
// ---------------------------------------------------------------------------

/// A type tells the stream as it is: width over height, frames in one second, and pixels
/// as wide as high.
pub proof fn law_type_tells_the_stream(width: u32, height: u32, fps: u32)
    ensures
        ({
            let told = attributes_of(width, height, fps);
            &&& told.frame_size as int / 0x1_0000_0000 == width
            &&& told.frame_size as int % 0x1_0000_0000 == height
            &&& told.frame_rate as int / 0x1_0000_0000 == fps
            &&& told.frame_rate as int % 0x1_0000_0000 == 1
            &&& told.pixel_aspect_ratio as int / 0x1_0000_0000 == 1
            &&& told.pixel_aspect_ratio as int % 0x1_0000_0000 == 1
        }),
{
}

/// A transform is activated in the same order whatever the stream is, with eight million
/// bits a second in the main profile, and with the same attributes for both types. One
/// that sends events has two calls more: it is unlocked first, and its events are asked
/// for when the types are set.
pub proof fn law_activation_is_told_in_full(is_async: bool, attributes: VideoType)
    ensures
        ({
            let calls = activation(is_async, attributes);
            let first: int = if is_async {
                1
            } else {
                0
            };
            let second: int = 2 * first;
            &&& calls.len() == second + 8
            &&& is_async ==> calls[0] is UnlockAsync
            &&& calls[first] is LowLatency
            &&& calls[first + 1] == (ActivationCall::SetOutputType {
                attributes,
                bitrate: 8_000_000,
                profile: 77,
            })
            &&& calls[first + 2] == (ActivationCall::SetInputType { attributes })
            &&& calls[first + 3] is ReadBufferSize
            &&& is_async ==> calls[5] is ReadEvents
            &&& calls[second + 4] is ReadHeader
            &&& calls[second + 5] is Flush
            &&& calls[second + 6] is BeginStreaming
            &&& calls[second + 7] is StartStream
        }),
{
}

/// A sequence header that is an Annex B stream is taken as it is, however long it is. One
/// that is missing, empty or cannot be read gives no parameter sets.
pub proof fn law_header_gives_its_sets(header: Vec<u8>, at: int)
    ensures
        sets_in(None).len() == 0,
        header@.len() == 0 ==> sets_in(Some(header)).len() == 0,
        0 <= at && at + 3 <= header@.len() && header@[at] == 0 && header@[at + 1] == 0
            && header@[at + 2] == 1 ==> sets_in(Some(header)) == header@,
        annexb::as_annex_b(header@) is Err ==> sets_in(Some(header)).len() == 0,
        annexb::as_annex_b(header@) matches Ok(sets) ==> sets_in(Some(header)) == sets,
{
    if 0 <= at && at + 3 <= header@.len() && header@[at] == 0 && header@[at + 1] == 0 && header@[at
        + 2] == 1 {
        assert(annexb::is_start(header@, at));
    }
}

/// The parameter sets stand in front of the first output that brings none of its own:
/// behind what was collected before come exactly the sets, then exactly the output. This
/// holds of output of any length.
pub proof fn law_sets_stand_in_front_of_the_first_output(state: DeviceState, output: Seq<u8>)
    requires
        !state.headers_sent,
        output.len() > 0,
        !annexb::has_parameter_sets(output),
    ensures
        ({
            let sets = state.parameter_sets;
            let next = state.deliver(output).0;
            let old = state.encoded.len() as int;
            &&& next.headers_sent
            &&& next.encoded.len() == old + sets.len() + output.len()
            &&& next.encoded.take(old) == state.encoded
            &&& next.encoded.subrange(old, old + sets.len()) == sets
            &&& next.encoded.skip(old + sets.len()) == output
        }),
{
    let sets = state.parameter_sets;
    let next = state.deliver(output).0;
    let old = state.encoded.len() as int;
    assert(next.encoded =~= state.encoded + (sets + output));
    assert(next.encoded.take(old) =~= state.encoded);
    assert(next.encoded.subrange(old, old + sets.len()) =~= sets);
    assert(next.encoded.skip(old + sets.len()) =~= output);
}

/// All other output is handed on as it is, behind what was collected before: output that
/// brings its own parameter sets, and everything behind the first output. Empty output
/// adds nothing and leaves the sets owed.
pub proof fn law_other_output_passes_unchanged(state: DeviceState, output: Seq<u8>)
    requires
        state.headers_sent || output.len() == 0 || annexb::has_parameter_sets(output),
    ensures
        state.deliver(output).0.headers_sent == (state.headers_sent || output.len() > 0),
        state.deliver(output).0.encoded.len() == state.encoded.len() + output.len(),
        state.deliver(output).0.encoded.take(state.encoded.len() as int) == state.encoded,
        state.deliver(output).0.encoded.skip(state.encoded.len() as int) == output,
{
    let next = state.deliver(output).0;
    assert(next.encoded =~= state.encoded + output);
    assert(next.encoded.take(state.encoded.len() as int) =~= state.encoded);
    assert(next.encoded.skip(state.encoded.len() as int) =~= output);
}

/// A fresh encoder without events, fed with one picture, gives a stream that begins with
/// the parameter sets of the type, if the first output is an Annex B stream that brings
/// none: the sets, then the output, and nothing else.
pub proof fn law_first_picture_is_led_by_the_sets(
    start: DeviceState,
    output: Vec<u8>,
    at: int,
)
    requires
        !start.is_async,
        !start.headers_sent,
        start.parameter_sets.len() > 0,
        0 <= at && at + 3 <= output@.len(),
        output@[at] == 0 && output@[at + 1] == 0 && output@[at + 2] == 1,
        !annexb::has_parameter_sets(output@),
    ensures
        after(
            start,
            seq![
                DeviceEvent::Fed,
                DeviceEvent::Collected(Some(output)),
                DeviceEvent::Refused(0xC00D_6D72),
            ],
        ).1 == DeviceStep::Finish(start.parameter_sets + output@),
{
    let events = seq![
        DeviceEvent::Fed,
        DeviceEvent::Collected(Some(output)),
        DeviceEvent::Refused(0xC00D_6D72),
    ];
    let two = events.drop_last();
    let one = two.drop_last();
    let none = one.drop_last();
    assert(annexb::is_start(output@, at));
    assert(none.len() == 0);
    assert(after(start, none) == start.begin());
    assert(after(start, one) == after(start, none).0.next(DeviceEvent::Fed));
    assert(after(start, two) == after(start, one).0.next(DeviceEvent::Collected(Some(output))));
    assert(after(start, events) == after(start, two).0.next(DeviceEvent::Refused(0xC00D_6D72)));
    let state = after(start, one).0;
    law_sets_stand_in_front_of_the_first_output(state, output@);
    assert(after(start, two).0.encoded =~= start.parameter_sets + output@);
}

/// Output that is an Annex B stream is delivered at once where the parameter sets are
/// known, and else held until the type's header was read; then it is delivered with the
/// header's sets. Output without a sample adds nothing.
pub proof fn law_output_waits_for_the_sets(
    state: DeviceState,
    output: Vec<u8>,
    header: Option<Vec<u8>>,
)
    requires
        state.phase is Collecting,
        annexb::as_annex_b(output@) is Ok,
    ensures
        ({
            let stream = annexb::as_annex_b(output@)->Ok_0;
            let (next, step) = state.next(DeviceEvent::Collected(Some(output)));
            if state.parameter_sets.len() > 0 {
                (next, step) == state.deliver(stream)
            } else {
                &&& step is ReadHeader
                &&& next.phase is Reading
                &&& next.held == stream
                &&& next.encoded == state.encoded
                &&& next.headers_sent == state.headers_sent
                &&& next.next(DeviceEvent::Header(header)) == (DeviceState {
                    parameter_sets: sets_in(header),
                    ..state
                }).deliver(stream)
            }
        }),
        state.next(DeviceEvent::Collected(None)).0.encoded == state.encoded,
        state.next(DeviceEvent::Collected(None)).0.headers_sent == state.headers_sent,
{
}

/// Output that is no H.264 stream ends the encoding with what is wrong with it.
pub proof fn law_bad_output_is_reported(state: DeviceState, output: Vec<u8>)
    requires
        state.phase is Collecting,
        annexb::as_annex_b(output@) is Err,
    ensures
        state.next(DeviceEvent::Collected(Some(output))).1 == DeviceStep::Fail(
            DeviceError::Bitstream(annexb::as_annex_b(output@)->Err_0),
        ),
{
}

/// The call that is due is the one that the encoder waits for.
pub open spec fn in_step(state: DeviceState, step: DeviceStep) -> bool {
    match step {
        DeviceStep::Wait => state.phase is Waiting,
        DeviceStep::Poll => state.phase is Polling,
        DeviceStep::Feed => state.phase is Feeding,
        DeviceStep::Collect => state.phase is Collecting,
        DeviceStep::RenewType => state.phase is Renewing,
        DeviceStep::ReadHeader => state.phase is Reading,
        DeviceStep::Finish(_) => state.phase is Idle,
        DeviceStep::Fail(_) => state.phase is Idle,
    }
}

/// The encoder always waits for the call that it asked for.
pub proof fn law_encoder_waits_for_its_call(state: DeviceState, event: DeviceEvent)
    ensures
        in_step(state.begin().0, state.begin().1),
        in_step(state.next(event).0, state.next(event).1),
{
}

/// A picture begins with an empty collection. Without events, or with a request open, it
/// is handed over first; else the next event is waited for. What is known of the stream
/// stays.
pub proof fn law_picture_begins_empty(state: DeviceState)
    ensures
        ({
            let (next, step) = state.begin();
            &&& next.encoded.len() == 0
            &&& next.held.len() == 0
            &&& !next.fed
            &&& next.is_async == state.is_async
            &&& next.need_input == state.need_input
            &&& next.headers_sent == state.headers_sent
            &&& next.parameter_sets == state.parameter_sets
            &&& !state.is_async || state.need_input > 0 ==> step is Feed
            &&& state.is_async && state.need_input == 0 ==> step is Wait
        }),
{
}

/// A picture that was taken is followed by collecting: at once without events, else by
/// the events that are there.
pub proof fn law_collecting_follows_feeding(state: DeviceState)
    requires
        state.phase is Feeding,
        state.well_formed(),
    ensures
        state.next(DeviceEvent::Fed).0.fed,
        !state.is_async ==> state.next(DeviceEvent::Fed).1 is Collect && state.next(
            DeviceEvent::Fed,
        ).0.need_input == state.need_input,
        state.is_async ==> state.next(DeviceEvent::Fed).1 is Poll && state.next(
            DeviceEvent::Fed,
        ).0.need_input + 1 == state.need_input,
        state.next(DeviceEvent::Fed).0.encoded == state.encoded,
{
}

/// The events of a transform: the one by which it asks for a picture counts as one
/// request more and lets an open picture be handed over, the one by which it announces
/// output has it collected, and any other changes nothing.
pub proof fn law_events_of_the_transform(state: DeviceState, kind: u32)
    requires
        state.is_async,
        state.phase is Waiting && !state.fed && state.need_input == 0 || state.phase is Polling
            && state.fed,
    ensures
        ({
            let (next, step) = state.next(DeviceEvent::Arrived(kind));
            &&& next.encoded == state.encoded
            &&& next.fed == state.fed
            &&& next.headers_sent == state.headers_sent
            &&& next.parameter_sets == state.parameter_sets
            &&& kind == 601 ==> next.need_input == state.need_input + 1
            &&& kind != 601 ==> next.need_input == state.need_input
            &&& kind == 601 && !state.fed ==> step is Feed
            &&& kind == 601 && state.fed ==> step is Poll
            &&& kind == 602 ==> step is Collect
            &&& kind != 601 && kind != 602 && !state.fed ==> step is Wait
            &&& kind != 601 && kind != 602 && state.fed ==> step is Poll
        }),
{
}

/// An encoding ends well in two ways only, and then all that was collected is handed on:
/// a transform with events has none left when they are polled, and one without events
/// refuses output until it gets more input. Every other failure is reported with its
/// code, and a changed type is taken up.
pub proof fn law_encoding_ends_when_nothing_is_left(state: DeviceState, code: u32)
    ensures
        state.phase is Polling ==> state.next(DeviceEvent::NoEvent(code)).1 == if code
            == 0xC00D_3E80 {
            DeviceStep::Finish(state.encoded)
        } else {
            DeviceStep::Fail(DeviceError::System(code))
        },
        state.phase is Waiting ==> state.next(DeviceEvent::NoEvent(code)).1 == DeviceStep::Fail(
            DeviceError::System(code),
        ),
        state.phase is Collecting ==> state.next(DeviceEvent::Refused(code)).1 == if code
            == 0xC00D_6D61 {
            DeviceStep::RenewType
        } else if code == 0xC00D_6D72 && !state.is_async {
            DeviceStep::Finish(state.encoded)
        } else {
            DeviceStep::Fail(DeviceError::System(code))
        },
        state.phase is Collecting || state.phase is Renewing || state.phase is Reading
            ==> state.next(DeviceEvent::Failed(code)).1 == if code == 0xC00D_6D72
            && !state.is_async {
            DeviceStep::Finish(state.encoded)
        } else {
            DeviceStep::Fail(DeviceError::System(code))
        },
        state.phase is Feeding || state.phase is Waiting || state.phase is Polling ==> state.next(
            DeviceEvent::Failed(code),
        ).1 == DeviceStep::Fail(DeviceError::System(code)),
{
}

/// A new output type brings new parameter sets and nothing else: collecting goes on with
/// what was collected.
pub proof fn law_new_type_brings_new_sets(state: DeviceState, header: Option<Vec<u8>>)
    requires
        state.phase is Renewing,
    ensures
        ({
            let (next, step) = state.next(DeviceEvent::Renewed(header));
            &&& next.parameter_sets == sets_in(header)
            &&& next.encoded == state.encoded
            &&& next.headers_sent == state.headers_sent
            &&& next.need_input == state.need_input
            &&& next.fed == state.fed
            &&& state.fed && !state.is_async ==> step is Collect
            &&& state.fed && state.is_async ==> step is Poll
            &&& !state.fed && state.is_async && state.need_input == 0 ==> step is Wait
            &&& !state.fed && state.need_input > 0 ==> step is Feed
        }),
{
}

/// An event that does not belong to the call that was asked for ends the encoding.
pub proof fn law_stray_events_are_refused(state: DeviceState, event: DeviceEvent)
    requires
        !waits_for(state.phase, event),
    ensures
        state.next(event).1 == DeviceStep::Fail(DeviceError::Unexpected),
{
}

/// What an action carries is what it says: the bytes of the stream, or the error.
pub proof fn law_actions_say_what_they_carry(stream: Vec<u8>, error: DeviceError)
    ensures
        DeviceAction::Finish(stream)@ == DeviceStep::Finish(stream@),
        DeviceAction::Fail(error)@ == DeviceStep::Fail(error),
        DeviceAction::Wait@ is Wait,
        DeviceAction::Poll@ is Poll,
        DeviceAction::Feed@ is Feed,
        DeviceAction::Collect@ is Collect,
        DeviceAction::RenewType@ is RenewType,
        DeviceAction::ReadHeader@ is ReadHeader,
{
}

/// An encoder takes the frames of its own size and no others: as wide, as high, and with
/// four bytes for each pixel.
pub proof fn law_frames_of_one_size_fit(encoder: HardwareEncoder, frame: BgraFrame<'_>)
    ensures
        encoder.fits(frame) <==> {
            &&& frame.width == encoder.geometry().0
            &&& frame.height == encoder.geometry().1
            &&& frame.data@.len() == 4 * (frame.width * frame.height)
        },
{
}

/// Each event touches its own part of what is known: only a sequence header changes the
/// parameter sets, only output marks the stream as begun, and whether the transform sends
/// events never changes. What was collected only grows until the encoding is over, and
/// then it is gone, with the output that was held.
pub proof fn law_events_touch_their_own_part(state: DeviceState, event: DeviceEvent)
    ensures
        ({
            let (next, step) = state.next(event);
            &&& next.is_async == state.is_async
            &&& !(event is Renewed) && !(event is Header) ==> next.parameter_sets
                == state.parameter_sets
            &&& !(event is Collected) && !(event is Header) ==> next.headers_sent
                == state.headers_sent
            &&& !(event is Collected) && !(event is Header) && going_on(step) ==> next.encoded
                == state.encoded
            &&& !(event is Fed) && !(event is Arrived) ==> next.need_input == state.need_input
            &&& !(event is Fed) ==> next.fed == state.fed
            &&& !going_on(step) ==> next.encoded.len() == 0 && next.held.len() == 0
            &&& step matches DeviceStep::Finish(stream) ==> stream == state.encoded
        }),
{
}

/// When a piece of output is complete, the encoder goes on as before: it collects again
/// without events and polls with them, or goes on waiting to hand its picture over.
pub proof fn law_delivery_goes_on(state: DeviceState, output: Seq<u8>)
    ensures
        ({
            let (next, step) = state.deliver(output);
            &&& next.held.len() == 0
            &&& next.is_async == state.is_async
            &&& next.fed == state.fed
            &&& next.need_input == state.need_input
            &&& next.parameter_sets == state.parameter_sets
            &&& in_step(next, step)
            &&& state.fed && !state.is_async ==> step is Collect
            &&& state.fed && state.is_async ==> step is Poll
            &&& !state.fed && state.is_async && state.need_input == 0 ==> step is Wait
            &&& !state.fed && state.is_async && state.need_input > 0 ==> step is Feed
        }),
        state.phase is Collecting ==> ({
            let step = state.next(DeviceEvent::Collected(None)).1;
            &&& state.fed && !state.is_async ==> step is Collect
            &&& state.fed && state.is_async ==> step is Poll
            &&& !state.fed && state.is_async && state.need_input == 0 ==> step is Wait
            &&& !state.fed && state.is_async && state.need_input > 0 ==> step is Feed
        }),
{
}

/// Output that was held is delivered with the parameter sets of the header that was read.
pub proof fn law_held_output_is_delivered(state: DeviceState, header: Option<Vec<u8>>)
    requires
        state.phase is Reading,
    ensures
        state.next(DeviceEvent::Header(header)) == (DeviceState {
            parameter_sets: sets_in(header),
            ..state
        }).deliver(state.held),
{
}

} // verus!
