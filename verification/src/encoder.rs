//! Encoders: what all of them promise, and the one that encodes in software.
use crate::annexb;
use crate::annexb::to_annex_b;
use crate::codec;
use crate::codec::{encode_picture, open_encoder, Content, Effort};
use crate::error::EncodeError;
use crate::picture;
use crate::picture::{bgra_to_rgb, validate_frame, BgraFrame};
use openh264::encoder::Encoder;
use vstd::prelude::*;

verus! {

/// A picture that was handed to an encoder, and what came of it.
#[verifier::ext_equal]
pub struct EncodeCall {
    /// Pixels in a row.
    pub width: u32,
    /// Rows.
    pub height: u32,
    /// The picture, as BGRA.
    pub data: Seq<u8>,
    /// The picture's time in the stream.
    pub timestamp_ms: u64,
    /// The bytes that the encoder emitted, or its error.
    pub emitted: Result<Seq<u8>, EncodeError>,
}

/// The stream that a result holds, or its error.
pub open spec fn stream(encoded: Result<Vec<u8>, EncodeError>) -> Result<Seq<u8>, EncodeError> {
    match encoded {
        Ok(bytes) => Ok(bytes@),
        Err(error) => Err(error),
    }
}

/// The record of one call of `VideoEncoder::encode`.
pub open spec fn encode_call(
    frame: BgraFrame<'_>,
    timestamp_ms: u64,
    encoded: Result<Vec<u8>, EncodeError>,
) -> EncodeCall {
    EncodeCall {
        width: frame.width,
        height: frame.height,
        data: frame.data@,
        timestamp_ms,
        emitted: stream(encoded),
    }
}

/// Something that turns pictures of the screen into an H.264 stream, one picture
/// at a time.
pub trait VideoEncoder {
    /// Pictures of this size may be handed over at this time of the stream. An
    /// encoder takes all of them unless it says otherwise.
    open spec fn accepts(width: u32, height: u32, timestamp_ms: u64) -> bool {
        true
    }

    /// The pictures that were handed over so far, in order, and what came of each.
    /// Frames that were turned away for their size are not among them. Unless an
    /// encoder says how it keeps them, this is some function of its state.
    open spec fn calls(&self) -> Seq<EncodeCall> {
        (arbitrary::<spec_fn(&Self) -> Seq<EncodeCall>>())(self)
    }

    /// Encodes a picture. Returns the part of the stream that the encoder
    /// emitted, which may be empty. A frame is turned away if its data does not have
    /// the size that its dimensions ask for.
    fn encode(&mut self, frame: BgraFrame<'_>, timestamp_ms: u64) -> (encoded: Result<
        Vec<u8>,
        EncodeError,
    >)
        requires
            frame.addressable(),
            frame.well_sized() ==> Self::accepts(frame.width, frame.height, timestamp_ms),
        ensures
            !frame.well_sized() ==> encoded == Err::<Vec<u8>, EncodeError>(
                EncodeError::FrameSize {
                    actual: frame.data@.len() as usize,
                    expected: frame.expected() as usize,
                },
            ),
            final(self).calls() == if frame.well_sized() {
                old(self).calls().push(encode_call(frame, timestamp_ms, encoded))
            } else {
                old(self).calls()
            },
    ;
}

/// An encoder that runs on the processor, for hosts without an encoder in
/// hardware.
pub struct SoftwareEncoder {
    encoder: Encoder,
    rgb: Vec<u8>,
    calls: Ghost<Seq<EncodeCall>>,
}

/// What a software encoder returns for what the codec did: the codec's bytes in
/// Annex B form.
pub open spec fn stream_for(emitted: Result<Vec<u8>, openh264::Error>) -> Result<
    Seq<u8>,
    EncodeError,
> {
    match emitted {
        Ok(bytes) => match annexb::as_annex_b(bytes@) {
            Ok(stream) => Ok(stream),
            Err(error) => Err(EncodeError::Bitstream(error)),
        },
        Err(error) => Err(EncodeError::Codec(error)),
    }
}

/// Brings what the codec emitted into Annex B form.
pub fn emitted_stream(emitted: Result<Vec<u8>, openh264::Error>) -> (encoded: Result<
    Vec<u8>,
    EncodeError,
>)
    ensures
        stream(encoded) == stream_for(emitted),
{
    match emitted {
        Ok(bytes) => match to_annex_b(bytes.as_slice()) {
            Ok(stream) => Ok(stream),
            Err(error) => Err(EncodeError::Bitstream(error)),
        },
        Err(error) => Err(EncodeError::Codec(error)),
    }
}

impl SoftwareEncoder {
    /// How the codec was set up: content, effort, whether pictures may be
    /// skipped, and the highest number of frames in a second.
    pub closed spec fn setup(&self) -> (Content, Effort, bool, u32) {
        codec::encoder_setup(self.encoder)
    }

    /// The calls made of the codec so far: the packed RGB picture, its width and
    /// height, its time, and what came back.
    pub closed spec fn codec_calls(&self) -> Seq<
        (Seq<u8>, usize, usize, u64, Result<Seq<u8>, openh264::Error>),
    > {
        codec::encoder_calls(self.encoder)
    }

    /// An encoder for pictures of a screen, at up to `fps` frames in a second,
    /// that skips none of them. Fails where the codec cannot be set up.
    pub fn new(fps: u32) -> (made: Result<Self, openh264::Error>)
        ensures
            made matches Ok(encoder) ==> {
                &&& encoder.setup() == (Content::Screen, Effort::Low, false, fps)
                &&& encoder.codec_calls().len() == 0
                &&& encoder.calls().len() == 0
            },
    {
        Self::from_opened(open_encoder(Content::Screen, Effort::Low, false, fps))
    }

    /// The encoder over a codec, given what came of opening it: there is one exactly
    /// where the codec was opened, else the codec's error.
    pub fn from_opened(opened: Result<Encoder, openh264::Error>) -> (made: Result<
        Self,
        openh264::Error,
    >)
        ensures
            match opened {
                Ok(codec) => {
                    &&& made matches Ok(encoder)
                    &&& encoder.setup() == codec::encoder_setup(codec)
                    &&& encoder.codec_calls() == codec::encoder_calls(codec)
                    &&& encoder.calls().len() == 0
                },
                Err(error) => made == Err::<Self, openh264::Error>(error),
            },
    {
        match opened {
            Ok(encoder) => Ok(
                SoftwareEncoder { encoder, rgb: Vec::new(), calls: Ghost(Seq::empty()) },
            ),
            Err(error) => Err(error),
        }
    }
}

/// How a software encoder encodes a picture. The codec gets the picture as packed
/// RGB, exactly once, with the time as it is; what it emits is returned in Annex B
/// form. A frame that is turned away does not reach the codec.
pub open spec fn software_encoded(
    before: SoftwareEncoder,
    after: SoftwareEncoder,
    frame: BgraFrame<'_>,
    timestamp_ms: u64,
    encoded: Result<Vec<u8>, EncodeError>,
) -> bool {
    &&& after.setup() == before.setup()
    &&& !frame.well_sized() ==> after.codec_calls() == before.codec_calls()
    &&& frame.well_sized() ==> exists|emitted: Result<Vec<u8>, openh264::Error>|
        {
            &&& after.codec_calls() == before.codec_calls().push(
                (
                    picture::packed_rgb(frame.data@),
                    frame.width as usize,
                    frame.height as usize,
                    timestamp_ms,
                    codec::bytes_of(emitted),
                ),
            )
            &&& stream(encoded) == #[trigger] stream_for(emitted)
        }
}

impl VideoEncoder for SoftwareEncoder {
    /// The codec takes even sides only, rows whose bytes can be counted, and times
    /// that fit sixty-three bits.
    open spec fn accepts(width: u32, height: u32, timestamp_ms: u64) -> bool {
        &&& width % 2 == 0
        &&& height % 2 == 0
        &&& width * 3 <= usize::MAX
        &&& timestamp_ms <= i64::MAX
    }

    closed spec fn calls(&self) -> Seq<EncodeCall> {
        self.calls@
    }

    /// Encodes a picture through the codec.
    fn encode(&mut self, frame: BgraFrame<'_>, timestamp_ms: u64) -> (encoded: Result<
        Vec<u8>,
        EncodeError,
    >)
        ensures
            software_encoded(*old(self), *final(self), frame, timestamp_ms, encoded),
    {
        match validate_frame(frame) {
            Ok(()) => {},
            Err(error) => {
                return Err(error);
            },
        }
        let width: usize = frame.width as usize;
        let height: usize = frame.height as usize;
        proof {
            let area = frame.width * frame.height;
            assert(0 <= area) by (nonlinear_arith)
                requires
                    area == frame.width * frame.height,
            ;
        }
        self.rgb.resize(width * height * 3, 0);
        bgra_to_rgb(frame.data, self.rgb.as_mut_slice());
        assert(self.rgb@ =~= picture::packed_rgb(frame.data@));
        let emitted = encode_picture(
            &mut self.encoder,
            self.rgb.as_slice(),
            width,
            height,
            timestamp_ms,
        );
        let ghost outcome = emitted;
        let encoded = emitted_stream(emitted);
        proof {
            assert(stream(encoded) == stream_for(outcome));
            self.calls@ = self.calls@.push(encode_call(frame, timestamp_ms, encoded));
        }
        encoded
    }
}

/// The encoder of a host: one in hardware, or the one in software.
pub enum AnyEncoder<H> {
    /// The one in hardware.
    Hardware(H),
    /// The one in software.
    Software(SoftwareEncoder),
}

impl<H: VideoEncoder> VideoEncoder for AnyEncoder<H> {
    open spec fn accepts(width: u32, height: u32, timestamp_ms: u64) -> bool {
        H::accepts(width, height, timestamp_ms) && SoftwareEncoder::accepts(
            width,
            height,
            timestamp_ms,
        )
    }

    open spec fn calls(&self) -> Seq<EncodeCall> {
        match *self {
            AnyEncoder::Hardware(encoder) => encoder.calls(),
            AnyEncoder::Software(encoder) => encoder.calls(),
        }
    }

    /// Encodes a picture with the encoder that is inside.
    fn encode(&mut self, frame: BgraFrame<'_>, timestamp_ms: u64) -> (encoded: Result<
        Vec<u8>,
        EncodeError,
    >)
        ensures
            match *old(self) {
                AnyEncoder::Hardware(_) => *final(self) is Hardware,
                AnyEncoder::Software(before) => {
                    &&& *final(self) matches AnyEncoder::Software(after)
                    &&& software_encoded(before, after, frame, timestamp_ms, encoded)
                },
            },
    {
        match self {
            AnyEncoder::Hardware(encoder) => encoder.encode(frame, timestamp_ms),
            AnyEncoder::Software(encoder) => encoder.encode(frame, timestamp_ms),
        }
    }
}

/// The encoder for a host, given what came of bringing up the one in hardware: that
/// one, or else one in software for up to `fps` frames in a second. Fails only where
/// neither can be had.
pub fn create_encoder<H, E>(hardware: Result<H, E>, fps: u32) -> (encoder: Result<
    AnyEncoder<H>,
    openh264::Error,
>)
    ensures
        match hardware {
            Ok(hardware) => encoder == Ok::<AnyEncoder<H>, openh264::Error>(
                AnyEncoder::Hardware(hardware),
            ),
            Err(_) => encoder matches Ok(chosen) ==> {
                &&& chosen matches AnyEncoder::Software(software)
                &&& software.setup() == (Content::Screen, Effort::Low, false, fps)
                &&& software.codec_calls().len() == 0
                &&& software.calls().len() == 0
            },
        },
{
    match hardware {
        Ok(encoder) => Ok(AnyEncoder::Hardware(encoder)),
        Err(_) => match SoftwareEncoder::new(fps) {
            Ok(encoder) => Ok(AnyEncoder::Software(encoder)),
            Err(error) => Err(error),
        },
    }
}

/// What the codec emitted is handed on: an Annex B stream as it is, other output in Annex
/// B form, and the codec's error as such.
pub proof fn law_codec_output_is_handed_on(bytes: Vec<u8>, error: openh264::Error)
    ensures
        bytes@.len() == 0 || !annexb::startless(bytes@) ==> stream_for(Ok(bytes)) == Ok::<
            Seq<u8>,
            EncodeError,
        >(bytes@),
        annexb::as_annex_b(bytes@) matches Ok(converted) ==> stream_for(Ok(bytes)) == Ok::<
            Seq<u8>,
            EncodeError,
        >(converted),
        annexb::as_annex_b(bytes@) matches Err(wrong) ==> stream_for(Ok(bytes)) == Err::<
            Seq<u8>,
            EncodeError,
        >(EncodeError::Bitstream(wrong)),
        stream_for(Err(error)) == Err::<Seq<u8>, EncodeError>(EncodeError::Codec(error)),
{
    if bytes@.len() == 0 || !annexb::startless(bytes@) {
        annexb::law_annex_b_passes_unchanged(bytes@);
    }
}

/// A software encoder hands each picture to the codec once: with its width, its height and
/// its time as they are, and with red, green and blue of every pixel at the pixel's place.
/// What it returns is what the codec emitted for this picture. A frame of another size
/// than its data does not reach the codec.
pub proof fn law_codec_gets_every_picture_once(
    before: SoftwareEncoder,
    after: SoftwareEncoder,
    frame: BgraFrame<'_>,
    timestamp_ms: u64,
    encoded: Result<Vec<u8>, EncodeError>,
    pixel: int,
)
    requires
        software_encoded(before, after, frame, timestamp_ms, encoded),
    ensures
        after.setup() == before.setup(),
        frame.data@.len() != 4 * (frame.width * frame.height) ==> after.codec_calls()
            == before.codec_calls(),
        frame.data@.len() == 4 * (frame.width * frame.height) ==> ({
            let call = after.codec_calls().last();
            &&& after.codec_calls().len() == before.codec_calls().len() + 1
            &&& after.codec_calls().drop_last() == before.codec_calls()
            &&& call.0.len() == 3 * (frame.width * frame.height)
            &&& 0 <= pixel < frame.width * frame.height ==> {
                &&& call.0[3 * pixel] == frame.data@[4 * pixel + 2]
                &&& call.0[3 * pixel + 1] == frame.data@[4 * pixel + 1]
                &&& call.0[3 * pixel + 2] == frame.data@[4 * pixel]
            }
            &&& call.1 == frame.width
            &&& call.2 == frame.height
            &&& call.3 == timestamp_ms
            &&& call.4 matches Err(error) ==> encoded == Err::<Vec<u8>, EncodeError>(
                EncodeError::Codec(error),
            )
            &&& call.4 matches Ok(emitted) ==> match annexb::as_annex_b(emitted) {
                Ok(converted) => encoded is Ok && encoded->Ok_0@ == converted,
                Err(wrong) => encoded == Err::<Vec<u8>, EncodeError>(
                    EncodeError::Bitstream(wrong),
                ),
            }
        }),
{
    if frame.well_sized() {
        let emitted = choose|emitted: Result<Vec<u8>, openh264::Error>|
            {
                &&& after.codec_calls() == before.codec_calls().push(
                    (
                        picture::packed_rgb(frame.data@),
                        frame.width as usize,
                        frame.height as usize,
                        timestamp_ms,
                        codec::bytes_of(emitted),
                    ),
                )
                &&& stream(encoded) == #[trigger] stream_for(emitted)
            };
        assert(stream(encoded) == stream_for(emitted));
        assert(after.codec_calls().drop_last() =~= before.codec_calls());
        if 0 <= pixel < frame.width * frame.height {
            picture::law_rgb_holds_every_pixel(frame.data@, Seq::empty(), pixel);
        }
    }
}

/// The record of a call tells the picture as it was handed over and what came of it.
pub proof fn law_calls_are_told_as_they_were(
    frame: BgraFrame<'_>,
    timestamp_ms: u64,
    encoded: Result<Vec<u8>, EncodeError>,
)
    ensures
        ({
            let call = encode_call(frame, timestamp_ms, encoded);
            &&& call.width == frame.width
            &&& call.height == frame.height
            &&& call.data == frame.data@
            &&& call.timestamp_ms == timestamp_ms
            &&& match encoded {
                Ok(bytes) => call.emitted == Ok::<Seq<u8>, EncodeError>(bytes@),
                Err(error) => call.emitted == Err::<Seq<u8>, EncodeError>(error),
            }
            &&& call.emitted == stream(encoded)
        }),
{
}

} // verus!
