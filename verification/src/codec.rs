//! The H.264 codec, as far as the streaming logic uses it.
//!
//! Everything in this file that is marked `external_body` is believed, not
//! proved: it states what the `openh264` crate does in terms that the rest of
//! the library can reason with. What an encoder or a decoder returns depends on
//! its whole past, so each of them is described by the record of the calls made
//! of it: what it was handed and what it handed back.
use openh264::decoder::{DecodedYUV, Decoder};
use openh264::encoder::{Complexity, Encoder, EncoderConfig, FrameRate, UsageType};
use openh264::formats::{RgbSliceU8, YUVBuffer, YUVSource};
use openh264::{OpenH264API, Timestamp};
use vstd::prelude::*;

verus! {

/// The software encoder of the `openh264` crate.
#[verifier::external_type_specification]
#[verifier::external_body]
pub struct ExEncoder(openh264::encoder::Encoder);

/// The decoder of the `openh264` crate.
#[verifier::external_type_specification]
#[verifier::external_body]
pub struct ExDecoder(openh264::decoder::Decoder);

/// A picture inside the decoder of the `openh264` crate.
#[verifier::external_type_specification]
#[verifier::external_body]
pub struct ExDecodedYUV<'a>(openh264::decoder::DecodedYUV<'a>);

/// The error that the `openh264` crate reports.
#[verifier::external_type_specification]
#[verifier::external_body]
pub struct ExCodecError(openh264::Error);

/// What the encoder is told about the pictures it will get.
#[derive(Clone, Copy, Debug, PartialEq, Eq, Structural)]
pub enum Content {
    /// Pictures of a camera, sent as they are taken.
    Camera,
    /// Pictures of a screen, sent as they are taken.
    Screen,
}

/// How much work the encoder spends on a picture.
#[derive(Clone, Copy, Debug, PartialEq, Eq, Structural)]
pub enum Effort {
    /// The fastest setting.
    Low,
    /// The setting between the two others.
    Medium,
    /// The setting with the best pictures.
    High,
}

/// What was asked for when an encoder was made: the kind of content, the effort,
/// whether it may skip pictures, and the highest number of frames in a second.
pub uninterp spec fn encoder_setup(encoder: Encoder) -> (Content, Effort, bool, u32);

/// The calls made of an encoder since it was made, in order. Each entry holds
/// the packed RGB picture, its width, its height, its time in milliseconds, and
/// the bytes that came back, or the encoder's error.
pub uninterp spec fn encoder_calls(encoder: Encoder) -> Seq<
    (Seq<u8>, usize, usize, u64, Result<Seq<u8>, openh264::Error>),
>;

/// How a picture inside the decoder is laid out: a plane of luma, with a byte for each
/// pixel, and two planes of chroma, with a byte for each block of two by two pixels. A
/// plane may be wider than the picture.
#[derive(Clone, Copy, Debug, PartialEq, Eq, Structural)]
pub struct Layout {
    /// Pixels in a row.
    pub width: usize,
    /// Rows.
    pub height: usize,
    /// Bytes from one row of luma to the next.
    pub luma_stride: usize,
    /// Bytes from one row of chroma to the next.
    pub chroma_stride: usize,
    /// Bytes of luma.
    pub y_length: usize,
    /// Bytes of blue differences.
    pub u_length: usize,
    /// Bytes of red differences.
    pub v_length: usize,
}

/// A picture as the decoder holds it.
#[verifier::ext_equal]
pub struct Planes {
    /// How the picture is laid out.
    pub layout: Layout,
    /// The luma.
    pub y: Seq<u8>,
    /// The blue differences.
    pub u: Seq<u8>,
    /// The red differences.
    pub v: Seq<u8>,
}

/// What a picture inside the decoder holds, as the methods of `YUVSource` tell it.
pub uninterp spec fn yuv_planes(yuv: DecodedYUV<'_>) -> Planes;

/// The calls made of a decoder since it was made, in order. Each entry holds the
/// NAL unit and what came back: the picture, if one was ready, or the decoder's
/// error.
pub uninterp spec fn decoder_calls(decoder: Decoder) -> Seq<
    (Seq<u8>, Result<Option<Planes>, openh264::Error>),
>;

/// The bytes are an RGB form of the picture, as `DecodedYUV::write_rgb8` writes it.
/// Machines may differ in the last bit of a colour, so a picture can have several.
pub uninterp spec fn shown_as(planes: Planes, rgb: Seq<u8>) -> bool;

/// Makes an encoder through `Encoder::with_api_config`, on the codec that the
/// crate is built with. Believed of it: the encoder is set up as asked, and no
/// picture has been handed to it yet. The frame rate reaches the codec as the
/// closest single-precision number. Whether an encoder is made at all is up to the
/// codec.
#[verifier::external_body]
pub(crate) fn open_encoder(
    content: Content,
    effort: Effort,
    skip_frames: bool,
    fps: u32,
) -> (opened: Result<Encoder, openh264::Error>)
    ensures
        opened matches Ok(encoder) ==> {
            &&& encoder_setup(encoder) == (content, effort, skip_frames, fps)
            &&& encoder_calls(encoder).len() == 0
        },
{
    let usage = match content {
        Content::Camera => UsageType::CameraVideoRealTime,
        Content::Screen => UsageType::ScreenContentRealTime,
    };
    let complexity = match effort {
        Effort::Low => Complexity::Low,
        Effort::Medium => Complexity::Medium,
        Effort::High => Complexity::High,
    };
    let config = EncoderConfig::new().max_frame_rate(FrameRate::from_hz(fps as _));
    let config = config.usage_type(usage).complexity(complexity).skip_frames(skip_frames);
    Encoder::with_api_config(OpenH264API::from_source(), config)
}

/// Hands one picture to `Encoder::encode_at` and returns its bytes as
/// `EncodedBitStream::to_vec` gives them. Believed of it: the call is recorded
/// with what it was handed and what it returned, and the encoder's setup stays
/// as it was. Which bytes come back, and whether any do, is up to the codec.
///
/// `RgbSliceU8::new` and `YUVBuffer::from_rgb8_source` panic on a picture of
/// another size, on an odd side, and where the bytes of a row are more than a
/// `usize` counts, even if there are no rows; `encode_at` panics on a time beyond
/// `i64`.
#[verifier::external_body]
pub(crate) fn encode_picture(
    encoder: &mut Encoder,
    rgb: &[u8],
    width: usize,
    height: usize,
    timestamp_ms: u64,
) -> (encoded: Result<Vec<u8>, openh264::Error>)
    requires
        rgb@.len() == width * height * 3,
        width % 2 == 0,
        height % 2 == 0,
        width * 3 <= usize::MAX,
        timestamp_ms <= i64::MAX,
    ensures
        encoder_setup(*final(encoder)) == encoder_setup(*old(encoder)),
        encoder_calls(*final(encoder)) == encoder_calls(*old(encoder)).push(
            (rgb@, width, height, timestamp_ms, bytes_of(encoded)),
        ),
{
    let yuv = YUVBuffer::from_rgb8_source(RgbSliceU8::new(rgb, (width, height)));
    let stream = encoder.encode_at(&yuv, Timestamp::from_millis(timestamp_ms))?;
    Ok(stream.to_vec())
}

/// The bytes that an encoding gave, or its error.
pub open spec fn bytes_of(encoded: Result<Vec<u8>, openh264::Error>) -> Result<
    Seq<u8>,
    openh264::Error,
> {
    match encoded {
        Ok(bytes) => Ok(bytes@),
        Err(error) => Err(error),
    }
}

/// A decoded picture: packed RGB, three bytes a pixel, row by row.
#[derive(Debug)]
pub struct DecodedFrame {
    /// Pixels in a row.
    pub width: usize,
    /// Rows.
    pub height: usize,
    /// Red, green and blue of each pixel.
    pub rgb: Vec<u8>,
}

impl View for DecodedFrame {
    type V = (usize, usize, Seq<u8>);

    open spec fn view(&self) -> (usize, usize, Seq<u8>) {
        (self.width, self.height, self.rgb@)
    }
}

impl DecodedFrame {
    /// The picture holds three bytes for each of its pixels.
    pub open spec fn complete(&self) -> bool {
        self.rgb@.len() == self.width * self.height * 3
    }

    /// The picture is an RGB form of what the decoder holds.
    pub open spec fn shows(&self, planes: Planes) -> bool {
        &&& self.width == planes.layout.width
        &&& self.height == planes.layout.height
        &&& self.complete()
        &&& shown_as(planes, self.rgb@)
    }
}

/// Makes a decoder through `Decoder::new`. Believed of it: no unit has been
/// handed to the decoder yet. Whether one is made at all is up to the codec.
#[verifier::external_body]
pub(crate) fn open_decoder() -> (opened: Result<Decoder, openh264::Error>)
    ensures
        opened matches Ok(decoder) ==> decoder_calls(decoder).len() == 0,
{
    Decoder::new()
}

/// What a decoding gave, as the decoder's record holds it.
pub open spec fn planes_of(decoded: Result<Option<DecodedYUV<'_>>, openh264::Error>) -> Result<
    Option<Planes>,
    openh264::Error,
> {
    match decoded {
        Ok(Some(yuv)) => Ok(Some(yuv_planes(yuv))),
        Ok(None) => Ok(None),
        Err(error) => Err(error),
    }
}

/// Hands one NAL unit to `Decoder::decode`. Believed of it: the call is recorded with
/// the unit and what came back. Which picture comes back, and whether one does, is up
/// to the codec. Nothing is believed of how the picture is laid out: it may claim to be
/// wider than its planes are. The crate measures the planes by the height and the
/// strides that the codec reports, in 32 bits; what it does with a plane that is larger
/// is left unsaid.
#[verifier::external_body]
pub(crate) fn decode_unit<'a>(decoder: &'a mut Decoder, unit: &[u8]) -> (decoded: Result<
    Option<DecodedYUV<'a>>,
    openh264::Error,
>)
    ensures
        decoder_calls(*final(decoder)) == decoder_calls(*old(decoder)).push(
            (unit@, planes_of(decoded)),
        ),
{
    decoder.decode(unit)
}

/// Reads the layout of a picture inside the decoder, through `YUVSource::dimensions`,
/// `strides`, `y`, `u` and `v`. Believed of it: the numbers are those of the picture's
/// planes; both planes of chroma have the same stride.
#[verifier::external_body]
pub(crate) fn layout(yuv: &DecodedYUV<'_>) -> (layout: Layout)
    ensures
        layout == yuv_planes(*yuv).layout,
{
    let (width, height) = yuv.dimensions();
    let (luma_stride, chroma_stride, _) = yuv.strides();
    let (y_length, u_length, v_length) = (yuv.y().len(), yuv.u().len(), yuv.v().len());
    Layout { width, height, luma_stride, chroma_stride, y_length, u_length, v_length }
}

/// Copies a picture out of the decoder, through `DecodedYUV::write_rgb8`. Believed of
/// it: the bytes are an RGB form of the picture, three for each pixel. Which of its
/// forms is up to the machine. It panics where a row lies outside the planes.
#[verifier::external_body]
pub(crate) fn to_rgb(yuv: &DecodedYUV<'_>) -> (rgb: Vec<u8>)
    requires
        yuv_planes(*yuv).layout.rows_fit(),
    ensures
        rgb@.len() == yuv_planes(*yuv).layout.width * yuv_planes(*yuv).layout.height * 3,
        shown_as(yuv_planes(*yuv), rgb@),
{
    let mut rgb = vec![0u8; yuv.rgb8_len()];
    yuv.write_rgb8(&mut rgb);
    rgb
}

impl Layout {
    /// Every row of the picture lies inside the planes, and its RGB form fits memory.
    pub open spec fn rows_fit(self) -> bool {
        &&& self.height % 2 == 0
        &&& self.width <= self.luma_stride
        &&& self.width <= 2 * self.chroma_stride
        &&& self.height * self.luma_stride <= self.y_length
        &&& self.height * self.chroma_stride <= 2 * self.u_length
        &&& self.height * self.chroma_stride <= 2 * self.v_length
        &&& self.width * self.height * 3 <= isize::MAX
    }

    /// Whether every row of the picture lies inside the planes, and its RGB form fits
    /// memory.
    pub fn fits(self) -> (fit: bool)
        ensures
            fit == self.rows_fit(),
    {
        let width: u128 = self.width as u128;
        let height: u128 = self.height as u128;
        proof {
            lemma_product(self.height as int, self.luma_stride as int);
            lemma_product(self.height as int, self.chroma_stride as int);
        }
        if self.height % 2 != 0 || self.width > self.luma_stride || width > 2
            * self.chroma_stride as u128 || height * self.luma_stride as u128
            > self.y_length as u128 {
            return false;
        }
        let chroma: u128 = height * self.chroma_stride as u128;
        proof {
            assert(0 <= width * height <= height * self.luma_stride) by (nonlinear_arith)
                requires
                    0 <= width <= self.luma_stride,
                    0 <= height,
            ;
        }
        chroma <= 2 * self.u_length as u128 && chroma <= 2 * self.v_length as u128 && width * height
            * 3 <= isize::MAX as u128
    }
}

/// The product of two machine numbers fits twice their width.
proof fn lemma_product(a: int, b: int)
    requires
        0 <= a <= usize::MAX,
        0 <= b <= usize::MAX,
    ensures
        0 <= a * b <= u128::MAX,
{
    assert(0 <= a * b <= 0xffff_ffff_ffff_ffff * 0xffff_ffff_ffff_ffff) by (nonlinear_arith)
        requires
            0 <= a <= 0xffff_ffff_ffff_ffff,
            0 <= b <= 0xffff_ffff_ffff_ffff,
    ;
}

/// Why a unit gave no picture.
#[derive(Debug)]
pub enum DecodeError {
    /// The codec reported an error.
    Codec(openh264::Error),
    /// The picture does not fit the planes that it came with.
    Misfit,
}

impl DecodeError {
    /// The error as a message. An error of the codec is told in the codec's own
    /// words.
    pub fn message(&self) -> (text: String)
        ensures
            match *self {
                DecodeError::Codec(error) => vstd::string::to_string_from_display_ensures::<
                    openh264::Error,
                >(&error, text),
                DecodeError::Misfit => text@ == "decoded picture does not fit its planes"@,
            },
    {
        match self {
            DecodeError::Codec(error) => error.to_string(),
            DecodeError::Misfit => "decoded picture does not fit its planes".to_string(),
        }
    }
}

/// Why what came back of a unit cannot be shown, if it cannot.
pub open spec fn failure_of(outcome: Result<Option<Planes>, openh264::Error>) -> Option<
    DecodeError,
> {
    match outcome {
        Ok(Some(planes)) => if planes.layout.rows_fit() {
            None
        } else {
            Some(DecodeError::Misfit)
        },
        Ok(None) => None,
        Err(error) => Some(DecodeError::Codec(error)),
    }
}

/// The result is the picture that came back of a unit, in its RGB form, if one did,
/// or why it cannot be shown.
pub open spec fn pictures(
    outcome: Result<Option<Planes>, openh264::Error>,
    decoded: Result<Option<DecodedFrame>, DecodeError>,
) -> bool {
    match failure_of(outcome) {
        Some(failure) => decoded == Err::<Option<DecodedFrame>, DecodeError>(failure),
        None => match outcome->Ok_0 {
            Some(planes) => {
                &&& decoded matches Ok(Some(frame))
                &&& frame.shows(planes)
            },
            None => decoded == Ok::<Option<DecodedFrame>, DecodeError>(None),
        },
    }
}

/// Copies out what the decoder gave, where it fits its planes.
pub fn copy_out(decoded: Result<Option<DecodedYUV<'_>>, openh264::Error>) -> (copy: Result<
    Option<DecodedFrame>,
    DecodeError,
>)
    ensures
        pictures(planes_of(decoded), copy),
{
    match decoded {
        Ok(Some(yuv)) => {
            let layout = layout(&yuv);
            if !layout.fits() {
                return Err(DecodeError::Misfit);
            }
            let rgb = to_rgb(&yuv);
            Ok(Some(DecodedFrame { width: layout.width, height: layout.height, rgb }))
        },
        Ok(None) => Ok(None),
        Err(error) => Err(DecodeError::Codec(error)),
    }
}

/// The size of a picture, if there is one.
pub open spec fn size_in(outcome: Result<Option<Planes>, openh264::Error>) -> Result<
    Option<(usize, usize)>,
    openh264::Error,
> {
    match outcome {
        Ok(Some(planes)) => Ok(Some((planes.layout.width, planes.layout.height))),
        Ok(None) => Ok(None),
        Err(error) => Err(error),
    }
}

/// Reads the size of what the decoder gave. The picture itself stays where it is.
pub fn size(decoded: Result<Option<DecodedYUV<'_>>, openh264::Error>) -> (size: Result<
    Option<(usize, usize)>,
    openh264::Error,
>)
    ensures
        size == size_in(planes_of(decoded)),
{
    match decoded {
        Ok(Some(yuv)) => {
            let layout = layout(&yuv);
            Ok(Some((layout.width, layout.height)))
        },
        Ok(None) => Ok(None),
        Err(error) => Err(error),
    }
}

/// In a layout that fits, every pixel of the picture has its byte of luma, and its block a
/// byte in both planes of chroma. The RGB form can be held.
pub proof fn law_every_pixel_lies_in_the_planes(layout: Layout, x: int, y: int)
    requires
        layout.rows_fit(),
        0 <= x < layout.width,
        0 <= y < layout.height,
    ensures
        0 <= y * layout.luma_stride + x < layout.y_length,
        0 <= y / 2 * layout.chroma_stride + x / 2 < layout.u_length,
        0 <= y / 2 * layout.chroma_stride + x / 2 < layout.v_length,
        3 * (layout.width * layout.height) <= isize::MAX,
{
    let luma = layout.luma_stride as int;
    let chroma = layout.chroma_stride as int;
    let height = layout.height as int;
    assert(0 <= y * luma && y * luma + luma <= height * luma) by (nonlinear_arith)
        requires
            0 <= y < height,
            0 <= luma,
    ;
    assert(0 <= y / 2 * chroma && 2 * (y / 2 * chroma + chroma) <= height * chroma)
        by (nonlinear_arith)
        requires
            0 <= y / 2,
            2 * (y / 2) + 2 <= height,
            0 <= chroma,
    ;
}

/// A picture of even height fits planes that have as many rows as it needs, each at least
/// as long as its own, however large it is.
pub proof fn law_planes_with_room_fit(layout: Layout)
    requires
        layout.height % 2 == 0,
        layout.luma_stride >= layout.width,
        2 * layout.chroma_stride >= layout.width,
        layout.y_length >= layout.height * layout.luma_stride,
        2 * layout.u_length >= layout.height * layout.chroma_stride,
        2 * layout.v_length >= layout.height * layout.chroma_stride,
        3 * (layout.width * layout.height) <= isize::MAX,
    ensures
        layout.rows_fit(),
{
}

/// A picture of odd height never fits, nor does one that is wider than its planes, one of
/// more rows than they hold, or one whose RGB form cannot be held.
pub proof fn law_planes_without_room_do_not_fit(layout: Layout)
    requires
        layout.height % 2 == 1 || layout.width > layout.luma_stride || layout.width > 2
            * layout.chroma_stride || layout.height * layout.luma_stride > layout.y_length
            || layout.height * layout.chroma_stride > 2 * layout.u_length || layout.height
            * layout.chroma_stride > 2 * layout.v_length || 3 * (layout.width * layout.height)
            > isize::MAX,
    ensures
        !layout.rows_fit(),
{
}

/// What comes back of a unit is copied out or refused: an error of the codec is that
/// error, no picture is none, and a picture that fits is one of the same width and height
/// with three bytes for each pixel, an RGB form of it. One that does not fit is refused.
pub proof fn law_pictures_are_copied_or_refused(
    outcome: Result<Option<Planes>, openh264::Error>,
    decoded: Result<Option<DecodedFrame>, DecodeError>,
)
    requires
        pictures(outcome, decoded),
    ensures
        match outcome {
            Err(error) => decoded == Err::<Option<DecodedFrame>, DecodeError>(
                DecodeError::Codec(error),
            ),
            Ok(None) => decoded == Ok::<Option<DecodedFrame>, DecodeError>(None),
            Ok(Some(planes)) => if planes.layout.rows_fit() {
                &&& decoded matches Ok(Some(frame))
                &&& frame.width == planes.layout.width
                &&& frame.height == planes.layout.height
                &&& frame.rgb@.len() == 3 * (frame.width * frame.height)
                &&& shown_as(planes, frame.rgb@)
            } else {
                decoded == Err::<Option<DecodedFrame>, DecodeError>(DecodeError::Misfit)
            },
        },
        failure_of(outcome) == match decoded {
            Err(error) => Some(error),
            Ok(_) => None,
        },
{
}

/// The size of a picture is its width and its height, in this order; where there is no
/// picture there is no size, and an error stays that error.
pub proof fn law_size_is_width_and_height(planes: Planes, error: openh264::Error)
    ensures
        size_in(Ok(Some(planes))) == Ok::<Option<(usize, usize)>, openh264::Error>(
            Some((planes.layout.width, planes.layout.height)),
        ),
        size_in(Ok(None)) == Ok::<Option<(usize, usize)>, openh264::Error>(None),
        size_in(Err(error)) == Err::<Option<(usize, usize)>, openh264::Error>(error),
{
}

/// Bytes and pictures are told as they are, and so are errors.
pub proof fn law_outcomes_are_told_as_they_are(
    bytes: Vec<u8>,
    yuv: DecodedYUV<'_>,
    frame: DecodedFrame,
    error: openh264::Error,
)
    ensures
        bytes_of(Ok(bytes)) == Ok::<Seq<u8>, openh264::Error>(bytes@),
        bytes_of(Err(error)) == Err::<Seq<u8>, openh264::Error>(error),
        planes_of(Ok(Some(yuv))) == Ok::<Option<Planes>, openh264::Error>(Some(yuv_planes(yuv))),
        planes_of(Ok(None)) == Ok::<Option<Planes>, openh264::Error>(None),
        planes_of(Err(error)) == Err::<Option<Planes>, openh264::Error>(error),
        frame@.0 == frame.width,
        frame@.1 == frame.height,
        frame@.2 == frame.rgb@,
        frame.complete() <==> frame.rgb@.len() == 3 * (frame.width * frame.height),
{
}

} // verus!
