//! The host's side of a session: which captured pictures go into the handoff, what
//! is sent for a picture, and what is done with a message from the viewer.
use crate::codec;
use crate::codec::{encode_picture, open_encoder, Content, Effort};
use crate::handoff::CapturedFrame;
use crate::picture;
use crate::picture::{bgra_to_rgb, frame_hash};
use crate::protocol::Message;
use enigo::agent::Token;
use openh264::encoder::Encoder;
use vstd::prelude::*;

verus! {

/// How many pictures a second the host captures and sends, at most.
pub const TARGET_FPS: u32 = 30;

/// How many pictures are dropped after capturing began.
pub const WARMUP_FRAMES: usize = 5;

// ---------------------------------------------------------------------------
// Capturing.
// ---------------------------------------------------------------------------

/// A picture as the capture engine hands it out.
#[derive(Debug)]
pub enum Capture {
    /// Blue, green, red and alpha of each pixel.
    Bgra {
        /// Pixels in a row.
        width: i32,
        /// Rows.
        height: i32,
        /// The pixels, row by row.
        data: Vec<u8>,
    },
    /// A picture in some other layout.
    Other,
}

/// Why capturing stopped.
#[derive(Clone, Copy, Debug, PartialEq, Eq, Structural)]
pub enum CaptureError {
    /// The system cannot capture its screen.
    Unsupported,
    /// A picture has another layout than was asked for.
    NotBgra,
}

impl CaptureError {
    /// The error as a message.
    pub fn message(&self) -> (text: &'static str)
        ensures
            match *self {
                CaptureError::Unsupported => text
                    == "screen capture unsupported on this system (needs Windows 10 1903+ for Graphics Capture)",
                CaptureError::NotBgra => text
                    == "expected a BGRA frame from the Windows capture engine",
            },
    {
        match self {
            CaptureError::Unsupported => {
                "screen capture unsupported on this system (needs Windows 10 1903+ for Graphics Capture)"
            },
            CaptureError::NotBgra => "expected a BGRA frame from the Windows capture engine",
        }
    }
}

/// The course of capturing: some pictures are dropped, then each goes into the
/// handoff, as long as the session runs.
pub struct CaptureLoop {
    /// How many pictures are still to be dropped.
    pub warmup: usize,
}

impl CaptureLoop {
    /// Capturing begins.
    pub fn new() -> (capture: Self)
        ensures
            capture.warmup == WARMUP_FRAMES,
    {
        CaptureLoop { warmup: WARMUP_FRAMES }
    }

    /// Whether another picture is to be captured. A session that stops is noticed
    /// only after the dropped pictures.
    pub fn goes_on(&self, running: bool) -> (more: bool)
        ensures
            more == (self.warmup > 0 || running),
    {
        self.warmup > 0 || running
    }

    /// Takes a captured picture; returns the one that goes into the handoff.
    pub fn captured(&mut self, capture: Capture) -> (frame: Result<
        Option<CapturedFrame>,
        CaptureError,
    >)
        ensures
            final(self).warmup == if old(self).warmup > 0 {
                old(self).warmup - 1
            } else {
                0
            },
            old(self).warmup > 0 ==> frame == Ok::<Option<CapturedFrame>, CaptureError>(None),
            old(self).warmup == 0 ==> match capture {
                Capture::Bgra { width, height, data } => frame == Ok::<
                    Option<CapturedFrame>,
                    CaptureError,
                >(Some(CapturedFrame { width: width as u32, height: height as u32, data })),
                Capture::Other => frame == Err::<Option<CapturedFrame>, CaptureError>(
                    CaptureError::NotBgra,
                ),
            },
    {
        if self.warmup > 0 {
            self.warmup = self.warmup - 1;
            return Ok(None);
        }
        match capture {
            Capture::Bgra { width, height, data } => Ok(
                Some(CapturedFrame { width: width as u32, height: height as u32, data }),
            ),
            Capture::Other => Err(CaptureError::NotBgra),
        }
    }
}

/// How many pictures are still to be dropped after so many were captured.
pub open spec fn warmup_after(captured: nat) -> int
    decreases captured,
{
    if captured == 0 {
        WARMUP_FRAMES as int
    } else {
        let before = warmup_after((captured - 1) as nat);
        if before > 0 {
            before - 1
        } else {
            0
        }
    }
}

/// The first five pictures are dropped, and none behind them.
pub proof fn law_five_pictures_are_dropped(captured: nat)
    ensures
        warmup_after(captured) > 0 <==> captured < 5,
        captured <= 5 ==> warmup_after(captured) == 5 - captured,
    decreases captured,
{
    if captured > 0 {
        law_five_pictures_are_dropped((captured - 1) as nat);
    }
}

// ---------------------------------------------------------------------------
// Encoding.
// ---------------------------------------------------------------------------

/// The fingerprint of a picture.
pub open spec fn fingerprint(data: Seq<u8>) -> u64 {
    picture::fnv1a(picture::samples(data))
}

/// A buffer brought to a length: cut off, or filled up with zeros.
pub open spec fn resized(buffer: Seq<u8>, length: int) -> Seq<u8> {
    if length <= buffer.len() {
        buffer.take(length)
    } else {
        buffer + Seq::new((length - buffer.len()) as nat, |i: int| 0u8)
    }
}

/// What the host remembers of the pictures that it sent.
#[verifier::ext_equal]
pub struct StreamState {
    /// The size of the screen has been sent.
    pub announced: bool,
    /// The fingerprint of the last picture that was sent.
    pub last_hash: Option<u64>,
    /// The last picture that was sent, as RGB.
    pub rgb: Seq<u8>,
}

impl StreamState {
    /// Nothing has been sent yet.
    pub open spec fn started() -> StreamState {
        StreamState { announced: false, last_hash: None, rgb: Seq::empty() }
    }

    /// What is remembered after the size of the screen was sent.
    pub open spec fn greeted(self) -> StreamState {
        StreamState { announced: true, ..self }
    }

    /// The picture differs from the last one, as far as fingerprints tell.
    pub open spec fn changed(self, frame: CapturedFrame) -> bool {
        self.last_hash != Some(fingerprint(frame.data@))
    }

    /// The RGB picture that is encoded for a captured one. Where the capture holds
    /// fewer pixels than its size says, the rest stays as it was in the buffer.
    pub open spec fn repacked(self, frame: CapturedFrame) -> Seq<u8> {
        picture::rgb_over(frame.data@, resized(self.rgb, frame.width * frame.height * 3))
    }

    /// What is remembered after a picture was encoded.
    pub open spec fn encoded(self, frame: CapturedFrame) -> StreamState {
        StreamState {
            announced: self.announced,
            last_hash: Some(fingerprint(frame.data@)),
            rgb: self.repacked(frame),
        }
    }
}

/// The codec takes a picture of this size at this time.
pub open spec fn codable(frame: CapturedFrame, elapsed_ms: u64) -> bool {
    &&& frame.width % 2 == 0
    &&& frame.height % 2 == 0
    &&& frame.width * 3 <= usize::MAX
    &&& frame.width * frame.height * 3 <= usize::MAX
    &&& elapsed_ms <= i64::MAX
}

/// What the host sends for what the codec did: its bytes as a message, or its error.
pub open spec fn sent_for(
    emitted: Result<Seq<u8>, openh264::Error>,
    sent: Result<Option<Message>, openh264::Error>,
) -> bool {
    match emitted {
        Ok(bytes) => sent matches Ok(Some(Message::Frame(stream))) && stream@ == bytes,
        Err(error) => sent == Err::<Option<Message>, openh264::Error>(error),
    }
}

/// Makes the message for what the codec did.
pub fn answer(emitted: Result<Vec<u8>, openh264::Error>) -> (sent: Result<
    Option<Message>,
    openh264::Error,
>)
    ensures
        sent_for(codec::bytes_of(emitted), sent),
{
    match emitted {
        Ok(stream) => Ok(Some(Message::Frame(stream))),
        Err(error) => Err(error),
    }
}

/// The stream of pictures that the host sends to a viewer.
pub struct ScreenStream {
    encoder: Encoder,
    announced: bool,
    last_hash: Option<u64>,
    rgb: Vec<u8>,
}

impl View for ScreenStream {
    type V = StreamState;

    closed spec fn view(&self) -> StreamState {
        StreamState { announced: self.announced, last_hash: self.last_hash, rgb: self.rgb@ }
    }
}

impl ScreenStream {
    /// How the codec was set up: content, effort, whether pictures may be
    /// skipped, and the highest number of frames in a second.
    pub closed spec fn setup(&self) -> (Content, Effort, bool, u32) {
        codec::encoder_setup(self.encoder)
    }

    /// The calls made of the codec so far: the packed RGB picture, its width and
    /// height, its time, and what came back.
    pub closed spec fn codec_calls(&self) -> Seq<
        (Seq<u8>, usize, usize, u64, Result<Seq<u8>, openh264::Error>),
    > {
        codec::encoder_calls(self.encoder)
    }

    /// A stream that nothing has been sent of. Fails where the codec cannot be set
    /// up.
    pub fn new() -> (made: Result<Self, openh264::Error>)
        ensures
            made matches Ok(stream) ==> {
                &&& stream.setup() == (Content::Screen, Effort::Low, false, TARGET_FPS)
                &&& stream.setup().3 == 30
                &&& stream.codec_calls().len() == 0
                &&& stream@ == StreamState::started()
            },
    {
        Self::from_opened(open_encoder(Content::Screen, Effort::Low, false, TARGET_FPS))
    }

    /// The stream over a codec, given what came of opening it: there is one exactly
    /// where the codec was opened, else the codec's error. Nothing has been sent of
    /// it.
    pub fn from_opened(opened: Result<Encoder, openh264::Error>) -> (made: Result<
        Self,
        openh264::Error,
    >)
        ensures
            match opened {
                Ok(codec) => {
                    &&& made matches Ok(stream)
                    &&& stream.setup() == codec::encoder_setup(codec)
                    &&& stream.codec_calls() == codec::encoder_calls(codec)
                    &&& stream@ == StreamState::started()
                },
                Err(error) => made == Err::<Self, openh264::Error>(error),
            },
    {
        match opened {
            Ok(encoder) => {
                let stream = ScreenStream {
                    encoder,
                    announced: false,
                    last_hash: None,
                    rgb: Vec::new(),
                };
                assert(stream@.rgb =~= Seq::empty());
                Ok(stream)
            },
            Err(error) => Err(error),
        }
    }

    /// What is sent ahead of a picture: the size of the screen, before the first.
    pub fn greeting(&mut self, frame: &CapturedFrame) -> (message: Option<Message>)
        ensures
            final(self)@ == old(self)@.greeted(),
            final(self).setup() == old(self).setup(),
            final(self).codec_calls() == old(self).codec_calls(),
            message == if old(self)@.announced {
                None::<Message>
            } else {
                Some(Message::Hello { width: frame.width, height: frame.height })
            },
    {
        if self.announced {
            return None;
        }
        self.announced = true;
        Some(Message::Hello { width: frame.width, height: frame.height })
    }

    /// Whether the picture differs from the last one that was sent, as far as
    /// fingerprints tell.
    pub fn changed(&self, frame: &CapturedFrame) -> (changed: bool)
        ensures
            changed == self@.changed(*frame),
    {
        let hash: u64 = frame_hash(frame.data.as_slice());
        match self.last_hash {
            Some(last) => last != hash,
            None => true,
        }
    }

    /// What is sent for a picture that was captured after so many milliseconds:
    /// nothing where the screen has not changed, else what the codec makes of it.
    pub fn encode(&mut self, frame: &CapturedFrame, elapsed_ms: u64) -> (sent: Result<
        Option<Message>,
        openh264::Error,
    >)
        requires
            old(self)@.changed(*frame) ==> codable(*frame, elapsed_ms),
        ensures
            final(self).setup() == old(self).setup(),
            !old(self)@.changed(*frame) ==> {
                &&& sent == Ok::<Option<Message>, openh264::Error>(None)
                &&& final(self)@ == old(self)@
                &&& final(self).codec_calls() == old(self).codec_calls()
            },
            old(self)@.changed(*frame) ==> {
                &&& final(self)@ == old(self)@.encoded(*frame)
                &&& exists|emitted: Result<Seq<u8>, openh264::Error>|
                    {
                        &&& final(self).codec_calls() == old(self).codec_calls().push(
                            (
                                old(self)@.repacked(*frame),
                                frame.width as usize,
                                frame.height as usize,
                                elapsed_ms,
                                emitted,
                            ),
                        )
                        &&& #[trigger] sent_for(emitted, sent)
                    }
            },
    {
        let ghost before = self@;
        let hash: u64 = frame_hash(frame.data.as_slice());
        if let Some(last) = self.last_hash {
            if last == hash {
                return Ok(None);
            }
        }
        self.last_hash = Some(hash);
        let width: usize = frame.width as usize;
        let height: usize = frame.height as usize;
        proof {
            let area = frame.width * frame.height;
            assert(0 <= area) by (nonlinear_arith)
                requires
                    area == frame.width * frame.height,
            ;
        }
        let length: usize = width * height * 3;
        self.rgb.resize(length, 0);
        assert(self.rgb@ =~= resized(before.rgb, length as int)) by {
            if length > before.rgb.len() {
                assert(forall|i: int|
                    0 <= i < before.rgb.len() ==> self.rgb@[i] == self.rgb@.subrange(
                        0,
                        before.rgb.len() as int,
                    )[i]);
            }
        }
        bgra_to_rgb(frame.data.as_slice(), self.rgb.as_mut_slice());
        let emitted = encode_picture(
            &mut self.encoder,
            self.rgb.as_slice(),
            width,
            height,
            elapsed_ms,
        );
        let ghost outcome = codec::bytes_of(emitted);
        let sent = answer(emitted);
        assert(sent_for(outcome, sent));
        sent
    }
}

/// A full picture is encoded as it was captured, whatever was sent before it.
pub proof fn law_full_pictures_are_encoded_as_captured(state: StreamState, frame: CapturedFrame)
    requires
        frame.data@.len() == frame.width * frame.height * 4,
    ensures
        state.repacked(frame) == picture::packed_rgb(frame.data@),
{
    let area = frame.width * frame.height;
    assert(0 <= area) by (nonlinear_arith)
        requires
            area == frame.width * frame.height,
    ;
    let buffer = resized(state.rgb, area * 3);
    assert(buffer.len() == area * 3);
    assert(state.repacked(frame) =~= picture::packed_rgb(frame.data@));
}

/// An unchanged screen is not sent again: a picture that agrees with the one just
/// sent in every sampled byte counts as unchanged.
pub proof fn law_unchanged_screen_is_not_sent(
    state: StreamState,
    frame: CapturedFrame,
    again: CapturedFrame,
)
    requires
        frame.data@.len() == again.data@.len(),
        forall|i: int|
            0 <= i < frame.data@.len() && i % 32 == 0 ==> #[trigger] frame.data@[i]
                == again.data@[i],
    ensures
        !state.encoded(frame).changed(again),
{
    picture::law_only_samples_count(frame.data@, again.data@);
}

/// A change in a single sampled byte is sent.
pub proof fn law_sampled_change_is_sent(
    state: StreamState,
    frame: CapturedFrame,
    next: CapturedFrame,
    at: int,
)
    requires
        frame.data@.len() == next.data@.len(),
        0 <= at < frame.data@.len(),
        at % 32 == 0,
        frame.data@[at] != next.data@[at],
        forall|i: int|
            0 <= i < frame.data@.len() && i % 32 == 0 && i != at ==> #[trigger] frame.data@[i]
                == next.data@[i],
    ensures
        state.encoded(frame).changed(next),
{
    picture::law_one_sampled_change_is_noticed(frame.data@, next.data@, at);
}

// ---------------------------------------------------------------------------
// A whole session.
// ---------------------------------------------------------------------------

/// A captured picture, and what the codec makes of it where it is handed over.
pub struct Turn {
    /// The picture.
    pub frame: CapturedFrame,
    /// The codec's part of the stream.
    pub stream: Seq<u8>,
}

/// A message that the host sends.
pub enum Sent {
    /// The size of the screen.
    Hello {
        /// Pixels in a row.
        width: u32,
        /// Rows.
        height: u32,
    },
    /// A part of the stream.
    Frame(Seq<u8>),
}

/// What the host remembers after some pictures: each is greeted, and encoded where
/// it has changed.
pub open spec fn state_after(turns: Seq<Turn>) -> StreamState
    decreases turns.len(),
{
    if turns.len() == 0 {
        StreamState::started()
    } else {
        let state = state_after(turns.drop_last()).greeted();
        if state.changed(turns.last().frame) {
            state.encoded(turns.last().frame)
        } else {
            state
        }
    }
}

/// What the host sends for some pictures, in order: for each the greeting, where it
/// is still owed, then its part of the stream, where it has changed.
pub open spec fn sent_in(turns: Seq<Turn>) -> Seq<Sent>
    decreases turns.len(),
{
    if turns.len() == 0 {
        Seq::empty()
    } else {
        let state = state_after(turns.drop_last());
        let frame = turns.last().frame;
        let hello = if state.announced {
            Seq::empty()
        } else {
            seq![Sent::Hello { width: frame.width, height: frame.height }]
        };
        let stream = if state.changed(frame) {
            seq![Sent::Frame(turns.last().stream)]
        } else {
            Seq::empty()
        };
        sent_in(turns.drop_last()) + hello + stream
    }
}

/// The picture at a place is the first, or has another fingerprint than the one
/// before it.
pub open spec fn differs(turns: Seq<Turn>, at: int) -> bool {
    at == 0 || fingerprint(turns[at].frame.data@) != fingerprint(turns[at - 1].frame.data@)
}

/// The parts of the stream of the pictures that differ from the one before.
pub open spec fn differing(turns: Seq<Turn>) -> Seq<Sent>
    decreases turns.len(),
{
    if turns.len() == 0 {
        Seq::empty()
    } else {
        differing(turns.drop_last()) + if differs(turns, turns.len() - 1) {
            seq![Sent::Frame(turns.last().stream)]
        } else {
            Seq::empty()
        }
    }
}

/// A session begins with the size of the screen, which is told once and never again.
/// Then come the parts of the stream, one for each picture that differs from the one
/// before it, in order.
pub proof fn law_session_is_one_hello_then_the_changes(turns: Seq<Turn>)
    requires
        turns.len() > 0,
    ensures
        sent_in(turns) == seq![
            Sent::Hello { width: turns[0].frame.width, height: turns[0].frame.height },
        ] + differing(turns),
        forall|i: int| 0 <= i < differing(turns).len() ==> (#[trigger] differing(turns)[i]) is Frame,
        state_after(turns).announced,
        state_after(turns).last_hash == Some(fingerprint(turns.last().frame.data@)),
    decreases turns.len(),
{
    let before = turns.drop_last();
    let last = turns.len() - 1;
    if before.len() == 0 {
        assert(differing(before) =~= Seq::empty());
        assert(sent_in(before) =~= Seq::empty());
        assert(sent_in(turns) =~= seq![
            Sent::Hello { width: turns[0].frame.width, height: turns[0].frame.height },
        ] + differing(turns));
    } else {
        law_session_is_one_hello_then_the_changes(before);
        assert(before.last() == turns[last - 1]);
        assert(state_after(before).changed(turns.last().frame) == differs(turns, last));
        assert(sent_in(turns) =~= seq![
            Sent::Hello { width: turns[0].frame.width, height: turns[0].frame.height },
        ] + differing(turns));
    }
}

// ---------------------------------------------------------------------------
// Messages from the viewer.
// ---------------------------------------------------------------------------

/// The input action in a message from the viewer. Other messages have no meaning
/// for the host and are passed over.
pub fn received_input(message: Message) -> (input: Option<Token>)
    ensures
        match message {
            Message::Input(token) => input == Some(token),
            _ => input is None,
        },
{
    match message {
        Message::Input(token) => Some(token),
        _ => None,
    }
}

// ---------------------------------------------------------------------------
// What is remembered and sent, byte by byte.
// ---------------------------------------------------------------------------

/// A picture's fingerprint takes in the first of every thirty-two bytes, however long the
/// picture is: up to thirty-two bytes more, behind whole groups of thirty-two, are an
/// exclusive or with the first of them, then a multiplication modulo two to the
/// sixty-fourth.
pub proof fn law_fingerprint_takes_in_group_by_group(data: Seq<u8>, group: Seq<u8>)
    requires
        data.len() % 32 == 0,
        0 < group.len() <= 32,
    ensures
        fingerprint(Seq::empty()) == 0xcbf2_9ce4_8422_2325,
        fingerprint(data + group) == (fingerprint(data) ^ group[0] as u64) * 0x100_0000_01b3
            % 0x1_0000_0000_0000_0000,
{
    picture::law_fingerprint_takes_in_group_by_group(data, group);
}

/// Fingerprints decide what is sent: the first picture always is, and a later one exactly
/// where its fingerprint is another than that of the last one sent. Telling the size of
/// the screen changes nothing about it.
pub proof fn law_fingerprints_decide_what_is_sent(
    state: StreamState,
    sent: CapturedFrame,
    next: CapturedFrame,
)
    ensures
        StreamState::started().changed(next),
        state.last_hash is None ==> state.changed(next),
        state.encoded(sent).changed(next) <==> fingerprint(sent.data@) != fingerprint(next.data@),
        state.greeted().changed(next) == state.changed(next),
        state.last_hash == Some(fingerprint(sent.data@)) ==> (state.changed(next) <==> fingerprint(
            sent.data@,
        ) != fingerprint(next.data@)),
{
}

/// The codec gets every pixel of a capture at its place, as red, green and blue, whatever
/// was sent before. Behind the pixels that the capture holds stands what the last picture
/// left there, and zeros where it left nothing.
pub proof fn law_codec_gets_every_captured_pixel(
    state: StreamState,
    frame: CapturedFrame,
    pixel: int,
    i: int,
)
    ensures
        state.repacked(frame).len() == 3 * (frame.width * frame.height),
        0 <= pixel < frame.width * frame.height && 4 * pixel + 4 <= frame.data@.len() ==> {
            &&& state.repacked(frame)[3 * pixel] == frame.data@[4 * pixel + 2]
            &&& state.repacked(frame)[3 * pixel + 1] == frame.data@[4 * pixel + 1]
            &&& state.repacked(frame)[3 * pixel + 2] == frame.data@[4 * pixel]
        },
        0 <= i < 3 * (frame.width * frame.height) && i / 3 * 4 + 4 > frame.data@.len()
            ==> state.repacked(frame)[i] == if i < state.rgb.len() {
            state.rgb[i]
        } else {
            0
        },
{
    let area = frame.width * frame.height;
    assert(0 <= area) by (nonlinear_arith)
        requires
            area == frame.width * frame.height,
    ;
    let buffer = resized(state.rgb, area * 3);
    assert(buffer.len() == area * 3);
    if 0 <= pixel < area && 4 * pixel + 4 <= frame.data@.len() {
        picture::law_rgb_holds_every_pixel(frame.data@, buffer, pixel);
    }
    if 0 <= i < 3 * area && i / 3 * 4 + 4 > frame.data@.len() {
        picture::law_rgb_leaves_the_rest(frame.data@, buffer, i);
    }
}

/// Encoding a picture keeps its fingerprint and its RGB form for the next one, and nothing
/// else; telling the size of the screen keeps that it was told, and nothing else.
pub proof fn law_only_the_last_picture_is_remembered(state: StreamState, frame: CapturedFrame)
    ensures
        state.encoded(frame).last_hash == Some(fingerprint(frame.data@)),
        state.encoded(frame).rgb == state.repacked(frame),
        state.encoded(frame).announced == state.announced,
        state.greeted().announced,
        state.greeted().last_hash == state.last_hash,
        state.greeted().rgb == state.rgb,
        !StreamState::started().announced,
        StreamState::started().last_hash is None,
        StreamState::started().rgb.len() == 0,
{
}

/// What the codec emitted is sent as it is, all of it and nothing more, and its error is
/// handed on as it is.
pub proof fn law_codec_output_is_sent_as_it_is(
    emitted: Result<Seq<u8>, openh264::Error>,
    sent: Result<Option<Message>, openh264::Error>,
)
    requires
        sent_for(emitted, sent),
    ensures
        match sent {
            Ok(Some(Message::Frame(data))) => emitted == Ok::<Seq<u8>, openh264::Error>(data@),
            Ok(_) => false,
            Err(error) => emitted == Err::<Seq<u8>, openh264::Error>(error),
        },
{
}

} // verus!
