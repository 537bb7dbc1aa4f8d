//! The viewer's side of a session: pictures out of the host's stream, and input
//! for the host out of what happens in the window.
use crate::annexb;
use crate::annexb::nal_units;
use crate::codec;
use crate::codec::{copy_out, decode_unit, open_decoder, DecodeError, DecodedFrame, Planes};
use crate::protocol::Message;
use openh264::decoder::Decoder;
use vstd::prelude::*;

verus! {

// ---------------------------------------------------------------------------
// Messages from the host.
// ---------------------------------------------------------------------------

/// News from the connection to the host.
#[derive(Debug)]
pub enum ViewerEvent {
    /// The host has told the size of its screen.
    Connected {
        /// Pixels in a row.
        width: u32,
        /// Rows.
        height: u32,
    },
    /// The next picture of the host's screen.
    Frame(DecodedFrame),
    /// The connection is over, for this reason.
    Disconnected(String),
}

/// The pictures in a record of decoding that can be shown, in order.
pub open spec fn pictures_in(
    calls: Seq<(Seq<u8>, Result<Option<Planes>, openh264::Error>)>,
) -> Seq<Planes>
    decreases calls.len(),
{
    if calls.len() == 0 {
        Seq::empty()
    } else {
        let before = pictures_in(calls.drop_last());
        match calls.last().1 {
            Ok(Some(planes)) => if planes.layout.rows_fit() {
                before.push(planes)
            } else {
                before
            },
            _ => before,
        }
    }
}

/// The calls are those for some units, in order: for all of them, or up to the
/// first that failed.
pub open spec fn decodes(
    calls: Seq<(Seq<u8>, Result<Option<Planes>, openh264::Error>)>,
    units: Seq<Seq<u8>>,
    failure: Option<DecodeError>,
) -> bool {
    &&& calls.len() <= units.len()
    &&& forall|k: int| 0 <= k < calls.len() ==> (#[trigger] calls[k]).0 == units[k]
    &&& forall|k: int|
        0 <= k < calls.len() - 1 ==> codec::failure_of((#[trigger] calls[k]).1) is None
    &&& calls.len() > 0 ==> failure == codec::failure_of(calls.last().1)
    &&& calls.len() < units.len() ==> failure is Some
    &&& calls.len() == 0 ==> failure is None
}

/// The events announce these pictures, one after the other.
pub open spec fn announces(events: Seq<ViewerEvent>, pictures: Seq<Planes>) -> bool {
    &&& events.len() == pictures.len()
    &&& forall|k: int|
        0 <= k < events.len() ==> {
            &&& #[trigger] events[k] matches ViewerEvent::Frame(frame)
            &&& frame.shows(pictures[k])
        }
}

/// The news that a decoded unit gives: its picture, if there is one, or the error.
pub fn announced(decoded: Result<Option<DecodedFrame>, DecodeError>) -> (news: (
    Option<ViewerEvent>,
    Option<DecodeError>,
))
    ensures
        match decoded {
            Ok(Some(frame)) => news == (
                Some(ViewerEvent::Frame(frame)),
                None::<DecodeError>,
            ),
            Ok(None) => news == (None::<ViewerEvent>, None::<DecodeError>),
            Err(error) => news == (None::<ViewerEvent>, Some(error)),
        },
{
    match decoded {
        Ok(Some(frame)) => (Some(ViewerEvent::Frame(frame)), None),
        Ok(None) => (None, None),
        Err(error) => (None, Some(error)),
    }
}

/// The host's stream of pictures, as the viewer decodes it.
pub struct PictureStream {
    decoder: Decoder,
}

impl PictureStream {
    /// The units that were decoded so far, and what each of them gave.
    pub closed spec fn calls(&self) -> Seq<(Seq<u8>, Result<Option<Planes>, openh264::Error>)> {
        codec::decoder_calls(self.decoder)
    }

    /// A stream of which nothing has been decoded. Fails where the codec cannot be
    /// set up.
    pub fn new() -> (made: Result<Self, openh264::Error>)
        ensures
            made matches Ok(stream) ==> stream.calls().len() == 0,
    {
        Self::from_opened(open_decoder())
    }

    /// The stream over a decoder, given what came of opening it: there is one exactly
    /// where the decoder was opened, else the codec's error.
    pub fn from_opened(opened: Result<Decoder, openh264::Error>) -> (made: Result<
        Self,
        openh264::Error,
    >)
        ensures
            match opened {
                Ok(decoder) => {
                    &&& made matches Ok(stream)
                    &&& stream.calls() == codec::decoder_calls(decoder)
                },
                Err(error) => made == Err::<Self, openh264::Error>(error),
            },
    {
        match opened {
            Ok(decoder) => Ok(PictureStream { decoder }),
            Err(error) => Err(error),
        }
    }

    /// Takes a message from the host. Returns the size of its screen, or the
    /// pictures that the message's units gave. If a unit fails, the pictures before it
    /// are still returned, and nothing behind it is decoded.
    pub fn received(&mut self, message: Message) -> (news: (Vec<ViewerEvent>, Option<DecodeError>))
        ensures
            match message {
                Message::Hello { width, height } => {
                    &&& news.0@ == seq![ViewerEvent::Connected { width, height }]
                    &&& news.1 is None
                    &&& final(self).calls() == old(self).calls()
                },
                Message::Frame(data) => exists|
                    calls: Seq<(Seq<u8>, Result<Option<Planes>, openh264::Error>)>,
                |
                    {
                        &&& final(self).calls() == old(self).calls() + calls
                        &&& #[trigger] decodes(calls, annexb::units_from(data@, 0), news.1)
                        &&& announces(news.0@, pictures_in(calls))
                    },
                Message::Input(_) => {
                    &&& news.0@.len() == 0
                    &&& news.1 is None
                    &&& final(self).calls() == old(self).calls()
                },
            },
    {
        let mut events: Vec<ViewerEvent> = Vec::new();
        match message {
            Message::Hello { width, height } => {
                events.push(ViewerEvent::Connected { width, height });
                assert(events@ =~= seq![ViewerEvent::Connected { width, height }]);
                (events, None)
            },
            Message::Frame(data) => {
                let units = nal_units(data.as_slice());
                let ghost split = annexb::units_from(data@, 0);
                let ghost before = codec::decoder_calls(self.decoder);
                let ghost mut calls: Seq<(Seq<u8>, Result<Option<Planes>, openh264::Error>)> =
                    Seq::empty();
                assert(before + calls =~= before);
                let mut failure: Option<DecodeError> = None;
                let mut i: usize = 0;
                while i < units.len() && failure.is_none()
                    invariant
                        i <= units@.len(),
                        units.deep_view() == split,
                        before == codec::decoder_calls(old(self).decoder),
                        codec::decoder_calls(self.decoder) == before + calls,
                        calls.len() == i,
                        forall|k: int| 0 <= k < calls.len() ==> (#[trigger] calls[k]).0 == split[k],
                        forall|k: int|
                            0 <= k < calls.len() - 1 ==> codec::failure_of(
                                (#[trigger] calls[k]).1,
                            ) is None,
                        calls.len() > 0 ==> failure == codec::failure_of(calls.last().1),
                        calls.len() == 0 ==> failure is None,
                        announces(events@, pictures_in(calls)),
                    decreases units.len() - i,
                {
                    assert(units.deep_view()[i as int] == units@[i as int]@);
                    let decoded = decode_unit(&mut self.decoder, units[i].as_slice());
                    let ghost call = (units@[i as int]@, codec::planes_of(decoded));
                    let (event, error) = announced(copy_out(decoded));
                    if let Some(event) = event {
                        events.push(event);
                    }
                    failure = error;
                    proof {
                        let longer = calls.push(call);
                        assert(longer.drop_last() =~= calls);
                        assert((before + calls).push(call) =~= before + longer);
                        calls = longer;
                    }
                    i += 1;
                }
                assert(units.deep_view().len() == units@.len());
                assert(decodes(calls, split, failure));
                (events, failure)
            },
            Message::Input(_) => (events, None),
        }
    }
}

/// A message's units are decoded one by one, from the first on, up to the first that
/// fails. Without a failure all of them were decoded, and all of them well; a failure is
/// that of the last one, and all before it went well.
pub proof fn law_units_are_decoded_up_to_a_failure(
    calls: Seq<(Seq<u8>, Result<Option<Planes>, openh264::Error>)>,
    units: Seq<Seq<u8>>,
    failure: Option<DecodeError>,
    k: int,
)
    requires
        decodes(calls, units, failure),
        0 <= k < calls.len(),
    ensures
        calls.len() <= units.len(),
        calls[k].0 == units[k],
        k < calls.len() - 1 || failure is None ==> match calls[k].1 {
            Ok(Some(planes)) => planes.layout.rows_fit(),
            Ok(None) => true,
            Err(_) => false,
        },
        failure is None ==> calls.len() == units.len(),
        failure matches Some(DecodeError::Codec(error)) ==> calls.last().1 == Err::<
            Option<Planes>,
            openh264::Error,
        >(error),
        failure matches Some(DecodeError::Misfit) ==> {
            &&& calls.last().1 matches Ok(Some(planes))
            &&& !planes.layout.rows_fit()
        },
{
    assert(calls[k].0 == units[k]);
    assert(calls[calls.len() - 1] == calls.last());
}

/// A message with no units decodes nothing and fails on nothing, and one with units has
/// at least the first decoded.
pub proof fn law_units_are_not_left_out(
    calls: Seq<(Seq<u8>, Result<Option<Planes>, openh264::Error>)>,
    units: Seq<Seq<u8>>,
    failure: Option<DecodeError>,
)
    requires
        decodes(calls, units, failure),
    ensures
        units.len() == 0 ==> calls.len() == 0 && failure is None,
        units.len() > 0 ==> calls.len() > 0,
{
}

/// One more unit adds its picture behind the others, if it gave one that fits, and else
/// leaves them as they were.
pub proof fn law_each_unit_adds_its_picture(
    calls: Seq<(Seq<u8>, Result<Option<Planes>, openh264::Error>)>,
    unit: Seq<u8>,
    outcome: Result<Option<Planes>, openh264::Error>,
)
    ensures
        pictures_in(Seq::empty()).len() == 0,
        pictures_in(calls.push((unit, outcome))) == match outcome {
            Ok(Some(planes)) => if planes.layout.rows_fit() {
                pictures_in(calls).push(planes)
            } else {
                pictures_in(calls)
            },
            _ => pictures_in(calls),
        },
{
    assert(calls.push((unit, outcome)).drop_last() =~= calls);
    assert(calls.push((unit, outcome)).last() == (unit, outcome));
}

/// Every picture is announced, in order and none twice, by a frame of its size with three
/// bytes for each pixel.
pub proof fn law_every_picture_is_announced(
    events: Seq<ViewerEvent>,
    pictures: Seq<Planes>,
    k: int,
)
    requires
        announces(events, pictures),
        0 <= k < pictures.len(),
    ensures
        events.len() == pictures.len(),
        events[k] matches ViewerEvent::Frame(frame) && {
            &&& frame.width == pictures[k].layout.width
            &&& frame.height == pictures[k].layout.height
            &&& frame.rgb@.len() == 3 * (frame.width * frame.height)
            &&& codec::shown_as(pictures[k], frame.rgb@)
        },
{
    assert(events[k] is Frame);
}

} // verus!
