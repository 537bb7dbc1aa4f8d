//! What host and viewer say to each other, and how a message is framed on the
//! wire: its length in four bytes, then its bytes.
use crate::bytes;
use enigo::agent::Token;
use vstd::prelude::*;

verus! {

/// An input action as the `enigo` crate executes it. The library hands it
/// through and never looks inside.
#[verifier::external_type_specification]
#[verifier::external_body]
pub struct ExToken(enigo::agent::Token);

/// A message between host and viewer.
#[derive(Debug)]
pub enum Message {
    /// The host's first message: the size of its screen.
    Hello {
        /// Pixels in a row.
        width: u32,
        /// Rows.
        height: u32,
    },
    /// A part of the host's H.264 stream.
    Frame(Vec<u8>),
    /// Something the viewer's user did.
    Input(Token),
}

/// A copy of an input action, through the `Clone` impl of `enigo`'s `Token`. Believed
/// of it: the copy is the same action.
pub assume_specification [ <enigo::agent::Token as Clone>::clone ](
    token: &enigo::agent::Token,
) -> (copied: enigo::agent::Token)
    ensures
        copied == *token,
;

impl Clone for Message {
    /// A copy of the message.
    fn clone(&self) -> (copied: Self)
        ensures
            match *self {
                Message::Hello { width, height } => copied == (Message::Hello { width, height }),
                Message::Frame(stream) => {
                    &&& copied matches Message::Frame(same)
                    &&& same@ == stream@
                },
                Message::Input(token) => copied == Message::Input(token),
            },
    {
        match self {
            Message::Hello { width, height } => Message::Hello { width: *width, height: *height },
            Message::Frame(stream) => Message::Frame(bytes::copy(stream.as_slice())),
            Message::Input(token) => Message::Input(token.clone()),
        }
    }
}

/// The bytes of a message on the wire. The length is written modulo two to the
/// thirty-second.
pub open spec fn framed(message: Seq<u8>) -> Seq<u8> {
    bytes::be32_bytes(message.len() as int % 0x1_0000_0000) + message
}

/// The bytes of some messages on the wire, one after the other.
pub open spec fn framed_all(messages: Seq<Seq<u8>>) -> Seq<u8>
    decreases messages.len(),
{
    if messages.len() == 0 {
        Seq::empty()
    } else {
        framed(messages[0]) + framed_all(messages.drop_first())
    }
}

/// The first message in received bytes, and how many bytes it took, if all of
/// the message has arrived.
pub open spec fn first_message(received: Seq<u8>) -> Option<(Seq<u8>, int)> {
    if received.len() < 4 {
        None
    } else {
        let end = 4 + bytes::be32(received, 0);
        if received.len() < end {
            None
        } else {
            Some((received.subrange(4, end), end))
        }
    }
}

/// The messages in received bytes, up to the first that has not wholly arrived.
pub open spec fn messages_in(received: Seq<u8>) -> Seq<Seq<u8>>
    decreases received.len(),
{
    match first_message(received) {
        None => Seq::empty(),
        Some((message, end)) => if end > 0 {
            seq![message] + messages_in(received.skip(end))
        } else {
            Seq::empty()
        },
    }
}

/// Frames a message for the wire.
pub fn write_message(message: &[u8]) -> (wire: Vec<u8>)
    ensures
        wire@ == framed(message@),
{
    let length: usize = message.len();
    let mut wire: Vec<u8> = Vec::new();
    let low: u32 = low_word(length);
    bytes::append_be32(&mut wire, low);
    bytes::append(&mut wire, message);
    assert(wire@ =~= framed(message@));
    wire
}

/// The low thirty-two bits of a length.
fn low_word(length: usize) -> (low: u32)
    ensures
        low == length as int % 0x1_0000_0000,
{
    let wide: u64 = length as u64;
    assert((wide & 0xffff_ffff) == wide % 0x1_0000_0000) by (bit_vector);
    (wide & 0xffff_ffff) as u32
}

/// The length of the message that four received bytes announce.
pub fn message_length(header: [u8; 4]) -> (length: u32)
    ensures
        length == bytes::be32(header@, 0),
{
    bytes::read_be32(header.as_slice(), 0)
}

/// Takes the first message out of received bytes. Returns the message and how
/// many bytes it took, or nothing while a part of it is still to come.
pub fn read_message(received: &[u8]) -> (message: Option<(Vec<u8>, usize)>)
    ensures
        match first_message(received@) {
            Some((bytes, end)) => {
                &&& message matches Some((read, taken))
                &&& read@ == bytes
                &&& taken == end
            },
            None => message is None,
        },
{
    if received.len() < 4 {
        return None;
    }
    let length: u32 = bytes::read_be32(received, 0);
    if ((received.len() - 4) as u64) < length as u64 {
        return None;
    }
    let end: usize = 4 + length as usize;
    Some((bytes::copy(&received[4..end]), end))
}

/// What was written is what is read: a message shorter than four gibibytes comes
/// back from its framed form, whatever follows it on the wire, and reading stops
/// where that message ends.
pub proof fn law_read_gives_back_written(message: Seq<u8>, rest: Seq<u8>)
    requires
        message.len() < 0x1_0000_0000,
    ensures
        first_message(framed(message) + rest) == Some((message, framed(message).len() as int)),
{
    let wire = framed(message) + rest;
    bytes::lemma_be32_round_trip(message.len() as int, message + rest);
    assert(wire =~= bytes::be32_bytes(message.len() as int) + (message + rest));
    assert(wire.subrange(4, 4 + message.len() as int) =~= message);
}

/// A message is read only when all of it has arrived: of a framed message cut
/// off anywhere, nothing is read.
pub proof fn law_cut_off_message_waits(message: Seq<u8>, arrived: int)
    requires
        message.len() < 0x1_0000_0000,
        0 <= arrived < framed(message).len(),
    ensures
        first_message(framed(message).take(arrived)) is None,
{
    let wire = framed(message);
    if arrived >= 4 {
        bytes::lemma_be32_round_trip(message.len() as int, message);
        assert(forall|i: int| 0 <= i < 4 ==> wire.take(arrived)[i] == wire[i]);
        assert(bytes::be32(wire.take(arrived), 0) == bytes::be32(wire, 0));
    }
}

/// Messages keep their order and their borders: some messages framed one after
/// the other are read back one by one.
#[verifier::rlimit(30)]
pub proof fn law_messages_come_in_order(messages: Seq<Seq<u8>>)
    requires
        forall|i: int| 0 <= i < messages.len() ==> (#[trigger] messages[i]).len() < 0x1_0000_0000,
    ensures
        messages_in(framed_all(messages)) == messages,
    decreases messages.len(),
{
    if messages.len() == 0 {
        assert(messages =~= Seq::empty());
    } else {
        let rest = framed_all(messages.drop_first());
        let wire = framed(messages[0]) + rest;
        law_read_gives_back_written(messages[0], rest);
        assert(wire.skip(framed(messages[0]).len() as int) =~= rest);
        assert forall|i: int| 0 <= i < messages.drop_first().len() implies (
        #[trigger] messages.drop_first()[i]).len() < 0x1_0000_0000 by {
            assert(messages.drop_first()[i] == messages[i + 1]);
        }
        law_messages_come_in_order(messages.drop_first());
        assert(messages =~= seq![messages[0]] + messages.drop_first());
    }
}

/// On the wire a message follows four bytes that tell its length, the most significant
/// first. All its bytes are there, unchanged and in order, however many they are.
pub proof fn law_message_follows_its_length(message: Seq<u8>)
    ensures
        framed(message).len() == 4 + message.len(),
        framed(message).skip(4) == message,
        message.len() < 0x1_0000_0000 ==> message.len() == 0x100_0000 * framed(message)[0]
            + 0x1_0000 * framed(message)[1] + 0x100 * framed(message)[2] + framed(message)[3],
        (message.len() - (0x100_0000 * framed(message)[0] + 0x1_0000 * framed(message)[1] + 0x100
            * framed(message)[2] + framed(message)[3])) % 0x1_0000_0000 == 0,
{
    let length = message.len() as int % 0x1_0000_0000;
    bytes::law_bytes_weigh_as_the_number(length);
    assert(framed(message).skip(4) =~= message);
}

/// What is read is what the four bytes announce: where as many bytes have arrived behind
/// them, these and no others, and else nothing.
pub proof fn law_length_decides_what_is_read(received: Seq<u8>, length: int)
    requires
        received.len() >= 4,
        length == 0x100_0000 * received[0] + 0x1_0000 * received[1] + 0x100 * received[2]
            + received[3],
    ensures
        received.len() - 4 >= length ==> {
            &&& first_message(received) matches Some((message, taken))
            &&& taken == 4 + length
            &&& message.len() == length
            &&& forall|i: int| 0 <= i < length ==> #[trigger] message[i] == received[4 + i]
        },
        received.len() - 4 < length ==> first_message(received) is None,
{
}

/// Fewer than four bytes hold no message.
pub proof fn law_length_is_waited_for(received: Seq<u8>)
    requires
        received.len() < 4,
    ensures
        first_message(received) is None,
{
}

} // verus!
