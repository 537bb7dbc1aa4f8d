//! What can go wrong while a frame is encoded, and how it is told to people.
use crate::annexb::BitstreamError;
use vstd::prelude::*;
use vstd::string::StringExecFns;

verus! {

/// Why a frame was not encoded.
#[derive(Debug)]
pub enum EncodeError {
    /// The frame's data does not have the size that its dimensions ask for.
    FrameSize {
        /// Bytes in the frame.
        actual: usize,
        /// Bytes that the dimensions ask for.
        expected: usize,
    },
    /// A frame has other dimensions than the stream began with.
    DimensionsChanged,
    /// The encoder emitted something that is no H.264 stream.
    Bitstream(BitstreamError),
    /// The software codec reported an error.
    Codec(openh264::Error),
    /// An encoder of another make reported an error, in these words.
    Other(String),
}

/// The decimal digits of a number, without leading zeros.
pub open spec fn decimal_digits(value: nat) -> Seq<char>
    decreases value,
{
    if value < 10 {
        seq![(48 + value) as char]
    } else {
        decimal_digits(value / 10).push((48 + value % 10) as char)
    }
}

/// A digit as text.
fn digit(value: usize) -> (text: &'static str)
    requires
        value < 10,
    ensures
        text@ == seq![(48 + value) as char],
{
    proof {
        reveal_strlit("0");
        reveal_strlit("1");
        reveal_strlit("2");
        reveal_strlit("3");
        reveal_strlit("4");
        reveal_strlit("5");
        reveal_strlit("6");
        reveal_strlit("7");
        reveal_strlit("8");
        reveal_strlit("9");
    }
    let text = match value {
        0 => "0",
        1 => "1",
        2 => "2",
        3 => "3",
        4 => "4",
        5 => "5",
        6 => "6",
        7 => "7",
        8 => "8",
        _ => "9",
    };
    assert(text@ =~= seq![(48 + value) as char]);
    text
}

/// A number in decimal.
fn decimal(value: usize) -> (text: String)
    ensures
        text@ == decimal_digits(value as nat),
    decreases value,
{
    if value < 10 {
        digit(value).to_string()
    } else {
        let mut text = decimal(value / 10);
        text.append(digit(value % 10));
        assert(text@ =~= decimal_digits(value as nat));
        text
    }
}

/// What is said of a stream that cannot be brought to Annex B form.
pub open spec fn bitstream_text(error: BitstreamError) -> Seq<char> {
    match error {
        BitstreamError::InvalidLength => "invalid length-prefixed H.264 output"@,
        BitstreamError::NotH264 => "H.264 output is neither Annex-B nor length-prefixed AVC"@,
        BitstreamError::MissingPps => "AVC configuration record is missing PPS data"@,
        BitstreamError::TruncatedRecord => "truncated AVC configuration record"@,
        BitstreamError::TruncatedParameterSet => "truncated AVC parameter set"@,
    }
}

impl BitstreamError {
    /// The error as a message.
    pub fn message(&self) -> (text: String)
        ensures
            text@ == bitstream_text(*self),
    {
        match self {
            BitstreamError::InvalidLength => "invalid length-prefixed H.264 output".to_string(),
            BitstreamError::NotH264 => {
                "H.264 output is neither Annex-B nor length-prefixed AVC".to_string()
            },
            BitstreamError::MissingPps => "AVC configuration record is missing PPS data".to_string(),
            BitstreamError::TruncatedRecord => "truncated AVC configuration record".to_string(),
            BitstreamError::TruncatedParameterSet => "truncated AVC parameter set".to_string(),
        }
    }
}

impl EncodeError {
    /// What is said of the error. An error of the codec is told in the codec's own
    /// words.
    pub open spec fn told_as(self, text: String) -> bool {
        match self {
            EncodeError::FrameSize { actual, expected } => text@ == "BGRA frame has "@
                + decimal_digits(actual as nat) + " bytes, expected "@ + decimal_digits(
                expected as nat,
            ),
            EncodeError::DimensionsChanged => text@
                == "Media Foundation encoder dimensions changed during the stream"@,
            EncodeError::Bitstream(error) => text@ == bitstream_text(error),
            EncodeError::Codec(error) => vstd::string::to_string_from_display_ensures::<
                openh264::Error,
            >(&error, text),
            EncodeError::Other(words) => text@ == words@,
        }
    }

    /// The error as a message.
    pub fn message(&self) -> (text: String)
        ensures
            self.told_as(text),
    {
        match self {
            EncodeError::FrameSize { actual, expected } => {
                let mut text = "BGRA frame has ".to_string();
                text.append(decimal(*actual).as_str());
                text.append(" bytes, expected ");
                text.append(decimal(*expected).as_str());
                text
            },
            EncodeError::DimensionsChanged => {
                "Media Foundation encoder dimensions changed during the stream".to_string()
            },
            EncodeError::Bitstream(error) => error.message(),
            EncodeError::Codec(error) => error.to_string(),
            EncodeError::Other(words) => words.as_str().to_string(),
        }
    }
}

/// The number that decimal digits stand for.
pub open spec fn number_in(digits: Seq<char>) -> int
    decreases digits.len(),
{
    if digits.len() == 0 {
        0
    } else {
        10 * number_in(digits.drop_last()) + (digits.last() as int - 48)
    }
}

/// A number in decimal can be read back, whatever its size: it is made of digits alone,
/// they stand for the number, and no zero leads them but that of the number zero.
pub proof fn law_decimals_read_back(value: nat, i: int)
    ensures
        number_in(decimal_digits(value)) == value,
        decimal_digits(value).len() > 0,
        0 <= i < decimal_digits(value).len() ==> 48 <= decimal_digits(value)[i] as int <= 57,
        value > 0 ==> decimal_digits(value)[0] as int != 48,
    decreases value,
{
    reveal_with_fuel(number_in, 2);
    if value >= 10 {
        let front = decimal_digits(value / 10);
        law_decimals_read_back(value / 10, i);
        assert(decimal_digits(value).drop_last() =~= front);
        assert(decimal_digits(value)[0] == front[0]);
        if 0 <= i < front.len() {
            assert(decimal_digits(value)[i] == front[i]);
        }
    } else {
        assert(decimal_digits(value).drop_last() =~= Seq::<char>::empty());
    }
}

/// A frame of the wrong size is told with both sizes, the one that it has first, whatever
/// they are. What another encoder says, and what is wrong with a stream, is told in just
/// these words.
pub proof fn law_errors_are_told_in_full(
    actual: usize,
    expected: usize,
    words: String,
    wrong: BitstreamError,
    text: String,
)
    ensures
        (EncodeError::FrameSize { actual, expected }).told_as(text) ==> text@ == "BGRA frame has "@
            + decimal_digits(actual as nat) + " bytes, expected "@ + decimal_digits(
            expected as nat,
        ),
        EncodeError::Other(words).told_as(text) ==> text@ == words@,
        EncodeError::Bitstream(wrong).told_as(text) ==> text@ == bitstream_text(wrong),
        EncodeError::DimensionsChanged.told_as(text) ==> text@
            == "Media Foundation encoder dimensions changed during the stream"@,
        bitstream_text(wrong) == match wrong {
            BitstreamError::InvalidLength => "invalid length-prefixed H.264 output"@,
            BitstreamError::NotH264 => "H.264 output is neither Annex-B nor length-prefixed AVC"@,
            BitstreamError::MissingPps => "AVC configuration record is missing PPS data"@,
            BitstreamError::TruncatedRecord => "truncated AVC configuration record"@,
            BitstreamError::TruncatedParameterSet => "truncated AVC parameter set"@,
        },
{
}

} // verus!
