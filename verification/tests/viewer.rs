use enigo::agent::Token;
use vantage::codec::{DecodeError, DecodedFrame};
use vantage::encoder::{SoftwareEncoder, VideoEncoder};
use vantage::handoff::CapturedFrame;
use vantage::host::ScreenStream;
use vantage::picture::BgraFrame;
use vantage::protocol::Message;
use vantage::viewer::{announced, PictureStream, ViewerEvent};

#[test]
fn the_size_of_the_screen_is_passed_on() {
    let mut stream = PictureStream::new().unwrap();
    let (events, error) = stream.received(Message::Hello { width: 800, height: 600 });
    assert!(error.is_none());
    assert_eq!(events.len(), 1);
    assert!(matches!(events[0], ViewerEvent::Connected { width: 800, height: 600 }));
}

#[test]
fn input_means_nothing_to_the_viewer() {
    let mut stream = PictureStream::new().unwrap();
    let (events, error) = stream.received(Message::Input(Token::Text("x".to_string())));
    assert!(events.is_empty() && error.is_none());
}

#[test]
fn what_the_host_sends_is_shown() {
    let mut host = ScreenStream::new().unwrap();
    let mut viewer = PictureStream::new().unwrap();
    for (time, shade) in [(0, 30), (33, 120), (66, 230)] {
        let frame = CapturedFrame { width: 64, height: 32, data: vec![shade; 64 * 32 * 4] };
        let message = host.encode(&frame, time).unwrap().unwrap();
        let (events, error) = viewer.received(message);
        assert!(error.is_none());
        assert_eq!(events.len(), 1);
        let ViewerEvent::Frame(shown) = &events[0] else {
            panic!("no picture");
        };
        assert_eq!((shown.width, shown.height, shown.rgb.len()), (64, 32, 64 * 32 * 3));
        for byte in &shown.rgb {
            assert!(byte.abs_diff(shade) < 16, "{byte} for {shade}");
        }
    }
}

#[test]
fn an_empty_stream_gives_no_pictures() {
    let mut viewer = PictureStream::new().unwrap();
    let (events, error) = viewer.received(Message::Frame(Vec::new()));
    assert!(events.is_empty() && error.is_none());
    let (events, error) = viewer.received(Message::Frame(vec![1, 2, 3, 4]));
    assert!(events.is_empty() && error.is_none());
}

#[test]
fn pictures_before_an_error_are_kept() {
    let mut encoder = SoftwareEncoder::new(30).unwrap();
    let data = vec![90; 64 * 32 * 4];
    let mut stream = encoder.encode(BgraFrame { width: 64, height: 32, data: &data }, 0).unwrap();
    stream.extend([0, 0, 0, 1, 0x65, 0x88, 0x84, 0x21]);
    let mut viewer = PictureStream::new().unwrap();
    let (events, error) = viewer.received(Message::Frame(stream));
    assert!(matches!(error, Some(DecodeError::Codec(_))));
    assert_eq!(events.len(), 1);
    assert!(matches!(events[0], ViewerEvent::Frame(_)));
}

#[test]
fn pictures_can_be_had_exactly_where_the_decoder_was_opened() {
    let mut decoder = openh264::decoder::Decoder::new().unwrap();
    let error = decoder.decode(&[0, 0, 1, 0x65, 0x88]).err().unwrap();
    let words = error.to_string();
    assert_eq!(PictureStream::from_opened(Err(error)).err().unwrap().to_string(), words);
    let mut stream = PictureStream::from_opened(openh264::decoder::Decoder::new()).unwrap();
    let (events, error) = stream.received(Message::Hello { width: 3, height: 4 });
    assert!(error.is_none());
    assert!(matches!(events[0], ViewerEvent::Connected { width: 3, height: 4 }));
}

#[test]
fn a_decoded_picture_is_announced() {
    let frame = DecodedFrame { width: 2, height: 1, rgb: vec![1, 2, 3, 4, 5, 6] };
    let (event, error) = announced(Ok(Some(frame)));
    assert!(error.is_none());
    let Some(ViewerEvent::Frame(shown)) = event else {
        panic!("no picture");
    };
    assert_eq!((shown.width, shown.height, shown.rgb), (2, 1, vec![1, 2, 3, 4, 5, 6]));
}

#[test]
fn no_picture_is_no_news() {
    let (event, error) = announced(Ok(None));
    assert!(event.is_none() && error.is_none());
}

#[test]
fn a_failure_is_the_only_news() {
    let (event, error) = announced(Err(DecodeError::Misfit));
    assert!(event.is_none());
    assert!(matches!(error, Some(DecodeError::Misfit)));
    let mut decoder = openh264::decoder::Decoder::new().unwrap();
    let failure = decoder.decode(&[0, 0, 1, 0x65, 0x88]).err().unwrap();
    let words = failure.to_string();
    let (event, error) = announced(Err(DecodeError::Codec(failure)));
    assert!(event.is_none());
    assert_eq!(error.unwrap().message(), words);
}
