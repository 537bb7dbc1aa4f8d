use enigo::agent::Token;
use vantage::handoff::CapturedFrame;
use vantage::host::{answer, received_input, Capture, CaptureError, CaptureLoop, ScreenStream};
use vantage::protocol::Message;

fn bgra(width: i32) -> Capture {
    Capture::Bgra { width, height: 2, data: vec![width as u8; 3] }
}

#[test]
fn the_first_five_pictures_are_dropped() {
    let mut capture = CaptureLoop::new();
    for number in 0..5 {
        assert!(capture.goes_on(false));
        let taken = capture.captured(if number % 2 == 0 { bgra(1) } else { Capture::Other });
        assert!(taken.unwrap().is_none());
    }
    assert!(capture.goes_on(true));
    assert!(!capture.goes_on(false));
    let frame = capture.captured(bgra(6)).unwrap().unwrap();
    assert_eq!((frame.width, frame.height, frame.data), (6, 2, vec![6; 3]));
    let frame = capture.captured(bgra(7)).unwrap().unwrap();
    assert_eq!(frame.width, 7);
}

#[test]
fn a_picture_in_another_layout_ends_capturing() {
    let mut capture = CaptureLoop { warmup: 0 };
    let error = capture.captured(Capture::Other).unwrap_err();
    assert_eq!(error, CaptureError::NotBgra);
    assert_eq!(error.message(), "expected a BGRA frame from the Windows capture engine");
    assert_eq!(
        CaptureError::Unsupported.message(),
        "screen capture unsupported on this system (needs Windows 10 1903+ for Graphics Capture)"
    );
}

fn picture(shade: u8) -> CapturedFrame {
    CapturedFrame { width: 32, height: 16, data: vec![shade; 32 * 16 * 4] }
}

#[test]
fn the_size_of_the_screen_is_told_once() {
    let mut stream = ScreenStream::new().unwrap();
    let hello = stream.greeting(&picture(1));
    assert!(matches!(hello, Some(Message::Hello { width: 32, height: 16 })));
    assert!(stream.greeting(&picture(2)).is_none());
    assert!(stream.greeting(&picture(3)).is_none());
}

#[test]
fn an_unchanged_screen_is_not_sent_again() {
    let mut stream = ScreenStream::new().unwrap();
    assert!(stream.changed(&picture(9)));
    assert!(matches!(stream.encode(&picture(9), 0), Ok(Some(Message::Frame(_)))));
    assert!(!stream.changed(&picture(9)));
    assert!(matches!(stream.encode(&picture(9), 40), Ok(None)));
    let mut hidden = picture(9);
    hidden.data[33] = 200;
    assert!(matches!(stream.encode(&hidden, 80), Ok(None)));
    let mut seen = picture(9);
    seen.data[64] = 200;
    assert!(stream.changed(&seen));
    assert!(matches!(stream.encode(&seen, 120), Ok(Some(Message::Frame(_)))));
    assert!(matches!(stream.encode(&picture(9), 160), Ok(Some(Message::Frame(_)))));
}

#[test]
fn a_short_picture_is_still_sent() {
    let mut stream = ScreenStream::new().unwrap();
    let short = CapturedFrame { width: 32, height: 16, data: vec![1, 2, 3, 4] };
    match stream.encode(&short, 0) {
        Ok(Some(Message::Frame(bytes))) => assert!(!bytes.is_empty()),
        other => panic!("{other:?}"),
    }
}

#[test]
fn only_input_means_something_to_the_host() {
    let token = Token::Text("hi".to_string());
    assert_eq!(received_input(Message::Input(token.clone())), Some(token));
    assert_eq!(received_input(Message::Hello { width: 1, height: 1 }), None);
    assert_eq!(received_input(Message::Frame(vec![1])), None);
}

#[test]
fn there_is_a_stream_exactly_where_the_codec_was_opened() {
    let mut stream = ScreenStream::from_opened(openh264::encoder::Encoder::new()).unwrap();
    assert!(stream.greeting(&picture(1)).is_some());
    assert!(matches!(stream.encode(&picture(1), 0), Ok(Some(Message::Frame(_)))));
    let mut decoder = openh264::decoder::Decoder::new().unwrap();
    let error = decoder.decode(&[0, 0, 1, 0x65, 0x88]).err().unwrap();
    let words = error.to_string();
    assert_eq!(ScreenStream::from_opened(Err(error)).err().unwrap().to_string(), words);
}

#[test]
fn a_session_is_one_hello_then_the_changes() {
    let mut stream = ScreenStream::new().unwrap();
    let mut sent = Vec::new();
    for (time, shade) in [10, 10, 200, 200, 200, 10].into_iter().enumerate() {
        let frame = picture(shade);
        sent.extend(stream.greeting(&frame));
        sent.extend(stream.encode(&frame, time as u64 * 33).unwrap());
    }
    assert_eq!(sent.len(), 4);
    assert!(matches!(sent[0], Message::Hello { width: 32, height: 16 }));
    assert!(sent[1..].iter().all(|message| matches!(message, Message::Frame(_))));
}

#[test]
fn the_bytes_of_the_codec_are_the_answer() {
    let sent = answer(Ok(vec![1, 2, 3])).unwrap();
    assert!(matches!(sent, Some(Message::Frame(data)) if data == [1, 2, 3]));
    let sent = answer(Ok(Vec::new())).unwrap();
    assert!(matches!(sent, Some(Message::Frame(data)) if data.is_empty()));
}

#[test]
fn the_error_of_the_codec_is_the_answer() {
    let mut decoder = openh264::decoder::Decoder::new().unwrap();
    let error = decoder.decode(&[0, 0, 1, 0x65, 0x88]).err().unwrap();
    let words = error.to_string();
    assert_eq!(answer(Err(error)).err().unwrap().to_string(), words);
}
