use std::time::Duration;
use vantage::bench::{
    draw_moving_frame, examine, fill_rect, finish, rank, record, run_encoder, verify_decode,
    verify_with, weighed, BenchError, Ranks, Recording,
};
use vantage::encoder::{SoftwareEncoder, VideoEncoder};
use vantage::error::EncodeError;
use vantage::picture::BgraFrame;

const SCREEN: usize = 1920 * 1080 * 4;

fn pixel(screen: &[u8], x: usize, y: usize) -> [u8; 4] {
    let at = (y * 1920 + x) * 4;
    [screen[at], screen[at + 1], screen[at + 2], screen[at + 3]]
}

#[test]
fn a_box_is_filled_and_nothing_else() {
    let mut screen = vec![1; SCREEN];
    fill_rect(&mut screen, 10, 20, 3, [5, 6, 7, 8]);
    for y in 18..25 {
        for x in 8..15 {
            let inside = (10..13).contains(&x) && (20..23).contains(&y);
            assert_eq!(pixel(&screen, x, y), if inside { [5, 6, 7, 8] } else { [1; 4] });
        }
    }
    assert_eq!(screen.iter().filter(|byte| **byte != 1).count(), 36);
}

#[test]
fn a_box_without_size_draws_nothing() {
    let mut screen = vec![1; 8];
    fill_rect(&mut screen, 900, 900, 0, [9; 4]);
    assert_eq!(screen, vec![1; 8]);
}

#[test]
fn the_box_moves_and_leaves_the_background() {
    let mut screen = vec![3; SCREEN];
    draw_moving_frame(&mut screen, 0);
    assert_eq!(pixel(&screen, 0, 0), [0, 0, 0, 255]);
    assert_eq!(pixel(&screen, 95, 95), [0, 0, 0, 255]);
    assert_eq!(pixel(&screen, 96, 0), [3; 4]);
    draw_moving_frame(&mut screen, 1);
    assert_eq!(pixel(&screen, 0, 0), [1, 18, 12, 255]);
    assert_eq!(pixel(&screen, 10, 6), [24, 18, 12, 255]);
    assert_eq!(pixel(&screen, 11, 7), [17, 29, 43, 255]);
    assert_eq!(pixel(&screen, 106, 102), [17, 29, 43, 255]);
    assert_eq!(pixel(&screen, 107, 102), [3; 4]);
}

#[test]
fn the_box_leaves_no_trail() {
    let mut screen = [24, 18, 12, 255].repeat(1920 * 1080);
    for frame in 0..200 {
        draw_moving_frame(&mut screen, frame);
    }
    let (left, top) = (199 * 11 % 1824, 199 * 7 % 984);
    assert_eq!(screen[0], 199);
    for (i, byte) in screen.iter().enumerate().skip(1) {
        let (x, y) = (i / 4 % 1920, i / 4 / 1920);
        let inside = (left..left + 96).contains(&x) && (top..top + 96).contains(&y);
        let colour = if inside { [55, 139, 109, 255] } else { [24, 18, 12, 255] };
        assert_eq!(*byte, colour[i % 4]);
    }
}

#[test]
fn the_box_stays_on_the_screen() {
    let mut screen = vec![0; SCREEN];
    for frame in 0..2000 {
        draw_moving_frame(&mut screen, frame);
        let (x, y) = (frame * 11 % 1824, frame * 7 % 984);
        assert_eq!(pixel(&screen, x + 95, y + 95)[3], 255);
    }
}

#[test]
fn colours_and_places_start_over() {
    let mut screen = vec![0; SCREEN];
    draw_moving_frame(&mut screen, 270);
    assert_eq!(screen[0], 14);
    let (x, y) = (270 * 11 % 1824, 270 * 7 % 984);
    assert_eq!(pixel(&screen, x, y), [238, 150, 90, 255]);
}

/// Emits a fixed part for each frame, and fails on the frame at `fails_at`.
struct Scripted {
    part: Vec<u8>,
    seen: usize,
    fails_at: usize,
}

impl VideoEncoder for Scripted {
    fn encode(&mut self, frame: BgraFrame<'_>, timestamp_ms: u64) -> Result<Vec<u8>, EncodeError> {
        assert_eq!((frame.width, frame.height), (1920, 1080));
        assert_eq!(frame.data.len(), SCREEN);
        assert_eq!(frame.data[0], self.seen as u8);
        assert_eq!(timestamp_ms, self.seen as u64 * 1000 / 30);
        if self.seen == self.fails_at {
            return Err(EncodeError::DimensionsChanged);
        }
        self.seen += 1;
        Ok(self.part.clone())
    }
}

/// Encodes the first frame and leaves the others out.
struct FirstOnly {
    encoder: SoftwareEncoder,
    seen: usize,
}

impl VideoEncoder for FirstOnly {
    fn encode(&mut self, frame: BgraFrame<'_>, timestamp_ms: u64) -> Result<Vec<u8>, EncodeError> {
        self.seen += 1;
        if self.seen == 1 {
            self.encoder.encode(frame, timestamp_ms)
        } else {
            Ok(Vec::new())
        }
    }
}

#[test]
fn a_failing_encoder_ends_the_run() {
    let encoder = Scripted { part: vec![1], seen: 0, fails_at: 3 };
    let error = run_encoder("scripted", encoder).unwrap_err();
    assert!(matches!(error, BenchError::Encode(EncodeError::DimensionsChanged)));
    assert_eq!(
        error.message(),
        "Media Foundation encoder dimensions changed during the stream"
    );
}

fn recording() -> Recording {
    Recording { bitstream: vec![7], frames_encoded: 1, durations: vec![Duration::ZERO] }
}

#[test]
fn a_part_is_added_to_a_recording() {
    let mut recording = recording();
    recording.add(vec![8, 9], Duration::from_millis(2));
    recording.add(Vec::new(), Duration::from_millis(3));
    assert_eq!(recording.bitstream, vec![7, 8, 9]);
    assert_eq!(recording.frames_encoded, 2);
    let times = [0, 2, 3].map(Duration::from_millis);
    assert_eq!(recording.durations, times);
}

#[test]
fn a_run_is_made_of_the_recording_and_the_verdict() {
    let run = finish("path", Ok(recording()), Ok(true)).unwrap();
    assert_eq!((run.path, run.frames_encoded, run.decode_verified), ("path", 1, true));
    assert_eq!(run.durations, vec![Duration::ZERO]);
    let error = finish("path", Ok(recording()), Ok(false)).unwrap_err();
    assert!(matches!(error, BenchError::NotDecoded("path")));
    let error = finish("path", Err(EncodeError::DimensionsChanged), Ok(true)).unwrap_err();
    assert!(matches!(error, BenchError::Encode(EncodeError::DimensionsChanged)));
    let mut decoder = openh264::decoder::Decoder::new().unwrap();
    let failure = decoder.decode(&[0, 0, 1, 0x65, 0x88]).err().unwrap();
    let error = finish("path", Ok(recording()), Err(failure)).unwrap_err();
    assert!(matches!(error, BenchError::Decode(_)));
}

#[test]
fn a_recording_holds_all_parts_in_order() {
    let mut encoder = Scripted { part: vec![4, 2], seen: 0, fails_at: 999 };
    let recording = record(&mut encoder).unwrap();
    assert_eq!(encoder.seen, 300);
    assert_eq!(recording.bitstream, [4, 2].repeat(300));
    assert_eq!(recording.frames_encoded, 300);
    assert_eq!(recording.durations.len(), 300);
}

#[test]
fn a_stream_without_a_picture_is_reported() {
    let encoder = Scripted { part: Vec::new(), seen: 0, fails_at: 999 };
    let error = run_encoder("scripted", encoder).unwrap_err();
    assert!(matches!(error, BenchError::NotDecoded("scripted")));
    assert_eq!(error.message(), "scripted encoder output did not decode at 1920x1080");
}

#[test]
fn a_stream_that_cannot_be_decoded_is_reported() {
    let part = vec![0, 0, 0, 1, 0x65, 0x88, 0x84, 0x21, 0x43, 0x65, 0x87];
    let encoder = Scripted { part, seen: 0, fails_at: 999 };
    let error = run_encoder("scripted", encoder).unwrap_err();
    assert!(matches!(error, BenchError::Decode(_)));
    assert!(!error.message().is_empty());
}

#[test]
fn a_run_counts_the_frames_that_gave_something() {
    let encoder = FirstOnly { encoder: SoftwareEncoder::new(30).unwrap(), seen: 0 };
    let run = run_encoder("first", encoder).unwrap();
    assert_eq!((run.path, run.frames_encoded, run.decode_verified), ("first", 1, true));
    assert_eq!(run.durations.len(), 300);
}

#[test]
fn only_a_picture_of_the_right_size_counts() {
    let mut encoder = SoftwareEncoder::new(30).unwrap();
    let data = vec![50; 64 * 64 * 4];
    let stream = encoder.encode(BgraFrame { width: 64, height: 64, data: &data }, 0).unwrap();
    assert!(!verify_decode(&stream).unwrap());
    assert!(!verify_decode(&[]).unwrap());
    let mut decoder = openh264::decoder::Decoder::new().unwrap();
    assert!(!examine(&mut decoder, &stream).unwrap());
}

#[test]
fn a_decoder_that_cannot_be_opened_is_reported() {
    let error = openh264::decoder::Decoder::new().unwrap().decode(&[0, 0, 1, 0x65, 0x88]).err();
    let words = error.as_ref().unwrap().to_string();
    let found = verify_with(Err(error.unwrap()), &[]);
    assert_eq!(found.unwrap_err().to_string(), words);
}

#[test]
fn a_size_is_weighed() {
    assert!(weighed(Ok(Some((1920, 1080)))).unwrap().unwrap());
    for size in [(1920, 1088), (1919, 1080), (1080, 1920), (0, 0)] {
        assert!(weighed(Ok(Some(size))).is_none());
    }
    assert!(weighed(Ok(None)).is_none());
    let error = openh264::decoder::Decoder::new().unwrap().decode(&[0, 0, 1, 0x65, 0x88]).err();
    let words = error.as_ref().unwrap().to_string();
    assert_eq!(weighed(Err(error.unwrap())).unwrap().unwrap_err().to_string(), words);
}

#[test]
fn an_opened_decoder_gives_the_verdict() {
    let mut encoder = SoftwareEncoder::new(30).unwrap();
    let data = vec![50; SCREEN];
    let stream = encoder.encode(BgraFrame { width: 1920, height: 1080, data: &data }, 0).unwrap();
    assert!(verify_with(openh264::decoder::Decoder::new(), &stream).unwrap());
    assert!(!verify_with(openh264::decoder::Decoder::new(), &[]).unwrap());
    assert!(verify_decode(&stream).unwrap());
}

#[test]
fn ranks_are_taken_from_the_sorted_list() {
    assert_eq!(rank(vec![7]), Ranks { median: 7, p95: 7 });
    assert_eq!(rank(vec![9, 1]), Ranks { median: 9, p95: 9 });
    assert_eq!(rank(vec![5, 3, 4, 1, 2]), Ranks { median: 3, p95: 5 });
    assert_eq!(rank((1..=100).rev().collect()), Ranks { median: 51, p95: 95 });
    assert_eq!(rank((1..=300).rev().collect()), Ranks { median: 151, p95: 285 });
    assert_eq!(rank((1..=21).collect()), Ranks { median: 11, p95: 20 });
}
