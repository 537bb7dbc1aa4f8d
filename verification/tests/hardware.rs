use vantage::annexb::BitstreamError;
use vantage::error::EncodeError;
use vantage::hardware::{
    activation_calls, media_type_parameter_sets, needs_buffer, pack_ratio, sends_events,
    video_type, ActivationCall, DeviceAction, DeviceError, DeviceEvent, HardwareEncoder, VideoType, ME_TRANSFORM_HAVE_OUTPUT, ME_TRANSFORM_NEED_INPUT,
    MF_E_NO_EVENTS_AVAILABLE, MF_E_TRANSFORM_NEED_MORE_INPUT, MF_E_TRANSFORM_STREAM_CHANGE,
};
use vantage::picture::BgraFrame;

const SETS: [u8; 12] = [0, 0, 0, 1, 0x67, 1, 0, 0, 0, 1, 0x68, 2];
const SLICE: [u8; 6] = [0, 0, 0, 1, 0x65, 9];

fn synchronous(header: Option<Vec<u8>>) -> HardwareEncoder {
    HardwareEncoder::new(4, 2, 30, 0, false, header)
}

fn asynchronous(header: Option<Vec<u8>>) -> HardwareEncoder {
    HardwareEncoder::new(4, 2, 30, 0, true, header)
}

fn finished(action: DeviceAction) -> Vec<u8> {
    match action {
        DeviceAction::Finish(stream) => stream,
        other => panic!("not finished: {other:?}"),
    }
}

#[test]
fn ratios_are_packed_into_halves() {
    assert_eq!(pack_ratio(1920, 1080), 1920 << 32 | 1080);
    assert_eq!(pack_ratio(u32::MAX, 1), 0xFFFF_FFFF_0000_0001);
    let packed = pack_ratio(30, 1001);
    assert_eq!((packed >> 32, packed & 0xFFFF_FFFF), (30, 1001));
    assert_eq!(
        video_type(640, 480, 25),
        VideoType {
            frame_size: 640 << 32 | 480,
            frame_rate: 25 << 32 | 1,
            pixel_aspect_ratio: 1 << 32 | 1,
        }
    );
}

#[test]
fn a_transform_is_activated_in_order() {
    let attributes = video_type(640, 480, 25);
    let plain = vec![
        ActivationCall::LowLatency,
        ActivationCall::SetOutputType { attributes, bitrate: 8_000_000, profile: 77 },
        ActivationCall::SetInputType { attributes },
        ActivationCall::ReadBufferSize,
        ActivationCall::ReadHeader,
        ActivationCall::Flush,
        ActivationCall::BeginStreaming,
        ActivationCall::StartStream,
    ];
    assert_eq!(activation_calls(false, 640, 480, 25), plain);
    let mut events = plain;
    events.insert(0, ActivationCall::UnlockAsync);
    events.insert(5, ActivationCall::ReadEvents);
    assert_eq!(activation_calls(true, 640, 480, 25), events);
}

#[test]
fn the_attribute_tells_whether_a_transform_sends_events() {
    assert!(sends_events(Some(1)));
    assert!(!sends_events(Some(0)));
    assert!(!sends_events(None));
}

#[test]
fn a_transform_with_its_own_samples_needs_no_buffer() {
    assert!(needs_buffer(0));
    assert!(needs_buffer(0xFFFF_FEFF));
    assert!(!needs_buffer(0x100));
    assert!(!needs_buffer(0x107));
}

#[test]
fn a_header_that_cannot_be_read_counts_as_none() {
    assert_eq!(media_type_parameter_sets(None), Vec::<u8>::new());
    assert_eq!(media_type_parameter_sets(Some(vec![9, 9])), Vec::<u8>::new());
    assert_eq!(media_type_parameter_sets(Some(SETS.to_vec())), SETS.to_vec());
}

#[test]
fn output_buffers_hold_at_least_a_byte_for_each_pixel() {
    assert_eq!(HardwareEncoder::new(4, 2, 30, 5, false, None).output_size(), 8);
    assert_eq!(HardwareEncoder::new(4, 2, 30, 900, false, None).output_size(), 900);
}

#[test]
fn a_sample_holds_nv12_time_and_duration() {
    let encoder = synchronous(None);
    let data = [255; 32];
    let sample = encoder.input_sample(BgraFrame { width: 4, height: 2, data: &data }, 40).unwrap();
    assert_eq!(sample.nv12, vec![235, 235, 235, 235, 235, 235, 235, 235, 128, 128, 128, 128]);
    assert_eq!(sample.time, 400_000);
    assert_eq!(sample.duration, 333_333);
}

#[test]
fn frames_of_another_size_are_turned_away() {
    let encoder = synchronous(None);
    let data = [0; 32];
    let error = encoder.input_sample(BgraFrame { width: 4, height: 4, data: &data }, 0).unwrap_err();
    assert!(matches!(error, EncodeError::FrameSize { actual: 32, expected: 64 }));
    let error = encoder.input_sample(BgraFrame { width: 2, height: 4, data: &data }, 0).unwrap_err();
    assert!(matches!(error, EncodeError::DimensionsChanged));
}

#[test]
fn frames_are_turned_away_whatever_the_stream_is_like() {
    let encoder = HardwareEncoder::new(3, 5, 0, 0, false, None);
    let data = [0; 8];
    let error = encoder.input_sample(BgraFrame { width: 3, height: 5, data: &data }, u64::MAX);
    assert!(matches!(error, Err(EncodeError::FrameSize { actual: 8, expected: 60 })));
    let error = encoder.input_sample(BgraFrame { width: 2, height: 1, data: &data }, u64::MAX);
    assert!(matches!(error, Err(EncodeError::DimensionsChanged)));
}

#[test]
fn a_transform_without_events_is_fed_then_emptied() {
    let mut encoder = synchronous(Some(SETS.to_vec()));
    assert!(matches!(encoder.begin(), DeviceAction::Feed));
    assert!(matches!(encoder.step(DeviceEvent::Fed), DeviceAction::Collect));
    let mut first = SETS.to_vec();
    first.extend(SLICE);
    assert!(matches!(
        encoder.step(DeviceEvent::Collected(Some(first.clone()))),
        DeviceAction::Collect
    ));
    assert!(matches!(
        encoder.step(DeviceEvent::Collected(Some(vec![0, 0, 0, 2, 0x41, 7]))),
        DeviceAction::Collect
    ));
    assert!(matches!(encoder.step(DeviceEvent::Collected(None)), DeviceAction::Collect));
    first.extend([0, 0, 0, 1, 0x41, 7]);
    let stream = finished(encoder.step(DeviceEvent::Refused(MF_E_TRANSFORM_NEED_MORE_INPUT)));
    assert_eq!(stream, first);
}

#[test]
fn the_first_output_is_led_by_the_parameter_sets_and_no_other() {
    let mut encoder = synchronous(Some(SETS.to_vec()));
    for round in 0..3 {
        encoder.begin();
        encoder.step(DeviceEvent::Fed);
        encoder.step(DeviceEvent::Collected(Some(SLICE.to_vec())));
        let stream = finished(encoder.step(DeviceEvent::Refused(MF_E_TRANSFORM_NEED_MORE_INPUT)));
        let mut expected = if round == 0 { SETS.to_vec() } else { Vec::new() };
        expected.extend(SLICE);
        assert_eq!(stream, expected);
    }
}

#[test]
fn missing_parameter_sets_are_read_with_the_output() {
    let mut encoder = synchronous(None);
    encoder.begin();
    encoder.step(DeviceEvent::Fed);
    assert!(matches!(
        encoder.step(DeviceEvent::Collected(Some(SLICE.to_vec()))),
        DeviceAction::ReadHeader
    ));
    assert!(matches!(
        encoder.step(DeviceEvent::Header(Some(SETS.to_vec()))),
        DeviceAction::Collect
    ));
    let stream = finished(encoder.step(DeviceEvent::Refused(MF_E_TRANSFORM_NEED_MORE_INPUT)));
    let mut expected = SETS.to_vec();
    expected.extend(SLICE);
    assert_eq!(stream, expected);
}

#[test]
fn an_unknown_header_leaves_the_output_as_it_is() {
    let mut encoder = synchronous(None);
    encoder.begin();
    encoder.step(DeviceEvent::Fed);
    encoder.step(DeviceEvent::Collected(Some(SLICE.to_vec())));
    encoder.step(DeviceEvent::Header(None));
    let stream = finished(encoder.step(DeviceEvent::Failed(MF_E_TRANSFORM_NEED_MORE_INPUT)));
    assert_eq!(stream, SLICE.to_vec());
}

#[test]
fn a_changed_stream_type_is_taken_up() {
    let mut encoder = synchronous(None);
    encoder.begin();
    encoder.step(DeviceEvent::Fed);
    assert!(matches!(
        encoder.step(DeviceEvent::Refused(MF_E_TRANSFORM_STREAM_CHANGE)),
        DeviceAction::RenewType
    ));
    assert!(matches!(
        encoder.step(DeviceEvent::Renewed(Some(SETS.to_vec()))),
        DeviceAction::Collect
    ));
    encoder.step(DeviceEvent::Collected(Some(SLICE.to_vec())));
    let stream = finished(encoder.step(DeviceEvent::Refused(MF_E_TRANSFORM_NEED_MORE_INPUT)));
    let mut expected = SETS.to_vec();
    expected.extend(SLICE);
    assert_eq!(stream, expected);
}

#[test]
fn a_transform_with_events_is_fed_only_on_request() {
    let mut encoder = asynchronous(Some(SETS.to_vec()));
    assert!(matches!(encoder.begin(), DeviceAction::Wait));
    assert!(matches!(encoder.step(DeviceEvent::Arrived(700)), DeviceAction::Wait));
    assert!(matches!(
        encoder.step(DeviceEvent::Arrived(ME_TRANSFORM_HAVE_OUTPUT)),
        DeviceAction::Collect
    ));
    assert!(matches!(
        encoder.step(DeviceEvent::Collected(Some(SETS.to_vec()))),
        DeviceAction::Wait
    ));
    assert!(matches!(
        encoder.step(DeviceEvent::Arrived(ME_TRANSFORM_NEED_INPUT)),
        DeviceAction::Feed
    ));
    assert_eq!(encoder.requests(), 1);
    assert!(matches!(encoder.step(DeviceEvent::Fed), DeviceAction::Poll));
    assert_eq!(encoder.requests(), 0);
    assert!(matches!(
        encoder.step(DeviceEvent::Arrived(ME_TRANSFORM_HAVE_OUTPUT)),
        DeviceAction::Collect
    ));
    assert!(matches!(
        encoder.step(DeviceEvent::Collected(Some(SLICE.to_vec()))),
        DeviceAction::Poll
    ));
    let stream = finished(encoder.step(DeviceEvent::NoEvent(MF_E_NO_EVENTS_AVAILABLE)));
    let mut expected = SETS.to_vec();
    expected.extend(SLICE);
    assert_eq!(stream, expected);
}

#[test]
fn requests_that_come_early_are_kept_for_the_next_picture() {
    let mut encoder = asynchronous(None);
    encoder.begin();
    encoder.step(DeviceEvent::Arrived(ME_TRANSFORM_NEED_INPUT));
    encoder.step(DeviceEvent::Fed);
    assert!(matches!(
        encoder.step(DeviceEvent::Arrived(ME_TRANSFORM_NEED_INPUT)),
        DeviceAction::Poll
    ));
    assert!(matches!(
        encoder.step(DeviceEvent::Arrived(ME_TRANSFORM_NEED_INPUT)),
        DeviceAction::Poll
    ));
    assert!(finished(encoder.step(DeviceEvent::NoEvent(MF_E_NO_EVENTS_AVAILABLE))).is_empty());
    assert_eq!(encoder.requests(), 2);
    assert!(matches!(encoder.begin(), DeviceAction::Feed));
    encoder.step(DeviceEvent::Fed);
    assert_eq!(encoder.requests(), 1);
}

fn failure(action: DeviceAction) -> DeviceError {
    match action {
        DeviceAction::Fail(error) => error,
        other => panic!("no failure: {other:?}"),
    }
}

#[test]
fn other_codes_are_failures() {
    let mut encoder = asynchronous(None);
    encoder.begin();
    let error = failure(encoder.step(DeviceEvent::NoEvent(MF_E_NO_EVENTS_AVAILABLE)));
    assert_eq!(error, DeviceError::System(MF_E_NO_EVENTS_AVAILABLE));
    encoder.begin();
    assert_eq!(failure(encoder.step(DeviceEvent::Failed(5))), DeviceError::System(5));
    encoder.begin();
    encoder.step(DeviceEvent::Arrived(ME_TRANSFORM_HAVE_OUTPUT));
    let error = failure(encoder.step(DeviceEvent::Refused(MF_E_TRANSFORM_NEED_MORE_INPUT)));
    assert_eq!(error, DeviceError::System(MF_E_TRANSFORM_NEED_MORE_INPUT));
    let mut encoder = synchronous(None);
    encoder.begin();
    let error = failure(encoder.step(DeviceEvent::Failed(MF_E_TRANSFORM_NEED_MORE_INPUT)));
    assert_eq!(error, DeviceError::System(MF_E_TRANSFORM_NEED_MORE_INPUT));
}

#[test]
fn output_that_is_no_stream_is_a_failure() {
    let mut encoder = synchronous(None);
    encoder.begin();
    encoder.step(DeviceEvent::Fed);
    let error = failure(encoder.step(DeviceEvent::Collected(Some(vec![1, 2, 3]))));
    assert_eq!(error, DeviceError::Bitstream(BitstreamError::NotH264));
}

#[test]
fn an_event_out_of_turn_is_a_failure() {
    let mut encoder = synchronous(None);
    assert_eq!(failure(encoder.step(DeviceEvent::Fed)), DeviceError::Unexpected);
    encoder.begin();
    assert_eq!(
        failure(encoder.step(DeviceEvent::Arrived(ME_TRANSFORM_NEED_INPUT))),
        DeviceError::Unexpected
    );
}

#[test]
fn after_a_failure_the_next_picture_starts_clean() {
    let mut encoder = synchronous(Some(SETS.to_vec()));
    encoder.begin();
    encoder.step(DeviceEvent::Fed);
    encoder.step(DeviceEvent::Collected(Some(SLICE.to_vec())));
    failure(encoder.step(DeviceEvent::Failed(1)));
    encoder.begin();
    encoder.step(DeviceEvent::Fed);
    encoder.step(DeviceEvent::Collected(Some(vec![0, 0, 0, 1, 0x41, 3])));
    let stream = finished(encoder.step(DeviceEvent::Refused(MF_E_TRANSFORM_NEED_MORE_INPUT)));
    assert_eq!(stream, vec![0, 0, 0, 1, 0x41, 3]);
}
