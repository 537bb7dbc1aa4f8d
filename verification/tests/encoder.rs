use openh264::decoder::Decoder;
use openh264::formats::YUVSource;
use vantage::annexb::{contains_parameter_sets, BitstreamError};
use vantage::encoder::{
    create_encoder, emitted_stream, AnyEncoder, SoftwareEncoder, VideoEncoder,
};
use vantage::error::EncodeError;
use vantage::picture::BgraFrame;

/// A picture of 64 by 48 pixels in one colour.
fn plain(blue: u8, green: u8, red: u8) -> Vec<u8> {
    [blue, green, red, 255].repeat(64 * 48)
}

#[test]
fn the_first_picture_can_be_decoded_and_has_its_colour() {
    let mut encoder = SoftwareEncoder::new(30).unwrap();
    let data = plain(10, 20, 250);
    let stream = encoder.encode(BgraFrame { width: 64, height: 48, data: &data }, 0).unwrap();
    assert_eq!(&stream[..4], &[0, 0, 0, 1]);
    assert!(contains_parameter_sets(&stream));
    let mut decoder = Decoder::new().unwrap();
    let yuv = decoder.decode(&stream).unwrap().unwrap();
    assert_eq!(yuv.dimensions(), (64, 48));
    let mut rgb = vec![0; yuv.rgb8_len()];
    yuv.write_rgb8(&mut rgb);
    for pixel in rgb.chunks_exact(3) {
        assert!(pixel[0] > 220 && pixel[1] < 60 && pixel[2] < 60, "{pixel:?}");
    }
}

#[test]
fn later_pictures_need_no_parameter_sets() {
    let mut encoder = SoftwareEncoder::new(30).unwrap();
    let first = plain(90, 90, 90);
    let mut second = first.clone();
    second[..64].fill(100);
    let frame = |data| BgraFrame { width: 64, height: 48, data };
    let a = encoder.encode(frame(&first), 0).unwrap();
    let b = encoder.encode(frame(&second), 33).unwrap();
    assert!(contains_parameter_sets(&a));
    assert!(!b.is_empty() && !contains_parameter_sets(&b));
}

#[test]
fn a_frame_of_the_wrong_size_is_turned_away() {
    let mut encoder = SoftwareEncoder::new(30).unwrap();
    let data = vec![0; 100];
    let error = encoder.encode(BgraFrame { width: 64, height: 48, data: &data }, 0).unwrap_err();
    assert!(matches!(error, EncodeError::FrameSize { actual: 100, expected: 12288 }));
    let data = plain(1, 2, 3);
    assert!(encoder.encode(BgraFrame { width: 64, height: 48, data: &data }, 5).is_ok());
}

#[test]
fn the_size_is_told_first_even_of_an_odd_frame() {
    let mut encoder = SoftwareEncoder::new(30).unwrap();
    let frame = BgraFrame { width: 3, height: 3, data: &[1, 2] };
    let error = encoder.encode(frame, u64::MAX).unwrap_err();
    assert!(matches!(error, EncodeError::FrameSize { actual: 2, expected: 36 }));
}

#[test]
fn an_error_of_the_codec_is_handed_on() {
    let mut encoder = SoftwareEncoder::new(30).unwrap();
    let data = vec![0; 4096 * 2 * 4];
    let error = encoder.encode(BgraFrame { width: 4096, height: 2, data: &data }, 0).unwrap_err();
    assert!(matches!(error, EncodeError::Codec(_)));
    assert!(error.message().contains("3840x2160"));
}

#[test]
fn an_empty_picture_is_an_error_of_the_codec() {
    let mut encoder = SoftwareEncoder::new(30).unwrap();
    let frame = BgraFrame { width: 0, height: 0, data: &[] };
    assert!(matches!(encoder.encode(frame, 0), Err(EncodeError::Codec(_))));
}

#[test]
fn what_the_codec_emits_is_brought_to_annex_b() {
    assert_eq!(
        emitted_stream(Ok(vec![0, 0, 0, 2, 0x65, 1])).unwrap(),
        vec![0, 0, 0, 1, 0x65, 1]
    );
    assert!(matches!(
        emitted_stream(Ok(vec![1, 2])),
        Err(EncodeError::Bitstream(BitstreamError::NotH264))
    ));
}

/// Emits the number of the picture.
struct Counter(u8);

impl VideoEncoder for Counter {
    fn encode(&mut self, _: BgraFrame<'_>, _: u64) -> Result<Vec<u8>, EncodeError> {
        self.0 += 1;
        Ok(vec![self.0])
    }
}

#[test]
fn the_encoder_in_hardware_is_preferred() {
    let mut encoder = create_encoder(Ok::<Counter, String>(Counter(0)), 30).unwrap();
    assert!(matches!(encoder, AnyEncoder::Hardware(_)));
    let frame = BgraFrame { width: 0, height: 0, data: &[] };
    assert_eq!(encoder.encode(frame, 0).unwrap(), vec![1]);
    assert_eq!(encoder.encode(frame, 0).unwrap(), vec![2]);
}

#[test]
fn without_hardware_software_encodes() {
    let mut encoder = create_encoder(Err::<Counter, String>("none".to_string()), 30).unwrap();
    assert!(matches!(encoder, AnyEncoder::Software(_)));
    let data = plain(1, 2, 3);
    let stream = encoder.encode(BgraFrame { width: 64, height: 48, data: &data }, 0).unwrap();
    assert!(contains_parameter_sets(&stream));
}

#[test]
fn there_is_an_encoder_exactly_where_the_codec_was_opened() {
    let opened = openh264::encoder::Encoder::new();
    let mut encoder = SoftwareEncoder::from_opened(opened).unwrap();
    let data = plain(1, 2, 3);
    assert!(encoder.encode(BgraFrame { width: 64, height: 48, data: &data }, 0).is_ok());
    let error = Decoder::new().unwrap().decode(&[0, 0, 1, 0x65, 0x88]).err().unwrap();
    let words = error.to_string();
    assert_eq!(SoftwareEncoder::from_opened(Err(error)).err().unwrap().to_string(), words);
}
