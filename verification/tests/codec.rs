use openh264::decoder::Decoder;
use vantage::codec::{copy_out, size, DecodeError, Layout};
use vantage::encoder::{SoftwareEncoder, VideoEncoder};
use vantage::picture::BgraFrame;

/// A picture of 64 by 32 pixels in wider planes.
fn padded() -> Layout {
    Layout {
        width: 64,
        height: 32,
        luma_stride: 128,
        chroma_stride: 64,
        y_length: 128 * 32,
        u_length: 64 * 16,
        v_length: 64 * 16,
    }
}

/// What a decoder reports that gets a slice before anything else.
fn codec_error() -> openh264::Error {
    Decoder::new().unwrap().decode(&[0, 0, 1, 0x65, 0x88]).err().unwrap()
}

/// A stream of one picture.
fn stream(width: u32, height: u32, shade: u8) -> Vec<u8> {
    let data = vec![shade; width as usize * height as usize * 4];
    let mut encoder = SoftwareEncoder::new(30).unwrap();
    encoder.encode(BgraFrame { width, height, data: &data }, 0).unwrap()
}

#[test]
fn a_picture_fits_planes_of_its_size() {
    let exact = Layout {
        luma_stride: 64,
        chroma_stride: 32,
        y_length: 64 * 32,
        u_length: 32 * 16,
        v_length: 32 * 16,
        ..padded()
    };
    assert!(exact.fits());
    assert!(padded().fits());
    assert!(Layout { width: 128, ..padded() }.fits());
    assert!(Layout { width: 0, height: 0, ..padded() }.fits());
}

#[test]
fn a_row_must_lie_inside_its_plane() {
    assert!(!Layout { width: 129, ..padded() }.fits());
    assert!(Layout { chroma_stride: 32, ..padded() }.fits());
    assert!(!Layout { chroma_stride: 31, ..padded() }.fits());
}

#[test]
fn every_row_must_be_there() {
    assert!(!Layout { y_length: 128 * 32 - 1, ..padded() }.fits());
    assert!(!Layout { u_length: 64 * 16 - 1, ..padded() }.fits());
    assert!(!Layout { v_length: 64 * 16 - 1, ..padded() }.fits());
    assert!(Layout { height: 30, ..padded() }.fits());
    assert!(!Layout { height: 31, ..padded() }.fits());
    assert!(!Layout { height: 34, ..padded() }.fits());
}

#[test]
fn the_largest_numbers_do_not_fit() {
    let huge = Layout {
        width: usize::MAX,
        height: usize::MAX - 1,
        luma_stride: usize::MAX,
        chroma_stride: usize::MAX,
        y_length: usize::MAX,
        u_length: usize::MAX,
        v_length: usize::MAX,
    };
    assert!(!huge.fits());
    let half = isize::MAX as usize / 2;
    let long = Layout { width: half, height: 2, luma_stride: half, chroma_stride: half, ..huge };
    assert!(!long.fits());
    let third = isize::MAX as usize / 6;
    assert!(Layout { width: third, luma_stride: third, chroma_stride: third, ..long }.fits());
}

#[test]
fn a_decoded_picture_is_copied_out() {
    let stream = stream(64, 32, 120);
    let mut decoder = Decoder::new().unwrap();
    let frame = copy_out(decoder.decode(&stream)).unwrap().unwrap();
    assert_eq!((frame.width, frame.height, frame.rgb.len()), (64, 32, 64 * 32 * 3));
    for byte in &frame.rgb {
        assert!(byte.abs_diff(120) < 16, "{byte}");
    }
}

#[test]
fn the_size_of_a_decoded_picture_is_read() {
    let stream = stream(64, 32, 120);
    let mut decoder = Decoder::new().unwrap();
    assert_eq!(size(decoder.decode(&stream)).unwrap(), Some((64, 32)));
}

#[test]
fn no_picture_is_neither_copied_nor_measured() {
    assert!(matches!(copy_out(Ok(None)), Ok(None)));
    assert_eq!(size(Ok(None)).unwrap(), None);
}

#[test]
fn an_error_of_the_decoder_is_handed_on() {
    let words = codec_error().to_string();
    assert_eq!(size(Err(codec_error())).err().unwrap().to_string(), words);
    let error = copy_out(Err(codec_error())).err().unwrap();
    assert!(matches!(error, DecodeError::Codec(_)));
    assert_eq!(error.message(), words);
}

#[test]
fn a_picture_that_does_not_fit_is_told_of() {
    assert_eq!(DecodeError::Misfit.message(), "decoded picture does not fit its planes");
}
