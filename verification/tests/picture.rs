use vantage::error::EncodeError;
use vantage::picture::{bgra_to_nv12, bgra_to_rgb, frame_hash, validate_frame, BgraFrame};

#[test]
fn a_frame_of_the_right_size_is_accepted() {
    let data = [0; 24];
    assert!(validate_frame(BgraFrame { width: 3, height: 2, data: &data }).is_ok());
    assert!(validate_frame(BgraFrame { width: 0, height: 7, data: &[] }).is_ok());
}

#[test]
fn a_frame_of_another_size_is_refused() {
    let data = [0; 25];
    let error = validate_frame(BgraFrame { width: 3, height: 2, data: &data }).unwrap_err();
    assert!(matches!(error, EncodeError::FrameSize { actual: 25, expected: 24 }));
    assert_eq!(error.message(), "BGRA frame has 25 bytes, expected 24");
    let error = validate_frame(BgraFrame { width: 1000, height: 1001, data: &[] }).unwrap_err();
    assert_eq!(error.message(), "BGRA frame has 0 bytes, expected 4004000");
    assert_eq!(
        EncodeError::DimensionsChanged.message(),
        "Media Foundation encoder dimensions changed during the stream"
    );
    assert_eq!(EncodeError::Other("no device".to_string()).message(), "no device");
}

#[test]
fn rgb_has_red_first_and_no_alpha() {
    let bgra = [1, 2, 3, 4, 5, 6, 7, 8];
    let mut rgb = [0; 6];
    bgra_to_rgb(&bgra, &mut rgb);
    assert_eq!(rgb, [3, 2, 1, 7, 6, 5]);
}

#[test]
fn only_whole_pixels_that_fit_both_are_written() {
    let bgra = [1, 2, 3, 4, 5, 6, 7, 8, 9, 10, 11];
    let mut rgb = [90; 8];
    bgra_to_rgb(&bgra, &mut rgb);
    assert_eq!(rgb, [3, 2, 1, 7, 6, 5, 90, 90]);
    let mut short = [90; 5];
    bgra_to_rgb(&bgra, &mut short);
    assert_eq!(short, [3, 2, 1, 90, 90]);
    let mut none = [90; 4];
    bgra_to_rgb(&[], &mut none);
    assert_eq!(none, [90; 4]);
}

#[test]
fn a_picture_covers_a_buffer_of_its_size() {
    let bgra: Vec<u8> = (0..40).collect();
    let mut first = vec![1; 30];
    let mut second = vec![2; 30];
    bgra_to_rgb(&bgra, &mut first);
    bgra_to_rgb(&bgra, &mut second);
    assert_eq!(first, second);
    assert_eq!(&first[27..], &[38, 37, 36]);
}

fn nv12_of_one_colour(pixel: [u8; 4]) -> Vec<u8> {
    let bgra: Vec<u8> = pixel.repeat(4);
    let mut nv12 = vec![0; 6];
    bgra_to_nv12(&bgra, 2, 2, &mut nv12);
    nv12
}

#[test]
fn plain_colours_have_their_nv12_bytes() {
    assert_eq!(nv12_of_one_colour([0, 0, 0, 0]), vec![16, 16, 16, 16, 128, 128]);
    assert_eq!(nv12_of_one_colour([255, 255, 255, 0]), vec![235, 235, 235, 235, 128, 128]);
    assert_eq!(nv12_of_one_colour([0, 0, 255, 9]), vec![82, 82, 82, 82, 90, 240]);
    assert_eq!(nv12_of_one_colour([0, 255, 0, 9]), vec![144, 144, 144, 144, 54, 34]);
    assert_eq!(nv12_of_one_colour([255, 0, 0, 9]), vec![41, 41, 41, 41, 240, 110]);
}

#[test]
fn chroma_is_that_of_the_block() {
    // One red pixel and three black ones: the sums are those of a quarter of red.
    let mut bgra = vec![0; 16];
    bgra[2] = 255;
    let mut nv12 = vec![7; 8];
    bgra_to_nv12(&bgra, 2, 2, &mut nv12);
    assert_eq!(nv12, vec![82, 16, 16, 16, 119, 156, 7, 7]);
}

#[test]
fn blocks_stand_row_by_row_behind_the_luma() {
    // Four by four pixels: the upper right block is white, the lower left one blue.
    let mut bgra = vec![0; 64];
    for (x, y) in [(2, 0), (3, 0), (2, 1), (3, 1)] {
        let at = (y * 4 + x) * 4;
        bgra[at..at + 3].copy_from_slice(&[255, 255, 255]);
    }
    for (x, y) in [(0, 2), (1, 2), (0, 3), (1, 3)] {
        bgra[(y * 4 + x) * 4] = 255;
    }
    let mut nv12 = vec![0; 24];
    bgra_to_nv12(&bgra, 4, 4, &mut nv12);
    assert_eq!(&nv12[..16], &[16, 16, 235, 235, 16, 16, 235, 235, 41, 41, 16, 16, 41, 41, 16, 16]);
    assert_eq!(&nv12[16..], &[128, 128, 128, 128, 240, 110, 128, 128]);
}

#[test]
fn alpha_makes_no_difference() {
    let mut a: Vec<u8> = (0..64).collect();
    let mut first = vec![0; 24];
    bgra_to_nv12(&a, 4, 4, &mut first);
    let mut rgb_first = vec![0; 48];
    bgra_to_rgb(&a, &mut rgb_first);
    for pixel in a.chunks_exact_mut(4) {
        pixel[3] ^= 0xFF;
    }
    let mut second = vec![0; 24];
    bgra_to_nv12(&a, 4, 4, &mut second);
    let mut rgb_second = vec![1; 48];
    bgra_to_rgb(&a, &mut rgb_second);
    assert_eq!(first, second);
    assert_eq!(rgb_first, rgb_second);
}

#[test]
fn grey_has_no_chroma_and_nothing_leaves_the_range() {
    for shade in 0..=255u8 {
        let nv12 = nv12_of_one_colour([shade, shade, shade, 0]);
        assert_eq!(&nv12[4..], &[128, 128]);
        assert!(nv12[..4].iter().all(|y| (16..=235).contains(y)));
    }
    for pixel in [[255, 0, 255, 0], [0, 255, 255, 0], [255, 255, 0, 0]] {
        assert!(nv12_of_one_colour(pixel)[4..].iter().all(|c| (16..=240).contains(c)));
    }
}

#[test]
fn luma_and_chroma_are_the_nearest_numbers() {
    for (r, g, b) in [(3, 200, 17), (255, 1, 128), (90, 91, 92), (0, 128, 255)] {
        let nv12 = nv12_of_one_colour([b, g, r, 0]);
        let (r, g, b) = (f64::from(r), f64::from(g), f64::from(b));
        let y = (66.0 * r + 129.0 * g + 25.0 * b) / 256.0 + 16.0;
        let u = (-38.0 * r - 74.0 * g + 112.0 * b) / 256.0 + 128.0;
        let v = (112.0 * r - 94.0 * g - 18.0 * b) / 256.0 + 128.0;
        assert!((f64::from(nv12[0]) - y).abs() <= 0.5);
        assert!((f64::from(nv12[4]) - u).abs() <= 0.5);
        assert!((f64::from(nv12[5]) - v).abs() <= 0.5);
    }
}

#[test]
fn fingerprints_are_fnv1a_of_every_thirty_second_byte() {
    assert_eq!(frame_hash(&[]), 0xcbf29ce484222325);
    assert_eq!(frame_hash(b"a"), 0xaf63dc4c8601ec8c);
    assert_eq!(frame_hash(&[b'a'; 32]), 0xaf63dc4c8601ec8c);
    assert_eq!(frame_hash(&[b'a'; 33]), 0x089c4307b54596b7);
    let mut data = vec![0xEE; 70];
    data[0] = 1;
    data[32] = 2;
    data[64] = 3;
    assert_eq!(frame_hash(&data), 0xd0aa6218672cf5ab);
}

#[test]
fn changes_between_the_samples_go_unnoticed() {
    let data = vec![5; 200];
    let mut other = data.clone();
    for (i, byte) in other.iter_mut().enumerate() {
        if i % 32 != 0 {
            *byte = 6;
        }
    }
    assert_eq!(frame_hash(&data), frame_hash(&other));
}

#[test]
fn a_change_of_one_sample_is_noticed() {
    let data: Vec<u8> = (0..200).collect();
    for at in [0, 32, 160, 192] {
        for value in 0..=255u8 {
            let mut other = data.clone();
            other[at] = value;
            assert_eq!(frame_hash(&data) == frame_hash(&other), data[at] == value);
        }
    }
}
