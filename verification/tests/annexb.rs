use vantage::annexb::{
    append_avcc_unit, avcc_header_to_annex_b, contains_parameter_sets, to_annex_b, BitstreamError,
};

#[test]
fn empty_output_stays_empty() {
    assert_eq!(to_annex_b(&[]).unwrap(), Vec::<u8>::new());
}

#[test]
fn annex_b_passes_unchanged() {
    let long = [0, 0, 0, 1, 0x67, 1, 2, 0, 0, 1, 0x68, 3];
    assert_eq!(to_annex_b(&long).unwrap(), long.to_vec());
    let late = [9, 9, 0, 0, 1];
    assert_eq!(to_annex_b(&late).unwrap(), late.to_vec());
}

#[test]
fn length_prefixed_units_get_start_codes() {
    let stream = [0, 0, 0, 2, 0x65, 0xAA, 0, 0, 0, 3, 0x41, 0xBB, 0xCC];
    let converted = to_annex_b(&stream).unwrap();
    assert_eq!(converted, vec![0, 0, 0, 1, 0x65, 0xAA, 0, 0, 0, 1, 0x41, 0xBB, 0xCC]);
    assert_eq!(to_annex_b(&converted).unwrap(), converted);
}

#[test]
fn a_length_that_looks_like_a_start_code_counts_as_one() {
    let stream = [0, 0, 0, 1, 0x65];
    assert_eq!(to_annex_b(&stream).unwrap(), stream.to_vec());
    let second = [0, 0, 1, 0];
    assert_eq!(to_annex_b(&second).unwrap(), second.to_vec());
}

#[test]
fn broken_lengths_are_refused() {
    assert_eq!(to_annex_b(&[0, 0, 0, 0]), Err(BitstreamError::InvalidLength));
    assert_eq!(to_annex_b(&[0, 0, 0, 9, 1, 2]), Err(BitstreamError::InvalidLength));
    assert_eq!(to_annex_b(&[0xFF, 0xFF, 0xFF, 0xFF, 1]), Err(BitstreamError::InvalidLength));
}

#[test]
fn what_is_left_over_is_refused() {
    assert_eq!(to_annex_b(&[7]), Err(BitstreamError::NotH264));
    assert_eq!(to_annex_b(&[1, 2, 3]), Err(BitstreamError::NotH264));
    assert_eq!(to_annex_b(&[0, 0, 0, 2, 5, 6, 7]), Err(BitstreamError::NotH264));
}

fn record() -> Vec<u8> {
    vec![1, 77, 0, 40, 0xFF, 0xE1, 0, 3, 0x67, 77, 40, 1, 0, 2, 0x68, 0xEE]
}

#[test]
fn configuration_records_give_their_parameter_sets() {
    let expected = vec![0, 0, 0, 1, 0x67, 77, 40, 0, 0, 0, 1, 0x68, 0xEE];
    assert_eq!(to_annex_b(&record()).unwrap(), expected);
    assert_eq!(avcc_header_to_annex_b(&record()).unwrap(), expected);
    assert!(contains_parameter_sets(&expected));
}

#[test]
fn a_record_without_sets_gives_nothing() {
    assert_eq!(avcc_header_to_annex_b(&[1, 77, 0, 40, 0xFF, 0xE0, 0]).unwrap(), Vec::<u8>::new());
}

#[test]
fn cut_records_are_refused() {
    let whole = record();
    assert_eq!(avcc_header_to_annex_b(&whole[..11]), Err(BitstreamError::MissingPps));
    assert_eq!(avcc_header_to_annex_b(&whole[..10]), Err(BitstreamError::TruncatedParameterSet));
    assert_eq!(avcc_header_to_annex_b(&whole[..7]), Err(BitstreamError::TruncatedRecord));
    assert_eq!(avcc_header_to_annex_b(&whole[..13]), Err(BitstreamError::TruncatedRecord));
    assert_eq!(avcc_header_to_annex_b(&whole[..15]), Err(BitstreamError::TruncatedParameterSet));
    assert_eq!(to_annex_b(&whole[..15]), Err(BitstreamError::TruncatedParameterSet));
}

#[test]
fn a_unit_is_appended_and_the_offset_moves_behind_it() {
    let header = [9, 0, 2, 0x68, 0xEE, 4];
    let mut offset = 1;
    let mut stream = vec![5];
    append_avcc_unit(&header, &mut offset, &mut stream).unwrap();
    assert_eq!(offset, 5);
    assert_eq!(stream, vec![5, 0, 0, 0, 1, 0x68, 0xEE]);
    assert_eq!(
        append_avcc_unit(&header, &mut offset, &mut stream),
        Err(BitstreamError::TruncatedRecord)
    );
    assert_eq!(stream, vec![5, 0, 0, 0, 1, 0x68, 0xEE]);
}

#[test]
fn parameter_sets_are_found_behind_both_start_codes() {
    assert!(contains_parameter_sets(&[0, 0, 1, 0x67, 1, 0, 0, 0, 1, 0x28, 2]));
    assert!(contains_parameter_sets(&[0, 0, 0, 1, 0x68, 0, 0, 1, 0x07]));
    assert!(!contains_parameter_sets(&[0, 0, 0, 1, 0x67, 1]));
    assert!(!contains_parameter_sets(&[0, 0, 0, 1, 0x68, 1]));
    assert!(!contains_parameter_sets(&[0x67, 0x68]));
    assert!(!contains_parameter_sets(&[]));
    assert!(!contains_parameter_sets(&[0, 0, 1, 0x67, 0, 0, 1]));
}

#[test]
fn parameter_sets_stay_when_more_follows() {
    let mut stream = vec![0, 0, 0, 1, 0x67, 1, 0, 0, 0, 1, 0x68, 2];
    assert!(contains_parameter_sets(&stream));
    stream.extend([0, 0, 0, 1, 0x65, 9, 9]);
    assert!(contains_parameter_sets(&stream));
}

#[test]
fn errors_have_their_words() {
    let words = |error: BitstreamError| error.message();
    assert_eq!(words(BitstreamError::InvalidLength), "invalid length-prefixed H.264 output");
    assert_eq!(
        words(BitstreamError::NotH264),
        "H.264 output is neither Annex-B nor length-prefixed AVC"
    );
    assert_eq!(words(BitstreamError::MissingPps), "AVC configuration record is missing PPS data");
    assert_eq!(words(BitstreamError::TruncatedRecord), "truncated AVC configuration record");
    assert_eq!(words(BitstreamError::TruncatedParameterSet), "truncated AVC parameter set");
}

#[test]
fn units_join_to_the_stream_behind_the_first_start_code() {
    let stream = [9, 9, 0, 0, 1, 0x67, 1, 0, 0, 0, 1, 0x68, 0, 0, 1];
    let units: Vec<&[u8]> = openh264::nal_units(&stream).collect();
    assert_eq!(units, vec![&stream[2..8], &stream[8..12], &stream[12..]]);
    assert_eq!(units.concat(), &stream[2..]);
}

#[test]
fn converted_units_split_back() {
    let stream = to_annex_b(&[0, 0, 0, 2, 0x65, 7, 0, 0, 0, 3, 0x41, 0, 0]).unwrap();
    let units: Vec<&[u8]> = openh264::nal_units(&stream).collect();
    assert_eq!(units, vec![&[0, 0, 1, 0x65, 7, 0][..], &[0, 0, 1, 0x41, 0, 0][..]]);
}
