use enigo::agent::Token;
use vantage::protocol::{message_length, read_message, write_message, Message};

#[test]
fn a_message_is_led_by_its_length() {
    assert_eq!(write_message(&[7, 8, 9]), vec![0, 0, 0, 3, 7, 8, 9]);
    assert_eq!(write_message(&[]), vec![0, 0, 0, 0]);
    let long = vec![1; 0x1_0203];
    let wire = write_message(&long);
    assert_eq!(&wire[..4], &[0, 1, 2, 3]);
    assert_eq!(&wire[4..], &long[..]);
}

#[test]
fn the_length_is_read_in_network_order() {
    assert_eq!(message_length([0, 0, 0, 3]), 3);
    assert_eq!(message_length([0x12, 0x34, 0x56, 0x78]), 0x1234_5678);
    assert_eq!(message_length([0xFF, 0xFF, 0xFF, 0xFF]), u32::MAX);
}

#[test]
fn what_was_written_is_read_whatever_follows() {
    let mut wire = write_message(&[5, 6]);
    assert_eq!(read_message(&wire), Some((vec![5, 6], 6)));
    wire.extend([9, 9, 9]);
    assert_eq!(read_message(&wire), Some((vec![5, 6], 6)));
}

#[test]
fn a_message_that_has_not_arrived_is_waited_for() {
    let wire = write_message(&[1, 2, 3, 4, 5]);
    for arrived in 0..wire.len() {
        assert_eq!(read_message(&wire[..arrived]), None);
    }
    assert_eq!(read_message(&[0xFF, 0xFF, 0xFF, 0xFF, 1]), None);
}

#[test]
fn messages_come_one_by_one_in_order() {
    let messages: Vec<Vec<u8>> = vec![vec![1], vec![], vec![0, 0, 0, 9], vec![4; 300]];
    let mut wire = Vec::new();
    for message in &messages {
        wire.extend(write_message(message));
    }
    let mut rest = &wire[..];
    let mut read = Vec::new();
    while let Some((message, taken)) = read_message(rest) {
        read.push(message);
        rest = &rest[taken..];
    }
    assert_eq!(read, messages);
    assert!(rest.is_empty());
}

#[test]
fn a_copied_message_is_the_same() {
    let hello = Message::Hello { width: 3, height: 4 }.clone();
    assert!(matches!(hello, Message::Hello { width: 3, height: 4 }));
    match Message::Frame(vec![1, 2]).clone() {
        Message::Frame(stream) => assert_eq!(stream, vec![1, 2]),
        other => panic!("{other:?}"),
    }
    let token = Token::Text("copy".to_string());
    match Message::Input(token.clone()).clone() {
        Message::Input(copied) => assert_eq!(copied, token),
        other => panic!("{other:?}"),
    }
}
