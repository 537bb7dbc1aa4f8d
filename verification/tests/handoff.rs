use vantage::handoff::{CapturedFrame, Handoff, Taken};

fn frame(number: u32) -> CapturedFrame {
    CapturedFrame { width: number, height: 1, data: vec![number as u8] }
}

fn taken(handoff: &mut Handoff) -> Option<u32> {
    match handoff.take() {
        Taken::Frame(frame) => Some(frame.width),
        _ => None,
    }
}

#[test]
fn without_a_picture_one_waits() {
    let mut handoff = Handoff::new();
    assert!(handoff.running());
    assert!(matches!(handoff.take(), Taken::Wait));
}

#[test]
fn the_latest_picture_wins_and_is_taken_once() {
    let mut handoff = Handoff::new();
    handoff.put(frame(1));
    handoff.put(frame(2));
    handoff.put(frame(3));
    assert_eq!(taken(&mut handoff), Some(3));
    assert!(matches!(handoff.take(), Taken::Wait));
    handoff.put(frame(4));
    assert_eq!(taken(&mut handoff), Some(4));
}

#[test]
fn a_picture_is_still_taken_after_the_shutdown() {
    let mut handoff = Handoff::new();
    handoff.put(frame(7));
    handoff.shutdown();
    assert!(!handoff.running());
    assert_eq!(taken(&mut handoff), Some(7));
    assert!(matches!(handoff.take(), Taken::Stopped));
}

#[test]
fn a_shutdown_is_for_good() {
    let mut handoff = Handoff::new();
    handoff.shutdown();
    assert!(matches!(handoff.take(), Taken::Stopped));
    handoff.put(frame(1));
    assert!(!handoff.running());
    assert_eq!(taken(&mut handoff), Some(1));
    handoff.shutdown();
    assert!(matches!(handoff.take(), Taken::Stopped));
}
