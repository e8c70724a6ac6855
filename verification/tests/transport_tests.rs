use lc3::{
    frame_control_message, ControlMailbox, Receiver, RxEvent, RxFault, RxState,
    CONSOLE_INPUT_SLUG, CONTROL_MESSAGE_SLUG,
};

fn feed(rx: &mut Receiver, bytes: &[u8]) -> Vec<RxEvent> {
    bytes
        .iter()
        .map(|b| {
            assert_eq!(rx.check(*b), Ok(()));
            rx.receive(*b)
        })
        .collect()
}

#[test]
fn frames_short_messages() {
    assert_eq!(frame_control_message(&[1, 2]), vec![0x80, 2, 1, 2]);
    assert_eq!(frame_control_message(&[]), vec![0x80, 0]);
}

#[test]
fn frames_use_multi_byte_delimiters() {
    let body = vec![0xAAu8; 200];
    let frame = frame_control_message(&body);
    assert_eq!(frame.len(), 1 + 2 + 200);
    assert_eq!(&frame[..3], &[0x80, 0xC8, 0x01]);
    assert_eq!(&frame[3..], &body[..]);
}

#[test]
fn a_framed_message_is_received_whole() {
    for len in [1usize, 5, 127, 128, 200, 253] {
        let body: Vec<u8> = (0..len).map(|i| (i * 7) as u8).collect();
        let frame = frame_control_message(&body);
        let mut rx = Receiver::new();
        let results = feed(&mut rx, &frame);
        let (last, before) = results.split_last().unwrap();
        assert!(before.iter().all(|r| *r == RxEvent::Incomplete), "len {}", len);
        assert_eq!(*last, RxEvent::ControlMessage(body.clone()));
        assert_eq!(rx.state(), RxState::WaitingForMessageType);
    }
}

#[test]
fn an_empty_body_leaves_nothing_to_read() {
    let mut rx = Receiver::new();
    let results = feed(&mut rx, &frame_control_message(&[]));
    assert_eq!(results, vec![RxEvent::Incomplete, RxEvent::Incomplete]);
    assert_eq!(rx.state(), RxState::ReadingControlMessage(0));
    assert_eq!(rx.check(0x80), Err(RxFault::NoBodyExpected));
}

#[test]
fn console_input_frames() {
    let mut rx = Receiver::new();
    assert_eq!(rx.receive(CONSOLE_INPUT_SLUG), RxEvent::Incomplete);
    assert_eq!(rx.state(), RxState::ConsoleInputLengthUnknown);
    assert_eq!(rx.receive(3), RxEvent::Incomplete);
    assert_eq!(rx.state(), RxState::ReadingConsoleInput(3));
    assert_eq!(rx.receive(b'a'), RxEvent::Incomplete);
    assert_eq!(rx.state(), RxState::ReadingConsoleInput(2));
    assert_eq!(rx.receive(b'b'), RxEvent::Incomplete);
    assert_eq!(rx.receive(b'c'), RxEvent::ConsoleInput(b"abc".to_vec()));
    assert_eq!(rx.state(), RxState::WaitingForMessageType);
}

#[test]
fn unknown_message_types_are_refused() {
    let rx = Receiver::new();
    assert_eq!(rx.check(0x12), Err(RxFault::UnknownMessageType(0x12)));
    assert_eq!(rx.check(CONTROL_MESSAGE_SLUG), Ok(()));
    assert_eq!(rx.check(CONSOLE_INPUT_SLUG), Ok(()));
}

#[test]
fn lengths_beyond_the_buffer_are_refused() {
    let mut rx = Receiver::new();
    rx.receive(CONTROL_MESSAGE_SLUG);
    // 300 = 0xAC 0x02
    assert_eq!(rx.check(0xAC), Ok(()));
    assert_eq!(rx.receive(0xAC), RxEvent::Incomplete);
    assert_eq!(rx.state(), RxState::ControlMessageLengthUnknown);
    assert_eq!(rx.check(0x02), Err(RxFault::MessageTooLong(300)));
    // 256 = 0x80 0x02 still fits.
    let mut rx = Receiver::new();
    rx.receive(CONTROL_MESSAGE_SLUG);
    rx.receive(0x80);
    assert_eq!(rx.check(0x02), Ok(()));
    rx.receive(0x02);
    assert_eq!(rx.state(), RxState::ReadingControlMessage(256));
}

#[test]
fn an_unterminated_delimiter_fills_the_buffer() {
    let mut rx = Receiver::new();
    rx.receive(CONTROL_MESSAGE_SLUG);
    for _ in 0..256 {
        assert_eq!(rx.check(0x80), Ok(()));
        assert_eq!(rx.receive(0x80), RxEvent::Incomplete);
    }
    assert_eq!(rx.check(0x80), Err(RxFault::BufferFull));
}

#[test]
fn decoded_delimiters_set_the_body_length() {
    let mut rx = Receiver::new();
    rx.receive(CONTROL_MESSAGE_SLUG);
    rx.accept_length_delimiter(None);
    assert_eq!(rx.state(), RxState::ControlMessageLengthUnknown);
    rx.accept_length_delimiter(Some((5, 0)));
    assert_eq!(rx.state(), RxState::ReadingControlMessage(5));

    let mut rx = Receiver::new();
    rx.receive(CONSOLE_INPUT_SLUG);
    rx.accept_length_delimiter(Some((0, 0)));
    assert_eq!(rx.state(), RxState::ReadingConsoleInput(0));
}

#[test]
fn mailbox_hands_over_one_message_at_a_time() {
    let mut mb: ControlMailbox<Vec<u8>> = ControlMailbox::new();
    assert_eq!(mb.get_message(), None);
    assert!(!mb.has_pending() && !mb.flag_raised());
    mb.deliver(vec![1, 2, 3]);
    assert!(mb.has_pending() && mb.flag_raised());
    assert_eq!(mb.get_message(), Some(vec![1, 2, 3]));
    // Taking the message lowers the flag, so the next one can be delivered.
    assert!(!mb.has_pending() && !mb.flag_raised());
    assert_eq!(mb.get_message(), None);
    mb.deliver(vec![4]);
    assert_eq!(mb.get_message(), Some(vec![4]));
    assert!(!mb.flag_raised());
}
