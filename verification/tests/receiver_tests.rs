use robot_detect::receiver::{handle_read, ReadOutcome, ReaderAction, StopReason, READ_BUFFER_LEN};

#[test]
fn a_read_becomes_one_message_and_sets_the_flag() {
    let mut buf = [0u8; READ_BUFFER_LEN];
    buf[..5].copy_from_slice(b"[1,2]");
    let mut shared = vec!["old".to_string()];
    let mut flag = false;
    let action = handle_read(&buf, ReadOutcome::Received(5), &mut shared, &mut flag);
    assert_eq!(action, ReaderAction::KeepReading);
    assert_eq!(shared, vec!["old".to_string(), "[1,2]".to_string()]);
    assert!(flag);
}

#[test]
fn an_empty_read_stops_and_changes_nothing() {
    let buf = [7u8; READ_BUFFER_LEN];
    let mut shared: Vec<String> = Vec::new();
    let mut flag = false;
    let action = handle_read(&buf, ReadOutcome::Received(0), &mut shared, &mut flag);
    assert_eq!(action, ReaderAction::Stop(StopReason::ServerClosed));
    assert!(shared.is_empty());
    assert!(!flag);
}

#[test]
fn a_failed_read_stops_and_changes_nothing() {
    let buf = [b'a'; READ_BUFFER_LEN];
    let mut shared = vec!["keep".to_string()];
    let mut flag = true;
    let action = handle_read(&buf, ReadOutcome::Failed, &mut shared, &mut flag);
    assert_eq!(action, ReaderAction::Stop(StopReason::ReadError));
    assert_eq!(shared, vec!["keep".to_string()]);
    assert!(flag);
}

#[test]
fn invalid_utf8_is_replaced() {
    let buf = [b'o', b'k', 0xff, b'!'];
    let mut shared: Vec<String> = Vec::new();
    let mut flag = false;
    let action = handle_read(&buf, ReadOutcome::Received(4), &mut shared, &mut flag);
    assert_eq!(action, ReaderAction::KeepReading);
    assert_eq!(shared, vec!["ok\u{FFFD}!".to_string()]);
}

#[test]
fn only_the_bytes_read_are_decoded() {
    let mut buf = [b'z'; READ_BUFFER_LEN];
    buf[0] = b'h';
    buf[1] = b'i';
    let mut shared: Vec<String> = Vec::new();
    let mut flag = false;
    handle_read(&buf, ReadOutcome::Received(2), &mut shared, &mut flag);
    assert_eq!(shared, vec!["hi".to_string()]);
}

#[test]
fn a_full_buffer_is_one_message() {
    let buf = [b'x'; READ_BUFFER_LEN];
    let mut shared: Vec<String> = Vec::new();
    let mut flag = false;
    handle_read(&buf, ReadOutcome::Received(READ_BUFFER_LEN), &mut shared, &mut flag);
    assert_eq!(shared.len(), 1);
    assert_eq!(shared[0].len(), 1024);
}
