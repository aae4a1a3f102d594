use robot_detect::protocol::{SOCKET_DIR, SOCKET_PATH};
use robot_detect::publisher::{
    image_file_names, next_session_step, store_detections, SendOutcome, SessionStep,
    IMAGE_TOPIC_NAME, LATEST_IMAGE_FILE, RESEND_INTERVAL_SECS, TOPIC_NAME,
};

#[test]
fn a_sent_update_is_repeated_after_one_second() {
    assert_eq!(RESEND_INTERVAL_SECS, 1);
    assert_eq!(next_session_step(SendOutcome::Sent), SessionStep::WaitThenSend { seconds: 1 });
}

#[test]
fn a_failed_update_closes_the_session() {
    assert_eq!(next_session_step(SendOutcome::EncodeFailed), SessionStep::Close);
    assert_eq!(next_session_step(SendOutcome::WriteFailed), SessionStep::Close);
}

#[test]
fn a_parsed_message_replaces_the_detections() {
    let mut shared = vec![1, 2, 3];
    assert!(store_detections(&mut shared, Some(vec![9])));
    assert_eq!(shared, vec![9]);
    assert!(store_detections(&mut shared, Some(Vec::new())));
    assert!(shared.is_empty());
}

#[test]
fn an_unparsed_message_keeps_the_detections() {
    let mut shared = vec!["a".to_string()];
    assert!(!store_detections(&mut shared, None));
    assert_eq!(shared, vec!["a".to_string()]);
}

#[test]
fn frames_go_to_the_latest_file() {
    assert_eq!(image_file_names(false, "ignored"), vec!["received_image.jpg".to_string()]);
    assert_eq!(LATEST_IMAGE_FILE, "received_image.jpg");
}

#[test]
fn captured_frames_are_also_kept_by_time() {
    let names = image_file_names(true, "SystemTime { tv_sec: 1, tv_nsec: 2 }");
    assert_eq!(
        names,
        vec![
            "received_image.jpg".to_string(),
            "received_image_SystemTime { tv_sec: 1, tv_nsec: 2 }.jpg".to_string(),
        ]
    );
}

#[test]
fn the_socket_and_topics_are_fixed() {
    assert_eq!(SOCKET_DIR, "/tmp/robot");
    assert_eq!(SOCKET_PATH, "/tmp/robot/detect-socket");
    assert!(SOCKET_PATH.starts_with(SOCKET_DIR));
    assert_eq!(TOPIC_NAME, "detect");
    assert_eq!(IMAGE_TOPIC_NAME, "Compressed_camera_image");
}
