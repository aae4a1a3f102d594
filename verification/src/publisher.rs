//! The robot side: what it keeps of each detection message and camera frame
//! it receives, and how a client session paces its updates.

use vstd::prelude::*;

verus! {

/// Topic on which the detections arrive, as JSON text.
pub const TOPIC_NAME: &'static str = "detect";

/// Topic on which the compressed camera frames arrive.
pub const IMAGE_TOPIC_NAME: &'static str = "Compressed_camera_image";

/// Seconds a client session waits between two updates: one second.
pub const RESEND_INTERVAL_SECS: u64 = 1;

/// How sending the current detections to a client went.
#[derive(Clone, Copy, Debug, PartialEq, Eq)]
pub enum SendOutcome {
    /// The detections were encoded and written whole.
    Sent,
    /// The detections could not be encoded.
    EncodeFailed,
    /// Writing to the client failed.
    WriteFailed,
}

/// What a client session does next.
#[derive(Clone, Copy, Debug, PartialEq, Eq)]
pub enum SessionStep {
    /// Wait this many seconds, then send the detections again.
    WaitThenSend { seconds: u64 },
    /// End the session.
    Close,
}

/// The next step of a client session after a send: a session keeps sending
/// the latest detections once a second (`RESEND_INTERVAL_SECS`) until encoding
/// or writing fails.
pub fn next_session_step(outcome: SendOutcome) -> (step: SessionStep)
    ensures
        step == (match outcome {
            SendOutcome::Sent => SessionStep::WaitThenSend { seconds: RESEND_INTERVAL_SECS },
            _ => SessionStep::Close,
        }),
{
    match outcome {
        SendOutcome::Sent => SessionStep::WaitThenSend { seconds: RESEND_INTERVAL_SECS },
        SendOutcome::EncodeFailed => SessionStep::Close,
        SendOutcome::WriteFailed => SessionStep::Close,
    }
}

/// Applies one received detection message to the shared detections:
/// a message that parsed replaces them whole, one that did not leaves them
/// as they were. Returns whether they were replaced.
pub fn store_detections<T>(shared: &mut Vec<T>, parsed: Option<Vec<T>>) -> (replaced: bool)
    ensures
        replaced == parsed is Some,
        match parsed {
            Some(objs) => final(shared)@ == objs@,
            None => final(shared)@ == old(shared)@,
        },
{
    match parsed {
        Some(objs) => {
            *shared = objs;
            true
        },
        None => false,
    }
}

/// File to which every received camera frame is written, for the viewer.
pub const LATEST_IMAGE_FILE: &'static str = "received_image.jpg";

/// Start of the name of a kept frame's file.
pub const CAPTURE_PREFIX: &'static str = "received_image_";

/// End of the name of a kept frame's file.
pub const CAPTURE_SUFFIX: &'static str = ".jpg";

/// The name of the file that keeps a captured frame received at `stamp`.
pub open spec fn capture_file_name(stamp: Seq<char>) -> Seq<char> {
    CAPTURE_PREFIX@ + stamp + CAPTURE_SUFFIX@
}

/// A captured frame's file name holds the whole stamp: its length is the
/// stamp's plus the fixed prefix and suffix, the stamp stands in it between
/// them character for character, and so two different stamps never name the
/// same file.
pub proof fn lemma_capture_name_holds_whole_stamp(s1: Seq<char>, s2: Seq<char>)
    ensures
        capture_file_name(s1).len() == CAPTURE_PREFIX@.len() + s1.len() + CAPTURE_SUFFIX@.len(),
        capture_file_name(s1).subrange(0, CAPTURE_PREFIX@.len() as int) == CAPTURE_PREFIX@,
        capture_file_name(s1).subrange(
            CAPTURE_PREFIX@.len() as int,
            (CAPTURE_PREFIX@.len() + s1.len()) as int,
        ) == s1,
        capture_file_name(s1) == capture_file_name(s2) ==> s1 == s2,
{
    let p = CAPTURE_PREFIX@;
    let x = CAPTURE_SUFFIX@;
    assert(capture_file_name(s1).subrange(0, p.len() as int) =~= p);
    assert(capture_file_name(s1).subrange(p.len() as int, (p.len() + s1.len()) as int) =~= s1);
    if capture_file_name(s1) == capture_file_name(s2) {
        assert(capture_file_name(s1).len() == p.len() + s1.len() + x.len());
        assert(capture_file_name(s2).len() == p.len() + s2.len() + x.len());
        assert(s1.len() == s2.len());
        assert(capture_file_name(s2).subrange(p.len() as int, (p.len() + s2.len()) as int) =~= s2);
    }
}

/// The files to which a received camera frame is written, in order: always
/// the latest-frame file; when capturing, also a file named after the time
/// `stamp` of its arrival.
pub fn image_file_names(capture: bool, stamp: &str) -> (names: Vec<String>)
    ensures
        names@.len() == if capture { 2int } else { 1int },
        names@[0]@ == LATEST_IMAGE_FILE@,
        capture ==> names@[1]@ == capture_file_name(stamp@),
        capture ==> names@[1]@ == CAPTURE_PREFIX@ + stamp@ + CAPTURE_SUFFIX@,
{
    let mut names: Vec<String> = Vec::new();
    names.push(String::from_str(LATEST_IMAGE_FILE));
    if capture {
        let mut kept = String::from_str(CAPTURE_PREFIX);
        kept.append(stamp);
        kept.append(CAPTURE_SUFFIX);
        names.push(kept);
    }
    names
}

} // verus!
