//! The viewer's socket reader: what it does with the outcome of each read.

use vstd::prelude::*;
use vstd::utf8::{decode_utf8, valid_utf8};

verus! {

/// Size of the buffer that each read of the detection socket fills.
pub const READ_BUFFER_LEN: usize = 1024;

/// What one read of the detection socket gave.
#[derive(Clone, Copy, Debug, PartialEq, Eq)]
pub enum ReadOutcome {
    /// The read succeeded and filled this many bytes at the front of the buffer.
    Received(usize),
    /// The read reported an error.
    Failed,
}

/// Why the reader stops.
#[derive(Clone, Copy, Debug, PartialEq, Eq)]
pub enum StopReason {
    /// The server closed the connection or sent an empty message.
    ServerClosed,
    /// Reading from the socket failed.
    ReadError,
}

/// What the reader does after handling a read.
#[derive(Clone, Copy, Debug, PartialEq, Eq)]
pub enum ReaderAction {
    /// Read again.
    KeepReading,
    /// Leave the read loop.
    Stop(StopReason),
}

/// The text that `String::from_utf8_lossy` makes of `bytes`.
pub uninterp spec fn lossy_utf8_text(bytes: Seq<u8>) -> Seq<char>;

/// Calls `String::from_utf8_lossy` and takes the result as an owned `String`.
/// Its text is the named result `lossy_utf8_text` of the bytes; where the bytes
/// are valid UTF-8 it is their decoding, as std's documentation says. How
/// invalid sequences are replaced by U+FFFD is left to the name.
#[verifier::external_body]
fn utf8_lossy(bytes: &[u8]) -> (text: String)
    ensures
        text@ == lossy_utf8_text(bytes@),
        valid_utf8(bytes@) ==> text@ == decode_utf8(bytes@),
{
    String::from_utf8_lossy(bytes).into_owned()
}

/// Handles one read of the detection socket into `buffer`.
///
/// A read of zero bytes means that the server closed the connection or sent
/// an empty message: the reader stops and nothing changes. A failed read
/// stops it too. Otherwise the bytes read become one message, decoded as
/// UTF-8 with invalid sequences replaced, that is appended to `shared_data`,
/// and `needs_update` is set; the reader goes on. Bytes that are valid UTF-8
/// arrive as exactly their decoding.
pub fn handle_read(
    buffer: &[u8],
    outcome: ReadOutcome,
    shared_data: &mut Vec<String>,
    needs_update: &mut bool,
) -> (action: ReaderAction)
    requires
        outcome matches ReadOutcome::Received(n) ==> n <= buffer@.len(),
    ensures
        match outcome {
            ReadOutcome::Received(n) => if n == 0 {
                &&& action == ReaderAction::Stop(StopReason::ServerClosed)
                &&& final(shared_data)@ == old(shared_data)@
                &&& *final(needs_update) == *old(needs_update)
            } else {
                &&& action == ReaderAction::KeepReading
                &&& final(shared_data)@.len() == old(shared_data)@.len() + 1
                &&& final(shared_data)@.drop_last() == old(shared_data)@
                &&& final(shared_data)@.last()@ == lossy_utf8_text(buffer@.subrange(0, n as int))
                &&& valid_utf8(buffer@.subrange(0, n as int)) ==> final(shared_data)@.last()@
                    == decode_utf8(buffer@.subrange(0, n as int))
                &&& *final(needs_update)
            },
            ReadOutcome::Failed => {
                &&& action == ReaderAction::Stop(StopReason::ReadError)
                &&& final(shared_data)@ == old(shared_data)@
                &&& *final(needs_update) == *old(needs_update)
            },
        },
{
    match outcome {
        ReadOutcome::Received(size) => {
            if size == 0 {
                ReaderAction::Stop(StopReason::ServerClosed)
            } else {
                let response_str = utf8_lossy(&buffer[0..size]);
                shared_data.push(response_str);
                *needs_update = true;
                assert(shared_data@.drop_last() =~= old(shared_data)@);
                ReaderAction::KeepReading
            }
        },
        ReadOutcome::Failed => ReaderAction::Stop(StopReason::ReadError),
    }
}

} // verus!
