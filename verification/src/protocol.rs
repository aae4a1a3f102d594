//! Where the robot side and the viewer meet.

use vstd::prelude::*;

verus! {

/// Directory that holds the detection socket.
pub const SOCKET_DIR: &'static str = "/tmp/robot";

/// Path of the local socket on which the robot side serves the detections
/// and from which the viewer reads them.
pub const SOCKET_PATH: &'static str = "/tmp/robot/detect-socket";

} // verus!
