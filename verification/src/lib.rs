//! Verified core of a detection relay: the robot side receives detected
//! objects and camera frames and serves the detections over a local socket;
//! the viewer reads the socket, queues the raw messages and draws the latest
//! detections over the latest camera frame.
//!
//! - `protocol`: the socket both sides share.
//! - `publisher`: what the robot side keeps of what it receives, and how a
//!   client session paces its updates.
//! - `receiver`: what the viewer's socket reader does with each read.
//! - `queue`: how parsed messages are taken out of the viewer's inbox.
//! - `view`: which detections are drawn, which show a distance, and when the
//!   camera frame is loaded again.
//! - `frame`: the pixels of a decoded camera frame.

pub mod frame;
pub mod protocol;
pub mod publisher;
pub mod queue;
pub mod receiver;
pub mod view;
