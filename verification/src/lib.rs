//! Extracts image frames from a robotics bag recording.
//!
//! The crate decodes the fixed wire layouts of timestamped image messages
//! with a bounded cursor, decides per topic which frames to export (time
//! window, frame step, maximum count), and derives the file names for the
//! exported frames.  Reading the bag container and writing the image files
//! are left to the caller.

pub mod common;
pub mod config;
pub mod extract;
pub mod sensor_msgs;
pub mod topic;
pub mod view;
