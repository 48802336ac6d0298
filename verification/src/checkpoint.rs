//! Checkpoint image files: publishing an image through a temporary file,
//! loading one back part by part, and composing a keyspace snapshot. Each
//! transfer is a machine over file operations and their completions.

pub mod io;
pub mod live;
pub mod load;
pub mod publish;
pub mod snapshot;
