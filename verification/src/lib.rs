//! The logic of one database cell's server layer: introspection replies,
//! configuration, the client registry, the control boards, the durability
//! record codec, log-frame policies, and the checkpoint and manifest state
//! machines. Nothing here performs I/O; callers carry out the operations the
//! machines ask for and hand the outcomes back.

pub mod lsn;
pub mod text;
pub mod varint;
pub mod glob;
pub mod config;
pub mod clients;
pub mod namespace;
pub mod control;
pub mod data_dir_lock;
pub mod ckpt;
pub mod admin;
pub mod checkpoint;
pub mod durable;
pub mod durability;
