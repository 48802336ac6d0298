//! The control plane: node-wide boards, the catalog writer, the shared handle
//! and the boot narration.

pub mod boards;
pub mod catalog;
pub mod handle;
pub mod narration;
