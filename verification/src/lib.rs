//! Verified core of a tar archive tool: format detection, extraction planning,
//! archive creation planning and listing layout.

pub mod codec;
pub mod create;
pub mod format;
pub mod listing;
pub mod mode;
pub mod order;
pub mod extract;
