//! A compositor core: an ordered window stack, per-frame scene composition,
//! surface trees with buffer attachment tracking, input routing with
//! monotonic serials, and output configuration transactions.

pub mod attach;
pub mod bridge;
pub mod config;
pub mod geometry;
pub mod notify;
pub mod outputs;
pub mod router;
pub mod scene;
pub mod shell;
pub mod stack;
pub mod state;
pub mod text;
pub mod toplevel;
pub mod tree;
