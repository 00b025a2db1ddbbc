//! What the operating-system backends compute from what they read.
pub mod linux;
pub mod macos;
