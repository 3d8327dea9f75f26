//! A fixed-capacity log buffer, the log panel built on it, and the decisions
//! of a terminal interface that shows that panel.

pub mod circular_buffer;
pub mod logs;
pub mod user_interface;
