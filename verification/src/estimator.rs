//! The state of the platform, and the window of keyframes.
pub mod state;
pub mod frame;
pub mod problem;
pub mod solution;
pub mod sliding_window;
pub mod alignment;
