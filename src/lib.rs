pub mod config;
pub mod pattern;
pub mod ringbuffer;
pub mod rules;
pub mod watch;
