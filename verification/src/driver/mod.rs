//! The decisions of the program's main loop. What they decide on comes from
//! outside, what they decide is carried out outside.

pub mod base64;
pub mod guidance;
pub mod laws;
pub mod modes;
pub mod reconnect;
pub mod settle;
pub mod start;
pub mod step;
pub mod stream;
pub mod types;
