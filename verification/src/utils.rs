//! Small formatting utilities.

pub mod byte_size;
