pub mod buffer_processor;
pub mod byte_buffer;
pub mod time;
pub mod timers;
