//! The logic of a chat bot that renders Typst: what a message asks for, how a pool of worker
//! processes is run, what is said to a worker and what its answers mean, and how an image is sent
//! back.
//!
//! Reading, sending, waiting and starting processes are left to the program around this library.

pub mod bot;
pub mod encoding;
pub mod history;
pub mod launch;
pub mod log_prefix;
pub mod pool;
pub mod qq_media;
pub mod tag_shorthand;
pub mod text;
pub mod worker;
