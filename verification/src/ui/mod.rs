//! What is on screen besides the messages.
pub mod screen;
pub mod widgets;
