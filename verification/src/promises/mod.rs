//! What the program does for its user, told by what is seen and what comes of it.
pub mod keys;
pub mod messages;
pub mod moves;
pub mod places;
pub mod seen;
pub mod senders;
pub mod server;
pub mod setup;
pub mod told;
pub mod trial;
pub mod values;
pub mod work;
