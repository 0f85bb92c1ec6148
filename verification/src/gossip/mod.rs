pub mod message;
pub mod peer;
pub mod protocol;
