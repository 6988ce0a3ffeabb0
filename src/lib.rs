//! Feature extraction for publish/subscribe traffic carried over IPv4 and TCP: each
//! captured frame is sliced into layers, its application messages are decoded and
//! classified, and one fixed-shape record is produced per message, with a sliding
//! average of inter-arrival gaps.
pub mod driver;
pub mod layers;
pub mod message;
pub mod mqtt;
pub mod pipeline;
pub mod record;
pub mod window;
