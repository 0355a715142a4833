pub mod builder;
pub mod events;

pub use builder::{LogColor, LogFragment, Logger};
