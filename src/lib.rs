//! A fixed-capacity string held entirely inline: a byte array of `N` units and
//! a length counter, with every operation bounded by `N` and checked before it
//! writes.

pub mod error;
pub mod capability;
pub mod fixed_string;
pub mod laws;

pub use error::FixedStringError;
pub use capability::FixedStringRef;
pub use fixed_string::{FixedString, FixedStringIterator};
