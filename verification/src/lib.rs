//! A byte held as eight explicit bits, with conversions to and from its
//! decimal value and its textual binary pattern.

pub mod byte;
pub mod laws;
pub mod model;

pub use byte::ByteBase2;
pub use byte::InvalidPattern;
