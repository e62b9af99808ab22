//! Matchers over byte input.

mod many;
mod one_of;
mod tag;

pub use many::AnyOf1;
pub use one_of::OneOf;
pub use tag::Tag;
pub use tag::TagParseError;
