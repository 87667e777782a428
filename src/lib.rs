//! Decoding of the line-oriented package description format of Arch Linux
//! repositories, and the package data that it carries.
//!
//! A document is a record: a `%NAME%` line, the field's value, a blank line,
//! and so on. What a value looks like is chosen by the [`Shape`] that the
//! caller asks for, never guessed from the text.
pub mod cursor;
pub mod data;
pub mod decode;
pub mod encode;
pub mod error;
pub mod index;
pub mod laws;
pub mod number;
pub mod package;
pub mod shape;
pub mod text;

pub use cursor::Deserializer;
pub use data::{
    Dependency, DependencyConstraints, DependencyConstraintsParseError, DependencyVersion,
    DependencyVersionParseError,
};
pub use decode::from_str;
pub use error::Error;
pub use number::IntWidth;
pub use shape::{Field, FieldShape, Shape, Value};
pub mod repo;
