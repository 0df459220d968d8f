//! A serializer and deserializer for data written as Rust expressions.

pub mod de;
pub mod legacy;
pub mod ser;
pub mod text;
