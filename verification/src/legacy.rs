//! The format's first serializer, kept for the documents it writes.
//!
//! Only the serializer is here: the first deserializer read text with a scanner
//! that is not part of this project. The serializer keeps its pretty-printing
//! state (`Pretty`), which `to_string` leaves off; nothing in the library turns it on.

pub mod ser;
