//! The data a serializer is handed: one value of the serde data model.

use vstd::prelude::*;

verus! {

/// A value to serialize, in the shape serde hands it to a serializer.
///
/// Floating-point numbers arrive already formatted: `Float` holds their text.
/// Narrow integers arrive widened, as the serializer widens them before writing.
pub enum Value {
    Bool(bool),
    Int(i64),
    I128(i128),
    Uint(u64),
    U128(u128),
    Float(String),
    Char(char),
    Str(String),
    Bytes(Vec<u8>),
    NoneValue,
    SomeValue(Box<Value>),
    Unit,
    UnitStruct(String),
    UnitVariant(String, String),
    NewtypeStruct(String, Box<Value>),
    NewtypeVariant(String, String, Box<Value>),
    Sequence(Vec<Value>),
    Tuple(Vec<Value>),
    TupleStruct(String, Vec<Value>),
    TupleVariant(String, String, Vec<Value>),
    MapEntries(Vec<(Value, Value)>),
    Struct(String, Vec<(String, Value)>),
    StructVariant(String, String, Vec<(String, Value)>),
}

} // verus!
