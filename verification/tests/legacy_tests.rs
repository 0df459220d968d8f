use rson_rs::legacy::ser::{to_string, Error};
use rson_rs::ser::value::Value;
use rson_rs::text::{decimal_text, i64_text, u64_text, usize_text};

fn s(text: &str) -> String {
    text.to_string()
}

fn text(v: &Value) -> String {
    match to_string(v) {
        Ok(t) => t,
        Err(_) => panic!("serialization failed"),
    }
}

fn refused(v: &Value) -> String {
    match to_string(v) {
        Ok(_) => panic!("expected an error"),
        Err(e) => e.description().clone(),
    }
}

#[test]
fn legacy_scalars() {
    assert_eq!(text(&Value::Bool(true)), "true");
    assert_eq!(text(&Value::Bool(false)), "false");
    assert_eq!(text(&Value::Int(-7)), "-7");
    assert_eq!(text(&Value::Int(i64::MIN)), "-9223372036854775808");
    assert_eq!(text(&Value::Uint(u64::MAX)), "18446744073709551615");
    assert_eq!(text(&Value::Float(s("1.5"))), "1.5");
    assert_eq!(text(&Value::NoneValue), "None");
    assert_eq!(text(&Value::Unit), "()");
}

#[test]
fn legacy_chars_and_strings_are_escaped() {
    assert_eq!(text(&Value::Char('a')), "'a'");
    assert_eq!(text(&Value::Char('\'')), "'\\''");
    assert_eq!(text(&Value::Char('\\')), "'\\\\'");
    assert_eq!(text(&Value::Char('"')), "'\"'");
    assert_eq!(text(&Value::Str(s("plain"))), "\"plain\"");
    assert_eq!(text(&Value::Str(s("a\"b\\c'd"))), "\"a\\\"b\\\\c'd\"");
    assert_eq!(text(&Value::Str(s("né\n"))), "\"né\n\"");
    assert_eq!(text(&Value::Str(s(""))), "\"\"");
}

#[test]
fn legacy_wide_integers_are_refused() {
    assert_eq!(refused(&Value::I128(1)), "i128 is not supported");
    assert_eq!(refused(&Value::U128(1)), "u128 is not supported");
    let nested = Value::Sequence(vec![Value::Int(1), Value::U128(2), Value::I128(3)]);
    assert_eq!(refused(&nested), "u128 is not supported");
}

#[test]
fn legacy_error_texts() {
    let e = Error::custom("bad value");
    assert_eq!(e.description(), "bad value");
    assert_eq!(e.display_text(), "Custom message: bad value");
}

#[test]
fn legacy_compounds() {
    assert_eq!(text(&Value::Sequence(vec![])), "[]");
    assert_eq!(text(&Value::Sequence(vec![Value::Int(1), Value::Int(2)])), "[1,2,]");
    assert_eq!(text(&Value::Bytes(vec![0, 255])), "[0,255,]");
    assert_eq!(text(&Value::Tuple(vec![Value::Int(1), Value::Bool(true)])), "(1,true,)");
    assert_eq!(text(&Value::SomeValue(Box::new(Value::Int(3)))), "Some(3)");
    assert_eq!(
        text(&Value::MapEntries(vec![(Value::Str(s("k")), Value::Int(1)), (Value::Int(2), Value::Unit)])),
        "{\"k\":1,2:(),}"
    );
}

#[test]
fn legacy_structs_without_names() {
    assert_eq!(text(&Value::UnitStruct(s("Marker"))), "()");
    assert_eq!(text(&Value::UnitVariant(s("Role"), s("Admin"))), "Admin");
    assert_eq!(text(&Value::NewtypeStruct(s("Meters"), Box::new(Value::Int(5)))), "(5)");
    assert_eq!(
        text(&Value::NewtypeVariant(s("Shape"), s("Circle"), Box::new(Value::Uint(2)))),
        "Circle(2)"
    );
    assert_eq!(text(&Value::TupleStruct(s("Pair"), vec![Value::Int(1), Value::Int(2)])), "(1,2,)");
    assert_eq!(
        text(&Value::TupleVariant(s("Shape"), s("Rect"), vec![Value::Int(1), Value::Int(2)])),
        "Rect(1,2,)"
    );
    let point = Value::Struct(s("Point"), vec![(s("x"), Value::Int(1)), (s("y"), Value::Int(-2))]);
    assert_eq!(text(&point), "{x:1,y:-2,}");
    let variant = Value::StructVariant(s("Shape"), s("Dot"), vec![(s("at"), point)]);
    assert_eq!(text(&variant), "Dot{at:{x:1,y:-2,},}");
}

#[test]
fn decimal_texts() {
    assert_eq!(decimal_text(0), "0");
    assert_eq!(decimal_text(u128::MAX), "340282366920938463463374607431768211455");
    assert_eq!(i64_text(i64::MIN), "-9223372036854775808");
    assert_eq!(i64_text(-10), "-10");
    assert_eq!(u64_text(1000), "1000");
    assert_eq!(usize_text(42), "42");
}
