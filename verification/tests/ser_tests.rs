use rson_rs::ser::formatter::{CompactFormatter, PrettyFormatter};
use rson_rs::ser::value::Value;
use rson_rs::ser::{builder, compact, pretty, to_string_compact, to_string_pretty, RsonSerializer};

fn s(text: &str) -> String {
    text.to_string()
}

fn loc(parts: &[&str]) -> Vec<String> {
    parts.iter().map(|p| p.to_string()).collect()
}

fn address() -> Value {
    Value::Struct(
        s("Address"),
        vec![
            (s("street"), Value::Str(s("123 Rust St."))),
            (s("city"), Value::Str(s("Rustville"))),
            (s("zip"), Value::Uint(10001)),
        ],
    )
}

fn user() -> Value {
    Value::Struct(
        s("User"),
        vec![
            (s("id"), Value::Uint(1)),
            (s("name"), Value::Str(s("Alice"))),
            (s("email"), Value::Str(s("alice@example.com"))),
            (s("is_active"), Value::Bool(false)),
            (s("scores"), Value::Sequence(vec![Value::Int(98), Value::Int(87), Value::Int(92)])),
            (s("address"), address()),
            (s("role"), Value::UnitVariant(s("UserRole"), s("User"))),
        ],
    )
}

fn compact_text(v: &Value) -> String {
    match to_string_compact(v) {
        Ok(t) => t,
        Err(_) => panic!("serialization failed"),
    }
}

fn pretty_text(v: &Value) -> String {
    match to_string_pretty(v) {
        Ok(t) => t,
        Err(_) => panic!("serialization failed"),
    }
}

#[test]
fn compact_scalars() {
    assert_eq!(compact_text(&Value::Bool(true)), "true");
    assert_eq!(compact_text(&Value::Bool(false)), "false");
    assert_eq!(compact_text(&Value::Int(-42)), "-42");
    assert_eq!(compact_text(&Value::Int(i64::MIN)), "-9223372036854775808");
    assert_eq!(compact_text(&Value::Uint(0)), "0");
    assert_eq!(compact_text(&Value::I128(i128::MIN)), "-170141183460469231731687303715884105728");
    assert_eq!(compact_text(&Value::U128(u128::MAX)), "340282366920938463463374607431768211455");
    assert_eq!(compact_text(&Value::Float(s("1.5"))), "1.5");
    assert_eq!(compact_text(&Value::Char('a')), "'a'");
    assert_eq!(compact_text(&Value::Char('\'')), "'\\''");
    assert_eq!(compact_text(&Value::Str(s("a\"b"))), "\"a\\\"b\"");
    assert_eq!(compact_text(&Value::NoneValue), "None");
    assert_eq!(compact_text(&Value::Unit), "()");
}

#[test]
fn compact_compounds() {
    assert_eq!(compact_text(&Value::Sequence(vec![Value::Int(1), Value::Int(2)])), "[1,2]");
    assert_eq!(compact_text(&Value::Sequence(vec![])), "[]");
    assert_eq!(compact_text(&Value::Tuple(vec![Value::Int(1), Value::Bool(true)])), "(1,true)");
    assert_eq!(compact_text(&Value::Bytes(vec![1, 2, 255])), "[1,2,255]");
    assert_eq!(compact_text(&Value::SomeValue(Box::new(Value::Int(3)))), "3");
    assert_eq!(compact_text(&Value::UnitStruct(s("Marker"))), "Marker");
    assert_eq!(compact_text(&Value::UnitVariant(s("Color"), s("Red"))), "Red");
    assert_eq!(compact_text(&Value::NewtypeStruct(s("Meters"), Box::new(Value::Int(5)))), "Meters(5)");
    assert_eq!(
        compact_text(&Value::NewtypeVariant(s("Shape"), s("Circle"), Box::new(Value::Int(5)))),
        "Circle(5)"
    );
    assert_eq!(compact_text(&Value::TupleStruct(s("Point"), vec![Value::Int(1), Value::Int(2)])), "Point(1,2)");
    assert_eq!(
        compact_text(&Value::TupleVariant(s("Shape"), s("Rect"), vec![Value::Int(1), Value::Int(2)])),
        "Rect(1,2)"
    );
    assert_eq!(
        compact_text(&Value::MapEntries(vec![(Value::Int(1), Value::Char('a')), (Value::Int(2), Value::Char('b'))])),
        "map!{1:'a',2:'b'}"
    );
    assert_eq!(compact_text(&address()), "Address{street:\"123 Rust St.\",city:\"Rustville\",zip:10001}");
    assert_eq!(
        compact_text(&Value::StructVariant(s("Shape"), s("Square"), vec![(s("side"), Value::Int(2))])),
        "Square{side:2}"
    );
}

#[test]
fn pretty_struct() {
    assert_eq!(
        pretty_text(&address()),
        "Address {\n    street: \"123 Rust St.\",\n    city: \"Rustville\",\n    zip: 10001,\n}"
    );
    assert_eq!(pretty_text(&Value::Sequence(vec![])), "[]");
    assert_eq!(pretty_text(&Value::Sequence(vec![Value::Int(1), Value::Int(2)])), "[\n    1,\n    2,\n]");
    assert_eq!(pretty_text(&Value::UnitVariant(s("Color"), s("Red"))), "Color::Red");
    assert_eq!(
        pretty_text(&Value::MapEntries(vec![(Value::Str(s("k")), Value::Int(1))])),
        "map! {\n    \"k\": 1,\n}"
    );
}

#[test]
fn pretty_nested_indent_returns() {
    let v = Value::Sequence(vec![Value::Sequence(vec![Value::Int(1)]), Value::Int(2)]);
    assert_eq!(pretty_text(&v), "[\n    [\n        1,\n    ],\n    2,\n]");
}

#[test]
fn pretty_options() {
    let f = PrettyFormatter::with_indent("  ")
        .with_explicit_some(true)
        .with_full_enum_variant_name(false)
        .with_use_trailing_comma(false);
    let mut b = builder(f);
    let v = Value::Sequence(vec![
        Value::SomeValue(Box::new(Value::UnitVariant(s("Color"), s("Red")))),
        Value::NoneValue,
    ]);
    match b.to_string(&v) {
        Ok(t) => assert_eq!(t, "[\n  Some(Red),\n  None\n]"),
        Err(_) => panic!("serialization failed"),
    }
}

#[test]
fn let_statements_with_vars() {
    let mut serial = pretty();
    let city_stmt = match serial.to_string_var(&Value::Str(s("Rustville")), "city") {
        Ok(t) => t,
        Err(_) => panic!("serialization failed"),
    };
    assert_eq!(city_stmt, "let city = \"Rustville\";");

    let address_stmt = match serial.add_vars(vec![(loc(&["city"]), s("city"))]).to_string_var(&address(), "default_address") {
        Ok(t) => t,
        Err(_) => panic!("serialization failed"),
    };
    assert_eq!(
        address_stmt,
        "let default_address = Address {\n    street: \"123 Rust St.\",\n    city,\n    zip: 10001,\n};"
    );

    serial.add_vars(vec![(loc(&["address"]), s("default_address")), (loc(&["..", "role"]), s(""))]);
    let user_stmt = match serial.to_string_var(&user(), "user") {
        Ok(t) => t,
        Err(_) => panic!("serialization failed"),
    };
    assert_eq!(
        user_stmt,
        "let user = User {\n    id: 1,\n    name: \"Alice\",\n    email: \"alice@example.com\",\n    is_active: false,\n    scores: [\n        98,\n        87,\n        92,\n    ],\n    address: default_address,\n    ..\n};"
    );
}

#[test]
fn vars_are_used_once() {
    let mut serial = compact();
    serial.add_vars(vec![(loc(&[]), s("x"))]);
    match serial.to_string(&Value::Int(5)) {
        Ok(t) => assert_eq!(t, "x"),
        Err(_) => panic!("serialization failed"),
    }
    match serial.to_string(&Value::Int(5)) {
        Ok(t) => assert_eq!(t, "5"),
        Err(_) => panic!("serialization failed"),
    }
}

#[test]
fn later_var_replaces_earlier() {
    let mut serial = compact().with_vars(vec![(loc(&["0"]), s("a")), (loc(&["0"]), s("b"))]);
    let v = Value::Sequence(vec![Value::Int(1), Value::Int(2)]);
    match serial.to_string(&v) {
        Ok(t) => assert_eq!(t, "[b,2]"),
        Err(_) => panic!("serialization failed"),
    }
}

#[test]
fn rest_struct_with_var() {
    let users = Value::Sequence(vec![user(), user()]);
    let mut serial = compact().with_vars(vec![
        (loc(&["0"]), s("user")),
        (loc(&["1", "address", "city"]), s("user.address.city")),
        (loc(&["1", "..", "is_active", "scores"]), s("user")),
    ]);
    match serial.to_string(&users) {
        Ok(t) => assert_eq!(
            t,
            "[user,User{id:1,name:\"Alice\",email:\"alice@example.com\",address:Address{street:\"123 Rust St.\",city:user.address.city,zip:10001},role:User,..user}]"
        ),
        Err(_) => panic!("serialization failed"),
    }
}

#[test]
fn map_key_locations() {
    let v = Value::MapEntries(vec![(Value::Str(s("k")), Value::Int(1)), (Value::Int(7), Value::Int(2))]);
    let mut serial = compact().with_vars(vec![(vec![s("\"k\""), s(":")], s("one")), (vec![s("7")], s("seven"))]);
    match serial.to_string(&v) {
        Ok(t) => assert_eq!(t, "map!{\"k\":one,seven:2}"),
        Err(_) => panic!("serialization failed"),
    }
}

#[test]
fn serializer_methods() {
    let mut ser = RsonSerializer::new();
    assert!(ser.begin_let("v").is_ok());
    assert!(ser.serialize(&Value::Int(3)).is_ok());
    assert!(ser.end_let().is_ok());
    assert_eq!(ser.into_inner(), "let v=3;");

    let mut ser = RsonSerializer::with_formatter(CompactFormatter).with_vars(vec![(loc(&[]), s("root"))]);
    assert_eq!(ser.find_var_name().map(|n| n.clone()), Some(s("root")));
    match ser.maybe_write_var() {
        Ok(written) => assert!(written),
        Err(_) => panic!("write failed"),
    }
    assert!(ser.serialize_name("!").is_ok());
    assert_eq!(ser.into_inner(), "root!");

    let ser = RsonSerializer::pretty().with_vars(vec![(loc(&["..", "a", "b"]), s("rest"))]);
    let (skip, rest) = ser.get_struct_fields_to_skip();
    assert_eq!(skip, vec![s("a"), s("b")]);
    assert_eq!(rest, Some(s("rest")));
}

#[test]
fn pretty_serializer_back_at_top_level() {
    let nested = Value::Sequence(vec![Value::Tuple(vec![Value::Int(1)]), Value::Int(2)]);
    let once = pretty_text(&nested);
    let mut ser = RsonSerializer::pretty();
    assert!(ser.serialize(&nested).is_ok());
    assert!(ser.serialize(&nested).is_ok());
    assert_eq!(ser.into_inner(), format!("{once}{once}"));
}

#[test]
fn written_text_follows_earlier_text() {
    let mut ser = RsonSerializer::new();
    assert!(ser.serialize(&Value::Str(s("a"))).is_ok());
    assert!(ser.serialize(&address()).is_ok());
    assert_eq!(ser.into_inner(), format!("\"a\"{}", compact_text(&address())));
}
