use rson_rs::de::error::{RsonDeError, RsonDeResult};
use rson_rs::de::expr::{DocExpr, DocFieldValue, DocLit, DocMember, DocPath, DocPathSegment, DocStmt, Token, UnaryOp};
use rson_rs::de::parser::{expected_func_call_args, is_expr_path_none, make_tuples_from_map_macro, RsonParser};
use rson_rs::de::{builder, ByteBuf, Identifier, MapSource, RsonDeBuilder, RsonDeserializer};

fn ok<T>(r: RsonDeResult<T>) -> T {
    match r {
        Ok(v) => v,
        Err(_) => panic!("unexpected error"),
    }
}

fn is_parse<T>(r: RsonDeResult<T>) -> bool {
    matches!(r, Err(RsonDeError::Parse(_)))
}

fn is_syn<T>(r: RsonDeResult<T>) -> bool {
    matches!(r, Err(RsonDeError::Syn(_)))
}

fn is_serde<T>(r: RsonDeResult<T>) -> bool {
    matches!(r, Err(RsonDeError::Serde(_)))
}

fn path_of(names: &[&str]) -> DocPath {
    DocPath {
        leading_colon: false,
        segments: names
            .iter()
            .map(|n| DocPathSegment { ident: n.to_string(), has_arguments: false })
            .collect(),
    }
}

fn var(name: &str) -> DocExpr {
    DocExpr::Path(path_of(&[name]))
}

fn lit_int(digits: &str) -> DocExpr {
    DocExpr::Lit(DocLit::Int(digits.to_string()))
}

fn neg(e: DocExpr) -> DocExpr {
    DocExpr::Unary(UnaryOp::Neg, Box::new(e))
}

fn string(s: &str) -> DocExpr {
    DocExpr::Lit(DocLit::Str(s.to_string()))
}

fn field(base: DocExpr, name: &str) -> DocExpr {
    DocExpr::Field(Box::new(base), DocMember::Named(name.to_string()))
}

fn index(base: DocExpr, i: u32) -> DocExpr {
    DocExpr::Field(Box::new(base), DocMember::Unnamed(i))
}

fn fv(name: &str, e: DocExpr) -> DocFieldValue {
    DocFieldValue { member: DocMember::Named(name.to_string()), expr: e }
}

fn struct_lit(name: &str, fields: Vec<DocFieldValue>, rest: Option<DocExpr>) -> DocExpr {
    DocExpr::Struct(path_of(&[name]), fields, rest.map(Box::new))
}

fn call(name: &str, args: Vec<DocExpr>) -> DocExpr {
    DocExpr::Call(Box::new(var(name)), args)
}

fn let_stmt(name: &str, init: DocExpr) -> DocStmt {
    DocStmt::Local(Some(name.to_string()), Some(init))
}

fn ret(e: DocExpr) -> DocStmt {
    DocStmt::Expr(e, false)
}

fn doc(stmts: Vec<DocStmt>) -> RsonParser {
    ok(RsonParser::new(stmts))
}

fn returned(p: &RsonParser) -> RsonDeserializer<'_> {
    ok(p.new_deserializer())
}

fn name_of(i: Identifier) -> String {
    match i {
        Identifier::Str(s) => s.clone(),
        _ => panic!("not a name"),
    }
}

#[test]
fn parser_keeps_last_binding() {
    let b = RsonDeBuilder::new(doc(vec![let_stmt("a", lit_int("1")), let_stmt("a", lit_int("2")), ret(var("a"))]));
    assert_eq!(ok(ok(b.var_deserializer("a")).deserialize_i32()), 2);
    assert_eq!(ok(ok(b.deserializer()).deserialize_i32()), 2);
}

#[test]
fn parser_final_expression_with_semicolon_is_no_return() {
    let p = doc(vec![let_stmt("a", lit_int("1")), DocStmt::Expr(lit_int("3"), true)]);
    assert!(matches!(p.new_deserializer(), Err(RsonDeError::ReturnExprNotFound)));
    assert!(!p.is_empty());
}

#[test]
fn empty_document_has_no_statements() {
    let b = builder().with_parser(doc(vec![]));
    assert!(matches!(b.deserializer(), Err(RsonDeError::NoStatements)));
    assert!(builder().deserializer().is_err());
}

#[test]
fn unknown_variable_is_reported() {
    let b = RsonDeBuilder::new(doc(vec![let_stmt("a", lit_int("1")), ret(var("a"))]));
    match b.var_deserializer("b") {
        Err(RsonDeError::VarNotFound(n)) => assert_eq!(n, "b"),
        _ => panic!("expected VarNotFound"),
    }
}

#[test]
fn parser_gives_bindings_and_return() {
    let p = doc(vec![let_stmt("a", lit_int("7")), DocStmt::Other, ret(var("a"))]);
    assert!(p.get_var_expr("a").is_some());
    assert!(p.get_var_expr("b").is_none());
    assert!(matches!(p.return_expr(), Some(DocExpr::Path(_))));
    assert!(RsonParser::empty().is_empty());
}

#[test]
fn variable_resolves_through_alias() {
    let p = doc(vec![let_stmt("a", lit_int("5")), let_stmt("b", var("a")), ret(var("b"))]);
    assert_eq!(ok(returned(&p).deserialize_i64()), 5);
}

#[test]
fn self_reference_is_refused() {
    let p = doc(vec![let_stmt("a", var("a")), ret(var("a"))]);
    assert!(is_parse(returned(&p).deserialize_i32()));
}

#[test]
fn cycle_is_refused() {
    let p = doc(vec![let_stmt("a", var("b")), let_stmt("b", var("a")), ret(var("a"))]);
    assert!(is_parse(returned(&p).deserialize_i32()));
}

#[test]
fn unbound_path_stands_for_itself() {
    let p = doc(vec![ret(var("Admin"))]);
    let d = returned(&p);
    let e = ok(d.resolve_current_expr());
    assert!(matches!(e, DocExpr::Path(_)));
    assert!(ok(d.deserialize_unit()) == ());
}

#[test]
fn field_of_struct_variable() {
    let p = doc(vec![
        let_stmt("pt", struct_lit("P", vec![fv("x", lit_int("1")), fv("y", lit_int("2"))], None)),
        ret(field(var("pt"), "y")),
    ]);
    assert_eq!(ok(returned(&p).deserialize_u8()), 2);
    let q = doc(vec![
        let_stmt("pt", struct_lit("P", vec![fv("x", lit_int("1"))], None)),
        ret(field(var("pt"), "z")),
    ]);
    assert!(is_parse(returned(&q).deserialize_u8()));
}

#[test]
fn index_of_tuple_variable() {
    let p = doc(vec![let_stmt("t", DocExpr::Tuple(vec![lit_int("1"), lit_int("2"), lit_int("3")])), ret(index(var("t"), 2))]);
    assert_eq!(ok(returned(&p).deserialize_u16()), 3);
    let q = doc(vec![let_stmt("t", DocExpr::Tuple(vec![lit_int("1")])), ret(index(var("t"), 4))]);
    assert!(is_parse(returned(&q).deserialize_u16()));
}

#[test]
fn nested_field_through_variables() {
    let p = doc(vec![
        let_stmt("city", string("Rustville")),
        let_stmt("addr", struct_lit("Address", vec![fv("street", string("123 Rust St.")), fv("city", var("city"))], None)),
        let_stmt("user", struct_lit("User", vec![fv("id", lit_int("1")), fv("address", var("addr"))], None)),
        ret(struct_lit("Address", vec![fv("city", field(field(var("user"), "address"), "city"))], None)),
    ]);
    let wanted = field_names(&["city"]);
    let mut acc = ok(returned(&p).deserialize_struct("Address", &wanted));
    assert!(acc.next_key().is_some());
    let value = ok(acc.next_value());
    assert_eq!(ok(value.deserialize_string()), "Rustville");
    assert!(acc.next_key().is_none());
    let q = doc(vec![
        let_stmt("city", string("Rustville")),
        let_stmt("addr", struct_lit("Address", vec![fv("city", var("city"))], None)),
        ret(field(var("addr"), "city")),
    ]);
    let d = returned(&q);
    let found = ok(d.resolve_current_expr());
    assert!(matches!(found, DocExpr::Path(_)));
    assert_eq!(ok(d.duplicate_for_expr(found).deserialize_string()), "Rustville");
}

#[test]
fn field_of_literal_is_refused() {
    let p = doc(vec![ret(field(lit_int("1"), "x"))]);
    assert!(is_parse(returned(&p).deserialize_i32()));
}

#[test]
fn signed_integers() {
    let p = doc(vec![ret(lit_int("127"))]);
    assert_eq!(ok(returned(&p).deserialize_i8()), 127);
    let p = doc(vec![ret(lit_int("128"))]);
    assert!(is_syn(returned(&p).deserialize_i8()));
    let p = doc(vec![ret(neg(lit_int("5")))]);
    assert_eq!(ok(returned(&p).deserialize_i8()), -5);
    let p = doc(vec![ret(neg(lit_int("127")))]);
    assert_eq!(ok(returned(&p).deserialize_i8()), -127);
    let p = doc(vec![ret(neg(lit_int("128")))]);
    assert!(is_syn(returned(&p).deserialize_i8()));
    let p = doc(vec![ret(lit_int("-128"))]);
    assert_eq!(ok(returned(&p).deserialize_i8()), -128);
    let p = doc(vec![ret(lit_int("9223372036854775807"))]);
    assert_eq!(ok(returned(&p).deserialize_i64()), i64::MAX);
    let p = doc(vec![ret(neg(lit_int("170141183460469231731687303715884105727")))]);
    assert_eq!(ok(returned(&p).deserialize_i128()), -i128::MAX);
    let p = doc(vec![ret(lit_int("12x"))]);
    assert!(is_syn(returned(&p).deserialize_i32()));
    let p = doc(vec![ret(string("12"))]);
    assert!(is_serde(returned(&p).deserialize_i32()));
    let p = doc(vec![ret(neg(string("12")))]);
    assert!(is_serde(returned(&p).deserialize_i16()));
}

#[test]
fn unsigned_integers() {
    let p = doc(vec![ret(lit_int("255"))]);
    assert_eq!(ok(returned(&p).deserialize_u8()), 255);
    let p = doc(vec![ret(lit_int("256"))]);
    assert!(is_syn(returned(&p).deserialize_u8()));
    let p = doc(vec![ret(lit_int("+7"))]);
    assert_eq!(ok(returned(&p).deserialize_u32()), 7);
    let p = doc(vec![ret(lit_int("18446744073709551615"))]);
    assert_eq!(ok(returned(&p).deserialize_u64()), u64::MAX);
    let p = doc(vec![ret(lit_int("340282366920938463463374607431768211455"))]);
    assert_eq!(ok(returned(&p).deserialize_u128()), u128::MAX);
    let p = doc(vec![ret(lit_int("340282366920938463463374607431768211456"))]);
    assert!(is_syn(returned(&p).deserialize_u128()));
    let p = doc(vec![ret(neg(lit_int("1")))]);
    assert!(is_serde(returned(&p).deserialize_u8()));
    let p = doc(vec![ret(lit_int(""))]);
    assert!(is_syn(returned(&p).deserialize_u8()));
}

#[test]
fn floats_give_sign_and_digits() {
    let p = doc(vec![ret(DocExpr::Lit(DocLit::Float("1.5".to_string())))]);
    let (n, d) = ok(returned(&p).deserialize_float());
    assert!(!n);
    assert_eq!(d, "1.5");
    let p = doc(vec![ret(neg(DocExpr::Lit(DocLit::Float("2e3".to_string()))))]);
    let (n, d) = ok(returned(&p).deserialize_float());
    assert!(n);
    assert_eq!(d, "2e3");
    let p = doc(vec![ret(lit_int("1"))]);
    assert!(is_serde(returned(&p).deserialize_float()));
}

#[test]
fn scalars() {
    let p = doc(vec![let_stmt("t", DocExpr::Lit(DocLit::Bool(true))), ret(var("t"))]);
    assert!(ok(returned(&p).deserialize_bool()));
    let p = doc(vec![ret(DocExpr::Lit(DocLit::Char('x')))]);
    assert_eq!(ok(returned(&p).deserialize_char()), 'x');
    assert!(is_serde(returned(&p).deserialize_bool()));
    let p = doc(vec![ret(string("hi"))]);
    assert_eq!(ok(returned(&p).deserialize_str()), "hi");
    assert!(is_serde(returned(&p).deserialize_char()));
}

#[test]
fn units() {
    let p = doc(vec![ret(DocExpr::Tuple(vec![]))]);
    assert!(returned(&p).deserialize_unit().is_ok());
    let p = doc(vec![ret(DocExpr::Tuple(vec![lit_int("1")]))]);
    assert!(is_serde(returned(&p).deserialize_unit()));
    let p = doc(vec![ret(var("Marker"))]);
    assert!(returned(&p).deserialize_unit_struct("Marker").is_ok());
    assert!(is_serde(returned(&p).deserialize_unit_struct("Other")));
}

#[test]
fn options() {
    let p = doc(vec![ret(var("None"))]);
    assert!(ok(returned(&p).deserialize_option()).is_none());
    let p = doc(vec![ret(call("Some", vec![lit_int("4")]))]);
    let inner = ok(returned(&p).deserialize_option()).expect("some");
    assert_eq!(ok(inner.deserialize_i32()), 4);
    let p = doc(vec![ret(lit_int("9"))]);
    let inner = ok(returned(&p).deserialize_option()).expect("bare value");
    assert_eq!(ok(inner.deserialize_i32()), 9);
}

#[test]
fn newtype_and_tuple_structs() {
    let p = doc(vec![ret(call("Meters", vec![lit_int("3")]))]);
    let inner = ok(returned(&p).deserialize_newtype_struct("Meters"));
    assert_eq!(ok(inner.deserialize_u8()), 3);
    assert!(is_serde(returned(&p).deserialize_newtype_struct("Feet")));
    let p = doc(vec![ret(call("Pair", vec![lit_int("1"), lit_int("2")]))]);
    let mut acc = ok(returned(&p).deserialize_tuple_struct("Pair", 2));
    assert_eq!(ok(ok(acc.next_element()).expect("first").deserialize_u8()), 1);
    assert_eq!(ok(ok(acc.next_element()).expect("second").deserialize_u8()), 2);
    assert!(ok(acc.next_element()).is_none());
    assert!(is_serde(returned(&p).deserialize_tuple_struct("Pair", 3)));
}

#[test]
fn sequences_and_tuples() {
    let p = doc(vec![let_stmt("a", lit_int("10")), ret(DocExpr::Array(vec![var("a"), lit_int("20")]))]);
    let mut acc = ok(returned(&p).deserialize_seq());
    assert_eq!(ok(ok(acc.next_element()).expect("first").deserialize_i32()), 10);
    assert_eq!(ok(ok(acc.next_element()).expect("second").deserialize_i32()), 20);
    assert!(ok(acc.next_element()).is_none());
    assert!(is_serde(returned(&p).deserialize_tuple(2)));
    let p = doc(vec![ret(DocExpr::Tuple(vec![lit_int("1"), string("b")]))]);
    let mut acc = ok(returned(&p).deserialize_tuple(2));
    assert_eq!(ok(ok(acc.next_element()).expect("first").deserialize_i32()), 1);
    assert_eq!(ok(ok(acc.next_element()).expect("second").deserialize_string()), "b");
}

#[test]
fn byte_buffers() {
    let p = doc(vec![ret(DocExpr::Lit(DocLit::ByteStr(vec![1, 2])))]);
    match ok(returned(&p).deserialize_byte_buf()) {
        ByteBuf::Bytes(b) => assert_eq!(b, &vec![1u8, 2]),
        _ => panic!("expected bytes"),
    }
    let p = doc(vec![ret(DocExpr::Array(vec![lit_int("3")]))]);
    match ok(returned(&p).deserialize_byte_buf()) {
        ByteBuf::Elements(mut acc) => assert_eq!(ok(ok(acc.next_element()).expect("one").deserialize_u8()), 3),
        _ => panic!("expected elements"),
    }
}

#[test]
fn maps_from_pairs() {
    let p = doc(vec![ret(DocExpr::Array(vec![
        DocExpr::Tuple(vec![lit_int("1"), DocExpr::Lit(DocLit::Char('a'))]),
        DocExpr::Tuple(vec![lit_int("2"), DocExpr::Lit(DocLit::Char('b'))]),
    ]))]);
    match ok(returned(&p).deserialize_map()) {
        MapSource::Entries(mut acc) => {
            assert_eq!(ok(ok(acc.next_key()).expect("key").deserialize_u8()), 1);
            assert!(acc.value_ready());
            assert_eq!(ok(ok(acc.next_value()).deserialize_char()), 'a');
            assert_eq!(ok(ok(acc.next_key()).expect("key").deserialize_u8()), 2);
            assert!(acc.value_ready());
            assert_eq!(ok(ok(acc.next_value()).deserialize_char()), 'b');
            assert!(ok(acc.next_key()).is_none());
        },
        _ => panic!("expected entries"),
    }
}

#[test]
fn map_macro_is_rewritten_as_tuples() {
    let tokens = vec![
        Token::Other("\"a\"".to_string()),
        Token::Punct(':', false),
        Token::Other("1".to_string()),
        Token::Punct(',', false),
        Token::Other("\"b\"".to_string()),
        Token::Punct(':', false),
        Token::Other("E".to_string()),
        Token::Punct(':', true),
        Token::Punct(':', false),
        Token::Other("V".to_string()),
    ];
    assert_eq!(make_tuples_from_map_macro(&tokens), "((\"a\",1),(\"b\",E::V))");
    let trailing = vec![
        Token::Other("1".to_string()),
        Token::Punct(':', false),
        Token::Other("2".to_string()),
        Token::Punct(',', false),
    ];
    assert_eq!(make_tuples_from_map_macro(&trailing), "((1,2))");
    assert_eq!(make_tuples_from_map_macro(&vec![]), "())");
    let two = vec![
        Token::Other("1".to_string()),
        Token::Punct(':', false),
        Token::Other("2".to_string()),
        Token::Punct(',', false),
        Token::Other("3".to_string()),
        Token::Punct(':', false),
        Token::Other("4".to_string()),
    ];
    let p = doc(vec![ret(DocExpr::Macro(path_of(&["map"]), two))]);
    match ok(returned(&p).deserialize_map()) {
        MapSource::Macro(inner) => match ok(returned(&inner).deserialize_map()) {
            MapSource::Entries(mut acc) => {
                assert_eq!(ok(ok(acc.next_key()).expect("key").deserialize_u8()), 1);
                assert_eq!(ok(ok(acc.next_value()).deserialize_u8()), 2);
                assert_eq!(ok(ok(acc.next_key()).expect("key").deserialize_u8()), 3);
                assert_eq!(ok(ok(acc.next_value()).deserialize_u8()), 4);
                assert!(ok(acc.next_key()).is_none());
            },
            _ => panic!("expected entries"),
        },
        _ => panic!("expected a macro document"),
    }
    let bad = vec![Token::Punct(':', false), Token::Punct(':', false)];
    let r = doc(vec![ret(DocExpr::Macro(path_of(&["map"]), bad))]);
    assert!(is_syn(returned(&r).deserialize_map()));
    let q = doc(vec![ret(DocExpr::Macro(path_of(&["vec"]), vec![]))]);
    assert!(is_serde(returned(&q).deserialize_map()));
}

#[test]
fn call_arguments_by_name_and_count() {
    let e = call("Some", vec![lit_int("1")]);
    assert_eq!(expected_func_call_args(&e, "Some", 1).map(|a| a.len()), Some(1));
    assert!(expected_func_call_args(&e, "Some", 2).is_none());
    assert!(expected_func_call_args(&e, "Ok", 1).is_none());
    assert!(expected_func_call_args(&e, "", 1).is_some());
    assert!(expected_func_call_args(&lit_int("1"), "", 0).is_none());
    assert!(is_expr_path_none(&var("None")));
    assert!(!is_expr_path_none(&var("Nothing")));
    assert!(!is_expr_path_none(&DocExpr::Path(path_of(&["Option", "None"]))));
}

#[test]
fn identifiers() {
    let p = doc(vec![ret(DocExpr::Path(path_of(&["Role", "Admin"])))]);
    assert_eq!(name_of(ok(returned(&p).deserialize_identifier())), "Admin");
    let p = doc(vec![ret(string("key"))]);
    assert_eq!(name_of(ok(returned(&p).deserialize_identifier())), "key");
    let p = doc(vec![ret(lit_int("3"))]);
    assert!(matches!(ok(returned(&p).deserialize_identifier()), Identifier::U64(3)));
    let p = doc(vec![ret(DocExpr::Tuple(vec![]))]);
    assert!(is_serde(returned(&p).deserialize_identifier()));
}

#[test]
fn enums() {
    let p = doc(vec![ret(DocExpr::Path(path_of(&["Role", "Admin"])))]);
    let acc = ok(returned(&p).deserialize_enum("Role"));
    assert_eq!(name_of(ok(acc.variant().deserialize_identifier())), "Admin");
    assert!(acc.unit_variant().is_ok());
    assert!(is_serde(returned(&p).deserialize_enum("Other")));
    let p = doc(vec![ret(call("Circle", vec![lit_int("2")]))]);
    let acc = ok(returned(&p).deserialize_enum("Shape"));
    assert_eq!(ok(ok(acc.newtype_variant()).deserialize_u8()), 2);
    let p = doc(vec![ret(call("Rect", vec![lit_int("2"), lit_int("3")]))]);
    let acc = ok(returned(&p).deserialize_enum("Shape"));
    let mut elems = ok(acc.tuple_variant(2));
    assert_eq!(ok(ok(elems.next_element()).expect("w").deserialize_u8()), 2);
    assert!(is_serde(acc.newtype_variant()));
    let p = doc(vec![ret(DocExpr::Array(vec![]))]);
    assert!(is_serde(returned(&p).deserialize_enum("Shape")));
}

fn field_names(names: &[&str]) -> Vec<String> {
    names.iter().map(|n| n.to_string()).collect()
}

#[test]
fn struct_fields_and_update() {
    let p = doc(vec![
        let_stmt(
            "base",
            struct_lit("User", vec![fv("id", lit_int("1")), fv("name", string("Alice")), fv("role", var("Admin"))], None),
        ),
        ret(struct_lit("User", vec![fv("id", lit_int("2"))], Some(var("base")))),
    ]);
    let wanted = field_names(&["id", "name", "role"]);
    let mut acc = ok(returned(&p).deserialize_struct("User", &wanted));
    let mut seen: Vec<(String, String)> = Vec::new();
    while let Some(key) = acc.next_key() {
        let name = name_of(ok(key.deserialize_identifier()));
        let value = ok(acc.next_value());
        let text = match ok(value.resolve_current_expr()) {
            DocExpr::Lit(DocLit::Int(d)) => d.clone(),
            DocExpr::Lit(DocLit::Str(s)) => s.clone(),
            DocExpr::Path(p) => p.segments[0].ident.clone(),
            _ => panic!("unexpected field value"),
        };
        seen.push((name, text));
    }
    assert_eq!(
        seen,
        vec![
            ("id".to_string(), "2".to_string()),
            ("name".to_string(), "Alice".to_string()),
            ("role".to_string(), "Admin".to_string()),
        ]
    );
    assert!(is_serde(returned(&p).deserialize_struct("Admin", &wanted)));
    assert!(returned(&p).deserialize_struct("", &wanted).is_ok());
}

#[test]
fn struct_update_from_non_struct_is_refused() {
    let p = doc(vec![
        let_stmt("base", lit_int("1")),
        ret(struct_lit("User", vec![fv("id", lit_int("2"))], Some(var("base")))),
    ]);
    let wanted = field_names(&["id", "name"]);
    assert!(is_parse(returned(&p).deserialize_struct("User", &wanted)));
    let only_id = field_names(&["id"]);
    assert!(returned(&p).deserialize_struct("User", &only_id).is_ok());
}

#[test]
fn rest_fields_follow_chain() {
    let p = doc(vec![
        let_stmt("a", struct_lit("S", vec![fv("x", lit_int("1")), fv("y", lit_int("2"))], None)),
        let_stmt("b", struct_lit("S", vec![fv("y", lit_int("3"))], Some(var("a")))),
        ret(var("b")),
    ]);
    let d = returned(&p);
    let rest = var("b");
    let found = ok(d.resolve_struct_rest_fields(field_names(&["x", "y"]), &rest));
    let names: Vec<String> = found.iter().map(|(n, _)| (*n).clone()).collect();
    assert_eq!(names, vec!["y".to_string(), "x".to_string()]);
}

#[test]
fn deserializer_copies_share_document() {
    let p = doc(vec![let_stmt("a", lit_int("1")), ret(var("a"))]);
    let d = returned(&p);
    let other = lit_int("8");
    let e = d.duplicate_for_expr(&other);
    assert_eq!(ok(e.deserialize_u8()), 8);
    let f = RsonDeserializer::new_with_expr(&p, &other);
    assert_eq!(ok(f.deserialize_u8()), 8);
    assert!(matches!(d.current_expr_ref(), DocExpr::Path(_)));
    assert!(matches!(ok(d.resolve_expr(&other)), DocExpr::Lit(_)));
}

#[test]
fn integer_round_trip() {
    for i in [-42i64, 0, 7, i64::MAX, i64::MIN + 1] {
        let text = match rson_rs::ser::to_string_compact(&rson_rs::ser::value::Value::Int(i)) {
            Ok(t) => t,
            Err(_) => panic!("serialization failed"),
        };
        let e = match text.strip_prefix('-') {
            Some(digits) => neg(lit_int(digits)),
            None => lit_int(&text),
        };
        let p = doc(vec![ret(e)]);
        assert_eq!(ok(returned(&p).deserialize_i64()), i);
    }
    let p = doc(vec![ret(neg(lit_int("9223372036854775808")))]);
    assert!(is_syn(returned(&p).deserialize_i64()));
}

#[test]
fn parser_reads_text() {
    let text = "let a = 1; let a = -2; let b = (a, \"x\"); b";
    let p = ok(RsonParser::from_str(text));
    let d = returned(&p);
    let mut acc = ok(d.deserialize_tuple(2));
    assert_eq!(ok(ok(acc.next_element()).expect("first").deserialize_i32()), -2);
    assert_eq!(ok(ok(acc.next_element()).expect("second").deserialize_string()), "x");
    assert!(is_syn(RsonParser::from_str("let = ;")));
    assert!(ok(RsonParser::from_str("")).is_empty());
}

#[test]
fn builder_reads_user_example() {
    let text = r#"
    let city = "Rustville";
    let default_address = Address {
        street: "123 Rust St.",
        city,
        zip: 10001
    };
    let user = User {
        id: 1,
        name: "Alice",
        address: default_address,
        ..
    };
    [
        user,
        User {
            id: 2,
            address: Address { street: "456 Rust St.", city: user.address.city, zip: 10002 },
            ..user
        },
    ]
    "#;
    let b = ok(builder().from_str(text));
    let addr = ok(b.var_deserializer("default_address"));
    let wanted = field_names(&["city"]);
    let mut acc = ok(addr.deserialize_struct("Address", &wanted));
    let mut city = String::new();
    while let Some(key) = acc.next_key() {
        let name = name_of(ok(key.deserialize_identifier()));
        let value = ok(acc.next_value());
        if name == "city" {
            city = ok(value.deserialize_string());
        }
    }
    assert_eq!(city, "Rustville");
    let users = ok(b.deserializer());
    let mut elems = ok(users.deserialize_seq());
    let _first = ok(elems.next_element()).expect("first user");
    let second = ok(elems.next_element()).expect("second user");
    let wanted = field_names(&["id", "name", "address"]);
    let mut fields = ok(second.deserialize_struct("User", &wanted));
    let mut names: Vec<String> = Vec::new();
    while let Some(key) = fields.next_key() {
        names.push(name_of(ok(key.deserialize_identifier())));
        let _ = ok(fields.next_value());
    }
    assert_eq!(names, vec!["id".to_string(), "address".to_string(), "name".to_string()]);
    assert!(matches!(builder().from_str("let"), Err(RsonDeError::Syn(_))));
}

#[test]
fn member_of_unbound_name_is_refused() {
    let p = ok(RsonParser::from_str("let a = x.y; a"));
    assert!(is_parse(returned(&p).deserialize_i32()));
    let q = ok(RsonParser::from_str("let b = x; let c = b.y; c"));
    assert!(is_parse(returned(&q).deserialize_i32()));
}
