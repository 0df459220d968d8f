//! Deserialization of documents written as Rust statements and expressions.

pub mod accessor;
pub mod error;
pub mod expr;
pub mod parser;
pub mod syntax;

use vstd::prelude::*;

use self::accessor::{check_resolve, field_views, RsonEnumAccessor, RsonFieldMapAccessor, RsonMapAccessor, RsonSeqAccessor};
use self::error::{DeErrorKind, RsonDeError, RsonDeResult};
use self::syntax::block_statements;
use self::expr::{DocExpr, DocFieldValue, DocLit, DocMember, DocPath, UnaryOp};
use self::parser::{
    call_args, deref_all, expected_func_call_args, is_expr_path_none, is_none_path, make_tuples_from_map_macro,
    map_tuples_text, select_member, document_return, document_var, RsonParser, RESOLVE_FUEL,
};
use crate::text::{int_text, lemma_parse_int_text, owned, parse_int_in, parse_int_magnitude};
use crate::ser::value::Value;

verus! {

/// What an expression stands for once variables and field accesses are followed.
pub open spec fn resolve(parser: RsonParser, e: DocExpr) -> Result<DocExpr, DeErrorKind> {
    match e {
        DocExpr::Field(b, m) => parser.resolve_field(*b, m, Seq::empty(), false, RESOLVE_FUEL as nat).0,
        DocExpr::Path(p) => parser.resolve_var(e, p, Seq::empty(), false, RESOLVE_FUEL as nat).0,
        _ => Ok(e),
    }
}

/// The signed integer an expression of a type from `lo` to `hi` (`lo` < 0) reads as:
/// an integer literal, or a negated one.
pub open spec fn signed_value(e: DocExpr, lo: int, hi: int) -> Result<int, DeErrorKind> {
    match e {
        DocExpr::Lit(DocLit::Int(d)) => match parse_int_in(d@, true, lo, hi) {
            Some(v) => Ok(v),
            None => Err(DeErrorKind::Syn),
        },
        DocExpr::Unary(UnaryOp::Neg, inner) => match *inner {
            DocExpr::Lit(DocLit::Int(d)) => match parse_int_in(d@, true, lo, hi) {
                Some(v) => if v == lo { Err(DeErrorKind::Syn) } else { Ok(-v) },
                None => Err(DeErrorKind::Syn),
            },
            _ => Err(DeErrorKind::Serde),
        },
        _ => Err(DeErrorKind::Serde),
    }
}

/// The unsigned integer an expression of a type up to `hi` reads as: an integer literal.
pub open spec fn unsigned_value(e: DocExpr, hi: int) -> Result<int, DeErrorKind> {
    match e {
        DocExpr::Lit(DocLit::Int(d)) => match parse_int_in(d@, false, 0, hi) {
            Some(v) => Ok(v),
            None => Err(DeErrorKind::Syn),
        },
        _ => Err(DeErrorKind::Serde),
    }
}

/// The sign and digits of a float literal, or of a negated one.
pub open spec fn float_parts(e: DocExpr) -> Result<(bool, Seq<char>), DeErrorKind> {
    match e {
        DocExpr::Lit(DocLit::Float(d)) => Ok((false, d@)),
        DocExpr::Unary(UnaryOp::Neg, inner) => match *inner {
            DocExpr::Lit(DocLit::Float(d)) => Ok((true, d@)),
            _ => Err(DeErrorKind::Serde),
        },
        _ => Err(DeErrorKind::Serde),
    }
}

/// `v` without its first occurrence of `x`.
pub open spec fn remove_first(v: Seq<Seq<char>>, x: Seq<char>) -> Seq<Seq<char>>
    decreases v.len(),
{
    if v.len() == 0 {
        v
    } else if v[0] == x {
        v.drop_first()
    } else {
        seq![v[0]] + remove_first(v.drop_first(), x)
    }
}

/// The named fields among the first `n` of a struct literal, and the requested
/// names none of them matched.
pub open spec fn collect_fields(lit: Seq<DocFieldValue>, requested: Seq<Seq<char>>, n: nat) -> (
    Seq<(Seq<char>, DocExpr)>,
    Seq<Seq<char>>,
)
    decreases n,
{
    if n == 0 || n > lit.len() {
        (Seq::empty(), requested)
    } else {
        let (found, left) = collect_fields(lit, requested, (n - 1) as nat);
        match lit[n - 1].member {
            DocMember::Named(id) => (found.push((id@, lit[n - 1].expr)), remove_first(left, id@)),
            DocMember::Unnamed(_) => (found, left),
        }
    }
}

/// Among the first `n` fields of a struct literal, those whose names are still
/// requested, and the requested names left.
pub open spec fn collect_rest(lit: Seq<DocFieldValue>, requested: Seq<Seq<char>>, n: nat) -> (
    Seq<(Seq<char>, DocExpr)>,
    Seq<Seq<char>>,
)
    decreases n,
{
    if n == 0 || n > lit.len() {
        (Seq::empty(), requested)
    } else {
        let (found, left) = collect_rest(lit, requested, (n - 1) as nat);
        match lit[n - 1].member {
            DocMember::Named(id) => if left.contains(id@) {
                (found.push((id@, lit[n - 1].expr)), remove_first(left, id@))
            } else {
                (found, left)
            },
            DocMember::Unnamed(_) => (found, left),
        }
    }
}

/// The requested fields found by following the struct update `..rest`, nearest first.
pub open spec fn rest_fields(parser: RsonParser, requested: Seq<Seq<char>>, rest: DocExpr, fuel: nat) -> Result<
    Seq<(Seq<char>, DocExpr)>,
    DeErrorKind,
>
    decreases fuel,
{
    if requested.len() == 0 {
        Ok(Seq::empty())
    } else if fuel == 0 {
        Err(DeErrorKind::Parse)
    } else {
        match resolve(parser, rest) {
            Err(k) => Err(k),
            Ok(DocExpr::Struct(_, lit, rest2)) => {
                let (found, left) = collect_rest(lit@, requested, lit@.len());
                match rest2 {
                    Some(r2) => match rest_fields(parser, left, *r2, (fuel - 1) as nat) {
                        Ok(more) => Ok(found + more),
                        Err(k) => Err(k),
                    },
                    None => Ok(found),
                }
            },
            Ok(_) => Err(DeErrorKind::Parse),
        }
    }
}

/// An identifier as a deserializer hands it out.
pub enum Identifier<'a> {
    Str(&'a String),
    Bytes(&'a Vec<u8>),
    U64(u64),
}

/// What a byte buffer is read from: a byte string literal, or an array of numbers.
pub enum ByteBuf<'a> {
    Bytes(&'a Vec<u8>),
    Elements(RsonSeqAccessor<'a>),
}

/// What a map is read from: a `map!` macro, whose tokens are re-read as the
/// document of a tuple of pairs, or a tuple or array of pairs.
pub enum MapSource<'a> {
    Macro(RsonParser),
    Entries(RsonMapAccessor<'a>),
}

/// Reads values out of one expression of a document.
#[derive(Clone, Copy)]
pub struct RsonDeserializer<'a> {
    parser: &'a RsonParser,
    current_expr: &'a DocExpr,
}

/// The error of a result, or nothing.
pub open spec fn err_kind<T>(r: RsonDeResult<T>) -> Option<DeErrorKind> {
    match r {
        Ok(_) => None,
        Err(e) => Some(e.kind()),
    }
}

impl<'a> RsonDeserializer<'a> {
    /// The document.
    pub closed spec fn doc(&self) -> RsonParser {
        *self.parser
    }

    /// The expression being read.
    pub closed spec fn current(&self) -> DocExpr {
        *self.current_expr
    }

    /// What the expression being read stands for.
    pub open spec fn resolved(&self) -> Result<DocExpr, DeErrorKind> {
        resolve(self.doc(), self.current())
    }

    /// A deserializer for the expression the document returns.
    pub fn new(parser: &'a RsonParser) -> (r: RsonDeResult<Self>)
        ensures
            (parser.returned() is None && forall|name: Seq<char>| #[trigger] parser.var_init(name) is None) ==> err_kind(r)
                == Some(DeErrorKind::NoStatements),
            !(parser.returned() is None && forall|name: Seq<char>| #[trigger] parser.var_init(name) is None) ==> match parser.returned() {
                Some(e) => r matches Ok(d) && d.doc() == *parser && d.current() == e,
                None => err_kind(r) == Some(DeErrorKind::ReturnExprNotFound),
            },
    {
        if parser.is_empty() {
            return Err(RsonDeError::NoStatements);
        }
        match parser.return_expr() {
            Some(current_expr) => Ok(RsonDeserializer { parser, current_expr }),
            None => Err(RsonDeError::ReturnExprNotFound),
        }
    }

    /// A deserializer for `expr` of the document.
    pub fn new_with_expr(parser: &'a RsonParser, expr: &'a DocExpr) -> (d: Self)
        ensures
            d.doc() == *parser,
            d.current() == *expr,
    {
        RsonDeserializer { parser, current_expr: expr }
    }

    /// A deserializer for another expression of the same document.
    pub fn duplicate_for_expr(&self, expr: &'a DocExpr) -> (d: Self)
        ensures
            d.doc() == self.doc(),
            d.current() == *expr,
    {
        Self::new_with_expr(self.parser, expr)
    }

    /// What `expr` stands for once variables and field accesses are followed.
    pub fn resolve_expr(&self, expr: &'a DocExpr) -> (r: RsonDeResult<&'a DocExpr>)
        ensures
            match r {
                Ok(e) => resolve(self.doc(), *expr) == Ok::<DocExpr, DeErrorKind>(*e),
                Err(e) => resolve(self.doc(), *expr) == Err::<DocExpr, DeErrorKind>(e.kind()),
            },
    {
        match expr {
            DocExpr::Field(b, m) => self.parser.find_field_init_expr(b, m),
            DocExpr::Path(p) => self.parser.find_var_init_expr(expr, p),
            _ => Ok(expr),
        }
    }

    /// The expression being read, as written.
    pub fn current_expr_ref(&self) -> (e: &'a DocExpr)
        ensures
            *e == self.current(),
    {
        self.current_expr
    }

    /// What the expression being read stands for.
    pub fn resolve_current_expr(&self) -> (r: RsonDeResult<&'a DocExpr>)
        ensures
            match r {
                Ok(e) => self.resolved() == Ok::<DocExpr, DeErrorKind>(*e),
                Err(e) => self.resolved() == Err::<DocExpr, DeErrorKind>(e.kind()),
            },
    {
        self.resolve_expr(self.current_expr)
    }
}


impl<'a> RsonDeserializer<'a> {
    /// The integer the expression reads as, for an integer type from `lo` to `hi`.
    pub open spec fn int_outcome(&self, signed: bool, lo: int, hi: int) -> Result<int, DeErrorKind> {
        match self.resolved() {
            Err(k) => Err(k),
            Ok(e) => if signed { signed_value(e, lo, hi) } else { unsigned_value(e, hi) },
        }
    }

    /// Reads a boolean literal.
    pub fn deserialize_bool(&self) -> (r: RsonDeResult<bool>)
        ensures
            match self.resolved() {
                Err(k) => err_kind(r) == Some(k),
                Ok(DocExpr::Lit(DocLit::Bool(b))) => r matches Ok(v) && v == b,
                Ok(_) => err_kind(r) == Some(DeErrorKind::Serde),
            },
    {
        let expr = self.resolve_current_expr()?;
        match expr {
            DocExpr::Lit(DocLit::Bool(b)) => Ok(*b),
            _ => Err(RsonDeError::Serde(owned("unsupported bool"))),
        }
    }

    /// Reads a signed integer of a type from `lo` to `hi`.
    fn deserialize_signed(&self, lo: i128, hi: i128) -> (r: RsonDeResult<i128>)
        requires
            lo < 0 < hi,
            -(lo as int) == hi + 1,
        ensures
            match self.int_outcome(true, lo as int, hi as int) {
                Ok(v) => r matches Ok(x) && x == v,
                Err(k) => err_kind(r) == Some(k),
            },
    {
        let expr = self.resolve_current_expr()?;
        match expr {
            DocExpr::Lit(DocLit::Int(digits)) => match parse_int_magnitude(digits.as_str(), true) {
                Some((neg, m)) => {
                    if neg {
                        if m <= (hi as u128) + 1 {
                            let v: i128 = if m == (hi as u128) + 1 { lo } else { -(m as i128) };
                            return Ok(v);
                        }
                    } else if m <= hi as u128 {
                        return Ok(m as i128);
                    }
                    Err(RsonDeError::Syn(owned("number too large to fit in target type")))
                },
                None => Err(RsonDeError::Syn(owned("invalid digit found in string"))),
            },
            DocExpr::Unary(UnaryOp::Neg, inner) => match &**inner {
                DocExpr::Lit(DocLit::Int(digits)) => match parse_int_magnitude(digits.as_str(), true) {
                    Some((neg, m)) => {
                        if neg {
                            if m < (hi as u128) + 1 {
                                return Ok(m as i128);
                            }
                        } else if m <= hi as u128 {
                            return Ok(-(m as i128));
                        }
                        Err(RsonDeError::Syn(owned("number too large to fit in target type")))
                    },
                    None => Err(RsonDeError::Syn(owned("invalid digit found in string"))),
                },
                _ => Err(RsonDeError::Serde(owned("unsupported integer"))),
            },
            _ => Err(RsonDeError::Serde(owned("unsupported integer"))),
        }
    }

    /// Reads an unsigned integer of a type up to `hi`.
    fn deserialize_unsigned(&self, hi: u128) -> (r: RsonDeResult<u128>)
        ensures
            match self.int_outcome(false, 0, hi as int) {
                Ok(v) => r matches Ok(x) && x == v,
                Err(k) => err_kind(r) == Some(k),
            },
    {
        let expr = self.resolve_current_expr()?;
        match expr {
            DocExpr::Lit(DocLit::Int(digits)) => match parse_int_magnitude(digits.as_str(), false) {
                Some((_, m)) => {
                    if m <= hi {
                        Ok(m)
                    } else {
                        Err(RsonDeError::Syn(owned("number too large to fit in target type")))
                    }
                },
                None => Err(RsonDeError::Syn(owned("invalid digit found in string"))),
            },
            _ => Err(RsonDeError::Serde(owned("unsupported integer"))),
        }
    }
}


impl<'a> RsonDeserializer<'a> {
    /// Reads an `i8`: an integer literal, or a negated one.
    pub fn deserialize_i8(&self) -> (r: RsonDeResult<i8>)
        ensures
            match self.int_outcome(true, i8::MIN as int, i8::MAX as int) {
                Ok(v) => r matches Ok(x) && x == v,
                Err(k) => err_kind(r) == Some(k),
            },
    {
        let v = self.deserialize_signed(i8::MIN as i128, i8::MAX as i128)?;
        Ok(v as i8)
    }

    /// Reads an `i16`: an integer literal, or a negated one.
    pub fn deserialize_i16(&self) -> (r: RsonDeResult<i16>)
        ensures
            match self.int_outcome(true, i16::MIN as int, i16::MAX as int) {
                Ok(v) => r matches Ok(x) && x == v,
                Err(k) => err_kind(r) == Some(k),
            },
    {
        let v = self.deserialize_signed(i16::MIN as i128, i16::MAX as i128)?;
        Ok(v as i16)
    }

    /// Reads an `i32`: an integer literal, or a negated one.
    pub fn deserialize_i32(&self) -> (r: RsonDeResult<i32>)
        ensures
            match self.int_outcome(true, i32::MIN as int, i32::MAX as int) {
                Ok(v) => r matches Ok(x) && x == v,
                Err(k) => err_kind(r) == Some(k),
            },
    {
        let v = self.deserialize_signed(i32::MIN as i128, i32::MAX as i128)?;
        Ok(v as i32)
    }

    /// Reads an `i64`: an integer literal, or a negated one.
    pub fn deserialize_i64(&self) -> (r: RsonDeResult<i64>)
        ensures
            match self.int_outcome(true, i64::MIN as int, i64::MAX as int) {
                Ok(v) => r matches Ok(x) && x == v,
                Err(k) => err_kind(r) == Some(k),
            },
    {
        let v = self.deserialize_signed(i64::MIN as i128, i64::MAX as i128)?;
        Ok(v as i64)
    }

    /// Reads an `i128`: an integer literal, or a negated one.
    pub fn deserialize_i128(&self) -> (r: RsonDeResult<i128>)
        ensures
            match self.int_outcome(true, i128::MIN as int, i128::MAX as int) {
                Ok(v) => r matches Ok(x) && x == v,
                Err(k) => err_kind(r) == Some(k),
            },
    {
        let v = self.deserialize_signed(i128::MIN as i128, i128::MAX as i128)?;
        Ok(v as i128)
    }

    /// Reads a `u8`: an integer literal.
    pub fn deserialize_u8(&self) -> (r: RsonDeResult<u8>)
        ensures
            match self.int_outcome(false, 0, u8::MAX as int) {
                Ok(v) => r matches Ok(x) && x == v,
                Err(k) => err_kind(r) == Some(k),
            },
    {
        let v = self.deserialize_unsigned(u8::MAX as u128)?;
        Ok(v as u8)
    }

    /// Reads a `u16`: an integer literal.
    pub fn deserialize_u16(&self) -> (r: RsonDeResult<u16>)
        ensures
            match self.int_outcome(false, 0, u16::MAX as int) {
                Ok(v) => r matches Ok(x) && x == v,
                Err(k) => err_kind(r) == Some(k),
            },
    {
        let v = self.deserialize_unsigned(u16::MAX as u128)?;
        Ok(v as u16)
    }

    /// Reads a `u32`: an integer literal.
    pub fn deserialize_u32(&self) -> (r: RsonDeResult<u32>)
        ensures
            match self.int_outcome(false, 0, u32::MAX as int) {
                Ok(v) => r matches Ok(x) && x == v,
                Err(k) => err_kind(r) == Some(k),
            },
    {
        let v = self.deserialize_unsigned(u32::MAX as u128)?;
        Ok(v as u32)
    }

    /// Reads a `u64`: an integer literal.
    pub fn deserialize_u64(&self) -> (r: RsonDeResult<u64>)
        ensures
            match self.int_outcome(false, 0, u64::MAX as int) {
                Ok(v) => r matches Ok(x) && x == v,
                Err(k) => err_kind(r) == Some(k),
            },
    {
        let v = self.deserialize_unsigned(u64::MAX as u128)?;
        Ok(v as u64)
    }

    /// Reads a `u128`: an integer literal.
    pub fn deserialize_u128(&self) -> (r: RsonDeResult<u128>)
        ensures
            match self.int_outcome(false, 0, u128::MAX as int) {
                Ok(v) => r matches Ok(x) && x == v,
                Err(k) => err_kind(r) == Some(k),
            },
    {
        let v = self.deserialize_unsigned(u128::MAX as u128)?;
        Ok(v as u128)
    }

}

impl<'a> RsonDeserializer<'a> {
    /// Reads a float literal, or a negated one: its sign and its digits, which the
    /// caller turns into a number.
    pub fn deserialize_float(&self) -> (r: RsonDeResult<(bool, &'a String)>)
        ensures
            match self.resolved() {
                Err(k) => err_kind(r) == Some(k),
                Ok(e) => match float_parts(e) {
                    Ok((neg, d)) => r matches Ok((n, s)) && n == neg && s@ == d,
                    Err(k) => err_kind(r) == Some(k),
                },
            },
    {
        let expr = self.resolve_current_expr()?;
        match expr {
            DocExpr::Lit(DocLit::Float(d)) => Ok((false, d)),
            DocExpr::Unary(UnaryOp::Neg, inner) => match &**inner {
                DocExpr::Lit(DocLit::Float(d)) => Ok((true, d)),
                _ => Err(RsonDeError::Serde(owned("unsupported float"))),
            },
            _ => Err(RsonDeError::Serde(owned("unsupported float"))),
        }
    }

    /// Reads a character literal.
    pub fn deserialize_char(&self) -> (r: RsonDeResult<char>)
        ensures
            match self.resolved() {
                Err(k) => err_kind(r) == Some(k),
                Ok(DocExpr::Lit(DocLit::Char(c))) => r matches Ok(v) && v == c,
                Ok(_) => err_kind(r) == Some(DeErrorKind::Serde),
            },
    {
        let expr = self.resolve_current_expr()?;
        match expr {
            DocExpr::Lit(DocLit::Char(c)) => Ok(*c),
            _ => Err(RsonDeError::Serde(owned("unsupported char"))),
        }
    }

    /// Reads a string literal.
    pub fn deserialize_str(&self) -> (r: RsonDeResult<&'a String>)
        ensures
            match self.resolved() {
                Err(k) => err_kind(r) == Some(k),
                Ok(DocExpr::Lit(DocLit::Str(s))) => r matches Ok(v) && v@ == s@,
                Ok(_) => err_kind(r) == Some(DeErrorKind::Serde),
            },
    {
        let expr = self.resolve_current_expr()?;
        match expr {
            DocExpr::Lit(DocLit::Str(s)) => Ok(s),
            _ => Err(RsonDeError::Serde(owned("unsupported str"))),
        }
    }

    /// Reads a string literal into an owned string.
    pub fn deserialize_string(&self) -> (r: RsonDeResult<String>)
        ensures
            match self.resolved() {
                Err(k) => err_kind(r) == Some(k),
                Ok(DocExpr::Lit(DocLit::Str(s))) => r matches Ok(v) && v@ == s@,
                Ok(_) => err_kind(r) == Some(DeErrorKind::Serde),
            },
    {
        let s = self.deserialize_str()?;
        Ok(s.clone())
    }

    /// Reads the elements of an array literal.
    pub fn deserialize_seq(&self) -> (r: RsonDeResult<RsonSeqAccessor<'a>>)
        ensures
            match self.resolved() {
                Err(k) => err_kind(r) == Some(k),
                Ok(DocExpr::Array(elems)) => r matches Ok(acc) && acc.doc() == self.doc() && acc.elems() == elems@
                    && acc.index() == 0,
                Ok(_) => err_kind(r) == Some(DeErrorKind::Serde),
            },
    {
        let expr = self.resolve_current_expr()?;
        match expr {
            DocExpr::Array(elems) => Ok(RsonSeqAccessor::new(self.parser, refs_of(elems))),
            _ => Err(RsonDeError::Serde(owned("unsupported sequence"))),
        }
    }

    /// Reads a byte string literal, or an array of numbers.
    pub fn deserialize_byte_buf(&self) -> (r: RsonDeResult<ByteBuf<'a>>)
        ensures
            match self.resolved() {
                Err(k) => err_kind(r) == Some(k),
                Ok(DocExpr::Lit(DocLit::ByteStr(b))) => r matches Ok(ByteBuf::Bytes(v)) && v@ == b@,
                Ok(DocExpr::Array(elems)) => r matches Ok(ByteBuf::Elements(acc)) && acc.doc() == self.doc()
                    && acc.elems() == elems@ && acc.index() == 0,
                Ok(_) => err_kind(r) == Some(DeErrorKind::Serde),
            },
    {
        let expr = self.resolve_current_expr()?;
        match expr {
            DocExpr::Lit(DocLit::ByteStr(b)) => Ok(ByteBuf::Bytes(b)),
            DocExpr::Array(_) => {
                let acc = self.deserialize_seq()?;
                Ok(ByteBuf::Elements(acc))
            },
            _ => Err(RsonDeError::Serde(owned("unsupported byte buf"))),
        }
    }

    /// Reads an optional value: `None`, or a deserializer for the present value,
    /// written either as `Some(value)` or as the value itself.
    pub fn deserialize_option(&self) -> (r: RsonDeResult<Option<RsonDeserializer<'a>>>)
        ensures
            match self.resolved() {
                Err(k) => err_kind(r) == Some(k),
                Ok(e) => if is_none_path(e) {
                    r matches Ok(None)
                } else {
                    r matches Ok(Some(d)) && d.doc() == self.doc() && d.current() == match call_args(e, "Some"@, 1) {
                        Some(args) => args[0],
                        None => e,
                    }
                },
            },
    {
        let expr = self.resolve_current_expr()?;
        if is_expr_path_none(expr) {
            Ok(None)
        } else {
            let inner = match expected_func_call_args(expr, "Some", 1) {
                Some(args) => args[0],
                None => expr,
            };
            Ok(Some(self.duplicate_for_expr(inner)))
        }
    }

    /// Reads a unit value: `()` or any path.
    pub fn deserialize_unit(&self) -> (r: RsonDeResult<()>)
        ensures
            match self.resolved() {
                Err(k) => err_kind(r) == Some(k),
                Ok(DocExpr::Tuple(elems)) => if elems@.len() == 0 { r is Ok } else { err_kind(r) == Some(DeErrorKind::Serde) },
                Ok(DocExpr::Path(_)) => r is Ok,
                Ok(_) => err_kind(r) == Some(DeErrorKind::Serde),
            },
    {
        let expr = self.resolve_current_expr()?;
        match expr {
            DocExpr::Tuple(elems) => {
                if elems.len() == 0 {
                    Ok(())
                } else {
                    Err(RsonDeError::Serde(owned("unsupported unit")))
                }
            },
            DocExpr::Path(_) => Ok(()),
            _ => Err(RsonDeError::Serde(owned("unsupported unit"))),
        }
    }

    /// Reads a unit struct: the path made of its name.
    pub fn deserialize_unit_struct(&self, name: &str) -> (r: RsonDeResult<()>)
        ensures
            match self.resolved() {
                Err(k) => err_kind(r) == Some(k),
                Ok(DocExpr::Path(p)) => if p.spec_ident() == Some(name@) { r is Ok } else { err_kind(r) == Some(DeErrorKind::Serde) },
                Ok(_) => err_kind(r) == Some(DeErrorKind::Serde),
            },
    {
        let expr = self.resolve_current_expr()?;
        match expr {
            DocExpr::Path(p) => {
                let matches_name = match p.get_ident() {
                    Some(ident) => *ident == owned(name),
                    None => false,
                };
                if matches_name {
                    Ok(())
                } else {
                    Err(RsonDeError::Serde(owned("unsupported unit struct")))
                }
            },
            _ => Err(RsonDeError::Serde(owned("unsupported unit struct"))),
        }
    }

    /// Reads a newtype struct `Name(value)`: a deserializer for the value.
    pub fn deserialize_newtype_struct(&self, name: &str) -> (r: RsonDeResult<RsonDeserializer<'a>>)
        ensures
            match self.resolved() {
                Err(k) => err_kind(r) == Some(k),
                Ok(e) => match call_args(e, name@, 1) {
                    Some(args) => r matches Ok(d) && d.doc() == self.doc() && d.current() == args[0],
                    None => err_kind(r) == Some(DeErrorKind::Serde),
                },
            },
    {
        let expr = self.resolve_current_expr()?;
        match expected_func_call_args(expr, name, 1) {
            Some(args) => Ok(self.duplicate_for_expr(args[0])),
            None => Err(RsonDeError::Serde(owned("unsupported newtype struct"))),
        }
    }

    /// Reads the elements of a tuple literal.
    pub fn deserialize_tuple(&self, len: usize) -> (r: RsonDeResult<RsonSeqAccessor<'a>>)
        ensures
            match self.resolved() {
                Err(k) => err_kind(r) == Some(k),
                Ok(DocExpr::Tuple(elems)) => r matches Ok(acc) && acc.doc() == self.doc() && acc.elems() == elems@
                    && acc.index() == 0,
                Ok(_) => err_kind(r) == Some(DeErrorKind::Serde),
            },
    {
        let expr = self.resolve_current_expr()?;
        match expr {
            DocExpr::Tuple(elems) => Ok(RsonSeqAccessor::new(self.parser, refs_of(elems))),
            _ => Err(RsonDeError::Serde(owned("unsupported tuple"))),
        }
    }

    /// Reads a tuple struct `Name(a, b, ..)` with `len` fields; an empty name accepts any path.
    pub fn deserialize_tuple_struct(&self, name: &str, len: usize) -> (r: RsonDeResult<RsonSeqAccessor<'a>>)
        ensures
            match self.resolved() {
                Err(k) => err_kind(r) == Some(k),
                Ok(e) => match call_args(e, name@, len as nat) {
                    Some(args) => r matches Ok(acc) && acc.doc() == self.doc() && acc.elems() == args && acc.index()
                        == 0,
                    None => err_kind(r) == Some(DeErrorKind::Serde),
                },
            },
    {
        let expr = self.resolve_current_expr()?;
        match expected_func_call_args(expr, name, len) {
            Some(args) => Ok(RsonSeqAccessor::new(self.parser, args)),
            None => Err(RsonDeError::Serde(owned("unsupported tuple struct"))),
        }
    }

    /// Reads a map: a `map!` macro, or a tuple or array of pairs.
    pub fn deserialize_map(&self) -> (r: RsonDeResult<MapSource<'a>>)
        ensures
            match self.resolved() {
                Err(k) => err_kind(r) == Some(k),
                Ok(DocExpr::Macro(p, tokens)) => if p.spec_ident() == Some("map"@) {
                    match block_statements(map_tuples_text(tokens@)) {
                        Some(s) => r matches Ok(MapSource::Macro(q)) && q.returned() == document_return(s) && (
                        forall|name: Seq<char>| #[trigger] q.var_init(name) == document_var(s, name)),
                        None => err_kind(r) == Some(DeErrorKind::Syn),
                    }
                } else {
                    err_kind(r) == Some(DeErrorKind::Serde)
                },
                Ok(DocExpr::Tuple(elems)) => r matches Ok(MapSource::Entries(acc)) && acc.doc() == self.doc()
                    && acc.elems() == elems@ && acc.index() == 0,
                Ok(DocExpr::Array(elems)) => r matches Ok(MapSource::Entries(acc)) && acc.doc() == self.doc()
                    && acc.elems() == elems@ && acc.index() == 0,
                Ok(_) => err_kind(r) == Some(DeErrorKind::Serde),
            },
    {
        let expr = self.resolve_current_expr()?;
        match expr {
            DocExpr::Macro(p, tokens) => {
                let is_map = match p.get_ident() {
                    Some(ident) => *ident == owned("map"),
                    None => false,
                };
                if is_map {
                    let text = make_tuples_from_map_macro(tokens);
                    Ok(MapSource::Macro(RsonParser::from_str(text.as_str())?))
                } else {
                    Err(RsonDeError::Serde(owned("unsupported map")))
                }
            },
            DocExpr::Tuple(elems) => Ok(MapSource::Entries(RsonMapAccessor::new(self.parser, refs_of(elems)))),
            DocExpr::Array(elems) => Ok(MapSource::Entries(RsonMapAccessor::new(self.parser, refs_of(elems)))),
            _ => Err(RsonDeError::Serde(owned("unsupported map"))),
        }
    }
}

/// References to each element of a vector.
fn refs_of<'a>(v: &'a Vec<DocExpr>) -> (r: Vec<&'a DocExpr>)
    ensures
        deref_all(r@) == v@,
{
    let mut r: Vec<&'a DocExpr> = Vec::new();
    let mut i: usize = 0;
    while i < v.len()
        invariant
            i <= v@.len(),
            deref_all(r@) =~= v@.subrange(0, i as int),
        decreases v@.len() - i,
    {
        let ghost before = r@;
        r.push(&v[i]);
        proof {
            assert(deref_all(r@) =~= deref_all(before).push(v@[i as int]));
            assert(v@.subrange(0, i + 1) =~= v@.subrange(0, i as int).push(v@[i as int]));
        }
        i = i + 1;
    }
    proof {
        assert(v@.subrange(0, v@.len() as int) =~= v@);
    }
    r
}


/// Removing the first occurrence of `x`, found at index `i`.
proof fn lemma_remove_first_at(v: Seq<Seq<char>>, x: Seq<char>, i: int)
    requires
        0 <= i < v.len(),
        v[i] == x,
        forall|j: int| 0 <= j < i ==> v[j] != x,
    ensures
        remove_first(v, x) == v.remove(i),
    decreases v.len(),
{
    if i > 0 {
        lemma_remove_first_at(v.drop_first(), x, i - 1);
        assert(seq![v[0]] + v.drop_first().remove(i - 1) =~= v.remove(i));
    } else {
        assert(v.drop_first() =~= v.remove(0));
    }
}

/// Removing an element that does not occur changes nothing.
proof fn lemma_remove_first_absent(v: Seq<Seq<char>>, x: Seq<char>)
    requires
        !v.contains(x),
    ensures
        remove_first(v, x) == v,
    decreases v.len(),
{
    if v.len() > 0 {
        assert(!v.drop_first().contains(x)) by {
            if v.drop_first().contains(x) {
                let j = choose|j: int| 0 <= j < v.drop_first().len() && v.drop_first()[j] == x;
                assert(v[j + 1] == x);
            }
        }
        lemma_remove_first_absent(v.drop_first(), x);
        assert(seq![v[0]] + v.drop_first() =~= v);
    }
}

/// Removes the first string with the text of `x`; tells whether there was one.
fn remove_first_text(v: &mut Vec<String>, x: &String) -> (found: bool)
    ensures
        found == crate::ser::str_views(old(v)@).contains(x@),
        crate::ser::str_views(final(v)@) == remove_first(crate::ser::str_views(old(v)@), x@),
{
    let ghost sv = crate::ser::str_views(v@);
    let mut i: usize = 0;
    while i < v.len()
        invariant
            i <= v@.len(),
            sv == crate::ser::str_views(v@),
            sv == crate::ser::str_views(old(v)@),
            forall|j: int| 0 <= j < i ==> sv[j] != x@,
        decreases v@.len() - i,
    {
        if v[i] == *x {
            proof {
                lemma_remove_first_at(sv, x@, i as int);
            }
            let ghost before = v@;
            v.remove(i);
            proof {
                assert(crate::ser::str_views(v@) =~= sv.remove(i as int));
                assert(sv[i as int] == x@);
            }
            return true;
        }
        i = i + 1;
    }
    proof {
        assert(!sv.contains(x@)) by {
            if sv.contains(x@) {
                let j = choose|j: int| 0 <= j < sv.len() && sv[j] == x@;
            }
        }
        lemma_remove_first_absent(sv, x@);
    }
    false
}

/// An identifier as handed out, with its text as sequences.
pub enum IdentifierView {
    Str(Seq<char>),
    Bytes(Seq<u8>),
    U64(u64),
}

/// The view of an [`Identifier`].
pub open spec fn identifier_view(i: Identifier) -> IdentifierView {
    match i {
        Identifier::Str(s) => IdentifierView::Str(s@),
        Identifier::Bytes(b) => IdentifierView::Bytes(b@),
        Identifier::U64(v) => IdentifierView::U64(v),
    }
}

/// The last identifier of a path.
pub open spec fn path_last(p: DocPath) -> Option<Seq<char>> {
    if p.segments@.len() > 0 {
        Some(p.segments@.last().ident@)
    } else {
        None
    }
}

/// The identifier an expression names: the last segment of a path, of a called
/// path or of a struct literal's path; a string, byte string or integer literal.
pub open spec fn identifier_outcome(e: DocExpr) -> Result<IdentifierView, DeErrorKind> {
    match e {
        DocExpr::Path(p) => match path_last(p) {
            Some(s) => Ok(IdentifierView::Str(s)),
            None => Err(DeErrorKind::Serde),
        },
        DocExpr::Call(f, _) => match *f {
            DocExpr::Path(p) => match path_last(p) {
                Some(s) => Ok(IdentifierView::Str(s)),
                None => Err(DeErrorKind::Serde),
            },
            _ => Err(DeErrorKind::Serde),
        },
        DocExpr::Struct(p, _, _) => match path_last(p) {
            Some(s) => Ok(IdentifierView::Str(s)),
            None => Err(DeErrorKind::Serde),
        },
        DocExpr::Lit(DocLit::Str(s)) => Ok(IdentifierView::Str(s@)),
        DocExpr::Lit(DocLit::ByteStr(b)) => Ok(IdentifierView::Bytes(b@)),
        DocExpr::Lit(DocLit::Int(d)) => match parse_int_in(d@, false, 0, u64::MAX as int) {
            Some(v) => Ok(IdentifierView::U64(v as u64)),
            None => Err(DeErrorKind::Syn),
        },
        _ => Err(DeErrorKind::Serde),
    }
}

/// The path an enum value is written with: `None` when the expression cannot be an
/// enum value, `Some(None)` for a literal.
pub open spec fn enum_path(e: DocExpr) -> Option<Option<DocPath>> {
    match e {
        DocExpr::Path(p) => Some(Some(p)),
        DocExpr::Call(f, _) => Some(
            match *f {
                DocExpr::Path(p) => Some(p),
                _ => None,
            },
        ),
        DocExpr::Struct(p, _, _) => Some(Some(p)),
        DocExpr::Lit(_) => Some(None),
        _ => None,
    }
}

/// Whether an expression can be a value of the enum `name`: a path, call or
/// struct literal whose path, when it has two segments or more, names `name`
/// before the variant; or a literal.
pub open spec fn enum_accepts(e: DocExpr, name: Seq<char>) -> bool {
    match enum_path(e) {
        None => false,
        Some(Some(p)) => !(p.segments@.len() > 1 && p.segments@[p.segments@.len() - 2].ident@ != name),
        Some(None) => true,
    }
}

/// The struct fields found for the requested names: all named fields of the
/// literal, then those still requested found through its struct update.
pub open spec fn struct_outcome(parser: RsonParser, e: DocExpr, name: Seq<char>, requested: Seq<Seq<char>>) -> Result<
    Seq<(Seq<char>, DocExpr)>,
    DeErrorKind,
> {
    match e {
        DocExpr::Struct(p, lit, rest) => if name.len() != 0 && p.spec_ident() != Some(name) {
            Err(DeErrorKind::Serde)
        } else {
            let (found, left) = collect_fields(lit@, requested, lit@.len());
            match rest {
                Some(re) => if left.len() != 0 {
                    match rest_fields(parser, left, *re, RESOLVE_FUEL as nat) {
                        Ok(more) => Ok(found + more),
                        Err(k) => Err(k),
                    }
                } else {
                    Ok(found)
                },
                None => Ok(found),
            }
        },
        _ => Err(DeErrorKind::Serde),
    }
}

impl<'a> RsonDeserializer<'a> {
    /// Reads the identifier the expression names, as written (variables are not followed).
    pub fn deserialize_identifier(&self) -> (r: RsonDeResult<Identifier<'a>>)
        ensures
            match identifier_outcome(self.current()) {
                Ok(v) => r matches Ok(i) && identifier_view(i) == v,
                Err(k) => err_kind(r) == Some(k),
            },
    {
        let expr = self.current_expr;
        match expr {
            DocExpr::Path(p) => last_ident(p),
            DocExpr::Call(f, _) => match &**f {
                DocExpr::Path(p) => last_ident(p),
                _ => Err(RsonDeError::Serde(owned("unsupported identifier"))),
            },
            DocExpr::Struct(p, _, _) => last_ident(p),
            DocExpr::Lit(DocLit::Str(s)) => Ok(Identifier::Str(s)),
            DocExpr::Lit(DocLit::ByteStr(b)) => Ok(Identifier::Bytes(b)),
            DocExpr::Lit(DocLit::Int(d)) => match parse_int_magnitude(d.as_str(), false) {
                Some((_, m)) => {
                    if m <= u64::MAX as u128 {
                        Ok(Identifier::U64(m as u64))
                    } else {
                        Err(RsonDeError::Syn(owned("number too large to fit in target type")))
                    }
                },
                None => Err(RsonDeError::Syn(owned("invalid digit found in string"))),
            },
            _ => Err(RsonDeError::Serde(owned("unsupported identifier"))),
        }
    }

    /// Reads an enum value of the enum `name`: an accessor for its variant and content.
    pub fn deserialize_enum(&self, name: &str) -> (r: RsonDeResult<RsonEnumAccessor<'a>>)
        ensures
            match self.resolved() {
                Err(k) => err_kind(r) == Some(k),
                Ok(e) => if enum_accepts(e, name@) {
                    r matches Ok(acc) && acc.deserializer().doc() == self.doc() && acc.deserializer().current() == e
                } else {
                    err_kind(r) == Some(DeErrorKind::Serde)
                },
            },
    {
        let expr = self.resolve_current_expr()?;
        let path: Option<&DocPath> = match expr {
            DocExpr::Path(p) => Some(p),
            DocExpr::Call(f, _) => match &**f {
                DocExpr::Path(p) => Some(p),
                _ => None,
            },
            DocExpr::Struct(p, _, _) => Some(p),
            DocExpr::Lit(_) => None,
            _ => return Err(RsonDeError::Serde(owned("unsupported enum"))),
        };
        if let Some(p) = path {
            let n = p.segments.len();
            if n > 1 {
                if p.segments[n - 2].ident != owned(name) {
                    return Err(RsonDeError::Serde(owned("wrong enum type name")));
                }
            }
        }
        Ok(RsonEnumAccessor::new(self.duplicate_for_expr(expr)))
    }

    /// The requested fields found by following the struct update `..rest`.
    pub fn resolve_struct_rest_fields(&self, fields: Vec<String>, rest: &'a DocExpr) -> (r: RsonDeResult<
        Vec<(&'a String, &'a DocExpr)>,
    >)
        ensures
            match rest_fields(self.doc(), crate::ser::str_views(fields@), *rest, RESOLVE_FUEL as nat) {
                Ok(v) => r matches Ok(x) && field_views(x@) == v,
                Err(k) => err_kind(r) == Some(k),
            },
    {
        self.rest_fields_inner(fields, rest, RESOLVE_FUEL)
    }

    fn rest_fields_inner(&self, fields: Vec<String>, rest: &'a DocExpr, fuel: u64) -> (r: RsonDeResult<
        Vec<(&'a String, &'a DocExpr)>,
    >)
        ensures
            match rest_fields(self.doc(), crate::ser::str_views(fields@), *rest, fuel as nat) {
                Ok(v) => r matches Ok(x) && field_views(x@) == v,
                Err(k) => err_kind(r) == Some(k),
            },
        decreases fuel,
    {
        let mut found: Vec<(&'a String, &'a DocExpr)> = Vec::new();
        if fields.len() == 0 {
            proof {
                assert(field_views(found@) =~= Seq::<(Seq<char>, DocExpr)>::empty());
            }
            return Ok(found);
        }
        if fuel == 0 {
            return Err(RsonDeError::Parse(owned("struct update does not end")));
        }
        let expr = self.resolve_expr(rest)?;
        match expr {
            DocExpr::Struct(_, lit, rest2) => {
                let mut left = fields;
                let ghost requested = crate::ser::str_views(left@);
                let mut i: usize = 0;
                while i < lit.len()
                    invariant
                        i <= lit@.len(),
                        (field_views(found@), crate::ser::str_views(left@)) == collect_rest(lit@, requested, i as nat),
                    decreases lit@.len() - i,
                {
                    let fv = &lit[i];
                    match &fv.member {
                        DocMember::Named(id) => {
                            let ghost before = found@;
                            let ghost left_before = crate::ser::str_views(left@);
                            if remove_first_text(&mut left, id) {
                                found.push((id, &fv.expr));
                                proof {
                                    assert(field_views(found@) =~= field_views(before).push((id@, fv.expr)));
                                }
                            } else {
                                proof {
                                    lemma_remove_first_absent(left_before, id@);
                                }
                            }
                        },
                        DocMember::Unnamed(_) => {},
                    }
                    i = i + 1;
                }
                match rest2 {
                    Some(r2) => {
                        let more = self.rest_fields_inner(left, r2, fuel - 1)?;
                        let ghost f1 = field_views(found@);
                        let mut j: usize = 0;
                        while j < more.len()
                            invariant
                                j <= more@.len(),
                                field_views(found@) =~= f1 + field_views(more@).subrange(0, j as int),
                            decreases more@.len() - j,
                        {
                            let ghost before = found@;
                            found.push(more[j]);
                            proof {
                                assert(field_views(found@) =~= field_views(before).push(field_views(more@)[j as int]));
                                assert(field_views(more@).subrange(0, j + 1) =~= field_views(more@).subrange(0, j as int).push(
                                    field_views(more@)[j as int],
                                ));
                            }
                            j = j + 1;
                        }
                        proof {
                            assert(field_views(more@).subrange(0, more@.len() as int) =~= field_views(more@));
                        }
                        Ok(found)
                    },
                    None => Ok(found),
                }
            },
            _ => Err(RsonDeError::Parse(owned("unsupported struct update"))),
        }
    }

    /// Reads a struct literal with the struct's name (any name when `name` is empty):
    /// an accessor for its fields, including those still requested that its struct
    /// update `..rest` provides.
    pub fn deserialize_struct(&self, name: &str, fields: &Vec<String>) -> (r: RsonDeResult<RsonFieldMapAccessor<'a>>)
        ensures
            match self.resolved() {
                Err(k) => err_kind(r) == Some(k),
                Ok(e) => match struct_outcome(self.doc(), e, name@, crate::ser::str_views(fields@)) {
                    Ok(v) => r matches Ok(acc) && acc.doc() == self.doc() && acc.elems() == v && acc.index() == 0,
                    Err(k) => err_kind(r) == Some(k),
                },
            },
    {
        let expr = self.resolve_current_expr()?;
        match expr {
            DocExpr::Struct(p, lit, rest) => {
                if !name.is_empty() {
                    let matches_name = match p.get_ident() {
                        Some(ident) => *ident == owned(name),
                        None => false,
                    };
                    if !matches_name {
                        return Err(RsonDeError::Serde(owned("wrong struct type name")));
                    }
                }
                let mut left = crate::ser::clone_strings(fields);
                let ghost requested = crate::ser::str_views(fields@);
                let mut found: Vec<(&'a String, &'a DocExpr)> = Vec::new();
                let mut i: usize = 0;
                proof {
                    assert(field_views(found@) =~= Seq::<(Seq<char>, DocExpr)>::empty());
                }
                while i < lit.len()
                    invariant
                        i <= lit@.len(),
                        (field_views(found@), crate::ser::str_views(left@)) == collect_fields(lit@, requested, i as nat),
                    decreases lit@.len() - i,
                {
                    let fv = &lit[i];
                    match &fv.member {
                        DocMember::Named(id) => {
                            let ghost before = found@;
                            let _ = remove_first_text(&mut left, id);
                            found.push((id, &fv.expr));
                            proof {
                                assert(field_views(found@) =~= field_views(before).push((id@, fv.expr)));
                            }
                        },
                        DocMember::Unnamed(_) => {},
                    }
                    i = i + 1;
                }
                if left.len() != 0 {
                    if let Some(rest_expr) = rest {
                        let more = self.resolve_struct_rest_fields(left, rest_expr)?;
                        let ghost f1 = field_views(found@);
                        let mut j: usize = 0;
                        while j < more.len()
                            invariant
                                j <= more@.len(),
                                field_views(found@) =~= f1 + field_views(more@).subrange(0, j as int),
                            decreases more@.len() - j,
                        {
                            let ghost before = found@;
                            found.push(more[j]);
                            proof {
                                assert(field_views(found@) =~= field_views(before).push(field_views(more@)[j as int]));
                                assert(field_views(more@).subrange(0, j + 1) =~= field_views(more@).subrange(0, j as int).push(
                                    field_views(more@)[j as int],
                                ));
                            }
                            j = j + 1;
                        }
                        proof {
                            assert(field_views(more@).subrange(0, more@.len() as int) =~= field_views(more@));
                        }
                    }
                }
                Ok(RsonFieldMapAccessor::new(self.parser, found))
            },
            _ => Err(RsonDeError::Serde(owned("unsupported struct"))),
        }
    }
}

/// The last identifier of a path, as an identifier.
fn last_ident<'a>(p: &'a DocPath) -> (r: RsonDeResult<Identifier<'a>>)
    ensures
        match path_last(*p) {
            Some(s) => r matches Ok(i) && identifier_view(i) == IdentifierView::Str(s),
            None => err_kind(r) == Some(DeErrorKind::Serde),
        },
{
    let n = p.segments.len();
    if n > 0 {
        Ok(Identifier::Str(&p.segments[n - 1].ident))
    } else {
        Err(RsonDeError::Serde(owned("unsupported identifier")))
    }
}


impl RsonParser {
    /// A deserializer for the expression the document returns.
    pub fn new_deserializer(&self) -> (r: RsonDeResult<RsonDeserializer<'_>>)
        ensures
            (self.returned() is None && forall|name: Seq<char>| #[trigger] self.var_init(name) is None) ==> err_kind(r)
                == Some(DeErrorKind::NoStatements),
            !(self.returned() is None && forall|name: Seq<char>| #[trigger] self.var_init(name) is None) ==> match self.returned() {
                Some(e) => r matches Ok(d) && d.doc() == *self && d.current() == e,
                None => err_kind(r) == Some(DeErrorKind::ReturnExprNotFound),
            },
    {
        RsonDeserializer::new(self)
    }
}

/// Holds a read document and hands out deserializers for it.
pub struct RsonDeBuilder {
    parser: RsonParser,
}

impl RsonDeBuilder {
    /// The document.
    pub closed spec fn doc(&self) -> RsonParser {
        self.parser
    }

    /// A builder for a read document.
    pub fn new(parser: RsonParser) -> (b: Self)
        ensures
            b.doc() == parser,
    {
        RsonDeBuilder { parser }
    }

    /// The builder with another document.
    pub fn with_parser(self, parser: RsonParser) -> (b: Self)
        ensures
            b.doc() == parser,
    {
        let mut b = self;
        b.parser = parser;
        b
    }

    /// The builder with the document read from `input`.
    pub fn from_str(self, input: &str) -> (r: RsonDeResult<Self>)
        ensures
            match block_statements(input@) {
                Some(s) => r matches Ok(b) && b.doc().returned() == document_return(s) && (forall|name: Seq<char>|
                    #[trigger] b.doc().var_init(name) == document_var(s, name)),
                None => err_kind(r) == Some(DeErrorKind::Syn),
            },
    {
        let parser = RsonParser::from_str(input)?;
        Ok(self.with_parser(parser))
    }

    /// A deserializer for the expression the document returns.
    pub fn deserializer(&self) -> (r: RsonDeResult<RsonDeserializer<'_>>)
        ensures
            (self.doc().returned() is None && forall|name: Seq<char>| #[trigger] self.doc().var_init(name) is None)
                ==> err_kind(r) == Some(DeErrorKind::NoStatements),
            !(self.doc().returned() is None && forall|name: Seq<char>| #[trigger] self.doc().var_init(name) is None)
                ==> match self.doc().returned() {
                Some(e) => r matches Ok(d) && d.doc() == self.doc() && d.current() == e,
                None => err_kind(r) == Some(DeErrorKind::ReturnExprNotFound),
            },
    {
        RsonDeserializer::new(&self.parser)
    }

    /// A deserializer for the initializer of the variable `var_name`.
    pub fn var_deserializer(&self, var_name: &str) -> (r: RsonDeResult<RsonDeserializer<'_>>)
        ensures
            match self.doc().var_init(var_name@) {
                Some(e) => r matches Ok(d) && d.doc() == self.doc() && d.current() == e,
                None => r matches Err(RsonDeError::VarNotFound(n)) && n@ == var_name@,
            },
    {
        match self.parser.get_var_expr(var_name) {
            Some(expr) => Ok(RsonDeserializer::new_with_expr(&self.parser, expr)),
            None => Err(RsonDeError::VarNotFound(owned(var_name))),
        }
    }
}

impl Default for RsonDeBuilder {
    /// A builder for the empty document.
    fn default() -> (b: Self)
        ensures
            b.doc().returned() is None,
            forall|name: Seq<char>| #[trigger] b.doc().var_init(name) is None,
    {
        RsonDeBuilder { parser: RsonParser::empty() }
    }
}

/// A builder for the empty document.
pub fn builder() -> (b: RsonDeBuilder)
    ensures
        b.doc().returned() is None,
        forall|name: Seq<char>| #[trigger] b.doc().var_init(name) is None,
{
    RsonDeBuilder::default()
}


/// Whether an expression is followed further when resolved: a variable or a field access.
pub open spec fn is_reference(e: DocExpr) -> bool {
    e is Path || e is Field
}

/// An expression that is neither a variable nor a field access stands for itself.
pub proof fn lemma_resolve_value(parser: RsonParser, e: DocExpr)
    requires
        !is_reference(e),
    ensures
        resolve(parser, e) == Ok::<DocExpr, DeErrorKind>(e),
{
}

/// A path that names no variable of the document stands for itself.
pub proof fn lemma_resolve_unbound(parser: RsonParser, p: DocPath)
    requires
        match p.spec_ident() {
            Some(name) => parser.var_init(name) is None,
            None => true,
        },
    ensures
        resolve(parser, DocExpr::Path(p)) == Ok::<DocExpr, DeErrorKind>(DocExpr::Path(p)),
{
}

/// A variable bound to a value (neither a variable nor a field access) stands for that value.
pub proof fn lemma_resolve_bound(parser: RsonParser, p: DocPath, name: Seq<char>, init: DocExpr)
    requires
        p.spec_ident() == Some(name),
        parser.var_init(name) == Some(init),
        !is_reference(init),
    ensures
        resolve(parser, DocExpr::Path(p)) == Ok::<DocExpr, DeErrorKind>(init),
{
}

/// A variable bound to another variable, itself bound to a value, stands for that value.
pub proof fn lemma_resolve_alias(parser: RsonParser, p: DocPath, name: Seq<char>, q: DocPath, other: Seq<char>, init: DocExpr)
    requires
        p.spec_ident() == Some(name),
        parser.var_init(name) == Some(DocExpr::Path(q)),
        q.spec_ident() == Some(other),
        other != name,
        parser.var_init(other) == Some(init),
        !is_reference(init),
    ensures
        resolve(parser, DocExpr::Path(p)) == Ok::<DocExpr, DeErrorKind>(init),
{
    let e = Seq::<Seq<char>>::empty();
    let w = e.push(name);
    assert(!w.contains(other)) by {
        if w.contains(other) {
            assert(w[0] == other);
        }
    }
    let fuel = (RESOLVE_FUEL - 1) as nat;
    assert(parser.resolve_var(DocExpr::Path(p), q, w, false, fuel).0 == Ok::<DocExpr, DeErrorKind>(init));
    assert(parser.resolve_var(DocExpr::Path(p), p, e, false, RESOLVE_FUEL as nat) == parser.resolve_var(
        DocExpr::Path(p),
        q,
        w,
        false,
        fuel,
    ));
}

/// A variable bound to itself is refused as recursive.
pub proof fn lemma_resolve_self_reference(parser: RsonParser, p: DocPath, name: Seq<char>, q: DocPath)
    requires
        p.spec_ident() == Some(name),
        q.spec_ident() == Some(name),
        parser.var_init(name) == Some(DocExpr::Path(q)),
    ensures
        resolve(parser, DocExpr::Path(p)) == Err::<DocExpr, DeErrorKind>(DeErrorKind::Parse),
{
    let e = Seq::<Seq<char>>::empty();
    let w = e.push(name);
    assert(w.contains(name)) by {
        assert(w[0] == name);
    }
    let fuel = (RESOLVE_FUEL - 1) as nat;
    assert(parser.resolve_var(DocExpr::Path(p), q, w, false, fuel).0 == Err::<DocExpr, DeErrorKind>(DeErrorKind::Parse));
    assert(parser.resolve_var(DocExpr::Path(p), p, e, false, RESOLVE_FUEL as nat) == parser.resolve_var(
        DocExpr::Path(p),
        q,
        w,
        false,
        fuel,
    ));
}

/// Two variables bound to each other are refused as recursive.
pub proof fn lemma_resolve_cycle(parser: RsonParser, p: DocPath, name: Seq<char>, q: DocPath, other: Seq<char>, r: DocPath)
    requires
        p.spec_ident() == Some(name),
        q.spec_ident() == Some(other),
        r.spec_ident() == Some(name),
        other != name,
        parser.var_init(name) == Some(DocExpr::Path(q)),
        parser.var_init(other) == Some(DocExpr::Path(r)),
    ensures
        resolve(parser, DocExpr::Path(p)) == Err::<DocExpr, DeErrorKind>(DeErrorKind::Parse),
{
    let w1 = Seq::<Seq<char>>::empty().push(name);
    assert(!w1.contains(other)) by {
        if w1.contains(other) {
            assert(w1[0] == other);
        }
    }
    let w2 = w1.push(other);
    assert(w2.contains(name)) by {
        assert(w2[0] == name);
    }
    let e = Seq::<Seq<char>>::empty();
    let f1 = (RESOLVE_FUEL - 1) as nat;
    let f2 = (RESOLVE_FUEL - 2) as nat;
    assert(parser.resolve_var(DocExpr::Path(p), r, w2, false, f2).0 == Err::<DocExpr, DeErrorKind>(DeErrorKind::Parse));
    assert(parser.resolve_var(DocExpr::Path(p), q, w1, false, f1) == parser.resolve_var(DocExpr::Path(p), r, w2, false, f2));
    assert(parser.resolve_var(DocExpr::Path(p), p, e, false, RESOLVE_FUEL as nat) == parser.resolve_var(
        DocExpr::Path(p),
        q,
        w1,
        false,
        f1,
    ));
}

/// A field of a variable bound to a struct or tuple literal is that literal's field.
pub proof fn lemma_resolve_field_of_bound(parser: RsonParser, p: DocPath, name: Seq<char>, init: DocExpr, member: DocMember)
    requires
        p.spec_ident() == Some(name),
        parser.var_init(name) == Some(init),
        !is_reference(init),
    ensures
        resolve(parser, DocExpr::Field(Box::new(DocExpr::Path(p)), member)) == select_member(init, member),
{
    let e = Seq::<Seq<char>>::empty();
    let f1 = (RESOLVE_FUEL - 1) as nat;
    let first = parser.resolve_var(DocExpr::Path(p), p, e, false, f1);
    assert(first.0 == Ok::<DocExpr, DeErrorKind>(init));
    assert(parser.resolve_member(init, member, first.1, f1).0 == select_member(init, member));
}

/// The decimal text of a signed integer, as a document writes it (a literal, negated
/// when below zero), reads back as that integer; the lowest value of the type
/// is the one exception, since its magnitude does not fit the type.
pub proof fn lemma_signed_read_back(v: int, lo: int, hi: int, digits: String)
    requires
        lo < v <= hi,
        lo < 0 <= hi,
        hi == -lo - 1,
        digits@ == int_text(if v < 0 { -v } else { v }),
    ensures
        signed_value(
            if v < 0 { DocExpr::Unary(UnaryOp::Neg, Box::new(DocExpr::Lit(DocLit::Int(digits)))) } else { DocExpr::Lit(DocLit::Int(digits)) },
            lo,
            hi,
        ) == Ok::<int, DeErrorKind>(v),
{
    let m = if v < 0 { -v } else { v };
    lemma_parse_int_text(m, true);
}

/// The decimal text of an unsigned integer reads back as that integer.
pub proof fn lemma_unsigned_read_back(v: int, hi: int, digits: String)
    requires
        0 <= v <= hi,
        digits@ == int_text(v),
    ensures
        unsigned_value(DocExpr::Lit(DocLit::Int(digits)), hi) == Ok::<int, DeErrorKind>(v),
{
    lemma_parse_int_text(v, false);
}

/// A signed integer the compact serializer writes reads back as itself, once the
/// document holds its digits as a literal (negated when the text starts with
/// `-`); the lowest `i64` is the one exception, as its magnitude is no `i64`.
pub proof fn lemma_int_round_trip(i: i64, digits: String)
    requires
        i > i64::MIN,
        digits@ == int_text(if i < 0 { -i } else { i as int }),
    ensures
        crate::ser::compact_text(Value::Int(i)) == (if i < 0 { "-"@ + digits@ } else { digits@ }),
        signed_value(
            if i < 0 { DocExpr::Unary(UnaryOp::Neg, Box::new(DocExpr::Lit(DocLit::Int(digits)))) } else { DocExpr::Lit(DocLit::Int(digits)) },
            i64::MIN as int,
            i64::MAX as int,
        ) == Ok::<int, DeErrorKind>(i as int),
{
    reveal_strlit("-");
    assert(Seq::<char>::empty() + int_text(i as int) =~= int_text(i as int));
    lemma_signed_read_back(i as int, i64::MIN as int, i64::MAX as int, digits);
}

/// An unsigned integer the compact serializer writes reads back as itself.
pub proof fn lemma_uint_round_trip(u: u64, digits: String)
    requires
        digits@ == int_text(u as int),
    ensures
        crate::ser::compact_text(Value::Uint(u)) == digits@,
        unsigned_value(DocExpr::Lit(DocLit::Int(digits)), u64::MAX as int) == Ok::<int, DeErrorKind>(u as int),
{
    assert(Seq::<char>::empty() + int_text(u as int) =~= int_text(u as int));
    lemma_unsigned_read_back(u as int, u64::MAX as int, digits);
}

/// A member of a name that no variable binds is refused at once, since following
/// the name never comes to a value.
pub proof fn lemma_resolve_field_of_unbound(parser: RsonParser, p: DocPath, name: Seq<char>, member: DocMember)
    requires
        p.spec_ident() == Some(name),
        name != "None"@,
        parser.var_init(name) is None,
    ensures
        resolve(parser, DocExpr::Field(Box::new(DocExpr::Path(p)), member)) == Err::<DocExpr, DeErrorKind>(
            DeErrorKind::Parse,
        ),
{
    let e = Seq::<Seq<char>>::empty();
    let f1 = (RESOLVE_FUEL - 1) as nat;
    let first = parser.resolve_var(DocExpr::Path(p), p, e, false, f1);
    assert(first.0 == Ok::<DocExpr, DeErrorKind>(DocExpr::Path(p)));
    assert(parser.chain_unbound(p, parser.var_count()));
    assert(parser.resolve_member(DocExpr::Path(p), member, first.1, f1).0 == Err::<DocExpr, DeErrorKind>(
        DeErrorKind::Parse,
    ));
}

/// An element, map key or value, or field value of a compound expression stands
/// for what the expression itself resolves to (a variable or a field access is
/// followed, anything else stands for itself), the one exception being an
/// expression the document model cannot hold, which cannot be read.
pub proof fn lemma_element_resolves(parser: RsonParser, e: DocExpr)
    ensures
        !(e is Other) ==> check_resolve(parser, e) == match resolve(parser, e) {
            Ok(x) => Ok::<Option<DocExpr>, DeErrorKind>(Some(x)),
            Err(k) => Err(k),
        },
        e is Other ==> check_resolve(parser, e) == Ok::<Option<DocExpr>, DeErrorKind>(None),
        !is_reference(e) && !(e is Other) ==> check_resolve(parser, e) == Ok::<Option<DocExpr>, DeErrorKind>(
            Some(e),
        ),
{
}

/// The forms a variant is written in, a bare path (unit variant), a call of the
/// path (newtype and tuple variants) and a struct literal named by the path
/// (struct variants), are accepted by the same enums: a path of one segment by
/// any enum, a longer path by the enum its next-to-last segment names.
pub proof fn lemma_enum_forms_accepted(
    p: DocPath,
    args: Vec<DocExpr>,
    fields: Vec<DocFieldValue>,
    rest: Option<Box<DocExpr>>,
    name: Seq<char>,
)
    ensures
        enum_accepts(DocExpr::Call(Box::new(DocExpr::Path(p)), args), name) == enum_accepts(DocExpr::Path(p), name),
        enum_accepts(DocExpr::Struct(p, fields, rest), name) == enum_accepts(DocExpr::Path(p), name),
        p.segments@.len() <= 1 ==> enum_accepts(DocExpr::Path(p), name),
        p.segments@.len() >= 2 ==> (enum_accepts(DocExpr::Path(p), name) <==> p.segments@[p.segments@.len()
            - 2].ident@ == name),
{
}

/// The variant a value names is the last segment of its path, whether the value
/// is written as a path, a call of the path or a struct literal named by it.
pub proof fn lemma_variant_identifier(
    p: DocPath,
    args: Vec<DocExpr>,
    fields: Vec<DocFieldValue>,
    rest: Option<Box<DocExpr>>,
)
    requires
        p.segments@.len() > 0,
    ensures
        identifier_outcome(DocExpr::Path(p)) == Ok::<IdentifierView, DeErrorKind>(
            IdentifierView::Str(p.segments@.last().ident@),
        ),
        identifier_outcome(DocExpr::Call(Box::new(DocExpr::Path(p)), args)) == identifier_outcome(DocExpr::Path(p)),
        identifier_outcome(DocExpr::Struct(p, fields, rest)) == identifier_outcome(DocExpr::Path(p)),
{
}
} // verus!
