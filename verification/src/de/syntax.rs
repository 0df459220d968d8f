//! Reading a document's text into statements, with `syn`.

use proc_macro2::{Spacing, TokenStream, TokenTree};
use syn::parse::Parser;
use vstd::prelude::*;

use super::expr::{DocExpr, DocFieldValue, DocLit, DocMember, DocPath, DocPathSegment, DocStmt, Token, UnaryOp};

verus! {

#[verifier::external_type_specification]
#[verifier::external_body]
pub struct ExSynStmt(syn::Stmt);

#[verifier::external_type_specification]
#[verifier::external_body]
pub struct ExSynExpr(syn::Expr);

#[verifier::external_type_specification]
#[verifier::external_body]
pub struct ExSynExprStruct(syn::ExprStruct);

#[verifier::external_type_specification]
#[verifier::external_body]
pub struct ExSynExprUnary(syn::ExprUnary);

#[verifier::external_type_specification]
#[verifier::external_body]
pub struct ExSynPath(syn::Path);

#[verifier::external_type_specification]
#[verifier::external_body]
pub struct ExSynLit(syn::Lit);

#[verifier::external_type_specification]
#[verifier::external_body]
pub struct ExSynMember(syn::Member);

#[verifier::external_type_specification]
#[verifier::external_body]
pub struct ExTokenStream(TokenStream);

/// The statements `syn::Block::parse_within` reads from a text, as the library
/// holds them; `None` when the text is no sequence of Rust statements.
pub uninterp spec fn block_statements(text: Seq<char>) -> Option<Seq<DocStmt>>;

/// Parses a text as the statements of a block, with `syn::Block::parse_within`.
///
/// The contract names the result: the same text always gives the same statements,
/// or always fails. On failure it hands back syn's message, of which nothing is stated.
#[verifier::external_body]
pub(crate) fn parse_statements(text: &str) -> (r: Result<Vec<DocStmt>, String>)
    ensures
        match r {
            Ok(v) => block_statements(text@) == Some(v@),
            Err(_) => block_statements(text@) is None,
        },
{
    match syn::Block::parse_within.parse_str(text) {
        Ok(stmts) => Ok(stmts.iter().map(convert_stmt).collect()),
        Err(e) => Err(e.to_string()),
    }
}

/// Converts one of syn's statements.
#[verifier::external_body]
fn convert_stmt(s: &syn::Stmt) -> DocStmt {
    match s {
        syn::Stmt::Local(local) => DocStmt::Local(
            match &local.pat {
                syn::Pat::Ident(p) => Some(p.ident.to_string()),
                _ => None,
            },
            local.init.as_ref().map(|init| convert_expr(&init.expr)),
        ),
        syn::Stmt::Expr(e, semi) => DocStmt::Expr(convert_expr(e), semi.is_some()),
        _ => DocStmt::Other,
    }
}

/// Converts one of syn's expressions: calls, fields, literals, paths and arrays.
#[verifier::external_body]
fn convert_expr(e: &syn::Expr) -> DocExpr {
    match e {
        syn::Expr::Array(a) => DocExpr::Array(a.elems.iter().map(convert_expr).collect()),
        syn::Expr::Call(c) => DocExpr::Call(Box::new(convert_expr(&c.func)), c.args.iter().map(convert_expr).collect()),
        syn::Expr::Field(f) => DocExpr::Field(Box::new(convert_expr(&f.base)), convert_member(&f.member)),
        syn::Expr::Lit(l) => DocExpr::Lit(convert_lit(&l.lit)),
        syn::Expr::Path(p) => DocExpr::Path(convert_path(&p.path)),
        _ => convert_other_expr(e),
    }
}

/// Converts the rest of syn's expressions.
#[verifier::external_body]
fn convert_other_expr(e: &syn::Expr) -> DocExpr {
    match e {
        syn::Expr::Macro(m) => DocExpr::Macro(convert_path(&m.mac.path), convert_tokens(&m.mac.tokens)),
        syn::Expr::Tuple(t) => DocExpr::Tuple(t.elems.iter().map(convert_expr).collect()),
        syn::Expr::Range(_) => DocExpr::Range,
        syn::Expr::Repeat(_) => DocExpr::Repeat,
        syn::Expr::Struct(s) => convert_struct(s),
        syn::Expr::Unary(u) => convert_unary(u),
        _ => DocExpr::Other,
    }
}

/// Converts one of syn's struct literals.
#[verifier::external_body]
fn convert_struct(s: &syn::ExprStruct) -> DocExpr {
    let fields = s.fields.iter().map(|f| DocFieldValue { member: convert_member(&f.member), expr: convert_expr(&f.expr) });
    DocExpr::Struct(convert_path(&s.path), fields.collect(), s.rest.as_ref().map(|r| Box::new(convert_expr(r))))
}

/// Converts one of syn's unary expressions.
#[verifier::external_body]
fn convert_unary(u: &syn::ExprUnary) -> DocExpr {
    let op = match u.op {
        syn::UnOp::Neg(_) => UnaryOp::Neg,
        _ => UnaryOp::Other,
    };
    DocExpr::Unary(op, Box::new(convert_expr(&u.expr)))
}

/// Converts one of syn's paths.
#[verifier::external_body]
fn convert_path(p: &syn::Path) -> DocPath {
    DocPath {
        leading_colon: p.leading_colon.is_some(),
        segments: p.segments.iter().map(|s| DocPathSegment {
            ident: s.ident.to_string(),
            has_arguments: !s.arguments.is_none(),
        }).collect(),
    }
}

/// Converts one of syn's members.
#[verifier::external_body]
fn convert_member(m: &syn::Member) -> DocMember {
    match m {
        syn::Member::Named(ident) => DocMember::Named(ident.to_string()),
        syn::Member::Unnamed(index) => DocMember::Unnamed(index.index),
    }
}

/// Converts one of syn's literals; integers and floats keep their digits in base ten.
#[verifier::external_body]
fn convert_lit(l: &syn::Lit) -> DocLit {
    match l {
        syn::Lit::Str(s) => DocLit::Str(s.value()),
        syn::Lit::ByteStr(b) => DocLit::ByteStr(b.value()),
        syn::Lit::Char(c) => DocLit::Char(c.value()),
        syn::Lit::Int(i) => DocLit::Int(i.base10_digits().to_string()),
        syn::Lit::Float(f) => DocLit::Float(f.base10_digits().to_string()),
        syn::Lit::Bool(b) => DocLit::Bool(b.value),
        _ => DocLit::Other,
    }
}

/// Converts the tokens of a macro: punctuation with its spacing, anything else by its text.
#[verifier::external_body]
fn convert_tokens(ts: &TokenStream) -> Vec<Token> {
    ts.clone().into_iter().map(|t| match &t {
        TokenTree::Punct(p) => Token::Punct(p.as_char(), p.spacing() == Spacing::Joint),
        _ => Token::Other(t.to_string()),
    }).collect()
}

} // verus!
