//! The expressions a document is made of, as plain values.

use vstd::prelude::*;

verus! {

/// One segment of a path: its identifier, and whether it carries generic arguments.
pub struct DocPathSegment {
    pub ident: String,
    pub has_arguments: bool,
}

/// A path such as `a`, `Enum::Variant` or `::std::x`.
pub struct DocPath {
    pub leading_colon: bool,
    pub segments: Vec<DocPathSegment>,
}

/// The field named or numbered in `base.member`, or in a struct literal.
pub enum DocMember {
    Named(String),
    Unnamed(u32),
}

/// A literal. Integer and float literals hold their digits in base ten, without suffix.
pub enum DocLit {
    Str(String),
    ByteStr(Vec<u8>),
    Char(char),
    Int(String),
    Float(String),
    Bool(bool),
    Other,
}

/// A unary operator.
pub enum UnaryOp {
    Neg,
    Other,
}

/// One token of a macro's input: a punctuation character (and whether it is joined
/// to the next one), or any other token by its text.
pub enum Token {
    Punct(char, bool),
    Other(String),
}

/// One `member: expr` of a struct literal.
pub struct DocFieldValue {
    pub member: DocMember,
    pub expr: DocExpr,
}

/// An expression of a document.
pub enum DocExpr {
    Array(Vec<DocExpr>),
    Call(Box<DocExpr>, Vec<DocExpr>),
    Field(Box<DocExpr>, DocMember),
    Lit(DocLit),
    Macro(DocPath, Vec<Token>),
    Path(DocPath),
    Range,
    Repeat,
    Struct(DocPath, Vec<DocFieldValue>, Option<Box<DocExpr>>),
    Tuple(Vec<DocExpr>),
    Unary(UnaryOp, Box<DocExpr>),
    Other,
}

/// A statement of a document.
pub enum DocStmt {
    /// `let pattern = init;`, with the bound name when the pattern is a plain identifier.
    Local(Option<String>, Option<DocExpr>),
    /// An expression, and whether a semicolon follows it.
    Expr(DocExpr, bool),
    Other,
}

impl DocPath {
    /// The identifier of a path made of one plain segment.
    pub open spec fn spec_ident(&self) -> Option<Seq<char>> {
        if !self.leading_colon && self.segments@.len() == 1 && !self.segments@[0].has_arguments {
            Some(self.segments@[0].ident@)
        } else {
            None
        }
    }

    /// The identifier of a path made of one plain segment.
    pub fn get_ident(&self) -> (r: Option<&String>)
        ensures
            match r {
                Some(s) => self.spec_ident() == Some(s@),
                None => self.spec_ident() is None,
            },
    {
        if !self.leading_colon && self.segments.len() == 1 && !self.segments[0].has_arguments {
            Some(&self.segments[0].ident)
        } else {
            None
        }
    }
}

impl DocMember {
    /// Whether two members name the same field.
    pub open spec fn same(&self, other: &DocMember) -> bool {
        match (*self, *other) {
            (DocMember::Named(a), DocMember::Named(b)) => a@ == b@,
            (DocMember::Unnamed(a), DocMember::Unnamed(b)) => a == b,
            _ => false,
        }
    }

    /// Whether two members name the same field.
    pub fn same_as(&self, other: &DocMember) -> (r: bool)
        ensures
            r == self.same(other),
    {
        match (self, other) {
            (DocMember::Named(a), DocMember::Named(b)) => *a == *b,
            (DocMember::Unnamed(a), DocMember::Unnamed(b)) => *a == *b,
            _ => false,
        }
    }
}

} // verus!
