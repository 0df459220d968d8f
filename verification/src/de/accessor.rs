//! Walking through the elements, entries and fields of a compound expression.

use vstd::prelude::*;

use super::error::{DeErrorKind, RsonDeError, RsonDeResult};
use super::expr::{DocExpr, DocPath, DocPathSegment};
use super::parser::{deref_all, RsonParser, RESOLVE_FUEL};
use super::{err_kind, RsonDeserializer};
use crate::text::owned;

verus! {

/// What an element, key or value expression stands for: literals and compound
/// expressions stand for themselves, variables and fields for what they resolve
/// to; other expressions (`None` here) cannot be read.
pub open spec fn check_resolve(parser: RsonParser, e: DocExpr) -> Result<Option<DocExpr>, DeErrorKind> {
    match e {
        DocExpr::Array(_) | DocExpr::Call(_, _) | DocExpr::Lit(_) | DocExpr::Macro(_, _) | DocExpr::Range | DocExpr::Repeat
        | DocExpr::Struct(_, _, _) | DocExpr::Tuple(_) | DocExpr::Unary(_, _) => Ok(Some(e)),
        DocExpr::Field(b, m) => match parser.resolve_field(*b, m, Seq::empty(), false, RESOLVE_FUEL as nat).0 {
            Ok(x) => Ok(Some(x)),
            Err(k) => Err(k),
        },
        DocExpr::Path(p) => match parser.resolve_var(e, p, Seq::empty(), false, RESOLVE_FUEL as nat).0 {
            Ok(x) => Ok(Some(x)),
            Err(k) => Err(k),
        },
        DocExpr::Other => Ok(None),
    }
}

/// What an element, key or value expression stands for, if it can be read.
pub fn check_and_resolve_expr<'a>(parser: &'a RsonParser, expr: &'a DocExpr) -> (r: RsonDeResult<Option<&'a DocExpr>>)
    ensures
        match r {
            Ok(Some(x)) => check_resolve(*parser, *expr) == Ok::<Option<DocExpr>, DeErrorKind>(Some(*x)),
            Ok(None) => check_resolve(*parser, *expr) == Ok::<Option<DocExpr>, DeErrorKind>(None),
            Err(e) => check_resolve(*parser, *expr) == Err::<Option<DocExpr>, DeErrorKind>(e.kind()),
        },
{
    match expr {
        DocExpr::Array(_) | DocExpr::Call(_, _) | DocExpr::Lit(_) | DocExpr::Macro(_, _) | DocExpr::Range | DocExpr::Repeat
        | DocExpr::Struct(_, _, _) | DocExpr::Tuple(_) | DocExpr::Unary(_, _) => Ok(Some(expr)),
        DocExpr::Field(b, m) => match parser.find_field_init_expr(b, m) {
            Ok(x) => Ok(Some(x)),
            Err(e) => Err(e),
        },
        DocExpr::Path(p) => match parser.find_var_init_expr(expr, p) {
            Ok(x) => Ok(Some(x)),
            Err(e) => Err(e),
        },
        DocExpr::Other => Ok(None),
    }
}

/// Hands out the elements of a sequence, a tuple or a call's arguments one by one.
pub struct RsonSeqAccessor<'a> {
    parser: &'a RsonParser,
    elems: Vec<&'a DocExpr>,
    index: usize,
}

impl<'a> RsonSeqAccessor<'a> {
    /// The document the elements belong to.
    pub closed spec fn doc(&self) -> RsonParser {
        *self.parser
    }

    /// The elements.
    pub closed spec fn elems(&self) -> Seq<DocExpr> {
        deref_all(self.elems@)
    }

    /// How many elements were handed out.
    pub closed spec fn index(&self) -> nat {
        self.index as nat
    }

    /// An accessor at the first of `elems`.
    pub fn new(parser: &'a RsonParser, elems: Vec<&'a DocExpr>) -> (s: Self)
        ensures
            s.doc() == *parser,
            s.elems() == deref_all(elems@),
            s.index() == 0,
    {
        RsonSeqAccessor { parser, elems, index: 0 }
    }

    /// A deserializer for the next element; `None` after the last one.
    pub fn next_element(&mut self) -> (r: RsonDeResult<Option<RsonDeserializer<'a>>>)
        ensures
            final(self).doc() == old(self).doc(),
            final(self).elems() == old(self).elems(),
            old(self).index() >= old(self).elems().len() ==> (r matches Ok(None) && final(self).index() == old(
                self,
            ).index()),
            old(self).index() < old(self).elems().len() ==> match check_resolve(
                old(self).doc(),
                old(self).elems()[old(self).index() as int],
            ) {
                Ok(Some(x)) => r matches Ok(Some(d)) && d.doc() == old(self).doc() && d.current() == x
                    && final(self).index() == old(self).index() + 1,
                Ok(None) => r matches Err(e) && e.kind() == DeErrorKind::Serde && final(self).index() == old(
                    self,
                ).index(),
                Err(k) => r matches Err(e) && e.kind() == k && final(self).index() == old(self).index(),
            },
    {
        if self.index < self.elems.len() {
            let elem = self.elems[self.index];
            match check_and_resolve_expr(self.parser, elem) {
                Ok(Some(expr)) => {
                    self.index = self.index + 1;
                    Ok(Some(RsonDeserializer::new_with_expr(self.parser, expr)))
                },
                Ok(None) => Err(RsonDeError::Serde(owned("unsupported sequence element"))),
                Err(e) => Err(e),
            }
        } else {
            Ok(None)
        }
    }
}

/// Hands out the entries of a map written as a tuple or array of pairs.
pub struct RsonMapAccessor<'a> {
    parser: &'a RsonParser,
    elems: Vec<&'a DocExpr>,
    index: usize,
}

/// The key or value (`part`) of a pair expression, when it is a pair.
pub open spec fn pair_part(e: DocExpr, part: int) -> Option<DocExpr> {
    match e {
        DocExpr::Tuple(t) => if t@.len() == 2 { Some(t@[part]) } else { None },
        _ => None,
    }
}

impl<'a> RsonMapAccessor<'a> {
    /// The document the entries belong to.
    pub closed spec fn doc(&self) -> RsonParser {
        *self.parser
    }

    /// The entries.
    pub closed spec fn elems(&self) -> Seq<DocExpr> {
        deref_all(self.elems@)
    }

    /// How many entries were handed out.
    pub closed spec fn index(&self) -> nat {
        self.index as nat
    }

    /// An accessor at the first of `elems`.
    pub fn new(parser: &'a RsonParser, elems: Vec<&'a DocExpr>) -> (s: Self)
        ensures
            s.doc() == *parser,
            s.elems() == deref_all(elems@),
            s.index() == 0,
    {
        RsonMapAccessor { parser, elems, index: 0 }
    }

    /// A deserializer for the key of the next entry; `None` after the last one.
    pub fn next_key(&self) -> (r: RsonDeResult<Option<RsonDeserializer<'a>>>)
        ensures
            self.index() >= self.elems().len() ==> r matches Ok(None),
            self.index() < self.elems().len() ==> match pair_part(self.elems()[self.index() as int], 0) {
                None => r matches Err(e) && e.kind() == DeErrorKind::Serde,
                Some(key) => match check_resolve(self.doc(), key) {
                    Ok(Some(x)) => r matches Ok(Some(d)) && d.doc() == self.doc() && d.current() == x,
                    Ok(None) => r matches Err(e) && e.kind() == DeErrorKind::Serde,
                    Err(k) => r matches Err(e) && e.kind() == k,
                },
            },
    {
        if self.index < self.elems.len() {
            let elem = self.elems[self.index];
            if let DocExpr::Tuple(tuple) = elem {
                if tuple.len() == 2 {
                    let key = &tuple[0];
                    return match check_and_resolve_expr(self.parser, key) {
                        Ok(Some(expr)) => Ok(Some(RsonDeserializer::new_with_expr(self.parser, expr))),
                        Ok(None) => Err(RsonDeError::Serde(owned("unsupported map key"))),
                        Err(e) => Err(e),
                    };
                }
            }
            Err(RsonDeError::Serde(owned("unsupported map entry")))
        } else {
            Ok(None)
        }
    }

    /// Whether the current entry's value can be asked for: there is a current entry,
    /// and when it is a tuple it has at least two elements.
    pub open spec fn spec_value_ready(&self) -> bool {
        &&& self.index() < self.elems().len()
        &&& (self.elems()[self.index() as int] matches DocExpr::Tuple(t) ==> t@.len() >= 2)
    }

    /// Whether the current entry's value can be asked for.
    pub fn value_ready(&self) -> (r: bool)
        ensures
            r == self.spec_value_ready(),
    {
        if self.index < self.elems.len() {
            match self.elems[self.index] {
                DocExpr::Tuple(t) => t.len() >= 2,
                _ => true,
            }
        } else {
            false
        }
    }

    /// A deserializer for the value of the current entry; moves to the next entry.
    pub fn next_value(&mut self) -> (r: RsonDeResult<RsonDeserializer<'a>>)
        requires
            old(self).spec_value_ready(),
        ensures
            final(self).doc() == old(self).doc(),
            final(self).elems() == old(self).elems(),
            match old(self).elems()[old(self).index() as int] {
                DocExpr::Tuple(t) => match check_resolve(old(self).doc(), t@[1]) {
                    Ok(Some(x)) => r matches Ok(d) && d.doc() == old(self).doc() && d.current() == x
                        && final(self).index() == old(self).index() + 1,
                    Ok(None) => r matches Err(e) && e.kind() == DeErrorKind::Serde && final(self).index()
                        == old(self).index(),
                    Err(k) => r matches Err(e) && e.kind() == k && final(self).index() == old(self).index(),
                },
                _ => r matches Err(e) && e.kind() == DeErrorKind::Serde && final(self).index() == old(self).index(),
            },
    {
        proof {
            assert(deref_all(self.elems@).len() == self.elems@.len());
        }
        let count = self.elems.len();
        assert(self.index < count);
        let elem = self.elems[self.index];
        if let DocExpr::Tuple(tuple) = elem {
            let val = &tuple[1];
            match check_and_resolve_expr(self.parser, val) {
                Ok(Some(expr)) => {
                    self.index = self.index + 1;
                    Ok(RsonDeserializer::new_with_expr(self.parser, expr))
                },
                Ok(None) => Err(RsonDeError::Serde(owned("unsupported map value"))),
                Err(e) => Err(e),
            }
        } else {
            Err(RsonDeError::Serde(owned("unsupported map entry")))
        }
    }
}

/// Hands out the fields of a struct literal: each key is the field's name, as a path.
pub struct RsonFieldMapAccessor<'a> {
    parser: &'a RsonParser,
    elems: Vec<(&'a String, &'a DocExpr)>,
    keys: Vec<DocExpr>,
    index: usize,
}

/// The (name, expression) pairs a vector of references points to.
pub open spec fn field_views(v: Seq<(&String, &DocExpr)>) -> Seq<(Seq<char>, DocExpr)> {
    v.map_values(|p: (&String, &DocExpr)| (p.0@, *p.1))
}

impl<'a> RsonFieldMapAccessor<'a> {
    /// The document the fields belong to.
    pub closed spec fn doc(&self) -> RsonParser {
        *self.parser
    }

    /// The fields, by name and expression.
    pub closed spec fn elems(&self) -> Seq<(Seq<char>, DocExpr)> {
        field_views(self.elems@)
    }

    /// How many fields were handed out.
    pub closed spec fn index(&self) -> nat {
        self.index as nat
    }

    #[verifier::type_invariant]
    closed spec fn keys_match(&self) -> bool {
        &&& self.keys@.len() == self.elems@.len()
        &&& forall|i: int|
            0 <= i < self.keys@.len() ==> (#[trigger] self.keys@[i] matches DocExpr::Path(p) && p.spec_ident() == Some(
                self.elems@[i].0@,
            ))
    }

    /// An accessor at the first of `elems`.
    pub fn new(parser: &'a RsonParser, elems: Vec<(&'a String, &'a DocExpr)>) -> (s: Self)
        ensures
            s.doc() == *parser,
            s.elems() == field_views(elems@),
            s.index() == 0,
    {
        let mut keys: Vec<DocExpr> = Vec::new();
        let mut i: usize = 0;
        while i < elems.len()
            invariant
                i <= elems@.len(),
                keys@.len() == i,
                forall|j: int|
                    0 <= j < i ==> (#[trigger] keys@[j] matches DocExpr::Path(p) && p.spec_ident() == Some(elems@[j].0@)),
            decreases elems@.len() - i,
        {
            let mut segments: Vec<DocPathSegment> = Vec::new();
            segments.push(DocPathSegment { ident: elems[i].0.clone(), has_arguments: false });
            keys.push(DocExpr::Path(DocPath { leading_colon: false, segments }));
            i = i + 1;
        }
        RsonFieldMapAccessor { parser, elems, keys, index: 0 }
    }

    /// A deserializer for the name of the next field, as a path; `None` after the last one.
    pub fn next_key<'b>(&'b self) -> (r: Option<RsonDeserializer<'b>>)
        ensures
            self.index() >= self.elems().len() ==> r is None,
            self.index() < self.elems().len() ==> (r matches Some(d) && d.doc() == self.doc() && (d.current() matches DocExpr::Path(
                p,
            ) && p.spec_ident() == Some(self.elems()[self.index() as int].0))),
    {
        proof {
            use_type_invariant(self);
        }
        if self.index < self.elems.len() {
            Some(RsonDeserializer::new_with_expr(self.parser, &self.keys[self.index]))
        } else {
            None
        }
    }

    /// Whether a field is left whose value can be asked for.
    pub fn value_ready(&self) -> (r: bool)
        ensures
            r == (self.index() < self.elems().len()),
    {
        proof {
            use_type_invariant(self);
            assert(field_views(self.elems@).len() == self.elems@.len());
        }
        self.index < self.elems.len()
    }

    /// A deserializer for the value of the current field; moves to the next field.
    pub fn next_value(&mut self) -> (r: RsonDeResult<RsonDeserializer<'a>>)
        requires
            old(self).index() < old(self).elems().len(),
        ensures
            final(self).doc() == old(self).doc(),
            final(self).elems() == old(self).elems(),
            match check_resolve(old(self).doc(), old(self).elems()[old(self).index() as int].1) {
                Ok(Some(x)) => r matches Ok(d) && d.doc() == old(self).doc() && d.current() == x && final(self).index()
                    == old(self).index() + 1,
                Ok(None) => r matches Err(e) && e.kind() == DeErrorKind::Serde && final(self).index() == old(
                    self,
                ).index(),
                Err(k) => r matches Err(e) && e.kind() == k && final(self).index() == old(self).index(),
            },
    {
        proof {
            use_type_invariant(&*self);
            assert(field_views(self.elems@).len() == self.elems@.len());
        }
        let count = self.elems.len();
        assert(self.index < count);
        let val = self.elems[self.index].1;
        match check_and_resolve_expr(self.parser, val) {
            Ok(Some(expr)) => {
                self.index = self.index + 1;
                Ok(RsonDeserializer::new_with_expr(self.parser, expr))
            },
            Ok(None) => Err(RsonDeError::Serde(owned("unsupported field value"))),
            Err(e) => Err(e),
        }
    }
}


/// Hands out the variant and the content of an enum value.
pub struct RsonEnumAccessor<'a> {
    deserializer: RsonDeserializer<'a>,
}

impl<'a> RsonEnumAccessor<'a> {
    /// The deserializer for the enum value.
    pub closed spec fn deserializer(&self) -> RsonDeserializer<'a> {
        self.deserializer
    }

    /// An accessor for the enum value `deserializer` reads.
    pub fn new(deserializer: RsonDeserializer<'a>) -> (s: Self)
        ensures
            s.deserializer() == deserializer,
    {
        RsonEnumAccessor { deserializer }
    }

    /// A deserializer for the variant's name.
    pub fn variant(&self) -> (d: RsonDeserializer<'a>)
        ensures
            d == self.deserializer(),
    {
        self.deserializer
    }

    /// Reads a unit variant.
    pub fn unit_variant(&self) -> (r: RsonDeResult<()>)
        ensures
            match self.deserializer().resolved() {
                Err(k) => err_kind(r) == Some(k),
                Ok(DocExpr::Tuple(elems)) => if elems@.len() == 0 { r is Ok } else { err_kind(r) == Some(DeErrorKind::Serde) },
                Ok(DocExpr::Path(_)) => r is Ok,
                Ok(_) => err_kind(r) == Some(DeErrorKind::Serde),
            },
    {
        self.deserializer.deserialize_unit()
    }

    /// A deserializer for the content of a newtype variant `Variant(value)`.
    pub fn newtype_variant(&self) -> (r: RsonDeResult<RsonDeserializer<'a>>)
        ensures
            match self.deserializer().current() {
                DocExpr::Call(_, args) => if args@.len() == 1 {
                    r matches Ok(d) && d.doc() == self.deserializer().doc() && d.current() == args@[0]
                } else {
                    err_kind(r) == Some(DeErrorKind::Serde)
                },
                _ => err_kind(r) == Some(DeErrorKind::Serde),
            },
    {
        match self.deserializer.current_expr_ref() {
            DocExpr::Call(_, args) => {
                if args.len() == 1 {
                    return Ok(self.deserializer.duplicate_for_expr(&args[0]));
                }
                Err(RsonDeError::Serde(owned("unsupported newtype enum variant")))
            },
            _ => Err(RsonDeError::Serde(owned("unsupported newtype enum variant"))),
        }
    }

    /// Reads the fields of a tuple variant with `len` fields.
    pub fn tuple_variant(&self, len: usize) -> (r: RsonDeResult<RsonSeqAccessor<'a>>)
        ensures
            match self.deserializer().resolved() {
                Err(k) => err_kind(r) == Some(k),
                Ok(e) => match super::parser::call_args(e, Seq::empty(), len as nat) {
                    Some(args) => r matches Ok(acc) && acc.doc() == self.deserializer().doc() && acc.elems() == args
                        && acc.index() == 0,
                    None => err_kind(r) == Some(DeErrorKind::Serde),
                },
            },
    {
        let empty = String::new();
        self.deserializer.deserialize_tuple_struct(empty.as_str(), len)
    }

    /// Reads the fields of a struct variant.
    pub fn struct_variant(&self, fields: &Vec<String>) -> (r: RsonDeResult<RsonFieldMapAccessor<'a>>)
        ensures
            match self.deserializer().resolved() {
                Err(k) => err_kind(r) == Some(k),
                Ok(e) => match super::struct_outcome(self.deserializer().doc(), e, Seq::empty(), crate::ser::str_views(fields@)) {
                    Ok(v) => r matches Ok(acc) && acc.doc() == self.deserializer().doc() && acc.elems() == v && acc.index() == 0,
                    Err(k) => err_kind(r) == Some(k),
                },
            },
    {
        let empty = String::new();
        self.deserializer.deserialize_struct(empty.as_str(), fields)
    }
}

} // verus!
