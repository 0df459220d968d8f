//! Formatters decide the text written for each step of a serialization.

use vstd::prelude::*;
use vstd::string::*;

use crate::text::{format_signed, format_unsigned, int_text};

verus! {

/// One step of a serialization, as a formatter sees it.
pub enum FormatEvent<'s> {
    BeginLet(&'s str),
    EndLet,
    WriteNone,
    WriteUnit,
    WriteBool(bool),
    WriteInt(i64),
    WriteI128(i128),
    WriteUint(u64),
    WriteU128(u128),
    BeginSome,
    EndSome,
    BeginTuple,
    EndTuple,
    BeforeBeginString,
    AfterEndString,
    WriteRaw(&'s str),
    WriteVariantName(&'s str, &'s str),
    BeginArray,
    EndArray,
    BeginArrayValue(bool),
    EndArrayValue,
    BeforeBeginStruct(&'s str),
    BeginStruct,
    EndStruct,
    BeginStructKey(bool),
    EndStructKey,
    BeginStructValue,
    EndStructValue,
    RestStruct(bool, &'s str),
    BeforeBeginMap,
}

/// The view of a [`FormatEvent`]: the same step with its text as character sequences.
pub enum FormatStep {
    BeginLet(Seq<char>),
    EndLet,
    WriteNone,
    WriteUnit,
    WriteBool(bool),
    WriteInt(i64),
    WriteI128(i128),
    WriteUint(u64),
    WriteU128(u128),
    BeginSome,
    EndSome,
    BeginTuple,
    EndTuple,
    BeforeBeginString,
    AfterEndString,
    WriteRaw(Seq<char>),
    WriteVariantName(Seq<char>, Seq<char>),
    BeginArray,
    EndArray,
    BeginArrayValue(bool),
    EndArrayValue,
    BeforeBeginStruct(Seq<char>),
    BeginStruct,
    EndStruct,
    BeginStructKey(bool),
    EndStructKey,
    BeginStructValue,
    EndStructValue,
    RestStruct(bool, Seq<char>),
    BeforeBeginMap,
}

impl<'s> View for FormatEvent<'s> {
    type V = FormatStep;

    open spec fn view(&self) -> FormatStep {
        match *self {
            FormatEvent::BeginLet(name) => FormatStep::BeginLet(name@),
            FormatEvent::EndLet => FormatStep::EndLet,
            FormatEvent::WriteNone => FormatStep::WriteNone,
            FormatEvent::WriteUnit => FormatStep::WriteUnit,
            FormatEvent::WriteBool(b) => FormatStep::WriteBool(b),
            FormatEvent::WriteInt(v) => FormatStep::WriteInt(v),
            FormatEvent::WriteI128(v) => FormatStep::WriteI128(v),
            FormatEvent::WriteUint(v) => FormatStep::WriteUint(v),
            FormatEvent::WriteU128(v) => FormatStep::WriteU128(v),
            FormatEvent::BeginSome => FormatStep::BeginSome,
            FormatEvent::EndSome => FormatStep::EndSome,
            FormatEvent::BeginTuple => FormatStep::BeginTuple,
            FormatEvent::EndTuple => FormatStep::EndTuple,
            FormatEvent::BeforeBeginString => FormatStep::BeforeBeginString,
            FormatEvent::AfterEndString => FormatStep::AfterEndString,
            FormatEvent::WriteRaw(t) => FormatStep::WriteRaw(t@),
            FormatEvent::WriteVariantName(e, v) => FormatStep::WriteVariantName(e@, v@),
            FormatEvent::BeginArray => FormatStep::BeginArray,
            FormatEvent::EndArray => FormatStep::EndArray,
            FormatEvent::BeginArrayValue(first) => FormatStep::BeginArrayValue(first),
            FormatEvent::EndArrayValue => FormatStep::EndArrayValue,
            FormatEvent::BeforeBeginStruct(name) => FormatStep::BeforeBeginStruct(name@),
            FormatEvent::BeginStruct => FormatStep::BeginStruct,
            FormatEvent::EndStruct => FormatStep::EndStruct,
            FormatEvent::BeginStructKey(first) => FormatStep::BeginStructKey(first),
            FormatEvent::EndStructKey => FormatStep::EndStructKey,
            FormatEvent::BeginStructValue => FormatStep::BeginStructValue,
            FormatEvent::EndStructValue => FormatStep::EndStructValue,
            FormatEvent::RestStruct(first, rest) => FormatStep::RestStruct(first, rest@),
            FormatEvent::BeforeBeginMap => FormatStep::BeforeBeginMap,
        }
    }
}

/// The formatter state and the text after `f` handles `event` with `out` written so far.
pub open spec fn step<F: Formatter>(f: F, out: Seq<char>, event: FormatStep) -> (F, Seq<char>) {
    (f.spec_emit(event).0, out + f.spec_emit(event).1)
}

/// `n` copies of `unit`, one after the other.
pub open spec fn repeat(unit: Seq<char>, n: nat) -> Seq<char>
    decreases n,
{
    if n == 0 {
        Seq::empty()
    } else {
        repeat(unit, (n - 1) as nat) + unit
    }
}

/// Decides the text of every serialization step.
pub trait Formatter: Sized {
    /// The state after handling `event`, and the text written for it.
    spec fn spec_emit(self, event: FormatStep) -> (Self, Seq<char>);

    /// Handles one event: updates the state and appends its text to `out`.
    fn write_event(&mut self, out: &mut String, event: FormatEvent)
        ensures
            *final(self) == old(self).spec_emit(event@).0,
            final(out)@ == old(out)@ + old(self).spec_emit(event@).1,
    ;

    fn begin_let(&mut self, out: &mut String, var_name: &str)
        ensures
            *final(self) == old(self).spec_emit(FormatEvent::BeginLet(var_name)@).0,
            final(out)@ == old(out)@ + old(self).spec_emit(FormatEvent::BeginLet(var_name)@).1,
    {
        self.write_event(out, FormatEvent::BeginLet(var_name))
    }

    fn end_let(&mut self, out: &mut String)
        ensures
            *final(self) == old(self).spec_emit(FormatEvent::EndLet@).0,
            final(out)@ == old(out)@ + old(self).spec_emit(FormatEvent::EndLet@).1,
    {
        self.write_event(out, FormatEvent::EndLet)
    }

    fn write_none(&mut self, out: &mut String)
        ensures
            *final(self) == old(self).spec_emit(FormatEvent::WriteNone@).0,
            final(out)@ == old(out)@ + old(self).spec_emit(FormatEvent::WriteNone@).1,
    {
        self.write_event(out, FormatEvent::WriteNone)
    }

    fn write_unit(&mut self, out: &mut String)
        ensures
            *final(self) == old(self).spec_emit(FormatEvent::WriteUnit@).0,
            final(out)@ == old(out)@ + old(self).spec_emit(FormatEvent::WriteUnit@).1,
    {
        self.write_event(out, FormatEvent::WriteUnit)
    }

    fn write_bool(&mut self, out: &mut String, value: bool)
        ensures
            *final(self) == old(self).spec_emit(FormatEvent::WriteBool(value)@).0,
            final(out)@ == old(out)@ + old(self).spec_emit(FormatEvent::WriteBool(value)@).1,
    {
        self.write_event(out, FormatEvent::WriteBool(value))
    }

    fn write_int(&mut self, out: &mut String, value: i64)
        ensures
            *final(self) == old(self).spec_emit(FormatEvent::WriteInt(value)@).0,
            final(out)@ == old(out)@ + old(self).spec_emit(FormatEvent::WriteInt(value)@).1,
    {
        self.write_event(out, FormatEvent::WriteInt(value))
    }

    fn write_i128(&mut self, out: &mut String, value: i128)
        ensures
            *final(self) == old(self).spec_emit(FormatEvent::WriteI128(value)@).0,
            final(out)@ == old(out)@ + old(self).spec_emit(FormatEvent::WriteI128(value)@).1,
    {
        self.write_event(out, FormatEvent::WriteI128(value))
    }

    fn write_uint(&mut self, out: &mut String, value: u64)
        ensures
            *final(self) == old(self).spec_emit(FormatEvent::WriteUint(value)@).0,
            final(out)@ == old(out)@ + old(self).spec_emit(FormatEvent::WriteUint(value)@).1,
    {
        self.write_event(out, FormatEvent::WriteUint(value))
    }

    fn write_u128(&mut self, out: &mut String, value: u128)
        ensures
            *final(self) == old(self).spec_emit(FormatEvent::WriteU128(value)@).0,
            final(out)@ == old(out)@ + old(self).spec_emit(FormatEvent::WriteU128(value)@).1,
    {
        self.write_event(out, FormatEvent::WriteU128(value))
    }

    fn begin_some(&mut self, out: &mut String)
        ensures
            *final(self) == old(self).spec_emit(FormatEvent::BeginSome@).0,
            final(out)@ == old(out)@ + old(self).spec_emit(FormatEvent::BeginSome@).1,
    {
        self.write_event(out, FormatEvent::BeginSome)
    }

    fn end_some(&mut self, out: &mut String)
        ensures
            *final(self) == old(self).spec_emit(FormatEvent::EndSome@).0,
            final(out)@ == old(out)@ + old(self).spec_emit(FormatEvent::EndSome@).1,
    {
        self.write_event(out, FormatEvent::EndSome)
    }

    fn begin_tuple(&mut self, out: &mut String)
        ensures
            *final(self) == old(self).spec_emit(FormatEvent::BeginTuple@).0,
            final(out)@ == old(out)@ + old(self).spec_emit(FormatEvent::BeginTuple@).1,
    {
        self.write_event(out, FormatEvent::BeginTuple)
    }

    fn end_tuple(&mut self, out: &mut String)
        ensures
            *final(self) == old(self).spec_emit(FormatEvent::EndTuple@).0,
            final(out)@ == old(out)@ + old(self).spec_emit(FormatEvent::EndTuple@).1,
    {
        self.write_event(out, FormatEvent::EndTuple)
    }

    fn before_begin_string(&mut self, out: &mut String)
        ensures
            *final(self) == old(self).spec_emit(FormatEvent::BeforeBeginString@).0,
            final(out)@ == old(out)@ + old(self).spec_emit(FormatEvent::BeforeBeginString@).1,
    {
        self.write_event(out, FormatEvent::BeforeBeginString)
    }

    fn after_end_string(&mut self, out: &mut String)
        ensures
            *final(self) == old(self).spec_emit(FormatEvent::AfterEndString@).0,
            final(out)@ == old(out)@ + old(self).spec_emit(FormatEvent::AfterEndString@).1,
    {
        self.write_event(out, FormatEvent::AfterEndString)
    }

    fn write_raw(&mut self, out: &mut String, fragment: &str)
        ensures
            *final(self) == old(self).spec_emit(FormatEvent::WriteRaw(fragment)@).0,
            final(out)@ == old(out)@ + old(self).spec_emit(FormatEvent::WriteRaw(fragment)@).1,
    {
        self.write_event(out, FormatEvent::WriteRaw(fragment))
    }

    fn write_variant_name(&mut self, out: &mut String, enum_name: &str, variant: &str)
        ensures
            *final(self) == old(self).spec_emit(FormatEvent::WriteVariantName(enum_name, variant)@).0,
            final(out)@ == old(out)@ + old(self).spec_emit(FormatEvent::WriteVariantName(enum_name, variant)@).1,
    {
        self.write_event(out, FormatEvent::WriteVariantName(enum_name, variant))
    }

    fn begin_array(&mut self, out: &mut String)
        ensures
            *final(self) == old(self).spec_emit(FormatEvent::BeginArray@).0,
            final(out)@ == old(out)@ + old(self).spec_emit(FormatEvent::BeginArray@).1,
    {
        self.write_event(out, FormatEvent::BeginArray)
    }

    fn end_array(&mut self, out: &mut String)
        ensures
            *final(self) == old(self).spec_emit(FormatEvent::EndArray@).0,
            final(out)@ == old(out)@ + old(self).spec_emit(FormatEvent::EndArray@).1,
    {
        self.write_event(out, FormatEvent::EndArray)
    }

    fn begin_array_value(&mut self, out: &mut String, first: bool)
        ensures
            *final(self) == old(self).spec_emit(FormatEvent::BeginArrayValue(first)@).0,
            final(out)@ == old(out)@ + old(self).spec_emit(FormatEvent::BeginArrayValue(first)@).1,
    {
        self.write_event(out, FormatEvent::BeginArrayValue(first))
    }

    fn end_array_value(&mut self, out: &mut String)
        ensures
            *final(self) == old(self).spec_emit(FormatEvent::EndArrayValue@).0,
            final(out)@ == old(out)@ + old(self).spec_emit(FormatEvent::EndArrayValue@).1,
    {
        self.write_event(out, FormatEvent::EndArrayValue)
    }

    fn before_begin_struct(&mut self, out: &mut String, name: &str)
        ensures
            *final(self) == old(self).spec_emit(FormatEvent::BeforeBeginStruct(name)@).0,
            final(out)@ == old(out)@ + old(self).spec_emit(FormatEvent::BeforeBeginStruct(name)@).1,
    {
        self.write_event(out, FormatEvent::BeforeBeginStruct(name))
    }

    fn begin_struct(&mut self, out: &mut String)
        ensures
            *final(self) == old(self).spec_emit(FormatEvent::BeginStruct@).0,
            final(out)@ == old(out)@ + old(self).spec_emit(FormatEvent::BeginStruct@).1,
    {
        self.write_event(out, FormatEvent::BeginStruct)
    }

    fn end_struct(&mut self, out: &mut String)
        ensures
            *final(self) == old(self).spec_emit(FormatEvent::EndStruct@).0,
            final(out)@ == old(out)@ + old(self).spec_emit(FormatEvent::EndStruct@).1,
    {
        self.write_event(out, FormatEvent::EndStruct)
    }

    fn begin_struct_key(&mut self, out: &mut String, first: bool)
        ensures
            *final(self) == old(self).spec_emit(FormatEvent::BeginStructKey(first)@).0,
            final(out)@ == old(out)@ + old(self).spec_emit(FormatEvent::BeginStructKey(first)@).1,
    {
        self.write_event(out, FormatEvent::BeginStructKey(first))
    }

    fn end_struct_key(&mut self, out: &mut String)
        ensures
            *final(self) == old(self).spec_emit(FormatEvent::EndStructKey@).0,
            final(out)@ == old(out)@ + old(self).spec_emit(FormatEvent::EndStructKey@).1,
    {
        self.write_event(out, FormatEvent::EndStructKey)
    }

    fn begin_struct_value(&mut self, out: &mut String)
        ensures
            *final(self) == old(self).spec_emit(FormatEvent::BeginStructValue@).0,
            final(out)@ == old(out)@ + old(self).spec_emit(FormatEvent::BeginStructValue@).1,
    {
        self.write_event(out, FormatEvent::BeginStructValue)
    }

    fn end_struct_value(&mut self, out: &mut String)
        ensures
            *final(self) == old(self).spec_emit(FormatEvent::EndStructValue@).0,
            final(out)@ == old(out)@ + old(self).spec_emit(FormatEvent::EndStructValue@).1,
    {
        self.write_event(out, FormatEvent::EndStructValue)
    }

    fn rest_struct(&mut self, out: &mut String, is_empty_fields: bool, rest_var: &str)
        ensures
            *final(self) == old(self).spec_emit(FormatEvent::RestStruct(is_empty_fields, rest_var)@).0,
            final(out)@ == old(out)@ + old(self).spec_emit(FormatEvent::RestStruct(is_empty_fields, rest_var)@).1,
    {
        self.write_event(out, FormatEvent::RestStruct(is_empty_fields, rest_var))
    }

    fn before_begin_map(&mut self, out: &mut String)
        ensures
            *final(self) == old(self).spec_emit(FormatEvent::BeforeBeginMap@).0,
            final(out)@ == old(out)@ + old(self).spec_emit(FormatEvent::BeforeBeginMap@).1,
    {
        self.write_event(out, FormatEvent::BeforeBeginMap)
    }
}

/// The text of the compact formatter: no spaces, no newlines.
#[derive(Clone, Copy, Debug)]
pub struct CompactFormatter;

/// The text of `event` as the compact formatter writes it.
pub open spec fn compact_text(event: FormatStep) -> Seq<char> {
    match event {
        FormatStep::BeginLet(name) => "let "@ + name + "="@,
        FormatStep::EndLet => ";"@,
        FormatStep::WriteNone => "None"@,
        FormatStep::WriteUnit => "()"@,
        FormatStep::WriteBool(b) => if b { "true"@ } else { "false"@ },
        FormatStep::WriteInt(v) => int_text(v as int),
        FormatStep::WriteI128(v) => int_text(v as int),
        FormatStep::WriteUint(v) => int_text(v as int),
        FormatStep::WriteU128(v) => int_text(v as int),
        FormatStep::BeginTuple => "("@,
        FormatStep::EndTuple => ")"@,
        FormatStep::WriteRaw(s) => s,
        FormatStep::WriteVariantName(_, variant) => variant,
        FormatStep::BeginArray => "["@,
        FormatStep::EndArray => "]"@,
        FormatStep::BeginArrayValue(first) => if first { Seq::empty() } else { ","@ },
        FormatStep::BeforeBeginStruct(name) => name,
        FormatStep::BeginStruct => "{"@,
        FormatStep::EndStruct => "}"@,
        FormatStep::BeginStructKey(first) => if first { Seq::empty() } else { ","@ },
        FormatStep::BeginStructValue => ":"@,
        FormatStep::RestStruct(first, rest_var) => (if first { Seq::empty() } else { ","@ }) + ".."@ + rest_var,
        FormatStep::BeforeBeginMap => "map!"@,
        _ => Seq::empty(),
    }
}

impl Formatter for CompactFormatter {
    open spec fn spec_emit(self, event: FormatStep) -> (Self, Seq<char>) {
        (self, compact_text(event))
    }

    fn write_event(&mut self, out: &mut String, event: FormatEvent) {
        match event {
            FormatEvent::BeginLet(name) => {
                out.append("let ");
                out.append(name);
                out.append("=");
            },
            FormatEvent::EndLet => out.append(";"),
            FormatEvent::WriteNone => out.append("None"),
            FormatEvent::WriteUnit => out.append("()"),
            FormatEvent::WriteBool(b) => {
                if b {
                    out.append("true")
                } else {
                    out.append("false")
                }
            },
            FormatEvent::WriteInt(v) => {
                let t = format_signed(v as i128);
                out.append(t.as_str());
            },
            FormatEvent::WriteI128(v) => {
                let t = format_signed(v);
                out.append(t.as_str());
            },
            FormatEvent::WriteUint(v) => {
                let t = format_unsigned(v as u128);
                out.append(t.as_str());
            },
            FormatEvent::WriteU128(v) => {
                let t = format_unsigned(v);
                out.append(t.as_str());
            },
            FormatEvent::BeginTuple => out.append("("),
            FormatEvent::EndTuple => out.append(")"),
            FormatEvent::WriteRaw(s) => out.append(s),
            FormatEvent::WriteVariantName(_, variant) => out.append(variant),
            FormatEvent::BeginArray => out.append("["),
            FormatEvent::EndArray => out.append("]"),
            FormatEvent::BeginArrayValue(first) => {
                if !first {
                    out.append(",")
                }
            },
            FormatEvent::BeforeBeginStruct(name) => out.append(name),
            FormatEvent::BeginStruct => out.append("{"),
            FormatEvent::EndStruct => out.append("}"),
            FormatEvent::BeginStructKey(first) => {
                if !first {
                    out.append(",")
                }
            },
            FormatEvent::BeginStructValue => out.append(":"),
            FormatEvent::RestStruct(first, rest_var) => {
                if !first {
                    out.append(",");
                }
                out.append("..");
                out.append(rest_var);
            },
            FormatEvent::BeforeBeginMap => out.append("map!"),
            _ => {},
        }
    }
}


/// A formatter that puts every element on its own line, indented by nesting depth.
#[derive(Clone, Copy, Debug)]
pub struct PrettyFormatter<'a> {
    current_indent: usize,
    indent: &'a str,
    has_value: bool,
    explicit_some: bool,
    full_enum_variant_name: bool,
    use_trailing_comma: bool,
}

impl<'a> PrettyFormatter<'a> {
    /// The current nesting depth.
    pub closed spec fn depth(self) -> nat {
        self.current_indent as nat
    }

    /// The text written once per level of nesting.
    pub closed spec fn indent_unit(self) -> Seq<char> {
        self.indent@
    }

    /// Whether the innermost open compound has written a value yet.
    pub closed spec fn has_written_value(self) -> bool {
        self.has_value
    }

    /// Whether `Some(..)` is written around present optional values.
    pub closed spec fn writes_explicit_some(self) -> bool {
        self.explicit_some
    }

    /// Whether enum variants are written with their enum's name.
    pub closed spec fn writes_full_variant_name(self) -> bool {
        self.full_enum_variant_name
    }

    /// Whether every element is followed by a comma, the last one too.
    pub closed spec fn writes_trailing_comma(self) -> bool {
        self.use_trailing_comma
    }

    /// The state after a compound value opens: one level deeper, nothing written in it yet.
    pub closed spec fn opened(self) -> Self {
        PrettyFormatter {
            current_indent: if self.current_indent < usize::MAX { (self.current_indent + 1) as usize } else { self.current_indent },
            has_value: false,
            ..self
        }
    }

    /// The state after a compound value closes: one level shallower.
    pub closed spec fn closed(self) -> Self {
        PrettyFormatter {
            current_indent: if self.current_indent > 0 { (self.current_indent - 1) as usize } else { 0 },
            ..self
        }
    }

    /// The text that closes a compound value with closing bracket `close`.
    pub closed spec fn closing_text(self, close: Seq<char>) -> Seq<char> {
        if self.has_value {
            "\n"@ + repeat(self.indent@, self.closed().current_indent as nat) + close
        } else {
            close
        }
    }

    /// The text that starts an element or a field.
    pub closed spec fn item_start_text(self, first: bool) -> Seq<char> {
        (if first || self.use_trailing_comma { "\n"@ } else { ",\n"@ }) + repeat(self.indent@, self.current_indent as nat)
    }

    /// The text that ends an element or a field.
    pub closed spec fn item_end_text(self) -> Seq<char> {
        if self.use_trailing_comma { ","@ } else { Seq::empty() }
    }

    /// The state after an element or a field was written.
    pub closed spec fn with_value(self) -> Self {
        PrettyFormatter { has_value: true, ..self }
    }

    /// The state of a fresh formatter that indents with `indent`.
    pub closed spec fn spec_with_indent(indent: &'a str) -> Self {
        PrettyFormatter {
            current_indent: 0,
            indent,
            has_value: false,
            explicit_some: false,
            full_enum_variant_name: true,
            use_trailing_comma: true,
        }
    }

    /// A formatter that indents with four spaces.
    pub fn new() -> (f: Self)
        ensures
            f == Self::spec_with_indent("    "),
            f.depth() == 0,
            f.indent_unit() == "    "@,
            !f.has_written_value(),
            !f.writes_explicit_some(),
            f.writes_full_variant_name(),
            f.writes_trailing_comma(),
    {
        PrettyFormatter::with_indent("    ")
    }

    /// A formatter that indents with `indent`.
    pub fn with_indent(indent: &'a str) -> (f: Self)
        ensures
            f == Self::spec_with_indent(indent),
            f.depth() == 0,
            f.indent_unit() == indent@,
            !f.has_written_value(),
            !f.writes_explicit_some(),
            f.writes_full_variant_name(),
            f.writes_trailing_comma(),
    {
        PrettyFormatter {
            current_indent: 0,
            indent,
            has_value: false,
            explicit_some: false,
            full_enum_variant_name: true,
            use_trailing_comma: true,
        }
    }

    /// Sets whether present optional values are written as `Some(..)`.
    pub fn with_explicit_some(self, explicit_some: bool) -> (f: Self)
        ensures
            f.writes_explicit_some() == explicit_some,
            f.depth() == self.depth(),
            f.indent_unit() == self.indent_unit(),
            f.has_written_value() == self.has_written_value(),
            f.writes_full_variant_name() == self.writes_full_variant_name(),
            f.writes_trailing_comma() == self.writes_trailing_comma(),
    {
        let mut s = self;
        s.explicit_some = explicit_some;
        s
    }

    /// Sets whether enum variants are written as `Enum::Variant`.
    pub fn with_full_enum_variant_name(self, full_enum_variant_name: bool) -> (f: Self)
        ensures
            f.writes_full_variant_name() == full_enum_variant_name,
            f.depth() == self.depth(),
            f.indent_unit() == self.indent_unit(),
            f.has_written_value() == self.has_written_value(),
            f.writes_explicit_some() == self.writes_explicit_some(),
            f.writes_trailing_comma() == self.writes_trailing_comma(),
    {
        let mut s = self;
        s.full_enum_variant_name = full_enum_variant_name;
        s
    }

    /// Sets whether every element is followed by a comma.
    pub fn with_use_trailing_comma(self, use_trailing_comma: bool) -> (f: Self)
        ensures
            f.writes_trailing_comma() == use_trailing_comma,
            f.depth() == self.depth(),
            f.indent_unit() == self.indent_unit(),
            f.has_written_value() == self.has_written_value(),
            f.writes_explicit_some() == self.writes_explicit_some(),
            f.writes_full_variant_name() == self.writes_full_variant_name(),
    {
        let mut s = self;
        s.use_trailing_comma = use_trailing_comma;
        s
    }

    fn open(&mut self)
        ensures
            *final(self) == old(self).opened(),
    {
        if self.current_indent < usize::MAX {
            self.current_indent = self.current_indent + 1;
        }
        self.has_value = false;
    }

    fn close(&mut self, out: &mut String, close: &str)
        ensures
            *final(self) == old(self).closed(),
            final(out)@ == old(out)@ + old(self).closing_text(close@),
    {
        if self.current_indent > 0 {
            self.current_indent = self.current_indent - 1;
        }
        if self.has_value {
            out.append("\n");
            indent(out, self.current_indent, self.indent);
        }
        out.append(close);
    }

    fn item_start(&self, out: &mut String, first: bool)
        ensures
            final(out)@ == old(out)@ + self.item_start_text(first),
    {
        if first || self.use_trailing_comma {
            out.append("\n");
        } else {
            out.append(",\n");
        }
        indent(out, self.current_indent, self.indent);
    }

    fn item_end(&mut self, out: &mut String)
        ensures
            *final(self) == old(self).with_value(),
            final(out)@ == old(out)@ + old(self).item_end_text(),
    {
        if self.use_trailing_comma {
            out.append(",");
        }
        self.has_value = true;
    }
}

impl<'a> Default for PrettyFormatter<'a> {
    fn default() -> (f: Self)
        ensures
            f.depth() == 0,
            f.indent_unit() == "    "@,
            !f.has_written_value(),
            !f.writes_explicit_some(),
            f.writes_full_variant_name(),
            f.writes_trailing_comma(),
    {
        PrettyFormatter::new()
    }
}

impl<'a> Formatter for PrettyFormatter<'a> {
    closed spec fn spec_emit(self, event: FormatStep) -> (Self, Seq<char>) {
        match event {
            FormatStep::BeginLet(name) => (self, "let "@ + name + " = "@),
            FormatStep::BeginSome => (self, if self.explicit_some { "Some("@ } else { Seq::empty() }),
            FormatStep::EndSome => (self, if self.explicit_some { ")"@ } else { Seq::empty() }),
            FormatStep::BeginTuple => (self.opened(), "("@),
            FormatStep::EndTuple => (self.closed(), self.closing_text(")"@)),
            FormatStep::BeginArray => (self.opened(), "["@),
            FormatStep::EndArray => (self.closed(), self.closing_text("]"@)),
            FormatStep::BeginArrayValue(first) => (self, self.item_start_text(first)),
            FormatStep::EndArrayValue => (self.with_value(), self.item_end_text()),
            FormatStep::BeforeBeginStruct(name) => (self, name + " "@),
            FormatStep::BeginStruct => (self.opened(), "{"@),
            FormatStep::EndStruct => (self.closed(), self.closing_text("}"@)),
            FormatStep::BeginStructKey(first) => (self, self.item_start_text(first)),
            FormatStep::BeginStructValue => (self, ": "@),
            FormatStep::EndStructValue => (self.with_value(), self.item_end_text()),
            FormatStep::RestStruct(first, rest_var) => (
                self.with_value(),
                self.item_start_text(first) + ".."@ + rest_var,
            ),
            FormatStep::BeforeBeginMap => (self, "map! "@),
            FormatStep::WriteVariantName(enum_name, variant) => (
                self,
                if self.full_enum_variant_name { enum_name + "::"@ + variant } else { variant },
            ),
            _ => (self, compact_text(event)),
        }
    }

    fn write_event(&mut self, out: &mut String, event: FormatEvent) {
        match event {
            FormatEvent::BeginLet(name) => {
                out.append("let ");
                out.append(name);
                out.append(" = ");
            },
            FormatEvent::BeginSome => {
                if self.explicit_some {
                    out.append("Some(");
                }
            },
            FormatEvent::EndSome => {
                if self.explicit_some {
                    out.append(")");
                }
            },
            FormatEvent::BeginTuple => {
                self.open();
                out.append("(");
            },
            FormatEvent::EndTuple => self.close(out, ")"),
            FormatEvent::BeginArray => {
                self.open();
                out.append("[");
            },
            FormatEvent::EndArray => self.close(out, "]"),
            FormatEvent::BeginArrayValue(first) => self.item_start(out, first),
            FormatEvent::EndArrayValue => self.item_end(out),
            FormatEvent::BeforeBeginStruct(name) => {
                out.append(name);
                out.append(" ");
            },
            FormatEvent::BeginStruct => {
                self.open();
                out.append("{");
            },
            FormatEvent::EndStruct => self.close(out, "}"),
            FormatEvent::BeginStructKey(first) => self.item_start(out, first),
            FormatEvent::BeginStructValue => out.append(": "),
            FormatEvent::EndStructValue => self.item_end(out),
            FormatEvent::RestStruct(first, rest_var) => {
                self.item_start(out, first);
                out.append("..");
                self.has_value = true;
                out.append(rest_var);
            },
            FormatEvent::BeforeBeginMap => out.append("map! "),
            FormatEvent::WriteVariantName(enum_name, variant) => {
                if self.full_enum_variant_name {
                    out.append(enum_name);
                    out.append("::");
                }
                out.append(variant);
            },
            _ => {
                let mut compact = CompactFormatter;
                compact.write_event(out, event);
            },
        }
    }
}

/// Appends `n` copies of `unit` to `out`.
fn indent(out: &mut String, n: usize, unit: &str)
    ensures
        final(out)@ == old(out)@ + repeat(unit@, n as nat),
{
    let mut i: usize = 0;
    while i < n
        invariant
            i <= n,
            out@ == old(out)@ + repeat(unit@, i as nat),
        decreases n - i,
    {
        out.append(unit);
        i = i + 1;
        assert(out@ == old(out)@ + repeat(unit@, i as nat));
    }
}


impl<'a> PrettyFormatter<'a> {
    /// Whether two formatters write with the same settings: indentation unit,
    /// `Some(..)`, variant names and trailing commas.
    pub open spec fn same_settings(self, other: Self) -> bool {
        &&& self.indent_unit() == other.indent_unit()
        &&& self.writes_explicit_some() == other.writes_explicit_some()
        &&& self.writes_full_variant_name() == other.writes_full_variant_name()
        &&& self.writes_trailing_comma() == other.writes_trailing_comma()
    }
}

/// Whether a step opens a compound value (a tuple, an array, a struct or a map).
pub open spec fn opens(event: FormatStep) -> bool {
    event is BeginTuple || event is BeginArray || event is BeginStruct
}

/// Whether a step closes a compound value.
pub open spec fn closes(event: FormatStep) -> bool {
    event is EndTuple || event is EndArray || event is EndStruct
}

/// A pretty formatter's settings never change while it writes; its depth grows by
/// one when a compound value opens and shrinks by one when it closes (neither
/// beyond the bounds of a `usize`), and stays as it is on every other step.
pub proof fn lemma_pretty_step(f: PrettyFormatter, event: FormatStep)
    ensures
        f.spec_emit(event).0.same_settings(f),
        opens(event) ==> f.spec_emit(event).0.depth() == (if f.depth() < usize::MAX {
            f.depth() + 1
        } else {
            f.depth()
        }),
        closes(event) ==> f.spec_emit(event).0.depth() == (if f.depth() > 0 {
            (f.depth() - 1) as nat
        } else {
            0
        }),
        !opens(event) && !closes(event) ==> f.spec_emit(event).0.depth() == f.depth(),
{
}

/// Both formatters open a tuple, an array and a struct with `(`, `[` and `{`, and
/// close each with the matching `)`, `]` and `}`: the text of a closing step ends
/// with the bracket that matches its opening step, whatever comes before it
/// (a line break and indentation when pretty-printing).
pub proof fn lemma_brackets_match(f: PrettyFormatter)
    ensures
        f.spec_emit(FormatStep::BeginTuple).1 == seq!['('],
        f.spec_emit(FormatStep::BeginArray).1 == seq!['['],
        f.spec_emit(FormatStep::BeginStruct).1 == seq!['{'],
        f.spec_emit(FormatStep::EndTuple).1.len() > 0 && f.spec_emit(FormatStep::EndTuple).1.last() == ')',
        f.spec_emit(FormatStep::EndArray).1.len() > 0 && f.spec_emit(FormatStep::EndArray).1.last() == ']',
        f.spec_emit(FormatStep::EndStruct).1.len() > 0 && f.spec_emit(FormatStep::EndStruct).1.last() == '}',
        CompactFormatter.spec_emit(FormatStep::BeginTuple).1 == seq!['('],
        CompactFormatter.spec_emit(FormatStep::BeginArray).1 == seq!['['],
        CompactFormatter.spec_emit(FormatStep::BeginStruct).1 == seq!['{'],
        CompactFormatter.spec_emit(FormatStep::EndTuple).1 == seq![')'],
        CompactFormatter.spec_emit(FormatStep::EndArray).1 == seq![']'],
        CompactFormatter.spec_emit(FormatStep::EndStruct).1 == seq!['}'],
{
    reveal_strlit("(");
    reveal_strlit(")");
    reveal_strlit("[");
    reveal_strlit("]");
    reveal_strlit("{");
    reveal_strlit("}");
    reveal_strlit("\n");
}
} // verus!
