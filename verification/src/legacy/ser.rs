//! The first serializer of the format: values as text, on one line, without variables.
//!
//! It writes integers in decimal, characters and strings in quotes with `\` before
//! the quote and the backslash, sequences in brackets, tuples in parentheses, maps
//! and structs in braces, every element followed by a comma. It can indent nested
//! values, one level of four spaces per bracket, when it pretty-prints.

use vstd::prelude::*;

use crate::ser::value::Value;
use crate::text::{i64_text, int_text, owned, push_char, u64_text};

verus! {

/// Why serialization failed.
#[derive(Clone, Debug, PartialEq)]
pub enum Error {
    /// A custom error emitted by a serialized value.
    Message(String),
}

impl Error {
    /// The error's message.
    pub open spec fn message(&self) -> Seq<char> {
        match self {
            Error::Message(m) => m@,
        }
    }

    /// An error that carries `msg`.
    pub fn custom(msg: &str) -> (e: Self)
        ensures
            e.message() == msg@,
    {
        Error::Message(owned(msg))
    }

    /// The error's message.
    pub fn description(&self) -> (r: &String)
        ensures
            r@ == self.message(),
    {
        match self {
            Error::Message(m) => m,
        }
    }

    /// The text the error shows to a reader: `Custom message: ` and the message.
    pub fn display_text(&self) -> (r: String)
        ensures
            r@ == "Custom message: "@ + self.message(),
    {
        let mut r = owned("Custom message: ");
        match self {
            Error::Message(m) => r.append(m.as_str()),
        }
        r
    }
}

/// The depth of indentation when pretty-printing (`None` otherwise), and the text
/// written so far.
pub type PrettyText = (Option<nat>, Seq<char>);

/// What a serialization step gives: the text, or the message of the error that stopped it.
pub type Outcome = Result<PrettyText, Seq<char>>;

/// `n` spaces.
pub open spec fn spaces(n: nat) -> Seq<char> {
    Seq::new(n, |_i: int| ' ')
}

/// `st` with `s` written after its text.
pub open spec fn put(st: PrettyText, s: Seq<char>) -> PrettyText {
    (st.0, st.1 + s)
}

/// `st` with `s` written after its text when pretty-printing.
pub open spec fn put_pretty(st: PrettyText, s: Seq<char>) -> PrettyText {
    if st.0 is Some {
        put(st, s)
    } else {
        st
    }
}

/// One level deeper, and a line break, when pretty-printing.
pub open spec fn put_start_indent(st: PrettyText) -> PrettyText {
    match st.0 {
        Some(i) => (Some(i + 1), st.1 + "\n"@),
        None => st,
    }
}

/// The indentation of the current depth, when pretty-printing.
pub open spec fn put_indent(st: PrettyText) -> PrettyText {
    match st.0 {
        Some(i) => (st.0, st.1 + spaces(i * 4)),
        None => st,
    }
}

/// One level shallower, and the indentation of that depth, when pretty-printing.
pub open spec fn put_end_indent(st: PrettyText) -> PrettyText {
    match st.0 {
        Some(i) => (Some((i - 1) as nat), st.1 + spaces(((i - 1) as nat) * 4)),
        None => st,
    }
}

/// A text without its last character, if it has one.
pub open spec fn pop_text(s: Seq<char>) -> Seq<char> {
    if s.len() > 0 {
        s.drop_last()
    } else {
        s
    }
}

/// The end of a tuple: the last `, ` taken back when pretty-printing, then `)`.
pub open spec fn put_tuple_end(st: PrettyText) -> PrettyText {
    let s = if st.0 is Some {
        (st.0, pop_text(pop_text(st.1)))
    } else {
        st
    };
    put(s, ")"@)
}

/// The name of a struct before its body, when struct names are written.
pub open spec fn put_name(st: PrettyText, names: bool, name: Seq<char>) -> PrettyText {
    if names {
        put(st, name)
    } else {
        st
    }
}

/// A character in single quotes, with `\` before a backslash or a single quote.
pub open spec fn char_text(c: char) -> Seq<char> {
    "'"@ + (if c == '\\' || c == '\'' {
        "\\"@
    } else {
        Seq::empty()
    }) + seq![c] + "'"@
}

/// One character of a string, with `\` before a backslash or a double quote.
pub open spec fn escaped_char(c: char) -> Seq<char> {
    if c == '\\' || c == '"' {
        seq!['\\', c]
    } else {
        seq![c]
    }
}

/// The characters of a string, each escaped.
pub open spec fn escaped(s: Seq<char>) -> Seq<char>
    decreases s.len(),
{
    if s.len() == 0 {
        Seq::empty()
    } else {
        escaped(s.drop_last()) + escaped_char(s.last())
    }
}

/// `r` with `s` written after its text, if it succeeded.
pub open spec fn then_put(r: Outcome, s: Seq<char>) -> Outcome {
    match r {
        Ok(st) => Ok(put(st, s)),
        Err(m) => Err(m),
    }
}

/// `r` closed as a sequence, map or struct is: one level shallower, then `close`.
pub open spec fn then_close(r: Outcome, close: Seq<char>) -> Outcome {
    match r {
        Ok(st) => Ok(put(put_end_indent(st), close)),
        Err(m) => Err(m),
    }
}

/// `r` closed as a tuple is.
pub open spec fn then_tuple_end(r: Outcome) -> Outcome {
    match r {
        Ok(st) => Ok(put_tuple_end(st)),
        Err(m) => Err(m),
    }
}

/// The text of a value written after `st`, struct names written when `names`.
pub open spec fn legacy_value(st: PrettyText, names: bool, v: Value) -> Outcome
    decreases v, 0nat,
{
    match v {
        Value::Bool(b) => Ok(put(st, if b { "true"@ } else { "false"@ })),
        Value::Int(i) => Ok(put(st, int_text(i as int))),
        Value::I128(_) => Err("i128 is not supported"@),
        Value::Uint(u) => Ok(put(st, int_text(u as int))),
        Value::U128(_) => Err("u128 is not supported"@),
        Value::Float(text) => Ok(put(st, text@)),
        Value::Char(c) => Ok(put(st, char_text(c))),
        Value::Str(s) => Ok(put(put(put(st, "\""@), escaped(s@)), "\""@)),
        Value::Bytes(bytes) => then_close(
            Ok(legacy_bytes(put_start_indent(put(st, "["@)), bytes@, bytes@.len())),
            "]"@,
        ),
        Value::NoneValue => Ok(put(st, "None"@)),
        Value::SomeValue(inner) => then_put(legacy_value(put(st, "Some("@), names, *inner), ")"@),
        Value::Unit => Ok(put(st, "()"@)),
        Value::UnitStruct(name) => Ok(
            if names {
                put(st, name@)
            } else {
                put(st, "()"@)
            },
        ),
        Value::UnitVariant(_, variant) => Ok(put(st, variant@)),
        Value::NewtypeStruct(name, inner) => then_put(
            legacy_value(put(put_name(st, names, name@), "("@), names, *inner),
            ")"@,
        ),
        Value::NewtypeVariant(_, variant, inner) => then_put(
            legacy_value(put(put(st, variant@), "("@), names, *inner),
            ")"@,
        ),
        Value::Sequence(elems) => then_close(
            legacy_seq_elems(put_start_indent(put(st, "["@)), names, elems@, elems@.len()),
            "]"@,
        ),
        Value::Tuple(elems) => then_tuple_end(legacy_tuple_elems(put(st, "("@), names, elems@, elems@.len())),
        Value::TupleStruct(name, elems) => then_tuple_end(
            legacy_tuple_elems(put(put_name(st, names, name@), "("@), names, elems@, elems@.len()),
        ),
        Value::TupleVariant(_, variant, elems) => then_tuple_end(
            legacy_tuple_elems(put_start_indent(put(put(st, variant@), "("@)), names, elems@, elems@.len()),
        ),
        Value::MapEntries(entries) => then_close(
            legacy_entries(put_start_indent(put(st, "{"@)), names, entries@, entries@.len()),
            "}"@,
        ),
        Value::Struct(name, fields) => then_close(
            legacy_fields(put_start_indent(put(put_name(st, names, name@), "{"@)), names, fields@, fields@.len()),
            "}"@,
        ),
        Value::StructVariant(_, variant, fields) => then_close(
            legacy_fields(put_start_indent(put(put(st, variant@), "{"@)), names, fields@, fields@.len()),
            "}"@,
        ),
    }
}

/// The end of an element of a sequence, map or struct: a comma, and a line
/// break when pretty-printing.
pub open spec fn put_item_end(st: PrettyText) -> PrettyText {
    put_pretty(put(st, ","@), "\n"@)
}

/// The first `n` elements of a sequence.
pub open spec fn legacy_seq_elems(st: PrettyText, names: bool, elems: Seq<Value>, n: nat) -> Outcome
    decreases elems, n,
{
    if n == 0 || n > elems.len() {
        Ok(st)
    } else {
        match legacy_seq_elems(st, names, elems, (n - 1) as nat) {
            Ok(s) => match legacy_value(put_indent(s), names, elems[n - 1]) {
                Ok(s2) => Ok(put_item_end(s2)),
                Err(m) => Err(m),
            },
            Err(m) => Err(m),
        }
    }
}

/// The first `n` elements of a tuple, each followed by a comma (and a space when
/// pretty-printing).
pub open spec fn legacy_tuple_elems(st: PrettyText, names: bool, elems: Seq<Value>, n: nat) -> Outcome
    decreases elems, n,
{
    if n == 0 || n > elems.len() {
        Ok(st)
    } else {
        match legacy_tuple_elems(st, names, elems, (n - 1) as nat) {
            Ok(s) => match legacy_value(s, names, elems[n - 1]) {
                Ok(s2) => Ok(put_pretty(put(s2, ","@), " "@)),
                Err(m) => Err(m),
            },
            Err(m) => Err(m),
        }
    }
}

/// The first `n` entries of a map: key, colon, value.
pub open spec fn legacy_entries(st: PrettyText, names: bool, entries: Seq<(Value, Value)>, n: nat) -> Outcome
    decreases entries, n,
{
    if n == 0 || n > entries.len() {
        Ok(st)
    } else {
        match legacy_entries(st, names, entries, (n - 1) as nat) {
            Ok(s) => match legacy_value(put_indent(s), names, entries[n - 1].0) {
                Ok(s2) => match legacy_value(put_pretty(put(s2, ":"@), " "@), names, entries[n - 1].1) {
                    Ok(s3) => Ok(put_item_end(s3)),
                    Err(m) => Err(m),
                },
                Err(m) => Err(m),
            },
            Err(m) => Err(m),
        }
    }
}

/// The first `n` fields of a struct: name, colon, value.
pub open spec fn legacy_fields(st: PrettyText, names: bool, fields: Seq<(String, Value)>, n: nat) -> Outcome
    decreases fields, n,
{
    if n == 0 || n > fields.len() {
        Ok(st)
    } else {
        match legacy_fields(st, names, fields, (n - 1) as nat) {
            Ok(s) => match legacy_value(
                put_pretty(put(put(put_indent(s), fields[n - 1].0@), ":"@), " "@),
                names,
                fields[n - 1].1,
            ) {
                Ok(s2) => Ok(put_item_end(s2)),
                Err(m) => Err(m),
            },
            Err(m) => Err(m),
        }
    }
}

/// The first `n` bytes of a byte array, each an element of a sequence.
pub open spec fn legacy_bytes(st: PrettyText, bytes: Seq<u8>, n: nat) -> PrettyText
    decreases n,
{
    if n == 0 || n > bytes.len() {
        st
    } else {
        put_item_end(put(put_indent(legacy_bytes(st, bytes, (n - 1) as nat)), int_text(bytes[n - 1] as int)))
    }
}

/// The text of a value written on its own, without pretty-printing or struct names.
pub open spec fn legacy_text(v: Value) -> Result<Seq<char>, Seq<char>> {
    match legacy_value((None, Seq::empty()), false, v) {
        Ok(st) => Ok(st.1),
        Err(m) => Err(m),
    }
}


/// How many levels a value can add to the indentation: one for each sequence,
/// byte array, map, struct and tuple variant in it.
pub open spec fn nesting(v: Value) -> nat
    decreases v, 0nat,
{
    match v {
        Value::Bytes(_) => 1,
        Value::SomeValue(inner) => nesting(*inner),
        Value::NewtypeStruct(_, inner) => nesting(*inner),
        Value::NewtypeVariant(_, _, inner) => nesting(*inner),
        Value::Sequence(elems) => 1 + nesting_elems(elems@, elems@.len()),
        Value::Tuple(elems) => nesting_elems(elems@, elems@.len()),
        Value::TupleStruct(_, elems) => nesting_elems(elems@, elems@.len()),
        Value::TupleVariant(_, _, elems) => 1 + nesting_elems(elems@, elems@.len()),
        Value::MapEntries(entries) => 1 + nesting_entries(entries@, entries@.len()),
        Value::Struct(_, fields) => 1 + nesting_fields(fields@, fields@.len()),
        Value::StructVariant(_, _, fields) => 1 + nesting_fields(fields@, fields@.len()),
        _ => 0,
    }
}

/// The levels the first `n` elements can add.
pub open spec fn nesting_elems(elems: Seq<Value>, n: nat) -> nat
    decreases elems, n,
{
    if n == 0 || n > elems.len() {
        0
    } else {
        nesting_elems(elems, (n - 1) as nat) + nesting(elems[n - 1])
    }
}

/// The levels the first `n` entries can add.
pub open spec fn nesting_entries(entries: Seq<(Value, Value)>, n: nat) -> nat
    decreases entries, n,
{
    if n == 0 || n > entries.len() {
        0
    } else {
        nesting_entries(entries, (n - 1) as nat) + nesting(entries[n - 1].0) + nesting(entries[n - 1].1)
    }
}

/// The levels the first `n` fields can add.
pub open spec fn nesting_fields(fields: Seq<(String, Value)>, n: nat) -> nat
    decreases fields, n,
{
    if n == 0 || n > fields.len() {
        0
    } else {
        nesting_fields(fields, (n - 1) as nat) + nesting(fields[n - 1].1)
    }
}

/// The depth of indentation (zero when not pretty-printing).
pub open spec fn depth(st: PrettyText) -> nat {
    match st.0 {
        Some(i) => i,
        None => 0,
    }
}

/// Whether `extra` more levels of indentation still have their spaces counted in a `usize`.
pub open spec fn fits(st: PrettyText, extra: nat) -> bool {
    match st.0 {
        Some(i) => (i + extra) * 4 <= usize::MAX,
        None => true,
    }
}

proof fn lemma_nesting_elems_grows(elems: Seq<Value>, i: nat, n: nat)
    requires
        i <= n <= elems.len(),
    ensures
        nesting_elems(elems, i) <= nesting_elems(elems, n),
    decreases n - i,
{
    if i < n {
        lemma_nesting_elems_grows(elems, i, (n - 1) as nat);
    }
}

proof fn lemma_nesting_entries_grows(entries: Seq<(Value, Value)>, i: nat, n: nat)
    requires
        i <= n <= entries.len(),
    ensures
        nesting_entries(entries, i) <= nesting_entries(entries, n),
    decreases n - i,
{
    if i < n {
        lemma_nesting_entries_grows(entries, i, (n - 1) as nat);
    }
}

proof fn lemma_nesting_fields_grows(fields: Seq<(String, Value)>, i: nat, n: nat)
    requires
        i <= n <= fields.len(),
    ensures
        nesting_fields(fields, i) <= nesting_fields(fields, n),
    decreases n - i,
{
    if i < n {
        lemma_nesting_fields_grows(fields, i, (n - 1) as nat);
    }
}

/// Once a sequence's elements fail, the rest of them leave the failure as it is.
proof fn lemma_seq_elems_err(st: PrettyText, names: bool, elems: Seq<Value>, i: nat, n: nat)
    requires
        i <= n <= elems.len(),
        legacy_seq_elems(st, names, elems, i) is Err,
    ensures
        legacy_seq_elems(st, names, elems, n) == legacy_seq_elems(st, names, elems, i),
    decreases n - i,
{
    if i < n {
        lemma_seq_elems_err(st, names, elems, i, (n - 1) as nat);
    }
}

proof fn lemma_tuple_elems_err(st: PrettyText, names: bool, elems: Seq<Value>, i: nat, n: nat)
    requires
        i <= n <= elems.len(),
        legacy_tuple_elems(st, names, elems, i) is Err,
    ensures
        legacy_tuple_elems(st, names, elems, n) == legacy_tuple_elems(st, names, elems, i),
    decreases n - i,
{
    if i < n {
        lemma_tuple_elems_err(st, names, elems, i, (n - 1) as nat);
    }
}

proof fn lemma_entries_err(st: PrettyText, names: bool, entries: Seq<(Value, Value)>, i: nat, n: nat)
    requires
        i <= n <= entries.len(),
        legacy_entries(st, names, entries, i) is Err,
    ensures
        legacy_entries(st, names, entries, n) == legacy_entries(st, names, entries, i),
    decreases n - i,
{
    if i < n {
        lemma_entries_err(st, names, entries, i, (n - 1) as nat);
    }
}

proof fn lemma_fields_err(st: PrettyText, names: bool, fields: Seq<(String, Value)>, i: nat, n: nat)
    requires
        i <= n <= fields.len(),
        legacy_fields(st, names, fields, i) is Err,
    ensures
        legacy_fields(st, names, fields, n) == legacy_fields(st, names, fields, i),
    decreases n - i,
{
    if i < n {
        lemma_fields_err(st, names, fields, i, (n - 1) as nat);
    }
}

/// The indentation state when pretty-printing.
struct Pretty {
    indent: usize,
}

/// The serializer: the text written so far, the indentation when pretty-printing,
/// and whether struct names are written.
pub struct Serializer {
    output: String,
    pretty: Option<Pretty>,
    struct_names: bool,
}

/// Serializes `value` and returns it as a string, on one line, without struct
/// names; a value that holds a 128-bit integer is refused.
pub fn to_string(value: &Value) -> (r: Result<String, Error>)
    ensures
        match legacy_text(*value) {
            Ok(text) => r matches Ok(s) && s@ == text,
            Err(m) => r matches Err(e) && e.message() == m,
        },
{
    let mut s = Serializer { output: String::new(), pretty: None, struct_names: false };
    assert(s.text() == (Option::<nat>::None, Seq::<char>::empty()));
    match s.serialize(value) {
        Ok(()) => Ok(s.output),
        Err(e) => Err(e),
    }
}

impl Serializer {
    /// The indentation when pretty-printing, and the text written so far.
    spec fn text(&self) -> PrettyText {
        (
            match self.pretty {
                Some(p) => Some(p.indent as nat),
                None => None,
            },
            self.output@,
        )
    }

    fn write(&mut self, s: &str)
        ensures
            final(self).text() == put(old(self).text(), s@),
            final(self).struct_names == old(self).struct_names,
    {
        self.output.append(s);
    }

    fn write_pretty(&mut self, s: &str)
        ensures
            final(self).text() == put_pretty(old(self).text(), s@),
            final(self).struct_names == old(self).struct_names,
    {
        if self.pretty.is_some() {
            self.output.append(s);
        }
    }

    fn write_spaces(&mut self, n: usize)
        ensures
            final(self).output@ == old(self).output@ + spaces(n as nat),
            final(self).pretty == old(self).pretty,
            final(self).struct_names == old(self).struct_names,
    {
        let ghost base = self.output@;
        let mut k: usize = 0;
        while k < n
            invariant
                k <= n,
                self.output@ == base + spaces(k as nat),
                self.pretty == old(self).pretty,
                self.struct_names == old(self).struct_names,
            decreases n - k,
        {
            push_char(&mut self.output, ' ');
            assert(spaces(k as nat).push(' ') =~= spaces((k + 1) as nat));
            assert(base + spaces(k as nat).push(' ') =~= (base + spaces(k as nat)).push(' '));
            k = k + 1;
        }
    }

    fn start_indent(&mut self)
        requires
            fits(old(self).text(), 1),
        ensures
            final(self).text() == put_start_indent(old(self).text()),
            final(self).struct_names == old(self).struct_names,
    {
        if let Some(p) = &self.pretty {
            let i = p.indent;
            self.pretty = Some(Pretty { indent: i + 1 });
            self.output.append("\n");
        }
    }

    fn indent(&mut self)
        requires
            fits(old(self).text(), 0),
        ensures
            final(self).text() == put_indent(old(self).text()),
            final(self).struct_names == old(self).struct_names,
    {
        if let Some(p) = &self.pretty {
            let n = p.indent * 4;
            self.write_spaces(n);
        }
    }

    fn end_indent(&mut self)
        requires
            fits(old(self).text(), 0),
            old(self).text().0 is Some ==> depth(old(self).text()) >= 1,
        ensures
            final(self).text() == put_end_indent(old(self).text()),
            final(self).struct_names == old(self).struct_names,
    {
        if let Some(p) = &self.pretty {
            let i = p.indent - 1;
            self.pretty = Some(Pretty { indent: i });
            self.write_spaces(i * 4);
        }
    }
}


impl Serializer {
    fn serialize_bool(&mut self, v: bool)
        ensures
            final(self).text() == put(old(self).text(), if v { "true"@ } else { "false"@ }),
            final(self).struct_names == old(self).struct_names,
    {
        self.write(if v { "true" } else { "false" });
    }

    fn serialize_i64(&mut self, v: i64)
        ensures
            final(self).text() == put(old(self).text(), int_text(v as int)),
            final(self).struct_names == old(self).struct_names,
    {
        let t = i64_text(v);
        self.write(t.as_str());
    }

    fn serialize_u64(&mut self, v: u64)
        ensures
            final(self).text() == put(old(self).text(), int_text(v as int)),
            final(self).struct_names == old(self).struct_names,
    {
        let t = u64_text(v);
        self.write(t.as_str());
    }

    /// A float, written as its text.
    fn serialize_f64(&mut self, text: &String)
        ensures
            final(self).text() == put(old(self).text(), text@),
            final(self).struct_names == old(self).struct_names,
    {
        self.write(text.as_str());
    }

    fn serialize_char(&mut self, v: char)
        ensures
            final(self).text() == put(old(self).text(), char_text(v)),
            final(self).struct_names == old(self).struct_names,
    {
        let ghost st = self.text();
        self.write("'");
        if v == '\\' || v == '\'' {
            push_char(&mut self.output, '\\');
        }
        push_char(&mut self.output, v);
        self.write("'");
        proof {
            let esc = if v == '\\' || v == '\'' { "\\"@ } else { Seq::empty() };
            assert(st.1 + char_text(v) =~= st.1 + "'"@ + esc + seq![v] + "'"@);
            if v == '\\' || v == '\'' {
                reveal_strlit("\\");
                assert((st.1 + "'"@).push('\\') =~= st.1 + "'"@ + esc);
            } else {
                assert(st.1 + "'"@ =~= st.1 + "'"@ + esc);
            }
        }
    }

    fn serialize_str(&mut self, v: &str)
        ensures
            final(self).text() == put(put(put(old(self).text(), "\""@), escaped(v@)), "\""@),
            final(self).struct_names == old(self).struct_names,
    {
        self.write("\"");
        let ghost base = self.output@;
        for c in it: v.chars()
            invariant
                it.seq() == v@,
                self.output@ == base + escaped(v@.take(it.index() as int)),
                self.pretty == old(self).pretty,
                self.struct_names == old(self).struct_names,
        {
            let ghost before = self.output@;
            let ghost i = it.index();
            if c == '\\' || c == '"' {
                push_char(&mut self.output, '\\');
            }
            push_char(&mut self.output, c);
            proof {
                let p = v@.take(i + 1);
                assert(p.drop_last() =~= v@.take(i as int));
                assert(p.last() == c);
                if c == '\\' || c == '"' {
                    assert(before.push('\\').push(c) =~= before + escaped_char(c));
                } else {
                    assert(before.push(c) =~= before + escaped_char(c));
                }
                assert(base + escaped(p) =~= before + escaped_char(c));
            }
        }
        proof {
            assert(v@.take(v@.len() as int) =~= v@);
        }
        self.write("\"");
    }

    fn serialize_none(&mut self)
        ensures
            final(self).text() == put(old(self).text(), "None"@),
            final(self).struct_names == old(self).struct_names,
    {
        self.write("None");
    }

    fn serialize_unit(&mut self)
        ensures
            final(self).text() == put(old(self).text(), "()"@),
            final(self).struct_names == old(self).struct_names,
    {
        self.write("()");
    }

    fn serialize_unit_struct(&mut self, name: &str)
        ensures
            final(self).text() == (if old(self).struct_names {
                put(old(self).text(), name@)
            } else {
                put(old(self).text(), "()"@)
            }),
            final(self).struct_names == old(self).struct_names,
    {
        if self.struct_names {
            self.write(name);
        } else {
            self.serialize_unit();
        }
    }

    fn serialize_unit_variant(&mut self, variant: &str)
        ensures
            final(self).text() == put(old(self).text(), variant@),
            final(self).struct_names == old(self).struct_names,
    {
        self.write(variant);
    }

    /// The name of a struct, when struct names are written.
    fn write_name(&mut self, name: &str)
        ensures
            final(self).text() == put_name(old(self).text(), old(self).struct_names, name@),
            final(self).struct_names == old(self).struct_names,
    {
        if self.struct_names {
            self.write(name);
        }
    }
}

/// What a serialization step keeps of the serializer's state: the struct-name
/// setting, whether it pretty-prints, and an indentation that grew by at most `extra`.
pub open spec fn keeps(before: PrettyText, after: PrettyText, extra: nat) -> bool {
    &&& (after.0 is Some) == (before.0 is Some)
    &&& depth(before) <= depth(after) <= depth(before) + extra
}

/// An error step's outcome: the error carries the message of the failed outcome.
pub open spec fn fails_as(r: Result<(), Error>, o: Outcome) -> bool {
    match o {
        Ok(_) => false,
        Err(m) => r matches Err(e) && e.message() == m,
    }
}

impl Serializer {
    /// Writes a value.
    #[verifier::rlimit(100)]
    fn serialize(&mut self, v: &Value) -> (r: Result<(), Error>)
        requires
            fits(old(self).text(), nesting(*v)),
        ensures
            final(self).struct_names == old(self).struct_names,
            keeps(old(self).text(), final(self).text(), nesting(*v)),
            match legacy_value(old(self).text(), old(self).struct_names, *v) {
                Ok(st) => r is Ok && final(self).text() == st,
                Err(m) => r matches Err(e) && e.message() == m,
            },
        decreases v, 1nat,
    {
        match v {
            Value::Bool(b) => {
                self.serialize_bool(*b);
                Ok(())
            },
            Value::Int(i) => {
                self.serialize_i64(*i);
                Ok(())
            },
            Value::I128(_) => Err(Error::custom("i128 is not supported")),
            Value::Uint(u) => {
                self.serialize_u64(*u);
                Ok(())
            },
            Value::U128(_) => Err(Error::custom("u128 is not supported")),
            Value::Float(text) => {
                self.serialize_f64(text);
                Ok(())
            },
            Value::Char(c) => {
                self.serialize_char(*c);
                Ok(())
            },
            Value::Str(s) => {
                self.serialize_str(s.as_str());
                Ok(())
            },
            Value::Bytes(bytes) => {
                self.serialize_bytes(bytes);
                Ok(())
            },
            Value::NoneValue => {
                self.serialize_none();
                Ok(())
            },
            Value::SomeValue(inner) => {
                self.write("Some(");
                let r = self.serialize(inner);
                if r.is_err() {
                    return r;
                }
                self.write(")");
                Ok(())
            },
            Value::Unit => {
                self.serialize_unit();
                Ok(())
            },
            Value::UnitStruct(name) => {
                self.serialize_unit_struct(name.as_str());
                Ok(())
            },
            Value::UnitVariant(_, variant) => {
                self.serialize_unit_variant(variant.as_str());
                Ok(())
            },
            Value::NewtypeStruct(name, inner) => {
                self.write_name(name.as_str());
                self.write("(");
                let r = self.serialize(inner);
                if r.is_err() {
                    return r;
                }
                self.write(")");
                Ok(())
            },
            Value::NewtypeVariant(_, variant, inner) => {
                self.write(variant.as_str());
                self.write("(");
                let r = self.serialize(inner);
                if r.is_err() {
                    return r;
                }
                self.write(")");
                Ok(())
            },
            Value::Sequence(elems) => {
                self.write("[");
                self.start_indent();
                let r = self.serialize_seq_elements(elems);
                if r.is_err() {
                    return r;
                }
                self.end_indent();
                self.write("]");
                Ok(())
            },
            Value::Tuple(elems) => {
                self.write("(");
                let r = self.serialize_tuple_elements(elems);
                if r.is_err() {
                    return r;
                }
                self.end_tuple();
                Ok(())
            },
            Value::TupleStruct(name, elems) => {
                self.write_name(name.as_str());
                self.write("(");
                let r = self.serialize_tuple_elements(elems);
                if r.is_err() {
                    return r;
                }
                self.end_tuple();
                Ok(())
            },
            Value::TupleVariant(_, variant, elems) => {
                self.write(variant.as_str());
                self.write("(");
                self.start_indent();
                let r = self.serialize_tuple_elements(elems);
                if r.is_err() {
                    return r;
                }
                self.end_tuple();
                Ok(())
            },
            Value::MapEntries(entries) => {
                self.write("{");
                self.start_indent();
                let r = self.serialize_entries(entries);
                if r.is_err() {
                    return r;
                }
                self.end_indent();
                self.write("}");
                Ok(())
            },
            Value::Struct(name, fields) => {
                self.write_name(name.as_str());
                self.write("{");
                self.start_indent();
                let r = self.serialize_fields(fields);
                if r.is_err() {
                    return r;
                }
                self.end_indent();
                self.write("}");
                Ok(())
            },
            Value::StructVariant(_, variant, fields) => {
                self.write(variant.as_str());
                self.write("{");
                self.start_indent();
                let r = self.serialize_fields(fields);
                if r.is_err() {
                    return r;
                }
                self.end_indent();
                self.write("}");
                Ok(())
            },
        }
    }

    /// The end of a tuple: the last `, ` taken back when pretty-printing, then `)`.
    fn end_tuple(&mut self)
        ensures
            final(self).text() == put_tuple_end(old(self).text()),
            final(self).struct_names == old(self).struct_names,
    {
        if self.pretty.is_some() {
            let n = self.output.as_str().unicode_len();
            let keep = if n >= 2 { n - 2 } else { 0 };
            let kept = owned(self.output.as_str().substring_char(0, keep));
            proof {
                let s = self.output@;
                if n >= 2 {
                    assert(s.subrange(0, keep as int) =~= s.drop_last().drop_last());
                } else if n == 1 {
                    assert(s.subrange(0, 0) =~= s.drop_last());
                    assert(s.drop_last().len() == 0);
                } else {
                    assert(s.subrange(0, 0) =~= s);
                }
            }
            self.output = kept;
        }
        self.write(")");
    }

    /// Writes bytes as the elements of a sequence.
    fn serialize_bytes(&mut self, bytes: &Vec<u8>)
        requires
            fits(old(self).text(), 1),
        ensures
            final(self).struct_names == old(self).struct_names,
            final(self).text().0 == old(self).text().0,
            final(self).text() == put(
                put_end_indent(legacy_bytes(put_start_indent(put(old(self).text(), "["@)), bytes@, bytes@.len())),
                "]"@,
            ),
    {
        self.write("[");
        self.start_indent();
        let ghost st0 = self.text();
        let mut i: usize = 0;
        while i < bytes.len()
            invariant
                i <= bytes@.len(),
                self.text() == legacy_bytes(st0, bytes@, i as nat),
                self.text().0 == st0.0,
                fits(st0, 0),
                st0.0 is Some ==> depth(st0) >= 1,
                self.struct_names == old(self).struct_names,
            decreases bytes@.len() - i,
        {
            self.indent();
            self.serialize_u64(bytes[i] as u64);
            self.write(",");
            self.write_pretty("\n");
            i = i + 1;
        }
        self.end_indent();
        self.write("]");
    }

    /// Writes the elements of a sequence, each on its own line when pretty-printing.
    fn serialize_seq_elements(&mut self, elems: &Vec<Value>) -> (r: Result<(), Error>)
        requires
            fits(old(self).text(), nesting_elems(elems@, elems@.len())),
        ensures
            final(self).struct_names == old(self).struct_names,
            keeps(old(self).text(), final(self).text(), nesting_elems(elems@, elems@.len())),
            match legacy_seq_elems(old(self).text(), old(self).struct_names, elems@, elems@.len()) {
                Ok(st) => r is Ok && final(self).text() == st,
                Err(m) => r matches Err(e) && e.message() == m,
            },
        decreases elems, 2nat,
    {
        let ghost st0 = self.text();
        let ghost names = self.struct_names;
        let ghost total = nesting_elems(elems@, elems@.len());
        let mut i: usize = 0;
        while i < elems.len()
            invariant
                i <= elems@.len(),
                self.struct_names == names,
                names == old(self).struct_names,
                st0 == old(self).text(),
                fits(st0, total),
                total == nesting_elems(elems@, elems@.len()),
                keeps(st0, self.text(), nesting_elems(elems@, i as nat)),
                legacy_seq_elems(st0, names, elems@, i as nat) == Ok::<PrettyText, Seq<char>>(self.text()),
            decreases elems@.len() - i,
        {
            proof {
                assert(decreases_to!(elems => elems@[i as int]));
                lemma_nesting_elems_grows(elems@, (i + 1) as nat, elems@.len());
            }
            self.indent();
            let r = self.serialize(&elems[i]);
            if r.is_err() {
                proof {
                    lemma_seq_elems_err(st0, names, elems@, (i + 1) as nat, elems@.len());
                }
                return r;
            }
            self.write(",");
            self.write_pretty("\n");
            i = i + 1;
        }
        Ok(())
    }

    /// Writes the elements of a tuple, each followed by a comma.
    fn serialize_tuple_elements(&mut self, elems: &Vec<Value>) -> (r: Result<(), Error>)
        requires
            fits(old(self).text(), nesting_elems(elems@, elems@.len())),
        ensures
            final(self).struct_names == old(self).struct_names,
            keeps(old(self).text(), final(self).text(), nesting_elems(elems@, elems@.len())),
            match legacy_tuple_elems(old(self).text(), old(self).struct_names, elems@, elems@.len()) {
                Ok(st) => r is Ok && final(self).text() == st,
                Err(m) => r matches Err(e) && e.message() == m,
            },
        decreases elems, 2nat,
    {
        let ghost st0 = self.text();
        let ghost names = self.struct_names;
        let ghost total = nesting_elems(elems@, elems@.len());
        let mut i: usize = 0;
        while i < elems.len()
            invariant
                i <= elems@.len(),
                self.struct_names == names,
                names == old(self).struct_names,
                st0 == old(self).text(),
                fits(st0, total),
                total == nesting_elems(elems@, elems@.len()),
                keeps(st0, self.text(), nesting_elems(elems@, i as nat)),
                legacy_tuple_elems(st0, names, elems@, i as nat) == Ok::<PrettyText, Seq<char>>(self.text()),
            decreases elems@.len() - i,
        {
            proof {
                assert(decreases_to!(elems => elems@[i as int]));
                lemma_nesting_elems_grows(elems@, (i + 1) as nat, elems@.len());
            }
            let r = self.serialize(&elems[i]);
            if r.is_err() {
                proof {
                    lemma_tuple_elems_err(st0, names, elems@, (i + 1) as nat, elems@.len());
                }
                return r;
            }
            self.write(",");
            self.write_pretty(" ");
            i = i + 1;
        }
        Ok(())
    }

    /// Writes the entries of a map: key, colon, value, comma.
    fn serialize_entries(&mut self, entries: &Vec<(Value, Value)>) -> (r: Result<(), Error>)
        requires
            fits(old(self).text(), nesting_entries(entries@, entries@.len())),
        ensures
            final(self).struct_names == old(self).struct_names,
            keeps(old(self).text(), final(self).text(), nesting_entries(entries@, entries@.len())),
            match legacy_entries(old(self).text(), old(self).struct_names, entries@, entries@.len()) {
                Ok(st) => r is Ok && final(self).text() == st,
                Err(m) => r matches Err(e) && e.message() == m,
            },
        decreases entries, 2nat,
    {
        let ghost st0 = self.text();
        let ghost names = self.struct_names;
        let ghost total = nesting_entries(entries@, entries@.len());
        let mut i: usize = 0;
        while i < entries.len()
            invariant
                i <= entries@.len(),
                self.struct_names == names,
                names == old(self).struct_names,
                st0 == old(self).text(),
                fits(st0, total),
                total == nesting_entries(entries@, entries@.len()),
                keeps(st0, self.text(), nesting_entries(entries@, i as nat)),
                legacy_entries(st0, names, entries@, i as nat) == Ok::<PrettyText, Seq<char>>(self.text()),
            decreases entries@.len() - i,
        {
            proof {
                assert(decreases_to!(entries => entries@[i as int]));
                assert(decreases_to!(entries@[i as int] => entries@[i as int].0));
                assert(decreases_to!(entries@[i as int] => entries@[i as int].1));
                lemma_nesting_entries_grows(entries@, (i + 1) as nat, entries@.len());
            }
            self.indent();
            let r = self.serialize(&entries[i].0);
            if r.is_err() {
                proof {
                    lemma_entries_err(st0, names, entries@, (i + 1) as nat, entries@.len());
                }
                return r;
            }
            self.write(":");
            self.write_pretty(" ");
            let r = self.serialize(&entries[i].1);
            if r.is_err() {
                proof {
                    lemma_entries_err(st0, names, entries@, (i + 1) as nat, entries@.len());
                }
                return r;
            }
            self.write(",");
            self.write_pretty("\n");
            i = i + 1;
        }
        Ok(())
    }

    /// Writes the fields of a struct: name, colon, value, comma.
    fn serialize_fields(&mut self, fields: &Vec<(String, Value)>) -> (r: Result<(), Error>)
        requires
            fits(old(self).text(), nesting_fields(fields@, fields@.len())),
        ensures
            final(self).struct_names == old(self).struct_names,
            keeps(old(self).text(), final(self).text(), nesting_fields(fields@, fields@.len())),
            match legacy_fields(old(self).text(), old(self).struct_names, fields@, fields@.len()) {
                Ok(st) => r is Ok && final(self).text() == st,
                Err(m) => r matches Err(e) && e.message() == m,
            },
        decreases fields, 2nat,
    {
        let ghost st0 = self.text();
        let ghost names = self.struct_names;
        let ghost total = nesting_fields(fields@, fields@.len());
        let mut i: usize = 0;
        while i < fields.len()
            invariant
                i <= fields@.len(),
                self.struct_names == names,
                names == old(self).struct_names,
                st0 == old(self).text(),
                fits(st0, total),
                total == nesting_fields(fields@, fields@.len()),
                keeps(st0, self.text(), nesting_fields(fields@, i as nat)),
                legacy_fields(st0, names, fields@, i as nat) == Ok::<PrettyText, Seq<char>>(self.text()),
            decreases fields@.len() - i,
        {
            proof {
                assert(decreases_to!(fields => fields@[i as int]));
                assert(decreases_to!(fields@[i as int] => fields@[i as int].1));
                lemma_nesting_fields_grows(fields@, (i + 1) as nat, fields@.len());
            }
            self.indent();
            self.write(fields[i].0.as_str());
            self.write(":");
            self.write_pretty(" ");
            let r = self.serialize(&fields[i].1);
            if r.is_err() {
                proof {
                    lemma_fields_err(st0, names, fields@, (i + 1) as nat, fields@.len());
                }
                return r;
            }
            self.write(",");
            self.write_pretty("\n");
            i = i + 1;
        }
        Ok(())
    }
}

/// Whether a value holds no 128-bit integer, which this serializer cannot write.
pub open spec fn holds_no_wide_int(v: Value) -> bool
    decreases v, 0nat,
{
    match v {
        Value::I128(_) => false,
        Value::U128(_) => false,
        Value::SomeValue(inner) => holds_no_wide_int(*inner),
        Value::NewtypeStruct(_, inner) => holds_no_wide_int(*inner),
        Value::NewtypeVariant(_, _, inner) => holds_no_wide_int(*inner),
        Value::Sequence(elems) => elems_hold_no_wide_int(elems@, elems@.len()),
        Value::Tuple(elems) => elems_hold_no_wide_int(elems@, elems@.len()),
        Value::TupleStruct(_, elems) => elems_hold_no_wide_int(elems@, elems@.len()),
        Value::TupleVariant(_, _, elems) => elems_hold_no_wide_int(elems@, elems@.len()),
        Value::MapEntries(entries) => entries_hold_no_wide_int(entries@, entries@.len()),
        Value::Struct(_, fields) => fields_hold_no_wide_int(fields@, fields@.len()),
        Value::StructVariant(_, _, fields) => fields_hold_no_wide_int(fields@, fields@.len()),
        _ => true,
    }
}

/// Whether the first `n` elements hold no 128-bit integer.
pub open spec fn elems_hold_no_wide_int(elems: Seq<Value>, n: nat) -> bool
    decreases elems, n,
{
    if n == 0 || n > elems.len() {
        true
    } else {
        elems_hold_no_wide_int(elems, (n - 1) as nat) && holds_no_wide_int(elems[n - 1])
    }
}

/// Whether the first `n` entries hold no 128-bit integer.
pub open spec fn entries_hold_no_wide_int(entries: Seq<(Value, Value)>, n: nat) -> bool
    decreases entries, n,
{
    if n == 0 || n > entries.len() {
        true
    } else {
        entries_hold_no_wide_int(entries, (n - 1) as nat) && holds_no_wide_int(entries[n - 1].0)
            && holds_no_wide_int(entries[n - 1].1)
    }
}

/// Whether the first `n` fields hold no 128-bit integer.
pub open spec fn fields_hold_no_wide_int(fields: Seq<(String, Value)>, n: nat) -> bool
    decreases fields, n,
{
    if n == 0 || n > fields.len() {
        true
    } else {
        fields_hold_no_wide_int(fields, (n - 1) as nat) && holds_no_wide_int(fields[n - 1].1)
    }
}

/// A value is written exactly when it holds no 128-bit integer, whatever was
/// written before it and however it is printed.
pub proof fn lemma_written_iff_no_wide_int(st: PrettyText, names: bool, v: Value)
    ensures
        (legacy_value(st, names, v) is Ok) == holds_no_wide_int(v),
    decreases v, 0nat,
{
    match v {
        Value::SomeValue(inner) => {
            lemma_written_iff_no_wide_int(put(st, "Some("@), names, *inner);
        },
        Value::NewtypeStruct(name, inner) => {
            lemma_written_iff_no_wide_int(put(put_name(st, names, name@), "("@), names, *inner);
        },
        Value::NewtypeVariant(_, variant, inner) => {
            lemma_written_iff_no_wide_int(put(put(st, variant@), "("@), names, *inner);
        },
        Value::Sequence(elems) => {
            lemma_seq_written(put_start_indent(put(st, "["@)), names, elems@, elems@.len());
        },
        Value::Tuple(elems) => {
            lemma_tuple_written(put(st, "("@), names, elems@, elems@.len());
        },
        Value::TupleStruct(name, elems) => {
            lemma_tuple_written(put(put_name(st, names, name@), "("@), names, elems@, elems@.len());
        },
        Value::TupleVariant(_, variant, elems) => {
            lemma_tuple_written(put_start_indent(put(put(st, variant@), "("@)), names, elems@, elems@.len());
        },
        Value::MapEntries(entries) => {
            lemma_entries_written(put_start_indent(put(st, "{"@)), names, entries@, entries@.len());
        },
        Value::Struct(name, fields) => {
            lemma_fields_written(put_start_indent(put(put_name(st, names, name@), "{"@)), names, fields@, fields@.len());
        },
        Value::StructVariant(_, variant, fields) => {
            lemma_fields_written(put_start_indent(put(put(st, variant@), "{"@)), names, fields@, fields@.len());
        },
        _ => {},
    }
}

proof fn lemma_seq_written(st: PrettyText, names: bool, elems: Seq<Value>, n: nat)
    ensures
        (legacy_seq_elems(st, names, elems, n) is Ok) == elems_hold_no_wide_int(elems, n),
    decreases elems, n,
{
    if n > 0 && n <= elems.len() {
        let k = (n - 1) as nat;
        lemma_seq_written(st, names, elems, k);
        if let Ok(s) = legacy_seq_elems(st, names, elems, k) {
            lemma_written_iff_no_wide_int(put_indent(s), names, elems[k as int]);
        }
    }
}

proof fn lemma_tuple_written(st: PrettyText, names: bool, elems: Seq<Value>, n: nat)
    ensures
        (legacy_tuple_elems(st, names, elems, n) is Ok) == elems_hold_no_wide_int(elems, n),
    decreases elems, n,
{
    if n > 0 && n <= elems.len() {
        let k = (n - 1) as nat;
        lemma_tuple_written(st, names, elems, k);
        if let Ok(s) = legacy_tuple_elems(st, names, elems, k) {
            lemma_written_iff_no_wide_int(s, names, elems[k as int]);
        }
    }
}

proof fn lemma_entries_written(st: PrettyText, names: bool, entries: Seq<(Value, Value)>, n: nat)
    ensures
        (legacy_entries(st, names, entries, n) is Ok) == entries_hold_no_wide_int(entries, n),
    decreases entries, n,
{
    if n > 0 && n <= entries.len() {
        let k = (n - 1) as nat;
        lemma_entries_written(st, names, entries, k);
        if let Ok(s) = legacy_entries(st, names, entries, k) {
            lemma_written_iff_no_wide_int(put_indent(s), names, entries[k as int].0);
            if let Ok(s2) = legacy_value(put_indent(s), names, entries[k as int].0) {
                lemma_written_iff_no_wide_int(put_pretty(put(s2, ":"@), " "@), names, entries[k as int].1);
            }
        }
    }
}

proof fn lemma_fields_written(st: PrettyText, names: bool, fields: Seq<(String, Value)>, n: nat)
    ensures
        (legacy_fields(st, names, fields, n) is Ok) == fields_hold_no_wide_int(fields, n),
    decreases fields, n,
{
    if n > 0 && n <= fields.len() {
        let k = (n - 1) as nat;
        lemma_fields_written(st, names, fields, k);
        if let Ok(s) = legacy_fields(st, names, fields, k) {
            lemma_written_iff_no_wide_int(
                put_pretty(put(put(put_indent(s), fields[k as int].0@), ":"@), " "@),
                names,
                fields[k as int].1,
            );
        }
    }
}
} // verus!
