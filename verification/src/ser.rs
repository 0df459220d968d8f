//! Serialization of values into text.

pub mod error;
pub mod formatter;
pub mod value;

use vstd::prelude::*;
use vstd::string::*;

use self::error::{RsonSerError, RsonSerResult};
use self::formatter::{lemma_pretty_step, step, CompactFormatter, FormatStep, Formatter, PrettyFormatter};
use self::value::Value;
use crate::text::{debug_char_text, debug_str_text, int_text};

verus! {

/// A place inside a serialized value: the path of element indices, map keys
/// (with `:` for the value of an entry) and field names leading to it.
pub type Location = Seq<Seq<char>>;

/// Variables: each location whose value is written as a variable name instead.
pub type VarTable = Seq<(Location, Seq<char>)>;

/// The serializer's state as far as the text goes: the formatter and the text written.
pub type TextState<F> = (F, Seq<char>);

/// The variable recorded for `loc`, searching the table from index `i`.
pub open spec fn lookup_from(vars: VarTable, loc: Location, i: nat) -> Option<Seq<char>>
    decreases vars.len() - i,
{
    if i >= vars.len() {
        None
    } else if vars[i as int].0 == loc {
        Some(vars[i as int].1)
    } else {
        lookup_from(vars, loc, i + 1)
    }
}

/// The variable recorded for `loc`, if any.
pub open spec fn lookup_var(vars: VarTable, loc: Location) -> Option<Seq<char>> {
    lookup_from(vars, loc, 0)
}

/// Whether `p` is a prefix of `s`.
pub open spec fn is_prefix(p: Location, s: Location) -> bool {
    p.len() <= s.len() && s.subrange(0, p.len() as int) == p
}

/// The location of the rest (`..`) of a struct at `loc`.
pub open spec fn rest_location(loc: Location) -> Location {
    loc.push(".."@)
}

/// The fields to leave out of a struct at `loc`, and the variable holding the
/// rest, from the first variable whose location lies under `loc` followed by `..`.
pub open spec fn skip_from(vars: VarTable, loc: Location, i: nat) -> (Location, Option<Seq<char>>)
    decreases vars.len() - i,
{
    if i >= vars.len() {
        (Seq::empty(), None)
    } else if is_prefix(rest_location(loc), vars[i as int].0) {
        (
            vars[i as int].0.skip(loc.len() + 1int),
            if vars[i as int].1.len() == 0 { None } else { Some(vars[i as int].1) },
        )
    } else {
        skip_from(vars, loc, i + 1)
    }
}

/// The fields to leave out of a struct at `loc`, and the variable that stands for them.
pub open spec fn fields_to_skip(vars: VarTable, loc: Location) -> (Location, Option<Seq<char>>) {
    skip_from(vars, loc, 0)
}

/// The state after the formatter handles `event`.
pub open spec fn emit<F: Formatter>(st: TextState<F>, event: FormatStep) -> TextState<F> {
    step(st.0, st.1, event)
}

/// The state after writing `text` as it is, without the formatter.
pub open spec fn raw<F>(st: TextState<F>, text: Seq<char>) -> TextState<F> {
    (st.0, st.1 + text)
}

/// The text of a value written on its own by a compact serializer without variables.
pub open spec fn compact_text(v: Value) -> Seq<char>
    decreases v, 2nat,
{
    ser_value::<CompactFormatter>((CompactFormatter, Seq::empty()), Seq::empty(), Seq::empty(), v).1
}

/// Writes the value at `loc`: its variable when one is recorded there, the value otherwise.
pub open spec fn ser_at<F: Formatter>(st: TextState<F>, loc: Location, vars: VarTable, v: Value) -> TextState<F>
    decreases v, 1nat,
{
    match lookup_var(vars, loc) {
        Some(name) => raw(st, name),
        None => ser_value(st, loc, vars, v),
    }
}

/// The first `n` elements of a sequence or tuple at `loc`.
pub open spec fn ser_elems<F: Formatter>(
    st: TextState<F>,
    loc: Location,
    vars: VarTable,
    elems: Seq<Value>,
    n: nat,
) -> TextState<F>
    decreases elems, n,
{
    if n == 0 || n > elems.len() {
        st
    } else {
        let i = (n - 1) as nat;
        let before = ser_elems(st, loc, vars, elems, i);
        let s1 = emit(before, FormatStep::BeginArrayValue(i == 0));
        let s2 = ser_at(s1, loc.push(int_text(i as int)), vars, elems[i as int]);
        emit(s2, FormatStep::EndArrayValue)
    }
}

/// The first `n` entries of a map at `loc`.
pub open spec fn ser_entries<F: Formatter>(
    st: TextState<F>,
    loc: Location,
    vars: VarTable,
    entries: Seq<(Value, Value)>,
    n: nat,
) -> TextState<F>
    decreases entries, n,
{
    if n == 0 || n > entries.len() {
        st
    } else {
        let i = (n - 1) as nat;
        let before = ser_entries(st, loc, vars, entries, i);
        let key = entries[i as int].0;
        let key_loc = loc.push(compact_text(key));
        let s1 = emit(before, FormatStep::BeginStructKey(i == 0));
        let s2 = ser_at(s1, key_loc, vars, key);
        let s3 = emit(s2, FormatStep::EndStructKey);
        let s4 = emit(s3, FormatStep::BeginStructValue);
        let s5 = ser_at(s4, key_loc.push(":"@), vars, entries[i as int].1);
        emit(s5, FormatStep::EndStructValue)
    }
}

/// How many of the first `n` fields are written, the others being left out.
pub open spec fn written_fields(fields: Seq<(String, Value)>, skip: Location, n: nat) -> nat
    decreases n,
{
    if n == 0 || n > fields.len() {
        0
    } else {
        let i = (n - 1) as nat;
        written_fields(fields, skip, i) + if skip.contains(fields[i as int].0@) { 0nat } else { 1nat }
    }
}

/// The first `n` fields of a struct at `loc`, leaving out those named in `skip`.
pub open spec fn ser_fields<F: Formatter>(
    st: TextState<F>,
    loc: Location,
    vars: VarTable,
    fields: Seq<(String, Value)>,
    skip: Location,
    n: nat,
) -> TextState<F>
    decreases fields, n,
{
    if n == 0 || n > fields.len() {
        st
    } else {
        let i = (n - 1) as nat;
        let before = ser_fields(st, loc, vars, fields, skip, i);
        let name = fields[i as int].0@;
        if skip.contains(name) {
            before
        } else {
            let field_loc = loc.push(name);
            let s1 = emit(before, FormatStep::BeginStructKey(written_fields(fields, skip, i) == 0));
            let s2 = if lookup_var(vars, field_loc) == Some(name) {
                s1
            } else {
                emit(emit(raw(s1, name), FormatStep::EndStructKey), FormatStep::BeginStructValue)
            };
            let s3 = ser_at(s2, field_loc, vars, fields[i as int].1);
            emit(s3, FormatStep::EndStructValue)
        }
    }
}

/// The body of a struct at `loc`: its fields between braces, with the rest marker
/// when some fields are left out.
pub open spec fn ser_struct_body<F: Formatter>(
    st: TextState<F>,
    loc: Location,
    vars: VarTable,
    fields: Seq<(String, Value)>,
) -> TextState<F>
    decreases fields, fields.len() + 1,
{
    let (skip, rest) = fields_to_skip(vars, loc);
    let s1 = emit(st, FormatStep::BeginStruct);
    let s2 = ser_fields(s1, loc, vars, fields, skip, fields.len());
    let written = written_fields(fields, skip, fields.len());
    let s3 = if skip.len() != 0 {
        emit(
            s2,
            FormatStep::RestStruct(
                written == 0,
                match rest {
                    Some(r) => r,
                    None => Seq::empty(),
                },
            ),
        )
    } else {
        s2
    };
    emit(s3, FormatStep::EndStruct)
}

/// Bytes as an array of numbers.
pub open spec fn ser_bytes<F: Formatter>(st: TextState<F>, bytes: Seq<u8>, n: nat) -> TextState<F>
    decreases n,
{
    if n == 0 || n > bytes.len() {
        st
    } else {
        let i = (n - 1) as nat;
        let s1 = emit(ser_bytes(st, bytes, i), FormatStep::BeginArrayValue(i == 0));
        let s2 = emit(s1, FormatStep::WriteUint(bytes[i as int] as u64));
        emit(s2, FormatStep::EndArrayValue)
    }
}

/// Writes a value at `loc`; variables are looked up for its elements, entries and
/// fields, not for the value itself.
pub open spec fn ser_value<F: Formatter>(st: TextState<F>, loc: Location, vars: VarTable, v: Value) -> TextState<F>
    decreases v, 0nat,
{
    match v {
        Value::Bool(b) => emit(st, FormatStep::WriteBool(b)),
        Value::Int(i) => emit(st, FormatStep::WriteInt(i)),
        Value::I128(i) => emit(st, FormatStep::WriteI128(i)),
        Value::Uint(u) => emit(st, FormatStep::WriteUint(u)),
        Value::U128(u) => emit(st, FormatStep::WriteU128(u)),
        Value::Float(text) => emit(st, FormatStep::WriteRaw(text@)),
        Value::Char(c) => raw(st, debug_char_text(c)),
        Value::Str(s) => emit(
            raw(emit(st, FormatStep::BeforeBeginString), debug_str_text(s@)),
            FormatStep::AfterEndString,
        ),
        Value::Bytes(bytes) => emit(
            ser_bytes(emit(st, FormatStep::BeginArray), bytes@, bytes@.len()),
            FormatStep::EndArray,
        ),
        Value::NoneValue => emit(st, FormatStep::WriteNone),
        Value::SomeValue(inner) => emit(
            ser_value(emit(st, FormatStep::BeginSome), loc, vars, *inner),
            FormatStep::EndSome,
        ),
        Value::Unit => emit(st, FormatStep::WriteUnit),
        Value::UnitStruct(name) => raw(st, name@),
        Value::UnitVariant(name, variant) => emit(st, FormatStep::WriteVariantName(name@, variant@)),
        Value::NewtypeStruct(name, inner) => emit(
            ser_value(emit(raw(st, name@), FormatStep::BeginTuple), loc, vars, *inner),
            FormatStep::EndTuple,
        ),
        Value::NewtypeVariant(name, variant, inner) => emit(
            ser_value(
                emit(emit(st, FormatStep::WriteVariantName(name@, variant@)), FormatStep::BeginTuple),
                loc,
                vars,
                *inner,
            ),
            FormatStep::EndTuple,
        ),
        Value::Sequence(elems) => emit(
            ser_elems(emit(st, FormatStep::BeginArray), loc, vars, elems@, elems@.len()),
            FormatStep::EndArray,
        ),
        Value::Tuple(elems) => emit(
            ser_elems(emit(st, FormatStep::BeginTuple), loc, vars, elems@, elems@.len()),
            FormatStep::EndTuple,
        ),
        Value::TupleStruct(name, elems) => emit(
            ser_elems(emit(raw(st, name@), FormatStep::BeginTuple), loc, vars, elems@, elems@.len()),
            FormatStep::EndTuple,
        ),
        Value::TupleVariant(name, variant, elems) => emit(
            ser_elems(
                emit(emit(st, FormatStep::WriteVariantName(name@, variant@)), FormatStep::BeginTuple),
                loc,
                vars,
                elems@,
                elems@.len(),
            ),
            FormatStep::EndTuple,
        ),
        Value::MapEntries(entries) => emit(
            ser_entries(
                emit(emit(st, FormatStep::BeforeBeginMap), FormatStep::BeginStruct),
                loc,
                vars,
                entries@,
                entries@.len(),
            ),
            FormatStep::EndStruct,
        ),
        Value::Struct(name, fields) => ser_struct_body(
            emit(st, FormatStep::BeforeBeginStruct(name@)),
            loc,
            vars,
            fields@,
        ),
        Value::StructVariant(name, variant, fields) => ser_struct_body(
            emit(
                emit(st, FormatStep::WriteVariantName(name@, variant@)),
                FormatStep::BeforeBeginStruct(Seq::empty()),
            ),
            loc,
            vars,
            fields@,
        ),
    }
}


/// The texts of a sequence of strings.
pub open spec fn str_views(v: Seq<String>) -> Seq<Seq<char>> {
    v.map_values(|s: String| s@)
}

/// The variable table held by a sequence of (location, variable) pairs.
pub open spec fn var_views(vars: Seq<(Vec<String>, String)>) -> VarTable {
    vars.map_values(|e: (Vec<String>, String)| (str_views(e.0@), e.1@))
}

/// The texts of a sequence grown by one string end with that string's text.
pub proof fn lemma_str_views_push(v: Seq<String>, s: String)
    ensures
        str_views(v.push(s)) == str_views(v).push(s@),
{
    assert(str_views(v.push(s)) =~= str_views(v).push(s@));
}

/// The texts of a sequence shortened by one string.
pub proof fn lemma_str_views_drop_last(v: Seq<String>)
    requires
        v.len() > 0,
    ensures
        str_views(v.drop_last()) == str_views(v).drop_last(),
{
    assert(str_views(v.drop_last()) =~= str_views(v).drop_last());
}

/// Whether the two string vectors hold the same texts.
fn same_strings(a: &Vec<String>, b: &Vec<String>) -> (r: bool)
    ensures
        r == (str_views(a@) == str_views(b@)),
{
    if a.len() != b.len() {
        proof {
            assert(str_views(a@).len() != str_views(b@).len());
        }
        return false;
    }
    let mut i: usize = 0;
    while i < a.len()
        invariant
            a.len() == b.len(),
            i <= a.len(),
            forall|j: int| 0 <= j < i ==> a@[j]@ == b@[j]@,
        decreases a.len() - i,
    {
        if a[i] != b[i] {
            proof {
                assert(str_views(a@)[i as int] != str_views(b@)[i as int]);
            }
            return false;
        }
        i = i + 1;
    }
    proof {
        assert(str_views(a@) =~= str_views(b@));
    }
    true
}

/// Whether `s` starts with the texts of `p`.
fn starts_with(s: &Vec<String>, p: &Vec<String>) -> (r: bool)
    ensures
        r == is_prefix(str_views(p@), str_views(s@)),
{
    if p.len() > s.len() {
        return false;
    }
    let mut i: usize = 0;
    while i < p.len()
        invariant
            p.len() <= s.len(),
            i <= p.len(),
            forall|j: int| 0 <= j < i ==> s@[j]@ == p@[j]@,
        decreases p.len() - i,
    {
        if s[i] != p[i] {
            proof {
                assert(str_views(s@).subrange(0, p.len() as int)[i as int] != str_views(p@)[i as int]);
            }
            return false;
        }
        i = i + 1;
    }
    proof {
        assert(str_views(s@).subrange(0, p.len() as int) =~= str_views(p@));
    }
    true
}


/// Writes values as text, replacing the values at some locations by variable names.
pub struct RsonSerializer<F> {
    writer: String,
    formatter: F,
    vars: Vec<(Vec<String>, String)>,
    current_location: Vec<String>,
}

impl<F> RsonSerializer<F> {
    /// The text written so far.
    pub closed spec fn output(&self) -> Seq<char> {
        self.writer@
    }

    /// The formatter's state.
    pub closed spec fn formatter_state(&self) -> F {
        self.formatter
    }

    /// The formatter's state and the text written so far.
    pub open spec fn text_state(&self) -> TextState<F> {
        (self.formatter_state(), self.output())
    }

    /// The variables, in the order they were added.
    pub closed spec fn var_table(&self) -> VarTable {
        var_views(self.vars@)
    }

    /// Where in the value the serializer currently is.
    pub closed spec fn location(&self) -> Location {
        str_views(self.current_location@)
    }
}

impl RsonSerializer<CompactFormatter> {
    /// A serializer with the compact formatter and no variables.
    pub fn new() -> (s: Self)
        ensures
            s.output() == Seq::<char>::empty(),
            s.var_table() == Seq::<(Location, Seq<char>)>::empty(),
            s.location() == Seq::<Seq<char>>::empty(),
    {
        RsonSerializer::with_formatter(CompactFormatter)
    }
}

impl<'a> RsonSerializer<PrettyFormatter<'a>> {
    /// A serializer with the pretty formatter and no variables.
    pub fn pretty() -> (s: Self)
        ensures
            s.output() == Seq::<char>::empty(),
            s.formatter_state().depth() == 0,
            s.formatter_state().indent_unit() == "    "@,
            !s.formatter_state().has_written_value(),
            !s.formatter_state().writes_explicit_some(),
            s.formatter_state().writes_full_variant_name(),
            s.formatter_state().writes_trailing_comma(),
            s.var_table() == Seq::<(Location, Seq<char>)>::empty(),
            s.location() == Seq::<Seq<char>>::empty(),
    {
        RsonSerializer::with_formatter(PrettyFormatter::new())
    }
}

impl<F: Formatter> RsonSerializer<F> {
    /// A serializer with the given formatter and no variables.
    pub fn with_formatter(formatter: F) -> (s: Self)
        ensures
            s.output() == Seq::<char>::empty(),
            s.formatter_state() == formatter,
            s.var_table() == Seq::<(Location, Seq<char>)>::empty(),
            s.location() == Seq::<Seq<char>>::empty(),
    {
        let s = RsonSerializer {
            writer: String::new(),
            formatter,
            vars: Vec::new(),
            current_location: Vec::new(),
        };
        proof {
            assert(s.var_table() =~= Seq::<(Location, Seq<char>)>::empty());
            assert(s.location() =~= Seq::<Seq<char>>::empty());
        }
        s
    }

    /// The text written so far.
    pub fn into_inner(self) -> (text: String)
        ensures
            text@ == self.output(),
    {
        self.writer
    }

    /// Writes the start of a `let` statement for `var_name`.
    pub fn begin_let(&mut self, var_name: &str) -> (r: RsonSerResult<()>)
        ensures
            r is Ok,
            final(self).text_state() == emit(old(self).text_state(), FormatStep::BeginLet(var_name@)),
            final(self).var_table() == old(self).var_table(),
            final(self).location() == old(self).location(),
    {
        self.formatter.begin_let(&mut self.writer, var_name);
        Ok(())
    }

    /// Writes the end of a `let` statement.
    pub fn end_let(&mut self) -> (r: RsonSerResult<()>)
        ensures
            r is Ok,
            final(self).text_state() == emit(old(self).text_state(), FormatStep::EndLet),
            final(self).var_table() == old(self).var_table(),
            final(self).location() == old(self).location(),
    {
        self.formatter.end_let(&mut self.writer);
        Ok(())
    }

    /// The index of the variable recorded for the current location.
    fn find_var_index(&self) -> (r: Option<usize>)
        ensures
            match r {
                Some(i) => i < self.vars@.len() && lookup_var(self.var_table(), self.location()) == Some(
                    self.vars@[i as int].1@,
                ),
                None => lookup_var(self.var_table(), self.location()) is None,
            },
    {
        let ghost vt = self.var_table();
        let ghost loc = self.location();
        let mut i: usize = 0;
        while i < self.vars.len()
            invariant
                i <= self.vars@.len(),
                vt == self.var_table(),
                loc == self.location(),
                vt.len() == self.vars@.len(),
                lookup_var(vt, loc) == lookup_from(vt, loc, i as nat),
            decreases self.vars@.len() - i,
        {
            if same_strings(&self.vars[i].0, &self.current_location) {
                proof {
                    assert(vt[i as int].0 == loc);
                }
                return Some(i);
            }
            i = i + 1;
        }
        None
    }

    /// The variable recorded for the current location, if any.
    pub fn find_var_name(&self) -> (r: Option<&String>)
        ensures
            match r {
                Some(name) => lookup_var(self.var_table(), self.location()) == Some(name@),
                None => lookup_var(self.var_table(), self.location()) is None,
            },
    {
        match self.find_var_index() {
            Some(i) => Some(&self.vars[i].1),
            None => None,
        }
    }

    /// Writes the variable recorded for the current location, if any.
    fn write_var_if_any(&mut self) -> (written: bool)
        ensures
            written == (lookup_var(old(self).var_table(), old(self).location()) is Some),
            final(self).text_state() == match lookup_var(old(self).var_table(), old(self).location()) {
                Some(name) => raw(old(self).text_state(), name),
                None => old(self).text_state(),
            },
            final(self).var_table() == old(self).var_table(),
            final(self).location() == old(self).location(),
    {
        match self.find_var_index() {
            Some(i) => {
                self.writer.append(self.vars[i].1.as_str());
                true
            },
            None => false,
        }
    }

    /// Writes the variable recorded for the current location, if any, and tells whether it did.
    pub fn maybe_write_var(&mut self) -> (r: RsonSerResult<bool>)
        ensures
            r == Ok::<bool, RsonSerError>(lookup_var(old(self).var_table(), old(self).location()) is Some),
            final(self).text_state() == match lookup_var(old(self).var_table(), old(self).location()) {
                Some(name) => raw(old(self).text_state(), name),
                None => old(self).text_state(),
            },
            final(self).var_table() == old(self).var_table(),
            final(self).location() == old(self).location(),
    {
        Ok(self.write_var_if_any())
    }

    /// Writes a name as it is.
    pub fn serialize_name(&mut self, name: &str) -> (r: RsonSerResult<()>)
        ensures
            r is Ok,
            final(self).text_state() == raw(old(self).text_state(), name@),
            final(self).var_table() == old(self).var_table(),
            final(self).location() == old(self).location(),
    {
        self.writer.append(name);
        Ok(())
    }

    /// The fields to leave out of a struct at the current location, and the
    /// variable that stands for them (none when the variable is empty).
    pub fn get_struct_fields_to_skip(&self) -> (r: (Vec<String>, Option<String>))
        ensures
            str_views(r.0@) == fields_to_skip(self.var_table(), self.location()).0,
            match r.1 {
                Some(v) => fields_to_skip(self.var_table(), self.location()).1 == Some(v@),
                None => fields_to_skip(self.var_table(), self.location()).1 is None,
            },
    {
        let ghost vt = self.var_table();
        let ghost loc = self.location();
        let mut location = self.current_location.clone();
        location.push("..".to_string());
        proof {
            assert(str_views(location@) =~= rest_location(loc));
        }
        let mut i: usize = 0;
        while i < self.vars.len()
            invariant
                i <= self.vars@.len(),
                vt == self.var_table(),
                loc == self.location(),
                vt.len() == self.vars@.len(),
                str_views(location@) == rest_location(loc),
                fields_to_skip(vt, loc) == skip_from(vt, loc, i as nat),
            decreases self.vars@.len() - i,
        {
            if starts_with(&self.vars[i].0, &location) {
                let key = &self.vars[i].0;
                let mut rest: Vec<String> = Vec::new();
                let mut j: usize = location.len();
                while j < key.len()
                    invariant
                        location.len() <= j <= key.len(),
                        str_views(rest@) =~= str_views(key@).subrange(location.len() as int, j as int),
                    decreases key.len() - j,
                {
                    let ghost before = rest@;
                    let item = key[j].clone();
                    rest.push(item);
                    proof {
                        lemma_str_views_push(before, key@[j as int]);
                    }
                    j = j + 1;
                }
                let value = &self.vars[i].1;
                let rest_var = if value.as_str().is_empty() {
                    None
                } else {
                    Some(value.clone())
                };
                proof {
                    assert(str_views(rest@) =~= vt[i as int].0.skip(loc.len() + 1int));
                }
                return (rest, rest_var);
            }
            i = i + 1;
        }
        (Vec::new(), None)
    }
}


/// Whether the texts of `v` contain the text of `s`.
fn contains_text(v: &Vec<String>, s: &String) -> (r: bool)
    ensures
        r == str_views(v@).contains(s@),
{
    let mut i: usize = 0;
    while i < v.len()
        invariant
            i <= v@.len(),
            forall|j: int| 0 <= j < i ==> v@[j]@ != s@,
        decreases v@.len() - i,
    {
        if v[i] == *s {
            proof {
                assert(str_views(v@)[i as int] == s@);
            }
            return true;
        }
        i = i + 1;
    }
    proof {
        if str_views(v@).contains(s@) {
            let j = choose|j: int| 0 <= j < str_views(v@).len() && str_views(v@)[j] == s@;
            assert(v@[j]@ == s@);
        }
    }
    false
}

/// The location of the current element of a sequence or tuple at `base`, `index`
/// elements having been started.
pub open spec fn element_location(base: Location, index: nat) -> Location {
    if index == 0 {
        base
    } else {
        base.push(int_text(index - 1))
    }
}

/// Tracks the elements, entries or fields written inside one compound value.
pub struct RsonCompoundSerializer {
    current_element_index: usize,
    to_skip_struct_fields: Vec<String>,
    rest_struct_var: Option<String>,
}

impl RsonCompoundSerializer {
    /// How many elements, entries or written fields came so far.
    pub closed spec fn index(&self) -> nat {
        self.current_element_index as nat
    }

    /// The names of the fields left out.
    pub closed spec fn skipped(&self) -> Location {
        str_views(self.to_skip_struct_fields@)
    }

    /// The variable that stands for the fields left out.
    pub closed spec fn rest_var(&self) -> Option<Seq<char>> {
        match self.rest_struct_var {
            Some(v) => Some(v@),
            None => None,
        }
    }

    fn new() -> (c: Self)
        ensures
            c.index() == 0,
            c.skipped() == Seq::<Seq<char>>::empty(),
            c.rest_var() is None,
    {
        let c = RsonCompoundSerializer {
            current_element_index: 0,
            to_skip_struct_fields: Vec::new(),
            rest_struct_var: None,
        };
        proof {
            assert(c.skipped() =~= Seq::<Seq<char>>::empty());
        }
        c
    }

    fn with_rest_struct(self, to_skip_fields: Vec<String>, rest_var: Option<String>) -> (c: Self)
        ensures
            c.index() == self.index(),
            c.skipped() == str_views(to_skip_fields@),
            c.rest_var() == match rest_var {
                Some(v) => Some(v@),
                None => None::<Seq<char>>,
            },
    {
        let mut c = self;
        c.to_skip_struct_fields = to_skip_fields;
        c.rest_struct_var = rest_var;
        c
    }

    fn locate_end_seq_element<F: Formatter>(&self, ser: &mut RsonSerializer<F>, Ghost(base): Ghost<Location>)
        requires
            self.index() == 0 ==> old(ser).location() == base,
            self.index() > 0 ==> old(ser).location().len() == base.len() + 1 && old(ser).location().drop_last()
                == base,
        ensures
            final(ser).location() == base,
            final(ser).text_state() == old(ser).text_state(),
            final(ser).var_table() == old(ser).var_table(),
    {
        if self.current_element_index > 0 {
            proof {
                lemma_str_views_drop_last(ser.current_location@);
            }
            ser.current_location.pop();
        }
    }

    fn locate_next_seq_element<F: Formatter>(&mut self, ser: &mut RsonSerializer<F>, Ghost(base): Ghost<Location>)
        requires
            old(self).index() < usize::MAX,
            old(ser).location() == element_location(base, old(self).index()),
        ensures
            final(self).index() == old(self).index() + 1,
            final(self).skipped() == old(self).skipped(),
            final(self).rest_var() == old(self).rest_var(),
            final(ser).location() == base.push(int_text(old(self).index() as int)),
            final(ser).text_state() == old(ser).text_state(),
            final(ser).var_table() == old(ser).var_table(),
    {
        proof {
            if self.index() > 0 {
                assert(base.push(int_text(self.index() - 1)).drop_last() =~= base);
            }
        }
        self.locate_end_seq_element(ser, Ghost(base));
        let text = crate::text::usize_text(self.current_element_index);
        let ghost before = ser.current_location@;
        ser.current_location.push(text);
        proof {
            lemma_str_views_push(before, text);
        }
        self.current_element_index = self.current_element_index + 1;
    }

    fn locate_next_struct_key<F: Formatter>(
        &mut self,
        ser: &mut RsonSerializer<F>,
        key: &String,
        Ghost(base): Ghost<Location>,
    )
        requires
            old(self).index() < usize::MAX,
            old(self).index() == 0 ==> old(ser).location() == base,
            old(self).index() > 0 ==> old(ser).location().len() == base.len() + 1 && old(ser).location().drop_last()
                == base,
        ensures
            final(self).index() == old(self).index() + 1,
            final(self).skipped() == old(self).skipped(),
            final(self).rest_var() == old(self).rest_var(),
            final(ser).location() == base.push(key@),
            final(ser).text_state() == old(ser).text_state(),
            final(ser).var_table() == old(ser).var_table(),
    {
        self.locate_end_seq_element(ser, Ghost(base));
        let ghost before = ser.current_location@;
        let k = key.clone();
        ser.current_location.push(k);
        proof {
            lemma_str_views_push(before, k);
        }
        self.current_element_index = self.current_element_index + 1;
    }

    fn locate_end_map_pair<F: Formatter>(&self, ser: &mut RsonSerializer<F>, Ghost(base): Ghost<Location>)
        requires
            self.index() == 0 ==> old(ser).location() == base,
            self.index() > 0 ==> old(ser).location().len() == base.len() + 2 && old(ser).location().subrange(
                0,
                base.len() as int,
            ) == base && old(ser).location().last() == ":"@,
        ensures
            final(ser).location() == base,
            final(ser).text_state() == old(ser).text_state(),
            final(ser).var_table() == old(ser).var_table(),
    {
        if self.current_element_index > 0 {
            let colon = crate::text::owned(":");
            let n = ser.current_location.len();
            if n > 0 && ser.current_location[n - 1] == colon {
                proof {
                    lemma_str_views_drop_last(ser.current_location@);
                }
                ser.current_location.pop();
            }
            proof {
                lemma_str_views_drop_last(ser.current_location@);
            }
            ser.current_location.pop();
            proof {
                assert(ser.location() =~= base);
            }
        }
    }

    fn locate_next_map_key<F: Formatter>(
        &mut self,
        ser: &mut RsonSerializer<F>,
        key: &Value,
        Ghost(base): Ghost<Location>,
    ) -> (r: RsonSerResult<()>)
        requires
            old(self).index() < usize::MAX,
            old(self).index() == 0 ==> old(ser).location() == base,
            old(self).index() > 0 ==> old(ser).location().len() == base.len() + 2 && old(ser).location().subrange(
                0,
                base.len() as int,
            ) == base && old(ser).location().last() == ":"@,
        ensures
            r is Ok,
            final(self).index() == old(self).index() + 1,
            final(ser).location() == base.push(compact_text(*key)),
            final(ser).text_state() == old(ser).text_state(),
            final(ser).var_table() == old(ser).var_table(),
        decreases *key, 3nat,
    {
        self.locate_end_map_pair(ser, Ghost(base));
        let text = compact_string(key);
        let ghost before = ser.current_location@;
        ser.current_location.push(text);
        proof {
            lemma_str_views_push(before, text);
        }
        self.current_element_index = self.current_element_index + 1;
        Ok(())
    }

    fn locate_next_map_value<F: Formatter>(&self, ser: &mut RsonSerializer<F>)
        ensures
            final(ser).location() == old(ser).location().push(":"@),
            final(ser).text_state() == old(ser).text_state(),
            final(ser).var_table() == old(ser).var_table(),
    {
        let colon = crate::text::owned(":");
        let ghost before = ser.current_location@;
        ser.current_location.push(colon);
        proof {
            lemma_str_views_push(before, colon);
        }
    }

    /// Writes one element of a sequence or tuple at `base`.
    fn serialize_element<F: Formatter>(&mut self, ser: &mut RsonSerializer<F>, value: &Value, Ghost(base): Ghost<Location>)
        requires
            old(self).index() < usize::MAX,
            old(ser).location() == element_location(base, old(self).index()),
        ensures
            final(self).index() == old(self).index() + 1,
            final(ser).location() == base.push(int_text(old(self).index() as int)),
            final(ser).text_state() == emit(
                ser_at(
                    emit(old(ser).text_state(), FormatStep::BeginArrayValue(old(self).index() == 0)),
                    base.push(int_text(old(self).index() as int)),
                    old(ser).var_table(),
                    *value,
                ),
                FormatStep::EndArrayValue,
            ),
            final(ser).var_table() == old(ser).var_table(),
        decreases *value, 2nat,
    {
        ser.formatter.begin_array_value(&mut ser.writer, self.current_element_index == 0);
        self.locate_next_seq_element(ser, Ghost(base));
        if !ser.write_var_if_any() {
            ser.serialize_value(value);
        }
        ser.formatter.end_array_value(&mut ser.writer);
    }

    /// Writes the key of one map entry at `base`.
    fn serialize_key<F: Formatter>(&mut self, ser: &mut RsonSerializer<F>, key: &Value, Ghost(base): Ghost<Location>)
        requires
            old(self).index() < usize::MAX,
            old(self).index() == 0 ==> old(ser).location() == base,
            old(self).index() > 0 ==> old(ser).location().len() == base.len() + 2 && old(ser).location().subrange(
                0,
                base.len() as int,
            ) == base && old(ser).location().last() == ":"@,
        ensures
            final(self).index() == old(self).index() + 1,
            final(ser).location() == base.push(compact_text(*key)),
            final(ser).text_state() == emit(
                ser_at(
                    emit(old(ser).text_state(), FormatStep::BeginStructKey(old(self).index() == 0)),
                    base.push(compact_text(*key)),
                    old(ser).var_table(),
                    *key,
                ),
                FormatStep::EndStructKey,
            ),
            final(ser).var_table() == old(ser).var_table(),
        decreases *key, 4nat,
    {
        ser.formatter.begin_struct_key(&mut ser.writer, self.current_element_index == 0);
        let _ = self.locate_next_map_key(ser, key, Ghost(base));
        if !ser.write_var_if_any() {
            ser.serialize_value(key);
        }
        ser.formatter.end_struct_key(&mut ser.writer);
    }

    /// Writes the value of one map entry.
    fn serialize_map_value<F: Formatter>(&mut self, ser: &mut RsonSerializer<F>, value: &Value)
        ensures
            final(self).index() == old(self).index(),
            final(ser).location() == old(ser).location().push(":"@),
            final(ser).text_state() == emit(
                ser_at(
                    emit(old(ser).text_state(), FormatStep::BeginStructValue),
                    old(ser).location().push(":"@),
                    old(ser).var_table(),
                    *value,
                ),
                FormatStep::EndStructValue,
            ),
            final(ser).var_table() == old(ser).var_table(),
        decreases *value, 2nat,
    {
        ser.formatter.begin_struct_value(&mut ser.writer);
        self.locate_next_map_value(ser);
        if !ser.write_var_if_any() {
            ser.serialize_value(value);
        }
        ser.formatter.end_struct_value(&mut ser.writer);
    }

    /// Writes one field of a struct at `base`, unless it is left out.
    fn serialize_field<F: Formatter>(
        &mut self,
        ser: &mut RsonSerializer<F>,
        key: &String,
        value: &Value,
        Ghost(base): Ghost<Location>,
    )
        requires
            old(self).index() < usize::MAX,
            old(self).index() == 0 ==> old(ser).location() == base,
            old(self).index() > 0 ==> old(ser).location().len() == base.len() + 1 && old(ser).location().drop_last()
                == base,
        ensures
            final(self).skipped() == old(self).skipped(),
            final(self).rest_var() == old(self).rest_var(),
            old(self).skipped().contains(key@) ==> final(self).index() == old(self).index() && *final(ser)
                == *old(ser),
            !old(self).skipped().contains(key@) ==> {
                &&& final(self).index() == old(self).index() + 1
                &&& final(ser).location() == base.push(key@)
                &&& final(ser).var_table() == old(ser).var_table()
                &&& final(ser).text_state() == {
                    let s1 = emit(old(ser).text_state(), FormatStep::BeginStructKey(old(self).index() == 0));
                    let s2 = if lookup_var(old(ser).var_table(), base.push(key@)) == Some(key@) {
                        s1
                    } else {
                        emit(emit(raw(s1, key@), FormatStep::EndStructKey), FormatStep::BeginStructValue)
                    };
                    emit(ser_at(s2, base.push(key@), old(ser).var_table(), *value), FormatStep::EndStructValue)
                }
            },
        decreases *value, 2nat,
    {
        if contains_text(&self.to_skip_struct_fields, key) {
            return;
        }
        ser.formatter.begin_struct_key(&mut ser.writer, self.current_element_index == 0);
        self.locate_next_struct_key(ser, key, Ghost(base));
        let differs = match ser.find_var_name() {
            Some(name) => *name != *key,
            None => true,
        };
        if differs {
            let _ = ser.serialize_name(key.as_str());
            ser.formatter.end_struct_key(&mut ser.writer);
            ser.formatter.begin_struct_value(&mut ser.writer);
        }
        if !ser.write_var_if_any() {
            ser.serialize_value(value);
        }
        ser.formatter.end_struct_value(&mut ser.writer);
    }

    /// Closes a struct at `base`: the rest marker when fields were left out, then the brace.
    fn end_struct<F: Formatter>(&self, ser: &mut RsonSerializer<F>, Ghost(base): Ghost<Location>)
        requires
            self.index() == 0 ==> old(ser).location() == base,
            self.index() > 0 ==> old(ser).location().len() == base.len() + 1 && old(ser).location().drop_last()
                == base,
        ensures
            final(ser).location() == base,
            final(ser).var_table() == old(ser).var_table(),
            final(ser).text_state() == {
                let s1 = if self.skipped().len() != 0 {
                    emit(
                        old(ser).text_state(),
                        FormatStep::RestStruct(
                            self.index() == 0,
                            match self.rest_var() {
                                Some(r) => r,
                                None => Seq::empty(),
                            },
                        ),
                    )
                } else {
                    old(ser).text_state()
                };
                emit(s1, FormatStep::EndStruct)
            },
    {
        if self.to_skip_struct_fields.len() != 0 {
            let empty = String::new();
            let rest: &str = match &self.rest_struct_var {
                Some(v) => v.as_str(),
                None => empty.as_str(),
            };
            ser.formatter.rest_struct(&mut ser.writer, self.current_element_index == 0, rest);
        }
        ser.formatter.end_struct(&mut ser.writer);
        self.locate_end_seq_element(ser, Ghost(base));
    }
}

/// The text of a value written by a compact serializer without variables.
fn compact_string(value: &Value) -> (text: String)
    ensures
        text@ == compact_text(*value),
    decreases *value, 2nat,
{
    let mut ser = RsonSerializer::new();
    ser.serialize_value(value);
    ser.into_inner()
}


/// At most `n` of the first `n` fields are written.
pub proof fn lemma_written_fields_bound(fields: Seq<(String, Value)>, skip: Location, n: nat)
    ensures
        written_fields(fields, skip, n) <= n,
    decreases n,
{
    if n > 0 && n <= fields.len() {
        lemma_written_fields_bound(fields, skip, (n - 1) as nat);
    }
}

impl<F: Formatter> RsonSerializer<F> {
    /// Writes the value at the current location: its variable when one is recorded
    /// there, the value otherwise.
    pub fn serialize(&mut self, value: &Value) -> (r: RsonSerResult<()>)
        ensures
            r is Ok,
            final(self).text_state() == ser_at(old(self).text_state(), old(self).location(), old(self).var_table(), *value),
            final(self).location() == old(self).location(),
            final(self).var_table() == old(self).var_table(),
    {
        if !self.write_var_if_any() {
            self.serialize_value(value);
        }
        Ok(())
    }

    /// Writes the elements of a sequence or tuple at the current location.
    fn serialize_elements(&mut self, elems: &Vec<Value>)
        ensures
            final(self).text_state() == ser_elems(
                old(self).text_state(),
                old(self).location(),
                old(self).var_table(),
                elems@,
                elems@.len(),
            ),
            final(self).location() == old(self).location(),
            final(self).var_table() == old(self).var_table(),
        decreases elems, 3nat,
    {
        let ghost st0 = self.text_state();
        let ghost base = self.location();
        let ghost vt = self.var_table();
        let mut c = RsonCompoundSerializer::new();
        let mut i: usize = 0;
        while i < elems.len()
            invariant
                i <= elems@.len(),
                c.index() == i,
                self.location() == element_location(base, i as nat),
                self.var_table() == vt,
                self.text_state() == ser_elems(st0, base, vt, elems@, i as nat),
            decreases elems@.len() - i,
        {
            proof {
                assert(decreases_to!(elems => elems@[i as int]));
            }
            c.serialize_element(self, &elems[i], Ghost(base));
            i = i + 1;
        }
        proof {
            if i > 0 {
                assert(base.push(int_text(i - 1)).drop_last() =~= base);
            }
        }
        c.locate_end_seq_element(self, Ghost(base));
    }

    /// Writes the entries of a map at the current location.
    fn serialize_entries(&mut self, entries: &Vec<(Value, Value)>)
        ensures
            final(self).text_state() == ser_entries(
                old(self).text_state(),
                old(self).location(),
                old(self).var_table(),
                entries@,
                entries@.len(),
            ),
            final(self).location() == old(self).location(),
            final(self).var_table() == old(self).var_table(),
        decreases entries, 5nat,
    {
        let ghost st0 = self.text_state();
        let ghost base = self.location();
        let ghost vt = self.var_table();
        let mut c = RsonCompoundSerializer::new();
        let mut i: usize = 0;
        while i < entries.len()
            invariant
                i <= entries@.len(),
                c.index() == i,
                i == 0 ==> self.location() == base,
                i > 0 ==> self.location().len() == base.len() + 2 && self.location().subrange(0, base.len() as int)
                    == base && self.location().last() == ":"@,
                self.var_table() == vt,
                self.text_state() == ser_entries(st0, base, vt, entries@, i as nat),
            decreases entries@.len() - i,
        {
            proof {
                assert(decreases_to!(entries => entries@[i as int].0));
                assert(decreases_to!(entries => entries@[i as int].1));
            }
            let entry = &entries[i];
            c.serialize_key(self, &entry.0, Ghost(base));
            c.serialize_map_value(self, &entry.1);
            proof {
                let key_loc = base.push(compact_text(entry.0));
                assert(self.location() == key_loc.push(":"@));
                assert(self.location().subrange(0, base.len() as int) =~= base);
            }
            i = i + 1;
        }
        c.locate_end_map_pair(self, Ghost(base));
    }

    /// Writes the fields of a struct at the current location, between braces.
    fn serialize_struct_body(&mut self, fields: &Vec<(String, Value)>)
        ensures
            final(self).text_state() == ser_struct_body(
                old(self).text_state(),
                old(self).location(),
                old(self).var_table(),
                fields@,
            ),
            final(self).location() == old(self).location(),
            final(self).var_table() == old(self).var_table(),
        decreases fields, 5nat,
    {
        let ghost base = self.location();
        let ghost vt = self.var_table();
        let ghost skip = fields_to_skip(vt, base).0;
        self.formatter.begin_struct(&mut self.writer);
        let ghost st1 = self.text_state();
        let (to_skip, rest) = self.get_struct_fields_to_skip();
        let mut c = RsonCompoundSerializer::new().with_rest_struct(to_skip, rest);
        let mut i: usize = 0;
        while i < fields.len()
            invariant
                i <= fields@.len(),
                c.index() == written_fields(fields@, skip, i as nat),
                c.skipped() == skip,
                c.rest_var() == fields_to_skip(vt, base).1,
                skip == fields_to_skip(vt, base).0,
                c.index() == 0 ==> self.location() == base,
                c.index() > 0 ==> self.location().len() == base.len() + 1 && self.location().drop_last() == base,
                self.var_table() == vt,
                self.text_state() == ser_fields(st1, base, vt, fields@, skip, i as nat),
            decreases fields@.len() - i,
        {
            proof {
                assert(decreases_to!(fields => fields@[i as int].1));
                lemma_written_fields_bound(fields@, skip, i as nat);
            }
            let field = &fields[i];
            c.serialize_field(self, &field.0, &field.1, Ghost(base));
            proof {
                if c.index() > 0 {
                    assert(self.location().drop_last() =~= base);
                }
            }
            i = i + 1;
        }
        c.end_struct(self, Ghost(base));
    }

    /// Writes bytes as an array of numbers.
    fn serialize_byte_array(&mut self, bytes: &Vec<u8>)
        ensures
            final(self).text_state() == emit(
                ser_bytes(emit(old(self).text_state(), FormatStep::BeginArray), bytes@, bytes@.len()),
                FormatStep::EndArray,
            ),
            final(self).location() == old(self).location(),
            final(self).var_table() == old(self).var_table(),
    {
        self.formatter.begin_array(&mut self.writer);
        let ghost st1 = self.text_state();
        let mut i: usize = 0;
        while i < bytes.len()
            invariant
                i <= bytes@.len(),
                self.location() == old(self).location(),
                self.var_table() == old(self).var_table(),
                self.text_state() == ser_bytes(st1, bytes@, i as nat),
            decreases bytes@.len() - i,
        {
            self.formatter.begin_array_value(&mut self.writer, i == 0);
            self.formatter.write_uint(&mut self.writer, bytes[i] as u64);
            self.formatter.end_array_value(&mut self.writer);
            i = i + 1;
        }
        self.formatter.end_array(&mut self.writer);
    }

    /// Writes a value at the current location; variables are looked up for its
    /// elements, entries and fields.
    fn serialize_value(&mut self, value: &Value)
        ensures
            final(self).text_state() == ser_value(
                old(self).text_state(),
                old(self).location(),
                old(self).var_table(),
                *value,
            ),
            final(self).location() == old(self).location(),
            final(self).var_table() == old(self).var_table(),
        decreases *value, 1nat,
    {
        match value {
            Value::Bool(b) => self.formatter.write_bool(&mut self.writer, *b),
            Value::Int(i) => self.formatter.write_int(&mut self.writer, *i),
            Value::I128(i) => self.formatter.write_i128(&mut self.writer, *i),
            Value::Uint(u) => self.formatter.write_uint(&mut self.writer, *u),
            Value::U128(u) => self.formatter.write_u128(&mut self.writer, *u),
            Value::Float(text) => self.formatter.write_raw(&mut self.writer, text.as_str()),
            Value::Char(c) => {
                let text = crate::text::debug_char(*c);
                self.writer.append(text.as_str());
            },
            Value::Str(s) => {
                self.formatter.before_begin_string(&mut self.writer);
                let text = crate::text::debug_str(s.as_str());
                self.writer.append(text.as_str());
                self.formatter.after_end_string(&mut self.writer);
            },
            Value::Bytes(bytes) => self.serialize_byte_array(bytes),
            Value::NoneValue => self.formatter.write_none(&mut self.writer),
            Value::SomeValue(inner) => {
                self.formatter.begin_some(&mut self.writer);
                self.serialize_value(inner);
                self.formatter.end_some(&mut self.writer);
            },
            Value::Unit => self.formatter.write_unit(&mut self.writer),
            Value::UnitStruct(name) => {
                let _ = self.serialize_name(name.as_str());
            },
            Value::UnitVariant(name, variant) => {
                self.formatter.write_variant_name(&mut self.writer, name.as_str(), variant.as_str());
            },
            Value::NewtypeStruct(name, inner) => {
                let _ = self.serialize_name(name.as_str());
                self.formatter.begin_tuple(&mut self.writer);
                self.serialize_value(inner);
                self.formatter.end_tuple(&mut self.writer);
            },
            Value::NewtypeVariant(name, variant, inner) => {
                self.formatter.write_variant_name(&mut self.writer, name.as_str(), variant.as_str());
                self.formatter.begin_tuple(&mut self.writer);
                self.serialize_value(inner);
                self.formatter.end_tuple(&mut self.writer);
            },
            Value::Sequence(elems) => {
                self.formatter.begin_array(&mut self.writer);
                self.serialize_elements(elems);
                self.formatter.end_array(&mut self.writer);
            },
            Value::Tuple(elems) => {
                self.formatter.begin_tuple(&mut self.writer);
                self.serialize_elements(elems);
                self.formatter.end_tuple(&mut self.writer);
            },
            Value::TupleStruct(name, elems) => {
                let _ = self.serialize_name(name.as_str());
                self.formatter.begin_tuple(&mut self.writer);
                self.serialize_elements(elems);
                self.formatter.end_tuple(&mut self.writer);
            },
            Value::TupleVariant(name, variant, elems) => {
                self.formatter.write_variant_name(&mut self.writer, name.as_str(), variant.as_str());
                self.formatter.begin_tuple(&mut self.writer);
                self.serialize_elements(elems);
                self.formatter.end_tuple(&mut self.writer);
            },
            Value::MapEntries(entries) => {
                self.formatter.before_begin_map(&mut self.writer);
                self.formatter.begin_struct(&mut self.writer);
                self.serialize_entries(entries);
                self.formatter.end_struct(&mut self.writer);
            },
            Value::Struct(name, fields) => {
                self.formatter.before_begin_struct(&mut self.writer, name.as_str());
                self.serialize_struct_body(fields);
            },
            Value::StructVariant(name, variant, fields) => {
                self.formatter.write_variant_name(&mut self.writer, name.as_str(), variant.as_str());
                let empty = String::new();
                self.formatter.before_begin_struct(&mut self.writer, empty.as_str());
                self.serialize_struct_body(fields);
            },
        }
    }
}


/// The index of the first variable recorded for `loc`, searching from index `i`.
pub open spec fn index_of_loc(vars: VarTable, loc: Location, i: nat) -> Option<nat>
    decreases vars.len() - i,
{
    if i >= vars.len() {
        None
    } else if vars[i as int].0 == loc {
        Some(i)
    } else {
        index_of_loc(vars, loc, i + 1)
    }
}

/// The table after recording `name` for `loc`: it replaces the variable recorded
/// there before, or is added at the end.
pub open spec fn var_insert(vars: VarTable, loc: Location, name: Seq<char>) -> VarTable {
    match index_of_loc(vars, loc, 0) {
        Some(i) => vars.update(i as int, (loc, name)),
        None => vars.push((loc, name)),
    }
}

/// The table after recording the first `n` of `added`, in order.
pub open spec fn var_extend(vars: VarTable, added: VarTable, n: nat) -> VarTable
    decreases n,
{
    if n == 0 || n > added.len() {
        vars
    } else {
        var_insert(var_extend(vars, added, (n - 1) as nat), added[n - 1].0, added[n - 1].1)
    }
}

/// Looking up from `i` finds the variable at the first index from `i` recorded for `loc`.
pub proof fn lemma_lookup_index(vars: VarTable, loc: Location, i: nat)
    ensures
        lookup_from(vars, loc, i) == match index_of_loc(vars, loc, i) {
            Some(j) => Some(vars[j as int].1),
            None => None,
        },
        index_of_loc(vars, loc, i) matches Some(j) ==> i <= j < vars.len() && vars[j as int].0 == loc,
    decreases vars.len() - i,
{
    if i < vars.len() && vars[i as int].0 != loc {
        lemma_lookup_index(vars, loc, i + 1);
    }
}

/// Two tables with the same locations in the same places find the same index for every location.
pub proof fn lemma_index_same_keys(a: VarTable, b: VarTable, loc: Location, i: nat)
    requires
        a.len() == b.len(),
        forall|k: int| 0 <= k < a.len() ==> a[k].0 == b[k].0,
    ensures
        index_of_loc(a, loc, i) == index_of_loc(b, loc, i),
    decreases a.len() - i,
{
    if i < a.len() {
        lemma_index_same_keys(a, b, loc, i + 1);
    }
}

/// A table grown at the end finds the old index, or the new entry when there was none.
pub proof fn lemma_index_push(vars: VarTable, entry: (Location, Seq<char>), loc: Location, i: nat)
    requires
        i <= vars.len(),
    ensures
        index_of_loc(vars.push(entry), loc, i) == match index_of_loc(vars, loc, i) {
            Some(j) => Some(j),
            None => if entry.0 == loc { Some(vars.len()) } else { None },
        },
    decreases vars.len() - i,
{
    let pushed = vars.push(entry);
    if i < vars.len() {
        assert(pushed[i as int] == vars[i as int]);
        lemma_index_push(vars, entry, loc, i + 1);
    } else {
        assert(pushed[i as int] == entry);
        assert(index_of_loc(pushed, loc, i + 1) is None);
    }
}

/// Recording a variable for a location makes lookups there find it, and leaves
/// lookups at every other location as they were.
pub proof fn lemma_var_insert(vars: VarTable, loc: Location, name: Seq<char>, other: Location)
    ensures
        lookup_var(var_insert(vars, loc, name), loc) == Some(name),
        other != loc ==> lookup_var(var_insert(vars, loc, name), other) == lookup_var(vars, other),
{
    let ins = var_insert(vars, loc, name);
    lemma_lookup_index(vars, loc, 0);
    lemma_lookup_index(vars, other, 0);
    lemma_lookup_index(ins, loc, 0);
    lemma_lookup_index(ins, other, 0);
    match index_of_loc(vars, loc, 0) {
        Some(i) => {
            lemma_index_same_keys(vars, ins, loc, 0);
            lemma_index_same_keys(vars, ins, other, 0);
        },
        None => {
            lemma_index_push(vars, (loc, name), loc, 0);
            lemma_index_push(vars, (loc, name), other, 0);
        },
    }
}

/// A copy of a vector of strings.
pub(crate) fn clone_strings(v: &Vec<String>) -> (r: Vec<String>)
    ensures
        str_views(r@) == str_views(v@),
{
    let mut r: Vec<String> = Vec::new();
    let mut i: usize = 0;
    while i < v.len()
        invariant
            i <= v@.len(),
            str_views(r@) == str_views(v@).subrange(0, i as int),
        decreases v@.len() - i,
    {
        let ghost before = r@;
        let s = v[i].clone();
        r.push(s);
        proof {
            lemma_str_views_push(before, s);
            assert(str_views(v@).subrange(0, i + 1) =~= str_views(v@).subrange(0, i as int).push(v@[i as int]@));
        }
        i = i + 1;
    }
    proof {
        assert(str_views(v@).subrange(0, v@.len() as int) =~= str_views(v@));
    }
    r
}

/// Records `name` for `loc` in `vars`.
fn insert_var(vars: &mut Vec<(Vec<String>, String)>, loc: Vec<String>, name: String)
    ensures
        var_views(final(vars)@) == var_insert(var_views(old(vars)@), str_views(loc@), name@),
{
    let ghost vt = var_views(vars@);
    let ghost l = str_views(loc@);
    let mut i: usize = 0;
    while i < vars.len()
        invariant
            i <= vars@.len(),
            vt == var_views(vars@),
            vt == var_views(old(vars)@),
            vt.len() == vars@.len(),
            l == str_views(loc@),
            index_of_loc(vt, l, 0) == index_of_loc(vt, l, i as nat),
        decreases vars@.len() - i,
    {
        if same_strings(&vars[i].0, &loc) {
            let ghost idx = i;
            proof {
                assert(vt[idx as int].0 == l);
                assert(index_of_loc(vt, l, idx as nat) == Some(idx as nat));
            }
            vars.set(i, (loc, name));
            proof {
                assert(var_views(vars@) =~= vt.update(idx as int, (l, name@)));
                assert(var_insert(vt, l, name@) == vt.update(idx as int, (l, name@)));
            }
            return;
        }
        i = i + 1;
    }
    let ghost before = vars@;
    vars.push((loc, name));
    proof {
        assert(var_views(vars@) =~= vt.push((l, name@)));
    }
}

/// Records each of `added` in order in `vars`.
fn extend_vars(vars: &mut Vec<(Vec<String>, String)>, added: &Vec<(Vec<String>, String)>)
    ensures
        var_views(final(vars)@) == var_extend(var_views(old(vars)@), var_views(added@), added@.len()),
{
    let ghost vt0 = var_views(vars@);
    let mut i: usize = 0;
    while i < added.len()
        invariant
            i <= added@.len(),
            var_views(vars@) == var_extend(vt0, var_views(added@), i as nat),
            vt0 == var_views(old(vars)@),
        decreases added@.len() - i,
    {
        let loc = clone_strings(&added[i].0);
        let name = added[i].1.clone();
        insert_var(vars, loc, name);
        i = i + 1;
    }
}

impl<F: Formatter> RsonSerializer<F> {
    /// The serializer with each of `vars` recorded, in order; a later variable for
    /// a location replaces an earlier one.
    pub fn with_vars(self, vars: Vec<(Vec<String>, String)>) -> (s: Self)
        ensures
            s.var_table() == var_extend(self.var_table(), var_views(vars@), vars@.len()),
            s.text_state() == self.text_state(),
            s.location() == self.location(),
    {
        let mut s = self;
        extend_vars(&mut s.vars, &vars);
        s
    }
}

/// Builds serializers that share a formatter and a set of variables.
pub struct RsonSerBuilder<F> {
    formatter: F,
    vars: Vec<(Vec<String>, String)>,
}

impl<F> RsonSerBuilder<F> {
    /// The formatter each serialization starts from.
    pub closed spec fn formatter_state(&self) -> F {
        self.formatter
    }

    /// The variables the next serialization uses.
    pub closed spec fn var_table(&self) -> VarTable {
        var_views(self.vars@)
    }
}

impl RsonSerBuilder<CompactFormatter> {
    /// A builder with the compact formatter.
    pub fn compact() -> (b: Self)
        ensures
            b.var_table() == Seq::<(Location, Seq<char>)>::empty(),
    {
        Self::with_formatter(CompactFormatter)
    }
}

impl<'a> RsonSerBuilder<PrettyFormatter<'a>> {
    /// A builder with the pretty formatter, indenting by four spaces.
    pub fn pretty() -> (b: Self)
        ensures
            b.formatter_state() == PrettyFormatter::spec_with_indent("    "),
            b.var_table() == Seq::<(Location, Seq<char>)>::empty(),
    {
        Self::with_formatter(PrettyFormatter::new())
    }
}

impl<F: Formatter + Copy> RsonSerBuilder<F> {
    /// A builder with the given formatter and no variables.
    pub fn with_formatter(formatter: F) -> (b: Self)
        ensures
            b.formatter_state() == formatter,
            b.var_table() == Seq::<(Location, Seq<char>)>::empty(),
    {
        let b = RsonSerBuilder { formatter, vars: Vec::new() };
        proof {
            assert(b.var_table() =~= Seq::<(Location, Seq<char>)>::empty());
        }
        b
    }

    /// The builder with each of `vars` recorded, in order.
    pub fn with_vars(self, vars: Vec<(Vec<String>, String)>) -> (b: Self)
        ensures
            b.formatter_state() == self.formatter_state(),
            b.var_table() == var_extend(self.var_table(), var_views(vars@), vars@.len()),
    {
        let mut b = self;
        b.add_vars(vars);
        b
    }

    /// Records each of `vars`, in order, for the next serialization; hands the
    /// builder back for further calls.
    pub fn add_vars(&mut self, vars: Vec<(Vec<String>, String)>) -> (b: &mut Self)
        ensures
            b.formatter_state() == old(self).formatter_state(),
            b.var_table() == var_extend(old(self).var_table(), var_views(vars@), vars@.len()),
            *final(self) == *final(b),
    {
        extend_vars(&mut self.vars, &vars);
        self
    }

    /// Takes the variables out of the builder for one serialization.
    fn take_vars(&mut self) -> (vars: Vec<(Vec<String>, String)>)
        ensures
            var_views(vars@) == old(self).var_table(),
            final(self).var_table() == Seq::<(Location, Seq<char>)>::empty(),
            final(self).formatter_state() == old(self).formatter_state(),
    {
        let mut vars: Vec<(Vec<String>, String)> = Vec::new();
        std::mem::swap(&mut vars, &mut self.vars);
        proof {
            assert(self.var_table() =~= Seq::<(Location, Seq<char>)>::empty());
        }
        vars
    }

    /// Writes `value`, using and then forgetting the recorded variables.
    pub fn to_string(&mut self, value: &Value) -> (r: RsonSerResult<String>)
        ensures
            r matches Ok(text) && text@ == ser_at(
                (old(self).formatter_state(), Seq::empty()),
                Seq::empty(),
                old(self).var_table(),
                *value,
            ).1,
            final(self).formatter_state() == old(self).formatter_state(),
            final(self).var_table() == Seq::<(Location, Seq<char>)>::empty(),
    {
        let vars = self.take_vars();
        let mut ser = RsonSerializer { writer: String::new(), formatter: self.formatter, vars, current_location: Vec::new() };
        proof {
            assert(ser.location() =~= Seq::<Seq<char>>::empty());
        }
        let _ = ser.serialize(value);
        Ok(ser.into_inner())
    }

    /// Writes `let var_name = value;`, using and then forgetting the recorded variables.
    pub fn to_string_var(&mut self, value: &Value, var_name: &str) -> (r: RsonSerResult<String>)
        ensures
            r matches Ok(text) && text@ == emit(
                ser_at(
                    emit((old(self).formatter_state(), Seq::empty()), FormatStep::BeginLet(var_name@)),
                    Seq::empty(),
                    old(self).var_table(),
                    *value,
                ),
                FormatStep::EndLet,
            ).1,
            final(self).formatter_state() == old(self).formatter_state(),
            final(self).var_table() == Seq::<(Location, Seq<char>)>::empty(),
    {
        let vars = self.take_vars();
        let mut ser = RsonSerializer { writer: String::new(), formatter: self.formatter, vars, current_location: Vec::new() };
        proof {
            assert(ser.location() =~= Seq::<Seq<char>>::empty());
        }
        let _ = ser.begin_let(var_name);
        let _ = ser.serialize(value);
        let _ = ser.end_let();
        Ok(ser.into_inner())
    }
}

/// A builder with the given formatter.
pub fn builder<F: Formatter + Copy>(formatter: F) -> (b: RsonSerBuilder<F>)
    ensures
        b.formatter_state() == formatter,
        b.var_table() == Seq::<(Location, Seq<char>)>::empty(),
{
    RsonSerBuilder::with_formatter(formatter)
}

/// A builder with the compact formatter.
pub fn compact() -> (b: RsonSerBuilder<CompactFormatter>)
    ensures
        b.var_table() == Seq::<(Location, Seq<char>)>::empty(),
{
    RsonSerBuilder::compact()
}

/// A builder with the pretty formatter.
pub fn pretty<'a>() -> (b: RsonSerBuilder<PrettyFormatter<'a>>)
    ensures
        b.formatter_state() == PrettyFormatter::spec_with_indent("    "),
        b.var_table() == Seq::<(Location, Seq<char>)>::empty(),
{
    RsonSerBuilder::pretty()
}

/// The compact text of a value.
pub fn to_string_compact(value: &Value) -> (r: RsonSerResult<String>)
    ensures
        r matches Ok(text) && text@ == ser_at((CompactFormatter, Seq::empty()), Seq::empty(), Seq::empty(), *value).1,
{
    compact().to_string(value)
}

/// The pretty text of a value.
pub fn to_string_pretty(value: &Value) -> (r: RsonSerResult<String>)
    ensures
        r matches Ok(text) && text@ == ser_at(
            (PrettyFormatter::spec_with_indent("    "), Seq::empty()),
            Seq::empty(),
            Seq::empty(),
            *value,
        ).1,
{
    pretty().to_string(value)
}


/// The state and text after `st` with `out` written before everything in it.
pub open spec fn after<F>(out: Seq<char>, st: TextState<F>) -> TextState<F> {
    (st.0, out + st.1)
}

/// Serializing only appends to the text, and what it appends does not depend on
/// the text written before: writing value `v` after `out` gives `out` followed by
/// the text of `v` written on its own.
pub proof fn lemma_value_appends<F: Formatter>(f: F, out: Seq<char>, loc: Location, vars: VarTable, v: Value)
    ensures
        ser_value((f, out), loc, vars, v) == after(out, ser_value((f, Seq::empty()), loc, vars, v)),
    decreases v, 0nat,
{
    let e = Seq::<char>::empty();
    assert(out + e =~= out);
    match v {
        Value::Str(s) => {
            let d = debug_str_text(s@);
            let a = emit((f, e), FormatStep::BeforeBeginString);
            lemma_emit_after(f, out, FormatStep::BeforeBeginString);
            lemma_emit_after(a.0, out + a.1 + d, FormatStep::AfterEndString);
            lemma_emit_after(a.0, a.1 + d, FormatStep::AfterEndString);
            assert(out + (a.1 + d + a.0.spec_emit(FormatStep::AfterEndString).1) =~= out + a.1 + d + a.0.spec_emit(
                FormatStep::AfterEndString,
            ).1);
        },
        Value::Bytes(bytes) => {
            let a = emit((f, e), FormatStep::BeginArray);
            lemma_emit_after(f, out, FormatStep::BeginArray);
            lemma_bytes_appends(a.0, out + a.1, bytes@, bytes@.len());
            lemma_bytes_appends(a.0, a.1, bytes@, bytes@.len());
            let b = ser_bytes((a.0, Seq::empty()), bytes@, bytes@.len());
            assert(out + (a.1 + b.1) =~= out + a.1 + b.1);
            lemma_emit_after(b.0, out + a.1 + b.1, FormatStep::EndArray);
            lemma_emit_after(b.0, a.1 + b.1, FormatStep::EndArray);
            assert(out + (a.1 + b.1 + b.0.spec_emit(FormatStep::EndArray).1) =~= out + a.1 + b.1 + b.0.spec_emit(
                FormatStep::EndArray,
            ).1);
        },
        Value::SomeValue(inner) => {
            lemma_wrapped_appends(f, out, loc, vars, *inner, FormatStep::BeginSome, FormatStep::EndSome);
        },
        Value::NewtypeStruct(name, inner) => {
            let r = raw((f, out), name@);
            assert(r == after(out, raw((f, e), name@)));
            lemma_wrapped_appends(f, out + name@, loc, vars, *inner, FormatStep::BeginTuple, FormatStep::EndTuple);
            lemma_wrapped_appends(f, name@, loc, vars, *inner, FormatStep::BeginTuple, FormatStep::EndTuple);
            let w = emit(ser_value(emit((f, Seq::empty()), FormatStep::BeginTuple), loc, vars, *inner), FormatStep::EndTuple);
            assert(out + (name@ + w.1) =~= out + name@ + w.1);
        },
        Value::NewtypeVariant(name, variant, inner) => {
            let a = emit((f, e), FormatStep::WriteVariantName(name@, variant@));
            lemma_emit_after(f, out, FormatStep::WriteVariantName(name@, variant@));
            lemma_wrapped_appends(a.0, out + a.1, loc, vars, *inner, FormatStep::BeginTuple, FormatStep::EndTuple);
            lemma_wrapped_appends(a.0, a.1, loc, vars, *inner, FormatStep::BeginTuple, FormatStep::EndTuple);
            let w = emit(ser_value(emit((a.0, Seq::empty()), FormatStep::BeginTuple), loc, vars, *inner), FormatStep::EndTuple);
            assert(out + (a.1 + w.1) =~= out + a.1 + w.1);
        },
        Value::Sequence(elems) => {
            lemma_elems_wrapped_appends(f, out, loc, vars, elems@, FormatStep::BeginArray, FormatStep::EndArray);
        },
        Value::Tuple(elems) => {
            lemma_elems_wrapped_appends(f, out, loc, vars, elems@, FormatStep::BeginTuple, FormatStep::EndTuple);
        },
        Value::TupleStruct(name, elems) => {
            lemma_elems_wrapped_appends(f, out + name@, loc, vars, elems@, FormatStep::BeginTuple, FormatStep::EndTuple);
            lemma_elems_wrapped_appends(f, name@, loc, vars, elems@, FormatStep::BeginTuple, FormatStep::EndTuple);
            let w = emit(ser_elems(emit((f, Seq::empty()), FormatStep::BeginTuple), loc, vars, elems@, elems@.len()), FormatStep::EndTuple);
            assert(out + (name@ + w.1) =~= out + name@ + w.1);
        },
        Value::TupleVariant(name, variant, elems) => {
            let a = emit((f, e), FormatStep::WriteVariantName(name@, variant@));
            lemma_emit_after(f, out, FormatStep::WriteVariantName(name@, variant@));
            lemma_elems_wrapped_appends(a.0, out + a.1, loc, vars, elems@, FormatStep::BeginTuple, FormatStep::EndTuple);
            lemma_elems_wrapped_appends(a.0, a.1, loc, vars, elems@, FormatStep::BeginTuple, FormatStep::EndTuple);
            let w = emit(ser_elems(emit((a.0, Seq::empty()), FormatStep::BeginTuple), loc, vars, elems@, elems@.len()), FormatStep::EndTuple);
            assert(out + (a.1 + w.1) =~= out + a.1 + w.1);
        },
        Value::MapEntries(entries) => {
            let a = emit((f, e), FormatStep::BeforeBeginMap);
            lemma_emit_after(f, out, FormatStep::BeforeBeginMap);
            let b = emit(a, FormatStep::BeginStruct);
            lemma_emit_after(a.0, out + a.1, FormatStep::BeginStruct);
            lemma_emit_after(a.0, a.1, FormatStep::BeginStruct);
            assert(out + b.1 =~= out + a.1 + a.0.spec_emit(FormatStep::BeginStruct).1);
            lemma_entries_appends(b.0, out + b.1, loc, vars, entries@, entries@.len());
            lemma_entries_appends(b.0, b.1, loc, vars, entries@, entries@.len());
            let c = ser_entries((b.0, Seq::empty()), loc, vars, entries@, entries@.len());
            assert(out + (b.1 + c.1) =~= out + b.1 + c.1);
            lemma_emit_after(c.0, out + b.1 + c.1, FormatStep::EndStruct);
            lemma_emit_after(c.0, b.1 + c.1, FormatStep::EndStruct);
            assert(out + (b.1 + c.1 + c.0.spec_emit(FormatStep::EndStruct).1) =~= out + b.1 + c.1 + c.0.spec_emit(
                FormatStep::EndStruct,
            ).1);
        },
        Value::Struct(name, fields) => {
            let a = emit((f, e), FormatStep::BeforeBeginStruct(name@));
            lemma_emit_after(f, out, FormatStep::BeforeBeginStruct(name@));
            lemma_struct_body_appends(a.0, out + a.1, loc, vars, fields@);
            lemma_struct_body_appends(a.0, a.1, loc, vars, fields@);
            let c = ser_struct_body((a.0, Seq::empty()), loc, vars, fields@);
            assert(out + (a.1 + c.1) =~= out + a.1 + c.1);
        },
        Value::StructVariant(name, variant, fields) => {
            let a = emit((f, e), FormatStep::WriteVariantName(name@, variant@));
            lemma_emit_after(f, out, FormatStep::WriteVariantName(name@, variant@));
            let b = emit(a, FormatStep::BeforeBeginStruct(Seq::empty()));
            lemma_emit_after(a.0, out + a.1, FormatStep::BeforeBeginStruct(Seq::empty()));
            lemma_emit_after(a.0, a.1, FormatStep::BeforeBeginStruct(Seq::empty()));
            assert(out + b.1 =~= out + a.1 + a.0.spec_emit(FormatStep::BeforeBeginStruct(Seq::empty())).1);
            lemma_struct_body_appends(b.0, out + b.1, loc, vars, fields@);
            lemma_struct_body_appends(b.0, b.1, loc, vars, fields@);
            let c = ser_struct_body((b.0, Seq::empty()), loc, vars, fields@);
            assert(out + (b.1 + c.1) =~= out + b.1 + c.1);
        },
        _ => {},
    }
}

/// One formatter step after `out` gives `out` followed by the step's text.
pub proof fn lemma_emit_after<F: Formatter>(f: F, out: Seq<char>, event: FormatStep)
    ensures
        emit((f, out), event) == after(out, emit((f, Seq::empty()), event)),
{
    assert(Seq::<char>::empty() + f.spec_emit(event).1 =~= f.spec_emit(event).1);
}

/// A value written between two formatter steps appends as the value does.
proof fn lemma_wrapped_appends<F: Formatter>(
    f: F,
    out: Seq<char>,
    loc: Location,
    vars: VarTable,
    v: Value,
    open_step: FormatStep,
    close_step: FormatStep,
)
    ensures
        emit(ser_value(emit((f, out), open_step), loc, vars, v), close_step) == after(
            out,
            emit(ser_value(emit((f, Seq::empty()), open_step), loc, vars, v), close_step),
        ),
    decreases v, 1nat,
{
    let a = emit((f, Seq::empty()), open_step);
    lemma_emit_after(f, out, open_step);
    lemma_value_appends(a.0, out + a.1, loc, vars, v);
    lemma_value_appends(a.0, a.1, loc, vars, v);
    let b = ser_value((a.0, Seq::empty()), loc, vars, v);
    assert(out + (a.1 + b.1) =~= out + a.1 + b.1);
    lemma_emit_after(b.0, out + a.1 + b.1, close_step);
    lemma_emit_after(b.0, a.1 + b.1, close_step);
    assert(out + (a.1 + b.1 + b.0.spec_emit(close_step).1) =~= out + a.1 + b.1 + b.0.spec_emit(close_step).1);
}

/// Elements written between two formatter steps append as the elements do.
proof fn lemma_elems_wrapped_appends<F: Formatter>(
    f: F,
    out: Seq<char>,
    loc: Location,
    vars: VarTable,
    elems: Seq<Value>,
    open_step: FormatStep,
    close_step: FormatStep,
)
    ensures
        emit(ser_elems(emit((f, out), open_step), loc, vars, elems, elems.len()), close_step) == after(
            out,
            emit(ser_elems(emit((f, Seq::empty()), open_step), loc, vars, elems, elems.len()), close_step),
        ),
    decreases elems, elems.len() + 1,
{
    let a = emit((f, Seq::empty()), open_step);
    lemma_emit_after(f, out, open_step);
    lemma_elems_appends(a.0, out + a.1, loc, vars, elems, elems.len());
    lemma_elems_appends(a.0, a.1, loc, vars, elems, elems.len());
    let b = ser_elems((a.0, Seq::empty()), loc, vars, elems, elems.len());
    assert(out + (a.1 + b.1) =~= out + a.1 + b.1);
    lemma_emit_after(b.0, out + a.1 + b.1, close_step);
    lemma_emit_after(b.0, a.1 + b.1, close_step);
    assert(out + (a.1 + b.1 + b.0.spec_emit(close_step).1) =~= out + a.1 + b.1 + b.0.spec_emit(close_step).1);
}

/// A value at a location appends as the value, or its variable, does.
proof fn lemma_at_appends<F: Formatter>(f: F, out: Seq<char>, loc: Location, vars: VarTable, v: Value)
    ensures
        ser_at((f, out), loc, vars, v) == after(out, ser_at((f, Seq::empty()), loc, vars, v)),
    decreases v, 1nat,
{
    match lookup_var(vars, loc) {
        Some(name) => {
            assert(out + (Seq::<char>::empty() + name) =~= out + name);
        },
        None => {
            lemma_value_appends(f, out, loc, vars, v);
        },
    }
}

proof fn lemma_elems_appends<F: Formatter>(
    f: F,
    out: Seq<char>,
    loc: Location,
    vars: VarTable,
    elems: Seq<Value>,
    n: nat,
)
    ensures
        ser_elems((f, out), loc, vars, elems, n) == after(out, ser_elems((f, Seq::empty()), loc, vars, elems, n)),
    decreases elems, n,
{
    if n == 0 || n > elems.len() {
        assert(out + Seq::<char>::empty() =~= out);
    } else {
        let i = (n - 1) as nat;
        lemma_elems_appends(f, out, loc, vars, elems, i);
        let p = ser_elems((f, Seq::empty()), loc, vars, elems, i);
        let q = emit(p, FormatStep::BeginArrayValue(i == 0));
        lemma_emit_after(p.0, out + p.1, FormatStep::BeginArrayValue(i == 0));
        lemma_emit_after(p.0, p.1, FormatStep::BeginArrayValue(i == 0));
        assert(out + q.1 =~= out + p.1 + p.0.spec_emit(FormatStep::BeginArrayValue(i == 0)).1);
        lemma_at_appends(q.0, out + q.1, loc.push(int_text(i as int)), vars, elems[i as int]);
        lemma_at_appends(q.0, q.1, loc.push(int_text(i as int)), vars, elems[i as int]);
        let r = ser_at((q.0, Seq::empty()), loc.push(int_text(i as int)), vars, elems[i as int]);
        assert(out + (q.1 + r.1) =~= out + q.1 + r.1);
        lemma_emit_after(r.0, out + q.1 + r.1, FormatStep::EndArrayValue);
        lemma_emit_after(r.0, q.1 + r.1, FormatStep::EndArrayValue);
        assert(out + (q.1 + r.1 + r.0.spec_emit(FormatStep::EndArrayValue).1) =~= out + q.1 + r.1 + r.0.spec_emit(
            FormatStep::EndArrayValue,
        ).1);
    }
}

proof fn lemma_entries_appends<F: Formatter>(
    f: F,
    out: Seq<char>,
    loc: Location,
    vars: VarTable,
    entries: Seq<(Value, Value)>,
    n: nat,
)
    ensures
        ser_entries((f, out), loc, vars, entries, n) == after(out, ser_entries((f, Seq::empty()), loc, vars, entries, n)),
    decreases entries, n,
{
    if n == 0 || n > entries.len() {
        assert(out + Seq::<char>::empty() =~= out);
    } else {
        let i = (n - 1) as nat;
        lemma_entries_appends(f, out, loc, vars, entries, i);
        let key = entries[i as int].0;
        let key_loc = loc.push(compact_text(key));
        let p = ser_entries((f, Seq::empty()), loc, vars, entries, i);
        let s1 = emit(p, FormatStep::BeginStructKey(i == 0));
        lemma_emit_after(p.0, out + p.1, FormatStep::BeginStructKey(i == 0));
        lemma_emit_after(p.0, p.1, FormatStep::BeginStructKey(i == 0));
        assert(out + s1.1 =~= out + p.1 + p.0.spec_emit(FormatStep::BeginStructKey(i == 0)).1);
        lemma_at_appends(s1.0, out + s1.1, key_loc, vars, key);
        lemma_at_appends(s1.0, s1.1, key_loc, vars, key);
        let k = ser_at((s1.0, Seq::empty()), key_loc, vars, key);
        assert(out + (s1.1 + k.1) =~= out + s1.1 + k.1);
        let s2 = ser_at(s1, key_loc, vars, key);
        let s3 = emit(s2, FormatStep::EndStructKey);
        lemma_emit_after(s2.0, out + s2.1, FormatStep::EndStructKey);
        lemma_emit_after(s2.0, s2.1, FormatStep::EndStructKey);
        assert(out + s3.1 =~= out + s2.1 + s2.0.spec_emit(FormatStep::EndStructKey).1);
        let s4 = emit(s3, FormatStep::BeginStructValue);
        lemma_emit_after(s3.0, out + s3.1, FormatStep::BeginStructValue);
        lemma_emit_after(s3.0, s3.1, FormatStep::BeginStructValue);
        assert(out + s4.1 =~= out + s3.1 + s3.0.spec_emit(FormatStep::BeginStructValue).1);
        lemma_at_appends(s4.0, out + s4.1, key_loc.push(":"@), vars, entries[i as int].1);
        lemma_at_appends(s4.0, s4.1, key_loc.push(":"@), vars, entries[i as int].1);
        let w = ser_at((s4.0, Seq::empty()), key_loc.push(":"@), vars, entries[i as int].1);
        assert(out + (s4.1 + w.1) =~= out + s4.1 + w.1);
        let s5 = ser_at(s4, key_loc.push(":"@), vars, entries[i as int].1);
        lemma_emit_after(s5.0, out + s5.1, FormatStep::EndStructValue);
        lemma_emit_after(s5.0, s5.1, FormatStep::EndStructValue);
        assert(out + (s5.1 + s5.0.spec_emit(FormatStep::EndStructValue).1) =~= out + s5.1 + s5.0.spec_emit(
            FormatStep::EndStructValue,
        ).1);
    }
}

proof fn lemma_fields_appends<F: Formatter>(
    f: F,
    out: Seq<char>,
    loc: Location,
    vars: VarTable,
    fields: Seq<(String, Value)>,
    skip: Location,
    n: nat,
)
    ensures
        ser_fields((f, out), loc, vars, fields, skip, n) == after(
            out,
            ser_fields((f, Seq::empty()), loc, vars, fields, skip, n),
        ),
    decreases fields, n,
{
    if n == 0 || n > fields.len() {
        assert(out + Seq::<char>::empty() =~= out);
    } else {
        let i = (n - 1) as nat;
        lemma_fields_appends(f, out, loc, vars, fields, skip, i);
        let name = fields[i as int].0@;
        if !skip.contains(name) {
            let field_loc = loc.push(name);
            let p = ser_fields((f, Seq::empty()), loc, vars, fields, skip, i);
            let first = written_fields(fields, skip, i) == 0;
            let s1 = emit(p, FormatStep::BeginStructKey(first));
            lemma_emit_after(p.0, out + p.1, FormatStep::BeginStructKey(first));
            lemma_emit_after(p.0, p.1, FormatStep::BeginStructKey(first));
            assert(out + s1.1 =~= out + p.1 + p.0.spec_emit(FormatStep::BeginStructKey(first)).1);
            let s2 = if lookup_var(vars, field_loc) == Some(name) {
                s1
            } else {
                emit(emit(raw(s1, name), FormatStep::EndStructKey), FormatStep::BeginStructValue)
            };
            if lookup_var(vars, field_loc) != Some(name) {
                let r = raw(s1, name);
                assert(out + r.1 =~= out + s1.1 + name);
                let t = emit(r, FormatStep::EndStructKey);
                lemma_emit_after(r.0, out + r.1, FormatStep::EndStructKey);
                lemma_emit_after(r.0, r.1, FormatStep::EndStructKey);
                assert(out + t.1 =~= out + r.1 + r.0.spec_emit(FormatStep::EndStructKey).1);
                lemma_emit_after(t.0, out + t.1, FormatStep::BeginStructValue);
                lemma_emit_after(t.0, t.1, FormatStep::BeginStructValue);
                assert(out + s2.1 =~= out + t.1 + t.0.spec_emit(FormatStep::BeginStructValue).1);
            }
            lemma_at_appends(s2.0, out + s2.1, field_loc, vars, fields[i as int].1);
            lemma_at_appends(s2.0, s2.1, field_loc, vars, fields[i as int].1);
            let w = ser_at((s2.0, Seq::empty()), field_loc, vars, fields[i as int].1);
            assert(out + (s2.1 + w.1) =~= out + s2.1 + w.1);
            let s3 = ser_at(s2, field_loc, vars, fields[i as int].1);
            lemma_emit_after(s3.0, out + s3.1, FormatStep::EndStructValue);
            lemma_emit_after(s3.0, s3.1, FormatStep::EndStructValue);
            assert(out + (s3.1 + s3.0.spec_emit(FormatStep::EndStructValue).1) =~= out + s3.1 + s3.0.spec_emit(
                FormatStep::EndStructValue,
            ).1);
        }
    }
}

proof fn lemma_struct_body_appends<F: Formatter>(
    f: F,
    out: Seq<char>,
    loc: Location,
    vars: VarTable,
    fields: Seq<(String, Value)>,
)
    ensures
        ser_struct_body((f, out), loc, vars, fields) == after(out, ser_struct_body((f, Seq::empty()), loc, vars, fields)),
    decreases fields, fields.len() + 1,
{
    let (skip, rest) = fields_to_skip(vars, loc);
    let a = emit((f, Seq::empty()), FormatStep::BeginStruct);
    lemma_emit_after(f, out, FormatStep::BeginStruct);
    lemma_fields_appends(a.0, out + a.1, loc, vars, fields, skip, fields.len());
    lemma_fields_appends(a.0, a.1, loc, vars, fields, skip, fields.len());
    let b = ser_fields((a.0, Seq::empty()), loc, vars, fields, skip, fields.len());
    assert(out + (a.1 + b.1) =~= out + a.1 + b.1);
    let s2 = ser_fields(a, loc, vars, fields, skip, fields.len());
    let written = written_fields(fields, skip, fields.len());
    let rest_step = FormatStep::RestStruct(
        written == 0,
        match rest {
            Some(r) => r,
            None => Seq::empty(),
        },
    );
    let s3 = if skip.len() != 0 { emit(s2, rest_step) } else { s2 };
    if skip.len() != 0 {
        lemma_emit_after(s2.0, out + s2.1, rest_step);
        lemma_emit_after(s2.0, s2.1, rest_step);
        assert(out + s3.1 =~= out + s2.1 + s2.0.spec_emit(rest_step).1);
    }
    lemma_emit_after(s3.0, out + s3.1, FormatStep::EndStruct);
    lemma_emit_after(s3.0, s3.1, FormatStep::EndStruct);
    assert(out + (s3.1 + s3.0.spec_emit(FormatStep::EndStruct).1) =~= out + s3.1 + s3.0.spec_emit(FormatStep::EndStruct).1);
}

proof fn lemma_bytes_appends<F: Formatter>(f: F, out: Seq<char>, bytes: Seq<u8>, n: nat)
    ensures
        ser_bytes((f, out), bytes, n) == after(out, ser_bytes((f, Seq::empty()), bytes, n)),
    decreases n,
{
    if n == 0 || n > bytes.len() {
        assert(out + Seq::<char>::empty() =~= out);
    } else {
        let i = (n - 1) as nat;
        lemma_bytes_appends(f, out, bytes, i);
        let p = ser_bytes((f, Seq::empty()), bytes, i);
        let s1 = emit(p, FormatStep::BeginArrayValue(i == 0));
        lemma_emit_after(p.0, out + p.1, FormatStep::BeginArrayValue(i == 0));
        lemma_emit_after(p.0, p.1, FormatStep::BeginArrayValue(i == 0));
        assert(out + s1.1 =~= out + p.1 + p.0.spec_emit(FormatStep::BeginArrayValue(i == 0)).1);
        let s2 = emit(s1, FormatStep::WriteUint(bytes[i as int] as u64));
        lemma_emit_after(s1.0, out + s1.1, FormatStep::WriteUint(bytes[i as int] as u64));
        lemma_emit_after(s1.0, s1.1, FormatStep::WriteUint(bytes[i as int] as u64));
        assert(out + s2.1 =~= out + s1.1 + s1.0.spec_emit(FormatStep::WriteUint(bytes[i as int] as u64)).1);
        lemma_emit_after(s2.0, out + s2.1, FormatStep::EndArrayValue);
        lemma_emit_after(s2.0, s2.1, FormatStep::EndArrayValue);
        assert(out + (s2.1 + s2.0.spec_emit(FormatStep::EndArrayValue).1) =~= out + s2.1 + s2.0.spec_emit(
            FormatStep::EndArrayValue,
        ).1);
    }
}


/// How deeply compound values nest inside a value: each tuple, array, struct and
/// map adds a level.
pub open spec fn bracket_depth(v: Value) -> nat
    decreases v, 0nat,
{
    match v {
        Value::Bytes(_) => 1,
        Value::SomeValue(inner) => bracket_depth(*inner),
        Value::NewtypeStruct(_, inner) => 1 + bracket_depth(*inner),
        Value::NewtypeVariant(_, _, inner) => 1 + bracket_depth(*inner),
        Value::Sequence(elems) => 1 + elems_depth(elems@, elems@.len()),
        Value::Tuple(elems) => 1 + elems_depth(elems@, elems@.len()),
        Value::TupleStruct(_, elems) => 1 + elems_depth(elems@, elems@.len()),
        Value::TupleVariant(_, _, elems) => 1 + elems_depth(elems@, elems@.len()),
        Value::MapEntries(entries) => 1 + entries_depth(entries@, entries@.len()),
        Value::Struct(_, fields) => 1 + fields_depth(fields@, fields@.len()),
        Value::StructVariant(_, _, fields) => 1 + fields_depth(fields@, fields@.len()),
        _ => 0,
    }
}

/// The deepest nesting among the first `n` elements.
pub open spec fn elems_depth(elems: Seq<Value>, n: nat) -> nat
    decreases elems, n,
{
    if n == 0 || n > elems.len() {
        0
    } else {
        let a = elems_depth(elems, (n - 1) as nat);
        let b = bracket_depth(elems[n - 1]);
        if a < b { b } else { a }
    }
}

/// The deepest nesting among the keys and values of the first `n` entries.
pub open spec fn entries_depth(entries: Seq<(Value, Value)>, n: nat) -> nat
    decreases entries, n,
{
    if n == 0 || n > entries.len() {
        0
    } else {
        let a = entries_depth(entries, (n - 1) as nat);
        let k = bracket_depth(entries[n - 1].0);
        let v = bracket_depth(entries[n - 1].1);
        let b = if k < v { v } else { k };
        if a < b { b } else { a }
    }
}

/// The deepest nesting among the values of the first `n` fields.
pub open spec fn fields_depth(fields: Seq<(String, Value)>, n: nat) -> nat
    decreases fields, n,
{
    if n == 0 || n > fields.len() {
        0
    } else {
        let a = fields_depth(fields, (n - 1) as nat);
        let b = bracket_depth(fields[n - 1].1);
        if a < b { b } else { a }
    }
}

/// Whether `g` writes at the depth of `f` with its settings.
pub open spec fn same_level(f: PrettyFormatter, g: PrettyFormatter) -> bool {
    g.depth() == f.depth() && g.same_settings(f)
}

/// A pretty serializer ends every value at the depth it began it, with the same
/// settings, whatever the value and its variables: a value never leaves a bracket
/// open or closes one it did not open. Depths stay within a `usize`.
pub proof fn lemma_pretty_depth_restored(
    f: PrettyFormatter,
    out: Seq<char>,
    loc: Location,
    vars: VarTable,
    v: Value,
)
    requires
        f.depth() + bracket_depth(v) <= usize::MAX,
    ensures
        same_level(f, ser_value((f, out), loc, vars, v).0),
    decreases v, 0nat,
{
    match v {
        Value::Str(s) => {
            lemma_pretty_step(f, FormatStep::BeforeBeginString);
            lemma_pretty_step(f.spec_emit(FormatStep::BeforeBeginString).0, FormatStep::AfterEndString);
        },
        Value::Bytes(bytes) => {
            let a = emit((f, out), FormatStep::BeginArray);
            lemma_pretty_step(f, FormatStep::BeginArray);
            lemma_bytes_depth(a.0, a.1, bytes@, bytes@.len());
            let b = ser_bytes(a, bytes@, bytes@.len());
            lemma_pretty_step(b.0, FormatStep::EndArray);
        },
        Value::SomeValue(inner) => {
            let a = emit((f, out), FormatStep::BeginSome);
            lemma_pretty_step(f, FormatStep::BeginSome);
            lemma_pretty_depth_restored(a.0, a.1, loc, vars, *inner);
            let b = ser_value(a, loc, vars, *inner);
            lemma_pretty_step(b.0, FormatStep::EndSome);
        },
        Value::NewtypeStruct(name, inner) => {
            let a = emit(raw((f, out), name@), FormatStep::BeginTuple);
            lemma_pretty_step(f, FormatStep::BeginTuple);
            lemma_pretty_depth_restored(a.0, a.1, loc, vars, *inner);
            let b = ser_value(a, loc, vars, *inner);
            lemma_pretty_step(b.0, FormatStep::EndTuple);
        },
        Value::NewtypeVariant(name, variant, inner) => {
            let s0 = emit((f, out), FormatStep::WriteVariantName(name@, variant@));
            lemma_pretty_step(f, FormatStep::WriteVariantName(name@, variant@));
            let a = emit(s0, FormatStep::BeginTuple);
            lemma_pretty_step(s0.0, FormatStep::BeginTuple);
            lemma_pretty_depth_restored(a.0, a.1, loc, vars, *inner);
            let b = ser_value(a, loc, vars, *inner);
            lemma_pretty_step(b.0, FormatStep::EndTuple);
        },
        Value::Sequence(elems) => {
            let a = emit((f, out), FormatStep::BeginArray);
            lemma_pretty_step(f, FormatStep::BeginArray);
            lemma_elems_depth(a.0, a.1, loc, vars, elems@, elems@.len());
            let b = ser_elems(a, loc, vars, elems@, elems@.len());
            lemma_pretty_step(b.0, FormatStep::EndArray);
        },
        Value::Tuple(elems) => {
            let a = emit((f, out), FormatStep::BeginTuple);
            lemma_pretty_step(f, FormatStep::BeginTuple);
            lemma_elems_depth(a.0, a.1, loc, vars, elems@, elems@.len());
            let b = ser_elems(a, loc, vars, elems@, elems@.len());
            lemma_pretty_step(b.0, FormatStep::EndTuple);
        },
        Value::TupleStruct(name, elems) => {
            let a = emit(raw((f, out), name@), FormatStep::BeginTuple);
            lemma_pretty_step(f, FormatStep::BeginTuple);
            lemma_elems_depth(a.0, a.1, loc, vars, elems@, elems@.len());
            let b = ser_elems(a, loc, vars, elems@, elems@.len());
            lemma_pretty_step(b.0, FormatStep::EndTuple);
        },
        Value::TupleVariant(name, variant, elems) => {
            let s0 = emit((f, out), FormatStep::WriteVariantName(name@, variant@));
            lemma_pretty_step(f, FormatStep::WriteVariantName(name@, variant@));
            let a = emit(s0, FormatStep::BeginTuple);
            lemma_pretty_step(s0.0, FormatStep::BeginTuple);
            lemma_elems_depth(a.0, a.1, loc, vars, elems@, elems@.len());
            let b = ser_elems(a, loc, vars, elems@, elems@.len());
            lemma_pretty_step(b.0, FormatStep::EndTuple);
        },
        Value::MapEntries(entries) => {
            let s0 = emit((f, out), FormatStep::BeforeBeginMap);
            lemma_pretty_step(f, FormatStep::BeforeBeginMap);
            let a = emit(s0, FormatStep::BeginStruct);
            lemma_pretty_step(s0.0, FormatStep::BeginStruct);
            lemma_entries_depth(a.0, a.1, loc, vars, entries@, entries@.len());
            let b = ser_entries(a, loc, vars, entries@, entries@.len());
            lemma_pretty_step(b.0, FormatStep::EndStruct);
        },
        Value::Struct(name, fields) => {
            let s0 = emit((f, out), FormatStep::BeforeBeginStruct(name@));
            lemma_pretty_step(f, FormatStep::BeforeBeginStruct(name@));
            lemma_struct_body_depth(s0.0, s0.1, loc, vars, fields@);
        },
        Value::StructVariant(name, variant, fields) => {
            let s0 = emit((f, out), FormatStep::WriteVariantName(name@, variant@));
            lemma_pretty_step(f, FormatStep::WriteVariantName(name@, variant@));
            let s1 = emit(s0, FormatStep::BeforeBeginStruct(Seq::empty()));
            lemma_pretty_step(s0.0, FormatStep::BeforeBeginStruct(Seq::empty()));
            lemma_struct_body_depth(s1.0, s1.1, loc, vars, fields@);
        },
        Value::Bool(b) => lemma_pretty_step(f, FormatStep::WriteBool(b)),
        Value::Int(i) => lemma_pretty_step(f, FormatStep::WriteInt(i)),
        Value::I128(i) => lemma_pretty_step(f, FormatStep::WriteI128(i)),
        Value::Uint(u) => lemma_pretty_step(f, FormatStep::WriteUint(u)),
        Value::U128(u) => lemma_pretty_step(f, FormatStep::WriteU128(u)),
        Value::Float(text) => lemma_pretty_step(f, FormatStep::WriteRaw(text@)),
        Value::NoneValue => lemma_pretty_step(f, FormatStep::WriteNone),
        Value::Unit => lemma_pretty_step(f, FormatStep::WriteUnit),
        Value::UnitVariant(name, variant) => lemma_pretty_step(f, FormatStep::WriteVariantName(name@, variant@)),
        _ => {},
    }
}

proof fn lemma_at_depth(f: PrettyFormatter, out: Seq<char>, loc: Location, vars: VarTable, v: Value)
    requires
        f.depth() + bracket_depth(v) <= usize::MAX,
    ensures
        same_level(f, ser_at((f, out), loc, vars, v).0),
    decreases v, 1nat,
{
    if lookup_var(vars, loc) is None {
        lemma_pretty_depth_restored(f, out, loc, vars, v);
    }
}

proof fn lemma_elems_depth(
    f: PrettyFormatter,
    out: Seq<char>,
    loc: Location,
    vars: VarTable,
    elems: Seq<Value>,
    n: nat,
)
    requires
        f.depth() + elems_depth(elems, n) <= usize::MAX,
    ensures
        same_level(f, ser_elems((f, out), loc, vars, elems, n).0),
    decreases elems, n,
{
    if n > 0 && n <= elems.len() {
        let i = (n - 1) as nat;
        lemma_elems_depth(f, out, loc, vars, elems, i);
        let p = ser_elems((f, out), loc, vars, elems, i);
        lemma_pretty_step(p.0, FormatStep::BeginArrayValue(i == 0));
        let q = emit(p, FormatStep::BeginArrayValue(i == 0));
        lemma_at_depth(q.0, q.1, loc.push(int_text(i as int)), vars, elems[i as int]);
        let r = ser_at(q, loc.push(int_text(i as int)), vars, elems[i as int]);
        lemma_pretty_step(r.0, FormatStep::EndArrayValue);
    }
}

proof fn lemma_entries_depth(
    f: PrettyFormatter,
    out: Seq<char>,
    loc: Location,
    vars: VarTable,
    entries: Seq<(Value, Value)>,
    n: nat,
)
    requires
        f.depth() + entries_depth(entries, n) <= usize::MAX,
    ensures
        same_level(f, ser_entries((f, out), loc, vars, entries, n).0),
    decreases entries, n,
{
    if n > 0 && n <= entries.len() {
        let i = (n - 1) as nat;
        lemma_entries_depth(f, out, loc, vars, entries, i);
        let key = entries[i as int].0;
        let key_loc = loc.push(compact_text(key));
        let p = ser_entries((f, out), loc, vars, entries, i);
        lemma_pretty_step(p.0, FormatStep::BeginStructKey(i == 0));
        let s1 = emit(p, FormatStep::BeginStructKey(i == 0));
        lemma_at_depth(s1.0, s1.1, key_loc, vars, key);
        let s2 = ser_at(s1, key_loc, vars, key);
        lemma_pretty_step(s2.0, FormatStep::EndStructKey);
        let s3 = emit(s2, FormatStep::EndStructKey);
        lemma_pretty_step(s3.0, FormatStep::BeginStructValue);
        let s4 = emit(s3, FormatStep::BeginStructValue);
        lemma_at_depth(s4.0, s4.1, key_loc.push(":"@), vars, entries[i as int].1);
        let s5 = ser_at(s4, key_loc.push(":"@), vars, entries[i as int].1);
        lemma_pretty_step(s5.0, FormatStep::EndStructValue);
    }
}

proof fn lemma_fields_depth(
    f: PrettyFormatter,
    out: Seq<char>,
    loc: Location,
    vars: VarTable,
    fields: Seq<(String, Value)>,
    skip: Location,
    n: nat,
)
    requires
        f.depth() + fields_depth(fields, n) <= usize::MAX,
    ensures
        same_level(f, ser_fields((f, out), loc, vars, fields, skip, n).0),
    decreases fields, n,
{
    if n > 0 && n <= fields.len() {
        let i = (n - 1) as nat;
        lemma_fields_depth(f, out, loc, vars, fields, skip, i);
        let name = fields[i as int].0@;
        if !skip.contains(name) {
            let field_loc = loc.push(name);
            let p = ser_fields((f, out), loc, vars, fields, skip, i);
            let first = written_fields(fields, skip, i) == 0;
            lemma_pretty_step(p.0, FormatStep::BeginStructKey(first));
            let s1 = emit(p, FormatStep::BeginStructKey(first));
            let r = raw(s1, name);
            lemma_pretty_step(r.0, FormatStep::EndStructKey);
            let t = emit(r, FormatStep::EndStructKey);
            lemma_pretty_step(t.0, FormatStep::BeginStructValue);
            let s2 = if lookup_var(vars, field_loc) == Some(name) {
                s1
            } else {
                emit(t, FormatStep::BeginStructValue)
            };
            lemma_at_depth(s2.0, s2.1, field_loc, vars, fields[i as int].1);
            let s3 = ser_at(s2, field_loc, vars, fields[i as int].1);
            lemma_pretty_step(s3.0, FormatStep::EndStructValue);
        }
    }
}

proof fn lemma_struct_body_depth(
    f: PrettyFormatter,
    out: Seq<char>,
    loc: Location,
    vars: VarTable,
    fields: Seq<(String, Value)>,
)
    requires
        f.depth() + 1 + fields_depth(fields, fields.len()) <= usize::MAX,
    ensures
        same_level(f, ser_struct_body((f, out), loc, vars, fields).0),
    decreases fields, fields.len() + 1,
{
    let (skip, rest) = fields_to_skip(vars, loc);
    let s1 = emit((f, out), FormatStep::BeginStruct);
    lemma_pretty_step(f, FormatStep::BeginStruct);
    lemma_fields_depth(s1.0, s1.1, loc, vars, fields, skip, fields.len());
    let s2 = ser_fields(s1, loc, vars, fields, skip, fields.len());
    let written = written_fields(fields, skip, fields.len());
    let rest_step = FormatStep::RestStruct(
        written == 0,
        match rest {
            Some(r) => r,
            None => Seq::empty(),
        },
    );
    lemma_pretty_step(s2.0, rest_step);
    let s3 = if skip.len() != 0 { emit(s2, rest_step) } else { s2 };
    lemma_pretty_step(s3.0, FormatStep::EndStruct);
}

proof fn lemma_bytes_depth(f: PrettyFormatter, out: Seq<char>, bytes: Seq<u8>, n: nat)
    ensures
        same_level(f, ser_bytes((f, out), bytes, n).0),
    decreases n,
{
    if n > 0 && n <= bytes.len() {
        let i = (n - 1) as nat;
        lemma_bytes_depth(f, out, bytes, i);
        let p = ser_bytes((f, out), bytes, i);
        lemma_pretty_step(p.0, FormatStep::BeginArrayValue(i == 0));
        let s1 = emit(p, FormatStep::BeginArrayValue(i == 0));
        lemma_pretty_step(s1.0, FormatStep::WriteUint(bytes[i as int] as u64));
        let s2 = emit(s1, FormatStep::WriteUint(bytes[i as int] as u64));
        lemma_pretty_step(s2.0, FormatStep::EndArrayValue);
    }
}
} // verus!
