//! What writing a value does: the text that is added to the sink, and the
//! failure that stops the writing, if one does.
use vstd::prelude::*;
use crate::ser::escaping::{escaped, escaped_key};
use crate::ser::value::Data;
use crate::ser::Error;
use crate::text::{decimal, int_text};

verus! {

/// What writing a value does to the sink: the text that is added, and the
/// failure that stopped the writing, if one did. Text written before a
/// failure stays in the sink.
pub ghost struct Trace {
    pub text: Seq<char>,
    pub error: Option<Error>,
}

impl Trace {
    /// Writing `text`, without failure.
    pub open spec fn wrote(text: Seq<char>) -> Trace {
        Trace { text, error: None }
    }

    /// Failing with `error` before anything is written.
    pub open spec fn failed(error: Error) -> Trace {
        Trace { text: Seq::empty(), error: Some(error) }
    }

    /// This trace and then `next`, unless this one failed.
    pub open spec fn and_then(self, next: Trace) -> Trace {
        if self.error is Some {
            self
        } else {
            Trace { text: self.text + next.text, error: next.error }
        }
    }

    /// What the writing function returns.
    pub open spec fn result(self) -> Result<(), Error> {
        match self.error {
            Some(error) => Err(error),
            None => Ok(()),
        }
    }
}

/// Writing `s` as a string literal.
pub open spec fn string_trace(s: Seq<char>) -> Trace {
    if s.contains('\0') {
        Trace::failed(Error::UnencodableNullString)
    } else {
        Trace::wrote(escaped(s))
    }
}

/// Writing `s` as the key of an attribute.
pub open spec fn key_string_trace(s: Seq<char>) -> Trace {
    if s.contains('\0') {
        Trace::failed(Error::UnencodableNullString)
    } else {
        Trace::wrote(escaped_key(s))
    }
}

/// Each byte in decimal digits, with a space behind it.
pub open spec fn bytes_text(bytes: Seq<u8>) -> Seq<char>
    decreases bytes.len(),
{
    if bytes.len() == 0 {
        Seq::empty()
    } else {
        bytes_text(bytes.drop_last()) + decimal(bytes.last() as nat) + " "@
    }
}

/// Writing one element of a sequence: the element, and a space behind it.
pub open spec fn element_trace(item: Data) -> Trace
    decreases item, 1nat,
{
    item.trace().and_then(Trace::wrote(" "@))
}

/// Writing the value of an entry behind its key: ` = `, the value, `; `.
pub open spec fn value_trace(value: Data) -> Trace
    decreases value, 1nat,
{
    Trace::wrote(" = "@).and_then(value.trace()).and_then(Trace::wrote("; "@))
}

/// Writing one entry of a map: its key, and its value behind it.
pub open spec fn entry_trace(key: Data, value: Data) -> Trace
    decreases value, 2nat,
{
    key.key_trace().and_then(value_trace(value))
}

/// Writing one named field: its name as a key, and its value behind it.
pub open spec fn field_trace(name: Seq<char>, value: Data) -> Trace
    decreases value, 2nat,
{
    key_string_trace(name).and_then(value_trace(value))
}

/// Writing the elements of a sequence, one after the other.
pub open spec fn trace_elements(items: Seq<Data>) -> Trace
    decreases items, 0nat,
{
    if items.len() == 0 {
        Trace::wrote(Seq::empty())
    } else {
        trace_elements(items.drop_last()).and_then(element_trace(items.last()))
    }
}

/// Writing the entries of a map, one after the other.
pub open spec fn trace_entries(entries: Seq<(Data, Data)>) -> Trace
    decreases entries, 0nat,
{
    if entries.len() == 0 {
        Trace::wrote(Seq::empty())
    } else {
        trace_entries(entries.drop_last()).and_then(
            entry_trace(entries.last().0, entries.last().1),
        )
    }
}

/// Writing the fields of a struct, one after the other.
pub open spec fn trace_fields(fields: Seq<(Seq<char>, Data)>) -> Trace
    decreases fields, 0nat,
{
    if fields.len() == 0 {
        Trace::wrote(Seq::empty())
    } else {
        trace_fields(fields.drop_last()).and_then(field_trace(fields.last().0, fields.last().1))
    }
}

impl Data {
    /// Writing this value as the key of a map entry. Only a string can be a
    /// key, bare or in a wrapper struct; the name of a variant without
    /// fields counts as one, and is always quoted.
    pub open spec fn key_trace(self) -> Trace
        decreases self,
    {
        match self {
            Data::Str(s) => key_string_trace(s),
            Data::UnitVariant(name) => string_trace(name),
            Data::NewtypeStruct(value) => value.key_trace(),
            _ => Trace::failed(Error::MapKeyMustBeAString),
        }
    }

    /// Writing this value.
    pub open spec fn trace(self) -> Trace
        decreases self, 0nat,
    {
        match self {
            Data::Bool(b) => Trace::wrote(
                if b {
                    "true"@
                } else {
                    "false"@
                },
            ),
            Data::Int(i) => Trace::wrote(int_text(i)),
            Data::Float(text) => Trace::wrote(text),
            Data::Str(s) => string_trace(s),
            Data::Bytes(bytes) => Trace::wrote("[ "@ + bytes_text(bytes) + "]"@),
            Data::Unit => Trace::wrote("null"@),
            Data::Present(value) => value.trace(),
            Data::NewtypeStruct(value) => value.trace(),
            Data::UnitVariant(name) => Trace::wrote(name),
            Data::NewtypeVariant(name, value) => Trace::wrote("{ "@)
                .and_then(string_trace(name))
                .and_then(Trace::wrote(" = "@))
                .and_then(value.trace())
                .and_then(Trace::wrote("; }"@)),
            Data::Sequence(items) => Trace::wrote("[ "@)
                .and_then(trace_elements(items))
                .and_then(Trace::wrote("]"@)),
            Data::TupleVariant(name, items) => Trace::wrote(name)
                .and_then(Trace::wrote("[ "@))
                .and_then(trace_elements(items))
                .and_then(Trace::wrote("]"@)),
            Data::Mapping(entries) => Trace::wrote("{ "@)
                .and_then(trace_entries(entries))
                .and_then(Trace::wrote("}"@)),
            Data::Struct(fields) => Trace::wrote("{ "@)
                .and_then(trace_fields(fields))
                .and_then(Trace::wrote("}"@)),
            Data::StructVariant(name, fields) => Trace::wrote(name)
                .and_then(Trace::wrote("{ "@))
                .and_then(trace_fields(fields))
                .and_then(Trace::wrote("}"@)),
        }
    }
}

/// The numbers that the bytes are.
pub open spec fn byte_items(bytes: Seq<u8>) -> Seq<Data> {
    Seq::new(bytes.len(), |i: int| Data::Int(bytes[i] as int))
}

/// Bytes are written like the sequence of the numbers that they are.
pub proof fn lemma_bytes_are_a_sequence(bytes: Seq<u8>)
    ensures
        trace_elements(byte_items(bytes)) == Trace::wrote(bytes_text(bytes)),
        Data::Bytes(bytes).trace() == Data::Sequence(byte_items(bytes)).trace(),
    decreases bytes.len(),
{
    if bytes.len() > 0 {
        lemma_bytes_are_a_sequence(bytes.drop_last());
        assert(byte_items(bytes).drop_last() =~= byte_items(bytes.drop_last()));
        assert(byte_items(bytes).last() == Data::Int(bytes.last() as int));
        assert(element_trace(Data::Int(bytes.last() as int)).text =~= decimal(
            bytes.last() as nat,
        ) + " "@);
        assert(trace_elements(byte_items(bytes)).text =~= bytes_text(bytes));
    } else {
        assert(byte_items(bytes) =~= Seq::<Data>::empty());
    }
    assert(Data::Sequence(byte_items(bytes)).trace().text =~= "[ "@ + bytes_text(bytes) + "]"@);
}

/// Once the writing of a sequence's elements has failed, later elements
/// change nothing.
pub proof fn lemma_trace_elements_stops(items: Seq<Data>, n: int)
    requires
        0 <= n <= items.len(),
        trace_elements(items.take(n)).error is Some,
    ensures
        trace_elements(items) == trace_elements(items.take(n)),
    decreases items.len() - n,
{
    if n < items.len() {
        assert(items.take(n + 1).drop_last() =~= items.take(n));
        lemma_trace_elements_stops(items, n + 1);
    } else {
        assert(items.take(n) =~= items);
    }
}

/// Once the writing of a map's entries has failed, later entries change
/// nothing.
pub proof fn lemma_trace_entries_stops(entries: Seq<(Data, Data)>, n: int)
    requires
        0 <= n <= entries.len(),
        trace_entries(entries.take(n)).error is Some,
    ensures
        trace_entries(entries) == trace_entries(entries.take(n)),
    decreases entries.len() - n,
{
    if n < entries.len() {
        assert(entries.take(n + 1).drop_last() =~= entries.take(n));
        lemma_trace_entries_stops(entries, n + 1);
    } else {
        assert(entries.take(n) =~= entries);
    }
}

/// Once the writing of a struct's fields has failed, later fields change
/// nothing.
pub proof fn lemma_trace_fields_stops(fields: Seq<(Seq<char>, Data)>, n: int)
    requires
        0 <= n <= fields.len(),
        trace_fields(fields.take(n)).error is Some,
    ensures
        trace_fields(fields) == trace_fields(fields.take(n)),
    decreases fields.len() - n,
{
    if n < fields.len() {
        assert(fields.take(n + 1).drop_last() =~= fields.take(n));
        lemma_trace_fields_stops(fields, n + 1);
    } else {
        assert(fields.take(n) =~= fields);
    }
}

} // verus!
