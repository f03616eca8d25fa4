//! Serializer from structured values to expression text.
//!
//! Differs from a plain attribute-set encoding in one point: an enum variant
//! with fields is written as its bare name in front of its fields, like a
//! function applied to them.
use vstd::prelude::*;
use crate::text::{push_char, push_decimal, push_int};

pub mod escaping;
pub mod trace;
pub mod value;

pub use crate::ser::escaping::{escape, escape_char, escape_map_key};
pub use crate::ser::trace::Trace;
pub use crate::ser::value::{Data, Entry, Field, Value};

use crate::ser::trace::{
    bytes_text, element_trace, entry_trace, field_trace, key_string_trace,
    lemma_trace_elements_stops, lemma_trace_entries_stops, lemma_trace_fields_stops, trace_elements,
    trace_entries, trace_fields, value_trace,
};
use crate::ser::value::{
    data_each, data_entries, data_fields, lemma_data_each_take, lemma_data_entries_take,
    lemma_data_fields_take,
};

verus! {

/// Why a value cannot be written.
#[derive(Debug, Clone, PartialEq, Eq)]
pub enum Error {
    /// The sink failed. Holds its message.
    Io(String),
    /// A string holds a NUL character, which no string of the target
    /// language can hold.
    UnencodableNullString,
    /// The bytes written are not UTF-8. Holds the message.
    InvalidUTF8String(String),
    /// The key of a map entry is not a string.
    MapKeyMustBeAString,
    /// Any other failure, in words.
    Custom(String),
}

impl Error {
    /// The failure that says `msg`.
    pub fn custom(msg: String) -> (error: Error)
        ensures
            error == Error::Custom(msg),
    {
        Error::Custom(msg)
    }

    /// What to tell the user.
    pub open spec fn spec_message(self) -> Seq<char> {
        match self {
            Error::Io(text) => text@,
            Error::UnencodableNullString => "nix strings may not contain null bytes"@,
            Error::InvalidUTF8String(text) => text@,
            Error::MapKeyMustBeAString => "nix map keys must be strings"@,
            Error::Custom(text) => text@,
        }
    }

    /// What to tell the user.
    pub fn message(&self) -> (text: String)
        ensures
            text@ == self.spec_message(),
    {
        match self {
            Error::Io(text) => text.clone(),
            Error::UnencodableNullString => String::from_str(
                "nix strings may not contain null bytes",
            ),
            Error::InvalidUTF8String(text) => text.clone(),
            Error::MapKeyMustBeAString => String::from_str("nix map keys must be strings"),
            Error::Custom(text) => text.clone(),
        }
    }
}

/// Writes values as expression text into a sink that it owns.
///
/// Every method adds to the sink and takes nothing away. A method that
/// fails leaves in the sink what it wrote before it failed.
#[derive(Debug)]
pub struct Serializer {
    writer: String,
}

impl View for Serializer {
    type V = Seq<char>;

    /// The text in the sink.
    closed spec fn view(&self) -> Seq<char> {
        self.writer@
    }
}

/// A compound value that has been opened and is not closed yet.
#[derive(Debug, Clone, Copy, PartialEq, Eq)]
pub enum NixExpr {
    /// A sequence: `[ ` is written, elements follow.
    List,
    /// An attribute set: `{ ` is written, entries follow.
    Attrs,
}

impl Serializer {
    /// A serializer that writes behind what `writer` holds.
    pub fn new(writer: String) -> (ser: Serializer)
        ensures
            ser@ == writer@,
    {
        Serializer { writer }
    }

    /// The sink, with all that was written.
    pub fn into_inner(self) -> (writer: String)
        ensures
            writer@ == self@,
    {
        self.writer
    }

    /// Adds `text` to the sink.
    fn write(&mut self, text: &str)
        ensures
            final(self)@ == old(self)@ + text@,
    {
        self.writer.append(text);
    }

    /// Writes `true` or `false`.
    pub fn serialize_bool(&mut self, value: bool) -> (res: Result<(), Error>)
        ensures
            res == Ok::<(), Error>(()),
            final(self)@ == old(self)@ + Data::Bool(value).trace().text,
    {
        if value {
            self.write("true");
        } else {
            self.write("false");
        }
        Ok(())
    }

    /// Writes a number in decimal digits.
    pub fn serialize_i8(&mut self, value: i8) -> (res: Result<(), Error>)
        ensures
            res == Ok::<(), Error>(()),
            final(self)@ == old(self)@ + Data::Int(value as int).trace().text,
    {
        self.serialize_i64(value as i64)
    }

    /// Writes a number in decimal digits.
    pub fn serialize_i16(&mut self, value: i16) -> (res: Result<(), Error>)
        ensures
            res == Ok::<(), Error>(()),
            final(self)@ == old(self)@ + Data::Int(value as int).trace().text,
    {
        self.serialize_i64(value as i64)
    }

    /// Writes a number in decimal digits.
    pub fn serialize_i32(&mut self, value: i32) -> (res: Result<(), Error>)
        ensures
            res == Ok::<(), Error>(()),
            final(self)@ == old(self)@ + Data::Int(value as int).trace().text,
    {
        self.serialize_i64(value as i64)
    }

    /// Writes a number in decimal digits, behind a minus sign if it is
    /// negative.
    pub fn serialize_i64(&mut self, value: i64) -> (res: Result<(), Error>)
        ensures
            res == Ok::<(), Error>(()),
            final(self)@ == old(self)@ + Data::Int(value as int).trace().text,
    {
        push_int(&mut self.writer, value);
        Ok(())
    }

    /// Writes a number in decimal digits.
    pub fn serialize_u8(&mut self, value: u8) -> (res: Result<(), Error>)
        ensures
            res == Ok::<(), Error>(()),
            final(self)@ == old(self)@ + Data::Int(value as int).trace().text,
    {
        self.serialize_u64(value as u64)
    }

    /// Writes a number in decimal digits.
    pub fn serialize_u16(&mut self, value: u16) -> (res: Result<(), Error>)
        ensures
            res == Ok::<(), Error>(()),
            final(self)@ == old(self)@ + Data::Int(value as int).trace().text,
    {
        self.serialize_u64(value as u64)
    }

    /// Writes a number in decimal digits.
    pub fn serialize_u32(&mut self, value: u32) -> (res: Result<(), Error>)
        ensures
            res == Ok::<(), Error>(()),
            final(self)@ == old(self)@ + Data::Int(value as int).trace().text,
    {
        self.serialize_u64(value as u64)
    }

    /// Writes a number in decimal digits.
    pub fn serialize_u64(&mut self, value: u64) -> (res: Result<(), Error>)
        ensures
            res == Ok::<(), Error>(()),
            final(self)@ == old(self)@ + Data::Int(value as int).trace().text,
    {
        push_decimal(&mut self.writer, value);
        Ok(())
    }

    /// Writes a floating-point number, given as the text it is printed with.
    pub fn serialize_float(&mut self, text: &str) -> (res: Result<(), Error>)
        ensures
            res == Ok::<(), Error>(()),
            final(self)@ == old(self)@ + Data::Float(text@).trace().text,
    {
        self.write(text);
        Ok(())
    }

    /// Writes a character, as the string that holds it alone.
    pub fn serialize_char(&mut self, value: char) -> (res: Result<(), Error>)
        ensures
            res == Data::Str(seq![value]).trace().result(),
            final(self)@ == old(self)@ + Data::Str(seq![value]).trace().text,
    {
        let mut text = String::new();
        push_char(&mut text, value);
        self.serialize_str(text.as_str())
    }

    /// Writes a string literal. Nothing is written if the string holds a
    /// NUL character.
    pub fn serialize_str(&mut self, value: &str) -> (res: Result<(), Error>)
        ensures
            res == Data::Str(value@).trace().result(),
            final(self)@ == old(self)@ + Data::Str(value@).trace().text,
    {
        match escape(value) {
            Ok(text) => {
                self.write(text.as_str());
                Ok(())
            },
            Err(error) => Err(error),
        }
    }

    /// Writes bytes as a sequence of numbers.
    pub fn serialize_bytes(&mut self, value: &[u8]) -> (res: Result<(), Error>)
        ensures
            res == Ok::<(), Error>(()),
            final(self)@ == old(self)@ + Data::Bytes(value@).trace().text,
    {
        self.write("[ ");
        let mut i: usize = 0;
        assert(value@.take(0) =~= Seq::<u8>::empty());
        while i < value.len()
            invariant
                i <= value.len(),
                self@ == old(self)@ + "[ "@ + bytes_text(value@.take(i as int)),
            decreases value.len() - i,
        {
            push_decimal(&mut self.writer, value[i] as u64);
            self.write(" ");
            assert(value@.take(i + 1).drop_last() =~= value@.take(i as int));
            i += 1;
        }
        assert(value@.take(value.len() as int) =~= value@);
        self.write("]");
        Ok(())
    }

    /// Writes the unit: `null`.
    pub fn serialize_unit(&mut self) -> (res: Result<(), Error>)
        ensures
            res == Ok::<(), Error>(()),
            final(self)@ == old(self)@ + Data::Unit.trace().text,
    {
        self.write("null");
        Ok(())
    }

    /// Writes a struct without fields: `null`.
    pub fn serialize_unit_struct(&mut self) -> (res: Result<(), Error>)
        ensures
            res == Ok::<(), Error>(()),
            final(self)@ == old(self)@ + Data::Unit.trace().text,
    {
        self.write("null");
        Ok(())
    }

    /// Writes a variant without fields: its bare name.
    pub fn serialize_unit_variant(&mut self, variant: &str) -> (res: Result<(), Error>)
        ensures
            res == Ok::<(), Error>(()),
            final(self)@ == old(self)@ + Data::UnitVariant(variant@).trace().text,
    {
        self.write(variant);
        Ok(())
    }

    /// Writes an optional value that is absent: `null`.
    pub fn serialize_none(&mut self) -> (res: Result<(), Error>)
        ensures
            res == Ok::<(), Error>(()),
            final(self)@ == old(self)@ + Data::Unit.trace().text,
    {
        self.serialize_unit()
    }

    /// Opens a sequence.
    pub fn serialize_seq(&mut self) -> (res: Result<NixExpr, Error>)
        ensures
            res == Ok::<_, Error>(NixExpr::List),
            final(self)@ == old(self)@ + "[ "@,
    {
        self.write("[ ");
        Ok(NixExpr::List)
    }

    /// Opens a tuple, which is written as a sequence.
    pub fn serialize_tuple(&mut self) -> (res: Result<NixExpr, Error>)
        ensures
            res == Ok::<_, Error>(NixExpr::List),
            final(self)@ == old(self)@ + "[ "@,
    {
        self.serialize_seq()
    }

    /// Opens a tuple struct, which is written as a sequence.
    pub fn serialize_tuple_struct(&mut self) -> (res: Result<NixExpr, Error>)
        ensures
            res == Ok::<_, Error>(NixExpr::List),
            final(self)@ == old(self)@ + "[ "@,
    {
        self.serialize_seq()
    }

    /// Opens a variant with unnamed fields: its bare name, and a sequence
    /// right behind it.
    pub fn serialize_tuple_variant(&mut self, variant: &str) -> (res: Result<NixExpr, Error>)
        ensures
            res == Ok::<_, Error>(NixExpr::List),
            final(self)@ == old(self)@ + variant@ + "[ "@,
    {
        self.write(variant);
        self.serialize_seq()
    }

    /// Opens a map.
    pub fn serialize_map(&mut self) -> (res: Result<NixExpr, Error>)
        ensures
            res == Ok::<_, Error>(NixExpr::Attrs),
            final(self)@ == old(self)@ + "{ "@,
    {
        self.write("{ ");
        Ok(NixExpr::Attrs)
    }

    /// Opens a struct, which is written as a map.
    pub fn serialize_struct(&mut self) -> (res: Result<NixExpr, Error>)
        ensures
            res == Ok::<_, Error>(NixExpr::Attrs),
            final(self)@ == old(self)@ + "{ "@,
    {
        self.serialize_map()
    }

    /// Opens a variant with named fields: its bare name, and a map right
    /// behind it.
    pub fn serialize_struct_variant(&mut self, variant: &str) -> (res: Result<NixExpr, Error>)
        ensures
            res == Ok::<_, Error>(NixExpr::Attrs),
            final(self)@ == old(self)@ + variant@ + "{ "@,
    {
        self.write(variant);
        self.serialize_map()
    }
}

impl NixExpr {
    /// Writes one element of the open sequence, and a space behind it.
    pub fn serialize_element(&self, ser: &mut Serializer, value: &Value) -> (res: Result<
        (),
        Error,
    >)
        requires
            self is List,
        ensures
            res == element_trace(value@).result(),
            final(ser)@ == old(ser)@ + element_trace(value@).text,
        decreases value, 1nat,
    {
        match ser.serialize(value) {
            Ok(()) => {
                ser.write(" ");
                Ok(())
            },
            Err(error) => Err(error),
        }
    }

    /// Writes the key of the next entry of the open attribute set.
    pub fn serialize_key(&self, ser: &mut Serializer, key: &Value) -> (res: Result<(), Error>)
        requires
            self is Attrs,
        ensures
            res == key@.key_trace().result(),
            final(ser)@ == old(ser)@ + key@.key_trace().text,
        decreases key,
    {
        match key {
            Value::Str(name) => ser.write_key(name.as_str()),
            Value::UnitVariant(name) => ser.serialize_str(name.as_str()),
            Value::NewtypeStruct(inner) => self.serialize_key(ser, inner),
            _ => Err(Error::MapKeyMustBeAString),
        }
    }

    /// Writes the value of an entry behind its key: ` = `, the value, `; `.
    pub fn serialize_value(&self, ser: &mut Serializer, value: &Value) -> (res: Result<
        (),
        Error,
    >)
        requires
            self is Attrs,
        ensures
            res == value_trace(value@).result(),
            final(ser)@ == old(ser)@ + value_trace(value@).text,
        decreases value, 1nat,
    {
        ser.write(" = ");
        match ser.serialize(value) {
            Ok(()) => {
                ser.write("; ");
                Ok(())
            },
            Err(error) => Err(error),
        }
    }

    /// Writes one entry of the open attribute set: `key = value; `.
    pub fn serialize_entry(&self, ser: &mut Serializer, key: &Value, value: &Value) -> (res:
        Result<(), Error>)
        requires
            self is Attrs,
        ensures
            res == entry_trace(key@, value@).result(),
            final(ser)@ == old(ser)@ + entry_trace(key@, value@).text,
        decreases value, 2nat,
    {
        match self.serialize_key(ser, key) {
            Ok(()) => self.serialize_value(ser, value),
            Err(error) => Err(error),
        }
    }

    /// Writes one named field of the open attribute set: `key = value; `.
    pub fn serialize_field(&self, ser: &mut Serializer, key: &str, value: &Value) -> (res:
        Result<(), Error>)
        requires
            self is Attrs,
        ensures
            res == field_trace(key@, value@).result(),
            final(ser)@ == old(ser)@ + field_trace(key@, value@).text,
        decreases value, 2nat,
    {
        match ser.write_key(key) {
            Ok(()) => self.serialize_value(ser, value),
            Err(error) => Err(error),
        }
    }

    /// Closes the compound: `]` behind a sequence, `}` behind an attribute set.
    pub fn end(self, ser: &mut Serializer) -> (res: Result<(), Error>)
        ensures
            res == Ok::<(), Error>(()),
            final(ser)@ == old(ser)@ + (match self {
                NixExpr::List => "]"@,
                NixExpr::Attrs => "}"@,
            }),
    {
        match self {
            NixExpr::List => ser.write("]"),
            NixExpr::Attrs => ser.write("}"),
        }
        Ok(())
    }
}

impl Serializer {
    /// Writes `key` as the key of an attribute. Nothing is written if the
    /// key holds a NUL character.
    fn write_key(&mut self, key: &str) -> (res: Result<(), Error>)
        ensures
            res == key_string_trace(key@).result(),
            final(self)@ == old(self)@ + key_string_trace(key@).text,
    {
        match escape_map_key(key) {
            Ok(text) => {
                self.write(text.as_str());
                Ok(())
            },
            Err(error) => Err(error),
        }
    }

    /// Writes an optional value that is present: the value itself.
    pub fn serialize_some(&mut self, value: &Value) -> (res: Result<(), Error>)
        ensures
            res == Data::Present(Box::new(value@)).trace().result(),
            final(self)@ == old(self)@ + Data::Present(Box::new(value@)).trace().text,
        decreases value, 1nat,
    {
        self.serialize(value)
    }

    /// Writes a struct that wraps one value: the value itself.
    pub fn serialize_newtype_struct(&mut self, value: &Value) -> (res: Result<(), Error>)
        ensures
            res == Data::NewtypeStruct(Box::new(value@)).trace().result(),
            final(self)@ == old(self)@ + Data::NewtypeStruct(Box::new(value@)).trace().text,
        decreases value, 1nat,
    {
        self.serialize(value)
    }

    /// Writes a variant with one unnamed field, as an attribute set with
    /// one entry: the quoted name of the variant, and the field.
    pub fn serialize_newtype_variant(&mut self, variant: &str, value: &Value) -> (res: Result<
        (),
        Error,
    >)
        ensures
            res == Data::NewtypeVariant(variant@, Box::new(value@)).trace().result(),
            final(self)@ == old(self)@ + Data::NewtypeVariant(
                variant@,
                Box::new(value@),
            ).trace().text,
        decreases value, 1nat,
    {
        self.write("{ ");
        match self.serialize_str(variant) {
            Ok(()) => {},
            Err(error) => {
                return Err(error);
            },
        }
        self.write(" = ");
        match self.serialize(value) {
            Ok(()) => {},
            Err(error) => {
                return Err(error);
            },
        }
        self.write("; }");
        Ok(())
    }

    /// Writes every element of an open sequence.
    fn serialize_elements(&mut self, state: NixExpr, items: &Vec<Value>) -> (res: Result<
        (),
        Error,
    >)
        requires
            state is List,
        ensures
            res == trace_elements(data_each(items@)).result(),
            final(self)@ == old(self)@ + trace_elements(data_each(items@)).text,
        decreases items, 2nat,
    {
        let mut i: usize = 0;
        assert(data_each(items@).take(0) =~= Seq::<Data>::empty());
        while i < items.len()
            invariant
                i <= items.len(),
                state is List,
                trace_elements(data_each(items@).take(i as int)).error is None,
                self@ == old(self)@ + trace_elements(data_each(items@).take(i as int)).text,
            decreases items.len() - i,
        {
            let ghost all = data_each(items@);
            proof {
                lemma_data_each_take(items@, i as int);
                assert(all.take(i + 1).drop_last() =~= all.take(i as int));
            }
            match state.serialize_element(self, &items[i]) {
                Ok(()) => {},
                Err(error) => {
                    proof {
                        lemma_trace_elements_stops(all, i + 1);
                    }
                    return Err(error);
                },
            }
            i += 1;
        }
        proof {
            lemma_data_each_take(items@, items.len() as int);
            assert(data_each(items@).take(items.len() as int) =~= data_each(items@));
        }
        Ok(())
    }

    /// Writes every entry of an open attribute set.
    fn serialize_entries(&mut self, state: NixExpr, entries: &Vec<Entry>) -> (res: Result<
        (),
        Error,
    >)
        requires
            state is Attrs,
        ensures
            res == trace_entries(data_entries(entries@)).result(),
            final(self)@ == old(self)@ + trace_entries(data_entries(entries@)).text,
        decreases entries, 2nat,
    {
        let mut i: usize = 0;
        assert(data_entries(entries@).take(0) =~= Seq::<(Data, Data)>::empty());
        while i < entries.len()
            invariant
                i <= entries.len(),
                state is Attrs,
                trace_entries(data_entries(entries@).take(i as int)).error is None,
                self@ == old(self)@ + trace_entries(data_entries(entries@).take(i as int)).text,
            decreases entries.len() - i,
        {
            let ghost all = data_entries(entries@);
            proof {
                lemma_data_entries_take(entries@, i as int);
                assert(all.take(i + 1).drop_last() =~= all.take(i as int));
            }
            match state.serialize_entry(self, &entries[i].key, &entries[i].value) {
                Ok(()) => {},
                Err(error) => {
                    proof {
                        lemma_trace_entries_stops(all, i + 1);
                    }
                    return Err(error);
                },
            }
            i += 1;
        }
        proof {
            lemma_data_entries_take(entries@, entries.len() as int);
            assert(data_entries(entries@).take(entries.len() as int) =~= data_entries(entries@));
        }
        Ok(())
    }

    /// Writes every field of an open attribute set.
    fn serialize_fields(&mut self, state: NixExpr, fields: &Vec<Field>) -> (res: Result<
        (),
        Error,
    >)
        requires
            state is Attrs,
        ensures
            res == trace_fields(data_fields(fields@)).result(),
            final(self)@ == old(self)@ + trace_fields(data_fields(fields@)).text,
        decreases fields, 3nat,
    {
        let mut i: usize = 0;
        assert(data_fields(fields@).take(0) =~= Seq::<(Seq<char>, Data)>::empty());
        while i < fields.len()
            invariant
                i <= fields.len(),
                state is Attrs,
                trace_fields(data_fields(fields@).take(i as int)).error is None,
                self@ == old(self)@ + trace_fields(data_fields(fields@).take(i as int)).text,
            decreases fields.len() - i,
        {
            let ghost all = data_fields(fields@);
            proof {
                lemma_data_fields_take(fields@, i as int);
                assert(all.take(i + 1).drop_last() =~= all.take(i as int));
            }
            match state.serialize_field(self, fields[i].name.as_str(), &fields[i].value) {
                Ok(()) => {},
                Err(error) => {
                    proof {
                        lemma_trace_fields_stops(all, i + 1);
                    }
                    return Err(error);
                },
            }
            i += 1;
        }
        proof {
            lemma_data_fields_take(fields@, fields.len() as int);
            assert(data_fields(fields@).take(fields.len() as int) =~= data_fields(fields@));
        }
        Ok(())
    }

    /// Writes `value`, whatever its shape.
    pub fn serialize(&mut self, value: &Value) -> (res: Result<(), Error>)
        ensures
            res == value@.trace().result(),
            final(self)@ == old(self)@ + value@.trace().text,
        decreases value, 0nat,
    {
        match value {
            Value::Bool(b) => self.serialize_bool(*b),
            Value::Int(i) => self.serialize_i64(*i),
            Value::UInt(u) => self.serialize_u64(*u),
            Value::Float(text) => self.serialize_float(text.as_str()),
            Value::Str(s) => self.serialize_str(s.as_str()),
            Value::Bytes(bytes) => self.serialize_bytes(bytes.as_slice()),
            Value::Unit => self.serialize_unit(),
            Value::Present(inner) => self.serialize_some(inner),
            Value::NewtypeStruct(inner) => self.serialize_newtype_struct(inner),
            Value::UnitVariant(name) => self.serialize_unit_variant(name.as_str()),
            Value::NewtypeVariant(name, inner) => self.serialize_newtype_variant(
                name.as_str(),
                inner,
            ),
            Value::Sequence(items) => {
                let state = NixExpr::List;
                let _ = self.serialize_seq();
                match self.serialize_elements(state, items) {
                    Ok(()) => state.end(self),
                    Err(error) => Err(error),
                }
            },
            Value::TupleVariant(name, items) => {
                let state = NixExpr::List;
                let _ = self.serialize_tuple_variant(name.as_str());
                match self.serialize_elements(state, items) {
                    Ok(()) => state.end(self),
                    Err(error) => Err(error),
                }
            },
            Value::Mapping(entries) => {
                let state = NixExpr::Attrs;
                let _ = self.serialize_map();
                match self.serialize_entries(state, entries) {
                    Ok(()) => state.end(self),
                    Err(error) => Err(error),
                }
            },
            Value::Struct(fields) => {
                let state = NixExpr::Attrs;
                let _ = self.serialize_struct();
                match self.serialize_fields(state, fields) {
                    Ok(()) => state.end(self),
                    Err(error) => Err(error),
                }
            },
            Value::StructVariant(name, fields) => {
                let state = NixExpr::Attrs;
                let _ = self.serialize_struct_variant(name.as_str());
                match self.serialize_fields(state, fields) {
                    Ok(()) => state.end(self),
                    Err(error) => Err(error),
                }
            },
        }
    }
}

/// Writes `value` behind what `writer` holds.
pub fn to_writer(writer: &mut String, value: &Value) -> (res: Result<(), Error>)
    ensures
        res == value@.trace().result(),
        final(writer)@ == old(writer)@ + value@.trace().text,
{
    let mut ser = Serializer::new(String::new());
    let res = ser.serialize(value);
    writer.append(ser.into_inner().as_str());
    res
}

/// The text of `value`.
pub fn to_string(value: &Value) -> (res: Result<String, Error>)
    ensures
        match res {
            Ok(text) => value@.trace().error is None && text@ == value@.trace().text,
            Err(error) => value@.trace().error == Some(error),
        },
{
    let mut text = String::new();
    match to_writer(&mut text, value) {
        Ok(()) => Ok(text),
        Err(error) => Err(error),
    }
}

} // verus!
