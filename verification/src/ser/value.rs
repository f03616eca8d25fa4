//! Structured values, and what they stand for.
use vstd::prelude::*;

verus! {

/// A structured value, in the shapes a serializer is handed: primitives,
/// strings, sequences, maps, structs and the variants of enums.
///
/// An absent optional, the unit and a unit struct are `Unit`; a tuple and a
/// tuple struct are a `Sequence`; a character is a `Str`.
#[derive(Debug, PartialEq, Eq)]
pub enum Value {
    Bool(bool),
    Int(i64),
    UInt(u64),
    /// A floating-point number, as the text it is printed with.
    Float(String),
    Str(String),
    Bytes(Vec<u8>),
    Unit,
    /// An optional value that is present.
    Present(Box<Value>),
    /// A struct that wraps one value.
    NewtypeStruct(Box<Value>),
    /// A variant without fields, by its name.
    UnitVariant(String),
    /// A variant with one unnamed field.
    NewtypeVariant(String, Box<Value>),
    Sequence(Vec<Value>),
    /// A variant with several unnamed fields.
    TupleVariant(String, Vec<Value>),
    Mapping(Vec<Entry>),
    Struct(Vec<Field>),
    /// A variant with named fields.
    StructVariant(String, Vec<Field>),
}

/// One entry of a map.
#[derive(Debug, PartialEq, Eq)]
pub struct Entry {
    pub key: Value,
    pub value: Value,
}

/// One named field of a struct or of a variant.
#[derive(Debug, PartialEq, Eq)]
pub struct Field {
    pub name: String,
    pub value: Value,
}

/// What a `Value` stands for.
pub ghost enum Data {
    Bool(bool),
    Int(int),
    Float(Seq<char>),
    Str(Seq<char>),
    Bytes(Seq<u8>),
    Unit,
    Present(Box<Data>),
    NewtypeStruct(Box<Data>),
    UnitVariant(Seq<char>),
    NewtypeVariant(Seq<char>, Box<Data>),
    Sequence(Seq<Data>),
    TupleVariant(Seq<char>, Seq<Data>),
    Mapping(Seq<(Data, Data)>),
    Struct(Seq<(Seq<char>, Data)>),
    StructVariant(Seq<char>, Seq<(Seq<char>, Data)>),
}

/// What each of `values` stands for.
pub open spec fn data_each(values: Seq<Value>) -> Seq<Data>
    decreases values,
{
    if values.len() == 0 {
        Seq::empty()
    } else {
        data_each(values.drop_last()).push(values.last().data())
    }
}

/// What each of `entries` stands for: its key and its value.
pub open spec fn data_entries(entries: Seq<Entry>) -> Seq<(Data, Data)>
    decreases entries,
{
    if entries.len() == 0 {
        Seq::empty()
    } else {
        data_entries(entries.drop_last()).push(
            (entries.last().key.data(), entries.last().value.data()),
        )
    }
}

/// What each of `fields` stands for: its name and its value.
pub open spec fn data_fields(fields: Seq<Field>) -> Seq<(Seq<char>, Data)>
    decreases fields,
{
    if fields.len() == 0 {
        Seq::empty()
    } else {
        data_fields(fields.drop_last()).push((fields.last().name@, fields.last().value.data()))
    }
}

impl Value {
    /// What this value stands for.
    pub open spec fn data(self) -> Data
        decreases self,
    {
        match self {
            Value::Bool(b) => Data::Bool(b),
            Value::Int(i) => Data::Int(i as int),
            Value::UInt(u) => Data::Int(u as int),
            Value::Float(text) => Data::Float(text@),
            Value::Str(s) => Data::Str(s@),
            Value::Bytes(bytes) => Data::Bytes(bytes@),
            Value::Unit => Data::Unit,
            Value::Present(value) => Data::Present(Box::new(value.data())),
            Value::NewtypeStruct(value) => Data::NewtypeStruct(Box::new(value.data())),
            Value::UnitVariant(name) => Data::UnitVariant(name@),
            Value::NewtypeVariant(name, value) => Data::NewtypeVariant(
                name@,
                Box::new(value.data()),
            ),
            Value::Sequence(items) => Data::Sequence(data_each(items@)),
            Value::TupleVariant(name, items) => Data::TupleVariant(name@, data_each(items@)),
            Value::Mapping(entries) => Data::Mapping(data_entries(entries@)),
            Value::Struct(fields) => Data::Struct(data_fields(fields@)),
            Value::StructVariant(name, fields) => Data::StructVariant(name@, data_fields(fields@)),
        }
    }
}

impl View for Value {
    type V = Data;

    open spec fn view(&self) -> Data {
        self.data()
    }
}

/// A prefix of a sequence of values stands for the same prefix of what the
/// sequence stands for.
pub proof fn lemma_data_each_take(values: Seq<Value>, n: int)
    requires
        0 <= n <= values.len(),
    ensures
        data_each(values.take(n)) == data_each(values).take(n),
        data_each(values).len() == values.len(),
        n < values.len() ==> data_each(values)[n] == values[n]@,
    decreases values.len(),
{
    if values.len() > 0 {
        let front = values.drop_last();
        if n < values.len() {
            lemma_data_each_take(front, n);
            assert(front.take(n) =~= values.take(n));
            assert(data_each(values).take(n) =~= data_each(front).take(n));
        } else {
            lemma_data_each_take(front, n - 1);
            assert(values.take(n) =~= values);
            assert(data_each(values).take(n) =~= data_each(values));
        }
    } else {
        assert(values.take(n) =~= values);
        assert(data_each(values).take(n) =~= data_each(values));
    }
}

/// A prefix of the entries of a map stands for the same prefix of what the
/// entries stand for.
pub proof fn lemma_data_entries_take(entries: Seq<Entry>, n: int)
    requires
        0 <= n <= entries.len(),
    ensures
        data_entries(entries.take(n)) == data_entries(entries).take(n),
        data_entries(entries).len() == entries.len(),
        n < entries.len() ==> data_entries(entries)[n] == (entries[n].key@, entries[n].value@),
    decreases entries.len(),
{
    if entries.len() > 0 {
        let front = entries.drop_last();
        if n < entries.len() {
            lemma_data_entries_take(front, n);
            assert(front.take(n) =~= entries.take(n));
            assert(data_entries(entries).take(n) =~= data_entries(front).take(n));
        } else {
            lemma_data_entries_take(front, n - 1);
            assert(entries.take(n) =~= entries);
            assert(data_entries(entries).take(n) =~= data_entries(entries));
        }
    } else {
        assert(entries.take(n) =~= entries);
        assert(data_entries(entries).take(n) =~= data_entries(entries));
    }
}

/// A prefix of the fields of a struct stands for the same prefix of what
/// the fields stand for.
pub proof fn lemma_data_fields_take(fields: Seq<Field>, n: int)
    requires
        0 <= n <= fields.len(),
    ensures
        data_fields(fields.take(n)) == data_fields(fields).take(n),
        data_fields(fields).len() == fields.len(),
        n < fields.len() ==> data_fields(fields)[n] == (fields[n].name@, fields[n].value@),
    decreases fields.len(),
{
    if fields.len() > 0 {
        let front = fields.drop_last();
        if n < fields.len() {
            lemma_data_fields_take(front, n);
            assert(front.take(n) =~= fields.take(n));
            assert(data_fields(fields).take(n) =~= data_fields(front).take(n));
        } else {
            lemma_data_fields_take(front, n - 1);
            assert(fields.take(n) =~= fields);
            assert(data_fields(fields).take(n) =~= data_fields(fields));
        }
    } else {
        assert(fields.take(n) =~= fields);
        assert(data_fields(fields).take(n) =~= data_fields(fields));
    }
}

} // verus!
