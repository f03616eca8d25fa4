use nixpins::ser::{
    escape, escape_char, escape_map_key, to_string, to_writer, Entry, Error, Field, NixExpr,
    Serializer, Value,
};

fn text(s: &str) -> Value {
    Value::Str(s.to_string())
}

fn entry(key: Value, value: Value) -> Entry {
    Entry { key, value }
}

fn field(name: &str, value: Value) -> Field {
    Field { name: name.to_string(), value }
}

fn written(value: &Value) -> (String, Result<(), Error>) {
    let mut out = String::from("> ");
    let res = to_writer(&mut out, value);
    (out, res)
}

#[test]
fn escape_char_handles_each_special_character() {
    assert_eq!(escape_char('\n', None), Ok("\\n".to_string()));
    assert_eq!(escape_char('\t', None), Ok("\\t".to_string()));
    assert_eq!(escape_char('\r', None), Ok("\\r".to_string()));
    assert_eq!(escape_char('\\', None), Ok("\\\\".to_string()));
    assert_eq!(escape_char('"', None), Ok("\\\"".to_string()));
    assert_eq!(escape_char('a', Some(&'{')), Ok("a".to_string()));
    assert_eq!(escape_char('é', None), Ok("é".to_string()));
    assert_eq!(escape_char('\'', None), Ok("'".to_string()));
}

#[test]
fn escape_char_looks_one_character_ahead_for_dollar() {
    assert_eq!(escape_char('$', Some(&'{')), Ok("\\$".to_string()));
    assert_eq!(escape_char('$', Some(&'$')), Ok("$".to_string()));
    assert_eq!(escape_char('$', Some(&'(')), Ok("$".to_string()));
    assert_eq!(escape_char('$', None), Ok("$".to_string()));
    assert_eq!(escape_char('{', None), Ok("{".to_string()));
}

#[test]
fn escape_char_refuses_nul() {
    assert_eq!(escape_char('\0', None), Err(Error::UnencodableNullString));
    assert_eq!(escape_char('\0', Some(&'{')), Err(Error::UnencodableNullString));
}

#[test]
fn escape_quotes_the_string() {
    assert_eq!(escape(""), Ok("\"\"".to_string()));
    assert_eq!(escape("plain"), Ok("\"plain\"".to_string()));
    assert_eq!(escape("a\"b\\c\nd\te\rf"), Ok("\"a\\\"b\\\\c\\nd\\te\\rf\"".to_string()));
}

#[test]
fn interpolation_opener_is_escaped() {
    let out = escape("a${b}").unwrap();
    assert_eq!(out, "\"a\\${b}\"");
    let at = out.find("{").unwrap();
    assert_eq!(&out[at - 2..at], "\\$");

    assert_eq!(escape("${").unwrap(), "\"\\${\"");
    assert_eq!(escape("$${x}").unwrap(), "\"$\\${x}\"");
    assert_eq!(escape("${a}${b}").unwrap(), "\"\\${a}\\${b}\"");
    assert_eq!(to_string(&text("${")).unwrap(), "\"\\${\"");
}

#[test]
fn dollar_elsewhere_is_left_alone() {
    assert_eq!(escape("$").unwrap(), "\"$\"");
    assert_eq!(escape("$x {").unwrap(), "\"$x {\"");
    assert_eq!(escape("a$").unwrap(), "\"a$\"");
    assert_eq!(escape("{$}").unwrap(), "\"{$}\"");
}

#[test]
fn nul_cannot_be_written() {
    assert_eq!(escape("\0"), Err(Error::UnencodableNullString));
    assert_eq!(escape("ab\0cd"), Err(Error::UnencodableNullString));
    assert_eq!(escape_map_key("a\0"), Err(Error::UnencodableNullString));
    assert_eq!(escape_map_key("\0"), Err(Error::UnencodableNullString));
    assert_eq!(to_string(&text("\0")), Err(Error::UnencodableNullString));
    assert_eq!(to_string(&Value::Bytes(vec![0])), Ok("[ 0 ]".to_string()));
}

#[test]
fn keys_are_quoted_only_where_needed() {
    assert_eq!(escape_map_key("if"), Ok("\"if\"".to_string()));
    assert_eq!(escape_map_key("my-key"), Ok("my-key".to_string()));
    assert_eq!(escape_map_key("2bad"), Ok("\"2bad\"".to_string()));
}

#[test]
fn every_keyword_is_quoted() {
    for word in ["if", "then", "else", "assert", "with", "let", "in", "rec", "inherit", "or"] {
        assert_eq!(escape_map_key(word), Ok(format!("\"{word}\"")));
    }
    for word in ["If", "iff", "lets", "_in", "or'", "inherits", "els"] {
        assert_eq!(escape_map_key(word), Ok(word.to_string()));
    }
}

#[test]
fn identifier_keys_stay_bare() {
    for key in ["a", "Z", "_", "_a1", "a'", "a-b", "x_y-z'9", "A0"] {
        assert_eq!(escape_map_key(key), Ok(key.to_string()));
    }
}

#[test]
fn other_keys_are_quoted() {
    for key in ["", "1", "-a", "'a", "a b", "a.b", "é", "aé", "a$", "a/b", "9_"] {
        assert_eq!(escape_map_key(key), Ok(format!("\"{key}\"")));
    }
    assert_eq!(escape_map_key("a\"b"), Ok("\"a\\\"b\"".to_string()));
    assert_eq!(escape_map_key("${a}"), Ok("\"\\${a}\"".to_string()));
}

#[test]
fn booleans_and_numbers() {
    assert_eq!(to_string(&Value::Bool(true)).unwrap(), "true");
    assert_eq!(to_string(&Value::Bool(false)).unwrap(), "false");
    assert_eq!(to_string(&Value::Int(0)).unwrap(), "0");
    assert_eq!(to_string(&Value::Int(-17)).unwrap(), "-17");
    assert_eq!(to_string(&Value::Int(i64::MIN)).unwrap(), "-9223372036854775808");
    assert_eq!(to_string(&Value::Int(i64::MAX)).unwrap(), "9223372036854775807");
    assert_eq!(to_string(&Value::UInt(u64::MAX)).unwrap(), "18446744073709551615");
    assert_eq!(to_string(&Value::UInt(1000)).unwrap(), "1000");
    assert_eq!(to_string(&Value::Float(format!("{}", 1.5f64))).unwrap(), "1.5");
    assert_eq!(to_string(&Value::Float(format!("{}", -0.25f32))).unwrap(), "-0.25");
}

#[test]
fn unit_is_null() {
    assert_eq!(to_string(&Value::Unit).unwrap(), "null");
}

#[test]
fn unit_variant_is_its_bare_name() {
    assert_eq!(to_string(&Value::UnitVariant("Stable".to_string())).unwrap(), "Stable");
    assert_eq!(to_string(&Value::UnitVariant("if".to_string())).unwrap(), "if");
}

#[test]
fn strings_are_quoted() {
    assert_eq!(to_string(&text("hello")).unwrap(), "\"hello\"");
    assert_eq!(to_string(&text("")).unwrap(), "\"\"");
    assert_eq!(to_string(&text("a\nb")).unwrap(), "\"a\\nb\"");
}

#[test]
fn sequences() {
    let seq = Value::Sequence(vec![Value::Int(1), text("a"), Value::Bool(false)]);
    assert_eq!(to_string(&seq).unwrap(), "[ 1 \"a\" false ]");
    assert_eq!(to_string(&Value::Sequence(vec![])).unwrap(), "[ ]");
    let nested = Value::Sequence(vec![Value::Sequence(vec![]), Value::Sequence(vec![Value::Unit])]);
    assert_eq!(to_string(&nested).unwrap(), "[ [ ] [ null ] ]");
}

#[test]
fn bytes_are_a_sequence_of_numbers() {
    assert_eq!(to_string(&Value::Bytes(vec![1, 2, 255])).unwrap(), "[ 1 2 255 ]");
    assert_eq!(to_string(&Value::Bytes(vec![])).unwrap(), "[ ]");
    assert_eq!(
        to_string(&Value::Bytes(vec![104, 105])).unwrap(),
        to_string(&Value::Sequence(vec![Value::UInt(104), Value::UInt(105)])).unwrap()
    );
}

#[test]
fn maps() {
    let map = Value::Mapping(vec![
        entry(text("if"), Value::Int(1)),
        entry(text("my-key"), Value::Int(2)),
        entry(text("2bad"), Value::Int(3)),
    ]);
    assert_eq!(to_string(&map).unwrap(), "{ \"if\" = 1; my-key = 2; \"2bad\" = 3; }");
    assert_eq!(to_string(&Value::Mapping(vec![])).unwrap(), "{ }");
}

#[test]
fn present_optional_and_wrapper_are_their_content() {
    assert_eq!(to_string(&Value::Present(Box::new(Value::Int(5)))).unwrap(), "5");
    assert_eq!(to_string(&Value::NewtypeStruct(Box::new(text("a")))).unwrap(), "\"a\"");
    let nested = Value::Present(Box::new(Value::NewtypeStruct(Box::new(Value::Unit))));
    assert_eq!(to_string(&nested).unwrap(), "null");
    assert_eq!(
        to_string(&Value::Present(Box::new(text("\0")))),
        Err(Error::UnencodableNullString)
    );
}

#[test]
fn wrapper_around_a_string_can_be_a_key() {
    let key = Value::NewtypeStruct(Box::new(Value::NewtypeStruct(Box::new(text("name")))));
    let map = Value::Mapping(vec![entry(key, Value::Int(1))]);
    assert_eq!(to_string(&map).unwrap(), "{ name = 1; }");
    let key = Value::NewtypeStruct(Box::new(Value::Int(1)));
    let map = Value::Mapping(vec![entry(key, Value::Int(1))]);
    assert_eq!(to_string(&map), Err(Error::MapKeyMustBeAString));
}

#[test]
fn variant_name_as_key_is_quoted() {
    let map = Value::Mapping(vec![entry(Value::UnitVariant("Key".to_string()), Value::Unit)]);
    assert_eq!(to_string(&map).unwrap(), "{ \"Key\" = null; }");
}

#[test]
fn key_must_be_a_string() {
    for key in [
        Value::Bool(true),
        Value::Int(1),
        Value::UInt(1),
        Value::Float("1.5".to_string()),
        Value::Bytes(vec![1]),
        Value::Unit,
        Value::Present(Box::new(text("a"))),
        Value::Sequence(vec![]),
        Value::Mapping(vec![]),
        Value::Struct(vec![]),
        Value::NewtypeVariant("V".to_string(), Box::new(Value::Unit)),
        Value::TupleVariant("V".to_string(), vec![]),
        Value::StructVariant("V".to_string(), vec![]),
    ] {
        let map = Value::Mapping(vec![entry(key, Value::Int(2))]);
        assert_eq!(to_string(&map), Err(Error::MapKeyMustBeAString));
    }
}

#[test]
fn structs_are_maps_of_their_fields() {
    let value = Value::Struct(vec![
        field("name", text("n")),
        field("with", Value::Bool(true)),
        field("inner", Value::Struct(vec![field("x", Value::Int(1))])),
    ]);
    assert_eq!(
        to_string(&value).unwrap(),
        "{ name = \"n\"; \"with\" = true; inner = { x = 1; }; }"
    );
    assert_eq!(to_string(&Value::Struct(vec![])).unwrap(), "{ }");
}

#[test]
fn newtype_variant_is_a_set_with_one_quoted_key() {
    let value = Value::NewtypeVariant("Rev".to_string(), Box::new(text("abc")));
    assert_eq!(to_string(&value).unwrap(), "{ \"Rev\" = \"abc\"; }");
}

#[test]
fn tuple_variant_is_its_name_in_front_of_a_sequence() {
    let value = Value::TupleVariant("Pair".to_string(), vec![Value::Int(1), text("b")]);
    assert_eq!(to_string(&value).unwrap(), "Pair[ 1 \"b\" ]");
    assert_eq!(to_string(&Value::TupleVariant("P".to_string(), vec![])).unwrap(), "P[ ]");
}

#[test]
fn struct_variant_is_its_name_in_front_of_a_set() {
    let value = Value::StructVariant(
        "fetchFromGitHub".to_string(),
        vec![field("owner", text("a")), field("repo", text("b"))],
    );
    assert_eq!(to_string(&value).unwrap(), "fetchFromGitHub{ owner = \"a\"; repo = \"b\"; }");
}

#[test]
fn failure_keeps_what_was_written_before_it() {
    let seq = Value::Sequence(vec![Value::Int(1), text("a\0"), Value::Int(3)]);
    assert_eq!(written(&seq), ("> [ 1 ".to_string(), Err(Error::UnencodableNullString)));

    let map = Value::Mapping(vec![
        entry(text("a"), Value::Int(1)),
        entry(Value::Int(2), Value::Int(2)),
    ]);
    assert_eq!(written(&map), ("> { a = 1; ".to_string(), Err(Error::MapKeyMustBeAString)));

    let map = Value::Mapping(vec![entry(text("a"), text("\0"))]);
    assert_eq!(written(&map), ("> { a = ".to_string(), Err(Error::UnencodableNullString)));

    let value = Value::StructVariant("V".to_string(), vec![field("k\0", Value::Unit)]);
    assert_eq!(written(&value), ("> V{ ".to_string(), Err(Error::UnencodableNullString)));

    let value = Value::NewtypeVariant("V\0".to_string(), Box::new(Value::Unit));
    assert_eq!(written(&value), ("> { ".to_string(), Err(Error::UnencodableNullString)));

    let value = Value::NewtypeVariant("V".to_string(), Box::new(text("\0")));
    assert_eq!(written(&value), ("> { \"V\" = ".to_string(), Err(Error::UnencodableNullString)));

    let value = Value::TupleVariant("T".to_string(), vec![text("\0")]);
    assert_eq!(written(&value), ("> T[ ".to_string(), Err(Error::UnencodableNullString)));
}

#[test]
fn to_writer_appends_to_the_sink() {
    let mut out = String::from("x = ");
    assert_eq!(to_writer(&mut out, &Value::Sequence(vec![Value::Int(1)])), Ok(()));
    assert_eq!(out, "x = [ 1 ]");
    assert_eq!(to_writer(&mut out, &Value::Unit), Ok(()));
    assert_eq!(out, "x = [ 1 ]null");
}

#[test]
fn serializer_writes_each_primitive() {
    let mut ser = Serializer::new(String::new());
    ser.serialize_bool(true).unwrap();
    ser.serialize_i8(-8).unwrap();
    ser.serialize_i16(-16).unwrap();
    ser.serialize_i32(-32).unwrap();
    ser.serialize_i64(-64).unwrap();
    ser.serialize_u8(8).unwrap();
    ser.serialize_u16(16).unwrap();
    ser.serialize_u32(32).unwrap();
    ser.serialize_u64(64).unwrap();
    ser.serialize_float("0.5").unwrap();
    ser.serialize_char('c').unwrap();
    ser.serialize_str("s").unwrap();
    ser.serialize_bytes(&[1, 2]).unwrap();
    ser.serialize_unit().unwrap();
    ser.serialize_unit_struct().unwrap();
    ser.serialize_none().unwrap();
    ser.serialize_unit_variant("V").unwrap();
    assert_eq!(
        ser.into_inner(),
        "true-8-16-32-6481632640.5\"c\"\"s\"[ 1 2 ]nullnullnullV"
    );
}

#[test]
fn serializer_writes_characters_as_strings() {
    let mut ser = Serializer::new(String::new());
    ser.serialize_char('"').unwrap();
    ser.serialize_char('$').unwrap();
    ser.serialize_char('\n').unwrap();
    assert_eq!(ser.serialize_char('\0'), Err(Error::UnencodableNullString));
    assert_eq!(ser.into_inner(), "\"\\\"\"\"$\"\"\\n\"");
}

#[test]
fn serializer_passes_wrapped_values_through() {
    let mut ser = Serializer::new(String::from("a"));
    ser.serialize_some(&Value::Int(1)).unwrap();
    ser.serialize_newtype_struct(&text("w")).unwrap();
    ser.serialize_newtype_variant("V", &Value::Bool(false)).unwrap();
    ser.serialize(&Value::Unit).unwrap();
    assert_eq!(ser.into_inner(), "a1\"w\"{ \"V\" = false; }null");
}

#[test]
fn sequence_step_by_step() {
    let mut ser = Serializer::new(String::new());
    let seq = ser.serialize_seq().unwrap();
    assert_eq!(seq, NixExpr::List);
    seq.serialize_element(&mut ser, &Value::Int(1)).unwrap();
    seq.serialize_element(&mut ser, &text("b")).unwrap();
    seq.end(&mut ser).unwrap();
    assert_eq!(ser.into_inner(), "[ 1 \"b\" ]");

    let mut ser = Serializer::new(String::new());
    assert_eq!(ser.serialize_tuple(), Ok(NixExpr::List));
    assert_eq!(ser.serialize_tuple_struct(), Ok(NixExpr::List));
    assert_eq!(ser.serialize_tuple_variant("T"), Ok(NixExpr::List));
    assert_eq!(ser.into_inner(), "[ [ T[ ");
}

#[test]
fn map_step_by_step() {
    let mut ser = Serializer::new(String::new());
    let map = ser.serialize_map().unwrap();
    assert_eq!(map, NixExpr::Attrs);
    map.serialize_key(&mut ser, &text("a")).unwrap();
    map.serialize_value(&mut ser, &Value::Int(1)).unwrap();
    map.serialize_field(&mut ser, "let", &Value::Unit).unwrap();
    map.serialize_entry(&mut ser, &text("b c"), &Value::Bool(true)).unwrap();
    assert_eq!(
        map.serialize_key(&mut ser, &Value::Int(1)),
        Err(Error::MapKeyMustBeAString)
    );
    map.end(&mut ser).unwrap();
    assert_eq!(ser.into_inner(), "{ a = 1; \"let\" = null; \"b c\" = true; }");

    let mut ser = Serializer::new(String::new());
    assert_eq!(ser.serialize_struct(), Ok(NixExpr::Attrs));
    assert_eq!(ser.serialize_struct_variant("S"), Ok(NixExpr::Attrs));
    assert_eq!(ser.into_inner(), "{ S{ ");
}

#[test]
fn custom_error_holds_its_message() {
    assert_eq!(Error::custom("bad".to_string()), Error::Custom("bad".to_string()));
    assert_eq!(Error::custom("bad".to_string()).message(), "bad");
}

#[test]
fn error_messages() {
    assert_eq!(Error::UnencodableNullString.message(), "nix strings may not contain null bytes");
    assert_eq!(Error::MapKeyMustBeAString.message(), "nix map keys must be strings");
    assert_eq!(Error::Io("disk full".to_string()).message(), "disk full");
    assert_eq!(Error::InvalidUTF8String("bad byte".to_string()).message(), "bad byte");
}
