use quick_js::engine::{EngineBigInt, EngineProperty, EngineValue};
use std::sync::atomic::{AtomicUsize, Ordering};
use quick_js::ser::{
    finish, serialize, Internal, SerializationError, Serialize, SerializeMap, SerializeSeq,
    SerializeStructVariant, SerializeTupleVariant, Serializer,
};

type Piece = Result<EngineValue, SerializationError>;

fn quote(bytes: &[u8]) -> String {
    let text = String::from_utf8(bytes.to_vec()).unwrap();
    let mut out = String::from("\"");
    for c in text.chars() {
        match c {
            '"' => out.push_str("\\\""),
            '\\' => out.push_str("\\\\"),
            '\n' => out.push_str("\\n"),
            other => out.push(other),
        }
    }
    out.push('"');
    out
}

/// Renders an engine value the way the script's `JSON.stringify` does.
fn stringify(value: &EngineValue) -> String {
    match value {
        EngineValue::Null | EngineValue::Undefined => "null".to_string(),
        EngineValue::Bool(raw) => (if *raw > 0 { "true" } else { "false" }).to_string(),
        EngineValue::Int(n) => n.to_string(),
        EngineValue::Float64(bits) => f64::from_bits(*bits).to_string(),
        EngineValue::String(Some(bytes)) => quote(bytes),
        EngineValue::BigInt(EngineBigInt::Small(n)) => n.to_string(),
        EngineValue::BigInt(EngineBigInt::Text(Some(bytes))) => {
            String::from_utf8(bytes.clone()).unwrap()
        }
        EngineValue::Array(items) => {
            let parts: Vec<String> = items.iter().map(stringify).collect();
            format!("[{}]", parts.join(","))
        }
        EngineValue::Object(Some(props)) => {
            let parts: Vec<String> = props
                .iter()
                .map(|EngineProperty { key, value }| match key {
                    EngineValue::String(Some(name)) => {
                        format!("{}:{}", quote(name), stringify(value))
                    }
                    other => panic!("unexpected key {:?}", other),
                })
                .collect();
            format!("{{{}}}", parts.join(","))
        }
        other => panic!("cannot render {:?}", other),
    }
}

fn run(piece: Piece) -> String {
    stringify(&piece.expect("serialization should succeed"))
}

fn run_serialize_error(piece: Piece) -> SerializationError {
    piece.expect_err("serialization should fail")
}

fn ser() -> Serializer {
    Serializer::new()
}

#[test]
fn u8() {
    assert_eq!(run(serialize(&5u8)), "5");
}

#[test]
fn u16() {
    assert_eq!(run(serialize(&5u16)), "5");
}

#[test]
fn u32() {
    assert_eq!(run(serialize(&5u32)), "5");
}

#[test]
fn u64() {
    assert_eq!(run(serialize(&5u64)), "5");
}

#[test]
fn u128() {
    assert_eq!(run(serialize(&5u128)), "5");
}

#[test]
fn i8() {
    assert_eq!(run(serialize(&-5i8)), "-5");
}

#[test]
fn i16() {
    assert_eq!(run(serialize(&-5i16)), "-5");
}

#[test]
fn i32() {
    assert_eq!(run(serialize(&-5i32)), "-5");
}

#[test]
fn i64() {
    assert_eq!(run(serialize(&-5i64)), "-5");
}

#[test]
fn i128() {
    assert_eq!(run(serialize(&-5i128)), "-5");
}

#[test]
fn bool() {
    assert_eq!(run(serialize(&true)), "true");
    assert_eq!(run(serialize(&false)), "false");
}

#[test]
fn char() {
    assert_eq!(run(serialize(&'a')), r#""a""#);
}

#[test]
fn str() {
    assert_eq!(run(serialize("abc")), r#""abc""#);
}

#[test]
fn string() {
    assert_eq!(run(serialize(&String::from("abc"))), r#""abc""#);
}

#[test]
fn unit() {
    assert_eq!(run(serialize(&())), "null");
}

#[test]
fn option() {
    assert_eq!(run(serialize(&Some(5u8))), "5");
    assert_eq!(run(serialize(&None::<u8>)), "null");
}

fn pair(mut seq: SerializeSeq) -> Piece {
    seq.serialize_element(ser().serialize_u8(5u8))?;
    seq.serialize_element(ser().serialize_u8(6u8))?;
    seq.end()
}

#[test]
fn vec() {
    assert_eq!(run(serialize(&vec![5u8, 6u8])), "[5,6]");
}

#[test]
fn tuple() {
    assert_eq!(run(pair(ser().serialize_tuple(2))), "[5,6]");
}

#[test]
fn tuple_struct() {
    let mut seq = ser().serialize_tuple_struct("TupleStruct", 2);
    seq.serialize_field(ser().serialize_u8(5u8)).unwrap();
    seq.serialize_field(ser().serialize_u8(6u8)).unwrap();
    assert_eq!(run(seq.end()), "[5,6]");
}

#[test]
fn map() {
    let mut map = ser().serialize_map(Some(2));
    map.serialize_entry(ser().serialize_str("a"), ser().serialize_u8(5u8))
        .unwrap();
    map.serialize_entry(ser().serialize_str("b"), ser().serialize_u8(6u8))
        .unwrap();
    assert_eq!(run(map.end()), r#"{"a":5,"b":6}"#);
}

#[test]
fn struct_() {
    let mut s = ser().serialize_struct("Struct", 2);
    s.serialize_field("a", ser().serialize_u8(5u8)).unwrap();
    s.serialize_field("b", ser().serialize_u8(6u8)).unwrap();
    assert_eq!(run(s.end()), r#"{"a":5,"b":6}"#);
}

#[test]
fn struct_with_lifetime() {
    let mut s = ser().serialize_struct("Struct", 2);
    s.serialize_field("a", ser().serialize_str("abc")).unwrap();
    s.serialize_field("b", ser().serialize_str("def")).unwrap();
    assert_eq!(run(s.end()), r#"{"a":"abc","b":"def"}"#);
}

#[test]
fn struct_with_lifetime_and_lifetime_in_type() {
    let mut s = ser().serialize_struct("Struct", 3);
    s.serialize_field("a", ser().serialize_str("abc")).unwrap();
    s.serialize_field("b", ser().serialize_str("def")).unwrap();
    s.serialize_field("c", ser().serialize_unit_struct("PhantomData"))
        .unwrap();
    assert_eq!(run(s.end()), r#"{"a":"abc","b":"def","c":null}"#);
}

#[test]
fn zero_sized_struct() {
    assert_eq!(run(ser().serialize_unit_struct("Struct")), r#"null"#);
}

#[test]
fn enum_() {
    assert_eq!(run(ser().serialize_unit_variant("Enum", 0, "A")), r#""A""#);
    assert_eq!(run(ser().serialize_unit_variant("Enum", 1, "B")), r#""B""#);
}

#[test]
fn enum_tuple() {
    assert_eq!(
        run(ser().serialize_newtype_variant("Enum", 0, "A", ser().serialize_u8(5u8))),
        r#"{"A":5}"#
    );
    assert_eq!(
        run(ser().serialize_newtype_variant("Enum", 1, "B", ser().serialize_u8(6u8))),
        r#"{"B":6}"#
    );
}

fn struct_variant(index: u32, variant: &str, field: &str, value: Piece) -> Piece {
    let mut s: SerializeStructVariant = ser().serialize_struct_variant("Enum", index, variant, 1);
    s.serialize_field(field, value)?;
    s.end()
}

#[test]
fn enum_struct() {
    assert_eq!(
        run(struct_variant(0, "A", "a", ser().serialize_u8(5u8))),
        r#"{"A":{"a":5}}"#
    );
    assert_eq!(
        run(struct_variant(1, "B", "b", ser().serialize_u8(6u8))),
        r#"{"B":{"b":6}}"#
    );
}

#[test]
fn enum_with_lifetime() {
    assert_eq!(
        run(struct_variant(0, "A", "a", ser().serialize_str("abc"))),
        r#"{"A":{"a":"abc"}}"#
    );
    assert_eq!(
        run(struct_variant(1, "B", "b", ser().serialize_str("def"))),
        r#"{"B":{"b":"def"}}"#
    );
}

#[test]
fn enum_with_lifetime_and_lifetime_in_type() {
    assert_eq!(
        run(struct_variant(0, "A", "a", ser().serialize_str("abc"))),
        r#"{"A":{"a":"abc"}}"#
    );
    assert_eq!(
        run(struct_variant(1, "B", "b", ser().serialize_str("def"))),
        r#"{"B":{"b":"def"}}"#
    );
}

fn failure() -> Piece {
    Err(SerializationError::Unknown("failure".to_string()))
}

/// An element that counts how often it was serialized and fails the
/// second time.
struct Element<'a> {
    count: &'a AtomicUsize,
}

impl Serialize for Element<'_> {
    fn serialize(&self, serializer: Serializer) -> Piece {
        let next = self.count.fetch_add(1, Ordering::SeqCst);

        if next == 1 {
            Err(SerializationError::Unknown("failure".to_string()))
        } else {
            (next as u64).serialize(serializer)
        }
    }
}

#[test]
fn vec_element_error() {
    let count = AtomicUsize::new(0);
    let elements =
        vec![Element { count: &count }, Element { count: &count }, Element { count: &count }];

    assert_eq!(
        run_serialize_error(serialize(&elements)),
        SerializationError::Unknown("failure".to_string())
    );
    // The third element was not asked.
    assert_eq!(count.load(Ordering::SeqCst), 2);
}

#[test]
fn element_that_fails_is_not_added() {
    let mut seq = ser().serialize_seq(Some(3));
    seq.serialize_element(ser().serialize_u64(0)).unwrap();
    let second = seq.serialize_element(failure());
    assert_eq!(
        run_serialize_error(second.map(|_| EngineValue::Null)),
        SerializationError::Unknown("failure".to_string())
    );
    assert_eq!(run(seq.end()), "[0]");
}

#[test]
fn map_key_error() {
    let mut map = ser().serialize_map(Some(1));
    let r = map.serialize_key(failure());
    assert_eq!(r, Err(SerializationError::Unknown("failure".to_string())));
}

#[test]
fn map_value_error() {
    let mut map = ser().serialize_map(Some(1));
    map.serialize_key(ser().serialize_u8(5u8)).unwrap();
    let r = map.serialize_value(failure());
    assert_eq!(r, Err(SerializationError::Unknown("failure".to_string())));
}

#[test]
fn map_entry_key_error() {
    let mut map = ser().serialize_map(Some(1));
    let r = map.serialize_entry(failure(), ser().serialize_u8(5u8));
    assert_eq!(r, Err(SerializationError::Unknown("failure".to_string())));
}

#[test]
fn map_entry_value_error() {
    let mut map = ser().serialize_map(Some(1));
    let r = map.serialize_entry(ser().serialize_u8(5u8), failure());
    assert_eq!(r, Err(SerializationError::Unknown("failure".to_string())));
}

#[test]
fn map_entry_error() {
    let mut map = ser().serialize_map(Some(1));
    let r = map.serialize_entry(
        Err(SerializationError::Unknown("key".to_string())),
        Err(SerializationError::Unknown("value".to_string())),
    );
    assert_eq!(r, Err(SerializationError::Unknown("key".to_string())));
}

#[test]
fn map_no_corresponding_value_error() {
    let mut map = ser().serialize_map(Some(1));
    map.serialize_key(ser().serialize_u8(5u8)).unwrap();
    assert_eq!(run_serialize_error(map.end()), SerializationError::MissingValue);
}

#[test]
fn map_extra_value_error() {
    let mut map = ser().serialize_map(Some(1));
    map.serialize_key(ser().serialize_u8(5u8)).unwrap();
    map.serialize_value(ser().serialize_u8(5u8)).unwrap();
    let r = map.serialize_value(ser().serialize_u8(5u8));
    assert_eq!(r, Err(SerializationError::MissingKey));
}

/// A struct of two fields, serialized field by field.
struct Pair {
    a: u8,
    b: u8,
}

impl Serialize for Pair {
    fn serialize(&self, serializer: Serializer) -> Piece {
        let mut s = serializer.serialize_struct("Pair", 2);
        s.serialize_field("a", self.a.serialize(serializer))?;
        s.serialize_field("b", self.b.serialize(serializer))?;
        s.end()
    }
}

#[test]
fn user_types_serialize_through_the_trait() {
    let pairs = vec![Pair { a: 5, b: 6 }, Pair { a: 7, b: 8 }];
    assert_eq!(run(serialize(&pairs)), r#"[{"a":5,"b":6},{"a":7,"b":8}]"#);
    assert_eq!(run(serialize(&Some(Pair { a: 1, b: 2 }))), r#"{"a":1,"b":2}"#);
    assert_eq!(run(serialize(&vec![Some(1u64 << 40), None])), "[1099511627776,null]");
    assert_eq!(
        serialize(&vec!["ok".to_string(), "not\0ok".to_string()]),
        Err(SerializationError::Internal(Internal::NulError(3)))
    );
}

#[test]
fn integers_beyond_32_bits_become_bigints() {
    assert_eq!(
        ser().serialize_i64(2147483648),
        Ok(EngineValue::BigInt(EngineBigInt::Small(2147483648)))
    );
    assert_eq!(ser().serialize_i64(2147483647), Ok(EngineValue::Int(2147483647)));
    assert_eq!(ser().serialize_u32(u32::MAX), Ok(EngineValue::BigInt(EngineBigInt::Small(4294967295))));
    assert_eq!(
        ser().serialize_u64(u64::MAX),
        Ok(EngineValue::BigInt(EngineBigInt::Text(Some(
            b"18446744073709551615".to_vec()
        ))))
    );
}

#[test]
fn integers_beyond_64_bits_are_too_large() {
    assert_eq!(
        ser().serialize_i128(i64::MAX as i128 + 1),
        Err(SerializationError::IntTooLarge)
    );
    assert_eq!(
        ser().serialize_i128(i64::MIN as i128 - 1),
        Err(SerializationError::IntTooLarge)
    );
    assert_eq!(
        ser().serialize_u128(u64::MAX as u128 + 1),
        Err(SerializationError::IntTooLarge)
    );
    assert_eq!(run(ser().serialize_u128(u64::MAX as u128)), "18446744073709551615");
}

#[test]
fn text_with_zero_byte_is_refused() {
    assert_eq!(
        ser().serialize_str("ab\0c"),
        Err(SerializationError::Internal(Internal::NulError(2)))
    );
    assert_eq!(
        ser().serialize_char('\0'),
        Err(SerializationError::Internal(Internal::NulError(0)))
    );
    assert_eq!(
        finish("A\0", EngineValue::Null),
        Err(SerializationError::Internal(Internal::NulError(1)))
    );
}

#[test]
fn multi_byte_character_is_encoded() {
    assert_eq!(
        ser().serialize_char('é'),
        Ok(EngineValue::String(Some(vec![0xc3, 0xa9])))
    );
}

#[test]
fn keys_are_strings_or_integers() {
    let mut map: SerializeMap = SerializeMap::new();
    map.serialize_entry(ser().serialize_i32(-7), ser().serialize_bool(true))
        .unwrap();
    let r = map.serialize_entry(ser().serialize_unit(), ser().serialize_bool(true));
    assert_eq!(r, Err(SerializationError::InvalidKey));
    assert_eq!(run(map.end()), r#"{"-7":true}"#);
}

#[test]
fn finished_sequence_takes_nothing() {
    let mut seq = SerializeSeq::new();
    seq.serialize_element(ser().serialize_u8(1)).unwrap();
    assert_eq!(run(seq.finish_array()), "[1]");
    assert_eq!(
        seq.serialize_element(ser().serialize_u8(2)),
        Err(SerializationError::InvalidState)
    );
    assert_eq!(seq.finish_array(), Err(SerializationError::InvalidState));
}

#[test]
fn finished_map_takes_nothing() {
    let mut map = SerializeMap::new();
    assert_eq!(run(map.finish_object()), "{}");
    assert_eq!(
        map.serialize_entry(ser().serialize_str("a"), ser().serialize_u8(2)),
        Err(SerializationError::InvalidState)
    );
    assert_eq!(map.finish_object(), Err(SerializationError::InvalidState));
}

#[test]
fn tuple_variant_wraps_an_array() {
    let mut v = SerializeTupleVariant::new("T");
    v.serialize_field(ser().serialize_u8(1)).unwrap();
    v.serialize_field(ser().serialize_str("x")).unwrap();
    assert_eq!(run(v.end()), r#"{"T":[1,"x"]}"#);
    let s = SerializeStructVariant::new("S");
    assert_eq!(run(s.end()), r#"{"S":{}}"#);
}

#[test]
fn error_messages() {
    assert_eq!(SerializationError::OutOfMemory.message(), "Out of memory");
    assert_eq!(
        SerializationError::Internal(Internal::ExpectedString).message(),
        "Internal error: Expected string"
    );
    assert_eq!(
        SerializationError::Unknown("x".to_string()).message(),
        "Unknown error: x"
    );
    assert_eq!(
        SerializationError::IntTooLarge.message(),
        "The number is too large to be represented"
    );
}

#[test]
fn exception_becomes_error() {
    let thrown = EngineValue::Object(Some(vec![]));
    assert_eq!(
        SerializationError::from_exception(
            &thrown,
            &EngineValue::String(Some(b"InternalError: out of memory".to_vec()))
        ),
        SerializationError::OutOfMemory
    );
    assert_eq!(
        SerializationError::from_exception(&thrown, &EngineValue::String(Some(b"boom".to_vec()))),
        SerializationError::Unknown("boom".to_string())
    );
    assert_eq!(
        SerializationError::from_exception(&EngineValue::Null, &EngineValue::Null),
        SerializationError::Internal(Internal::UnexpectedNullValue)
    );
    assert_eq!(
        SerializationError::from_exception(&thrown, &EngineValue::Exception),
        SerializationError::Internal(Internal::ExpectedString)
    );
    assert_eq!(
        SerializationError::from_exception(&thrown, &EngineValue::String(None)),
        SerializationError::Internal(Internal::UnexpectedNullPointer)
    );
    assert_eq!(
        SerializationError::from_exception(&thrown, &EngineValue::String(Some(vec![0xff]))),
        SerializationError::Internal(Internal::InvalidUtf8)
    );
    assert_eq!(
        SerializationError::try_from_value(EngineValue::Int(1), &EngineValue::Null, &EngineValue::Null),
        Ok(EngineValue::Int(1))
    );
}
