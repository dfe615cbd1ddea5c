//! Serializing data into engine values, one piece at a time.
//!
//! The functions here follow the data model of serializers: numbers, texts,
//! sequences, maps and the shapes of structs and enum variants. What a
//! piece becomes is an engine value; a sequence or a map is filled element
//! by element and then finished.
use vstd::prelude::*;
use vstd::utf8::encode_utf8;
use crate::decimal::{decimal, digits, signed_to_string, unsigned_to_string};
use crate::engine::{
    engine_props_view, engine_values_view, BigIntModel, EngineBigInt, EngineModel,
    EngineProperty, EngineValue,
};
use crate::errors::{is_out_of_memory, tells_out_of_memory};
use crate::marshal::{c_string_text, find_zero, first_zero, read_c_string};

verus! {

/// An engine context as the serializer holds it: its address, and whether
/// the context is to be freed when the holder is done with it.
#[derive(PartialEq, Eq, Debug)]
pub struct Context {
    context: usize,
    should_drop: bool,
}

impl Context {
    /// The address of the context.
    pub closed spec fn address(self) -> usize {
        self.context
    }

    /// Whether the context is freed at the end.
    pub closed spec fn owns(self) -> bool {
        self.should_drop
    }

    /// Holds a context that is freed at the end.
    pub fn new(context: usize) -> (c: Self)
        ensures
            c.address() == context,
            c.owns(),
    {
        Context { context, should_drop: true }
    }

    /// Holds a context that somebody else frees.
    pub fn new_without_drop(context: usize) -> (c: Self)
        ensures
            c.address() == context,
            !c.owns(),
    {
        Context { context, should_drop: false }
    }

    /// The address of the context.
    pub fn as_mut_ptr(&mut self) -> (address: usize)
        ensures
            address == old(self).address(),
            *final(self) == *old(self),
    {
        self.context
    }

    /// Ends the holder and names the context to free, if it is the
    /// holder's to free.
    pub fn release(self) -> (free: Option<usize>)
        ensures
            free == (if self.owns() {
                Some(self.address())
            } else {
                None
            }),
    {
        if self.should_drop {
            Some(self.context)
        } else {
            None
        }
    }
}

/// What went wrong inside the bridge.
#[derive(PartialEq, Eq, Clone, Copy, Debug, Structural)]
pub enum Internal {
    UnexpectedNullPointer,
    UnexpectedNullValue,
    ExpectedString,
    InvalidUtf8,
    /// A zero byte was found in a text, at the given position.
    NulError(usize),
}

/// Why a piece of data could not be serialized.
#[derive(PartialEq, Eq, Debug)]
pub enum SerializationError {
    OutOfMemory,
    Internal(Internal),
    Unknown(String),
    MissingKey,
    MissingValue,
    InvalidKey,
    InvalidState,
    IntTooLarge,
}

/// The mathematical model of a serialization error.
pub enum SerErrorModel {
    OutOfMemory,
    Internal(Internal),
    Unknown(Seq<char>),
    MissingKey,
    MissingValue,
    InvalidKey,
    InvalidState,
    IntTooLarge,
}

impl View for SerializationError {
    type V = SerErrorModel;

    open spec fn view(&self) -> SerErrorModel {
        match self {
            SerializationError::OutOfMemory => SerErrorModel::OutOfMemory,
            SerializationError::Internal(i) => SerErrorModel::Internal(*i),
            SerializationError::Unknown(msg) => SerErrorModel::Unknown(msg@),
            SerializationError::MissingKey => SerErrorModel::MissingKey,
            SerializationError::MissingValue => SerErrorModel::MissingValue,
            SerializationError::InvalidKey => SerErrorModel::InvalidKey,
            SerializationError::InvalidState => SerErrorModel::InvalidState,
            SerializationError::IntTooLarge => SerErrorModel::IntTooLarge,
        }
    }
}

impl Internal {
    /// What the error says.
    pub fn message(&self) -> (text: &'static str)
        ensures
            text@ == (match self {
                Internal::UnexpectedNullPointer => "Unexpected null pointer"@,
                Internal::UnexpectedNullValue => "Unexpected null value"@,
                Internal::ExpectedString => "Expected string"@,
                Internal::InvalidUtf8 => "Invalid UTF-8"@,
                Internal::NulError(_) => "Nul byte found in string"@,
            }),
    {
        match self {
            Internal::UnexpectedNullPointer => "Unexpected null pointer",
            Internal::UnexpectedNullValue => "Unexpected null value",
            Internal::ExpectedString => "Expected string",
            Internal::InvalidUtf8 => "Invalid UTF-8",
            Internal::NulError(_) => "Nul byte found in string",
        }
    }
}

/// The text of an exception, or why it has none. `converted` is the
/// exception itself where it is a string, what the engine's conversion to a
/// string gave where it is not.
pub open spec fn exception_text(exception: EngineModel, converted: EngineModel) -> Result<
    Seq<char>,
    Internal,
> {
    if exception is Null {
        Err(Internal::UnexpectedNullValue)
    } else {
        match converted {
            EngineModel::String(None) => Err(Internal::UnexpectedNullPointer),
            EngineModel::String(Some(bytes)) => match c_string_text(bytes) {
                Ok(text) => Ok(text),
                Err(_) => Err(Internal::InvalidUtf8),
            },
            _ => Err(Internal::ExpectedString),
        }
    }
}

/// The error that an exception of the engine stands for.
pub open spec fn exception_error(exception: EngineModel, converted: EngineModel) -> SerErrorModel {
    match exception_text(exception, converted) {
        Ok(text) => if tells_out_of_memory(text) {
            SerErrorModel::OutOfMemory
        } else {
            SerErrorModel::Unknown(text)
        },
        Err(e) => SerErrorModel::Internal(e),
    }
}

impl SerializationError {
    /// What the error says.
    pub fn message(&self) -> (text: String)
        ensures
            text@ == (match self {
                SerializationError::OutOfMemory => "Out of memory"@,
                SerializationError::Internal(i) => "Internal error: "@ + (match i {
                    Internal::UnexpectedNullPointer => "Unexpected null pointer"@,
                    Internal::UnexpectedNullValue => "Unexpected null value"@,
                    Internal::ExpectedString => "Expected string"@,
                    Internal::InvalidUtf8 => "Invalid UTF-8"@,
                    Internal::NulError(_) => "Nul byte found in string"@,
                }),
                SerializationError::Unknown(msg) => "Unknown error: "@ + msg@,
                SerializationError::MissingKey =>
                    "Expected call to `serialize_key` before `serialize_value`"@,
                SerializationError::MissingValue =>
                    "Expected call times of calls to `serialize_key` and `serialize_value` to be equal"@,
                SerializationError::InvalidKey =>
                    "Expected either a string or a number as a key"@,
                SerializationError::InvalidState => "The serializer is in an invalid state"@,
                SerializationError::IntTooLarge => "The number is too large to be represented"@,
            }),
    {
        match self {
            SerializationError::OutOfMemory => String::from_str("Out of memory"),
            SerializationError::Internal(i) => {
                let mut text = String::from_str("Internal error: ");
                text.append(i.message());
                text
            },
            SerializationError::Unknown(msg) => {
                let mut text = String::from_str("Unknown error: ");
                text.append(msg.as_str());
                text
            },
            SerializationError::MissingKey => String::from_str(
                "Expected call to `serialize_key` before `serialize_value`",
            ),
            SerializationError::MissingValue => String::from_str(
                "Expected call times of calls to `serialize_key` and `serialize_value` to be equal",
            ),
            SerializationError::InvalidKey => String::from_str(
                "Expected either a string or a number as a key",
            ),
            SerializationError::InvalidState => String::from_str(
                "The serializer is in an invalid state",
            ),
            SerializationError::IntTooLarge => String::from_str(
                "The number is too large to be represented",
            ),
        }
    }

    /// The error that an exception of the engine stands for.
    pub fn from_exception(exception: &EngineValue, converted: &EngineValue) -> (e: Self)
        ensures
            e@ == exception_error(exception@, converted@),
    {
        if let EngineValue::Null = exception {
            return SerializationError::Internal(Internal::UnexpectedNullValue);
        }
        match converted {
            EngineValue::String(None) => SerializationError::Internal(
                Internal::UnexpectedNullPointer,
            ),
            EngineValue::String(Some(bytes)) => match read_c_string(bytes) {
                Ok(text) => {
                    if is_out_of_memory(text.as_str()) {
                        SerializationError::OutOfMemory
                    } else {
                        SerializationError::Unknown(text)
                    }
                },
                Err(_) => SerializationError::Internal(Internal::InvalidUtf8),
            },
            _ => SerializationError::Internal(Internal::ExpectedString),
        }
    }

    /// A value as it is, unless it is the marker of an exception: then the
    /// error that the exception stands for.
    pub fn try_from_value(value: EngineValue, exception: &EngineValue, converted: &EngineValue) -> (r:
        Result<EngineValue, Self>)
        ensures
            match r {
                Ok(v) => v == value && !(value is Exception),
                Err(e) => value is Exception && e@ == exception_error(exception@, converted@),
            },
    {
        if let EngineValue::Exception = &value {
            Err(SerializationError::from_exception(exception, converted))
        } else {
            Ok(value)
        }
    }
}

/// The errors of writing and reading host values as data.
#[derive(PartialEq, Eq, Debug)]
pub enum Error {
    Message(String),
    Eof,
    Syntax,
    ExpectedBoolean,
    ExpectedInteger,
    ExpectedString,
    ExpectedNull,
    ExpectedArray,
    ExpectedArrayComma,
    ExpectedArrayEnd,
    ExpectedMap,
    ExpectedMapColon,
    ExpectedMapComma,
    ExpectedMapEnd,
    ExpectedEnum,
    TrailingCharacters,
}

/// `char::encode_utf8`: the bytes that encode one character in UTF-8.
#[verifier::external_body]
fn char_bytes(value: char) -> (bytes: Vec<u8>)
    ensures
        bytes@ == encode_utf8(seq![value]),
{
    let mut buffer = [0; 4];
    value.encode_utf8(&mut buffer).as_bytes().to_vec()
}

/// The model of the outcome of serializing a piece.
pub open spec fn outcome(r: Result<EngineValue, SerializationError>) -> Result<
    EngineModel,
    SerErrorModel,
> {
    match r {
        Ok(v) => Ok(v@),
        Err(e) => Err(e@),
    }
}

/// What a signed integer becomes: a plain integer where it fits in 32 bits,
/// a BigInt where it fits in 64 bits, and nothing beyond that.
pub open spec fn signed_model(value: int) -> Result<EngineModel, SerErrorModel> {
    if i32::MIN <= value <= i32::MAX {
        Ok(EngineModel::Int(value))
    } else if i64::MIN <= value <= i64::MAX {
        Ok(EngineModel::BigInt(BigIntModel::Small(value)))
    } else {
        Err(SerErrorModel::IntTooLarge)
    }
}

/// What an unsigned integer becomes: a plain integer where it fits in 32
/// bits with a sign, a BigInt where it fits in 64 bits, and nothing beyond
/// that. A BigInt above the signed range is given by its decimal text.
pub open spec fn unsigned_model(value: nat) -> Result<EngineModel, SerErrorModel> {
    if value <= i32::MAX {
        Ok(EngineModel::Int(value as int))
    } else if value <= i64::MAX {
        Ok(EngineModel::BigInt(BigIntModel::Small(value as int)))
    } else if value <= u64::MAX {
        Ok(EngineModel::BigInt(BigIntModel::Text(Some(encode_utf8(digits(value))))))
    } else {
        Err(SerErrorModel::IntTooLarge)
    }
}

/// What a text becomes: the engine string of its bytes. A text with a zero
/// byte is refused.
pub open spec fn text_model(text: Seq<char>) -> Result<EngineModel, SerErrorModel> {
    let bytes = encode_utf8(text);
    if first_zero(bytes) < bytes.len() {
        Err(SerErrorModel::Internal(Internal::NulError(first_zero(bytes) as usize)))
    } else {
        Ok(EngineModel::String(Some(bytes)))
    }
}

/// The object with one property: what an enum variant with content
/// becomes.
pub open spec fn variant_model(variant: Seq<char>, value: EngineModel) -> Result<
    EngineModel,
    SerErrorModel,
> {
    match text_model(variant) {
        Ok(key) => Ok(EngineModel::Object(Some(seq![(key, value)]))),
        Err(e) => Err(e),
    }
}

/// The engine string of some bytes, unless a zero byte is among them.
fn bytes_value(bytes: Vec<u8>) -> (r: Result<EngineValue, SerializationError>)
    ensures
        outcome(r) == (if first_zero(bytes@) < bytes@.len() {
            Err::<EngineModel, SerErrorModel>(
                SerErrorModel::Internal(Internal::NulError(first_zero(bytes@) as usize)),
            )
        } else {
            Ok(EngineModel::String(Some(bytes@)))
        }),
{
    let at = find_zero(&bytes);
    if at < bytes.len() {
        Err(SerializationError::Internal(Internal::NulError(at)))
    } else {
        Ok(EngineValue::String(Some(bytes)))
    }
}

/// Serializes an enum variant with content as `{variant: value}`.
pub fn finish(variant: &str, value: EngineValue) -> (r: Result<EngineValue, SerializationError>)
    ensures
        outcome(r) == variant_model(variant@, value@),
{
    let key = match bytes_value(variant.as_bytes_vec()) {
        Ok(key) => key,
        Err(e) => {
            return Err(e);
        },
    };
    let ghost key_model = key@;
    let mut props: Vec<EngineProperty> = Vec::new();
    props.push(EngineProperty { key, value });
    proof {
        assert(props@.drop_last() =~= Seq::empty());
        assert(props@.last().key@ == key_model);
        assert(props@.last().value@ == value@);
        assert(engine_props_view(props@.drop_last()) =~= Seq::empty());
        assert(engine_props_view(props@) =~= seq![(key_model, value@)]);
    }
    Ok(EngineValue::Object(Some(props)))
}

/// Serializes pieces of data into engine values.
#[derive(PartialEq, Eq, Clone, Copy, Debug, Structural)]
pub struct Serializer;

impl Serializer {
    /// A serializer.
    pub fn new() -> (s: Self)
        ensures
            s == Serializer,
    {
        Serializer
    }

    pub fn serialize_bool(&self, value: bool) -> (r: Result<EngineValue, SerializationError>)
        ensures
            outcome(r) == Ok::<EngineModel, SerErrorModel>(
                EngineModel::Bool(
                    if value {
                        1
                    } else {
                        0
                    },
                ),
            ),
    {
        Ok(
            EngineValue::Bool(
                if value {
                    1
                } else {
                    0
                },
            ),
        )
    }

    pub fn serialize_i8(&self, value: i8) -> (r: Result<EngineValue, SerializationError>)
        ensures
            outcome(r) == signed_model(value as int),
    {
        self.serialize_i32(value as i32)
    }

    pub fn serialize_i16(&self, value: i16) -> (r: Result<EngineValue, SerializationError>)
        ensures
            outcome(r) == signed_model(value as int),
    {
        self.serialize_i32(value as i32)
    }

    pub fn serialize_i32(&self, value: i32) -> (r: Result<EngineValue, SerializationError>)
        ensures
            outcome(r) == signed_model(value as int),
    {
        Ok(EngineValue::Int(value))
    }

    /// A 64-bit integer becomes a plain integer where it fits in 32 bits,
    /// else a BigInt.
    pub fn serialize_i64(&self, value: i64) -> (r: Result<EngineValue, SerializationError>)
        ensures
            outcome(r) == signed_model(value as int),
    {
        if value >= -2147483648 && value <= 2147483647 {
            return self.serialize_i32(value as i32);
        }
        Ok(EngineValue::BigInt(EngineBigInt::Small(value)))
    }

    /// A 128-bit integer is serialized where it fits in 64 bits.
    pub fn serialize_i128(&self, value: i128) -> (r: Result<EngineValue, SerializationError>)
        ensures
            outcome(r) == signed_model(value as int),
    {
        if value >= -9223372036854775808 && value <= 9223372036854775807 {
            return self.serialize_i64(value as i64);
        }
        Err(SerializationError::IntTooLarge)
    }

    pub fn serialize_u8(&self, value: u8) -> (r: Result<EngineValue, SerializationError>)
        ensures
            outcome(r) == unsigned_model(value as nat),
    {
        self.serialize_i32(value as i32)
    }

    pub fn serialize_u16(&self, value: u16) -> (r: Result<EngineValue, SerializationError>)
        ensures
            outcome(r) == unsigned_model(value as nat),
    {
        self.serialize_i32(value as i32)
    }

    /// Not every 32-bit unsigned integer fits in 32 bits with a sign, so
    /// the value goes the way of the 64-bit integers.
    pub fn serialize_u32(&self, value: u32) -> (r: Result<EngineValue, SerializationError>)
        ensures
            outcome(r) == unsigned_model(value as nat),
    {
        self.serialize_u64(value as u64)
    }

    /// A 64-bit unsigned integer becomes a plain integer where it fits in
    /// 32 bits with a sign, else a BigInt.
    pub fn serialize_u64(&self, value: u64) -> (r: Result<EngineValue, SerializationError>)
        ensures
            outcome(r) == unsigned_model(value as nat),
    {
        if value <= 2147483647 {
            return self.serialize_i32(value as i32);
        }
        if value <= 9223372036854775807 {
            return Ok(EngineValue::BigInt(EngineBigInt::Small(value as i64)));
        }
        let text = unsigned_to_string(value);
        Ok(EngineValue::BigInt(EngineBigInt::Text(Some(text.as_str().as_bytes_vec()))))
    }

    /// A 128-bit unsigned integer is serialized where it fits in 64 bits.
    pub fn serialize_u128(&self, value: u128) -> (r: Result<EngineValue, SerializationError>)
        ensures
            outcome(r) == unsigned_model(value as nat),
    {
        if value <= 18446744073709551615 {
            return self.serialize_u64(value as u64);
        }
        Err(SerializationError::IntTooLarge)
    }

    /// A float, given by the bits of its 64-bit encoding.
    pub fn serialize_f64(&self, bits: u64) -> (r: Result<EngineValue, SerializationError>)
        ensures
            outcome(r) == Ok::<EngineModel, SerErrorModel>(EngineModel::Float64(bits)),
    {
        Ok(EngineValue::Float64(bits))
    }

    /// A character becomes the text of that character.
    pub fn serialize_char(&self, value: char) -> (r: Result<EngineValue, SerializationError>)
        ensures
            outcome(r) == text_model(seq![value]),
    {
        bytes_value(char_bytes(value))
    }

    pub fn serialize_str(&self, value: &str) -> (r: Result<EngineValue, SerializationError>)
        ensures
            outcome(r) == text_model(value@),
    {
        bytes_value(value.as_bytes_vec())
    }

    pub fn serialize_none(&self) -> (r: Result<EngineValue, SerializationError>)
        ensures
            outcome(r) == Ok::<EngineModel, SerErrorModel>(EngineModel::Null),
    {
        self.serialize_unit()
    }

    pub fn serialize_some(&self, value: Result<EngineValue, SerializationError>) -> (r: Result<
        EngineValue,
        SerializationError,
    >)
        ensures
            r == value,
    {
        value
    }

    /// The unit value corresponds to `null`.
    pub fn serialize_unit(&self) -> (r: Result<EngineValue, SerializationError>)
        ensures
            outcome(r) == Ok::<EngineModel, SerErrorModel>(EngineModel::Null),
    {
        Ok(EngineValue::Null)
    }

    pub fn serialize_unit_struct(&self, name: &str) -> (r: Result<EngineValue, SerializationError>)
        ensures
            outcome(r) == Ok::<EngineModel, SerErrorModel>(EngineModel::Null),
    {
        self.serialize_unit()
    }

    /// A variant without content becomes its name.
    pub fn serialize_unit_variant(&self, name: &str, variant_index: u32, variant: &str) -> (r:
        Result<EngineValue, SerializationError>)
        ensures
            outcome(r) == text_model(variant@),
    {
        self.serialize_str(variant)
    }

    pub fn serialize_newtype_struct(
        &self,
        name: &str,
        value: Result<EngineValue, SerializationError>,
    ) -> (r: Result<EngineValue, SerializationError>)
        ensures
            r == value,
    {
        value
    }

    /// A variant with one value becomes an object with a single property:
    /// `{variant: value}`. The name is looked at first.
    pub fn serialize_newtype_variant(
        &self,
        name: &str,
        variant_index: u32,
        variant: &str,
        value: Result<EngineValue, SerializationError>,
    ) -> (r: Result<EngineValue, SerializationError>)
        ensures
            outcome(r) == (match text_model(variant@) {
                Err(e) => Err(e),
                Ok(_) => match value {
                    Ok(v) => variant_model(variant@, v@),
                    Err(e) => Err(e@),
                },
            }),
    {
        let mut serializer = SerializeMap::new();
        match serializer.serialize_entry(self.serialize_str(variant), value) {
            Ok(_) => {},
            Err(e) => {
                return Err(e);
            },
        }
        serializer.end()
    }

    pub fn serialize_seq(&self, len: Option<usize>) -> (s: SerializeSeq)
        ensures
            s@ == Some(Seq::<EngineModel>::empty()),
    {
        SerializeSeq::new()
    }

    pub fn serialize_tuple(&self, len: usize) -> (s: SerializeSeq)
        ensures
            s@ == Some(Seq::<EngineModel>::empty()),
    {
        SerializeSeq::new()
    }

    pub fn serialize_tuple_struct(&self, name: &str, len: usize) -> (s: SerializeSeq)
        ensures
            s@ == Some(Seq::<EngineModel>::empty()),
    {
        SerializeSeq::new()
    }

    pub fn serialize_tuple_variant(
        &self,
        name: &str,
        variant_index: u32,
        variant: &str,
        len: usize,
    ) -> (s: SerializeTupleVariant)
        ensures
            s.name() == variant@,
            s.elements() == Some(Seq::<EngineModel>::empty()),
    {
        SerializeTupleVariant::new(variant)
    }

    pub fn serialize_map(&self, len: Option<usize>) -> (s: SerializeMap)
        ensures
            s@ == (MapModel { object: Some(Seq::empty()), pending_key: None }),
    {
        SerializeMap::new()
    }

    pub fn serialize_struct(&self, name: &str, len: usize) -> (s: SerializeMap)
        ensures
            s@ == (MapModel { object: Some(Seq::empty()), pending_key: None }),
    {
        SerializeMap::new()
    }

    pub fn serialize_struct_variant(
        &self,
        name: &str,
        variant_index: u32,
        variant: &str,
        len: usize,
    ) -> (s: SerializeStructVariant)
        ensures
            s.name() == variant@,
            s.fields() == (MapModel { object: Some(Seq::empty()), pending_key: None }),
    {
        SerializeStructVariant::new(variant)
    }

    pub fn is_human_readable(&self) -> (b: bool)
        ensures
            b,
    {
        true
    }
}

/// A sequence that is being filled.
pub struct SerializeSeq {
    /// The elements so far; `None` once the sequence was finished.
    array: Option<Vec<EngineValue>>,
}

impl View for SerializeSeq {
    type V = Option<Seq<EngineModel>>;

    closed spec fn view(&self) -> Option<Seq<EngineModel>> {
        match self.array {
            Some(items) => Some(engine_values_view(items@)),
            None => None,
        }
    }
}

impl SerializeSeq {
    /// An empty sequence.
    pub fn new() -> (s: Self)
        ensures
            s@ == Some(Seq::<EngineModel>::empty()),
    {
        SerializeSeq { array: Some(Vec::new()) }
    }

    /// Hands out the array and leaves the sequence finished. A sequence
    /// can be finished once.
    pub fn finish_array(&mut self) -> (r: Result<EngineValue, SerializationError>)
        ensures
            final(self)@.is_none(),
            outcome(r) == (match old(self)@ {
                Some(items) => Ok(EngineModel::Array(items)),
                None => Err(SerErrorModel::InvalidState),
            }),
    {
        match self.array.take() {
            Some(items) => Ok(EngineValue::Array(items)),
            None => Err(SerializationError::InvalidState),
        }
    }

    /// Adds an element. A finished sequence takes none; an element that
    /// could not be serialized is not added, and its error is handed on.
    pub fn serialize_element(&mut self, value: Result<EngineValue, SerializationError>) -> (r:
        Result<(), SerializationError>)
        ensures
            match old(self)@ {
                None => r matches Err(e) && e@ == SerErrorModel::InvalidState && final(self)@
                    == old(self)@,
                Some(items) => match value {
                    Ok(v) => r.is_ok() && final(self)@ == Some(items.push(v@)),
                    Err(e) => r == Err::<(), SerializationError>(e) && final(self)@ == old(self)@,
                },
            },
    {
        if self.array.is_none() {
            return Err(SerializationError::InvalidState);
        }
        let value = match value {
            Ok(value) => value,
            Err(e) => {
                return Err(e);
            },
        };
        let mut items = self.array.take().unwrap();
        let ghost before = items@;
        items.push(value);
        proof {
            assert(items@.drop_last() =~= before);
        }
        self.array = Some(items);
        Ok(())
    }

    /// Adds a field of a tuple struct.
    pub fn serialize_field(&mut self, value: Result<EngineValue, SerializationError>) -> (r: Result<
        (),
        SerializationError,
    >)
        ensures
            match old(self)@ {
                None => r matches Err(e) && e@ == SerErrorModel::InvalidState && final(self)@
                    == old(self)@,
                Some(items) => match value {
                    Ok(v) => r.is_ok() && final(self)@ == Some(items.push(v@)),
                    Err(e) => r == Err::<(), SerializationError>(e) && final(self)@ == old(self)@,
                },
            },
    {
        self.serialize_element(value)
    }

    /// Finishes the sequence: its elements as an array.
    pub fn end(self) -> (r: Result<EngineValue, SerializationError>)
        ensures
            outcome(r) == (match self@ {
                Some(items) => Ok(EngineModel::Array(items)),
                None => Err(SerErrorModel::InvalidState),
            }),
    {
        let mut s = self;
        s.finish_array()
    }
}

/// The mathematical model of a map that is being filled.
pub struct MapModel {
    /// The properties so far; `None` once the map was finished.
    pub object: Option<Seq<(EngineModel, EngineModel)>>,
    /// The key that waits for its value.
    pub pending_key: Option<EngineModel>,
}

/// The name that a key stands for: a string is its own name, an integer is
/// named by its decimal text. Other values name nothing.
pub open spec fn key_name(key: EngineModel) -> Option<Seq<u8>> {
    match key {
        EngineModel::String(Some(bytes)) => Some(bytes),
        EngineModel::Int(n) => Some(encode_utf8(decimal(n))),
        EngineModel::BigInt(BigIntModel::Small(n)) => Some(encode_utf8(decimal(n))),
        _ => None,
    }
}

/// The properties after a key and a value were inserted.
pub open spec fn inserted(
    object: Option<Seq<(EngineModel, EngineModel)>>,
    key: EngineModel,
    value: EngineModel,
) -> Result<Seq<(EngineModel, EngineModel)>, SerErrorModel> {
    match object {
        None => Err(SerErrorModel::InvalidState),
        Some(props) => match key_name(key) {
            None => Err(SerErrorModel::InvalidKey),
            Some(name) => Ok(props.push((EngineModel::String(Some(name)), value))),
        },
    }
}

/// A map that is being filled.
pub struct SerializeMap {
    object: Option<Vec<EngineProperty>>,
    pending_key: Option<EngineValue>,
}

impl View for SerializeMap {
    type V = MapModel;

    closed spec fn view(&self) -> MapModel {
        MapModel {
            object: match self.object {
                Some(props) => Some(engine_props_view(props@)),
                None => None,
            },
            pending_key: match self.pending_key {
                Some(key) => Some(key@),
                None => None,
            },
        }
    }
}

impl SerializeMap {
    /// An empty map.
    pub fn new() -> (s: Self)
        ensures
            s@ == (MapModel { object: Some(Seq::empty()), pending_key: None }),
    {
        SerializeMap { object: Some(Vec::new()), pending_key: None }
    }

    /// The name that a key stands for.
    fn key_to_atom(key: EngineValue) -> (r: Result<Vec<u8>, SerializationError>)
        ensures
            match r {
                Ok(name) => key_name(key@) == Some(name@),
                Err(e) => key_name(key@).is_none() && e@ == SerErrorModel::InvalidKey,
            },
    {
        match key {
            EngineValue::String(Some(bytes)) => Ok(bytes),
            EngineValue::Int(n) => Ok(signed_to_string(n as i64).as_str().as_bytes_vec()),
            EngineValue::BigInt(EngineBigInt::Small(n)) => Ok(
                signed_to_string(n).as_str().as_bytes_vec(),
            ),
            _ => Err(SerializationError::InvalidKey),
        }
    }

    /// Inserts a property. A finished map takes none; the key must name a
    /// property.
    fn insert(&mut self, key: EngineValue, value: EngineValue) -> (r: Result<
        (),
        SerializationError,
    >)
        ensures
            final(self)@.pending_key == old(self)@.pending_key,
            match inserted(old(self)@.object, key@, value@) {
                Ok(props) => r.is_ok() && final(self)@.object == Some(props),
                Err(e) => r matches Err(err) && err@ == e && final(self)@.object == old(self)@.object,
            },
    {
        if self.object.is_none() {
            return Err(SerializationError::InvalidState);
        }
        let name = match SerializeMap::key_to_atom(key) {
            Ok(name) => name,
            Err(e) => {
                return Err(e);
            },
        };
        let mut props = self.object.take().unwrap();
        let ghost before = props@;
        let ghost name_model = EngineModel::String(Some(name@));
        let key = EngineValue::String(Some(name));
        assert(key@ == name_model);
        props.push(EngineProperty { key, value });
        proof {
            assert(props@.drop_last() =~= before);
            assert(props@.last().key@ == name_model);
        }
        self.object = Some(props);
        Ok(())
    }

    /// Hands out the object and leaves the map finished. A key that still
    /// waits for its value is an error.
    pub fn finish_object(&mut self) -> (r: Result<EngineValue, SerializationError>)
        ensures
            match old(self)@.pending_key {
                Some(_) => r matches Err(e) && e@ == SerErrorModel::MissingValue && final(self)@
                    == old(self)@,
                None => final(self)@ == (MapModel { object: None, pending_key: None }) && outcome(
                    r,
                ) == (match old(self)@.object {
                    Some(props) => Ok(EngineModel::Object(Some(props))),
                    None => Err(SerErrorModel::InvalidState),
                }),
            },
    {
        if self.pending_key.is_some() {
            return Err(SerializationError::MissingValue);
        }
        match self.object.take() {
            Some(props) => Ok(EngineValue::Object(Some(props))),
            None => Err(SerializationError::InvalidState),
        }
    }

    /// Takes a key, which then waits for its value. A key that could not be
    /// serialized is not taken, and its error is handed on.
    pub fn serialize_key(&mut self, key: Result<EngineValue, SerializationError>) -> (r: Result<
        (),
        SerializationError,
    >)
        ensures
            match key {
                Ok(k) => r.is_ok() && final(self)@ == (MapModel {
                    pending_key: Some(k@),
                    ..old(self)@
                }),
                Err(e) => r == Err::<(), SerializationError>(e) && final(self)@ == old(self)@,
            },
    {
        match key {
            Ok(key) => {
                self.pending_key = Some(key);
                Ok(())
            },
            Err(e) => Err(e),
        }
    }

    /// Takes the value for the key that waits. Without such a key the call
    /// is an error. The key no longer waits afterwards, whatever comes of
    /// the value.
    pub fn serialize_value(&mut self, value: Result<EngineValue, SerializationError>) -> (r: Result<
        (),
        SerializationError,
    >)
        ensures
            final(self)@.pending_key.is_none(),
            match old(self)@.pending_key {
                None => r matches Err(e) && e@ == SerErrorModel::MissingKey && final(self)@
                    == old(self)@,
                Some(key) => match value {
                    Err(e) => r == Err::<(), SerializationError>(e) && final(self)@.object == old(self)@.object,
                    Ok(v) => match inserted(old(self)@.object, key, v@) {
                        Ok(props) => r.is_ok() && final(self)@.object == Some(props),
                        Err(e) => r matches Err(err) && err@ == e && final(self)@.object == old(self)@.object,
                    },
                },
            },
    {
        let key = match self.pending_key.take() {
            Some(key) => key,
            None => {
                return Err(SerializationError::MissingKey);
            },
        };
        let value = match value {
            Ok(value) => value,
            Err(e) => {
                return Err(e);
            },
        };
        self.insert(key, value)
    }

    /// Takes a key and its value at once. The error of the key comes
    /// before that of the value.
    pub fn serialize_entry(
        &mut self,
        key: Result<EngineValue, SerializationError>,
        value: Result<EngineValue, SerializationError>,
    ) -> (r: Result<(), SerializationError>)
        ensures
            final(self)@.pending_key == old(self)@.pending_key,
            match key {
                Err(e) => r == Err::<(), SerializationError>(e) && final(self)@ == old(self)@,
                Ok(k) => match value {
                    Err(e) => r == Err::<(), SerializationError>(e) && final(self)@ == old(self)@,
                    Ok(v) => match inserted(old(self)@.object, k@, v@) {
                        Ok(props) => r.is_ok() && final(self)@.object == Some(props),
                        Err(e) => r matches Err(err) && err@ == e && final(self)@.object == old(self)@.object,
                    },
                },
            },
    {
        let key = match key {
            Ok(key) => key,
            Err(e) => {
                return Err(e);
            },
        };
        let value = match value {
            Ok(value) => value,
            Err(e) => {
                return Err(e);
            },
        };
        self.insert(key, value)
    }

    /// Adds a field of a struct: an entry whose key is the field's name.
    pub fn serialize_field(&mut self, key: &str, value: Result<EngineValue, SerializationError>) -> (r:
        Result<(), SerializationError>)
        ensures
            final(self)@.pending_key == old(self)@.pending_key,
            match text_model(key@) {
                Err(e) => r matches Err(err) && err@ == e && final(self)@ == old(self)@,
                Ok(k) => match value {
                    Err(e) => r == Err::<(), SerializationError>(e) && final(self)@ == old(self)@,
                    Ok(v) => match inserted(old(self)@.object, k, v@) {
                        Ok(props) => r.is_ok() && final(self)@.object == Some(props),
                        Err(e) => r matches Err(err) && err@ == e && final(self)@.object == old(self)@.object,
                    },
                },
            },
    {
        self.serialize_entry(bytes_value(key.as_bytes_vec()), value)
    }

    /// Finishes the map: its properties as an object.
    pub fn end(self) -> (r: Result<EngineValue, SerializationError>)
        ensures
            outcome(r) == (match self@.pending_key {
                Some(_) => Err(SerErrorModel::MissingValue),
                None => match self@.object {
                    Some(props) => Ok(EngineModel::Object(Some(props))),
                    None => Err(SerErrorModel::InvalidState),
                },
            }),
    {
        let mut s = self;
        s.finish_object()
    }
}

/// A struct variant that is being filled. It becomes
/// `{variant: {field: value, ..}}`.
pub struct SerializeStructVariant {
    variant: String,
    inner: SerializeMap,
}

impl SerializeStructVariant {
    /// The name of the variant.
    pub closed spec fn name(self) -> Seq<char> {
        self.variant@
    }

    /// The fields so far.
    pub closed spec fn fields(self) -> MapModel {
        self.inner@
    }

    /// A struct variant without fields yet.
    pub fn new(variant: &str) -> (s: Self)
        ensures
            s.name() == variant@,
            s.fields() == (MapModel { object: Some(Seq::empty()), pending_key: None }),
    {
        SerializeStructVariant { variant: String::from_str(variant), inner: SerializeMap::new() }
    }

    /// Adds a field.
    pub fn serialize_field(&mut self, key: &str, value: Result<EngineValue, SerializationError>) -> (r:
        Result<(), SerializationError>)
        ensures
            final(self).name() == old(self).name(),
            final(self).fields().pending_key == old(self).fields().pending_key,
            match text_model(key@) {
                Err(e) => r matches Err(err) && err@ == e && final(self).fields() == old(self).fields(),
                Ok(k) => match value {
                    Err(e) => r == Err::<(), SerializationError>(e) && final(self).fields() == old(self).fields(),
                    Ok(v) => match inserted(old(self).fields().object, k, v@) {
                        Ok(props) => r.is_ok() && final(self).fields().object == Some(props),
                        Err(e) => r matches Err(err) && err@ == e && final(self).fields().object
                            == old(self).fields().object,
                    },
                },
            },
    {
        self.inner.serialize_field(key, value)
    }

    /// Finishes the variant.
    pub fn end(self) -> (r: Result<EngineValue, SerializationError>)
        ensures
            outcome(r) == (match self.fields().pending_key {
                Some(_) => Err(SerErrorModel::MissingValue),
                None => match self.fields().object {
                    Some(props) => variant_model(
                        self.name(),
                        EngineModel::Object(Some(props)),
                    ),
                    None => Err(SerErrorModel::InvalidState),
                },
            }),
    {
        let mut s = self;
        match s.inner.finish_object() {
            Ok(inner) => finish(s.variant.as_str(), inner),
            Err(e) => Err(e),
        }
    }
}

/// A tuple variant that is being filled. It becomes
/// `{variant: [value, ..]}`.
pub struct SerializeTupleVariant {
    variant: String,
    inner: SerializeSeq,
}

impl SerializeTupleVariant {
    /// The name of the variant.
    pub closed spec fn name(self) -> Seq<char> {
        self.variant@
    }

    /// The elements so far.
    pub closed spec fn elements(self) -> Option<Seq<EngineModel>> {
        self.inner@
    }

    /// A tuple variant without elements yet.
    pub fn new(variant: &str) -> (s: Self)
        ensures
            s.name() == variant@,
            s.elements() == Some(Seq::<EngineModel>::empty()),
    {
        SerializeTupleVariant { variant: String::from_str(variant), inner: SerializeSeq::new() }
    }

    /// Adds an element.
    pub fn serialize_field(&mut self, value: Result<EngineValue, SerializationError>) -> (r: Result<
        (),
        SerializationError,
    >)
        ensures
            final(self).name() == old(self).name(),
            match old(self).elements() {
                None => r matches Err(e) && e@ == SerErrorModel::InvalidState && final(self).elements() == old(self).elements(),
                Some(items) => match value {
                    Ok(v) => r.is_ok() && final(self).elements() == Some(items.push(v@)),
                    Err(e) => r == Err::<(), SerializationError>(e) && final(self).elements()
                        == old(self).elements(),
                },
            },
    {
        self.inner.serialize_element(value)
    }

    /// Finishes the variant.
    pub fn end(self) -> (r: Result<EngineValue, SerializationError>)
        ensures
            outcome(r) == (match self.elements() {
                Some(items) => variant_model(self.name(), EngineModel::Array(items)),
                None => Err(SerErrorModel::InvalidState),
            }),
    {
        let mut s = self;
        match s.inner.finish_array() {
            Ok(inner) => finish(s.variant.as_str(), inner),
            Err(e) => Err(e),
        }
    }
}

/// Data that can be serialized, piece by piece.
pub trait Serialize {
    /// What the value becomes, where that is known before the value is
    /// serialized. A type that says nothing here promises nothing.
    open spec fn serialized(&self) -> Option<Result<EngineModel, SerErrorModel>> {
        None
    }

    /// Serializes this value with the given serializer.
    fn serialize(&self, serializer: Serializer) -> (r: Result<EngineValue, SerializationError>)
        ensures
            self.serialized() matches Some(model) ==> outcome(r) == model,
    ;
}

/// Serializes a value into an engine value: hands the value a serializer
/// and gives back what the value makes of it. Where the value's type says
/// what its values become, that is what comes back.
pub fn serialize<T: Serialize + ?Sized>(value: &T) -> (r: Result<EngineValue, SerializationError>)
    ensures
        value.serialized() matches Some(model) ==> outcome(r) == model,
        call_ensures(T::serialize, (value, Serializer), r),
{
    let serializer = Serializer::new();
    value.serialize(serializer)
}

impl Serialize for bool {
    open spec fn serialized(&self) -> Option<Result<EngineModel, SerErrorModel>> {
        Some(Ok(
                EngineModel::Bool(
                    if *self {
                        1
                    } else {
                        0
                    },
                ),
            ))
    }

    fn serialize(&self, serializer: Serializer) -> (r: Result<EngineValue, SerializationError>) {
        serializer.serialize_bool(*self)
    }
}

impl Serialize for i8 {
    open spec fn serialized(&self) -> Option<Result<EngineModel, SerErrorModel>> {
        Some(signed_model(*self as int))
    }

    fn serialize(&self, serializer: Serializer) -> (r: Result<EngineValue, SerializationError>) {
        serializer.serialize_i8(*self)
    }
}

impl Serialize for i16 {
    open spec fn serialized(&self) -> Option<Result<EngineModel, SerErrorModel>> {
        Some(signed_model(*self as int))
    }

    fn serialize(&self, serializer: Serializer) -> (r: Result<EngineValue, SerializationError>) {
        serializer.serialize_i16(*self)
    }
}

impl Serialize for i32 {
    open spec fn serialized(&self) -> Option<Result<EngineModel, SerErrorModel>> {
        Some(signed_model(*self as int))
    }

    fn serialize(&self, serializer: Serializer) -> (r: Result<EngineValue, SerializationError>) {
        serializer.serialize_i32(*self)
    }
}

impl Serialize for i64 {
    open spec fn serialized(&self) -> Option<Result<EngineModel, SerErrorModel>> {
        Some(signed_model(*self as int))
    }

    fn serialize(&self, serializer: Serializer) -> (r: Result<EngineValue, SerializationError>) {
        serializer.serialize_i64(*self)
    }
}

impl Serialize for i128 {
    open spec fn serialized(&self) -> Option<Result<EngineModel, SerErrorModel>> {
        Some(signed_model(*self as int))
    }

    fn serialize(&self, serializer: Serializer) -> (r: Result<EngineValue, SerializationError>) {
        serializer.serialize_i128(*self)
    }
}

impl Serialize for u8 {
    open spec fn serialized(&self) -> Option<Result<EngineModel, SerErrorModel>> {
        Some(unsigned_model(*self as nat))
    }

    fn serialize(&self, serializer: Serializer) -> (r: Result<EngineValue, SerializationError>) {
        serializer.serialize_u8(*self)
    }
}

impl Serialize for u16 {
    open spec fn serialized(&self) -> Option<Result<EngineModel, SerErrorModel>> {
        Some(unsigned_model(*self as nat))
    }

    fn serialize(&self, serializer: Serializer) -> (r: Result<EngineValue, SerializationError>) {
        serializer.serialize_u16(*self)
    }
}

impl Serialize for u32 {
    open spec fn serialized(&self) -> Option<Result<EngineModel, SerErrorModel>> {
        Some(unsigned_model(*self as nat))
    }

    fn serialize(&self, serializer: Serializer) -> (r: Result<EngineValue, SerializationError>) {
        serializer.serialize_u32(*self)
    }
}

impl Serialize for u64 {
    open spec fn serialized(&self) -> Option<Result<EngineModel, SerErrorModel>> {
        Some(unsigned_model(*self as nat))
    }

    fn serialize(&self, serializer: Serializer) -> (r: Result<EngineValue, SerializationError>) {
        serializer.serialize_u64(*self)
    }
}

impl Serialize for u128 {
    open spec fn serialized(&self) -> Option<Result<EngineModel, SerErrorModel>> {
        Some(unsigned_model(*self as nat))
    }

    fn serialize(&self, serializer: Serializer) -> (r: Result<EngineValue, SerializationError>) {
        serializer.serialize_u128(*self)
    }
}

impl Serialize for char {
    open spec fn serialized(&self) -> Option<Result<EngineModel, SerErrorModel>> {
        Some(text_model(seq![*self]))
    }

    fn serialize(&self, serializer: Serializer) -> (r: Result<EngineValue, SerializationError>) {
        serializer.serialize_char(*self)
    }
}

impl Serialize for str {
    open spec fn serialized(&self) -> Option<Result<EngineModel, SerErrorModel>> {
        Some(text_model(self@))
    }

    fn serialize(&self, serializer: Serializer) -> (r: Result<EngineValue, SerializationError>) {
        serializer.serialize_str(self)
    }
}

impl Serialize for String {
    open spec fn serialized(&self) -> Option<Result<EngineModel, SerErrorModel>> {
        Some(text_model(self@))
    }

    fn serialize(&self, serializer: Serializer) -> (r: Result<EngineValue, SerializationError>) {
        serializer.serialize_str(self.as_str())
    }
}

impl Serialize for () {
    open spec fn serialized(&self) -> Option<Result<EngineModel, SerErrorModel>> {
        Some(Ok(EngineModel::Null))
    }

    fn serialize(&self, serializer: Serializer) -> (r: Result<EngineValue, SerializationError>) {
        serializer.serialize_unit()
    }
}

impl<T: Serialize> Serialize for Option<T> {
    /// A value that is there becomes what it becomes by itself, and a value
    /// that is not there becomes `null`.
    open spec fn serialized(&self) -> Option<Result<EngineModel, SerErrorModel>> {
        match self {
            Some(value) => value.serialized(),
            None => Some(Ok(EngineModel::Null)),
        }
    }

    fn serialize(&self, serializer: Serializer) -> (r: Result<EngineValue, SerializationError>)
        ensures
            self matches Some(value) ==> call_ensures(T::serialize, (&value, serializer), r),
    {
        match self {
            Some(value) => serializer.serialize_some(value.serialize(serializer)),
            None => serializer.serialize_none(),
        }
    }
}

/// What becomes of a sequence whose elements from `start` on are still to
/// be serialized, after `done`: the array of what the elements become. The
/// first element that cannot be serialized decides the error. Nothing is
/// known where it is not known what an element becomes.
pub open spec fn serialized_elements<T: Serialize>(
    items: Seq<T>,
    start: int,
    done: Seq<EngineModel>,
) -> Option<Result<EngineModel, SerErrorModel>>
    decreases items.len() - start,
{
    if start < 0 || start >= items.len() {
        Some(Ok(EngineModel::Array(done)))
    } else {
        match items[start].serialized() {
            None => None,
            Some(Err(e)) => Some(Err(e)),
            Some(Ok(v)) => serialized_elements(items, start + 1, done.push(v)),
        }
    }
}

impl<T: Serialize> Serialize for Vec<T> {
    open spec fn serialized(&self) -> Option<Result<EngineModel, SerErrorModel>> {
        serialized_elements(self@, 0, Seq::empty())
    }

    fn serialize(&self, serializer: Serializer) -> (r: Result<EngineValue, SerializationError>)
        ensures
            r matches Ok(v) ==> v@ is Array && v@->Array_0.len() == self@.len(),
            r matches Err(e) ==> exists|i: int|
                0 <= i < self@.len() && #[trigger] call_ensures(
                    T::serialize,
                    (&self@[i], serializer),
                    Err::<EngineValue, SerializationError>(e),
                ),
    {
        let mut seq = serializer.serialize_seq(Some(self.len()));
        let mut i: usize = 0;
        while i < self.len()
            invariant
                i <= self@.len(),
                seq@.is_some(),
                seq@.unwrap().len() == i,
                serialized_elements(self@, 0, Seq::empty()).is_some() ==> serialized_elements(
                    self@,
                    0,
                    Seq::empty(),
                ) == serialized_elements(self@, i as int, seq@.unwrap()),
            decreases self@.len() - i,
        {
            match seq.serialize_element(self[i].serialize(serializer)) {
                Ok(_) => {},
                Err(e) => {
                    return Err(e);
                },
            }
            i += 1;
        }
        seq.end()
    }
}

} // verus!
