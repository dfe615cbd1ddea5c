//! Engine values as plain data.
//!
//! A `RawValue` is the word the engine hands around: a tag and a payload. An
//! `EngineValue` is what the engine reports of a value when it is inspected,
//! and what it is asked to build when a value is handed over.
use vstd::prelude::*;
use crate::tag::{
    is_ref_counted_number, is_tag_number, tag_number, JsTag, TAG_BIG_INT, TAG_BOOL, TAG_EXCEPTION,
    TAG_FLOAT64, TAG_INT, TAG_NULL, TAG_OBJECT, TAG_STRING, TAG_UNDEFINED,
};

verus! {

/// What the word of an engine value holds beside its tag.
#[derive(PartialEq, Eq, Clone, Copy, Debug, Structural)]
pub enum Payload {
    /// A 32-bit integer; booleans are held as 0 and 1.
    Int32(i32),
    /// The bits of a 64-bit float.
    Float64(u64),
    /// The address of an object on the engine's heap.
    Ptr(usize),
}

/// The word of an engine value: a tag and a payload.
#[derive(PartialEq, Eq, Clone, Copy, Debug, Structural)]
pub struct RawValue {
    pub u: Payload,
    pub tag: i64,
}

impl RawValue {
    /// Whether the value lives on the engine's heap and is reference counted.
    pub open spec fn ref_counted(self) -> bool {
        is_ref_counted_number(self.tag as int)
    }

    /// Whether the value lives on the engine's heap and is reference counted.
    pub fn is_ref_counted(&self) -> (counted: bool)
        ensures
            counted == self.ref_counted(),
    {
        self.tag < 0
    }

    /// The kind of the value, if its tag is one the engine uses.
    pub fn kind(&self) -> (tag: Option<JsTag>)
        ensures
            match tag {
                Some(t) => tag_number(t) == self.tag,
                None => !is_tag_number(self.tag as int),
            },
    {
        JsTag::from_raw(self.tag)
    }

    /// The `undefined` value.
    pub fn undefined() -> (v: RawValue)
        ensures
            v == (RawValue { u: Payload::Int32(0), tag: TAG_UNDEFINED }),
    {
        RawValue { u: Payload::Int32(0), tag: TAG_UNDEFINED }
    }

    /// The marker that the engine returns when an exception was thrown.
    pub fn exception() -> (v: RawValue)
        ensures
            v == (RawValue { u: Payload::Int32(0), tag: TAG_EXCEPTION }),
    {
        RawValue { u: Payload::Int32(0), tag: TAG_EXCEPTION }
    }

    /// A boolean value.
    pub fn boolean(flag: bool) -> (v: RawValue)
        ensures
            v == (RawValue { u: Payload::Int32(if flag { 1i32 } else { 0i32 }), tag: TAG_BOOL }),
    {
        RawValue { u: Payload::Int32(if flag { 1 } else { 0 }), tag: TAG_BOOL }
    }

    /// A 32-bit integer value.
    pub fn int32(val: i32) -> (v: RawValue)
        ensures
            v == (RawValue { u: Payload::Int32(val), tag: TAG_INT }),
    {
        RawValue { u: Payload::Int32(val), tag: TAG_INT }
    }

    /// A float value, given by its bits.
    pub fn float64(bits: u64) -> (v: RawValue)
        ensures
            v == (RawValue { u: Payload::Float64(bits), tag: TAG_FLOAT64 }),
    {
        RawValue { u: Payload::Float64(bits), tag: TAG_FLOAT64 }
    }
}

/// The `null` value.
pub fn js_null_value() -> (v: RawValue)
    ensures
        v == (RawValue { u: Payload::Int32(0), tag: TAG_NULL }),
        !v.ref_counted(),
{
    RawValue { u: Payload::Int32(0), tag: TAG_NULL }
}

/// A BigInt as the engine reports it.
#[derive(PartialEq, Eq, Debug)]
pub enum EngineBigInt {
    /// The value fits in 64 bits.
    Small(i64),
    /// The value does not fit in 64 bits and is given as text, or the engine
    /// gave no text at all.
    Text(Option<Vec<u8>>),
}

/// One property of an engine object: its name, as the engine turns it into a
/// value, and its value.
#[derive(PartialEq, Eq, Debug)]
pub struct EngineProperty {
    pub key: EngineValue,
    pub value: EngineValue,
}

/// An engine value with all that the bridge reads of it.
#[derive(PartialEq, Eq, Debug)]
pub enum EngineValue {
    Undefined,
    Null,
    /// A boolean, with the integer that the engine holds for it.
    Bool(i32),
    Int(i32),
    /// A float, given by its bits.
    Float64(u64),
    /// A string as the bytes of the engine's copy, or `None` where the engine
    /// gave no copy.
    String(Option<Vec<u8>>),
    /// An array with its elements in index order.
    Array(Vec<EngineValue>),
    /// An array whose length the engine did not give as an integer.
    UnsizedArray,
    /// A plain object with its own enumerable properties in the engine's
    /// order, or `None` where the engine could not list them.
    Object(Option<Vec<EngineProperty>>),
    /// A function object, by its word.
    Function(RawValue),
    /// A date with its time in milliseconds, or `None` where the engine gave
    /// no number for it.
    Date(Option<i64>),
    BigInt(EngineBigInt),
    /// The marker of a thrown exception.
    Exception,
    /// A value of any other kind, by its tag.
    Other(i64),
}

/// What an object of the engine is read as.
#[derive(PartialEq, Eq, Clone, Copy, Debug, Structural)]
pub enum ObjectKind {
    Array,
    Function,
    Date,
    Plain,
}

/// How an object is read, as the engine's predicates tell: an array is read
/// as an array whatever else it is, then a date as a date, then a function
/// as a function; every other object is read property by property.
pub fn object_kind(is_array: bool, is_function: bool, is_date: bool) -> (kind: ObjectKind)
    ensures
        kind == (if is_array {
            ObjectKind::Array
        } else if is_date {
            ObjectKind::Date
        } else if is_function {
            ObjectKind::Function
        } else {
            ObjectKind::Plain
        }),
{
    if is_array {
        ObjectKind::Array
    } else if is_date {
        ObjectKind::Date
    } else if is_function {
        ObjectKind::Function
    } else {
        ObjectKind::Plain
    }
}

/// The number of elements that the `length` of an array tells: an integer
/// that is not negative. Any other value tells no length.
pub open spec fn length_told(length: EngineModel) -> Option<u32> {
    match length {
        EngineModel::Int(n) => if 0 <= n <= i32::MAX {
            Some(n as u32)
        } else {
            None
        },
        _ => None,
    }
}

/// The number of elements of an array, as the value of its `length` tells
/// it. An array whose `length` tells none cannot be read.
pub fn array_length(length: &EngineValue) -> (n: Option<u32>)
    ensures
        n == length_told(length@),
{
    match length {
        EngineValue::Int(n) => {
            if *n >= 0 {
                Some(*n as u32)
            } else {
                None
            }
        },
        _ => None,
    }
}

impl EngineBigInt {
    /// The BigInt that the fast extraction gave, if it gave one: a status
    /// of zero says that the value fits in 64 bits and was extracted.
    pub fn from_fast(status: i32, small: i64) -> (r: Option<EngineBigInt>)
        ensures
            r == (if status == 0 {
                Some(EngineBigInt::Small(small))
            } else {
                None
            }),
    {
        if status == 0 {
            Some(EngineBigInt::Small(small))
        } else {
            None
        }
    }
}

impl EngineValue {
    /// The value that a word stands for by itself, if it does: a scalar is
    /// read from the word, a value on the engine's heap must be asked for,
    /// and a word with any other tag is kept by its tag.
    pub fn from_word(raw: RawValue) -> (r: Option<EngineValue>)
        ensures
            r == (if raw.tag == TAG_STRING || raw.tag == TAG_OBJECT || raw.tag == TAG_BIG_INT {
                None
            } else {
                Some(
                    match (raw.tag, raw.u) {
                        (0, Payload::Int32(n)) => EngineValue::Int(n),
                        (1, Payload::Int32(n)) => EngineValue::Bool(n),
                        (2, _) => EngineValue::Null,
                        (3, _) => EngineValue::Undefined,
                        (6, _) => EngineValue::Exception,
                        (7, Payload::Float64(bits)) => EngineValue::Float64(bits),
                        (tag, _) => EngineValue::Other(tag),
                    },
                )
            }),
    {
        if raw.tag == TAG_STRING || raw.tag == TAG_OBJECT || raw.tag == TAG_BIG_INT {
            return None;
        }
        let value = match (raw.tag, raw.u) {
            (TAG_INT, Payload::Int32(n)) => EngineValue::Int(n),
            (TAG_BOOL, Payload::Int32(n)) => EngineValue::Bool(n),
            (TAG_NULL, _) => EngineValue::Null,
            (TAG_UNDEFINED, _) => EngineValue::Undefined,
            (TAG_EXCEPTION, _) => EngineValue::Exception,
            (TAG_FLOAT64, Payload::Float64(bits)) => EngineValue::Float64(bits),
            (tag, _) => EngineValue::Other(tag),
        };
        Some(value)
    }
}

/// The mathematical model of a BigInt as the engine reports it.
pub enum BigIntModel {
    Small(int),
    Text(Option<Seq<u8>>),
}

/// The mathematical model of an engine value.
pub enum EngineModel {
    Undefined,
    Null,
    Bool(int),
    Int(int),
    Float64(u64),
    String(Option<Seq<u8>>),
    Array(Seq<EngineModel>),
    UnsizedArray,
    Object(Option<Seq<(EngineModel, EngineModel)>>),
    Function(RawValue),
    Date(Option<int>),
    BigInt(BigIntModel),
    Exception,
    Other(int),
}

impl View for EngineBigInt {
    type V = BigIntModel;

    open spec fn view(&self) -> BigIntModel {
        match self {
            EngineBigInt::Small(n) => BigIntModel::Small(*n as int),
            EngineBigInt::Text(Some(bytes)) => BigIntModel::Text(Some(bytes@)),
            EngineBigInt::Text(None) => BigIntModel::Text(None),
        }
    }
}

/// The models of a sequence of engine values.
pub open spec fn engine_values_view(items: Seq<EngineValue>) -> Seq<EngineModel>
    decreases items,
{
    if items.len() == 0 {
        Seq::empty()
    } else {
        engine_values_view(items.drop_last()).push(engine_model(items.last()))
    }
}

/// The models of a sequence of engine properties.
pub open spec fn engine_props_view(props: Seq<EngineProperty>) -> Seq<(EngineModel, EngineModel)>
    decreases props,
{
    if props.len() == 0 {
        Seq::empty()
    } else {
        engine_props_view(props.drop_last()).push(
            (engine_model(props.last().key), engine_model(props.last().value)),
        )
    }
}

/// The model of an engine value.
pub open spec fn engine_model(v: EngineValue) -> EngineModel
    decreases v,
{
    match v {
        EngineValue::Undefined => EngineModel::Undefined,
        EngineValue::Null => EngineModel::Null,
        EngineValue::Bool(raw) => EngineModel::Bool(raw as int),
        EngineValue::Int(n) => EngineModel::Int(n as int),
        EngineValue::Float64(bits) => EngineModel::Float64(bits),
        EngineValue::String(Some(bytes)) => EngineModel::String(Some(bytes@)),
        EngineValue::String(None) => EngineModel::String(None),
        EngineValue::Array(items) => EngineModel::Array(engine_values_view(items@)),
        EngineValue::UnsizedArray => EngineModel::UnsizedArray,
        EngineValue::Object(Some(props)) => EngineModel::Object(Some(engine_props_view(props@))),
        EngineValue::Object(None) => EngineModel::Object(None),
        EngineValue::Function(raw) => EngineModel::Function(raw),
        EngineValue::Date(Some(ms)) => EngineModel::Date(Some(ms as int)),
        EngineValue::Date(None) => EngineModel::Date(None),
        EngineValue::BigInt(b) => EngineModel::BigInt(b@),
        EngineValue::Exception => EngineModel::Exception,
        EngineValue::Other(tag) => EngineModel::Other(tag as int),
    }
}

impl View for EngineValue {
    type V = EngineModel;

    open spec fn view(&self) -> EngineModel {
        engine_model(*self)
    }
}

/// The model of a sequence of engine values holds the model of each value,
/// in order.
pub proof fn lemma_engine_values_view(items: Seq<EngineValue>)
    ensures
        engine_values_view(items).len() == items.len(),
        forall|i: int|
            0 <= i < items.len() ==> #[trigger] engine_values_view(items)[i] == items[i]@,
    decreases items.len(),
{
    if items.len() > 0 {
        lemma_engine_values_view(items.drop_last());
    }
}

/// The model of a sequence of engine properties holds the model of each
/// property, in order.
pub proof fn lemma_engine_props_view(props: Seq<EngineProperty>)
    ensures
        engine_props_view(props).len() == props.len(),
        forall|i: int|
            0 <= i < props.len() ==> #[trigger] engine_props_view(props)[i] == (
                props[i].key@,
                props[i].value@,
            ),
    decreases props.len(),
{
    if props.len() > 0 {
        lemma_engine_props_view(props.drop_last());
    }
}

} // verus!
