//! Conversion between host values and engine values, in both directions.
use vstd::prelude::*;
use vstd::utf8::{decode_utf8, encode_utf8, valid_utf8};
use crate::bigint::JsBigInt;
use crate::decimal::{decimal, decimal_value, is_decimal, is_digit_char};
use crate::engine::{
    engine_props_view, engine_values_view, lemma_engine_props_view, lemma_engine_values_view,
    BigIntModel, EngineBigInt, EngineModel, EngineProperty, EngineValue,
};
use crate::owned_value_ref::OwnedValueRef;
use crate::value::{
    lemma_props_view, lemma_values_view, props_view, values_view, JsValue, Property,
    ValueError, ValueErrorModel, ValueModel,
};

verus! {

/// The position of the first zero byte at or after `start`, or the length of
/// the bytes where there is none.
pub open spec fn zero_from(bytes: Seq<u8>, start: int) -> int
    decreases bytes.len() - start,
{
    if start >= bytes.len() {
        bytes.len() as int
    } else if bytes[start] == 0 {
        start
    } else {
        zero_from(bytes, start + 1)
    }
}

/// The position of the first zero byte, or the length where there is none.
pub open spec fn first_zero(bytes: Seq<u8>) -> int {
    zero_from(bytes, 0)
}

/// The bytes before the first zero byte: what a C string holds.
pub open spec fn until_zero(bytes: Seq<u8>) -> Seq<u8> {
    bytes.take(first_zero(bytes))
}

/// The first zero byte stands inside the bytes or at their end, and no byte
/// before it is zero.
pub proof fn lemma_zero_from(bytes: Seq<u8>, start: int)
    requires
        0 <= start <= bytes.len(),
    ensures
        start <= zero_from(bytes, start) <= bytes.len(),
        zero_from(bytes, start) < bytes.len() ==> bytes[zero_from(bytes, start)] == 0,
        forall|i: int| start <= i < zero_from(bytes, start) ==> bytes[i] != 0,
    decreases bytes.len() - start,
{
    if start < bytes.len() && bytes[start] != 0 {
        lemma_zero_from(bytes, start + 1);
    }
}

/// Finds the first zero byte.
pub fn find_zero(bytes: &Vec<u8>) -> (at: usize)
    ensures
        at == first_zero(bytes@),
        at <= bytes@.len(),
{
    let mut i: usize = 0;
    while i < bytes.len()
        invariant
            i <= bytes@.len(),
            zero_from(bytes@, 0) == zero_from(bytes@, i as int),
        decreases bytes@.len() - i,
    {
        if bytes[i] == 0 {
            return i;
        }
        i += 1;
    }
    i
}

/// `String::from_utf8`: the text that the bytes encode, where they are valid
/// UTF-8, and nothing where they are not.
#[verifier::external_body]
fn string_from_utf8(bytes: Vec<u8>) -> (r: Option<String>)
    ensures
        match r {
            Some(s) => valid_utf8(bytes@) && s@ == decode_utf8(bytes@),
            None => !valid_utf8(bytes@),
        },
{
    String::from_utf8(bytes).ok()
}

/// The bytes of a C string as text.
pub open spec fn c_string_text(bytes: Seq<u8>) -> Result<Seq<char>, ValueErrorModel> {
    if valid_utf8(until_zero(bytes)) {
        Ok(decode_utf8(until_zero(bytes)))
    } else {
        Err(ValueErrorModel::InvalidString)
    }
}

/// Reads the engine's copy of a string: the bytes up to the first zero byte,
/// which must be valid UTF-8.
pub fn read_c_string(bytes: &Vec<u8>) -> (r: Result<String, ValueError>)
    ensures
        match r {
            Ok(s) => c_string_text(bytes@) == Ok::<Seq<char>, ValueErrorModel>(s@),
            Err(e) => c_string_text(bytes@) == Err::<Seq<char>, ValueErrorModel>(e@),
        },
{
    let end = find_zero(bytes);
    let mut copy: Vec<u8> = Vec::new();
    let mut i: usize = 0;
    while i < end
        invariant
            i <= end <= bytes@.len(),
            copy@ == bytes@.take(i as int),
        decreases end - i,
    {
        copy.push(bytes[i]);
        assert(bytes@.take(i as int).push(bytes@[i as int]) =~= bytes@.take(i + 1));
        i += 1;
    }
    match string_from_utf8(copy) {
        Some(s) => Ok(s),
        None => Err(ValueError::InvalidString),
    }
}

/// What becomes of the elements of an array from `start` on, after `done`.
/// The first element that cannot be converted decides the error.
pub open spec fn serialized_items(
    items: Seq<ValueModel>,
    start: int,
    done: Seq<EngineModel>,
) -> Result<Seq<EngineModel>, ValueErrorModel>
    decreases items, items.len() - start,
{
    if start < 0 || start >= items.len() {
        Ok(done)
    } else {
        match serialized(items[start]) {
            Err(e) => Err(e),
            Ok(x) => serialized_items(items, start + 1, done.push(x)),
        }
    }
}

/// What becomes of the properties of an object from `start` on, after
/// `done`. A name with a zero byte is refused before its value is looked at.
pub open spec fn serialized_props(
    props: Seq<(Seq<char>, ValueModel)>,
    start: int,
    done: Seq<(EngineModel, EngineModel)>,
) -> Result<Seq<(EngineModel, EngineModel)>, ValueErrorModel>
    decreases props, props.len() - start,
{
    if start < 0 || start >= props.len() {
        Ok(done)
    } else {
        let name = encode_utf8(props[start].0);
        if first_zero(name) < name.len() {
            Err(ValueErrorModel::StringWithZeroBytes(first_zero(name) as nat))
        } else {
            match serialized(props[start].1) {
                Err(e) => Err(e),
                Ok(x) => serialized_props(
                    props,
                    start + 1,
                    done.push((EngineModel::String(Some(name)), x)),
                ),
            }
        }
    }
}

/// The engine value that a host value becomes.
///
/// Scalars map directly. A string becomes the engine string of its UTF-8
/// bytes. An array becomes an array of its converted elements, an object an
/// object of its converted properties. A BigInt that fits in 64 bits is
/// built directly, any other from its decimal text.
pub open spec fn serialized(v: ValueModel) -> Result<EngineModel, ValueErrorModel>
    decreases v, 0int,
{
    match v {
        ValueModel::Undefined => Ok(EngineModel::Undefined),
        ValueModel::Null => Ok(EngineModel::Null),
        ValueModel::Bool(b) => Ok(
            EngineModel::Bool(
                if b {
                    1
                } else {
                    0
                },
            ),
        ),
        ValueModel::Int(n) => Ok(EngineModel::Int(n)),
        ValueModel::Float(bits) => Ok(EngineModel::Float64(bits)),
        ValueModel::String(s) => Ok(EngineModel::String(Some(encode_utf8(s)))),
        ValueModel::Array(items) => match serialized_items(items, 0, Seq::empty()) {
            Ok(done) => Ok(EngineModel::Array(done)),
            Err(e) => Err(e),
        },
        ValueModel::Object(props) => match serialized_props(props, 0, Seq::empty()) {
            Ok(done) => Ok(EngineModel::Object(Some(done))),
            Err(e) => Err(e),
        },
        ValueModel::Date(ms) => Ok(EngineModel::Date(Some(ms))),
        ValueModel::BigInt(n) => if i64::MIN <= n <= i64::MAX {
            Ok(EngineModel::BigInt(BigIntModel::Small(n)))
        } else {
            Ok(EngineModel::BigInt(BigIntModel::Text(Some(encode_utf8(decimal(n))))))
        },
        ValueModel::Function(raw) => Ok(EngineModel::Function(raw)),
    }
}

/// The model of the outcome of a conversion to the engine.
pub open spec fn engine_outcome(r: Result<EngineValue, ValueError>) -> Result<
    EngineModel,
    ValueErrorModel,
> {
    match r {
        Ok(v) => Ok(v@),
        Err(e) => Err(e@),
    }
}

/// The model of the outcome of a conversion to the host.
pub open spec fn host_outcome(r: Result<JsValue, ValueError>) -> Result<
    ValueModel,
    ValueErrorModel,
> {
    match r {
        Ok(v) => Ok(v@),
        Err(e) => Err(e@),
    }
}

/// Converts a host value into the engine value that the engine is to build.
pub fn serialize_value(value: &JsValue) -> (r: Result<EngineValue, ValueError>)
    ensures
        engine_outcome(r) == serialized(value@),
    decreases value,
{
    match value {
        JsValue::Undefined => Ok(EngineValue::Undefined),
        JsValue::Null => Ok(EngineValue::Null),
        JsValue::Bool(flag) => Ok(
            EngineValue::Bool(
                if *flag {
                    1
                } else {
                    0
                },
            ),
        ),
        JsValue::Int(val) => Ok(EngineValue::Int(*val)),
        JsValue::Float(bits) => Ok(EngineValue::Float64(*bits)),
        JsValue::String(val) => Ok(EngineValue::String(Some(val.as_str().as_bytes_vec()))),
        JsValue::Array(values) => {
            let mut done: Vec<EngineValue> = Vec::new();
            let mut index: usize = 0;
            while index < values.len()
                invariant
                    index <= values@.len(),
                    decreases_to!(value => values),
                    value@ == ValueModel::Array(values_view(values@)),
                    serialized_items(values_view(values@), 0, Seq::empty()) == serialized_items(
                        values_view(values@),
                        index as int,
                        engine_values_view(done@),
                    ),
                decreases values@.len() - index,
            {
                proof {
                    vstd::std_specs::vec::axiom_vec_index_decreases(*values, index as int);
                    lemma_values_view(values@);
                }
                match serialize_value(&values[index]) {
                    Ok(qvalue) => {
                        let ghost before = engine_values_view(done@);
                        let ghost old_done = done@;
                        done.push(qvalue);
                        assert(done@.drop_last() =~= old_done);
                        assert(engine_values_view(done@) == before.push(qvalue@));
                    },
                    Err(e) => {
                        return Err(e);
                    },
                }
                index += 1;
            }
            proof {
                lemma_values_view(values@);
            }
            Ok(EngineValue::Array(done))
        },
        JsValue::Object(map) => {
            let mut done: Vec<EngineProperty> = Vec::new();
            let mut index: usize = 0;
            while index < map.len()
                invariant
                    index <= map@.len(),
                    decreases_to!(value => map),
                    value@ == ValueModel::Object(props_view(map@)),
                    serialized_props(props_view(map@), 0, Seq::empty()) == serialized_props(
                        props_view(map@),
                        index as int,
                        engine_props_view(done@),
                    ),
                decreases map@.len() - index,
            {
                proof {
                    vstd::std_specs::vec::axiom_vec_index_decreases(*map, index as int);
                    lemma_props_view(map@);
                }
                let name = map[index].key.as_str().as_bytes_vec();
                let at = find_zero(&name);
                if at < name.len() {
                    return Err(ValueError::StringWithZeroBytes(at));
                }
                match serialize_value(&map[index].value) {
                    Ok(qvalue) => {
                        let ghost before = engine_props_view(done@);
                        let ghost old_done = done@;
                        let ghost key_model = EngineModel::String(Some(name@));
                        let key = EngineValue::String(Some(name));
                        assert(key@ == key_model);
                        done.push(EngineProperty { key, value: qvalue });
                        assert(done@.drop_last() =~= old_done);
                        assert(done@.last().key@ == key_model);
                        assert(done@.last().value@ == qvalue@);
                        assert(engine_props_view(done@) == before.push((key_model, qvalue@)));
                    },
                    Err(e) => {
                        return Err(e);
                    },
                }
                index += 1;
            }
            proof {
                lemma_props_view(map@);
            }
            Ok(EngineValue::Object(Some(done)))
        },
        JsValue::Date(ms) => Ok(EngineValue::Date(Some(*ms))),
        JsValue::BigInt(big) => match big.as_i64() {
            Some(n) => Ok(EngineValue::BigInt(EngineBigInt::Small(n))),
            None => {
                let text = big.to_decimal();
                Ok(EngineValue::BigInt(EngineBigInt::Text(Some(text.as_str().as_bytes_vec()))))
            },
        },
        JsValue::OpaqueFunction(func) => Ok(EngineValue::Function(func.as_inner())),
    }
}

/// The names of the properties of an object, as the engine lists them.
/// They are held until they are released.
#[derive(PartialEq, Eq, Debug)]
pub struct OwnedPropertiesRef {
    atoms: Vec<u32>,
    context: usize,
}

impl OwnedPropertiesRef {
    /// The names that are held.
    pub closed spec fn atoms(self) -> Seq<u32> {
        self.atoms@
    }

    /// The context that the names belong to.
    pub closed spec fn context(self) -> usize {
        self.context
    }

    /// Takes the names that the engine listed. `status` is what the engine
    /// answered: anything but zero means that it could not list them.
    pub fn new(status: i32, atoms: Vec<u32>, context: usize) -> (r: Result<Self, ValueError>)
        ensures
            match r {
                Ok(names) => status == 0 && names.atoms() == atoms@ && names.context() == context,
                Err(e) => status != 0 && e@ == internal("Could not get object properties"@),
            },
    {
        if status != 0 {
            return Err(internal_error("Could not get object properties"));
        }
        Ok(OwnedPropertiesRef { atoms, context })
    }

    /// How many names are held.
    pub fn count(&self) -> (n: usize)
        ensures
            n == self.atoms().len(),
    {
        self.atoms.len()
    }

    /// Lets the names go: hands them out, so that each can be freed.
    pub fn release(self) -> (atoms: Vec<u32>)
        ensures
            atoms@ == self.atoms(),
    {
        self.atoms
    }
}

/// The position of the first property named `key` at or after `start`, or
/// the number of properties where there is none.
pub open spec fn index_of(props: Seq<(Seq<char>, ValueModel)>, key: Seq<char>, start: int) -> int
    decreases props.len() - start,
{
    if start < 0 || start >= props.len() {
        props.len() as int
    } else if props[start].0 == key {
        start
    } else {
        index_of(props, key, start + 1)
    }
}

/// The properties after `key` has been given `value`: the value of a
/// property that is there already is replaced, a new property comes last.
pub open spec fn put(props: Seq<(Seq<char>, ValueModel)>, key: Seq<char>, value: ValueModel) -> Seq<
    (Seq<char>, ValueModel),
> {
    let at = index_of(props, key, 0);
    if 0 <= at < props.len() {
        props.update(at, (key, value))
    } else {
        props.push((key, value))
    }
}

/// The error that carries an internal message.
pub open spec fn internal(msg: Seq<char>) -> ValueErrorModel {
    ValueErrorModel::Internal(msg)
}

/// What becomes of the elements of an engine array from `start` on, after
/// `done`. An element that is the marker of an exception cannot be read.
pub open spec fn deserialized_items(
    items: Seq<EngineModel>,
    start: int,
    done: Seq<ValueModel>,
) -> Result<Seq<ValueModel>, ValueErrorModel>
    decreases items, items.len() - start,
{
    if start < 0 || start >= items.len() {
        Ok(done)
    } else if items[start] is Exception {
        Err(internal("Could not build array"@))
    } else {
        match deserialized(items[start]) {
            Err(e) => Err(e),
            Ok(x) => deserialized_items(items, start + 1, done.push(x)),
        }
    }
}

/// What becomes of the properties of an engine object from `start` on,
/// after `done`. The value is read before the name; the name must be a
/// string.
pub open spec fn deserialized_props(
    props: Seq<(EngineModel, EngineModel)>,
    start: int,
    done: Seq<(Seq<char>, ValueModel)>,
) -> Result<Seq<(Seq<char>, ValueModel)>, ValueErrorModel>
    decreases props, props.len() - start,
{
    if start < 0 || start >= props.len() {
        Ok(done)
    } else if props[start].1 is Exception {
        Err(internal("Could not get object property"@))
    } else {
        match deserialized(props[start].1) {
            Err(e) => Err(e),
            Ok(x) => if props[start].0 is Exception {
                Err(internal("Could not get object property name"@))
            } else {
                match deserialized(props[start].0) {
                    Err(e) => Err(e),
                    Ok(ValueModel::String(name)) => deserialized_props(
                        props,
                        start + 1,
                        put(done, name, x),
                    ),
                    Ok(_) => Err(internal("Could not get property name"@)),
                }
            },
        }
    }
}

/// The host value that an engine value becomes. The tag alone decides how
/// the value is read.
pub open spec fn deserialized(v: EngineModel) -> Result<ValueModel, ValueErrorModel>
    decreases v, 0int,
{
    match v {
        EngineModel::Undefined => Ok(ValueModel::Undefined),
        EngineModel::Null => Ok(ValueModel::Null),
        EngineModel::Bool(raw) => Ok(ValueModel::Bool(raw > 0)),
        EngineModel::Int(n) => Ok(ValueModel::Int(n)),
        EngineModel::Float64(bits) => Ok(ValueModel::Float(bits)),
        EngineModel::String(None) => Err(
            internal("Could not convert string: got a null pointer"@),
        ),
        EngineModel::String(Some(bytes)) => match c_string_text(bytes) {
            Ok(text) => Ok(ValueModel::String(text)),
            Err(e) => Err(e),
        },
        EngineModel::Array(items) => match deserialized_items(items, 0, Seq::empty()) {
            Ok(done) => Ok(ValueModel::Array(done)),
            Err(e) => Err(e),
        },
        EngineModel::UnsizedArray => Err(internal("Could not determine array length"@)),
        EngineModel::Object(None) => Err(internal("Could not get object properties"@)),
        EngineModel::Object(Some(props)) => match deserialized_props(props, 0, Seq::empty()) {
            Ok(done) => Ok(ValueModel::Object(done)),
            Err(e) => Err(e),
        },
        EngineModel::Function(raw) => Ok(ValueModel::Function(raw)),
        EngineModel::Date(Some(ms)) => Ok(ValueModel::Date(ms)),
        EngineModel::Date(None) => Err(
            internal("Could not convert 'Date' instance to timestamp"@),
        ),
        EngineModel::BigInt(BigIntModel::Small(n)) => Ok(ValueModel::BigInt(n)),
        EngineModel::BigInt(BigIntModel::Text(None)) => Err(
            internal("Could not convert BigInt to string: got a null pointer"@),
        ),
        EngineModel::BigInt(BigIntModel::Text(Some(bytes))) => match c_string_text(bytes) {
            Ok(text) => if is_decimal(text) {
                Ok(ValueModel::BigInt(decimal_value(text)))
            } else {
                Err(internal("Could not convert BigInt: not a decimal number"@))
            },
            Err(e) => Err(e),
        },
        EngineModel::Exception => Err(
            internal("Unhandled JS_TAG value: "@ + decimal(crate::tag::TAG_EXCEPTION as int)),
        ),
        EngineModel::Other(tag) => Err(internal("Unhandled JS_TAG value: "@ + decimal(tag))),
    }
}

/// Whether a text is an optional minus sign followed by at least one digit.
pub fn check_decimal(text: &str) -> (ok: bool)
    ensures
        ok == is_decimal(text@),
{
    let len = text.unicode_len();
    if len == 0 {
        return false;
    }
    let first = text.get_char(0);
    let start: usize = if first == '-' {
        1
    } else {
        0
    };
    if start == len {
        return false;
    }
    let ghost rest = text@.subrange(start as int, len as int);
    let mut i: usize = start;
    while i < len
        invariant
            start <= i <= len,
            len == text@.len(),
            rest == text@.subrange(start as int, len as int),
            start == (if text@[0] == '-' {
                1int
            } else {
                0int
            }),
            forall|k: int| 0 <= k < i - start ==> is_digit_char(#[trigger] rest[k]),
        decreases len - i,
    {
        let c = text.get_char(i);
        let digit = c == '0' || c == '1' || c == '2' || c == '3' || c == '4' || c == '5' || c == '6'
            || c == '7' || c == '8' || c == '9';
        if !digit {
            assert(rest[i - start] == c);
            assert(text@.subrange(0, len as int) =~= text@);
            return false;
        }
        assert(rest[i - start] == c);
        i += 1;
    }
    assert(text@.subrange(0, len as int) =~= text@);
    true
}

/// The error for a value that the bridge cannot read, by its tag.
fn unhandled_tag(tag: i64) -> (e: ValueError)
    ensures
        e@ == internal("Unhandled JS_TAG value: "@ + decimal(tag as int)),
{
    let mut msg = String::from_str("Unhandled JS_TAG value: ");
    crate::decimal::push_decimal(&mut msg, tag);
    ValueError::Internal(msg)
}

/// An internal error with the given message.
fn internal_error(msg: &str) -> (e: ValueError)
    ensures
        e@ == internal(msg@),
{
    ValueError::Internal(String::from_str(msg))
}

/// Gives the property `key` the value `value`: replaces the value of a
/// property that is there already, or adds a new property at the end.
pub fn put_property(props: &mut Vec<Property>, key: String, value: JsValue)
    ensures
        props_view(final(props)@) == put(props_view(old(props)@), key@, value@),
{
    proof {
        lemma_props_view(props@);
    }
    let mut i: usize = 0;
    while i < props.len()
        invariant
            i <= props@.len(),
            props@ == old(props)@,
            index_of(props_view(props@), key@, 0) == index_of(props_view(props@), key@, i as int),
            props_view(props@).len() == props@.len(),
            forall|k: int|
                0 <= k < props@.len() ==> #[trigger] props_view(props@)[k] == (
                    props@[k].key@,
                    props@[k].value@,
                ),
        decreases props@.len() - i,
    {
        if props[i].key == key {
            let ghost before = props_view(props@);
            props.set(i, Property { key, value });
            proof {
                lemma_props_view(props@);
                assert(props_view(props@) =~= before.update(i as int, (key@, value@)));
            }
            return ;
        }
        i += 1;
    }
    let ghost before = props_view(props@);
    let ghost old_props = props@;
    props.push(Property { key, value });
    proof {
        assert(props@.drop_last() =~= old_props);
    }
}

/// Converts an engine value, as read from the engine, into a host value.
pub fn deserialize_value(value: &EngineValue) -> (r: Result<JsValue, ValueError>)
    ensures
        host_outcome(r) == deserialized(value@),
    decreases value,
{
    match value {
        EngineValue::Int(val) => Ok(JsValue::Int(*val)),
        EngineValue::Bool(raw) => Ok(JsValue::Bool(*raw > 0)),
        EngineValue::Null => Ok(JsValue::Null),
        EngineValue::Undefined => Ok(JsValue::Undefined),
        EngineValue::Float64(bits) => Ok(JsValue::Float(*bits)),
        EngineValue::String(None) => Err(
            internal_error("Could not convert string: got a null pointer"),
        ),
        EngineValue::String(Some(bytes)) => match read_c_string(bytes) {
            Ok(s) => Ok(JsValue::String(s)),
            Err(e) => Err(e),
        },
        EngineValue::Array(items) => {
            let mut values: Vec<JsValue> = Vec::new();
            let mut index: usize = 0;
            while index < items.len()
                invariant
                    index <= items@.len(),
                    decreases_to!(value => items),
                    value@ == EngineModel::Array(engine_values_view(items@)),
                    deserialized_items(engine_values_view(items@), 0, Seq::empty())
                        == deserialized_items(
                        engine_values_view(items@),
                        index as int,
                        values_view(values@),
                    ),
                decreases items@.len() - index,
            {
                proof {
                    vstd::std_specs::vec::axiom_vec_index_decreases(*items, index as int);
                    lemma_engine_values_view(items@);
                }
                if let EngineValue::Exception = &items[index] {
                    return Err(internal_error("Could not build array"));
                }
                match deserialize_value(&items[index]) {
                    Ok(item) => {
                        let ghost before = values_view(values@);
                        let ghost old_values = values@;
                        values.push(item);
                        assert(values@.drop_last() =~= old_values);
                        assert(values_view(values@) == before.push(item@));
                    },
                    Err(e) => {
                        return Err(e);
                    },
                }
                index += 1;
            }
            proof {
                lemma_engine_values_view(items@);
            }
            Ok(JsValue::Array(values))
        },
        EngineValue::UnsizedArray => Err(internal_error("Could not determine array length")),
        EngineValue::Object(None) => Err(internal_error("Could not get object properties")),
        EngineValue::Object(Some(props)) => {
            let mut map: Vec<Property> = Vec::new();
            let mut index: usize = 0;
            while index < props.len()
                invariant
                    index <= props@.len(),
                    decreases_to!(value => props),
                    value@ == EngineModel::Object(Some(engine_props_view(props@))),
                    deserialized_props(engine_props_view(props@), 0, Seq::empty())
                        == deserialized_props(
                        engine_props_view(props@),
                        index as int,
                        props_view(map@),
                    ),
                decreases props@.len() - index,
            {
                proof {
                    vstd::std_specs::vec::axiom_vec_index_decreases(*props, index as int);
                    lemma_engine_props_view(props@);
                }
                if let EngineValue::Exception = &props[index].value {
                    return Err(internal_error("Could not get object property"));
                }
                let item = match deserialize_value(&props[index].value) {
                    Ok(item) => item,
                    Err(e) => {
                        return Err(e);
                    },
                };
                if let EngineValue::Exception = &props[index].key {
                    return Err(internal_error("Could not get object property name"));
                }
                let key = match deserialize_value(&props[index].key) {
                    Ok(JsValue::String(s)) => s,
                    Ok(_) => {
                        return Err(internal_error("Could not get property name"));
                    },
                    Err(e) => {
                        return Err(e);
                    },
                };
                put_property(&mut map, key, item);
                index += 1;
            }
            proof {
                lemma_engine_props_view(props@);
            }
            Ok(JsValue::Object(map))
        },
        EngineValue::Function(raw) => Ok(JsValue::OpaqueFunction(OwnedValueRef::wrap(*raw))),
        EngineValue::Date(Some(ms)) => Ok(JsValue::Date(*ms)),
        EngineValue::Date(None) => Err(
            internal_error("Could not convert 'Date' instance to timestamp"),
        ),
        EngineValue::BigInt(EngineBigInt::Small(n)) => Ok(JsValue::BigInt(JsBigInt::from_i64(*n))),
        EngineValue::BigInt(EngineBigInt::Text(None)) => Err(
            internal_error("Could not convert BigInt to string: got a null pointer"),
        ),
        EngineValue::BigInt(EngineBigInt::Text(Some(bytes))) => match read_c_string(bytes) {
            Ok(text) => {
                if !check_decimal(text.as_str()) {
                    return Err(internal_error("Could not convert BigInt: not a decimal number"));
                }
                match JsBigInt::parse_decimal(text.as_str()) {
                    Some(big) => Ok(JsValue::BigInt(big)),
                    None => Err(internal_error("Could not convert BigInt: not a decimal number")),
                }
            },
            Err(e) => Err(e),
        },
        EngineValue::Exception => Err(unhandled_tag(crate::tag::TAG_EXCEPTION)),
        EngineValue::Other(tag) => Err(unhandled_tag(*tag)),
    }
}

/// The position found is at or after `start` and at most the number of
/// properties; a property found there has the name, and none before it
/// has.
pub proof fn lemma_index_of(props: Seq<(Seq<char>, ValueModel)>, key: Seq<char>, start: int)
    requires
        0 <= start <= props.len(),
    ensures
        start <= index_of(props, key, start) <= props.len(),
        index_of(props, key, start) < props.len() ==> props[index_of(props, key, start)].0 == key,
        forall|i: int| start <= i < index_of(props, key, start) ==> (#[trigger] props[i]).0 != key,
    decreases props.len() - start,
{
    if start < props.len() && props[start].0 != key {
        lemma_index_of(props, key, start + 1);
    }
}

/// Putting a property into properties with distinct names leaves the names
/// distinct.
pub proof fn lemma_put_keeps_names_distinct(
    props: Seq<(Seq<char>, ValueModel)>,
    key: Seq<char>,
    value: ValueModel,
)
    requires
        crate::value::distinct_keys(props),
        forall|i: int| 0 <= i < props.len() ==> (#[trigger] props[i]).1.well_formed(),
        value.well_formed(),
    ensures
        crate::value::distinct_keys(put(props, key, value)),
        forall|i: int|
            0 <= i < put(props, key, value).len() ==> (#[trigger] put(
                props,
                key,
                value,
            )[i]).1.well_formed(),
{
    lemma_index_of(props, key, 0);
    let at = index_of(props, key, 0);
    let after = put(props, key, value);
    assert forall|i: int, j: int| 0 <= i < j < after.len() implies (#[trigger] after[i]).0 != (
        #[trigger] after[j]).0 by {
        if at < props.len() {
            assert(after[i].0 == props[i].0);
            assert(after[j].0 == props[j].0);
        } else {
            if j < props.len() {
                assert(after[i] == props[i]);
                assert(after[j] == props[j]);
            } else {
                assert(after[i] == props[i]);
                assert(props[i].0 != key);
            }
        }
    }
    assert forall|i: int| 0 <= i < after.len() implies (#[trigger] after[i]).1.well_formed() by {
        if i != at {
            assert(after[i] == props[i]);
        }
    }
}

/// The elements that are read from an engine array are well formed, where
/// those read before are.
proof fn lemma_items_well_formed(items: Seq<EngineModel>, start: int, done: Seq<ValueModel>)
    requires
        0 <= start <= items.len(),
        forall|i: int| 0 <= i < done.len() ==> (#[trigger] done[i]).well_formed(),
    ensures
        deserialized_items(items, start, done) matches Ok(out) ==> forall|i: int|
            0 <= i < out.len() ==> (#[trigger] out[i]).well_formed(),
    decreases items, items.len() - start,
{
    if start < items.len() && !(items[start] is Exception) {
        lemma_deserialized_is_well_formed(items[start]);
        match deserialized(items[start]) {
            Ok(x) => {
                let next = done.push(x);
                assert forall|i: int| 0 <= i < next.len() implies (
                #[trigger] next[i]).well_formed() by {
                    if i < done.len() {
                        assert(next[i] == done[i]);
                    }
                }
                lemma_items_well_formed(items, start + 1, next);
            },
            Err(_) => {},
        }
    }
}

/// The properties that are read from an engine object have distinct names
/// and well-formed values, where those read before have.
proof fn lemma_props_well_formed(
    props: Seq<(EngineModel, EngineModel)>,
    start: int,
    done: Seq<(Seq<char>, ValueModel)>,
)
    requires
        0 <= start <= props.len(),
        crate::value::distinct_keys(done),
        forall|i: int| 0 <= i < done.len() ==> (#[trigger] done[i]).1.well_formed(),
    ensures
        deserialized_props(props, start, done) matches Ok(out) ==> crate::value::distinct_keys(out)
            && forall|i: int| 0 <= i < out.len() ==> (#[trigger] out[i]).1.well_formed(),
    decreases props, props.len() - start,
{
    if start < props.len() && !(props[start].1 is Exception) {
        lemma_deserialized_is_well_formed(props[start].1);
        match deserialized(props[start].1) {
            Ok(x) => {
                if !(props[start].0 is Exception) {
                    match deserialized(props[start].0) {
                        Ok(ValueModel::String(name)) => {
                            lemma_put_keeps_names_distinct(done, name, x);
                            lemma_props_well_formed(props, start + 1, put(done, name, x));
                        },
                        _ => {},
                    }
                }
            },
            Err(_) => {},
        }
    }
}

/// Every host value that is read from the engine is well formed: no object
/// in it holds a name twice, whatever the engine listed.
pub proof fn lemma_deserialized_is_well_formed(v: EngineModel)
    ensures
        deserialized(v) matches Ok(host) ==> host.well_formed(),
    decreases v, 0int,
{
    match v {
        EngineModel::Array(items) => {
            lemma_items_well_formed(items, 0, Seq::empty());
        },
        EngineModel::Object(Some(props)) => {
            lemma_props_well_formed(props, 0, Seq::empty());
        },
        _ => {},
    }
}

/// Whether the bytes hold no zero byte.
pub open spec fn no_zero(bytes: Seq<u8>) -> bool {
    first_zero(bytes) == bytes.len()
}

/// Whether a host value comes back from the engine as it went in: no string
/// in it holds a zero byte, which would end the engine's copy early, and no
/// object in it holds a name twice.
pub open spec fn representable(v: ValueModel) -> bool
    decreases v,
{
    match v {
        ValueModel::String(s) => no_zero(encode_utf8(s)),
        ValueModel::Array(items) => forall|i: int|
            0 <= i < items.len() ==> representable(#[trigger] items[i]),
        ValueModel::Object(props) => crate::value::distinct_keys(props) && forall|i: int|
            0 <= i < props.len() ==> no_zero(encode_utf8((#[trigger] props[i]).0))
                && representable(props[i].1),
        _ => true,
    }
}

/// Bytes without a zero byte are their own C string, and the text they
/// encode comes back from them.
proof fn lemma_text_comes_back(text: Seq<char>)
    requires
        no_zero(encode_utf8(text)),
    ensures
        c_string_text(encode_utf8(text)) == Ok::<Seq<char>, ValueErrorModel>(text),
{
    let bytes = encode_utf8(text);
    assert(bytes.take(bytes.len() as int) =~= bytes);
    vstd::utf8::encode_utf8_valid_utf8(text);
    vstd::utf8::encode_utf8_decode_utf8(text);
}

/// The decimal text of an integer is encoded without a zero byte.
proof fn lemma_decimal_no_zero(v: int)
    ensures
        no_zero(encode_utf8(decimal(v))),
{
    let text = decimal(v);
    crate::decimal::lemma_decimal_round_trip(v);
    if v < 0 {
        crate::decimal::lemma_digits_round_trip((-v) as nat);
        let tail = crate::decimal::digits((-v) as nat);
        assert forall|i: int| 0 <= i < text.len() implies text[i] == '-' || is_digit_char(
            #[trigger] text[i],
        ) by {
            if i > 0 {
                assert(text[i] == tail[i - 1]);
            }
        }
    } else {
        crate::decimal::lemma_digits_round_trip(v as nat);
    }
    assert forall|i: int| 0 <= i < text.len() implies '\0' < #[trigger] text[i] <= '\u{7f}' by {
        assert(text[i] == '-' || is_digit_char(text[i]));
    }
    assert(vstd::utf8::is_ascii_chars(text));
    vstd::utf8::is_ascii_chars_encode_utf8(text);
    let bytes = encode_utf8(text);
    lemma_zero_from(bytes, 0);
    if first_zero(bytes) < bytes.len() {
        let at = first_zero(bytes);
        assert(text[at] as u8 == bytes[at]);
        assert('\0' < text[at]);
    }
}

/// Where every element can be converted, the elements of an array become
/// their conversions, in order.
proof fn lemma_items_serialized(items: Seq<ValueModel>, start: int, done: Seq<EngineModel>)
    requires
        0 <= start <= items.len(),
        forall|i: int| 0 <= i < items.len() ==> (#[trigger] serialized(items[i])) is Ok,
    ensures
        serialized_items(items, start, done) is Ok,
        serialized_items(items, start, done)->Ok_0.len() == done.len() + items.len() - start,
        forall|k: int|
            0 <= k < done.len() ==> (#[trigger] serialized_items(items, start, done)->Ok_0[k])
                == done[k],
        forall|k: int|
            start <= k < items.len() ==> (#[trigger] serialized_items(
                items,
                start,
                done,
            )->Ok_0[done.len() + k - start]) == serialized(items[k])->Ok_0,
    decreases items.len() - start,
{
    if start < items.len() {
        let x = serialized(items[start])->Ok_0;
        lemma_items_serialized(items, start + 1, done.push(x));
        let out = serialized_items(items, start, done)->Ok_0;
        assert(out == serialized_items(items, start + 1, done.push(x))->Ok_0);
        assert forall|k: int| 0 <= k < done.len() implies #[trigger] out[k] == done[k] by {
            assert(done.push(x)[k] == done[k]);
        }
        assert forall|k: int| start <= k < items.len() implies #[trigger] out[done.len() + k
            - start] == serialized(items[k])->Ok_0 by {
            if k == start {
                assert(done.push(x)[done.len() as int] == x);
            } else {
                assert(done.len() + k - start == done.push(x).len() + k - (start + 1));
            }
        }
    }
}

/// Where every element reads back as the given value, an engine array
/// reads back as the sequence of those values.
proof fn lemma_items_deserialized(
    es: Seq<EngineModel>,
    vs: Seq<ValueModel>,
    start: int,
    done: Seq<ValueModel>,
)
    requires
        0 <= start <= es.len(),
        es.len() == vs.len(),
        forall|k: int|
            start <= k < es.len() ==> !((#[trigger] es[k]) is Exception) && deserialized(es[k])
                == Ok::<ValueModel, ValueErrorModel>(vs[k]),
    ensures
        deserialized_items(es, start, done) == Ok::<Seq<ValueModel>, ValueErrorModel>(
            done + vs.subrange(start, vs.len() as int),
        ),
    decreases es.len() - start,
{
    if start < es.len() {
        assert(!(es[start] is Exception));
        lemma_items_deserialized(es, vs, start + 1, done.push(vs[start]));
        assert(done.push(vs[start]) + vs.subrange(start + 1, vs.len() as int) =~= done
            + vs.subrange(start, vs.len() as int));
    } else {
        assert(done + vs.subrange(start, vs.len() as int) =~= done);
    }
}

/// The engine property that a property becomes.
pub open spec fn serialized_prop(p: (Seq<char>, ValueModel)) -> (EngineModel, EngineModel) {
    (EngineModel::String(Some(encode_utf8(p.0))), serialized(p.1)->Ok_0)
}

/// Where every name is free of zero bytes and every value can be converted,
/// the properties of an object become their conversions, in order.
proof fn lemma_props_serialized(
    props: Seq<(Seq<char>, ValueModel)>,
    start: int,
    done: Seq<(EngineModel, EngineModel)>,
)
    requires
        0 <= start <= props.len(),
        forall|i: int|
            0 <= i < props.len() ==> no_zero(encode_utf8((#[trigger] props[i]).0)) && serialized(
                props[i].1,
            ) is Ok,
    ensures
        serialized_props(props, start, done) is Ok,
        serialized_props(props, start, done)->Ok_0.len() == done.len() + props.len() - start,
        forall|k: int|
            0 <= k < done.len() ==> (#[trigger] serialized_props(props, start, done)->Ok_0[k])
                == done[k],
        forall|k: int|
            start <= k < props.len() ==> (#[trigger] serialized_props(
                props,
                start,
                done,
            )->Ok_0[done.len() + k - start]) == serialized_prop(props[k]),
    decreases props.len() - start,
{
    if start < props.len() {
        assert(no_zero(encode_utf8(props[start].0)));
        let x = serialized_prop(props[start]);
        lemma_props_serialized(props, start + 1, done.push(x));
        let out = serialized_props(props, start, done)->Ok_0;
        assert(out == serialized_props(props, start + 1, done.push(x))->Ok_0);
        assert forall|k: int| 0 <= k < done.len() implies #[trigger] out[k] == done[k] by {
            assert(done.push(x)[k] == done[k]);
        }
        assert forall|k: int| start <= k < props.len() implies #[trigger] out[done.len() + k
            - start] == serialized_prop(props[k]) by {
            if k == start {
                assert(done.push(x)[done.len() as int] == x);
            } else {
                assert(done.len() + k - start == done.push(x).len() + k - (start + 1));
            }
        }
    }
}

/// A name that none of the properties has is found at no position.
proof fn lemma_index_of_absent(props: Seq<(Seq<char>, ValueModel)>, key: Seq<char>, start: int)
    requires
        0 <= start <= props.len(),
        forall|i: int| start <= i < props.len() ==> (#[trigger] props[i]).0 != key,
    ensures
        index_of(props, key, start) == props.len(),
    decreases props.len() - start,
{
    if start < props.len() {
        assert(props[start].0 != key);
        lemma_index_of_absent(props, key, start + 1);
    }
}

/// Where the names are distinct and every property reads back as the given
/// property, an engine object reads back as the sequence of those
/// properties.
proof fn lemma_props_deserialized(
    eps: Seq<(EngineModel, EngineModel)>,
    props: Seq<(Seq<char>, ValueModel)>,
    start: int,
)
    requires
        0 <= start <= eps.len(),
        eps.len() == props.len(),
        crate::value::distinct_keys(props),
        forall|k: int|
            start <= k < eps.len() ==> {
                &&& (#[trigger] eps[k]).0 == EngineModel::String(Some(encode_utf8(props[k].0)))
                &&& no_zero(encode_utf8(props[k].0))
                &&& !(eps[k].1 is Exception)
                &&& deserialized(eps[k].1) == Ok::<ValueModel, ValueErrorModel>(props[k].1)
            },
    ensures
        deserialized_props(eps, start, props.take(start)) == Ok::<
            Seq<(Seq<char>, ValueModel)>,
            ValueErrorModel,
        >(props),
    decreases eps.len() - start,
{
    if start < eps.len() {
        let name = props[start].0;
        let done = props.take(start);
        assert(eps[start].0 == EngineModel::String(Some(encode_utf8(name))));
        lemma_text_comes_back(name);
        assert(deserialized(eps[start].0) == Ok::<ValueModel, ValueErrorModel>(
            ValueModel::String(name),
        ));
        assert forall|i: int| 0 <= i < done.len() implies (#[trigger] done[i]).0 != name by {
            assert(done[i] == props[i]);
        }
        lemma_index_of_absent(done, name, 0);
        assert(put(done, name, props[start].1) =~= props.take(start + 1));
        lemma_props_deserialized(eps, props, start + 1);
    } else {
        assert(props.take(start) =~= props);
    }
}

/// A host value that is representable converts to an engine value, and that
/// engine value converts back to the host value it came from.
pub proof fn lemma_round_trip(v: ValueModel)
    requires
        representable(v),
    ensures
        serialized(v) is Ok,
        !(serialized(v)->Ok_0 is Exception),
        deserialized(serialized(v)->Ok_0) == Ok::<ValueModel, ValueErrorModel>(v),
    decreases v,
{
    match v {
        ValueModel::String(s) => {
            lemma_text_comes_back(s);
        },
        ValueModel::Array(items) => {
            assert forall|i: int| 0 <= i < items.len() implies {
                &&& (#[trigger] serialized(items[i])) is Ok
                &&& !(serialized(items[i])->Ok_0 is Exception)
                &&& deserialized(serialized(items[i])->Ok_0) == Ok::<ValueModel, ValueErrorModel>(
                    items[i],
                )
            } by {
                assert(representable(items[i]));
                lemma_round_trip(items[i]);
            }
            lemma_items_serialized(items, 0, Seq::empty());
            let es = serialized_items(items, 0, Seq::empty())->Ok_0;
            assert forall|k: int| 0 <= k < es.len() implies !((#[trigger] es[k]) is Exception)
                && deserialized(es[k]) == Ok::<ValueModel, ValueErrorModel>(items[k]) by {
                assert(es[0 + k - 0] == serialized(items[k])->Ok_0);
            }
            lemma_items_deserialized(es, items, 0, Seq::empty());
            assert(Seq::<ValueModel>::empty() + items.subrange(0, items.len() as int) =~= items);
        },
        ValueModel::Object(props) => {
            assert forall|i: int| 0 <= i < props.len() implies {
                &&& no_zero(encode_utf8((#[trigger] props[i]).0))
                &&& serialized(props[i].1) is Ok
                &&& !(serialized(props[i].1)->Ok_0 is Exception)
                &&& deserialized(serialized(props[i].1)->Ok_0) == Ok::<ValueModel, ValueErrorModel>(
                    props[i].1,
                )
            } by {
                assert(representable(props[i].1));
                lemma_round_trip(props[i].1);
            }
            lemma_props_serialized(props, 0, Seq::empty());
            let eps = serialized_props(props, 0, Seq::empty())->Ok_0;
            assert forall|k: int| 0 <= k < eps.len() implies {
                &&& (#[trigger] eps[k]).0 == EngineModel::String(Some(encode_utf8(props[k].0)))
                &&& no_zero(encode_utf8(props[k].0))
                &&& !(eps[k].1 is Exception)
                &&& deserialized(eps[k].1) == Ok::<ValueModel, ValueErrorModel>(props[k].1)
            } by {
                assert(eps[0 + k - 0] == serialized_prop(props[k]));
                assert(no_zero(encode_utf8(props[k].0)));
            }
            assert(props.take(0) =~= Seq::empty());
            lemma_props_deserialized(eps, props, 0);
        },
        ValueModel::BigInt(n) => {
            if !(i64::MIN <= n <= i64::MAX) {
                lemma_decimal_no_zero(n);
                lemma_text_comes_back(decimal(n));
                crate::decimal::lemma_decimal_round_trip(n);
            }
        },
        _ => {},
    }
}

} // verus!
