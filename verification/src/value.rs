//! Host values: what host code hands to the engine and gets back from it.
use vstd::prelude::*;
use crate::bigint::JsBigInt;
use crate::engine::RawValue;
use crate::owned_value_ref::OwnedValueRef;

verus! {

/// One property of an object value.
#[derive(Debug)]
pub struct Property {
    pub key: String,
    pub value: JsValue,
}

/// A value that can be handed to the engine or taken from it.
///
/// Two values are equal when they hold the same: numbers and texts by
/// their value, floats by their bits, BigInts by the integer they hold,
/// arrays element by element, and objects property by property, in
/// whatever order the properties stand.
#[derive(Debug)]
pub enum JsValue {
    Undefined,
    Null,
    Bool(bool),
    Int(i32),
    /// A float, given by the bits of its 64-bit encoding.
    Float(u64),
    String(String),
    Array(Vec<JsValue>),
    /// An object, as its properties. No name occurs twice in a well-formed
    /// object.
    Object(Vec<Property>),
    /// A date, as milliseconds since the Unix epoch.
    Date(i64),
    BigInt(JsBigInt),
    /// A function of the engine that host code can hold on to and call later.
    OpaqueFunction(OwnedValueRef),
}

/// The mathematical model of a host value.
pub enum ValueModel {
    Undefined,
    Null,
    Bool(bool),
    Int(int),
    Float(u64),
    String(Seq<char>),
    Array(Seq<ValueModel>),
    Object(Seq<(Seq<char>, ValueModel)>),
    Date(int),
    BigInt(int),
    Function(RawValue),
}

/// The models of a sequence of host values.
pub open spec fn values_view(items: Seq<JsValue>) -> Seq<ValueModel>
    decreases items,
{
    if items.len() == 0 {
        Seq::empty()
    } else {
        values_view(items.drop_last()).push(value_model(items.last()))
    }
}

/// The models of a sequence of properties.
pub open spec fn props_view(props: Seq<Property>) -> Seq<(Seq<char>, ValueModel)>
    decreases props,
{
    if props.len() == 0 {
        Seq::empty()
    } else {
        props_view(props.drop_last()).push((props.last().key@, value_model(props.last().value)))
    }
}

/// The model of a host value.
pub open spec fn value_model(v: JsValue) -> ValueModel
    decreases v,
{
    match v {
        JsValue::Undefined => ValueModel::Undefined,
        JsValue::Null => ValueModel::Null,
        JsValue::Bool(b) => ValueModel::Bool(b),
        JsValue::Int(n) => ValueModel::Int(n as int),
        JsValue::Float(bits) => ValueModel::Float(bits),
        JsValue::String(s) => ValueModel::String(s@),
        JsValue::Array(items) => ValueModel::Array(values_view(items@)),
        JsValue::Object(props) => ValueModel::Object(props_view(props@)),
        JsValue::Date(ms) => ValueModel::Date(ms as int),
        JsValue::BigInt(b) => ValueModel::BigInt(b@),
        JsValue::OpaqueFunction(f) => ValueModel::Function(f@),
    }
}

impl View for JsValue {
    type V = ValueModel;

    open spec fn view(&self) -> ValueModel {
        value_model(*self)
    }
}

/// The model of a sequence of values holds the model of each value, in
/// order.
pub proof fn lemma_values_view(items: Seq<JsValue>)
    ensures
        values_view(items).len() == items.len(),
        forall|i: int| 0 <= i < items.len() ==> #[trigger] values_view(items)[i] == items[i]@,
    decreases items.len(),
{
    if items.len() > 0 {
        lemma_values_view(items.drop_last());
    }
}

/// The model of a sequence of properties holds the model of each property,
/// in order.
pub proof fn lemma_props_view(props: Seq<Property>)
    ensures
        props_view(props).len() == props.len(),
        forall|i: int|
            0 <= i < props.len() ==> #[trigger] props_view(props)[i] == (
                props[i].key@,
                props[i].value@,
            ),
    decreases props.len(),
{
    if props.len() > 0 {
        lemma_props_view(props.drop_last());
    }
}

/// Whether no name occurs twice among the properties.
pub open spec fn distinct_keys(props: Seq<(Seq<char>, ValueModel)>) -> bool {
    forall|i: int, j: int|
        0 <= i < j < props.len() ==> (#[trigger] props[i]).0 != (#[trigger] props[j]).0
}

/// The value of the property with the given name, if there is one; where a
/// name occurs more than once, the last occurrence counts.
pub open spec fn lookup(props: Seq<(Seq<char>, ValueModel)>, key: Seq<char>) -> Option<ValueModel>
    decreases props.len(),
{
    if props.len() == 0 {
        None
    } else if props.last().0 == key {
        Some(props.last().1)
    } else {
        lookup(props.drop_last(), key)
    }
}

/// Whether two values hold the same. The properties of an object may stand
/// in any order.
pub open spec fn same_value(a: ValueModel, b: ValueModel) -> bool
    decreases a,
{
    match (a, b) {
        (ValueModel::Array(xs), ValueModel::Array(ys)) => xs.len() == ys.len() && forall|i: int|
            0 <= i < xs.len() ==> same_value(#[trigger] xs[i], ys[i]),
        (ValueModel::Object(ps), ValueModel::Object(qs)) => ps.len() == qs.len() && forall|i: int|
            0 <= i < ps.len() ==> same_property(#[trigger] ps[i], qs),
        (ValueModel::Array(_), _) => false,
        (ValueModel::Object(_), _) => false,
        _ => a == b,
    }
}

/// Whether the properties `qs` hold a property of the name of `p` with the
/// same value.
pub open spec fn same_property(p: (Seq<char>, ValueModel), qs: Seq<(Seq<char>, ValueModel)>) -> bool
    decreases p,
{
    match lookup(qs, p.0) {
        Some(v) => same_value(p.1, v),
        None => false,
    }
}

/// Whether one of the values holds a function of the engine.
pub open spec fn any_holds_function(items: Seq<ValueModel>) -> bool
    decreases items,
{
    items.len() > 0 && (holds_function(items.last()) || any_holds_function(items.drop_last()))
}

/// Whether the value of one of the properties holds a function of the
/// engine.
pub open spec fn any_property_holds_function(props: Seq<(Seq<char>, ValueModel)>) -> bool
    decreases props,
{
    props.len() > 0 && (holds_function(props.last().1) || any_property_holds_function(
        props.drop_last(),
    ))
}

/// Whether a value holds a function of the engine somewhere in it.
pub open spec fn holds_function(v: ValueModel) -> bool
    decreases v,
{
    match v {
        ValueModel::Function(_) => true,
        ValueModel::Array(items) => any_holds_function(items),
        ValueModel::Object(props) => any_property_holds_function(props),
        _ => false,
    }
}

/// Where a beginning of the values holds a function, the values do.
pub proof fn lemma_function_in_prefix(items: Seq<ValueModel>, k: int)
    requires
        0 <= k <= items.len(),
        any_holds_function(items.take(k)),
    ensures
        any_holds_function(items),
    decreases items.len() - k,
{
    if k < items.len() {
        assert(items.take(k + 1).drop_last() =~= items.take(k));
        lemma_function_in_prefix(items, k + 1);
    } else {
        assert(items.take(k) =~= items);
    }
}

/// Where a beginning of the properties holds a function, the properties
/// do.
pub proof fn lemma_function_in_property_prefix(props: Seq<(Seq<char>, ValueModel)>, k: int)
    requires
        0 <= k <= props.len(),
        any_property_holds_function(props.take(k)),
    ensures
        any_property_holds_function(props),
    decreases props.len() - k,
{
    if k < props.len() {
        assert(props.take(k + 1).drop_last() =~= props.take(k));
        lemma_function_in_property_prefix(props, k + 1);
    } else {
        assert(props.take(k) =~= props);
    }
}

impl ValueModel {
    /// Whether every object in the value is well formed: no name occurs twice.
    pub open spec fn well_formed(self) -> bool
        decreases self,
    {
        match self {
            ValueModel::Array(items) => forall|i: int|
                0 <= i < items.len() ==> (#[trigger] items[i]).well_formed(),
            ValueModel::Object(props) => distinct_keys(props) && forall|i: int|
                0 <= i < props.len() ==> (#[trigger] props[i]).1.well_formed(),
            _ => true,
        }
    }
}

impl PartialEq for JsValue {
    fn eq(&self, other: &Self) -> (same: bool) {
        self.equals(other)
    }
}

impl vstd::std_specs::cmp::PartialEqSpecImpl for JsValue {
    open spec fn obeys_eq_spec() -> bool {
        true
    }

    open spec fn eq_spec(&self, other: &Self) -> bool {
        same_value(self@, other@)
    }
}

impl PartialEq for Property {
    fn eq(&self, other: &Self) -> (same: bool) {
        self.key == other.key && self.value.equals(&other.value)
    }
}

impl vstd::std_specs::cmp::PartialEqSpecImpl for Property {
    open spec fn obeys_eq_spec() -> bool {
        true
    }

    open spec fn eq_spec(&self, other: &Self) -> bool {
        self.key@ == other.key@ && same_value(self.value@, other.value@)
    }
}

/// Why a value could not be converted.
#[derive(PartialEq, Eq, Debug)]
pub enum ValueError {
    /// A string of the engine is not valid UTF-8.
    InvalidString,
    /// A string holds a zero byte where the engine needs a C string; the byte
    /// stands at the given position.
    StringWithZeroBytes(usize),
    /// Internal error.
    Internal(String),
    /// Received an unexpected type that could not be converted.
    UnexpectedType,
}

/// The mathematical model of a conversion error.
pub enum ValueErrorModel {
    InvalidString,
    StringWithZeroBytes(nat),
    Internal(Seq<char>),
    UnexpectedType,
}

impl View for ValueError {
    type V = ValueErrorModel;

    open spec fn view(&self) -> ValueErrorModel {
        match self {
            ValueError::InvalidString => ValueErrorModel::InvalidString,
            ValueError::StringWithZeroBytes(at) => ValueErrorModel::StringWithZeroBytes(*at as nat),
            ValueError::Internal(msg) => ValueErrorModel::Internal(msg@),
            ValueError::UnexpectedType => ValueErrorModel::UnexpectedType,
        }
    }
}

/// What a conversion error says.
pub open spec fn value_error_text(e: ValueErrorModel) -> Seq<char> {
    match e {
        ValueErrorModel::InvalidString => "Value conversion failed - invalid non-utf8 string"@,
        ValueErrorModel::StringWithZeroBytes(_) => "String contains \\0 bytes"@,
        ValueErrorModel::Internal(msg) => "Value conversion failed - internal error: "@ + msg,
        ValueErrorModel::UnexpectedType => "Could not convert - received unexpected type"@,
    }
}

impl ValueError {
    /// What the error says.
    pub fn message(&self) -> (text: String)
        ensures
            text@ == value_error_text(self@),
    {
        match self {
            ValueError::InvalidString => String::from_str(
                "Value conversion failed - invalid non-utf8 string",
            ),
            ValueError::StringWithZeroBytes(_) => String::from_str("String contains \\0 bytes"),
            ValueError::Internal(msg) => {
                let mut text = String::from_str("Value conversion failed - internal error: ");
                text.append(msg.as_str());
                text
            },
            ValueError::UnexpectedType => String::from_str(
                "Could not convert - received unexpected type",
            ),
        }
    }
}

impl JsValue {
    /// Casts the value to a str.
    ///
    /// Returns `Some(&str)` if the value is a `JsValue::String`, `None`
    /// otherwise.
    pub fn as_str(&self) -> (r: Option<&str>)
        ensures
            match self {
                JsValue::String(s) => r.is_some() && r.unwrap()@ == s@,
                _ => r.is_none(),
            },
    {
        match self {
            JsValue::String(s) => Some(s.as_str()),
            _ => None,
        }
    }

    /// Converts to `String`.
    pub fn into_string(self) -> (r: Option<String>)
        ensures
            match self {
                JsValue::String(s) => r == Some(s),
                _ => r.is_none(),
            },
    {
        match self {
            JsValue::String(s) => Some(s),
            _ => None,
        }
    }

    /// The value of the property with the given name, if the value is an
    /// object that has such a property.
    pub fn get(&self, key: &str) -> (r: Option<&JsValue>)
        ensures
            match self {
                JsValue::Object(props) => match r {
                    Some(v) => lookup(props_view(props@), key@) == Some(v@),
                    None => lookup(props_view(props@), key@).is_none(),
                },
                _ => r.is_none(),
            },
    {
        match self {
            JsValue::Object(props) => {
                proof {
                    lemma_props_view(props@);
                }
                let ghost all = props_view(props@);
                let wanted = String::from_str(key);
                let mut i: usize = props.len();
                assert(all.take(all.len() as int) =~= all);
                while i > 0
                    invariant
                        i <= props@.len(),
                        wanted@ == key@,
                        *self == JsValue::Object(*props),
                        all == props_view(props@),
                        all.len() == props@.len(),
                        forall|k: int|
                            0 <= k < props@.len() ==> #[trigger] all[k] == (
                                props@[k].key@,
                                props@[k].value@,
                            ),
                        lookup(all, key@) == lookup(all.take(i as int), key@),
                    decreases i,
                {
                    i -= 1;
                    assert(all.take(i + 1).drop_last() =~= all.take(i as int));
                    assert(all.take(i + 1).last() == all[i as int]);
                    if props[i].key == wanted {
                        assert(all[i as int].0 == key@);
                        assert(lookup(all.take(i + 1), key@) == Some(all[i as int].1));
                        return Some(&props[i].value);
                    }
                }
                None
            },
            _ => None,
        }
    }

    /// A copy of the value. A value that holds a function of the engine has
    /// no copy: a second handle of the function needs a unit of its own,
    /// which only a guard can take.
    pub fn try_clone(&self) -> (copy: Option<JsValue>)
        ensures
            match copy {
                Some(c) => c@ == self@ && !holds_function(self@),
                None => holds_function(self@),
            },
        decreases self,
    {
        match self {
            JsValue::Undefined => Some(JsValue::Undefined),
            JsValue::Null => Some(JsValue::Null),
            JsValue::Bool(b) => Some(JsValue::Bool(*b)),
            JsValue::Int(n) => Some(JsValue::Int(*n)),
            JsValue::Float(bits) => Some(JsValue::Float(*bits)),
            JsValue::String(s) => Some(JsValue::String(s.clone())),
            JsValue::Date(ms) => Some(JsValue::Date(*ms)),
            JsValue::BigInt(b) => Some(JsValue::BigInt(b.duplicate())),
            JsValue::OpaqueFunction(_) => None,
            JsValue::Array(items) => {
                proof {
                    lemma_values_view(items@);
                }
                let mut out: Vec<JsValue> = Vec::new();
                let mut i: usize = 0;
                while i < items.len()
                    invariant
                        i <= items@.len(),
                        decreases_to!(self => items),
                        self@ == ValueModel::Array(values_view(items@)),
                        values_view(items@).len() == items@.len(),
                        forall|k: int|
                            0 <= k < items@.len() ==> #[trigger] values_view(items@)[k]
                                == items@[k]@,
                        values_view(out@) == values_view(items@).take(i as int),
                        !any_holds_function(values_view(items@).take(i as int)),
                    decreases items@.len() - i,
                {
                    proof {
                        vstd::std_specs::vec::axiom_vec_index_decreases(*items, i as int);
                    }
                    let ghost xs = values_view(items@);
                    proof {
                        assert(xs.take(i + 1).drop_last() =~= xs.take(i as int));
                        assert(xs.take(i + 1).last() == items@[i as int]@);
                    }
                    match items[i].try_clone() {
                        Some(c) => {
                            let ghost before = out@;
                            out.push(c);
                            proof {
                                assert(out@.drop_last() =~= before);
                                assert(xs.take(i + 1) =~= xs.take(i as int).push(
                                    items@[i as int]@,
                                ));
                            }
                        },
                        None => {
                            proof {
                                lemma_function_in_prefix(xs, i + 1);
                            }
                            return None;
                        },
                    }
                    i += 1;
                }
                assert(values_view(items@).take(i as int) =~= values_view(items@));
                Some(JsValue::Array(out))
            },
            JsValue::Object(props) => {
                proof {
                    lemma_props_view(props@);
                }
                let mut out: Vec<Property> = Vec::new();
                let mut i: usize = 0;
                while i < props.len()
                    invariant
                        i <= props@.len(),
                        decreases_to!(self => props),
                        self@ == ValueModel::Object(props_view(props@)),
                        props_view(props@).len() == props@.len(),
                        forall|k: int|
                            0 <= k < props@.len() ==> #[trigger] props_view(props@)[k] == (
                                props@[k].key@,
                                props@[k].value@,
                            ),
                        props_view(out@) == props_view(props@).take(i as int),
                        !any_property_holds_function(props_view(props@).take(i as int)),
                    decreases props@.len() - i,
                {
                    proof {
                        vstd::std_specs::vec::axiom_vec_index_decreases(*props, i as int);
                    }
                    let ghost ps = props_view(props@);
                    proof {
                        assert(ps.take(i + 1).drop_last() =~= ps.take(i as int));
                        assert(ps.take(i + 1).last() == (
                            props@[i as int].key@,
                            props@[i as int].value@,
                        ));
                    }
                    match props[i].value.try_clone() {
                        Some(c) => {
                            let ghost before = out@;
                            out.push(Property { key: props[i].key.clone(), value: c });
                            proof {
                                assert(out@.drop_last() =~= before);
                                assert(ps.take(i + 1) =~= ps.take(i as int).push(
                                    (props@[i as int].key@, props@[i as int].value@),
                                ));
                            }
                        },
                        None => {
                            proof {
                                lemma_function_in_property_prefix(ps, i + 1);
                            }
                            return None;
                        },
                    }
                    i += 1;
                }
                assert(props_view(props@).take(i as int) =~= props_view(props@));
                Some(JsValue::Object(out))
            },
        }
    }

    /// Whether the two values hold the same.
    pub fn equals(&self, other: &JsValue) -> (same: bool)
        ensures
            same == same_value(self@, other@),
        decreases self,
    {
        match (self, other) {
            (JsValue::Undefined, JsValue::Undefined) => true,
            (JsValue::Null, JsValue::Null) => true,
            (JsValue::Bool(a), JsValue::Bool(b)) => *a == *b,
            (JsValue::Int(a), JsValue::Int(b)) => *a == *b,
            (JsValue::Float(a), JsValue::Float(b)) => *a == *b,
            (JsValue::String(a), JsValue::String(b)) => *a == *b,
            (JsValue::Date(a), JsValue::Date(b)) => *a == *b,
            (JsValue::BigInt(a), JsValue::BigInt(b)) => a.inner.same(&b.inner),
            (JsValue::OpaqueFunction(a), JsValue::OpaqueFunction(b)) => a.as_inner()
                == b.as_inner(),
            (JsValue::Array(xs), JsValue::Array(ys)) => {
                proof {
                    lemma_values_view(xs@);
                    lemma_values_view(ys@);
                }
                if xs.len() != ys.len() {
                    return false;
                }
                let mut i: usize = 0;
                while i < xs.len()
                    invariant
                        i <= xs@.len(),
                        xs@.len() == ys@.len(),
                        decreases_to!(self => xs),
                        self@ == ValueModel::Array(values_view(xs@)),
                        other@ == ValueModel::Array(values_view(ys@)),
                        values_view(xs@).len() == xs@.len(),
                        values_view(ys@).len() == ys@.len(),
                        forall|k: int|
                            0 <= k < xs@.len() ==> #[trigger] values_view(xs@)[k] == xs@[k]@,
                        forall|k: int|
                            0 <= k < ys@.len() ==> #[trigger] values_view(ys@)[k] == ys@[k]@,
                        forall|k: int|
                            0 <= k < i ==> same_value(
                                #[trigger] values_view(xs@)[k],
                                values_view(ys@)[k],
                            ),
                    decreases xs@.len() - i,
                {
                    proof {
                        vstd::std_specs::vec::axiom_vec_index_decreases(*xs, i as int);
                    }
                    if !xs[i].equals(&ys[i]) {
                        assert(!same_value(values_view(xs@)[i as int], values_view(ys@)[i as int]));
                        return false;
                    }
                    i += 1;
                }
                true
            },
            (JsValue::Object(ps), JsValue::Object(qs)) => {
                proof {
                    lemma_props_view(ps@);
                    lemma_props_view(qs@);
                }
                if ps.len() != qs.len() {
                    return false;
                }
                let mut i: usize = 0;
                while i < ps.len()
                    invariant
                        i <= ps@.len(),
                        decreases_to!(self => ps),
                        self@ == ValueModel::Object(props_view(ps@)),
                        other@ is Object,
                        other is Object,
                        other@->Object_0.len() == ps@.len(),
                        props_view(ps@).len() == ps@.len(),
                        forall|k: int|
                            0 <= k < ps@.len() ==> #[trigger] props_view(ps@)[k] == (
                                ps@[k].key@,
                                ps@[k].value@,
                            ),
                        forall|k: int|
                            0 <= k < i ==> same_property(
                                #[trigger] props_view(ps@)[k],
                                other@->Object_0,
                            ),
                    decreases ps@.len() - i,
                {
                    proof {
                        vstd::std_specs::vec::axiom_vec_index_decreases(*ps, i as int);
                    }
                    let found = match other.get(ps[i].key.as_str()) {
                        Some(v) => ps[i].value.equals(v),
                        None => false,
                    };
                    if !found {
                        assert(!same_property(props_view(ps@)[i as int], other@->Object_0));
                        return false;
                    }
                    i += 1;
                }
                true
            },
            _ => false,
        }
    }

    /// The value of a small signed integer.
    pub fn from_i8(value: i8) -> (v: JsValue)
        ensures
            v == JsValue::Int(value as i32),
    {
        JsValue::Int(value as i32)
    }

    /// The value of a signed integer of 16 bits.
    pub fn from_i16(value: i16) -> (v: JsValue)
        ensures
            v == JsValue::Int(value as i32),
    {
        JsValue::Int(value as i32)
    }

    /// The value of a small unsigned integer.
    pub fn from_u8(value: u8) -> (v: JsValue)
        ensures
            v == JsValue::Int(value as i32),
    {
        JsValue::Int(value as i32)
    }

    /// The value of an unsigned integer of 16 bits.
    pub fn from_u16(value: u16) -> (v: JsValue)
        ensures
            v == JsValue::Int(value as i32),
    {
        JsValue::Int(value as i32)
    }

    /// The value of a 64-bit integer: a BigInt.
    pub fn from_i64(value: i64) -> (v: JsValue)
        ensures
            v@ == ValueModel::BigInt(value as int),
    {
        JsValue::BigInt(JsBigInt::from_i64(value))
    }

    /// The value of an integer of arbitrary size: a BigInt.
    pub fn from_bigint(value: num_bigint::BigInt) -> (v: JsValue)
        ensures
            v@ == ValueModel::BigInt(crate::bigint::big_value(value)),
    {
        JsValue::BigInt(JsBigInt::from_bigint(value))
    }

    /// The value of a text.
    pub fn from_text(value: &str) -> (v: JsValue)
        ensures
            v@ == ValueModel::String(value@),
    {
        JsValue::String(String::from_str(value))
    }

    /// The value of an optional value: `Null` where there is none.
    pub fn from_option(value: Option<JsValue>) -> (v: JsValue)
        ensures
            v == (match value {
                Some(inner) => inner,
                None => JsValue::Null,
            }),
    {
        match value {
            Some(inner) => inner,
            None => JsValue::Null,
        }
    }

    /// The boolean that the value holds.
    pub fn try_into_bool(self) -> (r: Result<bool, ValueError>)
        ensures
            r == (match self {
                JsValue::Bool(b) => Ok::<bool, ValueError>(b),
                _ => Err(ValueError::UnexpectedType),
            }),
    {
        match self {
            JsValue::Bool(b) => Ok(b),
            _ => Err(ValueError::UnexpectedType),
        }
    }

    /// The 32-bit integer that the value holds.
    pub fn try_into_i32(self) -> (r: Result<i32, ValueError>)
        ensures
            r == (match self {
                JsValue::Int(n) => Ok::<i32, ValueError>(n),
                _ => Err(ValueError::UnexpectedType),
            }),
    {
        match self {
            JsValue::Int(n) => Ok(n),
            _ => Err(ValueError::UnexpectedType),
        }
    }

    /// The bits of the float that the value holds.
    pub fn try_into_float_bits(self) -> (r: Result<u64, ValueError>)
        ensures
            r == (match self {
                JsValue::Float(bits) => Ok::<u64, ValueError>(bits),
                _ => Err(ValueError::UnexpectedType),
            }),
    {
        match self {
            JsValue::Float(bits) => Ok(bits),
            _ => Err(ValueError::UnexpectedType),
        }
    }

    /// The text that the value holds.
    pub fn try_into_string(self) -> (r: Result<String, ValueError>)
        ensures
            r == (match self {
                JsValue::String(s) => Ok::<String, ValueError>(s),
                _ => Err(ValueError::UnexpectedType),
            }),
    {
        match self {
            JsValue::String(s) => Ok(s),
            _ => Err(ValueError::UnexpectedType),
        }
    }

    /// The 64-bit integer that the value holds: an `Int`, or a `BigInt` that
    /// fits.
    pub fn try_into_i64(self) -> (r: Result<i64, ValueError>)
        ensures
            r == (match self@ {
                ValueModel::Int(n) => Ok::<i64, ValueError>(n as i64),
                ValueModel::BigInt(n) => if i64::MIN <= n <= i64::MAX {
                    Ok(n as i64)
                } else {
                    Err(ValueError::UnexpectedType)
                },
                _ => Err(ValueError::UnexpectedType),
            }),
    {
        match self {
            JsValue::Int(n) => Ok(n as i64),
            JsValue::BigInt(b) => match b.as_i64() {
                Some(n) => Ok(n),
                None => Err(ValueError::UnexpectedType),
            },
            _ => Err(ValueError::UnexpectedType),
        }
    }

    /// The elements that the value holds, if it is an array.
    pub fn try_into_vec(self) -> (r: Result<Vec<JsValue>, ValueError>)
        ensures
            r == (match self {
                JsValue::Array(items) => Ok::<Vec<JsValue>, ValueError>(items),
                _ => Err(ValueError::UnexpectedType),
            }),
    {
        match self {
            JsValue::Array(items) => Ok(items),
            _ => Err(ValueError::UnexpectedType),
        }
    }
}

impl From<bool> for JsValue {
    fn from(value: bool) -> (v: JsValue) {
        JsValue::Bool(value)
    }
}

impl vstd::std_specs::convert::FromSpecImpl<bool> for JsValue {
    open spec fn obeys_from_spec() -> bool {
        true
    }

    open spec fn from_spec(value: bool) -> JsValue {
        JsValue::Bool(value)
    }
}

impl From<i32> for JsValue {
    fn from(value: i32) -> (v: JsValue) {
        JsValue::Int(value)
    }
}

impl vstd::std_specs::convert::FromSpecImpl<i32> for JsValue {
    open spec fn obeys_from_spec() -> bool {
        true
    }

    open spec fn from_spec(value: i32) -> JsValue {
        JsValue::Int(value)
    }
}

impl From<String> for JsValue {
    fn from(value: String) -> (v: JsValue) {
        JsValue::String(value)
    }
}

impl vstd::std_specs::convert::FromSpecImpl<String> for JsValue {
    open spec fn obeys_from_spec() -> bool {
        true
    }

    open spec fn from_spec(value: String) -> JsValue {
        JsValue::String(value)
    }
}

impl From<Vec<JsValue>> for JsValue {
    fn from(values: Vec<JsValue>) -> (v: JsValue) {
        JsValue::Array(values)
    }
}

impl vstd::std_specs::convert::FromSpecImpl<Vec<JsValue>> for JsValue {
    open spec fn obeys_from_spec() -> bool {
        true
    }

    open spec fn from_spec(values: Vec<JsValue>) -> JsValue {
        JsValue::Array(values)
    }
}

/// Among properties with distinct names, a property is found under its
/// name.
pub proof fn lemma_lookup_finds(props: Seq<(Seq<char>, ValueModel)>, i: int)
    requires
        distinct_keys(props),
        0 <= i < props.len(),
    ensures
        lookup(props, props[i].0) == Some(props[i].1),
    decreases props.len(),
{
    let last = props.len() - 1;
    if i < last {
        assert(props[i].0 != props[last].0);
        let head = props.drop_last();
        assert forall|a: int, b: int| 0 <= a < b < head.len() implies (#[trigger] head[a]).0 != (
            #[trigger] head[b]).0 by {
            assert(head[a] == props[a]);
            assert(head[b] == props[b]);
        }
        assert(head[i] == props[i]);
        lemma_lookup_finds(head, i);
    }
}

/// A well-formed value holds the same as itself.
pub proof fn lemma_same_value_reflexive(v: ValueModel)
    requires
        v.well_formed(),
    ensures
        same_value(v, v),
    decreases v,
{
    match v {
        ValueModel::Array(items) => {
            assert forall|i: int| 0 <= i < items.len() implies same_value(
                #[trigger] items[i],
                items[i],
            ) by {
                lemma_same_value_reflexive(items[i]);
            }
        },
        ValueModel::Object(props) => {
            assert forall|i: int| 0 <= i < props.len() implies same_property(
                #[trigger] props[i],
                props,
            ) by {
                lemma_lookup_finds(props, i);
                lemma_same_value_reflexive(props[i].1);
            }
        },
        _ => {},
    }
}

} // verus!
