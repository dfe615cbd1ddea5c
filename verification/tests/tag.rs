use quick_js::engine::{js_null_value, ObjectKind, Payload, RawValue};
use quick_js::tag::{tag_is_ref_counted, JsTag};

const ALL: [(JsTag, i64); 16] = [
    (JsTag::BigDecimal, -11),
    (JsTag::BigInt, -10),
    (JsTag::BigFloat, -9),
    (JsTag::Symbol, -8),
    (JsTag::String, -7),
    (JsTag::Module, -3),
    (JsTag::FunctionBytecode, -2),
    (JsTag::Object, -1),
    (JsTag::Int, 0),
    (JsTag::Bool, 1),
    (JsTag::Null, 2),
    (JsTag::Undefined, 3),
    (JsTag::Uninitialized, 4),
    (JsTag::CatchOffset, 5),
    (JsTag::Exception, 6),
    (JsTag::Float64, 7),
];

#[test]
fn tags_and_numbers() {
    for (tag, number) in ALL {
        assert_eq!(tag.to_c(), number);
        assert_eq!(JsTag::from_c(number), tag);
        assert_eq!(JsTag::from_raw(number), Some(tag));
    }
    for number in [-12, -6, -5, -4, 8, 100, i64::MIN, i64::MAX] {
        assert_eq!(JsTag::from_raw(number), None);
    }
}

#[test]
fn tags_below_zero_are_reference_counted() {
    for (tag, number) in ALL {
        assert_eq!(tag.is_ref_counted(), number < 0);
        assert_eq!(tag_is_ref_counted(number), number < 0);
    }
    assert!(JsTag::String.is_ref_counted());
    assert!(JsTag::Object.is_ref_counted());
    assert!(!JsTag::Int.is_ref_counted());
    assert!(!JsTag::Float64.is_ref_counted());
    assert!(!JsTag::Exception.is_ref_counted());
}

#[test]
fn each_predicate_holds_of_one_tag() {
    let predicates: Vec<(fn(&JsTag) -> bool, JsTag)> = vec![
        (JsTag::is_undefined, JsTag::Undefined),
        (JsTag::is_object, JsTag::Object),
        (JsTag::is_exception, JsTag::Exception),
        (JsTag::is_int, JsTag::Int),
        (JsTag::is_bool, JsTag::Bool),
        (JsTag::is_null, JsTag::Null),
        (JsTag::is_module, JsTag::Module),
        (JsTag::is_string, JsTag::String),
        (JsTag::is_symbol, JsTag::Symbol),
        (JsTag::is_big_int, JsTag::BigInt),
        (JsTag::is_float64, JsTag::Float64),
        (JsTag::is_big_float, JsTag::BigFloat),
        (JsTag::is_big_decimal, JsTag::BigDecimal),
    ];
    for (predicate, own) in predicates {
        for (tag, _) in ALL {
            assert_eq!(predicate(&tag), tag == own);
        }
    }
}

#[test]
fn raw_values() {
    assert_eq!(js_null_value(), RawValue { u: Payload::Int32(0), tag: 2 });
    assert_eq!(js_null_value().kind(), Some(JsTag::Null));
    assert!(!js_null_value().is_ref_counted());
    assert_eq!(RawValue::undefined().kind(), Some(JsTag::Undefined));
    assert_eq!(RawValue::exception().kind(), Some(JsTag::Exception));
    assert_eq!(RawValue::boolean(true), RawValue { u: Payload::Int32(1), tag: 1 });
    assert_eq!(RawValue::boolean(false), RawValue { u: Payload::Int32(0), tag: 1 });
    assert_eq!(RawValue::int32(-7), RawValue { u: Payload::Int32(-7), tag: 0 });
    assert_eq!(
        RawValue::float64(2.5f64.to_bits()),
        RawValue { u: Payload::Float64(2.5f64.to_bits()), tag: 7 }
    );
    let object = RawValue { u: Payload::Ptr(64), tag: -1 };
    assert!(object.is_ref_counted());
    assert_eq!(object.kind(), Some(JsTag::Object));
    assert_eq!(RawValue { u: Payload::Int32(0), tag: 99 }.kind(), None);
}

#[test]
fn words_that_stand_for_themselves() {
    let read = quick_js::engine::EngineValue::from_word;
    assert_eq!(read(RawValue::int32(4)), Some(quick_js::engine::EngineValue::Int(4)));
    assert_eq!(read(RawValue::boolean(true)), Some(quick_js::engine::EngineValue::Bool(1)));
    assert_eq!(read(js_null_value()), Some(quick_js::engine::EngineValue::Null));
    assert_eq!(read(RawValue::undefined()), Some(quick_js::engine::EngineValue::Undefined));
    assert_eq!(read(RawValue::exception()), Some(quick_js::engine::EngineValue::Exception));
    assert_eq!(
        read(RawValue::float64(7)),
        Some(quick_js::engine::EngineValue::Float64(7))
    );
    // Values on the engine's heap must be asked for.
    for tag in [-1, -7, -10] {
        assert_eq!(read(RawValue { u: Payload::Ptr(8), tag }), None);
    }
    // Any other tag is kept.
    for tag in [-11, -9, -8, -3, -2, 4, 5, 99] {
        assert_eq!(
            read(RawValue { u: Payload::Ptr(8), tag }),
            Some(quick_js::engine::EngineValue::Other(tag))
        );
    }
}

#[test]
fn objects_are_classified_by_the_predicates() {
    let kind = quick_js::engine::object_kind;
    assert_eq!(kind(true, true, true), ObjectKind::Array);
    assert_eq!(kind(true, false, false), ObjectKind::Array);
    // A date comes before a function.
    assert_eq!(kind(false, true, true), ObjectKind::Date);
    assert_eq!(kind(false, true, false), ObjectKind::Function);
    assert_eq!(kind(false, false, true), ObjectKind::Date);
    assert_eq!(kind(false, false, false), ObjectKind::Plain);
    assert_eq!(
        quick_js::engine::EngineBigInt::from_fast(0, 12),
        Some(quick_js::engine::EngineBigInt::Small(12))
    );
    assert_eq!(quick_js::engine::EngineBigInt::from_fast(-1, 0), None);
}

#[test]
fn array_length_is_an_integer_that_is_not_negative() {
    let length = quick_js::engine::array_length;
    assert_eq!(length(&quick_js::engine::EngineValue::Int(0)), Some(0));
    assert_eq!(length(&quick_js::engine::EngineValue::Int(3)), Some(3));
    assert_eq!(length(&quick_js::engine::EngineValue::Int(i32::MAX)), Some(i32::MAX as u32));
    assert_eq!(length(&quick_js::engine::EngineValue::Int(-1)), None);
    assert_eq!(length(&quick_js::engine::EngineValue::Float64(3.0f64.to_bits())), None);
    assert_eq!(length(&quick_js::engine::EngineValue::Undefined), None);
    assert_eq!(length(&quick_js::engine::EngineValue::Exception), None);
}
