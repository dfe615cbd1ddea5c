use quick_js::callback::Arity;
use quick_js::console::{console_message, dispatch_console, ConsoleBackend, Level, LogConsole, Severity};
use quick_js::context::{make_cstring, Context, ContextBuilder, ContextWrapper};
use quick_js::decimal::{signed_to_string, unsigned_to_string};
use quick_js::droppable_value::DroppableValue;
use quick_js::engine::{EngineValue, Payload, RawValue};
use quick_js::errors::{find_bytes, is_out_of_memory, js_to_string, ContextError, ExecutionError};
use quick_js::marshal::OwnedPropertiesRef;
use quick_js::object::{is_promise, property, property_require, set_property, ObjectRef};
use quick_js::owned_value_ref::OwnedValueRef;
use quick_js::ser;
use quick_js::value::{JsValue, ValueError};
use std::cell::RefCell;

#[test]
fn context_needs_a_runtime_and_a_context() {
    assert!(Context::new(0x10, 0x20).is_ok());
    assert_eq!(Context::new(0, 0x20).err(), Some(ContextError::RuntimeCreationFailed));
    assert_eq!(Context::new(0, 0).err(), Some(ContextError::RuntimeCreationFailed));
    assert_eq!(Context::new(0x10, 0).err(), Some(ContextError::ContextCreationFailed));
    assert_eq!(ContextError::RuntimeCreationFailed.message(), "Could not create runtime");
    assert_eq!(ContextError::ContextCreationFailed.message(), "Could not create context");
}

#[test]
fn builder_sets_the_memory_limit() {
    let mut context = Context::builder().memory_limit(100_000).build(0x10, 0x20).unwrap();
    assert_eq!(context.wrapper().memory_limit(), Some(100_000));
    assert_eq!(context.wrapper().runtime(), 0x10);
    assert_eq!(context.wrapper().context(), 0x20);
    let mut plain = ContextBuilder::new().build(0x10, 0x20).unwrap();
    assert_eq!(plain.wrapper().memory_limit(), None);
    assert_eq!(
        Context::builder().memory_limit(1).build(0x10, 0).err(),
        Some(ContextError::ContextCreationFailed)
    );
    assert!(ContextWrapper::new(Some(5), 1, 1).is_ok());
}

#[test]
fn reset_removes_callbacks_and_timers() {
    let mut context = Context::builder().memory_limit(64).build(0x10, 0x20).unwrap();
    context.add_callback("myCallback", Arity::Fixed(0)).unwrap();
    context.add_callback("log", Arity::Variadic).unwrap();
    let func = OwnedValueRef::wrap(RawValue { u: Payload::Ptr(1), tag: -1 });
    context.wrapper().timers().set_timeout(func, 10, 0);
    assert_eq!(context.wrapper().callback_count(), 2);
    assert!(context.wrapper().timers().has_pending());

    let mut fresh = context.reset(0x30).unwrap();
    assert_eq!(fresh.wrapper().callback_count(), 0);
    assert!(!fresh.wrapper().timers().has_pending());
    assert_eq!(fresh.wrapper().context(), 0x30);
    assert_eq!(fresh.wrapper().runtime(), 0x10);
    assert_eq!(fresh.wrapper().memory_limit(), Some(64));
    assert_eq!(fresh.reset(0).err(), Some(ContextError::ContextCreationFailed));
}

#[test]
fn names_and_code_go_over_as_c_strings() {
    let mut context = Context::new(1, 1).unwrap();
    assert_eq!(
        context.add_callback("bad\0name", Arity::Fixed(1)),
        Err(ExecutionError::Conversion(ValueError::StringWithZeroBytes(3)))
    );
    assert_eq!(context.wrapper().callback_count(), 0);
    assert_eq!(Context::eval_source("1 + 2"), Ok(b"1 + 2".to_vec()));
    assert_eq!(
        Context::eval_source("1 +\0 2"),
        Err(ExecutionError::Conversion(ValueError::StringWithZeroBytes(3)))
    );
    assert_eq!(make_cstring("script.js"), Ok(b"script.js".to_vec()));
    assert_eq!(make_cstring("\0"), Err(ValueError::StringWithZeroBytes(0)));
}

#[test]
fn results_are_converted() {
    assert_eq!(
        Context::eval_result(&EngineValue::String(Some(b"165!".to_vec()))),
        Ok(JsValue::String("165!".to_string()))
    );
    assert_eq!(
        Context::eval_result(&EngineValue::Other(-8)),
        Err(ExecutionError::Conversion(ValueError::Internal(
            "Unhandled JS_TAG value: -8".to_string()
        )))
    );
    assert_eq!(
        Context::missing_function("nope"),
        ExecutionError::Internal(
            "Could not find function 'nope' in global scope: does not exist, or not an object"
                .to_string()
        )
    );
}

#[test]
fn execution_error_messages() {
    assert_eq!(
        ExecutionError::InputWithZeroBytes.message(),
        "Invalid script input: code contains zero byte (\\0)"
    );
    assert_eq!(
        ExecutionError::Conversion(ValueError::UnexpectedType).message(),
        "Could not convert - received unexpected type"
    );
    assert_eq!(ExecutionError::Internal("x".to_string()).message(), "Internal error: x");
    assert_eq!(
        ExecutionError::OutOfMemory.message(),
        "Out of memory: runtime memory limit exceeded"
    );
    assert!(ExecutionError::Exception(JsValue::String("ReferenceError: x".to_string()))
        .message()
        .contains("ReferenceError"));
    assert_eq!(
        ValueError::Internal("y".to_string()).message(),
        "Value conversion failed - internal error: y"
    );
    assert_eq!(ValueError::StringWithZeroBytes(3).message(), "String contains \\0 bytes");
    assert_eq!(
        ValueError::InvalidString.message(),
        "Value conversion failed - invalid non-utf8 string"
    );
    assert_eq!(
        ExecutionError::from(ValueError::UnexpectedType),
        ExecutionError::Conversion(ValueError::UnexpectedType)
    );
}

#[test]
fn out_of_memory_is_told_by_the_wording() {
    assert!(is_out_of_memory("out of memory"));
    assert!(is_out_of_memory("InternalError: out of memory in allocation"));
    assert!(!is_out_of_memory("Out of memory"));
    assert!(!is_out_of_memory("out of memor"));
    assert!(!is_out_of_memory(""));
    assert!(find_bytes(&b"abcabd".to_vec(), &b"abd".to_vec()));
    assert!(find_bytes(&b"abc".to_vec(), &vec![]));
    assert!(!find_bytes(&b"ab".to_vec(), &b"abc".to_vec()));
    assert!(!find_bytes(&b"aaab".to_vec(), &b"aab ".to_vec()));
}

#[test]
fn text_of_a_value() {
    assert_eq!(
        js_to_string(&EngineValue::String(Some(b"350".to_vec()))),
        Ok("350".to_string())
    );
    assert_eq!(
        js_to_string(&EngineValue::Int(3)),
        Err(ExecutionError::Exception(JsValue::String(
            "Could not convert value to string".to_string()
        )))
    );
    assert_eq!(
        js_to_string(&EngineValue::String(None)),
        Err(ExecutionError::Conversion(ValueError::Internal(
            "Could not convert string: got a null pointer".to_string()
        )))
    );
}

#[test]
fn decimal_texts() {
    assert_eq!(unsigned_to_string(0), "0");
    assert_eq!(unsigned_to_string(9), "9");
    assert_eq!(unsigned_to_string(10), "10");
    assert_eq!(unsigned_to_string(u64::MAX), "18446744073709551615");
    assert_eq!(signed_to_string(0), "0");
    assert_eq!(signed_to_string(-1), "-1");
    assert_eq!(signed_to_string(i64::MAX), "9223372036854775807");
    assert_eq!(signed_to_string(i64::MIN), "-9223372036854775808");
}

#[test]
fn host_value_conversions() {
    assert_eq!(JsValue::from(true), JsValue::Bool(true));
    assert_eq!(JsValue::from(7), JsValue::Int(7));
    assert_eq!(JsValue::from("abc".to_string()), JsValue::String("abc".to_string()));
    assert_eq!(JsValue::from_text("abc"), JsValue::String("abc".to_string()));
    assert_eq!(JsValue::from_i8(-5), JsValue::Int(-5));
    assert_eq!(JsValue::from_i16(-500), JsValue::Int(-500));
    assert_eq!(JsValue::from_u8(255), JsValue::Int(255));
    assert_eq!(JsValue::from_u16(65535), JsValue::Int(65535));
    assert_eq!(JsValue::from_option(None), JsValue::Null);
    assert_eq!(JsValue::from_option(Some(JsValue::Int(1))), JsValue::Int(1));
    assert_eq!(
        JsValue::from(vec![JsValue::Int(1), JsValue::Int(2)]),
        JsValue::Array(vec![JsValue::Int(1), JsValue::Int(2)])
    );
    assert_eq!(JsValue::String("s".to_string()).as_str(), Some("s"));
    assert_eq!(JsValue::Int(1).as_str(), None);
    assert_eq!(JsValue::String("s".to_string()).into_string(), Some("s".to_string()));
    assert_eq!(JsValue::Null.into_string(), None);
    assert_eq!(JsValue::Bool(true).try_into_bool(), Ok(true));
    assert_eq!(JsValue::Int(1).try_into_bool(), Err(ValueError::UnexpectedType));
    assert_eq!(JsValue::Int(3).try_into_i32(), Ok(3));
    assert_eq!(JsValue::Null.try_into_i32(), Err(ValueError::UnexpectedType));
    assert_eq!(JsValue::Float(8).try_into_float_bits(), Ok(8));
    assert_eq!(JsValue::String("x".to_string()).try_into_string(), Ok("x".to_string()));
    assert_eq!(JsValue::Array(vec![]).try_into_vec(), Ok(vec![]));
    assert_eq!(JsValue::Int(0).try_into_vec(), Err(ValueError::UnexpectedType));
}

struct Recorder {
    seen: RefCell<Vec<(Level, Vec<JsValue>)>>,
}

impl ConsoleBackend for Recorder {
    fn log(&self, level: Level, values: Vec<JsValue>) {
        self.seen.borrow_mut().push((level, values));
    }
}

#[test]
fn console_messages_name_their_level_first() {
    let hi = JsValue::String("hi".to_string());
    assert_eq!(
        console_message(vec![JsValue::String("log".to_string()), hi, JsValue::Int(1)]),
        Some((Level::Log, vec![JsValue::String("hi".to_string()), JsValue::Int(1)]))
    );
    assert_eq!(console_message(vec![JsValue::String("log".to_string())]), None);
    assert_eq!(console_message(vec![]), None);
    assert_eq!(
        console_message(vec![JsValue::String("shout".to_string()), JsValue::Int(1)]),
        None
    );
    assert_eq!(console_message(vec![JsValue::Int(1), JsValue::Int(1)]), None);

    let recorder = Recorder { seen: RefCell::new(Vec::new()) };
    assert!(dispatch_console(
        &recorder,
        vec![JsValue::String("error".to_string()), JsValue::Bool(false)]
    ));
    assert!(!dispatch_console(&recorder, vec![JsValue::String("error".to_string())]));
    assert_eq!(
        recorder.seen.into_inner(),
        vec![(Level::Error, vec![JsValue::Bool(false)])]
    );
}

#[test]
fn levels_and_their_names() {
    let all = [
        (Level::Trace, "trace", Severity::Trace),
        (Level::Debug, "debug", Severity::Debug),
        (Level::Log, "log", Severity::Info),
        (Level::Info, "info", Severity::Info),
        (Level::Warn, "warn", Severity::Warn),
        (Level::Error, "error", Severity::Error),
    ];
    for (level, name, severity) in all {
        assert_eq!(level.as_str(), name);
        assert_eq!(Level::from_name(name), Some(level));
        assert_eq!(LogConsole::severity(level), severity);
    }
    assert_eq!(Level::from_name("Log"), None);
    assert_eq!(Level::from_name(""), None);
}

#[test]
fn droppable_value_hands_its_value_to_the_function() {
    let seen = RefCell::new(Vec::new());
    let value = DroppableValue::new(41, |v: i32| seen.borrow_mut().push(v + 1));
    assert_eq!(*value.get(), 41);
    assert!(seen.borrow().is_empty());
    value.release();
    assert_eq!(*seen.borrow(), vec![42]);
}

#[test]
fn property_names_are_held_until_released() {
    let names = OwnedPropertiesRef::new(0, vec![3, 5, 8], 0x20).unwrap();
    assert_eq!(names.count(), 3);
    assert_eq!(names.release(), vec![3, 5, 8]);
    assert_eq!(
        OwnedPropertiesRef::new(-1, vec![], 0x20),
        Err(ValueError::Internal("Could not get object properties".to_string()))
    );
}

#[test]
fn serializer_context_frees_only_what_it_owns() {
    let mut owned = ser::Context::new(0x20);
    assert_eq!(owned.as_mut_ptr(), 0x20);
    assert_eq!(owned.release(), Some(0x20));
    let mut borrowed = ser::Context::new_without_drop(0x20);
    assert_eq!(borrowed.as_mut_ptr(), 0x20);
    assert_eq!(borrowed.release(), None);
}

#[test]
fn call_arguments_are_converted_in_order() {
    assert_eq!(
        Context::call_arguments(&vec![JsValue::Int(5), JsValue::Int(7)]),
        Ok(vec![EngineValue::Int(5), EngineValue::Int(7)])
    );
    assert_eq!(Context::call_arguments(&vec![]), Ok(vec![]));
    let bad = |key: &str| {
        JsValue::Object(vec![quick_js::value::Property {
            key: key.to_string(),
            value: JsValue::Null,
        }])
    };
    assert_eq!(
        Context::call_arguments(&vec![JsValue::Int(5), bad("ab\0"), bad("\0")]),
        Err(ExecutionError::Conversion(ValueError::StringWithZeroBytes(2)))
    );
}

#[test]
fn properties_by_their_words() {
    let object = RawValue { u: Payload::Ptr(8), tag: -1 };
    assert_eq!(property("x", object), Ok(Some(object)));
    assert_eq!(property("x", RawValue::undefined()), Ok(None));
    assert_eq!(
        property("x", RawValue::exception()),
        Err(ExecutionError::Internal("Exception while getting property 'x'".to_string()))
    );
    assert_eq!(property_require("x", RawValue::int32(1)), Ok(RawValue::int32(1)));
    assert_eq!(
        property_require("then", RawValue::undefined()),
        Err(ExecutionError::Internal("Property 'then' not found".to_string()))
    );
    assert_eq!(
        property_require("then", RawValue::exception()),
        Err(ExecutionError::Internal("Exception while getting property 'then'".to_string()))
    );
    assert_eq!(set_property(0), Ok(()));
    assert_eq!(set_property(1), Ok(()));
    assert_eq!(
        set_property(-1),
        Err(ExecutionError::Exception(JsValue::String("Could not set property".to_string())))
    );
    assert!(is_promise(true, false));
    assert!(is_promise(false, true));
    assert!(!is_promise(false, false));
    assert_eq!(ObjectRef::try_from_value(object).map(|o| o.into_value()), Ok(object));
    assert_eq!(
        ObjectRef::try_from_value(RawValue::int32(3)),
        Err(ValueError::Internal("Expected an object".to_string()))
    );
    assert_eq!(Context::callable("f", object), Ok(()));
    assert_eq!(Context::callable("f", RawValue::undefined()), Err(Context::missing_function("f")));
}

#[test]
fn crate_root_offers_the_main_types() {
    let value: quick_js::JsValue = quick_js::JsValue::Int(1);
    assert_eq!(value, JsValue::Int(1));
    assert!(quick_js::Context::new(1, 1).is_ok());
    assert_eq!(
        quick_js::ExecutionError::OutOfMemory.message(),
        "Out of memory: runtime memory limit exceeded"
    );
}
