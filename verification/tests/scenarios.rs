//! Scenarios of a script run, with the engine's part played by hand: what
//! the engine would report is given, what the bridge makes of it is
//! checked.
use quick_js::bigint::JsBigInt;
use quick_js::callback::{
    exec_callback, Arguments, Arity, Callback, CallbackOutcome, FixedArity,
};
use quick_js::console::{dispatch_console, ConsoleBackend, Level};
use quick_js::context::Context;
use quick_js::engine::{EngineBigInt, EngineProperty, EngineValue};
use quick_js::errors::{exception_or_unknown, get_exception, rejection_error, ExecutionError};
use quick_js::marshal::{deserialize_value, serialize_value};
use quick_js::promise::{inspected, read_sentinel, DriverAction, DriverEvent, DriverState};
use quick_js::value::{JsValue, Property, ValueError};
use std::sync::{Arc, Mutex};

fn text(s: &str) -> EngineValue {
    EngineValue::String(Some(s.as_bytes().to_vec()))
}

fn prop(key: &str, value: EngineValue) -> EngineProperty {
    EngineProperty { key: text(key), value }
}

/// What `eval` hands out for a result that has settled.
fn settled(result: EngineValue) -> Result<JsValue, ExecutionError> {
    Context::eval_result(&result)
}

/// What `eval` hands out when the script threw the given value.
fn threw(thrown: EngineValue, as_text: &str) -> Result<JsValue, ExecutionError> {
    Err(exception_or_unknown(get_exception(&thrown, &text(as_text))))
}

fn eval_pass() {
    let cases = vec![
        (EngineValue::Null, Ok(JsValue::Null)),
        (EngineValue::Bool(1), Ok(JsValue::Bool(true))),
        (EngineValue::Bool(0), Ok(JsValue::Bool(false))),
        (EngineValue::Int(1), Ok(JsValue::Int(1))),
        (EngineValue::Int(2), Ok(JsValue::Int(2))),
        (EngineValue::Float64(1.1f64.to_bits()), Ok(JsValue::Float(1.1f64.to_bits()))),
        (
            EngineValue::Float64((2.2f64 * 2.0 + 5.0).to_bits()),
            Ok(JsValue::Float(9.4f64.to_bits())),
        ),
        (text("abc"), Ok(JsValue::String("abc".into()))),
        (
            EngineValue::Array(vec![EngineValue::Int(1), EngineValue::Int(2)]),
            Ok(JsValue::Array(vec![JsValue::Int(1), JsValue::Int(2)])),
        ),
    ];
    for (result, expected) in cases.into_iter() {
        assert_eq!(settled(result), expected,);
    }

    let obj_cases = vec![
        (
            EngineValue::Object(Some(vec![prop("a", EngineValue::Null)])),
            Ok(JsValue::Object(vec![Property { key: "a".to_string(), value: JsValue::Null }])),
        ),
        (
            EngineValue::Object(Some(vec![
                prop("a", EngineValue::Int(1)),
                prop("b", EngineValue::Bool(1)),
                prop("c", EngineValue::Object(Some(vec![prop("c1", EngineValue::Bool(0))]))),
            ])),
            Ok(JsValue::Object(vec![
                Property {
                    key: "c".to_string(),
                    value: JsValue::Object(vec![Property {
                        key: "c1".to_string(),
                        value: JsValue::Bool(false),
                    }]),
                },
                Property { key: "a".to_string(), value: JsValue::Int(1) },
                Property { key: "b".to_string(), value: JsValue::Bool(true) },
            ])),
        ),
    ];
    for (result, expected) in obj_cases.into_iter() {
        assert_eq!(settled(result), expected,);
    }

    assert_eq!(settled(EngineValue::Bool(1)).unwrap().try_into_bool().unwrap(), true,);
    assert_eq!(settled(EngineValue::Int(3)).unwrap().try_into_i32().unwrap(), 3,);
    let value: String = settled(text("44")).unwrap().try_into_string().unwrap();
    assert_eq!(&value, "44");

    // 1n << 100n
    let shifted = EngineValue::BigInt(EngineBigInt::Text(Some(
        b"1267650600228229401496703205376".to_vec(),
    )));
    match settled(shifted).unwrap() {
        JsValue::BigInt(big) => {
            assert_eq!(big.into_bigint(), num_bigint::BigInt::from(1i128 << 100))
        }
        other => panic!("expected a BigInt, got {:?}", other),
    }
    // 1 << 30
    assert_eq!(settled(EngineValue::Int(1 << 30)).unwrap().try_into_i64().unwrap(), 1i64 << 30);
}

#[test]
fn lib_test_eval_pass() {
    eval_pass();
}

#[test]
fn tests_test_eval_pass() {
    eval_pass();
}

fn eval_syntax_error() {
    assert_eq!(
        threw(
            EngineValue::Object(Some(vec![])),
            "SyntaxError: unexpected token in expression: \'\'"
        ),
        Err(ExecutionError::Exception(JsValue::String(
            "SyntaxError: unexpected token in expression: \'\'".into()
        )))
    );
}

#[test]
fn lib_test_eval_syntax_error() {
    eval_syntax_error();
}

#[test]
fn tests_test_eval_syntax_error() {
    eval_syntax_error();
}

fn eval_exception() {
    assert_eq!(
        threw(EngineValue::Object(Some(vec![])), "Error: My Error"),
        Err(ExecutionError::Exception(JsValue::String("Error: My Error".into())))
    );
}

#[test]
fn lib_test_eval_exception() {
    eval_exception();
}

#[test]
fn tests_test_eval_exception() {
    eval_exception();
}

/// Drives a promise that settles after one job, with the given mark and
/// carried value.
fn drive_promise(mark: bool, carried: EngineValue) -> Result<JsValue, ExecutionError> {
    let events = vec![
        inspected(-1, true, true),
        DriverEvent::Attached(true),
        DriverEvent::JobRan(1),
        DriverEvent::JobRan(0),
        DriverEvent::TimersDrained(false),
        DriverEvent::Sentinel(read_sentinel(Some(mark))),
        inspected(0, false, false),
        DriverEvent::TimersDrained(false),
    ];
    let (mut state, mut action) = DriverState::begin();
    for event in events {
        match action {
            DriverAction::Finish => return settled(carried),
            DriverAction::FailWithReason => return Err(rejection_error(&carried)),
            DriverAction::FailWithException | DriverAction::Abort => {
                return Err(exception_or_unknown(None))
            }
            _ => {}
        }
        let (next, then) = state.step(event);
        state = next;
        action = then;
    }
    assert_eq!(state, DriverState::Done);
    assert_eq!(action, DriverAction::Finish);
    settled(carried)
}

fn eval_async() {
    let value = drive_promise(true, EngineValue::Int(33)).unwrap();
    assert_eq!(value, JsValue::Int(33));

    let res = drive_promise(false, text("Failed..."));
    assert_eq!(
        res,
        Err(ExecutionError::Exception(JsValue::String("Failed...".into())))
    );
}

#[test]
fn lib_eval_async() {
    eval_async();
}

#[test]
fn tests_eval_async() {
    eval_async();
}

#[test]
fn lib_call_async() {
    eval_async();
}

#[test]
fn tests_call_async() {
    eval_async();
}

/// What a call of a host function from the script comes to: the value it
/// returns, or the exception that reaches the host.
fn call<C: Callback>(callback: &C, args: Vec<EngineValue>) -> Result<JsValue, ExecutionError> {
    match exec_callback(callback, &args) {
        CallbackOutcome::Return(value) => settled(value),
        CallbackOutcome::Throw(value) => Err(rejection_error(&value)),
    }
}

struct Not;

impl Callback for Not {
    fn argument_count(&self) -> usize {
        1
    }

    fn call(&self, args: Vec<JsValue>) -> Result<Result<JsValue, String>, ValueError> {
        let flag = args.into_iter().next().unwrap().try_into_bool()?;
        Ok(Ok(JsValue::Bool(!flag)))
    }
}

struct Concat2;

impl Callback for Concat2 {
    fn argument_count(&self) -> usize {
        2
    }

    fn call(&self, args: Vec<JsValue>) -> Result<Result<JsValue, String>, ValueError> {
        let mut iter = args.into_iter();
        let a = iter.next().unwrap().try_into_string()?;
        let b = iter.next().unwrap().try_into_string()?;
        Ok(Ok(JsValue::String(format!("{}{}", a, b))))
    }
}

struct Add2;

impl Callback for Add2 {
    fn argument_count(&self) -> usize {
        2
    }

    fn call(&self, args: Vec<JsValue>) -> Result<Result<JsValue, String>, ValueError> {
        let mut iter = args.into_iter();
        let a = iter.next().unwrap().try_into_i32()?;
        let b = iter.next().unwrap().try_into_i32()?;
        Ok(Ok(JsValue::Int(a + b)))
    }
}

struct Identity;

impl Callback for Identity {
    fn argument_count(&self) -> usize {
        1
    }

    fn call(&self, args: Vec<JsValue>) -> Result<Result<JsValue, String>, ValueError> {
        Ok(Ok(args.into_iter().next().unwrap()))
    }
}

struct AlwaysErr;

impl Callback for AlwaysErr {
    fn argument_count(&self) -> usize {
        1
    }

    fn call(&self, _args: Vec<JsValue>) -> Result<Result<JsValue, String>, ValueError> {
        Ok(Err("error".into()))
    }
}

fn fixed<C: Callback>(inner: C) -> FixedArity<C> {
    FixedArity { count: inner.argument_count(), inner }
}

fn callback() {
    assert_eq!(call(&fixed(Not), vec![EngineValue::Bool(1)]).unwrap(), JsValue::Bool(false),);
    assert_eq!(
        call(&fixed(Concat2), vec![text("abc"), text("def")]).unwrap(),
        JsValue::String("abcdef".into()),
    );
    assert_eq!(
        call(&fixed(Add2), vec![EngineValue::Int(5), EngineValue::Int(11)]).unwrap(),
        JsValue::Int(16),
    );
}

#[test]
fn lib_test_callback() {
    callback();
}

#[test]
fn tests_test_callback() {
    callback();
}

fn callback_argn_variants() {
    // One argument, plain return type.
    let v = call(&fixed(Identity), vec![EngineValue::Int(1)]).unwrap();
    assert_eq!(v, JsValue::Int(1));
    // Result return type with Ok(_).
    let v = call(&fixed(Add2), vec![EngineValue::Int(1), EngineValue::Int(0)]).unwrap();
    assert_eq!(v, JsValue::Int(1));
    // Result return type with Err(_).
    let res = call(&fixed(AlwaysErr), vec![EngineValue::Int(1)]);
    assert_eq!(res, Err(ExecutionError::Exception(JsValue::String("error".into()))));
}

#[test]
fn lib_test_callback_argn_variants() {
    callback_argn_variants();
}

#[test]
fn tests_test_callback_argn_variants() {
    callback_argn_variants();
}

fn callback_invalid_argcount() {
    assert_eq!(
        call(&fixed(Add2), vec![EngineValue::Int(5)]),
        Err(ExecutionError::Exception(JsValue::String(
            "Invalid argument count: Expected 2, got 1".into()
        ))),
    );
}

#[test]
fn lib_test_callback_invalid_argcount() {
    callback_invalid_argcount();
}

#[test]
fn tests_test_callback_invalid_argcount() {
    callback_invalid_argcount();
}

fn memory_limit() {
    let context = Context::builder().memory_limit(100_000).build(1, 2);
    assert!(context.is_ok());
    assert_eq!(
        threw(EngineValue::Object(Some(vec![])), "InternalError: out of memory"),
        Err(ExecutionError::OutOfMemory),
    );
}

#[test]
fn lib_memory_limit_exceeded() {
    memory_limit();
}

#[test]
fn tests_memory_limit_exceeded() {
    memory_limit();
}

fn reset() {
    let mut c = Context::new(1, 2).unwrap();
    c.add_callback("myCallback", Arity::Fixed(0)).unwrap();
    assert_eq!(c.wrapper().callback_count(), 1);

    let mut c2 = c.reset(3).unwrap();

    // Check it still works.
    assert_eq!(
        settled(text("abcabc")).unwrap().try_into_string().unwrap(),
        "abcabc".to_string(),
    );

    // Check old state is gone.
    let err_msg = threw(EngineValue::Object(Some(vec![])), "ReferenceError: 'x' is not defined")
        .unwrap_err()
        .message();
    assert!(err_msg.contains("ReferenceError"));

    // Check callback is gone.
    assert_eq!(c2.wrapper().callback_count(), 0);
}

#[test]
fn lib_context_reset() {
    reset();
}

#[test]
fn tests_context_reset() {
    reset();
}

fn call_large_string() {
    let s = " ".repeat(200_000);
    let args = Context::call_arguments(&vec![JsValue::String(s)]).unwrap();
    match &args[0] {
        EngineValue::String(Some(bytes)) => assert_eq!(bytes.len(), 200_000),
        other => panic!("expected a string, got {:?}", other),
    }
}

#[test]
fn lib_test_call_large_string() {
    call_large_string();
}

#[test]
fn tests_test_call_large_string() {
    call_large_string();
}

fn chrono_roundtrip() {
    let d: chrono::DateTime<chrono::Utc> = chrono::Utc::now();
    let td = JsValue::Date(d.timestamp_millis());
    let td2 = deserialize_value(&serialize_value(&td).unwrap()).unwrap();
    let d2 = if let JsValue::Date(x) = td2 { x } else { panic!("expected date") };
    assert_eq!(d.timestamp_millis(), d2);
}

#[test]
fn lib_chrono_roundtrip() {
    chrono_roundtrip();
}

#[test]
fn tests_chrono_roundtrip() {
    chrono_roundtrip();
}

fn chrono_deserialize() {
    let value = settled(EngineValue::Date(Some(1234567555))).unwrap();
    let datetime = chrono::DateTime::<chrono::Utc>::from_timestamp_millis(1234567555).unwrap();
    assert_eq!(value, JsValue::Date(datetime.timestamp_millis()));
}

#[test]
fn lib_chrono_deserialize() {
    chrono_deserialize();
}

#[test]
fn tests_chrono_deserialize() {
    chrono_deserialize();
}

fn chrono_serialize() {
    let now = chrono::Utc::now();
    let now_millis = now.timestamp_millis();
    assert_eq!(
        serialize_value(&JsValue::Date(now_millis)),
        Ok(EngineValue::Date(Some(now_millis)))
    );
}

#[test]
fn lib_chrono_serialize() {
    chrono_serialize();
}

#[test]
fn tests_chrono_serialize() {
    chrono_serialize();
}

fn bigint_deserialize_i64() {
    for i in vec![0, std::i64::MAX, std::i64::MIN] {
        let value = settled(EngineValue::BigInt(EngineBigInt::Small(i))).unwrap();
        assert_eq!(value, JsValue::BigInt(JsBigInt::from_i64(i)));
    }
}

#[test]
fn lib_test_bigint_deserialize_i64() {
    bigint_deserialize_i64();
}

#[test]
fn tests_test_bigint_deserialize_i64() {
    bigint_deserialize_i64();
}

fn bigint_deserialize_bigint() {
    for i in vec![
        std::i64::MAX as i128 + 1,
        std::i64::MIN as i128 - 1,
        std::i128::MAX,
        std::i128::MIN,
    ] {
        let reported = EngineValue::BigInt(EngineBigInt::Text(Some(format!("{}", i).into_bytes())));
        let value = settled(reported).unwrap();
        let expected = num_bigint::BigInt::from(i);
        assert_eq!(value, JsValue::BigInt(JsBigInt::from_bigint(expected)));
    }
}

#[test]
fn lib_test_bigint_deserialize_bigint() {
    bigint_deserialize_bigint();
}

#[test]
fn tests_test_bigint_deserialize_bigint() {
    bigint_deserialize_bigint();
}

fn bigint_serialize_i64() {
    for i in vec![0, std::i64::MAX, std::i64::MIN] {
        assert_eq!(
            serialize_value(&JsValue::BigInt(JsBigInt::from_i64(i))),
            Ok(EngineValue::BigInt(EngineBigInt::Small(i)))
        );
    }
}

#[test]
fn lib_test_bigint_serialize_i64() {
    bigint_serialize_i64();
}

#[test]
fn tests_test_bigint_serialize_i64() {
    bigint_serialize_i64();
}

fn bigint_serialize_bigint() {
    for i in vec![
        std::i64::MAX as i128 + 1,
        std::i64::MIN as i128 - 1,
        std::i128::MAX,
        std::i128::MIN,
    ] {
        let value = JsValue::BigInt(JsBigInt::from_bigint(num_bigint::BigInt::from(i)));
        assert_eq!(
            serialize_value(&value),
            Ok(EngineValue::BigInt(EngineBigInt::Text(Some(format!("{}", i).into_bytes()))))
        );
    }
}

#[test]
fn lib_test_bigint_serialize_bigint() {
    bigint_serialize_bigint();
}

#[test]
fn tests_test_bigint_serialize_bigint() {
    bigint_serialize_bigint();
}

/// `|args: Arguments| { .. }`: takes any arguments and returns nothing.
struct Varargs;

impl Callback for Varargs {
    fn argument_count(&self) -> usize {
        0
    }

    fn call(&self, args: Vec<JsValue>) -> Result<Result<JsValue, String>, ValueError> {
        let args = Arguments(args).into_vec();
        assert_eq!(
            args,
            vec![JsValue::String("hello".into()), JsValue::Bool(true), JsValue::from(100),]
        );
        Ok(Ok(JsValue::Undefined))
    }
}

/// `|args: Arguments| -> i32 { .. }`: takes any arguments and returns 111.
struct VarargsWithReturn;

impl Callback for VarargsWithReturn {
    fn argument_count(&self) -> usize {
        0
    }

    fn call(&self, args: Vec<JsValue>) -> Result<Result<JsValue, String>, ValueError> {
        let args = Arguments(args).into_vec();
        assert_eq!(args, vec![JsValue::from(1), JsValue::from(10), JsValue::from(100),]);
        Ok(Ok(JsValue::Int(111)))
    }
}

#[test]
fn test_callback_varargs() {
    // No return.
    assert_eq!(
        call(&Varargs, vec![text("hello"), EngineValue::Bool(1), EngineValue::Int(100)]).unwrap(),
        JsValue::Undefined
    );

    // With return.
    assert_eq!(
        call(
            &VarargsWithReturn,
            vec![EngineValue::Int(1), EngineValue::Int(10), EngineValue::Int(100)]
        )
        .unwrap(),
        JsValue::Int(111)
    );
}

struct Collector {
    messages: Arc<Mutex<Vec<(Level, Vec<JsValue>)>>>,
}

impl ConsoleBackend for Collector {
    fn log(&self, level: Level, args: Vec<JsValue>) {
        self.messages.lock().unwrap().push((level, args));
    }
}

#[test]
fn test_console() {
    let messages = Arc::new(Mutex::new(Vec::<(Level, Vec<JsValue>)>::new()));
    let backend = Collector { messages: messages.clone() };

    // console.log("hi");
    dispatch_console(&backend, vec![JsValue::from_text("log"), JsValue::from_text("hi")]);
    // console.error(false);
    dispatch_console(&backend, vec![JsValue::from_text("error"), JsValue::from(false)]);

    let m = messages.lock().unwrap();

    assert_eq!(
        *m,
        vec![
            (Level::Log, vec![JsValue::from_text("hi")]),
            (Level::Error, vec![JsValue::from(false)]),
        ]
    );
}

#[test]
fn test_global_setter() {
    let (name, plain) = Context::set_global("a", &JsValue::from_text("a")).unwrap();
    assert_eq!(name, b"a".to_vec());
    assert_eq!(plain, text("a"));
}
