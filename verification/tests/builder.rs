use quick_js::builder::{Builder, Reply, Request};
use quick_js::plan::{plan_value, Fault, Step};
use quick_js::context::Context;
use quick_js::errors::ExecutionError;
use quick_js::engine::{EngineBigInt, EngineProperty, EngineValue, Payload, RawValue};
use quick_js::marshal::{deserialize_value, serialize_value};
use quick_js::tag::{
    TAG_BIG_INT, TAG_EXCEPTION, TAG_INT, TAG_NULL, TAG_OBJECT, TAG_STRING,
};
use quick_js::value::{JsValue, Property, ValueError};

/// What a cell of the toy engine's heap holds.
#[derive(Debug, Clone)]
enum Cell {
    Text(Vec<u8>),
    Array(Vec<RawValue>),
    Object(Vec<(Vec<u8>, RawValue)>),
    BigInt(i64),
    BigText(Vec<u8>),
    Date(i64),
}

/// A toy engine: a heap of reference-counted cells that answers the
/// requests of the builder. It can be told to fail at the n-th request.
struct ToyEngine {
    cells: Vec<Option<(i32, Cell)>>,
    requests: usize,
    fail_at: Option<usize>,
    freed: Vec<RawValue>,
}

impl ToyEngine {
    fn new(fail_at: Option<usize>) -> Self {
        ToyEngine { cells: Vec::new(), requests: 0, fail_at, freed: Vec::new() }
    }

    fn make(&mut self, tag: i64, cell: Cell) -> RawValue {
        self.cells.push(Some((1, cell)));
        RawValue { u: Payload::Ptr(self.cells.len() - 1), tag }
    }

    fn slot(&self, raw: &RawValue) -> usize {
        match raw.u {
            Payload::Ptr(at) => at,
            other => panic!("not a heap value: {:?}", other),
        }
    }

    fn free(&mut self, raw: RawValue) {
        if raw.tag >= 0 {
            return;
        }
        let at = self.slot(&raw);
        let (count, cell) = self.cells[at].take().expect("double free");
        if count > 1 {
            self.cells[at] = Some((count - 1, cell));
            return;
        }
        match cell {
            Cell::Array(items) => items.into_iter().for_each(|v| self.free(v)),
            Cell::Object(props) => props.into_iter().for_each(|(_, v)| self.free(v)),
            _ => {}
        }
    }

    fn live(&self) -> usize {
        self.cells.iter().filter(|c| c.is_some()).count()
    }

    fn answer(&mut self, request: &Request) -> Reply {
        self.requests += 1;
        let failing = self.fail_at == Some(self.requests);
        let exception = RawValue { u: Payload::Int32(0), tag: TAG_EXCEPTION };
        match request {
            Request::NewString(bytes) => {
                if failing {
                    return Reply::Value(exception);
                }
                Reply::Value(self.make(TAG_STRING, Cell::Text(bytes.clone())))
            }
            Request::NewArray => {
                if failing {
                    return Reply::Value(exception);
                }
                Reply::Value(self.make(TAG_OBJECT, Cell::Array(Vec::new())))
            }
            Request::NewObject => {
                if failing {
                    return Reply::Value(exception);
                }
                Reply::Value(self.make(TAG_OBJECT, Cell::Object(Vec::new())))
            }
            Request::NewBigInt64(n) => Reply::Value(self.make(TAG_BIG_INT, Cell::BigInt(*n))),
            Request::NewDate(ms) => {
                if failing {
                    return Reply::Value(exception);
                }
                Reply::Value(self.make(TAG_OBJECT, Cell::Date(*ms)))
            }
            Request::Retain(raw) => {
                let at = self.slot(raw);
                self.cells[at].as_mut().unwrap().0 += 1;
                Reply::Value(*raw)
            }
            Request::CallGlobal { name, arg } => {
                assert_eq!(name.as_slice(), b"BigInt");
                if failing {
                    return Reply::Value(exception);
                }
                let text = match &self.cells[self.slot(arg)] {
                    Some((_, Cell::Text(bytes))) => bytes.clone(),
                    other => panic!("BigInt of {:?}", other),
                };
                Reply::Value(self.make(TAG_BIG_INT, Cell::BigText(text)))
            }
            Request::Free(raw) => {
                self.freed.push(*raw);
                self.free(*raw);
                Reply::Nothing
            }
            Request::DefineIndex { target, index, value } => {
                if failing {
                    // The engine owns the value even when the store fails.
                    self.free(*value);
                    return Reply::Status(-1);
                }
                let at = self.slot(target);
                match &mut self.cells[at].as_mut().unwrap().1 {
                    Cell::Array(items) => {
                        assert_eq!(*index as usize, items.len());
                        items.push(*value);
                    }
                    other => panic!("index into {:?}", other),
                }
                Reply::Status(1)
            }
            Request::DefineKey { target, key, value } => {
                if failing {
                    self.free(*value);
                    return Reply::Status(-1);
                }
                let at = self.slot(target);
                match &mut self.cells[at].as_mut().unwrap().1 {
                    Cell::Object(props) => props.push((key.clone(), *value)),
                    other => panic!("key into {:?}", other),
                }
                Reply::Status(1)
            }
            Request::Done(_) | Request::Failed { .. } => panic!("no request"),
        }
    }

    /// Reads a value back, as the bridge reads values of the engine.
    fn read(&self, raw: &RawValue) -> EngineValue {
        if raw.tag >= 0 {
            return match (raw.tag, raw.u) {
                (TAG_INT, Payload::Int32(n)) => EngineValue::Int(n),
                (1, Payload::Int32(n)) => EngineValue::Bool(n),
                (TAG_NULL, _) => EngineValue::Null,
                (3, _) => EngineValue::Undefined,
                (7, Payload::Float64(bits)) => EngineValue::Float64(bits),
                (TAG_EXCEPTION, _) => EngineValue::Exception,
                (tag, _) => EngineValue::Other(tag),
            };
        }
        match &self.cells[self.slot(raw)].as_ref().expect("dangling").1 {
            Cell::Text(bytes) => EngineValue::String(Some(bytes.clone())),
            Cell::Array(items) => EngineValue::Array(items.iter().map(|v| self.read(v)).collect()),
            Cell::Object(props) => EngineValue::Object(Some(
                props
                    .iter()
                    .map(|(k, v)| EngineProperty {
                        key: EngineValue::String(Some(k.clone())),
                        value: self.read(v),
                    })
                    .collect(),
            )),
            Cell::BigInt(n) => EngineValue::BigInt(EngineBigInt::Small(*n)),
            Cell::BigText(text) => EngineValue::BigInt(EngineBigInt::Text(Some(text.clone()))),
            Cell::Date(ms) => EngineValue::Date(Some(*ms)),
        }
    }
}

/// Runs the builder against the toy engine until it ends.
fn build(engine: &mut ToyEngine, value: &EngineValue) -> Result<RawValue, ValueError> {
    let steps = plan_value(value)?;
    let mut builder = Builder::new(steps);
    let mut request = builder.advance(Reply::Nothing);
    loop {
        match request {
            Request::Done(raw) => {
                assert!(builder.is_finished());
                assert!(builder.held().is_empty());
                return Ok(raw);
            }
            Request::Failed { release, error } => {
                assert!(builder.is_finished());
                assert!(builder.held().is_empty());
                for raw in release {
                    engine.free(raw);
                }
                return Err(error);
            }
            other => {
                let reply = engine.answer(&other);
                request = builder.advance(reply);
            }
        }
    }
}

fn sample() -> JsValue {
    JsValue::Array(vec![
        JsValue::Int(1),
        JsValue::String("two".to_string()),
        JsValue::Object(vec![
            Property { key: "a".to_string(), value: JsValue::Null },
            Property {
                key: "b".to_string(),
                value: JsValue::Array(vec![JsValue::Bool(true), JsValue::String("x".to_string())]),
            },
        ]),
        JsValue::Float(1.5f64.to_bits()),
    ])
}

#[test]
fn test_set_global() {
    // The toy engine keeps its globals by name; evaluating a name gives the
    // global of that name.
    let mut engine = ToyEngine::new(None);
    let mut globals: Vec<(Vec<u8>, RawValue)> = Vec::new();
    let (name, plain) = Context::set_global("someGlobalVariable", &JsValue::from(42)).unwrap();
    let raw = build(&mut engine, &plain).unwrap();
    globals.push((name, raw));
    let found = globals.iter().find(|(n, _)| n.as_slice() == b"someGlobalVariable").unwrap();
    let value = Context::eval_result(&engine.read(&found.1)).unwrap().try_into_i32().unwrap();
    assert_eq!(value, 42,);
}

#[test]
fn global_with_a_zero_byte_in_its_name_is_refused() {
    assert_eq!(
        Context::set_global("some\0Global", &JsValue::from(42)),
        Err(ExecutionError::Conversion(ValueError::StringWithZeroBytes(4)))
    );
    let bad = JsValue::Object(vec![Property { key: "\0".to_string(), value: JsValue::Null }]);
    assert_eq!(
        Context::set_global("fine", &bad),
        Err(ExecutionError::Conversion(ValueError::StringWithZeroBytes(0)))
    );
}

#[test]
fn built_value_reads_back_as_the_host_value() {
    let value = sample();
    let tree = serialize_value(&value).unwrap();
    let mut engine = ToyEngine::new(None);
    let raw = build(&mut engine, &tree).unwrap();
    assert_eq!(engine.read(&raw), tree);
    assert_eq!(deserialize_value(&engine.read(&raw)).unwrap(), value);
    // Nothing was freed on the way, and one free of the result frees all.
    assert!(engine.freed.is_empty());
    engine.free(raw);
    assert_eq!(engine.live(), 0);
}

#[test]
fn failure_at_any_request_leaves_nothing_behind() {
    let tree = serialize_value(&sample()).unwrap();
    let mut clean = ToyEngine::new(None);
    build(&mut clean, &tree).unwrap();
    let total = clean.requests;
    assert!(total > 5);
    for k in 1..=total {
        let mut engine = ToyEngine::new(Some(k));
        let result = build(&mut engine, &tree);
        assert!(result.is_err(), "request {} should fail the build", k);
        assert_eq!(engine.live(), 0, "request {} left cells behind", k);
    }
}

#[test]
fn failed_element_rolls_back_the_array() {
    // The second element of the array cannot be created.
    let tree = EngineValue::Array(vec![
        EngineValue::String(Some(b"a".to_vec())),
        EngineValue::String(Some(b"b".to_vec())),
    ]);
    // Requests: NewArray, NewString, DefineIndex, NewString (fails).
    let mut engine = ToyEngine::new(Some(4));
    let err = build(&mut engine, &tree).unwrap_err();
    assert_eq!(err, ValueError::Internal("Could not create string in runtime".to_string()));
    assert_eq!(engine.live(), 0);
}

#[test]
fn failed_store_names_the_containers_innermost_first() {
    let tree = EngineValue::Array(vec![EngineValue::Array(vec![EngineValue::Int(7)])]);
    let mut builder = Builder::new(plan_value(&tree).unwrap());
    let outer = RawValue { u: Payload::Ptr(10), tag: TAG_OBJECT };
    let inner = RawValue { u: Payload::Ptr(20), tag: TAG_OBJECT };
    assert_eq!(builder.advance(Reply::Nothing), Request::NewArray);
    assert_eq!(builder.advance(Reply::Value(outer)), Request::NewArray);
    assert_eq!(
        builder.advance(Reply::Value(inner)),
        Request::DefineIndex { target: inner, index: 0, value: RawValue::int32(7) }
    );
    assert_eq!(builder.held().as_slice(), &[outer, inner]);
    assert_eq!(
        builder.advance(Reply::Status(-1)),
        Request::Failed {
            release: vec![inner, outer],
            error: ValueError::Internal("Could not append element to array".to_string()),
        }
    );
    assert!(builder.is_finished());
    assert!(builder.held().is_empty());
}

#[test]
fn failed_property_reports_its_own_message() {
    let tree = EngineValue::Object(Some(vec![EngineProperty {
        key: EngineValue::String(Some(b"k".to_vec())),
        value: EngineValue::Null,
    }]));
    let mut builder = Builder::new(plan_value(&tree).unwrap());
    let object = RawValue { u: Payload::Ptr(1), tag: TAG_OBJECT };
    assert_eq!(builder.advance(Reply::Nothing), Request::NewObject);
    assert_eq!(
        builder.advance(Reply::Value(object)),
        Request::DefineKey {
            target: object,
            key: b"k".to_vec(),
            value: quick_js::engine::js_null_value(),
        }
    );
    assert_eq!(
        builder.advance(Reply::Status(-1)),
        Request::Failed {
            release: vec![object],
            error: ValueError::Internal("Could not add add property to object".to_string()),
        }
    );
}

#[test]
fn plan_of_a_scalar_asks_nothing() {
    let mut builder = Builder::new(plan_value(&EngineValue::Int(3)).unwrap());
    assert_eq!(builder.advance(Reply::Nothing), Request::Done(RawValue::int32(3)));
    // A finished machine answers every further call with a failure.
    assert!(matches!(
        builder.advance(Reply::Nothing),
        Request::Failed { .. }
    ));
}

#[test]
fn plan_of_a_big_integer_goes_through_text() {
    let text = b"9223372036854775808".to_vec();
    let tree = EngineValue::BigInt(EngineBigInt::Text(Some(text.clone())));
    assert_eq!(
        plan_value(&tree).unwrap(),
        vec![
            Step::NewString(text.clone()),
            Step::ExpectTag(TAG_STRING, Fault::BigIntString),
            Step::CallGlobal(b"BigInt".to_vec()),
            Step::DropSecond,
            Step::ExpectTag(TAG_BIG_INT, Fault::ConstructBigInt),
        ]
    );
    let mut engine = ToyEngine::new(None);
    let raw = build(&mut engine, &tree).unwrap();
    assert_eq!(engine.read(&raw), tree);
    // The text was a temporary and is gone.
    assert_eq!(engine.freed.len(), 1);
    assert_eq!(engine.freed[0].tag, TAG_STRING);
    assert_eq!(engine.live(), 1);
}

#[test]
fn small_big_integer_is_built_directly() {
    assert_eq!(
        plan_value(&EngineValue::BigInt(EngineBigInt::Small(-1))).unwrap(),
        vec![Step::NewBigInt64(-1)]
    );
}

#[test]
fn failed_big_integer_call_frees_the_text() {
    let tree = EngineValue::BigInt(EngineBigInt::Text(Some(b"12345678901234567890".to_vec())));
    // Requests: NewString, CallGlobal (fails), Free.
    let mut engine = ToyEngine::new(Some(2));
    let err = build(&mut engine, &tree).unwrap_err();
    assert_eq!(err, ValueError::Internal("Could not construct BigInt object".to_string()));
    assert_eq!(engine.live(), 0);
}

#[test]
fn date_must_come_back_as_an_object() {
    let tree = EngineValue::Date(Some(1234567555));
    let mut engine = ToyEngine::new(Some(1));
    let err = build(&mut engine, &tree).unwrap_err();
    assert_eq!(err, ValueError::Internal("Could not construct Date object".to_string()));
    let mut engine = ToyEngine::new(None);
    let raw = build(&mut engine, &tree).unwrap();
    assert_eq!(engine.read(&raw), tree);
}

#[test]
fn function_is_retained_not_rebuilt() {
    let mut engine = ToyEngine::new(None);
    let func = engine.make(TAG_OBJECT, Cell::Object(Vec::new()));
    let tree = EngineValue::Array(vec![EngineValue::Function(func)]);
    let raw = build(&mut engine, &tree).unwrap();
    assert_eq!(engine.cells[0].as_ref().unwrap().0, 2);
    engine.free(raw);
    assert_eq!(engine.cells[0].as_ref().unwrap().0, 1);
}

#[test]
fn key_with_zero_byte_fails_before_anything_is_built() {
    let tree = EngineValue::Object(Some(vec![
        EngineProperty {
            key: EngineValue::String(Some(b"ok".to_vec())),
            value: EngineValue::Int(1),
        },
        EngineProperty {
            key: EngineValue::String(Some(b"b\0d".to_vec())),
            value: EngineValue::Int(2),
        },
    ]));
    let mut engine = ToyEngine::new(None);
    assert_eq!(build(&mut engine, &tree), Err(ValueError::StringWithZeroBytes(1)));
    assert_eq!(engine.requests, 0);
}

#[test]
fn values_that_only_the_engine_reports_have_no_plan() {
    assert_eq!(plan_value(&EngineValue::Exception), Err(ValueError::UnexpectedType));
    assert_eq!(plan_value(&EngineValue::Other(-8)), Err(ValueError::UnexpectedType));
    assert_eq!(plan_value(&EngineValue::String(None)), Err(ValueError::UnexpectedType));
    assert_eq!(plan_value(&EngineValue::Object(None)), Err(ValueError::UnexpectedType));
}

#[test]
fn answer_of_the_wrong_kind_ends_the_build() {
    let mut builder = Builder::new(plan_value(&EngineValue::Array(vec![])).unwrap());
    assert_eq!(builder.advance(Reply::Nothing), Request::NewArray);
    assert_eq!(
        builder.advance(Reply::Status(0)),
        Request::Failed {
            release: vec![],
            error: ValueError::Internal("Could not follow the plan for the value".to_string()),
        }
    );
}

#[test]
fn fault_texts() {
    assert_eq!(
        Fault::BigIntString.error(),
        ValueError::Internal(
            "Could not construct String object needed to create BigInt object".to_string()
        )
    );
    assert_eq!(
        Fault::CreateObject.error(),
        ValueError::Internal("Could not create object".to_string())
    );
    assert_eq!(
        Fault::CreateArray.error(),
        ValueError::Internal("Could not create array in runtime".to_string())
    );
}

#[test]
fn each_refused_request_reports_its_own_message() {
    let failing_first = |tree: &EngineValue| {
        let mut engine = ToyEngine::new(Some(1));
        let err = build(&mut engine, tree).unwrap_err();
        assert_eq!(engine.live(), 0);
        err
    };
    assert_eq!(
        failing_first(&EngineValue::String(Some(b"s".to_vec()))),
        ValueError::Internal("Could not create string in runtime".to_string())
    );
    assert_eq!(
        failing_first(&EngineValue::Array(vec![EngineValue::Int(1)])),
        ValueError::Internal("Could not create array in runtime".to_string())
    );
    assert_eq!(
        failing_first(&EngineValue::Object(Some(vec![]))),
        ValueError::Internal("Could not create object".to_string())
    );
    assert_eq!(
        failing_first(&EngineValue::BigInt(EngineBigInt::Text(Some(b"1".to_vec())))),
        ValueError::Internal(
            "Could not construct String object needed to create BigInt object".to_string()
        )
    );
}
