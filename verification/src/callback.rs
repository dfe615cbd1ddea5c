//! Host functions that the engine can call.
//!
//! The engine calls a host function with the words of its arguments. The
//! bridge reads the arguments, checks their number, calls the function and
//! hands back either the value to return or the value to throw. Nothing
//! that goes wrong on the host side reaches the engine in any other way.
use vstd::prelude::*;
use crate::decimal::{digits, push_digits};
use crate::engine::{EngineModel, EngineValue};
use crate::errors::{execution_error_text, ExecutionError, ExecutionErrorModel};
use crate::marshal::{deserialize_value, deserialized, serialize_value, serialized};
use crate::value::{value_error_text, JsValue, ValueError, ValueErrorModel, ValueModel};

verus! {

/// What a host function hands back: a value, or the text of an error to be
/// thrown.
pub trait IntoCallbackResult {
    fn into_callback_res(self) -> Result<JsValue, String>;
}

impl IntoCallbackResult for JsValue {
    fn into_callback_res(self) -> (r: Result<JsValue, String>)
        ensures
            r == Ok::<JsValue, String>(self),
    {
        Ok(self)
    }
}

impl IntoCallbackResult for Result<JsValue, String> {
    fn into_callback_res(self) -> (r: Result<JsValue, String>)
        ensures
            r == self,
    {
        self
    }
}

/// A host function that can be registered with the engine.
pub trait Callback {
    /// The number of arguments that the function requires.
    fn argument_count(&self) -> usize;

    /// Calls the function.
    ///
    /// Gives `Err(_)` if the arguments could not be converted,
    /// `Ok(Err(_))` if the function failed, with the text to throw, and
    /// `Ok(Ok(result))` when the function succeeded.
    fn call(&self, args: Vec<JsValue>) -> Result<Result<JsValue, String>, ValueError>;
}

/// The arguments of a call, for host functions that take any number of
/// them.
pub struct Arguments(pub Vec<JsValue>);

impl Arguments {
    /// Unpacks the arguments into a `Vec`.
    pub fn into_vec(self) -> (args: Vec<JsValue>)
        ensures
            args == self.0,
    {
        self.0
    }
}

/// How many arguments a registered function takes.
#[derive(PartialEq, Eq, Clone, Copy, Debug, Structural)]
pub enum Arity {
    /// Exactly this many.
    Fixed(usize),
    /// Any number.
    Variadic,
}

/// The message for a call with the wrong number of arguments.
pub open spec fn argument_count_text(expected: nat, got: nat) -> Seq<char> {
    "Invalid argument count: Expected "@ + digits(expected) + ", got "@ + digits(got)
}

/// The message for a call with the wrong number of arguments.
pub fn argument_count_message(expected: usize, got: usize) -> (msg: String)
    ensures
        msg@ == argument_count_text(expected as nat, got as nat),
{
    let mut msg = String::from_str("Invalid argument count: Expected ");
    push_digits(&mut msg, expected as u64);
    msg.append(", got ");
    push_digits(&mut msg, got as u64);
    msg
}

/// Whether a call with `got` arguments is in order for the given arity.
pub open spec fn arity_allows(arity: Arity, got: nat) -> bool {
    match arity {
        Arity::Fixed(expected) => expected == got,
        Arity::Variadic => true,
    }
}

/// Checks the number of arguments of a call. A call with the wrong number
/// is answered with the message to throw.
pub fn check_argument_count(arity: Arity, got: usize) -> (r: Result<(), String>)
    ensures
        match r {
            Ok(_) => arity_allows(arity, got as nat),
            Err(msg) => arity matches Arity::Fixed(expected) && expected != got && msg@
                == argument_count_text(expected as nat, got as nat),
        },
{
    match arity {
        Arity::Fixed(expected) => {
            if expected != got {
                Err(argument_count_message(expected, got))
            } else {
                Ok(())
            }
        },
        Arity::Variadic => Ok(()),
    }
}

/// What the engine is handed at the end of a call.
#[derive(PartialEq, Eq, Debug)]
pub enum CallbackOutcome {
    /// The value to return to the script.
    Return(EngineValue),
    /// The value to throw in the script.
    Throw(EngineValue),
}

/// The mathematical model of the outcome of a call.
pub enum OutcomeModel {
    Return(EngineModel),
    Throw(EngineModel),
}

impl View for CallbackOutcome {
    type V = OutcomeModel;

    open spec fn view(&self) -> OutcomeModel {
        match self {
            CallbackOutcome::Return(v) => OutcomeModel::Return(v@),
            CallbackOutcome::Throw(v) => OutcomeModel::Throw(v@),
        }
    }
}

/// Reads the arguments of a call. The first argument that cannot be read
/// decides the error.
pub fn read_arguments(args: &Vec<EngineValue>) -> (r: Result<Vec<JsValue>, ValueError>)
    ensures
        match r {
            Ok(values) => {
                &&& values@.len() == args@.len()
                &&& forall|i: int|
                    0 <= i < args@.len() ==> deserialized(args@[i]@) == Ok::<
                        ValueModel,
                        ValueErrorModel,
                    >(#[trigger] values@[i]@)
            },
            Err(e) => exists|i: int|
                {
                    &&& 0 <= i < args@.len()
                    &&& #[trigger] deserialized(args@[i]@) == Err::<ValueModel, ValueErrorModel>(e@)
                    &&& forall|j: int| 0 <= j < i ==> (#[trigger] deserialized(args@[j]@)) is Ok
                },
        },
{
    let mut values: Vec<JsValue> = Vec::new();
    let mut i: usize = 0;
    while i < args.len()
        invariant
            i <= args@.len(),
            values@.len() == i,
            forall|k: int|
                0 <= k < i ==> deserialized(args@[k]@) == Ok::<ValueModel, ValueErrorModel>(
                    #[trigger] values@[k]@,
                ),
        decreases args@.len() - i,
    {
        match deserialize_value(&args[i]) {
            Ok(value) => {
                values.push(value);
            },
            Err(e) => {
                assert(deserialized(args@[i as int]@) == Err::<ValueModel, ValueErrorModel>(e@));
                assert forall|j: int| 0 <= j < i implies (#[trigger] deserialized(
                    args@[j]@,
                )) is Ok by {
                    assert(deserialized(args@[j]@) == Ok::<ValueModel, ValueErrorModel>(
                        values@[j]@,
                    ));
                }
                return Err(e);
            },
        }
        i += 1;
    }
    Ok(values)
}

/// The value to throw for an error on the host side: the thrown value
/// itself where the error is an exception, the text of the error in every
/// other case.
pub open spec fn exception_model(error: ExecutionErrorModel) -> ValueModel {
    match error {
        ExecutionErrorModel::Exception(thrown) => thrown,
        other => ValueModel::String(execution_error_text(other).unwrap()),
    }
}

/// The value to throw for an error on the host side.
pub fn exception_value(error: ExecutionError) -> (v: JsValue)
    ensures
        v@ == exception_model(error@),
{
    match error {
        ExecutionError::Exception(thrown) => thrown,
        other => JsValue::String(other.message()),
    }
}

/// The engine value that is thrown for an error on the host side: the
/// converted exception value; where that cannot be converted, the text of
/// the reason why.
pub open spec fn thrown(error: ExecutionErrorModel) -> EngineModel {
    match serialized(exception_model(error)) {
        Ok(value) => value,
        Err(e) => EngineModel::String(Some(vstd::utf8::encode_utf8(value_error_text(e)))),
    }
}

/// What the engine is handed for the answer of a host function: a result is
/// converted and returned, and where it cannot be converted the error is
/// thrown; the text of a failure is thrown; an error of conversion is
/// thrown as its text.
pub open spec fn answered(answer: Result<Result<JsValue, String>, ValueError>) -> OutcomeModel {
    match answer {
        Ok(Ok(result)) => match serialized(result@) {
            Ok(value) => OutcomeModel::Return(value),
            Err(e) => OutcomeModel::Throw(thrown(ExecutionErrorModel::Conversion(e))),
        },
        Ok(Err(text)) => OutcomeModel::Throw(
            thrown(ExecutionErrorModel::Exception(ValueModel::String(text@))),
        ),
        Err(e) => OutcomeModel::Throw(thrown(ExecutionErrorModel::Conversion(e@))),
    }
}

/// Turns the answer of a host function into what the engine is handed.
pub fn finish_call(answer: Result<Result<JsValue, String>, ValueError>) -> (out: CallbackOutcome)
    ensures
        out@ == answered(answer),
{
    let error = match answer {
        Ok(Ok(result)) => match serialize_value(&result) {
            Ok(value) => {
                return CallbackOutcome::Return(value);
            },
            Err(e) => ExecutionError::Conversion(e),
        },
        Ok(Err(text)) => ExecutionError::Exception(JsValue::String(text)),
        Err(e) => ExecutionError::Conversion(e),
    };
    throw_error(error)
}

/// The outcome that throws an error of the host side.
pub fn throw_error(error: ExecutionError) -> (out: CallbackOutcome)
    ensures
        out@ == OutcomeModel::Throw(thrown(error@)),
{
    let thrown = exception_value(error);
    match serialize_value(&thrown) {
        Ok(value) => CallbackOutcome::Throw(value),
        Err(e) => CallbackOutcome::Throw(
            EngineValue::String(Some(e.message().as_str().as_bytes_vec())),
        ),
    }
}

/// Whether every argument can be read.
pub open spec fn readable(args: Seq<EngineValue>) -> bool {
    forall|i: int| 0 <= i < args.len() ==> (#[trigger] deserialized(args[i]@)) is Ok
}

/// Whether the values are the arguments as read, one for one.
pub open spec fn read_as(args: Seq<EngineValue>, values: Seq<JsValue>) -> bool {
    &&& values.len() == args.len()
    &&& forall|i: int|
        0 <= i < args.len() ==> deserialized(args[i]@) == Ok::<ValueModel, ValueErrorModel>(
            #[trigger] values[i]@,
        )
}

/// Runs one call of a host function: reads the arguments, calls the
/// function with them, and converts what it answers. Arguments that cannot
/// be read are answered by throwing the text of the error, without calling
/// the function.
pub fn exec_callback<C: Callback>(callback: &C, args: &Vec<EngineValue>) -> (out: CallbackOutcome)
    ensures
        readable(args@) ==> exists|
            values: Vec<JsValue>,
            answer: Result<Result<JsValue, String>, ValueError>,
        |
            {
                &&& read_as(args@, values@)
                &&& #[trigger] call_ensures(C::call, (callback, values), answer)
                &&& out@ == answered(answer)
            },
        forall|i: int|
            0 <= i < args@.len() && (#[trigger] deserialized(args@[i]@)) is Err && (forall|j: int|
                0 <= j < i ==> (#[trigger] deserialized(args@[j]@)) is Ok) ==> out@
                == OutcomeModel::Throw(
                thrown(ExecutionErrorModel::Conversion(deserialized(args@[i]@)->Err_0)),
            ),
{
    match read_arguments(args) {
        Ok(values) => {
            assert forall|i: int| 0 <= i < args@.len() implies (#[trigger] deserialized(
                args@[i]@,
            )) is Ok by {
                assert(deserialized(args@[i]@) == Ok::<ValueModel, ValueErrorModel>(values@[i]@));
            }
            let ghost read = values;
            let answer = callback.call(values);
            let ghost answer_was = answer;
            let out = finish_call(answer);
            assert(read_as(args@, read@));
            assert(call_ensures(C::call, (callback, read), answer_was));
            out
        },
        Err(e) => {
            let ghost first = choose|i: int|
                {
                    &&& 0 <= i < args@.len()
                    &&& #[trigger] deserialized(args@[i]@) == Err::<ValueModel, ValueErrorModel>(
                        e@,
                    )
                    &&& forall|j: int| 0 <= j < i ==> (#[trigger] deserialized(args@[j]@)) is Ok
                };
            assert forall|i: int|
                0 <= i < args@.len() && (#[trigger] deserialized(args@[i]@)) is Err && (forall|
                    j: int,
                | 0 <= j < i ==> (#[trigger] deserialized(args@[j]@)) is Ok) implies i
                == first by {
                if i < first {
                    assert(deserialized(args@[i]@) is Ok);
                } else if first < i {
                    assert(deserialized(args@[first]@) is Ok);
                }
            }
            throw_error(ExecutionError::Conversion(e))
        },
    }
}

/// A host function with a fixed number of arguments. A call with another
/// number of arguments is answered with a message, and the function is not
/// called. A call with that number of arguments is handed on to the
/// function, and its answer is the answer.
pub struct FixedArity<C: Callback> {
    pub count: usize,
    pub inner: C,
}

impl<C: Callback> Callback for FixedArity<C> {
    fn argument_count(&self) -> (count: usize)
        ensures
            count == self.count,
    {
        self.count
    }

    fn call(&self, args: Vec<JsValue>) -> (r: Result<Result<JsValue, String>, ValueError>)
        ensures
            args@.len() != self.count ==> (r matches Ok(Err(msg)) && msg@ == argument_count_text(
                self.count as nat,
                args@.len(),
            )),
            args@.len() == self.count ==> call_ensures(C::call, (&self.inner, args), r),
    {
        match check_argument_count(Arity::Fixed(self.count), args.len()) {
            Ok(_) => self.inner.call(args),
            Err(msg) => Ok(Err(msg)),
        }
    }
}

/// One registered host function: its name and how many arguments it takes.
#[derive(PartialEq, Eq, Debug)]
pub struct CallbackRegistration {
    pub name: String,
    pub arity: Arity,
}

} // verus!
