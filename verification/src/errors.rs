//! The errors that the bridge reports, and how an exception of the engine
//! becomes one of them.
use vstd::prelude::*;
use vstd::utf8::encode_utf8;
use crate::engine::{EngineModel, EngineValue};
use crate::marshal::{deserialize_value, deserialized};
use crate::value::{value_error_text, JsValue, ValueError, ValueErrorModel, ValueModel};

verus! {

/// Error on execution of a script.
#[derive(PartialEq, Debug)]
pub enum ExecutionError {
    /// Code to be executed contained zero-bytes.
    InputWithZeroBytes,
    /// Value conversion failed (either input arguments or result value).
    Conversion(ValueError),
    /// Internal error.
    Internal(String),
    /// An exception was thrown by the script.
    Exception(JsValue),
    /// The engine exceeded its memory limit.
    OutOfMemory,
    /// A module could not be found.
    ModuleNotFound(String),
}

/// The mathematical model of an execution error.
pub enum ExecutionErrorModel {
    InputWithZeroBytes,
    Conversion(ValueErrorModel),
    Internal(Seq<char>),
    Exception(ValueModel),
    OutOfMemory,
    ModuleNotFound(Seq<char>),
}

impl View for ExecutionError {
    type V = ExecutionErrorModel;

    open spec fn view(&self) -> ExecutionErrorModel {
        match self {
            ExecutionError::InputWithZeroBytes => ExecutionErrorModel::InputWithZeroBytes,
            ExecutionError::Conversion(e) => ExecutionErrorModel::Conversion(e@),
            ExecutionError::Internal(msg) => ExecutionErrorModel::Internal(msg@),
            ExecutionError::Exception(v) => ExecutionErrorModel::Exception(v@),
            ExecutionError::OutOfMemory => ExecutionErrorModel::OutOfMemory,
            ExecutionError::ModuleNotFound(name) => ExecutionErrorModel::ModuleNotFound(name@),
        }
    }
}

/// `format!` with `{:?}`: the text that `Debug` gives for a host value.
/// Nothing is claimed of it.
#[verifier::external_body]
fn debug_text(value: &JsValue) -> (text: String) {
    format!("{:?}", value)
}

/// What an execution error says, where the text is fixed. The text for an
/// exception is the thrown value as `Debug` prints it, and is not fixed
/// here.
pub open spec fn execution_error_text(e: ExecutionErrorModel) -> Option<Seq<char>> {
    match e {
        ExecutionErrorModel::InputWithZeroBytes => Some(
            "Invalid script input: code contains zero byte (\\0)"@,
        ),
        ExecutionErrorModel::Conversion(err) => Some(value_error_text(err)),
        ExecutionErrorModel::Internal(msg) => Some("Internal error: "@ + msg),
        ExecutionErrorModel::Exception(_) => None,
        ExecutionErrorModel::OutOfMemory => Some("Out of memory: runtime memory limit exceeded"@),
        ExecutionErrorModel::ModuleNotFound(name) => Some("Module not found: "@ + name),
    }
}

impl ExecutionError {
    /// What the error says. For an exception it is the thrown value as
    /// `Debug` prints it; every other text is fixed.
    pub fn message(&self) -> (text: String)
        ensures
            execution_error_text(self@) matches Some(fixed) ==> text@ == fixed,
    {
        match self {
            ExecutionError::InputWithZeroBytes => String::from_str(
                "Invalid script input: code contains zero byte (\\0)",
            ),
            ExecutionError::Conversion(e) => e.message(),
            ExecutionError::Internal(msg) => {
                let mut text = String::from_str("Internal error: ");
                text.append(msg.as_str());
                text
            },
            ExecutionError::Exception(value) => debug_text(value),
            ExecutionError::OutOfMemory => String::from_str(
                "Out of memory: runtime memory limit exceeded",
            ),
            ExecutionError::ModuleNotFound(name) => {
                let mut text = String::from_str("Module not found: ");
                text.append(name.as_str());
                text
            },
        }
    }

    /// The error for a thrown value that is a text.
    pub fn exception_text(text: &str) -> (e: ExecutionError)
        ensures
            e@ == ExecutionErrorModel::Exception(ValueModel::String(text@)),
    {
        ExecutionError::Exception(JsValue::String(String::from_str(text)))
    }
}

impl From<ValueError> for ExecutionError {
    fn from(v: ValueError) -> (e: ExecutionError) {
        ExecutionError::Conversion(v)
    }
}

impl vstd::std_specs::convert::FromSpecImpl<ValueError> for ExecutionError {
    open spec fn obeys_from_spec() -> bool {
        true
    }

    open spec fn from_spec(v: ValueError) -> ExecutionError {
        ExecutionError::Conversion(v)
    }
}

/// Error on context creation.
#[derive(PartialEq, Eq, Clone, Copy, Debug, Structural)]
pub enum ContextError {
    /// Runtime could not be created.
    RuntimeCreationFailed,
    /// Context could not be created.
    ContextCreationFailed,
}

impl ContextError {
    /// What the error says.
    pub fn message(&self) -> (text: String)
        ensures
            text@ == (match self {
                ContextError::RuntimeCreationFailed => "Could not create runtime"@,
                ContextError::ContextCreationFailed => "Could not create context"@,
            }),
    {
        match self {
            ContextError::RuntimeCreationFailed => String::from_str("Could not create runtime"),
            ContextError::ContextCreationFailed => String::from_str("Could not create context"),
        }
    }
}

/// Whether `needle` occurs in `haystack` at position `at`.
pub open spec fn occurs_at(haystack: Seq<u8>, needle: Seq<u8>, at: int) -> bool {
    0 <= at && at + needle.len() <= haystack.len() && haystack.subrange(
        at,
        at + needle.len(),
    ) == needle
}

/// Whether `needle` occurs somewhere in `haystack`.
pub open spec fn contains_bytes(haystack: Seq<u8>, needle: Seq<u8>) -> bool {
    exists|at: int| occurs_at(haystack, needle, at)
}

/// Whether `needle` occurs in `haystack` at position `at`.
fn matches_at(haystack: &Vec<u8>, needle: &Vec<u8>, at: usize) -> (found: bool)
    requires
        at + needle@.len() <= haystack@.len(),
    ensures
        found == occurs_at(haystack@, needle@, at as int),
{
    let size = haystack.len();
    let mut k: usize = 0;
    while k < needle.len()
        invariant
            k <= needle@.len(),
            at + needle@.len() <= haystack@.len(),
            haystack@.len() == size,
            forall|j: int| 0 <= j < k ==> haystack@[at + j] == needle@[j],
        decreases needle@.len() - k,
    {
        if haystack[at + k] != needle[k] {
            assert(haystack@.subrange(at as int, at + needle@.len())[k as int] != needle@[k as int]);
            return false;
        }
        k += 1;
    }
    assert(haystack@.subrange(at as int, at + needle@.len()) =~= needle@);
    true
}

/// Whether `needle` occurs somewhere in `haystack`.
pub fn find_bytes(haystack: &Vec<u8>, needle: &Vec<u8>) -> (found: bool)
    ensures
        found == contains_bytes(haystack@, needle@),
{
    if needle.len() > haystack.len() {
        return false;
    }
    let last = haystack.len() - needle.len();
    let mut at: usize = 0;
    loop
        invariant
            at <= last,
            last == haystack@.len() - needle@.len(),
            forall|i: int| 0 <= i < at ==> !occurs_at(haystack@, needle@, i),
        decreases last - at,
    {
        if matches_at(haystack, needle, at) {
            return true;
        }
        if at == last {
            return false;
        }
        at += 1;
    }
}

/// The wording by which the engine reports that it ran out of memory.
pub open spec fn memory_wording() -> Seq<char> {
    "out of memory"@
}

/// Whether an exception text tells that the engine ran out of memory: it
/// holds the engine's wording for that.
pub open spec fn tells_out_of_memory(text: Seq<char>) -> bool {
    contains_bytes(encode_utf8(text), encode_utf8(memory_wording()))
}

/// Whether an exception text tells that the engine ran out of memory.
pub fn is_out_of_memory(text: &str) -> (yes: bool)
    ensures
        yes == tells_out_of_memory(text@),
{
    let haystack = text.as_bytes_vec();
    let needle = "out of memory".as_bytes_vec();
    find_bytes(&haystack, &needle)
}

/// The text of a value that the engine has turned into a string, or the
/// error where it could not.
pub open spec fn string_text(converted: EngineModel) -> Result<Seq<char>, ExecutionErrorModel> {
    match converted {
        EngineModel::String(_) => match deserialized(converted) {
            Ok(ValueModel::String(text)) => Ok(text),
            Ok(_) => Err(ExecutionErrorModel::Conversion(ValueErrorModel::UnexpectedType)),
            Err(e) => Err(ExecutionErrorModel::Conversion(e)),
        },
        _ => Err(
            ExecutionErrorModel::Exception(
                ValueModel::String("Could not convert value to string"@),
            ),
        ),
    }
}

/// Reads the text of a value. `converted` is the value itself where it is a
/// string, and what the engine's conversion to a string gave where it is
/// not.
pub fn js_to_string(converted: &EngineValue) -> (r: Result<String, ExecutionError>)
    ensures
        match r {
            Ok(text) => string_text(converted@) == Ok::<Seq<char>, ExecutionErrorModel>(text@),
            Err(e) => string_text(converted@) == Err::<Seq<char>, ExecutionErrorModel>(e@),
        },
{
    match converted {
        EngineValue::String(_) => match deserialize_value(converted) {
            Ok(JsValue::String(text)) => Ok(text),
            Ok(_) => Err(ExecutionError::Conversion(ValueError::UnexpectedType)),
            Err(e) => Err(ExecutionError::Conversion(e)),
        },
        _ => Err(ExecutionError::exception_text("Could not convert value to string")),
    }
}

/// The error that the engine's pending exception stands for, if there is
/// one.
pub open spec fn exception_error(exception: EngineModel, converted: EngineModel) -> Option<
    ExecutionErrorModel,
> {
    match exception {
        EngineModel::Null => None,
        EngineModel::Exception => Some(
            ExecutionErrorModel::Internal("Could get exception from runtime"@),
        ),
        _ => match string_text(converted) {
            Ok(text) => if tells_out_of_memory(text) {
                Some(ExecutionErrorModel::OutOfMemory)
            } else {
                Some(ExecutionErrorModel::Exception(ValueModel::String(text)))
            },
            Err(e) => Some(e),
        },
    }
}

/// Turns the engine's pending exception into an error. `exception` is the
/// value the engine holds as its last exception, `converted` that value as
/// a string. No exception is pending where the value is null.
pub fn get_exception(exception: &EngineValue, converted: &EngineValue) -> (r: Option<
    ExecutionError,
>)
    ensures
        match r {
            Some(e) => exception_error(exception@, converted@) == Some(e@),
            None => exception_error(exception@, converted@).is_none(),
        },
{
    match exception {
        EngineValue::Null => None,
        EngineValue::Exception => Some(
            ExecutionError::Internal(String::from_str("Could get exception from runtime")),
        ),
        _ => match js_to_string(converted) {
            Ok(text) => {
                if is_out_of_memory(text.as_str()) {
                    Some(ExecutionError::OutOfMemory)
                } else {
                    Some(ExecutionError::Exception(JsValue::String(text)))
                }
            },
            Err(e) => Some(e),
        },
    }
}

/// The error for a promise that was rejected: the reason as text is the
/// thrown value. `converted` is the reason itself where it is a string,
/// what the engine's conversion to a string gave where it is not.
pub fn rejection_error(converted: &EngineValue) -> (e: ExecutionError)
    ensures
        e@ == (match string_text(converted@) {
            Ok(text) => ExecutionErrorModel::Exception(ValueModel::String(text)),
            Err(err) => err,
        }),
{
    match js_to_string(converted) {
        Ok(text) => ExecutionError::Exception(JsValue::String(text)),
        Err(e) => e,
    }
}

/// The error to report where an exception is known to have been thrown:
/// the pending exception, or an unknown one where none is pending.
pub fn exception_or_unknown(pending: Option<ExecutionError>) -> (e: ExecutionError)
    ensures
        e@ == (match pending {
            Some(err) => err@,
            None => ExecutionErrorModel::Exception(ValueModel::String("Unknown exception"@)),
        }),
{
    match pending {
        Some(err) => err,
        None => ExecutionError::exception_text("Unknown exception"),
    }
}

} // verus!
