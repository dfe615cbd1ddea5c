//! What the words of the engine tell about objects and their properties.
use vstd::prelude::*;
use crate::engine::RawValue;
use crate::errors::{ExecutionError, ExecutionErrorModel};
use crate::tag::{TAG_EXCEPTION, TAG_OBJECT, TAG_UNDEFINED};
use crate::value::{ValueError, ValueErrorModel, ValueModel};

verus! {

/// A value that is known to be an object.
#[derive(PartialEq, Eq, Clone, Copy, Debug, Structural)]
pub struct ObjectRef {
    pub value: RawValue,
}

impl ObjectRef {
    /// Takes a value for an object, if it is one.
    pub fn try_from_value(value: RawValue) -> (r: Result<ObjectRef, ValueError>)
        ensures
            match r {
                Ok(object) => value.tag == TAG_OBJECT && object.value == value,
                Err(e) => value.tag != TAG_OBJECT && e@ == ValueErrorModel::Internal(
                    "Expected an object"@,
                ),
            },
    {
        if value.tag != TAG_OBJECT {
            Err(ValueError::Internal(String::from_str("Expected an object")))
        } else {
            Ok(ObjectRef { value })
        }
    }

    /// The value of the object.
    pub fn into_value(self) -> (value: RawValue)
        ensures
            value == self.value,
    {
        self.value
    }
}

/// The message for a property that could not be read.
pub open spec fn property_exception_text(name: Seq<char>) -> Seq<char> {
    "Exception while getting property '"@ + name + "'"@
}

/// The message for a property that is not there.
pub open spec fn property_missing_text(name: Seq<char>) -> Seq<char> {
    "Property '"@ + name + "' not found"@
}

/// What reading a property gave: the marker of an exception is an error,
/// `undefined` means that the property is not there, and any other value is
/// the property's value.
pub fn property(name: &str, value: RawValue) -> (r: Result<Option<RawValue>, ExecutionError>)
    ensures
        match r {
            Ok(Some(v)) => v == value && value.tag != TAG_EXCEPTION && value.tag != TAG_UNDEFINED,
            Ok(None) => value.tag == TAG_UNDEFINED,
            Err(e) => value.tag == TAG_EXCEPTION && e@ == ExecutionErrorModel::Internal(
                property_exception_text(name@),
            ),
        },
{
    if value.tag == TAG_EXCEPTION {
        let mut msg = String::from_str("Exception while getting property '");
        msg.append(name);
        msg.append("'");
        Err(ExecutionError::Internal(msg))
    } else if value.tag == TAG_UNDEFINED {
        Ok(None)
    } else {
        Ok(Some(value))
    }
}

/// What reading a property gave, where the property must be there.
pub fn property_require(name: &str, value: RawValue) -> (r: Result<RawValue, ExecutionError>)
    ensures
        match r {
            Ok(v) => v == value && value.tag != TAG_EXCEPTION && value.tag != TAG_UNDEFINED,
            Err(e) => if value.tag == TAG_EXCEPTION {
                e@ == ExecutionErrorModel::Internal(property_exception_text(name@))
            } else {
                value.tag == TAG_UNDEFINED && e@ == ExecutionErrorModel::Internal(
                    property_missing_text(name@),
                )
            },
        },
{
    match property(name, value) {
        Ok(Some(v)) => Ok(v),
        Ok(None) => {
            let mut msg = String::from_str("Property '");
            msg.append(name);
            msg.append("' not found");
            Err(ExecutionError::Internal(msg))
        },
        Err(e) => Err(e),
    }
}

/// What storing a property gave: a negative status is an exception.
pub fn set_property(status: i32) -> (r: Result<(), ExecutionError>)
    ensures
        match r {
            Ok(_) => status >= 0,
            Err(e) => status < 0 && e@ == ExecutionErrorModel::Exception(
                ValueModel::String("Could not set property"@),
            ),
        },
{
    if status < 0 {
        Err(ExecutionError::exception_text("Could not set property"))
    } else {
        Ok(())
    }
}

/// Whether an object is shaped like a promise: `then` or `catch` can be
/// called on it.
pub fn is_promise(then_is_function: bool, catch_is_function: bool) -> (promise: bool)
    ensures
        promise == (then_is_function || catch_is_function),
{
    then_is_function || catch_is_function
}

} // verus!
