//! The host's side of an execution context.
//!
//! A context owns what the bridge keeps for one engine context: the
//! handles of the runtime and the context, the registry of host functions,
//! and the timers. Creating the engine's side and tearing it down is the
//! engine's matter; what is decided here is what follows from its answers.
use vstd::prelude::*;
use crate::callback::{Arity, CallbackRegistration};
use crate::engine::{EngineModel, EngineValue, RawValue};
use crate::tag::TAG_OBJECT;
use crate::errors::{ContextError, ExecutionError, ExecutionErrorModel};
use crate::marshal::{
    deserialize_value, deserialized, find_zero, first_zero, serialize_value, serialized,
};
use crate::timers::{TimerModel, Timers};
use crate::value::{JsValue, ValueError, ValueErrorModel, ValueModel};
use vstd::utf8::encode_utf8;

verus! {

/// The mathematical model of a context.
pub struct ContextModel {
    /// The address of the engine's runtime.
    pub runtime: nat,
    /// The address of the engine's context.
    pub context: nat,
    pub memory_limit: Option<nat>,
    /// The registered host functions: name and arity of each, in the order
    /// of registration.
    pub callbacks: Seq<(Seq<char>, Arity)>,
    pub timers: Seq<TimerModel>,
}

/// The models of the registered host functions.
pub open spec fn registrations_view(callbacks: Seq<CallbackRegistration>) -> Seq<
    (Seq<char>, Arity),
> {
    Seq::new(callbacks.len(), |i: int| (callbacks[i].name@, callbacks[i].arity))
}

/// What the bridge keeps for one engine context.
pub struct ContextWrapper {
    runtime: usize,
    context: usize,
    memory_limit: Option<usize>,
    /// The host functions that are registered. They stay until the context
    /// is reset.
    callbacks: Vec<CallbackRegistration>,
    timers: Timers,
}

impl View for ContextWrapper {
    type V = ContextModel;

    closed spec fn view(&self) -> ContextModel {
        ContextModel {
            runtime: self.runtime as nat,
            context: self.context as nat,
            memory_limit: match self.memory_limit {
                Some(limit) => Some(limit as nat),
                None => None,
            },
            callbacks: registrations_view(self.callbacks@),
            timers: self.timers@,
        }
    }
}

/// The outcome of creating a context, as decided by the addresses that
/// the engine gave: a runtime that is null fails first, then a context that
/// is null.
pub open spec fn created(memory_limit: Option<usize>, runtime: usize, context: usize) -> Result<
    ContextModel,
    ContextError,
> {
    if runtime == 0 {
        Err(ContextError::RuntimeCreationFailed)
    } else if context == 0 {
        Err(ContextError::ContextCreationFailed)
    } else {
        Ok(
            ContextModel {
                runtime: runtime as nat,
                context: context as nat,
                memory_limit: match memory_limit {
                    Some(limit) => Some(limit as nat),
                    None => None,
                },
                callbacks: Seq::empty(),
                timers: Seq::empty(),
            },
        )
    }
}

/// The bytes of a text as a C string, or the position of the zero byte
/// that stands in the way.
pub open spec fn c_string_of(text: Seq<char>) -> Result<Seq<u8>, ValueErrorModel> {
    let bytes = encode_utf8(text);
    if first_zero(bytes) < bytes.len() {
        Err(ValueErrorModel::StringWithZeroBytes(first_zero(bytes) as nat))
    } else {
        Ok(bytes)
    }
}

/// The bytes of a text as a C string. A text with a zero byte has none.
pub fn make_cstring(text: &str) -> (r: Result<Vec<u8>, ValueError>)
    ensures
        match r {
            Ok(bytes) => c_string_of(text@) == Ok::<Seq<u8>, ValueErrorModel>(bytes@),
            Err(e) => c_string_of(text@) == Err::<Seq<u8>, ValueErrorModel>(e@),
        },
{
    let bytes = text.as_bytes_vec();
    let at = find_zero(&bytes);
    if at < bytes.len() {
        Err(ValueError::StringWithZeroBytes(at))
    } else {
        Ok(bytes)
    }
}

impl ContextWrapper {
    /// The wrapper for a runtime and a context that the engine created.
    /// `runtime` and `context` are the addresses that the engine gave; a
    /// null address tells that the engine could not create the thing.
    pub fn new(memory_limit: Option<usize>, runtime: usize, context: usize) -> (r: Result<
        Self,
        ContextError,
    >)
        ensures
            match r {
                Ok(w) => created(memory_limit, runtime, context) == Ok::<
                    ContextModel,
                    ContextError,
                >(w@),
                Err(e) => created(memory_limit, runtime, context) == Err::<
                    ContextModel,
                    ContextError,
                >(e),
            },
    {
        if runtime == 0 {
            return Err(ContextError::RuntimeCreationFailed);
        }
        if context == 0 {
            return Err(ContextError::ContextCreationFailed);
        }
        let wrapper = ContextWrapper {
            runtime,
            context,
            memory_limit,
            callbacks: Vec::new(),
            timers: Timers::new(),
        };
        assert(wrapper@.callbacks =~= Seq::empty());
        Ok(wrapper)
    }

    /// Resets the wrapper for a new context of the same runtime. `context`
    /// is the address of the new context. Every registered host function
    /// and every timer is gone afterwards.
    pub fn reset(self, context: usize) -> (r: Result<Self, ContextError>)
        ensures
            match r {
                Ok(w) => context != 0 && w@ == (ContextModel {
                    context: context as nat,
                    callbacks: Seq::empty(),
                    timers: Seq::empty(),
                    ..self@
                }),
                Err(e) => context == 0 && e == ContextError::ContextCreationFailed,
            },
    {
        if context == 0 {
            return Err(ContextError::ContextCreationFailed);
        }
        let wrapper = ContextWrapper {
            runtime: self.runtime,
            context,
            memory_limit: self.memory_limit,
            callbacks: Vec::new(),
            timers: Timers::new(),
        };
        assert(wrapper@.callbacks =~= Seq::empty());
        Ok(wrapper)
    }

    /// The address of the engine's runtime.
    pub fn runtime(&self) -> (address: usize)
        ensures
            address == self@.runtime,
    {
        self.runtime
    }

    /// The address of the engine's context.
    pub fn context(&self) -> (address: usize)
        ensures
            address == self@.context,
    {
        self.context
    }

    /// The memory limit of the runtime in bytes, if one is set.
    pub fn memory_limit(&self) -> (limit: Option<usize>)
        ensures
            match limit {
                Some(n) => self@.memory_limit == Some(n as nat),
                None => self@.memory_limit.is_none(),
            },
    {
        self.memory_limit
    }

    /// The timers of the context.
    pub fn timers(&mut self) -> (timers: &mut Timers)
        ensures
            timers@ == old(self)@.timers,
            final(self)@ == (ContextModel { timers: final(timers)@, ..old(self)@ }),
    {
        &mut self.timers
    }

    /// How many host functions are registered.
    pub fn callback_count(&self) -> (count: usize)
        ensures
            count == self@.callbacks.len(),
    {
        self.callbacks.len()
    }

    /// Registers a host function under a name. The name goes to the engine
    /// as a C string and must not hold a zero byte. The registration stays
    /// until the context is reset.
    pub fn add_callback(&mut self, name: &str, arity: Arity) -> (r: Result<(), ExecutionError>)
        ensures
            match r {
                Ok(_) => {
                    &&& c_string_of(name@) is Ok
                    &&& final(self)@ == (ContextModel {
                        callbacks: old(self)@.callbacks.push((name@, arity)),
                        ..old(self)@
                    })
                },
                Err(e) => {
                    &&& c_string_of(name@) is Err
                    &&& e@ == ExecutionErrorModel::Conversion(c_string_of(name@)->Err_0)
                    &&& final(self)@ == old(self)@
                },
            },
    {
        match make_cstring(name) {
            Ok(_) => {},
            Err(e) => {
                return Err(ExecutionError::Conversion(e));
            },
        }
        let ghost before = self@.callbacks;
        self.callbacks.push(CallbackRegistration { name: String::from_str(name), arity });
        assert(self@.callbacks =~= before.push((name@, arity)));
        Ok(())
    }
}

/// A builder for a context.
pub struct ContextBuilder {
    memory_limit: Option<usize>,
}

impl ContextBuilder {
    /// A builder without settings.
    pub fn new() -> (b: Self)
        ensures
            b.limit().is_none(),
    {
        ContextBuilder { memory_limit: None }
    }

    /// The memory limit that is set.
    pub closed spec fn limit(self) -> Option<usize> {
        self.memory_limit
    }

    /// Sets the memory limit of the runtime (in bytes).
    pub fn memory_limit(self, max_bytes: usize) -> (b: Self)
        ensures
            b.limit() == Some(max_bytes),
    {
        let mut s = self;
        s.memory_limit = Some(max_bytes);
        s
    }

    /// Finishes the builder and builds a context for the runtime and the
    /// context that the engine created.
    pub fn build(self, runtime: usize, context: usize) -> (r: Result<Context, ContextError>)
        ensures
            match r {
                Ok(c) => created(self.limit(), runtime, context) == Ok::<
                    ContextModel,
                    ContextError,
                >(c@),
                Err(e) => created(self.limit(), runtime, context) == Err::<
                    ContextModel,
                    ContextError,
                >(e),
            },
    {
        match ContextWrapper::new(self.memory_limit, runtime, context) {
            Ok(wrapper) => Ok(Context::from_wrapper(wrapper)),
            Err(e) => Err(e),
        }
    }
}

/// The primary way to work with an engine context.
pub struct Context {
    wrapper: ContextWrapper,
}

impl View for Context {
    type V = ContextModel;

    closed spec fn view(&self) -> ContextModel {
        self.wrapper@
    }
}

/// The message for a global function that cannot be called.
pub open spec fn missing_function_text(name: Seq<char>) -> Seq<char> {
    "Could not find function '"@ + name
        + "' in global scope: does not exist, or not an object"@
}

impl Context {
    /// The context around a wrapper.
    pub fn from_wrapper(wrapper: ContextWrapper) -> (c: Self)
        ensures
            c@ == wrapper@,
    {
        Context { wrapper }
    }

    /// A builder that allows to set up the runtime.
    pub fn builder() -> (b: ContextBuilder)
        ensures
            b.limit().is_none(),
    {
        ContextBuilder::new()
    }

    /// A context with default settings, for the runtime and the context
    /// that the engine created.
    pub fn new(runtime: usize, context: usize) -> (r: Result<Self, ContextError>)
        ensures
            match r {
                Ok(c) => created(None, runtime, context) == Ok::<ContextModel, ContextError>(c@),
                Err(e) => created(None, runtime, context) == Err::<ContextModel, ContextError>(e),
            },
    {
        match ContextWrapper::new(None, runtime, context) {
            Ok(wrapper) => Ok(Context::from_wrapper(wrapper)),
            Err(e) => Err(e),
        }
    }

    /// Resets the context for a new engine context of the same runtime.
    /// All state and all host functions are removed.
    pub fn reset(self, context: usize) -> (r: Result<Self, ContextError>)
        ensures
            match r {
                Ok(c) => context != 0 && c@ == (ContextModel {
                    context: context as nat,
                    callbacks: Seq::empty(),
                    timers: Seq::empty(),
                    ..self@
                }),
                Err(e) => context == 0 && e == ContextError::ContextCreationFailed,
            },
    {
        match self.wrapper.reset(context) {
            Ok(wrapper) => Ok(Context { wrapper }),
            Err(e) => Err(e),
        }
    }

    /// The wrapper of the context.
    pub fn wrapper(&mut self) -> (wrapper: &mut ContextWrapper)
        ensures
            wrapper@ == old(self)@,
            final(self)@ == final(wrapper)@,
    {
        &mut self.wrapper
    }

    /// Registers a host function under a name.
    pub fn add_callback(&mut self, name: &str, arity: Arity) -> (r: Result<(), ExecutionError>)
        ensures
            match r {
                Ok(_) => {
                    &&& c_string_of(name@) is Ok
                    &&& final(self)@ == (ContextModel {
                        callbacks: old(self)@.callbacks.push((name@, arity)),
                        ..old(self)@
                    })
                },
                Err(e) => {
                    &&& c_string_of(name@) is Err
                    &&& e@ == ExecutionErrorModel::Conversion(c_string_of(name@)->Err_0)
                    &&& final(self)@ == old(self)@
                },
            },
    {
        self.wrapper.add_callback(name, arity)
    }

    /// The source of a script as the engine takes it: a C string. Code
    /// with a zero byte is refused.
    pub fn eval_source(code: &str) -> (r: Result<Vec<u8>, ExecutionError>)
        ensures
            match r {
                Ok(bytes) => c_string_of(code@) == Ok::<Seq<u8>, ValueErrorModel>(bytes@),
                Err(e) => c_string_of(code@) is Err && e@ == ExecutionErrorModel::Conversion(
                    c_string_of(code@)->Err_0,
                ),
            },
    {
        match make_cstring(code) {
            Ok(bytes) => Ok(bytes),
            Err(e) => Err(ExecutionError::Conversion(e)),
        }
    }

    /// What setting a global of the script hands to the engine: the name as
    /// a C string, and the value to build. The name is looked at first.
    pub fn set_global(name: &str, value: &JsValue) -> (r: Result<
        (Vec<u8>, EngineValue),
        ExecutionError,
    >)
        ensures
            match r {
                Ok((name_c, plain)) => {
                    &&& c_string_of(name@) == Ok::<Seq<u8>, ValueErrorModel>(name_c@)
                    &&& serialized(value@) == Ok::<EngineModel, ValueErrorModel>(plain@)
                },
                Err(e) => match c_string_of(name@) {
                    Err(err) => e@ == ExecutionErrorModel::Conversion(err),
                    Ok(_) => serialized(value@) is Err && e@ == ExecutionErrorModel::Conversion(
                        serialized(value@)->Err_0,
                    ),
                },
            },
    {
        let name_c = match make_cstring(name) {
            Ok(name_c) => name_c,
            Err(e) => {
                return Err(ExecutionError::Conversion(e));
            },
        };
        match serialize_value(value) {
            Ok(plain) => Ok((name_c, plain)),
            Err(e) => Err(ExecutionError::Conversion(e)),
        }
    }

    /// The arguments of a call as the engine takes them. The first argument
    /// that cannot be converted decides the error, and nothing is handed
    /// over then.
    pub fn call_arguments(args: &Vec<JsValue>) -> (r: Result<Vec<EngineValue>, ExecutionError>)
        ensures
            match r {
                Ok(values) => {
                    &&& values@.len() == args@.len()
                    &&& forall|i: int|
                        0 <= i < args@.len() ==> serialized(args@[i]@) == Ok::<
                            EngineModel,
                            ValueErrorModel,
                        >(#[trigger] values@[i]@)
                },
                Err(e) => exists|i: int|
                    {
                        &&& 0 <= i < args@.len()
                        &&& #[trigger] serialized(args@[i]@) is Err
                        &&& e@ == ExecutionErrorModel::Conversion(serialized(args@[i]@)->Err_0)
                        &&& forall|j: int| 0 <= j < i ==> (#[trigger] serialized(args@[j]@)) is Ok
                    },
            },
    {
        let mut values: Vec<EngineValue> = Vec::new();
        let mut i: usize = 0;
        while i < args.len()
            invariant
                i <= args@.len(),
                values@.len() == i,
                forall|k: int|
                    0 <= k < i ==> serialized(args@[k]@) == Ok::<EngineModel, ValueErrorModel>(
                        #[trigger] values@[k]@,
                    ),
            decreases args@.len() - i,
        {
            match serialize_value(&args[i]) {
                Ok(value) => {
                    values.push(value);
                },
                Err(e) => {
                    assert(serialized(args@[i as int]@) == Err::<EngineModel, ValueErrorModel>(
                        e@,
                    ));
                    assert forall|j: int| 0 <= j < i implies (#[trigger] serialized(
                        args@[j]@,
                    )) is Ok by {
                        assert(serialized(args@[j]@) == Ok::<EngineModel, ValueErrorModel>(
                            values@[j]@,
                        ));
                    }
                    return Err(ExecutionError::Conversion(e));
                },
            }
            i += 1;
        }
        Ok(values)
    }

    /// The host value of a result that has settled.
    pub fn eval_result(value: &EngineValue) -> (r: Result<JsValue, ExecutionError>)
        ensures
            match r {
                Ok(v) => deserialized(value@) == Ok::<ValueModel, ValueErrorModel>(v@),
                Err(e) => deserialized(value@) is Err && e@ == ExecutionErrorModel::Conversion(
                    deserialized(value@)->Err_0,
                ),
            },
    {
        match deserialize_value(value) {
            Ok(v) => Ok(v),
            Err(e) => Err(ExecutionError::Conversion(e)),
        }
    }

    /// Whether a global can be called as a function: it must be an object.
    pub fn callable(function_name: &str, function: RawValue) -> (r: Result<(), ExecutionError>)
        ensures
            match r {
                Ok(_) => function.tag == TAG_OBJECT,
                Err(e) => function.tag != TAG_OBJECT && e@ == ExecutionErrorModel::Internal(
                    missing_function_text(function_name@),
                ),
            },
    {
        if function.tag != TAG_OBJECT {
            Err(Context::missing_function(function_name))
        } else {
            Ok(())
        }
    }

    /// The error for a global function that is not there, or is no object.
    pub fn missing_function(function_name: &str) -> (e: ExecutionError)
        ensures
            e@ == ExecutionErrorModel::Internal(missing_function_text(function_name@)),
    {
        let mut msg = String::from_str("Could not find function '");
        msg.append(function_name);
        msg.append("' in global scope: does not exist, or not an object");
        ExecutionError::Internal(msg)
    }
}

} // verus!
