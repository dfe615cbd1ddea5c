//! A typed bridge between host code and an embedded script engine.
//!
//! The engine itself is a collaborator that lives outside this crate. What is
//! here is everything the bridge decides: how engine values are classified,
//! how host values are converted in both directions, how reference counts are
//! kept balanced, how host callbacks are checked and answered, how a promise
//! is driven to completion and how timers are kept.
pub mod bigint;
pub mod builder;
pub mod callback;
pub mod console;
pub mod context;
pub mod decimal;
pub mod droppable_value;
pub mod engine;
pub mod errors;
pub mod marshal;
pub mod module_loader;
pub mod object;
pub mod owned_value_ref;
pub mod plan;
pub mod promise;
pub mod ser;
pub mod tag;
pub mod timers;
pub mod value;

pub use crate::bigint::JsBigInt;
pub use crate::callback::{Arguments, Callback};
pub use crate::context::{Context, ContextBuilder};
pub use crate::errors::{ContextError, ExecutionError};
pub use crate::value::{JsValue, Property, ValueError};
