//! Classification of engine values by their tag.
use vstd::prelude::*;

verus! {

pub const TAG_BIG_DECIMAL: i64 = -11;

pub const TAG_BIG_INT: i64 = -10;

pub const TAG_BIG_FLOAT: i64 = -9;

pub const TAG_SYMBOL: i64 = -8;

pub const TAG_STRING: i64 = -7;

pub const TAG_MODULE: i64 = -3;

pub const TAG_FUNCTION_BYTECODE: i64 = -2;

pub const TAG_OBJECT: i64 = -1;

pub const TAG_INT: i64 = 0;

pub const TAG_BOOL: i64 = 1;

pub const TAG_NULL: i64 = 2;

pub const TAG_UNDEFINED: i64 = 3;

pub const TAG_UNINITIALIZED: i64 = 4;

pub const TAG_CATCH_OFFSET: i64 = 5;

pub const TAG_EXCEPTION: i64 = 6;

pub const TAG_FLOAT64: i64 = 7;

/// The kind of an engine value, as told by its tag.
#[derive(PartialEq, Eq, Clone, Copy, Debug, Structural)]
pub enum JsTag {
    Int,
    Bool,
    Null,
    Module,
    Object,
    String,
    Symbol,
    BigInt,
    Float64,
    BigFloat,
    Exception,
    Undefined,
    BigDecimal,
    CatchOffset,
    Uninitialized,
    FunctionBytecode,
}

/// The number the engine uses for a tag.
pub open spec fn tag_number(tag: JsTag) -> int {
    match tag {
        JsTag::Int => 0,
        JsTag::Bool => 1,
        JsTag::Null => 2,
        JsTag::Module => -3,
        JsTag::Object => -1,
        JsTag::String => -7,
        JsTag::Symbol => -8,
        JsTag::BigInt => -10,
        JsTag::Float64 => 7,
        JsTag::BigFloat => -9,
        JsTag::Exception => 6,
        JsTag::Undefined => 3,
        JsTag::BigDecimal => -11,
        JsTag::CatchOffset => 5,
        JsTag::Uninitialized => 4,
        JsTag::FunctionBytecode => -2,
    }
}

/// Whether a number is the number of some tag.
pub open spec fn is_tag_number(raw: int) -> bool {
    exists|tag: JsTag| tag_number(tag) == raw
}

/// Values with a tag number below zero live on the engine's heap and are
/// reference counted; all others are plain scalars that are copied.
pub open spec fn is_ref_counted_number(raw: int) -> bool {
    raw < 0
}

/// Whether a raw tag number marks a reference-counted value.
pub fn tag_is_ref_counted(raw: i64) -> (counted: bool)
    ensures
        counted == is_ref_counted_number(raw as int),
{
    raw < 0
}

impl JsTag {
    /// The tag with the given number, if there is one.
    pub fn from_raw(raw: i64) -> (tag: Option<JsTag>)
        ensures
            match tag {
                Some(t) => tag_number(t) == raw,
                None => !is_tag_number(raw as int),
            },
    {
        if raw == TAG_INT {
            Some(JsTag::Int)
        } else if raw == TAG_BOOL {
            Some(JsTag::Bool)
        } else if raw == TAG_NULL {
            Some(JsTag::Null)
        } else if raw == TAG_MODULE {
            Some(JsTag::Module)
        } else if raw == TAG_OBJECT {
            Some(JsTag::Object)
        } else if raw == TAG_STRING {
            Some(JsTag::String)
        } else if raw == TAG_SYMBOL {
            Some(JsTag::Symbol)
        } else if raw == TAG_FLOAT64 {
            Some(JsTag::Float64)
        } else if raw == TAG_BIG_FLOAT {
            Some(JsTag::BigFloat)
        } else if raw == TAG_EXCEPTION {
            Some(JsTag::Exception)
        } else if raw == TAG_UNDEFINED {
            Some(JsTag::Undefined)
        } else if raw == TAG_BIG_DECIMAL {
            Some(JsTag::BigDecimal)
        } else if raw == TAG_CATCH_OFFSET {
            Some(JsTag::CatchOffset)
        } else if raw == TAG_UNINITIALIZED {
            Some(JsTag::Uninitialized)
        } else if raw == TAG_FUNCTION_BYTECODE {
            Some(JsTag::FunctionBytecode)
        } else if raw == TAG_BIG_INT {
            Some(JsTag::BigInt)
        } else {
            assert forall|t: JsTag| tag_number(t) != raw by {}
            None
        }
    }

    /// The tag with the given number. The number must be one the engine uses.
    pub fn from_c(raw: i64) -> (tag: JsTag)
        requires
            is_tag_number(raw as int),
        ensures
            tag_number(tag) == raw,
    {
        match JsTag::from_raw(raw) {
            Some(tag) => tag,
            None => JsTag::Uninitialized,
        }
    }

    /// The number the engine uses for this tag.
    pub fn to_c(self) -> (raw: i64)
        ensures
            raw == tag_number(self),
    {
        match self {
            JsTag::Int => TAG_INT,
            JsTag::Bool => TAG_BOOL,
            JsTag::Null => TAG_NULL,
            JsTag::Module => TAG_MODULE,
            JsTag::Object => TAG_OBJECT,
            JsTag::String => TAG_STRING,
            JsTag::Symbol => TAG_SYMBOL,
            JsTag::Float64 => TAG_FLOAT64,
            JsTag::BigFloat => TAG_BIG_FLOAT,
            JsTag::Exception => TAG_EXCEPTION,
            JsTag::Undefined => TAG_UNDEFINED,
            JsTag::BigDecimal => TAG_BIG_DECIMAL,
            JsTag::CatchOffset => TAG_CATCH_OFFSET,
            JsTag::Uninitialized => TAG_UNINITIALIZED,
            JsTag::FunctionBytecode => TAG_FUNCTION_BYTECODE,
            JsTag::BigInt => TAG_BIG_INT,
        }
    }

    /// Whether values with this tag are reference counted.
    pub fn is_ref_counted(&self) -> (counted: bool)
        ensures
            counted == is_ref_counted_number(tag_number(*self)),
            counted == (*self is Module || *self is Object || *self is String || *self is Symbol
                || *self is BigInt || *self is BigFloat || *self is BigDecimal
                || *self is FunctionBytecode),
    {
        self.to_c() < 0
    }

    /// Returns `true` if the tag is `Undefined`.
    pub fn is_undefined(&self) -> (b: bool)
        ensures
            b == (*self == JsTag::Undefined),
    {
        matches!(self, JsTag::Undefined)
    }

    /// Returns `true` if the tag is `Object`.
    pub fn is_object(&self) -> (b: bool)
        ensures
            b == (*self == JsTag::Object),
    {
        matches!(self, JsTag::Object)
    }

    /// Returns `true` if the tag is `Exception`.
    pub fn is_exception(&self) -> (b: bool)
        ensures
            b == (*self == JsTag::Exception),
    {
        matches!(self, JsTag::Exception)
    }

    /// Returns `true` if the tag is `Int`.
    pub fn is_int(&self) -> (b: bool)
        ensures
            b == (*self == JsTag::Int),
    {
        matches!(self, JsTag::Int)
    }

    /// Returns `true` if the tag is `Bool`.
    pub fn is_bool(&self) -> (b: bool)
        ensures
            b == (*self == JsTag::Bool),
    {
        matches!(self, JsTag::Bool)
    }

    /// Returns `true` if the tag is `Null`.
    pub fn is_null(&self) -> (b: bool)
        ensures
            b == (*self == JsTag::Null),
    {
        matches!(self, JsTag::Null)
    }

    /// Returns `true` if the tag is `Module`.
    pub fn is_module(&self) -> (b: bool)
        ensures
            b == (*self == JsTag::Module),
    {
        matches!(self, JsTag::Module)
    }

    /// Returns `true` if the tag is `String`.
    pub fn is_string(&self) -> (b: bool)
        ensures
            b == (*self == JsTag::String),
    {
        matches!(self, JsTag::String)
    }

    /// Returns `true` if the tag is `Symbol`.
    pub fn is_symbol(&self) -> (b: bool)
        ensures
            b == (*self == JsTag::Symbol),
    {
        matches!(self, JsTag::Symbol)
    }

    /// Returns `true` if the tag is `BigInt`.
    pub fn is_big_int(&self) -> (b: bool)
        ensures
            b == (*self == JsTag::BigInt),
    {
        matches!(self, JsTag::BigInt)
    }

    /// Returns `true` if the tag is `Float64`.
    pub fn is_float64(&self) -> (b: bool)
        ensures
            b == (*self == JsTag::Float64),
    {
        matches!(self, JsTag::Float64)
    }

    /// Returns `true` if the tag is `BigFloat`.
    pub fn is_big_float(&self) -> (b: bool)
        ensures
            b == (*self == JsTag::BigFloat),
    {
        matches!(self, JsTag::BigFloat)
    }

    /// Returns `true` if the tag is `BigDecimal`.
    pub fn is_big_decimal(&self) -> (b: bool)
        ensures
            b == (*self == JsTag::BigDecimal),
    {
        matches!(self, JsTag::BigDecimal)
    }
}

/// Turning a tag into its number and back gives the tag again, and no two tags
/// share a number.
pub proof fn lemma_tag_number_injective(a: JsTag, b: JsTag)
    ensures
        tag_number(a) == tag_number(b) <==> a == b,
        is_tag_number(tag_number(a)),
{
}

} // verus!
