//! Identifiers of types and bound nodes, compile-time values, and the
//! binary operators of expressions.
use vstd::prelude::*;

verus! {

/// The index of a type in the type table; the first nine are the error,
/// unknown, void, type, pointer, u8, u16, u32 and bool types.
#[derive(Debug, Clone, Copy, PartialEq, Eq, Hash, Structural)]
pub struct TypeId(pub usize);


impl TypeId {
    pub fn from_raw(t: usize) -> (r: TypeId)
        ensures
            r.0 == t,
    {
        TypeId(t)
    }
}

/// The index of a node of the bound tree.
#[derive(Debug, Clone, Copy, PartialEq, Eq, Structural)]
pub struct BoundId(pub usize);

/// A value known at compile time.
#[derive(Debug, Clone, Copy, PartialEq, Eq, Structural)]
pub enum Value {
    Error,
    UnsignedInteger8(u8),
    UnsignedInteger16(u16),
    UnsignedInteger32(u32),
    Bool(bool),
    Pointer(usize),
    CompileTimeFunction(BoundId),
    DependentOn(BoundId),
    Type(TypeId),
}

impl Value {
    pub fn as_u32(&self) -> (r: Option<u32>)
        ensures
            r == match *self {
                Value::UnsignedInteger32(i) => Some(i),
                _ => None,
            },
    {
        match self {
            Value::UnsignedInteger32(i) => Some(*i),
            _ => None,
        }
    }

    pub fn as_bound_id(&self) -> (r: Option<BoundId>)
        ensures
            r == match *self {
                Value::CompileTimeFunction(i) | Value::DependentOn(i) => Some(i),
                _ => None,
            },
    {
        match self {
            Value::CompileTimeFunction(i) | Value::DependentOn(i) => Some(*i),
            _ => None,
        }
    }

    /// The value of an unsigned integer, widened.
    pub fn as_usize(&self) -> (r: Option<usize>)
        ensures
            r == match *self {
                Value::UnsignedInteger8(i) => Some(i as usize),
                Value::UnsignedInteger16(i) => Some(i as usize),
                Value::UnsignedInteger32(i) => Some(i as usize),
                _ => None,
            },
    {
        match self {
            Value::UnsignedInteger8(i) => Some(*i as usize),
            Value::UnsignedInteger16(i) => Some(*i as usize),
            Value::UnsignedInteger32(i) => Some(*i as usize),
            _ => None,
        }
    }

    pub fn is_error(&self) -> (r: bool)
        ensures
            r == (*self is Error),
    {
        matches!(self, Value::Error)
    }

    /// The number of bytes the value takes in memory.
    pub fn size(&self) -> (r: usize)
        ensures
            r == match *self {
                Value::UnsignedInteger8(_) | Value::Bool(_) => 1usize,
                Value::UnsignedInteger16(_) => 2usize,
                Value::UnsignedInteger32(_) | Value::Pointer(_) => 4usize,
                _ => 0usize,
            },
    {
        match self {
            Value::Error => 0,
            Value::UnsignedInteger8(_) => 1,
            Value::UnsignedInteger16(_) => 2,
            Value::UnsignedInteger32(_) => 4,
            Value::Bool(_) => 1,
            Value::Pointer(_) => 4,
            Value::CompileTimeFunction(_) => 0,
            Value::DependentOn(_) => 0,
            Value::Type(_) => 0,
        }
    }

    pub fn as_type(&self) -> (r: Option<TypeId>)
        ensures
            r == match *self {
                Value::Type(t) => Some(t),
                _ => None,
            },
    {
        match self {
            Value::Type(it) => Some(*it),
            _ => None,
        }
    }

    pub fn as_ptr(&self) -> (r: Option<usize>)
        ensures
            r == match *self {
                Value::Pointer(p) => Some(p),
                _ => None,
            },
    {
        match self {
            Value::Pointer(it) => Some(*it),
            _ => None,
        }
    }
}

/// How a value may be turned into one of another type.
#[derive(Debug, Clone, Copy, PartialEq, Eq, Structural)]
pub enum ConversionKind {
    Implicit,
    Instantiation,
}

/// An arithmetic operator between two expressions.
#[derive(Debug, Clone, Copy, PartialEq, Eq, Structural)]
pub enum BoundBinaryOperator {
    Addition,
    Subtraction,
    Multiplication,
    Division,
    Modulo,
}

/// The verb that names an operator in diagnostics.
pub open spec fn operator_verb(op: BoundBinaryOperator) -> Seq<char> {
    match op {
        BoundBinaryOperator::Addition => "add"@,
        BoundBinaryOperator::Subtraction => "subtract"@,
        BoundBinaryOperator::Multiplication => "multiply"@,
        BoundBinaryOperator::Division => "divide"@,
        BoundBinaryOperator::Modulo => "take the remainder"@,
    }
}

impl BoundBinaryOperator {
    pub fn diagnostic_name(&self) -> (r: &'static str)
        ensures
            r@ == operator_verb(*self),
    {
        match self {
            BoundBinaryOperator::Addition => "add",
            BoundBinaryOperator::Subtraction => "subtract",
            BoundBinaryOperator::Multiplication => "multiply",
            BoundBinaryOperator::Division => "divide",
            BoundBinaryOperator::Modulo => "take the remainder",
        }
    }
}

/// The pattern of a match arm.
#[derive(Debug, Clone, Copy, PartialEq, Eq, Structural)]
pub enum Pattern {
    Error,
    Ignore,
    Constant(Value),
}

impl Pattern {
    /// Whether a value matches: the error pattern matches nothing, the
    /// ignore pattern everything, a constant only itself.
    pub fn matches(&self, expression: Value) -> (r: bool)
        ensures
            r == match *self {
                Pattern::Error => false,
                Pattern::Ignore => true,
                Pattern::Constant(v) => v == expression,
            },
    {
        match self {
            Pattern::Error => false,
            Pattern::Ignore => true,
            Pattern::Constant(value) => *value == expression,
        }
    }
}

} // verus!
