//! Evaluation of expressions at compile time: the values of variables,
//! and the arithmetic of binary operators.
use vstd::prelude::*;

use crate::comp::memory::{Bound, Memoryblock};
use crate::comp::types::{BoundBinaryOperator, BoundId, TypeId, Value};
use crate::comp::typing::{has_size, size_in, Type, Types};
use crate::memory::{le16, le32};
use crate::comp::variables::VariableId;

verus! {

/// The value of variable `v` in the list of assignments `variables`.
pub open spec fn value_of(variables: Seq<(VariableId, Value)>, v: VariableId) -> Option<Value> {
    if exists|k: int| 0 <= k < variables.len() && #[trigger] variables[k].0 == v {
        Some(variables[choose|k: int| 0 <= k < variables.len() && #[trigger] variables[k].0 == v].1)
    } else {
        None
    }
}

/// The values of the variables known so far.
pub struct ConstEvaluator {
    pub variables: Vec<(VariableId, Value)>,
}

impl ConstEvaluator {
    /// No variable is assigned twice.
    pub open spec fn wf(&self) -> bool {
        forall|i: int, j: int|
            0 <= i < j < self.variables@.len() ==> #[trigger] self.variables@[i].0 != #[trigger] self.variables@[j].0
    }

    /// The value of `v`.
    pub open spec fn value(&self, v: VariableId) -> Option<Value> {
        value_of(self.variables@, v)
    }

    pub fn new() -> (r: ConstEvaluator)
        ensures
            r.wf(),
            forall|v: VariableId| #[trigger] r.value(v) is None,
    {
        ConstEvaluator { variables: Vec::new() }
    }

    /// Gives `variable` the value `value`.
    pub fn assign_variable(&mut self, variable: VariableId, value: Value)
        requires
            old(self).wf(),
        ensures
            final(self).wf(),
            forall|v: VariableId| #[trigger] final(self).value(v) == if v == variable {
                Some(value)
            } else {
                old(self).value(v)
            },
    {
        let ghost before = self.variables@;
        let mut k: usize = 0;
        while k < self.variables.len()
            invariant
                k <= self.variables@.len(),
                self.variables@ == before,
                before == old(self).variables@,
                self.wf(),
                forall|j: int| 0 <= j < k ==> #[trigger] self.variables@[j].0 != variable,
            decreases self.variables@.len() - k,
        {
            if self.variables[k].0 == variable {
                self.variables.set(k, (variable, value));
                proof {
                    assert(self.variables@ == before.update(k as int, (variable, value)));
                    assert forall|i: int, j: int| 0 <= i < j < self.variables@.len() implies #[trigger] self.variables@[i].0
                        != #[trigger] self.variables@[j].0 by {
                        assert(self.variables@[i].0 == before[i].0);
                        assert(self.variables@[j].0 == before[j].0);
                        assert(before[i].0 != before[j].0);
                    }
                    assert forall|v: VariableId| #[trigger] self.value(v) == if v == variable {
                        Some(value)
                    } else {
                        value_of(before, v)
                    } by {
                        lemma_value_at(self.variables@, k as int);
                        if v != variable && exists|j: int| 0 <= j < before.len() && #[trigger] before[j].0 == v {
                            let j = choose|j: int| 0 <= j < before.len() && #[trigger] before[j].0 == v;
                            lemma_value_at(before, j);
                            assert(self.variables@[j] == before[j]);
                            lemma_value_at(self.variables@, j);
                        } else if v != variable {
                            assert forall|j: int| 0 <= j < self.variables@.len() implies #[trigger] self.variables@[j].0 != v by {
                                assert(self.variables@[j].0 == before[j].0);
                            }
                        }
                    }
                }
                return;
            }
            k = k + 1;
        }
        self.variables.push((variable, value));
        proof {
            let last = (self.variables@.len() - 1) as int;
            assert forall|i: int, j: int| 0 <= i < j < self.variables@.len() implies #[trigger] self.variables@[i].0
                != #[trigger] self.variables@[j].0 by {
                assert(self.variables@[i] == before[i]);
                if j < last {
                    assert(self.variables@[j] == before[j]);
                }
            }
            assert forall|v: VariableId| #[trigger] self.value(v) == if v == variable {
                Some(value)
            } else {
                value_of(before, v)
            } by {
                if v == variable {
                    lemma_value_at(self.variables@, last);
                } else if exists|j: int| 0 <= j < before.len() && #[trigger] before[j].0 == v {
                    let j = choose|j: int| 0 <= j < before.len() && #[trigger] before[j].0 == v;
                    lemma_value_at(before, j);
                    assert(self.variables@[j] == before[j]);
                    lemma_value_at(self.variables@, j);
                } else {
                    assert forall|j: int| 0 <= j < self.variables@.len() implies #[trigger] self.variables@[j].0 != v by {
                        if j < last {
                            assert(self.variables@[j] == before[j]);
                        }
                    }
                }
            }
        }
    }

    /// The value of `identifier`, if it has one.
    pub fn read(&self, identifier: VariableId) -> (r: Option<Value>)
        requires
            self.wf(),
        ensures
            r == self.value(identifier),
    {
        let mut k: usize = 0;
        while k < self.variables.len()
            invariant
                k <= self.variables@.len(),
                self.wf(),
                forall|j: int| 0 <= j < k ==> #[trigger] self.variables@[j].0 != identifier,
            decreases self.variables@.len() - k,
        {
            if self.variables[k].0 == identifier {
                proof {
                    lemma_value_at(self.variables@, k as int);
                }
                return Some(self.variables[k].1);
            }
            k = k + 1;
        }
        None
    }
}

/// In a list without repeated variables, the value of a variable is the
/// one at the index that holds it.
proof fn lemma_value_at(variables: Seq<(VariableId, Value)>, k: int)
    requires
        forall|i: int, j: int|
            0 <= i < j < variables.len() ==> #[trigger] variables[i].0 != #[trigger] variables[j].0,
        0 <= k < variables.len(),
    ensures
        value_of(variables, variables[k].0) == Some(variables[k].1),
{
    let v = variables[k].0;
    let c = choose|c: int| 0 <= c < variables.len() && #[trigger] variables[c].0 == v;
    if c < k {
        assert(variables[c].0 != variables[k].0);
    } else if k < c {
        assert(variables[k].0 != variables[c].0);
    }
}

/// The result of `op` on `a` and `b` in an unsigned type with `range`
/// values: sums, differences and products wrap around, quotients and
/// remainders are exact.
pub open spec fn wrapped(op: BoundBinaryOperator, a: int, b: int, range: int) -> int {
    match op {
        BoundBinaryOperator::Addition => (a + b) % range,
        BoundBinaryOperator::Subtraction => (a - b + range) % range,
        BoundBinaryOperator::Multiplication => (a * b) % range,
        BoundBinaryOperator::Division => a / b,
        BoundBinaryOperator::Modulo => a % b,
    }
}

/// The value of `lhs op rhs`, the operands being of the types `lhs_type`
/// and `rhs_type`: an error when either is one; for two operands of the
/// same unsigned type, the result in that type; none when a value is not
/// of its operand's type.
pub open spec fn binary_result(
    op: BoundBinaryOperator,
    lhs_type: TypeId,
    rhs_type: TypeId,
    lhs: Value,
    rhs: Value,
) -> Option<Value> {
    if lhs is Error || rhs is Error {
        Some(Value::Error)
    } else if lhs_type == TypeId(7) && rhs_type == TypeId(7) {
        match (lhs, rhs) {
            (Value::UnsignedInteger32(a), Value::UnsignedInteger32(b)) => Some(
                Value::UnsignedInteger32(wrapped(op, a as int, b as int, 0x1_0000_0000) as u32),
            ),
            _ => None,
        }
    } else if lhs_type == TypeId(6) && rhs_type == TypeId(6) {
        match (lhs, rhs) {
            (Value::UnsignedInteger16(a), Value::UnsignedInteger16(b)) => Some(
                Value::UnsignedInteger16(wrapped(op, a as int, b as int, 0x1_0000) as u16),
            ),
            _ => None,
        }
    } else {
        match (lhs, rhs) {
            (Value::UnsignedInteger8(a), Value::UnsignedInteger8(b)) => Some(
                Value::UnsignedInteger8(wrapped(op, a as int, b as int, 0x100) as u8),
            ),
            _ => None,
        }
    }
}

/// Whether `lhs op rhs` can be evaluated: the operands are of the same
/// unsigned type, and a divisor is not zero.
pub open spec fn can_evaluate_binary(
    op: BoundBinaryOperator,
    lhs_type: TypeId,
    rhs_type: TypeId,
    lhs: Value,
    rhs: Value,
) -> bool {
    lhs is Error || rhs is Error || ({
        &&& (lhs_type == TypeId(7) && rhs_type == TypeId(7)) || (lhs_type == TypeId(6) && rhs_type
            == TypeId(6)) || (lhs_type == TypeId(5) && rhs_type == TypeId(5))
        &&& (op is Division || op is Modulo) ==> match rhs {
            Value::UnsignedInteger32(b) => b != 0,
            Value::UnsignedInteger16(b) => b != 0,
            Value::UnsignedInteger8(b) => b != 0,
            _ => true,
        }
    })
}

/// The value of `lhs op rhs` for operands of the types `lhs_type` and
/// `rhs_type`: see `binary_result`.
pub fn evaluate_binary_values(
    op: BoundBinaryOperator,
    lhs_type: TypeId,
    rhs_type: TypeId,
    lhs: Value,
    rhs: Value,
) -> (r: Option<Value>)
    requires
        can_evaluate_binary(op, lhs_type, rhs_type, lhs, rhs),
    ensures
        r == binary_result(op, lhs_type, rhs_type, lhs, rhs),
{
    if lhs.is_error() || rhs.is_error() {
        return Some(Value::Error);
    }
    if lhs_type == TypeId(7) && rhs_type == TypeId(7) {
        match (lhs, rhs) {
            (Value::UnsignedInteger32(a), Value::UnsignedInteger32(b)) => {
                let v: u32 = match op {
                    BoundBinaryOperator::Addition => a.wrapping_add(b),
                    BoundBinaryOperator::Subtraction => a.wrapping_sub(b),
                    BoundBinaryOperator::Multiplication => a.wrapping_mul(b),
                    BoundBinaryOperator::Division => a / b,
                    BoundBinaryOperator::Modulo => a % b,
                };
                Some(Value::UnsignedInteger32(v))
            },
            _ => None,
        }
    } else if lhs_type == TypeId(6) && rhs_type == TypeId(6) {
        match (lhs, rhs) {
            (Value::UnsignedInteger16(a), Value::UnsignedInteger16(b)) => {
                let v: u16 = match op {
                    BoundBinaryOperator::Addition => a.wrapping_add(b),
                    BoundBinaryOperator::Subtraction => a.wrapping_sub(b),
                    BoundBinaryOperator::Multiplication => a.wrapping_mul(b),
                    BoundBinaryOperator::Division => a / b,
                    BoundBinaryOperator::Modulo => a % b,
                };
                Some(Value::UnsignedInteger16(v))
            },
            _ => None,
        }
    } else {
        match (lhs, rhs) {
            (Value::UnsignedInteger8(a), Value::UnsignedInteger8(b)) => {
                let v: u8 = match op {
                    BoundBinaryOperator::Addition => a.wrapping_add(b),
                    BoundBinaryOperator::Subtraction => a.wrapping_sub(b),
                    BoundBinaryOperator::Multiplication => a.wrapping_mul(b),
                    BoundBinaryOperator::Division => a / b,
                    BoundBinaryOperator::Modulo => a % b,
                };
                Some(Value::UnsignedInteger8(v))
            },
            _ => None,
        }
    }
}

/// The byte at `i` of `bytes`, zero past the end.
pub open spec fn byte_or_zero(bytes: Seq<u8>, i: int) -> u8 {
    if 0 <= i < bytes.len() {
        bytes[i]
    } else {
        0
    }
}

/// The little-endian word at `ptr`, zero past the end.
pub open spec fn word_at(bytes: Seq<u8>, ptr: int) -> u32 {
    le32(byte_or_zero(bytes, ptr), byte_or_zero(bytes, ptr + 1), byte_or_zero(bytes, ptr + 2), byte_or_zero(bytes, ptr + 3))
}

/// Whether a value of type `t` can be read back: its size is one, two or
/// four bytes, and it is a type whose values are stored that way.
pub open spec fn can_read_value(types: Seq<Type>, t: TypeId) -> bool {
    &&& has_size(types, t.0 as int)
    &&& {
        let size = size_in(types, t.0 as int);
        ||| size == 1 && (t.0 == 8 || t.0 == 5)
        ||| size == 2 && t.0 == 6
        ||| size == 4 && (t.0 == 4 || t.0 == 7 || types[t.0 as int] is Array || types[t.0 as int] is ArrayUnknownLength
            || types[t.0 as int] is Struct || types[t.0 as int] is FunctionType || types[t.0 as int] is Reference)
    }
}

/// The value of type `t` stored at `ptr`: a truth value is true when its
/// byte is one; integers are little-endian; arrays, structures and
/// references are pointers; functions are the nodes that define them.
pub open spec fn value_at(types: Seq<Type>, bytes: Seq<u8>, ptr: int, t: TypeId) -> Value {
    let size = size_in(types, t.0 as int);
    if size == 1 {
        if t.0 == 8 {
            Value::Bool(byte_or_zero(bytes, ptr) == 1)
        } else {
            Value::UnsignedInteger8(byte_or_zero(bytes, ptr))
        }
    } else if size == 2 {
        Value::UnsignedInteger16(le16(byte_or_zero(bytes, ptr), byte_or_zero(bytes, ptr + 1)))
    } else {
        let w = word_at(bytes, ptr);
        if t.0 == 7 {
            Value::UnsignedInteger32(w)
        } else if t.0 != 4 && types[t.0 as int] is FunctionType && !(types[t.0 as int] is Array || types[t.0 as int] is ArrayUnknownLength || types[t.0 as int] is Struct) {
            Value::CompileTimeFunction(BoundId(w as usize))
        } else {
            Value::Pointer(w as usize)
        }
    }
}

/// Reads the value of type `t` at `*wptr` and moves `*wptr` past it.
pub fn read_value(const_memory: &Memoryblock<Bound>, wptr: &mut usize, t: TypeId, types: &Types) -> (r: Value)
    requires
        types.wf(),
        t.0 < types.types@.len(),
        can_read_value(types.types@, t),
        *old(wptr) + 4 <= usize::MAX,
    ensures
        r == value_at(types.types@, const_memory.bytes(), *old(wptr) as int, t),
        *final(wptr) == *old(wptr) + size_in(types.types@, t.0 as int),
{
    let size = types.size_of(t);
    let ptr = *wptr;
    let value = if size == 1 {
        let mut buffer: [u8; 1] = [0];
        let _copied = const_memory.read(ptr, &mut buffer);
        let b = buffer[0];
        assert(b == byte_or_zero(const_memory.bytes(), ptr as int));
        if t.0 == 8 {
            Value::Bool(b == 1)
        } else {
            Value::UnsignedInteger8(b)
        }
    } else if size == 2 {
        let mut buffer: [u8; 2] = [0; 2];
        let _copied = const_memory.read(ptr, &mut buffer);
        assert(buffer@[0] == byte_or_zero(const_memory.bytes(), ptr as int));
        assert(buffer@[1] == byte_or_zero(const_memory.bytes(), ptr + 1));
        Value::UnsignedInteger16((buffer[0] as u16) | ((buffer[1] as u16) << 8u16))
    } else {
        let mut buffer: [u8; 4] = [0; 4];
        let _copied = const_memory.read(ptr, &mut buffer);
        assert(buffer@[0] == byte_or_zero(const_memory.bytes(), ptr as int));
        assert(buffer@[1] == byte_or_zero(const_memory.bytes(), ptr + 1));
        assert(buffer@[2] == byte_or_zero(const_memory.bytes(), ptr + 2));
        assert(buffer@[3] == byte_or_zero(const_memory.bytes(), ptr + 3));
        let w = (buffer[0] as u32) | ((buffer[1] as u32) << 8u32) | ((buffer[2] as u32) << 16u32) | ((buffer[3] as u32) << 24u32);
        if t.0 == 4 {
            Value::Pointer(w as usize)
        } else if t.0 == 7 {
            Value::UnsignedInteger32(w)
        } else if types.as_inner_array_type(t).is_some() || types.as_struct_type(t).is_some() {
            Value::Pointer(w as usize)
        } else if types.as_function_type(t).is_some() {
            Value::CompileTimeFunction(BoundId(w as usize))
        } else {
            Value::Pointer(w as usize)
        }
    };
    *wptr = ptr + size;
    value
}

} // verus!
