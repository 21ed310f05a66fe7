//! Names, extents and signatures of the functions of a program.
use vstd::prelude::*;
use vstd::string::StringExecFns;

use crate::hex::{hex_digits, hex_string};
use crate::registers::RegisterIndex;

verus! {

/// The instruction set a function is written in.
#[derive(Debug, Clone, Copy, PartialEq, Eq, Structural)]
pub enum ArmMode {
    Arm,
    Thumb,
    ThumbToArm,
}

/// Where a parameter is passed.
#[derive(Debug, Clone, PartialEq, Eq)]
pub enum Location {
    Register(RegisterIndex),
    Memory(RegisterIndex, i32),
}

/// The type of a parameter.
#[derive(Debug, PartialEq, Eq)]
pub enum Type {
    Symbol(String),
    Pointer(Box<Type>),
    I16,
    U32,
    U16,
    U8,
    D16,
    Bool,
}

/// How a type is written: a symbol by its name, a pointer as its target
/// followed by `*`, the others by their lower-case names.
pub open spec fn type_text(t: Type) -> Seq<char>
    decreases t,
{
    match t {
        Type::Symbol(s) => s@,
        Type::Pointer(target) => type_text(*target) + "*"@,
        Type::I16 => "i16"@,
        Type::U32 => "u32"@,
        Type::U16 => "u16"@,
        Type::U8 => "u8"@,
        Type::D16 => "d16"@,
        Type::Bool => "bool"@,
    }
}

impl Type {
    /// The type as it is written.
    pub fn to_string(&self) -> (r: String)
        ensures
            r@ == type_text(*self),
        decreases *self,
    {
        match self {
            Type::Symbol(s) => s.clone(),
            Type::Pointer(target) => {
                let mut r = target.to_string();
                r.append("*");
                r
            },
            Type::I16 => String::from_str("i16"),
            Type::U32 => String::from_str("u32"),
            Type::U16 => String::from_str("u16"),
            Type::U8 => String::from_str("u8"),
            Type::D16 => String::from_str("d16"),
            Type::Bool => String::from_str("bool"),
        }
    }
}

/// A named, typed parameter or return value.
#[derive(Debug, PartialEq, Eq)]
pub struct Parameter {
    pub location: Location,
    pub name: String,
    pub type_: Type,
}

/// A function occupying the addresses from `start` up to `end`.
#[derive(Debug, PartialEq, Eq)]
pub struct Function {
    pub name: Option<String>,
    pub start: u32,
    pub end: u32,
    pub mode: ArmMode,
    pub params: Vec<Parameter>,
    pub return_params: Vec<Parameter>,
}

/// The name shown for a function: its own, else `unknown_` and its start
/// address in at least four hexadecimal digits.
pub open spec fn function_name(f: Function) -> Seq<char> {
    match f.name {
        Some(n) => n@,
        None => "unknown_"@ + hex_digits(f.start as nat, 4),
    }
}

/// Whether function `f` is called `name`.
pub open spec fn has_name(f: Function, name: Seq<char>) -> bool {
    f.name matches Some(n) && n@ == name
}

/// Whether `address` lies in function `f`.
pub open spec fn covers(f: Function, address: u32) -> bool {
    f.start <= address < f.end
}

impl Function {
    /// The name of the function, or one made from its start address.
    pub fn name(&self) -> (r: String)
        ensures
            r@ == function_name(*self),
    {
        match &self.name {
            Some(n) => n.clone(),
            None => {
                let mut r = String::from_str("unknown_");
                let digits = hex_string(self.start, 4);
                r.append(digits.as_str());
                r
            },
        }
    }

    /// Whether `address` lies in the function.
    pub fn covers_address(&self, address: u32) -> (r: bool)
        ensures
            r == covers(*self, address),
    {
        self.start <= address && address < self.end
    }
}

/// The functions of a program.
#[derive(Debug, PartialEq, Eq)]
pub struct DebugSymbols {
    pub functions: Vec<Function>,
}

impl DebugSymbols {
    /// The first function that covers `address`.
    pub fn find_function_for_address(&self, address: u32) -> (r: Option<&Function>)
        ensures
            match r {
                Some(f) => exists|k: int|
                    0 <= k < self.functions@.len() && *f == self.functions@[k] && covers(
                        self.functions@[k],
                        address,
                    ) && forall|j: int|
                        0 <= j < k ==> !covers(#[trigger] self.functions@[j], address),
                None => forall|j: int|
                    0 <= j < self.functions@.len() ==> !covers(#[trigger] self.functions@[j], address),
            },
    {
        let mut i: usize = 0;
        while i < self.functions.len()
            invariant
                i <= self.functions@.len(),
                forall|j: int| 0 <= j < i ==> !covers(#[trigger] self.functions@[j], address),
            decreases self.functions@.len() - i,
        {
            if self.functions[i].covers_address(address) {
                return Some(&self.functions[i]);
            }
            i = i + 1;
        }
        None
    }
}

/// The index of the first of `functions`, from `from` on, that covers
/// `address`.
pub open spec fn first_covering_function(functions: Seq<Function>, address: u32, from: int) -> Option<int>
    decreases functions.len() - from,
{
    if from < 0 || from >= functions.len() {
        None
    } else if covers(functions[from], address) {
        Some(from)
    } else {
        first_covering_function(functions, address, from + 1)
    }
}

impl DebugSymbols {
    /// The index of the first function that covers `address`.
    pub fn find_function_index_for_address(&self, address: u32) -> (r: Option<usize>)
        ensures
            match r {
                Some(i) => first_covering_function(self.functions@, address, 0) == Some(i as int) && i
                    < self.functions@.len(),
                None => first_covering_function(self.functions@, address, 0) is None,
            },
    {
        let mut i: usize = 0;
        while i < self.functions.len()
            invariant
                i <= self.functions@.len(),
                first_covering_function(self.functions@, address, 0) == first_covering_function(
                    self.functions@,
                    address,
                    i as int,
                ),
            decreases self.functions@.len() - i,
        {
            if self.functions[i].covers_address(address) {
                return Some(i);
            }
            i = i + 1;
        }
        None
    }
}

} // verus!
