//! The types of the language, the table that names them by index, and the
//! conversions between them.
use vstd::prelude::*;
use vstd::string::StringExecFns;

use crate::commands::{decimal_digits, decimal_string_usize};
use crate::comp::source::{Location, StringId, StringInterner};
use crate::comp::types::{BoundBinaryOperator, ConversionKind, TypeId};
use crate::comp::variables::VariableId;

verus! {

/// A type parameter of a generic function.
#[derive(Debug, Clone, Copy, PartialEq, Eq, Structural)]
pub struct GenericType {
    pub name: StringId,
    pub id: usize,
}

/// The type of a function.
#[derive(Debug)]
pub struct FunctionType {
    pub id: TypeId,
    pub identifier: StringId,
    pub parameters: Vec<VariableId>,
    pub parameter_types: Vec<TypeId>,
    pub return_type: TypeId,
}

/// Where the fields of a structure lie: its size and the offset of each
/// field name, no name twice.
#[derive(Debug)]
pub struct StructLayout {
    pub size: usize,
    pub offsets: Vec<(StringId, usize)>,
}

/// A structure: its name, its fields and their layout.
#[derive(Debug)]
pub struct StructType {
    pub identifier: VariableId,
    pub fields: Vec<(Location, StringId, TypeId)>,
    pub layout: StructLayout,
}

/// An enumeration: its name, its variants and their layout.
#[derive(Debug)]
pub struct EnumType {
    pub identifier: VariableId,
    pub variants: Vec<VariableId>,
    pub layout: StructLayout,
}

/// A type of the language.
#[derive(Debug)]
pub enum Type {
    Error,
    Unknown,
    Void,
    Type,
    Pointer,
    UnsignedInteger8,
    UnsignedInteger16,
    UnsignedInteger32,
    IntegerLiteral(usize),
    GenericType(GenericType),
    Bool,
    Array(TypeId, usize),
    ArrayUnknownLength(TypeId),
    FunctionType(FunctionType),
    Struct(StructType),
    Reference(TypeId),
    Enum(EnumType),
}

/// Whether two layouts hold the same size and the same offsets.
pub open spec fn same_layout(a: StructLayout, b: StructLayout) -> bool {
    &&& a.size == b.size
    &&& a.offsets@.len() == b.offsets@.len()
    &&& forall|i: int| 0 <= i < a.offsets@.len() ==> b.offsets@.contains(#[trigger] a.offsets@[i])
}

/// Whether two types are the same: function types with the same index, or
/// with the same name, parameters and result; other types with the same
/// contents.
pub open spec fn same_type(a: Type, b: Type) -> bool {
    match (a, b) {
        (Type::FunctionType(f), Type::FunctionType(g)) => f.id == g.id || (f.identifier
            == g.identifier && f.parameters@ == g.parameters@ && f.parameter_types@
            == g.parameter_types@ && f.return_type == g.return_type),
        (Type::Struct(s), Type::Struct(t)) => s.identifier == t.identifier && s.fields@ == t.fields@
            && same_layout(s.layout, t.layout),
        (Type::Enum(s), Type::Enum(t)) => s.identifier == t.identifier && s.variants@
            == t.variants@ && same_layout(s.layout, t.layout),
        (Type::FunctionType(_), _) | (Type::Struct(_), _) | (Type::Enum(_), _) => false,
        (_, Type::FunctionType(_)) | (_, Type::Struct(_)) | (_, Type::Enum(_)) => false,
        _ => a == b,
    }
}

fn same_offsets(a: &StructLayout, b: &StructLayout) -> (r: bool)
    ensures
        r == same_layout(*a, *b),
{
    if a.size != b.size || a.offsets.len() != b.offsets.len() {
        return false;
    }
    let mut i: usize = 0;
    while i < a.offsets.len()
        invariant
            i <= a.offsets@.len(),
            forall|k: int| 0 <= k < i ==> b.offsets@.contains(#[trigger] a.offsets@[k]),
        decreases a.offsets@.len() - i,
    {
        let mut j: usize = 0;
        let mut found = false;
        while j < b.offsets.len()
            invariant
                j <= b.offsets@.len(),
                i < a.offsets@.len(),
                found ==> b.offsets@.contains(a.offsets@[i as int]),
                !found ==> forall|k: int| 0 <= k < j ==> b.offsets@[k] != a.offsets@[i as int],
            decreases b.offsets@.len() - j,
        {
            if b.offsets[j].0 == a.offsets[i].0 && b.offsets[j].1 == a.offsets[i].1 {
                found = true;
            }
            j = j + 1;
        }
        if !found {
            assert(!b.offsets@.contains(a.offsets@[i as int]));
            return false;
        }
        i = i + 1;
    }
    true
}

fn same_variables(a: &Vec<VariableId>, b: &Vec<VariableId>) -> (r: bool)
    ensures
        r == (a@ == b@),
{
    if a.len() != b.len() {
        return false;
    }
    let mut i: usize = 0;
    while i < a.len()
        invariant
            i <= a@.len(),
            a@.len() == b@.len(),
            forall|k: int| 0 <= k < i ==> a@[k] == b@[k],
        decreases a@.len() - i,
    {
        if !(a[i] == b[i]) {
            return false;
        }
        i = i + 1;
    }
    assert(a@ =~= b@);
    true
}

fn same_type_ids(a: &Vec<TypeId>, b: &Vec<TypeId>) -> (r: bool)
    ensures
        r == (a@ == b@),
{
    if a.len() != b.len() {
        return false;
    }
    let mut i: usize = 0;
    while i < a.len()
        invariant
            i <= a@.len(),
            a@.len() == b@.len(),
            forall|k: int| 0 <= k < i ==> a@[k] == b@[k],
        decreases a@.len() - i,
    {
        if !(a[i] == b[i]) {
            return false;
        }
        i = i + 1;
    }
    assert(a@ =~= b@);
    true
}

fn same_fields(a: &Vec<(Location, StringId, TypeId)>, b: &Vec<(Location, StringId, TypeId)>) -> (r: bool)
    ensures
        r == (a@ == b@),
{
    if a.len() != b.len() {
        return false;
    }
    let mut i: usize = 0;
    while i < a.len()
        invariant
            i <= a@.len(),
            a@.len() == b@.len(),
            forall|k: int| 0 <= k < i ==> a@[k] == b@[k],
        decreases a@.len() - i,
    {
        if !(a[i].0 == b[i].0 && a[i].1 == b[i].1 && a[i].2 == b[i].2) {
            return false;
        }
        i = i + 1;
    }
    assert(a@ =~= b@);
    true
}

/// Whether two types are the same: see `same_type`.
pub fn types_equal(a: &Type, b: &Type) -> (r: bool)
    ensures
        r == same_type(*a, *b),
{
    match (a, b) {
        (Type::FunctionType(f), Type::FunctionType(g)) => f.id == g.id || (f.identifier
            == g.identifier && same_variables(&f.parameters, &g.parameters) && same_type_ids(
            &f.parameter_types,
            &g.parameter_types,
        ) && f.return_type == g.return_type),
        (Type::Struct(s), Type::Struct(t)) => s.identifier == t.identifier && same_fields(
            &s.fields,
            &t.fields,
        ) && same_offsets(&s.layout, &t.layout),
        (Type::Enum(s), Type::Enum(t)) => s.identifier == t.identifier && same_variables(
            &s.variants,
            &t.variants,
        ) && same_offsets(&s.layout, &t.layout),
        (Type::FunctionType(_), _) | (Type::Struct(_), _) | (Type::Enum(_), _) => false,
        (_, Type::FunctionType(_)) | (_, Type::Struct(_)) | (_, Type::Enum(_)) => false,
        (Type::Error, Type::Error) => true,
        (Type::Unknown, Type::Unknown) => true,
        (Type::Void, Type::Void) => true,
        (Type::Type, Type::Type) => true,
        (Type::Pointer, Type::Pointer) => true,
        (Type::UnsignedInteger8, Type::UnsignedInteger8) => true,
        (Type::UnsignedInteger16, Type::UnsignedInteger16) => true,
        (Type::UnsignedInteger32, Type::UnsignedInteger32) => true,
        (Type::Bool, Type::Bool) => true,
        (Type::IntegerLiteral(x), Type::IntegerLiteral(y)) => x == y,
        (Type::GenericType(x), Type::GenericType(y)) => x == y,
        (Type::Array(x, n), Type::Array(y, m)) => x == y && n == m,
        (Type::ArrayUnknownLength(x), Type::ArrayUnknownLength(y)) => x == y,
        (Type::Reference(x), Type::Reference(y)) => x == y,
        _ => false,
    }
}

impl Type {
    pub fn is_integer_literal(&self) -> (r: bool)
        ensures
            r == (*self is IntegerLiteral),
    {
        match self {
            Type::IntegerLiteral(_) => true,
            _ => false,
        }
    }

    pub fn is_reference(&self) -> (r: bool)
        ensures
            r == (*self is Reference),
    {
        match self {
            Type::Reference(_) => true,
            _ => false,
        }
    }

    pub fn is_enum(&self) -> (r: bool)
        ensures
            r == (*self is Enum),
    {
        match self {
            Type::Enum(_) => true,
            _ => false,
        }
    }
}

/// The type of the first of `fields` from index `from` on that is named
/// `name`.
pub open spec fn first_field(fields: Seq<(Location, StringId, TypeId)>, name: StringId, from: int) -> Option<TypeId>
    decreases fields.len() - from,
{
    if from < 0 || from >= fields.len() {
        None
    } else if fields[from].1 == name {
        Some(fields[from].2)
    } else {
        first_field(fields, name, from + 1)
    }
}

impl StructType {
    /// The type of the first field named `identifier`.
    pub fn get_field_type_by_name(&self, identifier: StringId) -> (r: Option<TypeId>)
        ensures
            r == first_field(self.fields@, identifier, 0),
    {
        let mut k: usize = 0;
        while k < self.fields.len()
            invariant
                k <= self.fields@.len(),
                first_field(self.fields@, identifier, 0) == first_field(self.fields@, identifier, k as int),
            decreases self.fields@.len() - k,
        {
            if self.fields[k].1 == identifier {
                return Some(self.fields[k].2);
            }
            k = k + 1;
        }
        None
    }
}

/// The offset of `field` in `offsets`.
pub open spec fn offset_in(offsets: Seq<(StringId, usize)>, field: StringId) -> Option<usize> {
    if exists|k: int| 0 <= k < offsets.len() && #[trigger] offsets[k].0 == field {
        Some(offsets[choose|k: int| 0 <= k < offsets.len() && #[trigger] offsets[k].0 == field].1)
    } else {
        None
    }
}

/// Whether no field name occurs twice.
pub open spec fn names_distinct(offsets: Seq<(StringId, usize)>) -> bool {
    forall|i: int, j: int| 0 <= i < j < offsets.len() ==> #[trigger] offsets[i].0 != #[trigger] offsets[j].0
}

impl StructLayout {
    pub fn size(&self) -> (r: usize)
        ensures
            r == self.size,
    {
        self.size
    }

    /// The offset of `field`.
    pub fn offset_of(&self, field: StringId) -> (r: Option<usize>)
        requires
            names_distinct(self.offsets@),
        ensures
            r == offset_in(self.offsets@, field),
    {
        let mut k: usize = 0;
        while k < self.offsets.len()
            invariant
                k <= self.offsets@.len(),
                names_distinct(self.offsets@),
                forall|j: int| 0 <= j < k ==> #[trigger] self.offsets@[j].0 != field,
            decreases self.offsets@.len() - k,
        {
            if self.offsets[k].0 == field {
                proof {
                    let c = choose|c: int| 0 <= c < self.offsets@.len() && #[trigger] self.offsets@[c].0 == field;
                    if c != k {
                        assert(self.offsets@[c].0 != self.offsets@[k as int].0);
                    }
                }
                return Some(self.offsets[k].1);
            }
            k = k + 1;
        }
        None
    }

    /// The layout of an enumeration: one word, no fields.
    pub fn from_variants(_variants: &[VariableId], _types: &Types) -> (r: StructLayout)
        ensures
            r.size == 4,
            r.offsets@.len() == 0,
    {
        StructLayout { size: 4, offsets: Vec::new() }
    }

    /// The layout without fields.
    pub fn empty() -> (r: StructLayout)
        ensures
            r.size == 0,
            r.offsets@.len() == 0,
    {
        StructLayout { size: 0, offsets: Vec::new() }
    }
}

/// Whether the types that type `t` refers to come before index `bound`.
pub open spec fn refs_below(t: Type, bound: int) -> bool {
    match t {
        Type::Array(e, _) => e.0 < bound,
        Type::ArrayUnknownLength(e) => e.0 < bound,
        Type::Reference(e) => e.0 < bound,
        Type::FunctionType(f) => f.return_type.0 < bound && forall|k: int|
            0 <= k < f.parameter_types@.len() ==> #[trigger] f.parameter_types@[k].0 < bound,
        Type::Struct(s) => forall|k: int| 0 <= k < s.fields@.len() ==> #[trigger] s.fields@[k].2.0 < bound,
        _ => true,
    }
}

/// Whether type `id` is concrete: it has a representation and holds no
/// type parameter or integer literal.
pub open spec fn concrete(types: Seq<Type>, id: int) -> bool
    decreases id,
{
    if !(0 <= id < types.len()) {
        false
    } else {
        match types[id] {
            Type::Error | Type::Unknown | Type::Void | Type::IntegerLiteral(_) | Type::GenericType(_)
            | Type::ArrayUnknownLength(_) | Type::Type => false,
            Type::Pointer | Type::UnsignedInteger8 | Type::UnsignedInteger16 | Type::Bool
            | Type::UnsignedInteger32 => true,
            Type::Reference(t) => 0 <= t.0 < id && concrete(types, t.0 as int),
            Type::Array(t, _) => 0 <= t.0 < id && concrete(types, t.0 as int),
            Type::FunctionType(f) => (forall|k: int|
                0 <= k < f.parameter_types@.len() ==> (0 <= #[trigger] f.parameter_types@[k].0 < id
                    && concrete(types, f.parameter_types@[k].0 as int))) && 0 <= f.return_type.0 < id
                && concrete(types, f.return_type.0 as int),
            Type::Struct(s) => forall|k: int|
                0 <= k < s.fields@.len() ==> (0 <= #[trigger] s.fields@[k].2.0 < id && concrete(
                    types,
                    s.fields@[k].2.0 as int,
                )),
            Type::Enum(_) => true,
        }
    }
}

/// Whether the size of type `id` is defined and fits a machine word,
/// down to the innermost element of arrays.
pub open spec fn has_size(types: Seq<Type>, id: int) -> bool
    decreases id,
{
    if !(0 <= id < types.len()) {
        false
    } else {
        match types[id] {
            Type::IntegerLiteral(_) | Type::ArrayUnknownLength(_) | Type::GenericType(_) => false,
            Type::Array(t, len) => 0 <= t.0 < id && has_size(types, t.0 as int) && size_in(
                types,
                t.0 as int,
            ) * len <= usize::MAX,
            _ => true,
        }
    }
}

/// The size in bytes of a value of type `id`.
pub open spec fn size_in(types: Seq<Type>, id: int) -> int
    decreases id,
{
    if !(0 <= id < types.len()) {
        0
    } else {
        match types[id] {
            Type::Reference(_) | Type::Pointer | Type::UnsignedInteger32 | Type::FunctionType(_) => 4,
            Type::UnsignedInteger8 | Type::Bool => 1,
            Type::UnsignedInteger16 => 2,
            Type::Array(t, len) => if 0 <= t.0 < id {
                size_in(types, t.0 as int) * len
            } else {
                0
            },
            Type::Struct(s) => s.layout.size as int,
            Type::Enum(e) => e.layout.size as int,
            _ => 0,
        }
    }
}

/// How type `id` is written, names taken from `strings`.
pub open spec fn type_text(types: Seq<Type>, strings: Seq<Seq<char>>, id: int) -> Seq<char>
    decreases id + 1, 0nat,
{
    if !(0 <= id < types.len()) {
        Seq::empty()
    } else {
        match types[id] {
            Type::Error => "#error"@,
            Type::Unknown => "?unknown"@,
            Type::Void => "void"@,
            Type::Type => "type"@,
            Type::Pointer => "ptr"@,
            Type::UnsignedInteger8 => "u8"@,
            Type::UnsignedInteger16 => "u16"@,
            Type::UnsignedInteger32 => "u32"@,
            Type::IntegerLiteral(_) => "{integer literal}"@,
            Type::Bool => "bool"@,
            Type::Array(t, len) => if 0 <= t.0 < id {
                "["@ + type_text(types, strings, t.0 as int) + "; "@ + decimal_digits(len as nat) + "]"@
            } else {
                Seq::empty()
            },
            Type::ArrayUnknownLength(t) => if 0 <= t.0 < id {
                "["@ + type_text(types, strings, t.0 as int) + "; ?]"@
            } else {
                Seq::empty()
            },
            Type::FunctionType(f) => if 0 <= f.return_type.0 < id {
                "Fn<("@ + parameters_text(types, strings, f.parameter_types@, id, f.parameter_types@.len() as int) + "), "@
                    + type_text(types, strings, f.return_type.0 as int) + ">"@
            } else {
                Seq::empty()
            },
            Type::Struct(s) => strings[s.identifier.1.0 as int],
            Type::GenericType(g) => strings[g.name.0 as int],
            Type::Enum(e) => strings[e.identifier.1.0 as int],
            Type::Reference(t) => if 0 <= t.0 < id {
                "&"@ + type_text(types, strings, t.0 as int)
            } else {
                Seq::empty()
            },
        }
    }
}

/// The first `k` of `parameters`, which come before index `bound`,
/// written and separated by commas.
pub open spec fn parameters_text(
    types: Seq<Type>,
    strings: Seq<Seq<char>>,
    parameters: Seq<TypeId>,
    bound: int,
    k: int,
) -> Seq<char>
    decreases bound, k,
{
    if k <= 0 || k > parameters.len() {
        Seq::empty()
    } else {
        let before = parameters_text(types, strings, parameters, bound, k - 1);
        let p = parameters[k - 1].0 as int;
        let text = if 0 <= p < bound {
            type_text(types, strings, p)
        } else {
            Seq::empty()
        };
        if k == 1 {
            text
        } else {
            before + ", "@ + text
        }
    }
}

/// The types that have a name, with their names.
pub struct Types {
    pub types: Vec<Type>,
    pub names: Vec<(TypeId, StringId)>,
    pub active_generic_types: usize,
}

impl Types {
    /// Each type refers only to types before it, and no type has two
    /// names.
    pub open spec fn wf(&self) -> bool {
        &&& forall|i: int| 0 <= i < self.types@.len() ==> refs_below(#[trigger] self.types@[i], i)
        &&& forall|i: int, j: int|
            0 <= i < j < self.names@.len() ==> #[trigger] self.names@[i].0 != #[trigger] self.names@[j].0
    }

    /// Whether the names of all named types are strings of a table of
    /// `count` strings.
    pub open spec fn names_below(&self, count: nat) -> bool {
        forall|i: int|
            0 <= i < self.types@.len() ==> match #[trigger] self.types@[i] {
                Type::Struct(s) => s.identifier.1.0 < count,
                Type::GenericType(g) => g.name.0 < count,
                Type::Enum(e) => e.identifier.1.0 < count,
                _ => true,
            }
    }

    /// The type table with the built-in types at their indices and the
    /// names of the named ones interned into `strings`.
    pub fn new(strings: &mut StringInterner) -> (r: Types)
        requires
            old(strings).wf(),
        ensures
            final(strings).wf(),
            r.wf(),
            r.types@.len() == 9,
            r.types@[0] is Error && r.types@[1] is Unknown && r.types@[2] is Void && r.types@[3] is Type
                && r.types@[4] is Pointer && r.types@[5] is UnsignedInteger8 && r.types@[6] is UnsignedInteger16
                && r.types@[7] is UnsignedInteger32 && r.types@[8] is Bool,
            r.names@.len() == 6,
            r.names@[0].0 == TypeId(2) && final(strings)@[r.names@[0].1.0 as int] == "void"@,
            r.names@[1].0 == TypeId(5) && final(strings)@[r.names@[1].1.0 as int] == "u8"@,
            r.names@[2].0 == TypeId(6) && final(strings)@[r.names@[2].1.0 as int] == "u16"@,
            r.names@[3].0 == TypeId(7) && final(strings)@[r.names@[3].1.0 as int] == "u32"@,
            r.names@[4].0 == TypeId(8) && final(strings)@[r.names@[4].1.0 as int] == "bool"@,
            r.names@[5].0 == TypeId(4) && final(strings)@[r.names@[5].1.0 as int] == "ptr"@,
            r.active_generic_types == 0,
            old(strings)@.len() == 0 ==> final(strings)@ == seq![
                "void"@,
                "u8"@,
                "u16"@,
                "u32"@,
                "bool"@,
                "ptr"@,
            ] && r.names@ == seq![
                (TypeId(2), StringId(0)),
                (TypeId(5), StringId(1)),
                (TypeId(6), StringId(2)),
                (TypeId(7), StringId(3)),
                (TypeId(8), StringId(4)),
                (TypeId(4), StringId(5)),
            ],
    {
        proof {
            reveal_strlit("void");
            reveal_strlit("u8");
            reveal_strlit("u16");
            reveal_strlit("u32");
            reveal_strlit("bool");
            reveal_strlit("ptr");
        }
        let ghost start = strings@;
        let void_name = strings.intern(String::from_str("void"));
        proof {
            if start.len() == 0 {
                assert(strings@ =~= seq!["void"@]);
            }
        }
        let u8_name = strings.intern(String::from_str("u8"));
        proof {
            if start.len() == 0 {
                assert(!seq!["void"@].contains("u8"@)) by {
                    assert("void"@.len() != "u8"@.len());
                }
                assert(strings@ =~= seq!["void"@, "u8"@]);
            }
        }
        let u16_name = strings.intern(String::from_str("u16"));
        proof {
            if start.len() == 0 {
                assert(!seq!["void"@, "u8"@].contains("u16"@)) by {
                    assert("void"@.len() != "u16"@.len());
                    assert("u8"@.len() != "u16"@.len());
                }
                assert(strings@ =~= seq!["void"@, "u8"@, "u16"@]);
            }
        }
        let u32_name = strings.intern(String::from_str("u32"));
        proof {
            if start.len() == 0 {
                assert(!seq!["void"@, "u8"@, "u16"@].contains("u32"@)) by {
                    assert("void"@.len() != "u32"@.len());
                    assert("u8"@.len() != "u32"@.len());
                    assert("u16"@[1] != "u32"@[1]);
                }
                assert(strings@ =~= seq!["void"@, "u8"@, "u16"@, "u32"@]);
            }
        }
        let bool_name = strings.intern(String::from_str("bool"));
        proof {
            if start.len() == 0 {
                assert(!seq!["void"@, "u8"@, "u16"@, "u32"@].contains("bool"@)) by {
                    assert("void"@[0] != "bool"@[0]);
                    assert("u8"@.len() != "bool"@.len());
                    assert("u16"@.len() != "bool"@.len());
                    assert("u32"@.len() != "bool"@.len());
                }
                assert(strings@ =~= seq!["void"@, "u8"@, "u16"@, "u32"@, "bool"@]);
            }
        }
        let ptr_name = strings.intern(String::from_str("ptr"));
        proof {
            if start.len() == 0 {
                assert(!seq!["void"@, "u8"@, "u16"@, "u32"@, "bool"@].contains("ptr"@)) by {
                    assert("void"@.len() != "ptr"@.len());
                    assert("u8"@.len() != "ptr"@.len());
                    assert("u16"@[0] != "ptr"@[0]);
                    assert("u32"@[0] != "ptr"@[0]);
                    assert("bool"@.len() != "ptr"@.len());
                }
                assert(strings@ =~= seq!["void"@, "u8"@, "u16"@, "u32"@, "bool"@, "ptr"@]);
            }
        }
        let mut names: Vec<(TypeId, StringId)> = Vec::new();
        names.push((TypeId(2), void_name));
        names.push((TypeId(5), u8_name));
        names.push((TypeId(6), u16_name));
        names.push((TypeId(7), u32_name));
        names.push((TypeId(8), bool_name));
        names.push((TypeId(4), ptr_name));
        let mut types: Vec<Type> = Vec::new();
        types.push(Type::Error);
        types.push(Type::Unknown);
        types.push(Type::Void);
        types.push(Type::Type);
        types.push(Type::Pointer);
        types.push(Type::UnsignedInteger8);
        types.push(Type::UnsignedInteger16);
        types.push(Type::UnsignedInteger32);
        types.push(Type::Bool);
        proof {
            if start.len() == 0 {
                assert(strings@ =~= seq!["void"@, "u8"@, "u16"@, "u32"@, "bool"@, "ptr"@]);
                assert(names@ =~= seq![
                    (TypeId(2), StringId(0)),
                    (TypeId(5), StringId(1)),
                    (TypeId(6), StringId(2)),
                    (TypeId(7), StringId(3)),
                    (TypeId(8), StringId(4)),
                    (TypeId(4), StringId(5)),
                ]);
            }
        }
        Types { types, names, active_generic_types: 0 }
    }

    /// The type at `id`.
    pub fn get(&self, id: TypeId) -> (r: &Type)
        requires
            id.0 < self.types@.len(),
        ensures
            *r == self.types@[id.0 as int],
    {
        &self.types[id.0]
    }

    /// The index of the first type that is the same as `type_`; `type_` is
    /// added when there is none. The table stays well formed when `type_`
    /// refers only to types already in it.
    pub fn register(&mut self, type_: Type) -> (r: TypeId)
        ensures
            old(self).wf() && refs_below(type_, old(self).types@.len() as int) ==> final(self).wf(),
            final(self).names == old(self).names,
            final(self).active_generic_types == old(self).active_generic_types,
            (exists|k: int| 0 <= k < old(self).types@.len() && same_type(#[trigger] old(self).types@[k], type_))
                ==> final(self).types@ == old(self).types@ && r.0 < old(self).types@.len() && same_type(
                old(self).types@[r.0 as int],
                type_,
            ) && forall|j: int| 0 <= j < r.0 ==> !same_type(#[trigger] old(self).types@[j], type_),
            !(exists|k: int| 0 <= k < old(self).types@.len() && same_type(#[trigger] old(self).types@[k], type_))
                ==> final(self).types@ == old(self).types@.push(type_) && r.0 == old(self).types@.len(),
    {
        let mut k: usize = 0;
        while k < self.types.len()
            invariant
                k <= self.types@.len(),
                *self == *old(self),
                forall|j: int| 0 <= j < k ==> !same_type(#[trigger] self.types@[j], type_),
            decreases self.types@.len() - k,
        {
            if types_equal(&self.types[k], &type_) {
                return TypeId(k);
            }
            k = k + 1;
        }
        let index = self.types.len();
        self.types.push(type_);
        proof {
            if old(self).wf() && refs_below(type_, index as int) {
                assert forall|i: int| 0 <= i < self.types@.len() implies refs_below(#[trigger] self.types@[i], i) by {
                    if i < index {
                        assert(self.types@[i] == old(self).types@[i]);
                    }
                }
            }
        }
        TypeId(index)
    }

    /// Some type named `name`.
    pub fn find_by_name(&self, name: StringId) -> (r: Option<TypeId>)
        ensures
            match r {
                Some(t) => self.names@.contains((t, name)),
                None => forall|k: int| 0 <= k < self.names@.len() ==> #[trigger] self.names@[k].1 != name,
            },
    {
        let mut k: usize = 0;
        while k < self.names.len()
            invariant
                k <= self.names@.len(),
                forall|j: int| 0 <= j < k ==> #[trigger] self.names@[j].1 != name,
            decreases self.names@.len() - k,
        {
            if self.names[k].1 == name {
                assert(self.names@[k as int] == (self.names@[k as int].0, name));
                return Some(self.names[k].0);
            }
            k = k + 1;
        }
        None
    }

    /// The structure type at `id`, seen through references.
    pub fn as_struct_type(&self, id: TypeId) -> (r: Option<&StructType>)
        requires
            self.wf(),
            id.0 < self.types@.len(),
        ensures
            match struct_behind(self.types@, id.0 as int) {
                Some(s) => r matches Some(x) && *x == s,
                None => r is None,
            },
        decreases id.0,
    {
        match &self.types[id.0] {
            Type::Struct(it) => Some(it),
            Type::Reference(t) => self.as_struct_type(*t),
            _ => None,
        }
    }

    /// The size in bytes of a value of type `id`.
    pub fn size_of(&self, id: TypeId) -> (r: usize)
        requires
            self.wf(),
            has_size(self.types@, id.0 as int),
        ensures
            r == size_in(self.types@, id.0 as int),
        decreases id.0,
    {
        match &self.types[id.0] {
            Type::Error => 0,
            Type::Unknown => 0,
            Type::Void => 0,
            Type::Type => 0,
            Type::Reference(_) | Type::Pointer => 4,
            Type::UnsignedInteger8 => 1,
            Type::UnsignedInteger16 => 2,
            Type::UnsignedInteger32 => 4,
            Type::Bool => 1,
            Type::Array(type_id, len) => {
                let inner = self.size_of(*type_id);
                inner * *len
            },
            Type::FunctionType(..) => 4,
            Type::Struct(struct_type) => struct_type.layout.size(),
            Type::Enum(enum_type) => enum_type.layout.size(),
            _ => 0,
        }
    }

    /// The type of the field `field_identifier` of the structure `base_type`,
    /// seen through references.
    pub fn field_type(&self, base_type: TypeId, field_identifier: StringId) -> (r: Option<TypeId>)
        requires
            self.wf(),
            base_type.0 < self.types@.len(),
        ensures
            r == match struct_behind(self.types@, base_type.0 as int) {
                Some(s) => first_field(s.fields@, field_identifier, 0),
                None => None,
            },
        decreases base_type.0,
    {
        proof {
            assert(refs_below(self.types@[base_type.0 as int], base_type.0 as int));
        }
        match &self.types[base_type.0] {
            Type::Reference(inner) => {
                assert(struct_behind(self.types@, base_type.0 as int) == struct_behind(
                    self.types@,
                    inner.0 as int,
                ));
                self.field_type(*inner, field_identifier)
            },
            Type::Struct(struct_type) => {
                assert(struct_behind(self.types@, base_type.0 as int) == Some(*struct_type));
                struct_type.get_field_type_by_name(field_identifier)
            },
            _ => None,
        }
    }

    /// The function type at `id`.
    pub fn as_function_type(&self, id: TypeId) -> (r: Option<&FunctionType>)
        requires
            id.0 < self.types@.len(),
        ensures
            match self.types@[id.0 as int] {
                Type::FunctionType(f) => r == Some(&f),
                _ => r is None,
            },
    {
        match &self.types[id.0] {
            Type::FunctionType(f) => Some(f),
            _ => None,
        }
    }

    /// The element type of the array type at `id`.
    pub fn as_inner_array_type(&self, id: TypeId) -> (r: Option<TypeId>)
        requires
            id.0 < self.types@.len(),
        ensures
            r == match self.types@[id.0 as int] {
                Type::Array(t, _) => Some(t),
                Type::ArrayUnknownLength(t) => Some(t),
                _ => None,
            },
    {
        match &self.types[id.0] {
            Type::Array(t, _) => Some(*t),
            Type::ArrayUnknownLength(t) => Some(*t),
            _ => None,
        }
    }

    /// An integer literal's type becomes `u32`; other types stay.
    pub fn make_concrete(&self, id: TypeId) -> (r: TypeId)
        requires
            id.0 < self.types@.len(),
        ensures
            r == if self.types@[id.0 as int] is IntegerLiteral {
                TypeId(7)
            } else {
                id
            },
    {
        match &self.types[id.0] {
            Type::IntegerLiteral(_) => TypeId(7),
            _ => id,
        }
    }

    /// Whether type `id` is concrete: see `concrete`.
    pub fn is_concrete(&self, id: TypeId) -> (r: bool)
        requires
            self.wf(),
            id.0 < self.types@.len(),
        ensures
            r == concrete(self.types@, id.0 as int),
        decreases id.0,
    {
        proof {
            assert(refs_below(self.types@[id.0 as int], id.0 as int));
        }
        match &self.types[id.0] {
            Type::Error | Type::Unknown | Type::Void | Type::IntegerLiteral(_) | Type::GenericType(_)
            | Type::ArrayUnknownLength(_) | Type::Type => false,
            Type::Pointer | Type::UnsignedInteger8 | Type::UnsignedInteger16 | Type::Bool
            | Type::UnsignedInteger32 => true,
            Type::Reference(type_id) | Type::Array(type_id, _) => self.is_concrete(*type_id),
            Type::FunctionType(function_type) => {
                let mut k: usize = 0;
                while k < function_type.parameter_types.len()
                    invariant
                        self.wf(),
                        k <= function_type.parameter_types@.len(),
                        id.0 < self.types@.len(),
                        self.types@[id.0 as int] == Type::FunctionType(*function_type),
                        refs_below(Type::FunctionType(*function_type), id.0 as int),
                        forall|j: int|
                            0 <= j < k ==> (0 <= #[trigger] function_type.parameter_types@[j].0 < id.0
                                && concrete(self.types@, function_type.parameter_types@[j].0 as int)),
                    decreases function_type.parameter_types@.len() - k,
                {
                    let p = function_type.parameter_types[k];
                    if !self.is_concrete(p) {
                        return false;
                    }
                    k = k + 1;
                }
                self.is_concrete(function_type.return_type)
            },
            Type::Struct(struct_type) => {
                let mut k: usize = 0;
                while k < struct_type.fields.len()
                    invariant
                        self.wf(),
                        k <= struct_type.fields@.len(),
                        id.0 < self.types@.len(),
                        self.types@[id.0 as int] == Type::Struct(*struct_type),
                        refs_below(Type::Struct(*struct_type), id.0 as int),
                        forall|j: int|
                            0 <= j < k ==> (0 <= #[trigger] struct_type.fields@[j].2.0 < id.0 && concrete(
                                self.types@,
                                struct_type.fields@[j].2.0 as int,
                            )),
                    decreases struct_type.fields@.len() - k,
                {
                    let t = struct_type.fields[k].2;
                    if !self.is_concrete(t) {
                        return false;
                    }
                    k = k + 1;
                }
                true
            },
            Type::Enum(_) => true,
        }
    }

    /// Whether type `id` is not concrete.
    pub fn is_generic(&self, id: TypeId) -> (r: bool)
        requires
            self.wf(),
            id.0 < self.types@.len(),
        ensures
            r == !concrete(self.types@, id.0 as int),
    {
        !self.is_concrete(id)
    }

    /// How type `id` is written, names taken from `strings`.
    pub fn to_string(&self, id: TypeId, strings: &StringInterner) -> (r: String)
        requires
            self.wf(),
            self.names_below(strings@.len()),
            id.0 < self.types@.len(),
        ensures
            r@ == type_text(self.types@, strings@, id.0 as int),
        decreases id.0 + 1, 0nat,
    {
        proof {
            assert(refs_below(self.types@[id.0 as int], id.0 as int));
        }
        match &self.types[id.0] {
            Type::Error => String::from_str("#error"),
            Type::Unknown => String::from_str("?unknown"),
            Type::Void => String::from_str("void"),
            Type::Type => String::from_str("type"),
            Type::Pointer => String::from_str("ptr"),
            Type::UnsignedInteger8 => String::from_str("u8"),
            Type::UnsignedInteger16 => String::from_str("u16"),
            Type::UnsignedInteger32 => String::from_str("u32"),
            Type::IntegerLiteral(_) => String::from_str("{integer literal}"),
            Type::Bool => String::from_str("bool"),
            Type::Array(type_, len) => {
                let mut s = String::from_str("[");
                let inner = self.to_string(*type_, strings);
                s.append(inner.as_str());
                s.append("; ");
                let digits = decimal_string_usize(*len);
                s.append(digits.as_str());
                s.append("]");
                s
            },
            Type::ArrayUnknownLength(type_) => {
                let mut s = String::from_str("[");
                let inner = self.to_string(*type_, strings);
                s.append(inner.as_str());
                s.append("; ?]");
                s
            },
            Type::FunctionType(ft) => {
                let mut s = String::from_str("Fn<(");
                let parameters = self.parameters_to_string(&ft.parameter_types, id.0, strings);
                s.append(parameters.as_str());
                s.append("), ");
                let result = self.to_string(ft.return_type, strings);
                s.append(result.as_str());
                s.append(">");
                s
            },
            Type::Struct(struct_) => String::from_str(strings.get(struct_.identifier.1)),
            Type::GenericType(generic_type) => String::from_str(strings.get(generic_type.name)),
            Type::Enum(enum_) => String::from_str(strings.get(enum_.identifier.1)),
            Type::Reference(reference) => {
                let mut s = String::from_str("&");
                let inner = self.to_string(*reference, strings);
                s.append(inner.as_str());
                s
            },
        }
    }

    /// The types `parameters`, which come before index `bound`, written and
    /// separated by commas.
    fn parameters_to_string(&self, parameters: &Vec<TypeId>, bound: usize, strings: &StringInterner) -> (r: String)
        requires
            self.wf(),
            self.names_below(strings@.len()),
            bound <= self.types@.len(),
            forall|k: int| 0 <= k < parameters@.len() ==> #[trigger] parameters@[k].0 < bound,
        ensures
            r@ == parameters_text(self.types@, strings@, parameters@, bound as int, parameters@.len() as int),
        decreases bound, parameters@.len() + 1,
    {
        let mut s = String::new();
        let mut k: usize = 0;
        while k < parameters.len()
            invariant
                self.wf(),
                self.names_below(strings@.len()),
                bound <= self.types@.len(),
                forall|j: int| 0 <= j < parameters@.len() ==> #[trigger] parameters@[j].0 < bound,
                k <= parameters@.len(),
                s@ == parameters_text(self.types@, strings@, parameters@, bound as int, k as int),
            decreases parameters@.len() - k,
        {
            if k != 0 {
                s.append(", ");
            }
            let text = self.to_string(parameters[k], strings);
            s.append(text.as_str());
            k = k + 1;
        }
        s
    }
}

/// The structure type at `id`, seen through references.
pub open spec fn struct_behind(types: Seq<Type>, id: int) -> Option<StructType>
    decreases id,
{
    if !(0 <= id < types.len()) {
        None
    } else {
        match types[id] {
            Type::Struct(s) => Some(s),
            Type::Reference(t) => if 0 <= t.0 < id {
                struct_behind(types, t.0 as int)
            } else {
                None
            },
            _ => None,
        }
    }
}

impl Types {
    /// Adds a placeholder at a new index, to be replaced by `set`.
    pub fn reserve(&mut self) -> (r: TypeId)
        ensures
            old(self).wf() ==> final(self).wf(),
            r.0 == old(self).types@.len(),
            final(self).types@ == old(self).types@.push(Type::Error),
            final(self).names == old(self).names,
            final(self).active_generic_types == old(self).active_generic_types,
    {
        let id = TypeId(self.types.len());
        self.types.push(Type::Error);
        proof {
            if old(self).wf() {
                assert forall|i: int| 0 <= i < self.types@.len() implies refs_below(#[trigger] self.types@[i], i) by {
                    if i < id.0 {
                        assert(self.types@[i] == old(self).types@[i]);
                    }
                }
            }
        }
        id
    }

    /// Puts `type_` at `id`. The table stays well formed when `type_`
    /// refers only to types before `id`; a type that refers to itself or to
    /// later ones may be set, and the table is then no longer well formed.
    pub fn set(&mut self, id: TypeId, type_: Type)
        requires
            id.0 < old(self).types@.len(),
        ensures
            old(self).wf() && refs_below(type_, id.0 as int) ==> final(self).wf(),
            final(self).types@ == old(self).types@.update(id.0 as int, type_),
            final(self).names == old(self).names,
            final(self).active_generic_types == old(self).active_generic_types,
    {
        self.types.set(id.0, type_);
        proof {
            if old(self).wf() && refs_below(type_, id.0 as int) {
                assert forall|i: int| 0 <= i < self.types@.len() implies refs_below(#[trigger] self.types@[i], i) by {
                    if i != id.0 {
                        assert(self.types@[i] == old(self).types@[i]);
                    }
                }
            }
        }
    }

    /// Registers a new type parameter named `name` and names it.
    pub fn create_generic_type(&mut self, name: StringId) -> (r: TypeId)
        requires
            old(self).wf(),
            old(self).active_generic_types < usize::MAX,
        ensures
            final(self).wf(),
            final(self).active_generic_types == old(self).active_generic_types + 1,
            r.0 < final(self).types@.len(),
            same_type(
                final(self).types@[r.0 as int],
                Type::GenericType(GenericType { name, id: old(self).active_generic_types }),
            ),
            final(self).types@.len() >= old(self).types@.len(),
            forall|k: int| 0 <= k < old(self).types@.len() ==> #[trigger] final(self).types@[k] == old(self).types@[k],
            final(self).names@.contains((r, name)),
            forall|k: int| 0 <= k < final(self).names@.len() && #[trigger] final(self).names@[k].0 != r
                ==> old(self).names@.contains(final(self).names@[k]),
    {
        let t = self.register(Type::GenericType(GenericType { name, id: self.active_generic_types }));
        self.active_generic_types = self.active_generic_types + 1;
        let ghost before = self.names@;
        let ghost mid = *self;
        assert(before == old(self).names@);
        let mut k: usize = 0;
        while k < self.names.len()
            invariant
                k <= self.names@.len(),
                self.names@ == before,
                *self == mid,
                mid.wf(),
                mid.names@ == before,
                mid.active_generic_types == old(self).active_generic_types + 1,
                t.0 < mid.types@.len(),
                same_type(
                    mid.types@[t.0 as int],
                    Type::GenericType(GenericType { name, id: old(self).active_generic_types }),
                ),
                mid.types@.len() >= old(self).types@.len(),
                forall|j: int| 0 <= j < old(self).types@.len() ==> #[trigger] mid.types@[j] == old(self).types@[j],
                before == old(self).names@,
                forall|j: int| 0 <= j < k ==> #[trigger] self.names@[j].0 != t,
            decreases self.names@.len() - k,
        {
            if self.names[k].0 == t {
                self.names.set(k, (t, name));
                proof {
                    assert(before[k as int].0 == t);
                    assert(self.names@ == before.update(k as int, (t, name)));
                    assert(self.names@[k as int] == (t, name));
                    assert forall|i: int, j: int| 0 <= i < j < self.names@.len() implies #[trigger] self.names@[i].0
                        != #[trigger] self.names@[j].0 by {
                        assert(self.names@[i].0 == before[i].0);
                        assert(self.names@[j].0 == before[j].0);
                        assert(mid.names@[i].0 != mid.names@[j].0);
                    }
                    assert forall|i: int| 0 <= i < self.names@.len() && #[trigger] self.names@[i].0 != t
                        implies old(self).names@.contains(self.names@[i]) by {
                        assert(self.names@[i] == before[i]);
                    }
                }
                return t;
            }
            k = k + 1;
        }
        self.names.push((t, name));
        proof {
            let last = (self.names@.len() - 1) as int;
            assert(self.names@[last] == (t, name));
            assert forall|i: int, j: int| 0 <= i < j < self.names@.len() implies #[trigger] self.names@[i].0
                != #[trigger] self.names@[j].0 by {
                if j < last {
                    assert(self.names@[i] == before[i]);
                    assert(self.names@[j] == before[j]);
                } else {
                    assert(self.names@[i] == before[i]);
                }
            }
            assert forall|i: int| 0 <= i < self.names@.len() && #[trigger] self.names@[i].0 != t implies old(
                self,
            ).names@.contains(self.names@[i]) by {
                assert(self.names@[i] == before[i]);
            }
        }
        t
    }
}

/// Whether a value of type `base_type` converts implicitly to `expected`:
/// a type to itself, the error type to anything, anything to the unknown
/// type, an integer literal to an unsigned type that holds it, and an array
/// to an array type with the same element type.
pub open spec fn converts_implicitly(types: Seq<Type>, base_type: TypeId, expected: TypeId) -> bool {
    if base_type == expected || base_type == TypeId(0) || expected == TypeId(1) {
        true
    } else {
        match types[base_type.0 as int] {
            Type::IntegerLiteral(value) => (expected == TypeId(5) && value <= u8::MAX) || (expected
                == TypeId(6) && value <= u16::MAX) || (expected == TypeId(7) && value <= u32::MAX),
            Type::Array(inner, _) => 0 <= expected.0 < types.len() && match types[expected.0 as int] {
                Type::Array(t, _) => t == inner,
                Type::ArrayUnknownLength(t) => t == inner,
                _ => false,
            },
            _ => false,
        }
    }
}

/// Whether a value of type `base_type` instantiates `expected`: a type
/// itself, the error type anything, anything the unknown type, and a
/// type that is not concrete a concrete one.
pub open spec fn instantiates(types: Seq<Type>, base_type: TypeId, expected: TypeId) -> bool {
    if base_type == expected || base_type == TypeId(0) || expected == TypeId(1) {
        true
    } else {
        !concrete(types, base_type.0 as int) && concrete(types, expected.0 as int)
    }
}

impl ConversionKind {
    /// Whether a value of type `base_type` converts to `expected` in this
    /// way.
    pub fn convert(&self, base_type: TypeId, expected: TypeId, types: &mut Types) -> (r: bool)
        requires
            old(types).wf(),
            base_type.0 < old(types).types@.len(),
            expected.0 < old(types).types@.len(),
        ensures
            *final(types) == *old(types),
            r == match *self {
                ConversionKind::Implicit => converts_implicitly(old(types).types@, base_type, expected),
                ConversionKind::Instantiation => instantiates(old(types).types@, base_type, expected),
            },
    {
        match self {
            ConversionKind::Implicit => implicit_conversion(base_type, expected, types),
            ConversionKind::Instantiation => instantiation(base_type, expected, types),
        }
    }
}

fn instantiation(base_type: TypeId, expected: TypeId, types: &mut Types) -> (r: bool)
    requires
        old(types).wf(),
        base_type.0 < old(types).types@.len(),
        expected.0 < old(types).types@.len(),
    ensures
        *final(types) == *old(types),
        r == instantiates(old(types).types@, base_type, expected),
{
    if base_type == expected || base_type == TypeId(0) || expected == TypeId(1) {
        true
    } else {
        types.is_generic(base_type) && types.is_concrete(expected)
    }
}

fn implicit_conversion(base_type: TypeId, expected: TypeId, types: &mut Types) -> (r: bool)
    requires
        base_type.0 < old(types).types@.len(),
        expected.0 < old(types).types@.len(),
    ensures
        *final(types) == *old(types),
        r == converts_implicitly(old(types).types@, base_type, expected),
{
    if base_type == expected || base_type == TypeId(0) || expected == TypeId(1) {
        true
    } else {
        match &types.types[base_type.0] {
            Type::IntegerLiteral(value) => {
                if expected == TypeId(5) {
                    *value <= 0xff
                } else if expected == TypeId(6) {
                    *value <= 0xffff
                } else if expected == TypeId(7) {
                    *value <= 0xffff_ffff
                } else {
                    false
                }
            },
            Type::Array(inner, _) => types.as_inner_array_type(expected) == Some(*inner),
            _ => false,
        }
    }
}

/// The type that `p` stands for in an instantiation by `generic_types`: its
/// image where it is not concrete, else itself.
pub open spec fn instantiated(types: Seq<Type>, generic_types: Seq<(TypeId, TypeId)>, p: TypeId) -> TypeId {
    if !concrete(types, p.0 as int) {
        generic_types[choose|k: int| 0 <= k < generic_types.len() && #[trigger] generic_types[k].0 == p].1
    } else {
        p
    }
}

/// Whether `generic_types` maps `p` to a type.
pub open spec fn is_mapped(generic_types: Seq<(TypeId, TypeId)>, p: TypeId) -> bool {
    exists|k: int| 0 <= k < generic_types.len() && #[trigger] generic_types[k].0 == p
}

/// Whether `t` is the same as the function type with index `id` and the
/// given name, parameters and result.
pub open spec fn same_function(
    t: Type,
    id: nat,
    identifier: StringId,
    parameters: Seq<VariableId>,
    parameter_types: Seq<TypeId>,
    return_type: TypeId,
) -> bool {
    match t {
        Type::FunctionType(g) => g.id.0 == id || (g.identifier == identifier && g.parameters@ == parameters
            && g.parameter_types@ == parameter_types && g.return_type == return_type),
        _ => false,
    }
}

/// Whether the table went from `before` to `after` by registering the
/// function type with the given name, parameters and result, `f` being
/// the registered one: the first function type that is the same, or else
/// the new one, added at the end with the next index.
pub open spec fn function_registered(
    before: Seq<Type>,
    after: Seq<Type>,
    f: FunctionType,
    identifier: StringId,
    parameters: Seq<VariableId>,
    parameter_types: Seq<TypeId>,
    return_type: TypeId,
) -> bool {
    &&& (exists|k: int| 0 <= k < before.len() && #[trigger] same_function(before[k], before.len(), identifier, parameters, parameter_types, return_type)) ==> {
        &&& after == before
        &&& exists|k: int|
            0 <= k < before.len() && #[trigger] same_function(before[k], before.len(), identifier, parameters, parameter_types, return_type) && before[k] == Type::FunctionType(f)
                && forall|j: int| 0 <= j < k ==> !#[trigger] same_function(before[j], before.len(), identifier, parameters, parameter_types, return_type)
    }
    &&& !(exists|k: int| 0 <= k < before.len() && #[trigger] same_function(before[k], before.len(), identifier, parameters, parameter_types, return_type)) ==> {
        &&& after == before.push(Type::FunctionType(f))
        &&& f.id.0 == before.len() && f.identifier == identifier && f.parameters@ == parameters
            && f.parameter_types@ == parameter_types && f.return_type == return_type
    }
}

impl Types {
    /// Registers the function type with the given name, parameters and
    /// result, unless the same one is registered already: the registered
    /// function type.
    pub fn register_function_type(
        &mut self,
        identifier: StringId,
        parameters: Vec<VariableId>,
        parameter_types: Vec<TypeId>,
        return_type: TypeId,
    ) -> (r: &FunctionType)
        requires
            old(self).wf(),
            return_type.0 < old(self).types@.len(),
            forall|k: int| 0 <= k < parameter_types@.len() ==> #[trigger] parameter_types@[k].0 < old(self).types@.len(),
        ensures
            final(self).wf(),
            final(self).names == old(self).names,
            final(self).active_generic_types == old(self).active_generic_types,
            function_registered(
                old(self).types@,
                final(self).types@,
                *r,
                identifier,
                parameters@,
                parameter_types@,
                return_type,
            ),
    {
        let id = self.reserve();
        let type_ = Type::FunctionType(FunctionType { id, identifier, parameters, parameter_types, return_type });
        let ghost new_type = type_;
        let mut k: usize = 0;
        let mut found: Option<usize> = None;
        while k < self.types.len()
            invariant
                k <= self.types@.len(),
                type_ == new_type,
                self.types@ == old(self).types@.push(Type::Error),
                found is None ==> forall|j: int| 0 <= j < k ==> !same_type(#[trigger] self.types@[j], new_type),
                found matches Some(p) ==> p < self.types@.len() && same_type(self.types@[p as int], new_type)
                    && forall|j: int| 0 <= j < p ==> !same_type(#[trigger] self.types@[j], new_type),
            decreases self.types@.len() - k,
        {
            if found.is_none() && types_equal(&self.types[k], &type_) {
                found = Some(k);
            }
            k = k + 1;
        }
        let index = match found {
            Some(position) => {
                let _ = self.types.pop();
                proof {
                    assert(self.types@ =~= old(self).types@);
                    assert(position < old(self).types@.len()) by {
                        if position == old(self).types@.len() {
                            assert(same_type(Type::Error, new_type));
                        }
                    }
                    assert forall|i: int| 0 <= i < self.types@.len() implies refs_below(#[trigger] self.types@[i], i) by {
                        assert(self.types@[i] == old(self).types@[i]);
                    }
                }
                position
            },
            None => {
                self.set(id, type_);
                proof {
                    assert(self.types@ =~= old(self).types@.push(new_type));
                }
                id.0
            },
        };
        proof {
            assert(!(self.types@[index as int] is Error)) by {
                if found is Some {
                    assert(same_type(self.types@[index as int], new_type));
                }
            }
        }
        let result = match &self.types[index] {
            Type::FunctionType(f) => f,
            _ => vstd::pervasive::unreached(),
        };
        proof {
            assert forall|t: Type| #[trigger] same_function(
                t,
                old(self).types@.len(),
                identifier,
                parameters@,
                parameter_types@,
                return_type,
            ) == same_type(t, new_type) by {}
            assert(Type::FunctionType(*result) == self.types@[index as int]);
            match found {
                Some(p) => {
                    assert(old(self).types@[p as int] == self.types@[p as int]);
                    assert(same_type(old(self).types@[p as int], new_type));
                    assert(same_function(old(self).types@[p as int], old(self).types@.len(), identifier, parameters@, parameter_types@, return_type));
                    assert forall|j: int| 0 <= j < p implies !#[trigger] same_function(
                        old(self).types@[j],
                        old(self).types@.len(),
                        identifier,
                        parameters@,
                        parameter_types@,
                        return_type,
                    ) by {
                        assert(old(self).types@[j] == old(self).types@.push(Type::Error)[j]);
                        assert(!same_type(old(self).types@[j], new_type));
                    }
                },
                None => {
                    assert forall|j: int| 0 <= j < old(self).types@.len() implies !#[trigger] same_function(
                        old(self).types@[j],
                        old(self).types@.len(),
                        identifier,
                        parameters@,
                        parameter_types@,
                        return_type,
                    ) by {
                        assert(old(self).types@[j] == old(self).types@.push(Type::Error)[j]);
                        assert(!same_type(old(self).types@[j], new_type));
                    }
                },
            }
        }
        result
    }
}

/// Whether no type is mapped twice.
pub open spec fn mapping_distinct(generic_types: Seq<(TypeId, TypeId)>) -> bool {
    forall|i: int, j: int|
        0 <= i < j < generic_types.len() ==> #[trigger] generic_types[i].0 != #[trigger] generic_types[j].0
}

/// The image of `p` under `generic_types`, which maps it.
fn look_up(generic_types: &Vec<(TypeId, TypeId)>, p: TypeId) -> (r: TypeId)
    requires
        mapping_distinct(generic_types@),
        is_mapped(generic_types@, p),
    ensures
        r == generic_types@[choose|k: int| 0 <= k < generic_types@.len() && #[trigger] generic_types@[k].0 == p].1,
{
    let ghost c = choose|k: int| 0 <= k < generic_types@.len() && #[trigger] generic_types@[k].0 == p;
    let mut k: usize = 0;
    while k < generic_types.len()
        invariant
            k <= generic_types@.len(),
            mapping_distinct(generic_types@),
            0 <= c < generic_types@.len() && generic_types@[c].0 == p,
            forall|j: int| 0 <= j < k ==> #[trigger] generic_types@[j].0 != p,
        decreases generic_types@.len() - k,
    {
        if generic_types[k].0 == p {
            proof {
                if c != k {
                    assert(generic_types@[c].0 != generic_types@[k as int].0);
                }
            }
            return generic_types[k].1;
        }
        k = k + 1;
    }
    proof {
        assert(generic_types@[c].0 != p);
    }
    vstd::pervasive::unreached()
}

impl Types {
    /// Registers the function type `function_type` with each parameter and
    /// result type that is not concrete replaced by its image under
    /// `generic_types`: the registered function type.
    pub fn instantiate(&mut self, function_type: FunctionType, generic_types: Vec<(TypeId, TypeId)>) -> (r: &FunctionType)
        requires
            old(self).wf(),
            mapping_distinct(generic_types@),
            function_type.return_type.0 < old(self).types@.len(),
            forall|k: int| 0 <= k < function_type.parameter_types@.len() ==> #[trigger] function_type.parameter_types@[k].0
                < old(self).types@.len(),
            forall|k: int| 0 <= k < generic_types@.len() ==> #[trigger] generic_types@[k].1.0 < old(self).types@.len(),
            forall|k: int|
                0 <= k < function_type.parameter_types@.len() && !concrete(old(self).types@, #[trigger] function_type.parameter_types@[k].0 as int)
                    ==> is_mapped(generic_types@, function_type.parameter_types@[k]),
            !concrete(old(self).types@, function_type.return_type.0 as int) ==> is_mapped(generic_types@, function_type.return_type),
        ensures
            final(self).wf(),
            final(self).names == old(self).names,
            final(self).active_generic_types == old(self).active_generic_types,
            function_registered(
                old(self).types@,
                final(self).types@,
                *r,
                function_type.identifier,
                function_type.parameters@,
                function_type.parameter_types@.map_values(|p: TypeId| instantiated(old(self).types@, generic_types@, p)),
                instantiated(old(self).types@, generic_types@, function_type.return_type),
            ),
    {
        let mut parameter_types: Vec<TypeId> = Vec::new();
        let n = function_type.parameter_types.len();
        let mut k: usize = 0;
        while k < n
            invariant
                self.wf(),
                *self == *old(self),
                n == function_type.parameter_types@.len(),
                k <= n,
                mapping_distinct(generic_types@),
                forall|j: int| 0 <= j < function_type.parameter_types@.len() ==> #[trigger] function_type.parameter_types@[j].0
                    < self.types@.len(),
                forall|j: int| 0 <= j < generic_types@.len() ==> #[trigger] generic_types@[j].1.0 < self.types@.len(),
                forall|j: int|
                    0 <= j < function_type.parameter_types@.len() && !concrete(self.types@, #[trigger] function_type.parameter_types@[j].0 as int)
                        ==> is_mapped(generic_types@, function_type.parameter_types@[j]),
                parameter_types@ == function_type.parameter_types@.take(k as int).map_values(
                    |p: TypeId| instantiated(old(self).types@, generic_types@, p),
                ),
                forall|j: int| 0 <= j < parameter_types@.len() ==> #[trigger] parameter_types@[j].0 < self.types@.len(),
            decreases n - k,
        {
            let p = function_type.parameter_types[k];
            let t = if self.is_generic(p) {
                let t = look_up(&generic_types, p);
                proof {
                    let c = choose|c: int| 0 <= c < generic_types@.len() && #[trigger] generic_types@[c].0 == p;
                    assert(generic_types@[c].1.0 < self.types@.len());
                }
                t
            } else {
                p
            };
            parameter_types.push(t);
            proof {
                assert(function_type.parameter_types@.take(k + 1) =~= function_type.parameter_types@.take(k as int).push(p));
                assert(parameter_types@ =~= function_type.parameter_types@.take(k + 1).map_values(
                    |p: TypeId| instantiated(old(self).types@, generic_types@, p),
                ));
            }
            k = k + 1;
        }
        assert(function_type.parameter_types@.take(n as int) =~= function_type.parameter_types@);
        let return_type = if self.is_generic(function_type.return_type) {
            let t = look_up(&generic_types, function_type.return_type);
            proof {
                let c = choose|c: int| 0 <= c < generic_types@.len() && #[trigger] generic_types@[c].0 == function_type.return_type;
                assert(generic_types@[c].1.0 < self.types@.len());
            }
            t
        } else {
            function_type.return_type
        };
        self.register_function_type(function_type.identifier, function_type.parameters, parameter_types, return_type)
    }
}

/// The name and size of each field, in order.
pub open spec fn field_sizes(types: Seq<Type>, fields: Seq<(Location, StringId, TypeId)>) -> Seq<(StringId, usize)>
    decreases fields.len(),
{
    if fields.len() == 0 {
        Seq::empty()
    } else {
        field_sizes(types, fields.drop_last()).push(
            (fields.last().1, size_in(types, fields.last().2.0 as int) as usize),
        )
    }
}

/// The sum of the sizes.
pub open spec fn sizes_total(entries: Seq<(StringId, usize)>) -> int
    decreases entries.len(),
{
    if entries.len() == 0 {
        0
    } else {
        sizes_total(entries.drop_last()) + entries.last().1
    }
}

/// Where `e` goes among entries ordered by decreasing size: after every
/// entry at least as large.
pub open spec fn descending_index(sorted: Seq<(StringId, usize)>, e: (StringId, usize), from: int) -> int
    decreases sorted.len() - from,
{
    if from < 0 || from >= sorted.len() {
        sorted.len() as int
    } else if sorted[from].1 < e.1 {
        from
    } else {
        descending_index(sorted, e, from + 1)
    }
}

/// The entries ordered by decreasing size; entries of the same size keep
/// their order.
pub open spec fn by_decreasing_size(entries: Seq<(StringId, usize)>) -> Seq<(StringId, usize)>
    decreases entries.len(),
{
    if entries.len() == 0 {
        Seq::empty()
    } else {
        let sorted = by_decreasing_size(entries.drop_last());
        sorted.insert(descending_index(sorted, entries.last(), 0), entries.last())
    }
}

/// The offsets with `name` at `offset`: an entry of the name is updated,
/// else one is added.
pub open spec fn with_offset(offsets: Seq<(StringId, usize)>, name: StringId, offset: usize) -> Seq<(StringId, usize)> {
    if exists|k: int| 0 <= k < offsets.len() && #[trigger] offsets[k].0 == name {
        offsets.update(choose|k: int| 0 <= k < offsets.len() && #[trigger] offsets[k].0 == name, (name, offset))
    } else {
        offsets.push((name, offset))
    }
}

/// The offsets and the size after laying out the first `n` entries one
/// after another.
pub open spec fn laid_out(entries: Seq<(StringId, usize)>, n: nat) -> (Seq<(StringId, usize)>, int)
    decreases n,
{
    if n == 0 {
        (Seq::empty(), 0)
    } else {
        let (offsets, size) = laid_out(entries, (n - 1) as nat);
        (with_offset(offsets, entries[n - 1].0, size as usize), size + entries[n - 1].1)
    }
}

proof fn lemma_total_insert(sorted: Seq<(StringId, usize)>, i: int, e: (StringId, usize))
    requires
        0 <= i <= sorted.len(),
    ensures
        sizes_total(sorted.insert(i, e)) == sizes_total(sorted) + e.1,
    decreases sorted.len(),
{
    if i < sorted.len() {
        lemma_total_insert(sorted.drop_last(), i, e);
        assert(sorted.insert(i, e).drop_last() =~= sorted.drop_last().insert(i, e));
    } else {
        assert(sorted.insert(i, e).drop_last() =~= sorted);
    }
}

proof fn lemma_sorted_total(entries: Seq<(StringId, usize)>)
    ensures
        sizes_total(by_decreasing_size(entries)) == sizes_total(entries),
        by_decreasing_size(entries).len() == entries.len(),
    decreases entries.len(),
{
    if entries.len() > 0 {
        lemma_sorted_total(entries.drop_last());
        let sorted = by_decreasing_size(entries.drop_last());
        lemma_descending_index_bound(sorted, entries.last(), 0);
        lemma_total_insert(sorted, descending_index(sorted, entries.last(), 0), entries.last());
    }
}

proof fn lemma_descending_index_bound(sorted: Seq<(StringId, usize)>, e: (StringId, usize), from: int)
    ensures
        0 <= from ==> from <= descending_index(sorted, e, from) <= sorted.len() || from > sorted.len(),
        0 <= descending_index(sorted, e, from) <= sorted.len(),
    decreases sorted.len() - from,
{
    if 0 <= from < sorted.len() && !(sorted[from].1 < e.1) {
        lemma_descending_index_bound(sorted, e, from + 1);
    }
}

proof fn lemma_laid_out_size(entries: Seq<(StringId, usize)>, n: nat)
    requires
        n <= entries.len(),
    ensures
        laid_out(entries, n).1 == sizes_total(entries.subrange(0, n as int)),
        names_distinct(laid_out(entries, n).0),
    decreases n,
{
    if n > 0 {
        lemma_laid_out_size(entries, (n - 1) as nat);
        assert(entries.subrange(0, n as int).drop_last() =~= entries.subrange(0, n - 1));
        let (offsets, size) = laid_out(entries, (n - 1) as nat);
        let name = entries[n - 1].0;
        if exists|k: int| 0 <= k < offsets.len() && #[trigger] offsets[k].0 == name {
            let c = choose|k: int| 0 <= k < offsets.len() && #[trigger] offsets[k].0 == name;
            let updated = offsets.update(c, (name, size as usize));
            assert forall|i: int, j: int| 0 <= i < j < updated.len() implies #[trigger] updated[i].0
                != #[trigger] updated[j].0 by {
                assert(offsets[i].0 != offsets[j].0);
            }
        }
    }
}

impl StructLayout {
    /// The layout of a structure: fields ordered by decreasing size (fields
    /// of one size in their order) lie one after another from offset 0; a
    /// name given twice keeps the later offset.
    pub fn from_fields(fields: &[(Location, StringId, TypeId)], types: &Types) -> (r: StructLayout)
        requires
            types.wf(),
            forall|i: int| 0 <= i < fields@.len() ==> has_size(types.types@, (#[trigger] fields@[i]).2.0 as int),
            sizes_total(field_sizes(types.types@, fields@)) <= usize::MAX,
        ensures
            ({
                let sorted = by_decreasing_size(field_sizes(types.types@, fields@));
                let (offsets, size) = laid_out(sorted, sorted.len());
                r.size == size && r.offsets@ == offsets
            }),
            names_distinct(r.offsets@),
    {
        let ghost all = field_sizes(types.types@, fields@);
        if fields.len() == 0 {
            let r = StructLayout::empty();
            assert(r.offsets@ =~= Seq::<(StringId, usize)>::empty());
            return r;
        }
        let mut entries: Vec<(StringId, usize)> = Vec::new();
        let mut i: usize = 0;
        while i < fields.len()
            invariant
                i <= fields@.len(),
                types.wf(),
                forall|j: int| 0 <= j < fields@.len() ==> has_size(types.types@, (#[trigger] fields@[j]).2.0 as int),
                entries@ == field_sizes(types.types@, fields@.subrange(0, i as int)),
            decreases fields@.len() - i,
        {
            let (_, name, t) = fields[i];
            assert(has_size(types.types@, fields@[i as int].2.0 as int));
            let size = types.size_of(t);
            entries.push((name, size));
            proof {
                assert(fields@.subrange(0, i + 1).drop_last() =~= fields@.subrange(0, i as int));
            }
            i = i + 1;
        }
        assert(fields@.subrange(0, fields@.len() as int) =~= fields@);
        let mut sorted: Vec<(StringId, usize)> = Vec::new();
        let mut k: usize = 0;
        proof {
            assert(all.subrange(0, 0) =~= Seq::<(StringId, usize)>::empty());
        }
        while k < entries.len()
            invariant
                k <= entries@.len(),
                entries@ == all,
                sorted@ == by_decreasing_size(all.subrange(0, k as int)),
            decreases entries@.len() - k,
        {
            let e = entries[k];
            let mut j: usize = 0;
            let ghost before = sorted@;
            while j < sorted.len() && sorted[j].1 >= e.1
                invariant
                    j <= sorted@.len(),
                    sorted@ == before,
                    descending_index(before, e, 0) == descending_index(before, e, j as int),
                decreases sorted@.len() - j,
            {
                j = j + 1;
            }
            sorted.insert(j, e);
            proof {
                assert(all.subrange(0, k + 1).drop_last() =~= all.subrange(0, k as int));
                assert(all.subrange(0, k + 1).last() == e);
            }
            k = k + 1;
        }
        assert(all.subrange(0, all.len() as int) =~= all);
        proof {
            lemma_sorted_total(all);
            lemma_laid_out_size(sorted@, sorted@.len());
        }
        let ghost order = sorted@;
        let mut offsets: Vec<(StringId, usize)> = Vec::new();
        let mut size: usize = 0;
        let mut n: usize = 0;
        while n < sorted.len()
            invariant
                n <= order.len(),
                sorted@ == order,
                sizes_total(order) <= usize::MAX,
                (offsets@, size as int) == laid_out(order, n as nat),
            decreases order.len() - n,
        {
            let (name, field_size) = sorted[n];
            proof {
                lemma_laid_out_size(order, n as nat);
                lemma_laid_out_size(order, (n + 1) as nat);
                lemma_total_prefix(order, n + 1);
            }
            let ghost placed = offsets@;
            match find_name(&offsets, name) {
                Some(at) => {
                    proof {
                        let c = choose|c: int| 0 <= c < offsets@.len() && #[trigger] offsets@[c].0 == name;
                        assert(names_distinct(offsets@));
                        if c != at {
                            assert(offsets@[c].0 != offsets@[at as int].0);
                        }
                    }
                    offsets.set(at, (name, size));
                },
                None => {
                    offsets.push((name, size));
                },
            }
            assert(offsets@ == with_offset(placed, name, size));
            size = size + field_size;
            n = n + 1;
        }
        StructLayout { size, offsets }
    }
}

fn find_name(offsets: &Vec<(StringId, usize)>, name: StringId) -> (r: Option<usize>)
    ensures
        match r {
            Some(at) => at < offsets@.len() && offsets@[at as int].0 == name,
            None => forall|l: int| 0 <= l < offsets@.len() ==> #[trigger] offsets@[l].0 != name,
        },
{
    let mut m: usize = 0;
    while m < offsets.len()
        invariant
            m <= offsets@.len(),
            forall|l: int| 0 <= l < m ==> #[trigger] offsets@[l].0 != name,
        decreases offsets@.len() - m,
    {
        if offsets[m].0 == name {
            return Some(m);
        }
        m = m + 1;
    }
    None
}

proof fn lemma_total_prefix(entries: Seq<(StringId, usize)>, n: int)
    requires
        0 <= n <= entries.len(),
    ensures
        sizes_total(entries.subrange(0, n)) <= sizes_total(entries),
    decreases entries.len() - n,
{
    if n < entries.len() {
        lemma_total_prefix(entries, n + 1);
        assert(entries.subrange(0, n + 1).drop_last() =~= entries.subrange(0, n));
        assert(entries.subrange(0, n + 1).last() == entries[n]);
    } else {
        assert(entries.subrange(0, n) =~= entries);
    }
}

/// Whether a type is one of the unsigned integer types.
pub open spec fn is_unsigned_integer(t: Type) -> bool {
    t is UnsignedInteger8 || t is UnsignedInteger16 || t is UnsignedInteger32
}

/// The operand and result types of an arithmetic operation: the left type
/// when it is an unsigned integer, else the right one when that is, else
/// the operands unchanged and the error type as the result.
pub open spec fn resolved_types(types: Seq<Type>, lhs: TypeId, rhs: TypeId) -> (TypeId, TypeId, TypeId) {
    if is_unsigned_integer(types[lhs.0 as int]) {
        (lhs, lhs, lhs)
    } else if is_unsigned_integer(types[rhs.0 as int]) {
        (rhs, rhs, rhs)
    } else {
        (lhs, rhs, TypeId(0))
    }
}

impl BoundBinaryOperator {
    /// The types that the operands take and the type of the result.
    pub fn resolve_types(&self, lhs_id: TypeId, rhs_id: TypeId, expected: TypeId, types: &Types) -> (r: (
        TypeId,
        TypeId,
        TypeId,
    ))
        requires
            lhs_id.0 < types.types@.len(),
            rhs_id.0 < types.types@.len(),
        ensures
            r == resolved_types(types.types@, lhs_id, rhs_id),
    {
        let lhs_integer = match &types.types[lhs_id.0] {
            Type::UnsignedInteger8 | Type::UnsignedInteger16 | Type::UnsignedInteger32 => true,
            _ => false,
        };
        let rhs_integer = match &types.types[rhs_id.0] {
            Type::UnsignedInteger8 | Type::UnsignedInteger16 | Type::UnsignedInteger32 => true,
            _ => false,
        };
        if lhs_integer {
            (lhs_id, lhs_id, lhs_id)
        } else if rhs_integer {
            (rhs_id, rhs_id, rhs_id)
        } else {
            (lhs_id, rhs_id, TypeId(0))
        }
    }
}

} // verus!
