use gbaemu_core::comp::const_evaluator::{evaluate_binary_values, read_value, ConstEvaluator};
use gbaemu_core::comp::lexer::{Token, TokenKind};
use gbaemu_core::comp::memory::{Bound, Memoryblock};
use gbaemu_core::comp::source::{Location, SourceTextId, Span, StringId, StringInterner};
use gbaemu_core::comp::traits::{Trait, TraitFunction, TraitId, TraitImplementors, Traits};
use gbaemu_core::comp::types::{BoundBinaryOperator, BoundId, ConversionKind, TypeId, Value};
use gbaemu_core::comp::typing::{StructLayout, StructType, Type, Types};
use gbaemu_core::comp::variables::VariableId;

fn here() -> Location {
    Location { span: Span { start: 0, len: 1 }, file: SourceTextId(0) }
}

#[test]
fn builtin_types_have_names_and_sizes() {
    let mut strings = StringInterner::new();
    let types = Types::new(&mut strings);
    assert_eq!(types.types.len(), 9);
    let u16_name = strings.intern("u16".to_string());
    assert_eq!(types.find_by_name(u16_name), Some(TypeId(6)));
    assert_eq!(types.size_of(TypeId(6)), 2);
    assert_eq!(types.size_of(TypeId(8)), 1);
    assert_eq!(types.to_string(TypeId(7), &strings), "u32");
    assert_eq!(types.to_string(TypeId(0), &strings), "#error");
    assert!(types.is_concrete(TypeId(4)));
    assert!(!types.is_concrete(TypeId(2)));
}

#[test]
fn composite_types() {
    let mut strings = StringInterner::new();
    let mut types = Types::new(&mut strings);
    let array = types.register(Type::Array(TypeId(6), 3));
    assert_eq!(array, TypeId(9));
    assert_eq!(types.register(Type::Array(TypeId(6), 3)), array);
    assert_eq!(types.size_of(array), 6);
    assert_eq!(types.to_string(array, &strings), "[u16; 3]");
    let reference = types.register(Type::Reference(array));
    assert_eq!(types.to_string(reference, &strings), "&[u16; 3]");
    assert!(types.is_concrete(reference));
    let literal = types.register(Type::IntegerLiteral(300));
    assert!(!types.is_concrete(literal));
    assert_eq!(types.make_concrete(literal), TypeId(7));
    let f = types.register_function_type(StringId(0), vec![VariableId(1, StringId(0))], vec![TypeId(7)], TypeId(8));
    assert_eq!(f.id, TypeId(12));
    let id = f.id;
    assert_eq!(types.to_string(id, &strings), "Fn<(u32), bool>");
    let again = types.register_function_type(StringId(0), vec![VariableId(1, StringId(0))], vec![TypeId(7)], TypeId(8));
    assert_eq!(again.id, id);
    assert_eq!(types.types.len(), 13);
}

#[test]
fn struct_fields_and_generics() {
    let mut strings = StringInterner::new();
    let mut types = Types::new(&mut strings);
    let point = strings.intern("Point".to_string());
    let x = strings.intern("x".to_string());
    let layout = StructLayout { size: 8, offsets: vec![(x, 0)] };
    let point_type = types.register(Type::Struct(StructType {
        identifier: VariableId(0, point),
        fields: vec![(here(), x, TypeId(7))],
        layout,
    }));
    let reference = types.register(Type::Reference(point_type));
    assert_eq!(types.field_type(reference, x), Some(TypeId(7)));
    assert_eq!(types.field_type(reference, point), None);
    assert_eq!(types.to_string(point_type, &strings), "Point");
    assert_eq!(types.size_of(point_type), 8);
    assert!(types.as_struct_type(reference).is_some());
    let t = strings.intern("T".to_string());
    let generic = types.create_generic_type(t);
    assert_eq!(types.find_by_name(t), Some(generic));
    assert!(types.is_generic(generic));
    let f = FunctionTypeArgs::identity(generic);
    let instantiated = types.instantiate(f, vec![(generic, TypeId(5))]);
    assert_eq!(instantiated.parameter_types, vec![TypeId(5)]);
    assert_eq!(instantiated.return_type, TypeId(5));
}

struct FunctionTypeArgs;
impl FunctionTypeArgs {
    fn identity(t: TypeId) -> gbaemu_core::comp::typing::FunctionType {
        gbaemu_core::comp::typing::FunctionType {
            id: TypeId(usize::MAX),
            identifier: StringId(0),
            parameters: vec![VariableId(7, StringId(0))],
            parameter_types: vec![t],
            return_type: t,
        }
    }
}

#[test]
fn conversions() {
    let mut strings = StringInterner::new();
    let mut types = Types::new(&mut strings);
    let small = types.register(Type::IntegerLiteral(200));
    let big = types.register(Type::IntegerLiteral(70000));
    assert!(ConversionKind::Implicit.convert(small, TypeId(5), &mut types));
    assert!(!ConversionKind::Implicit.convert(big, TypeId(6), &mut types));
    assert!(ConversionKind::Implicit.convert(big, TypeId(7), &mut types));
    assert!(ConversionKind::Implicit.convert(TypeId(0), TypeId(8), &mut types));
    assert!(!ConversionKind::Implicit.convert(TypeId(8), TypeId(7), &mut types));
    let array = types.register(Type::Array(TypeId(5), 4));
    let open = types.register(Type::ArrayUnknownLength(TypeId(5)));
    assert!(ConversionKind::Implicit.convert(array, open, &mut types));
    assert!(ConversionKind::Instantiation.convert(small, TypeId(7), &mut types));
    assert!(!ConversionKind::Instantiation.convert(TypeId(5), TypeId(7), &mut types));
}

#[test]
fn traits_and_implementors() {
    let mut traits = Traits::new();
    let name = VariableId(1, StringId(4));
    let f = TraitFunction { type_: TypeId(7), name: VariableId(2, StringId(5)), implementation: BoundId(9) };
    let id = traits.register(Trait { name, functions: vec![f] });
    assert_eq!(id, TraitId(0));
    assert_eq!(traits.register(Trait { name, functions: Vec::new() }), TraitId(0));
    assert_eq!(traits.get(id).find_function_by_name(StringId(5)), Some(f));
    assert_eq!(traits.get(id).find_function_by_name(StringId(6)), None);
    let mut implementors = TraitImplementors::new();
    implementors.register(TypeId(7), id);
    implementors.register(TypeId(7), TraitId(3));
    assert_eq!(implementors.find_traits(TypeId(7)), &[TraitId(0), TraitId(3)]);
    assert!(implementors.find_traits(TypeId(8)).is_empty());
}

#[test]
fn constant_arithmetic() {
    let u8t = TypeId(5);
    let u32t = TypeId(7);
    assert_eq!(
        evaluate_binary_values(BoundBinaryOperator::Addition, u8t, u8t, Value::UnsignedInteger8(250), Value::UnsignedInteger8(10)),
        Some(Value::UnsignedInteger8(4))
    );
    assert_eq!(
        evaluate_binary_values(BoundBinaryOperator::Subtraction, u32t, u32t, Value::UnsignedInteger32(1), Value::UnsignedInteger32(2)),
        Some(Value::UnsignedInteger32(u32::MAX))
    );
    assert_eq!(
        evaluate_binary_values(BoundBinaryOperator::Multiplication, TypeId(6), TypeId(6), Value::UnsignedInteger16(300), Value::UnsignedInteger16(300)),
        Some(Value::UnsignedInteger16(24464))
    );
    assert_eq!(
        evaluate_binary_values(BoundBinaryOperator::Modulo, u32t, u32t, Value::UnsignedInteger32(17), Value::UnsignedInteger32(5)),
        Some(Value::UnsignedInteger32(2))
    );
    assert_eq!(
        evaluate_binary_values(BoundBinaryOperator::Division, u32t, u32t, Value::Error, Value::UnsignedInteger32(0)),
        Some(Value::Error)
    );
    assert_eq!(
        evaluate_binary_values(BoundBinaryOperator::Division, u32t, u32t, Value::UnsignedInteger8(1), Value::UnsignedInteger32(1)),
        None
    );
    let mut evaluator = ConstEvaluator::new();
    let v = VariableId(1, StringId(1));
    assert_eq!(evaluator.read(v), None);
    evaluator.assign_variable(v, Value::Bool(true));
    evaluator.assign_variable(v, Value::UnsignedInteger8(3));
    assert_eq!(evaluator.read(v), Some(Value::UnsignedInteger8(3)));
    assert_eq!(evaluator.variables.len(), 1);
}

#[test]
fn struct_fields_are_laid_out_largest_first() {
    let mut strings = StringInterner::new();
    let types = Types::new(&mut strings);
    let fields = vec![
        (here(), StringId(20), TypeId(5)),
        (here(), StringId(21), TypeId(7)),
        (here(), StringId(22), TypeId(6)),
        (here(), StringId(23), TypeId(7)),
    ];
    let layout = StructLayout::from_fields(&fields, &types);
    assert_eq!(layout.size, 11);
    assert_eq!(
        layout.offsets,
        vec![
            (StringId(21), 0),
            (StringId(23), 4),
            (StringId(22), 8),
            (StringId(20), 10)
        ]
    );
    let empty = StructLayout::from_fields(&[], &types);
    assert_eq!(empty.size, 0);
    assert!(empty.offsets.is_empty());
}

#[test]
fn arithmetic_takes_the_integer_operand_type() {
    let mut strings = StringInterner::new();
    let types = Types::new(&mut strings);
    let op = BoundBinaryOperator::Addition;
    assert_eq!(
        op.resolve_types(TypeId(6), TypeId(7), TypeId(0), &types),
        (TypeId(6), TypeId(6), TypeId(6))
    );
    assert_eq!(
        op.resolve_types(TypeId(8), TypeId(5), TypeId(0), &types),
        (TypeId(5), TypeId(5), TypeId(5))
    );
    assert_eq!(
        op.resolve_types(TypeId(8), TypeId(2), TypeId(0), &types),
        (TypeId(8), TypeId(2), TypeId(0))
    );
}

#[test]
fn values_are_read_back_from_compile_time_memory() {
    let mut strings = StringInterner::new();
    let types = Types::new(&mut strings);
    let mut memory: Memoryblock<Bound> = Memoryblock::new();
    let start = memory.allocate(8);
    memory.write_value(start, Value::UnsignedInteger16(0x1234));
    memory.write_value(start + 2, Value::Bool(true));
    memory.write_value(start + 3, Value::UnsignedInteger32(0xdead_beef));
    let mut ptr = start;
    assert_eq!(read_value(&memory, &mut ptr, TypeId(6), &types), Value::UnsignedInteger16(0x1234));
    assert_eq!(ptr, start + 2);
    assert_eq!(read_value(&memory, &mut ptr, TypeId(8), &types), Value::Bool(true));
    assert_eq!(read_value(&memory, &mut ptr, TypeId(7), &types), Value::UnsignedInteger32(0xdead_beef));
    assert_eq!(ptr, start + 7);
    // Past the end the bytes read as zero.
    assert_eq!(read_value(&memory, &mut ptr, TypeId(4), &types), Value::Pointer(0));
    assert_eq!(ptr, start + 11);
}

#[test]
fn location_covering_several() {
    let at = |start: usize, len: usize| Location { span: Span { start, len }, file: SourceTextId(0) };
    let tokens = vec![
        Token::generate(TokenKind::Identifier, at(5, 2)),
        Token::generate(TokenKind::Comma, at(1, 1)),
        Token::generate(TokenKind::Integer, at(9, 3)),
    ];
    assert_eq!(Location::from_vec(&tokens), Some(at(1, 11)));
    assert_eq!(Location::from_vec::<Token>(&[]), None);
}

#[test]
fn types_register_a_reference_to_a_later_type() {
    let mut strings = StringInterner::new();
    let mut types = Types::new(&mut strings);
    let forward = types.register(Type::Reference(TypeId(40)));
    assert_eq!(forward, TypeId(9));
    assert_eq!(types.register(Type::Reference(TypeId(40))), TypeId(9));
    let reserved = types.reserve();
    types.set(reserved, Type::Reference(reserved));
    assert!(matches!(types.types[10], Type::Reference(TypeId(10))));
}
