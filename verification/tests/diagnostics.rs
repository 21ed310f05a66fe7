use gbaemu_core::comp::lexer::TokenKind;
use gbaemu_core::comp::compiler::Compiler;
use gbaemu_core::comp::diagnostics::Diagnostics;
use gbaemu_core::comp::source::{Location, SourceText, SourceTextId, Span, StringInterner};
use gbaemu_core::comp::types::TypeId;
use gbaemu_core::comp::typing::Types;

fn at(start: usize) -> Location {
    Location {
        span: Span { start, len: 1 },
        file: SourceTextId(0),
    }
}

#[test]
fn diagnostics_are_written_with_file_line_and_column() {
    let mut files = SourceText::empty();
    files.add("test.gba".to_string(), "a\nbc$\n".to_string());
    let mut strings = StringInterner::new();
    let types = Types::new(&mut strings);
    let name = strings.intern("foo".to_string());
    let outer = strings.intern("outer".to_string());
    let inner = strings.intern("inner".to_string());

    let mut diagnostics = Diagnostics::empty();
    diagnostics.report_missing_comma(at(3));
    diagnostics.report_invalid_char(at(4), '$');
    diagnostics.report_cannot_convert(at(0), TypeId(7), TypeId(8));
    diagnostics.report_cannot_find_variable_by_name(at(2), &[outer, inner], name);

    let mut out = String::new();
    diagnostics.write_to(&mut out, &files, &types, &strings);
    assert_eq!(
        out,
        "[test.gba:2:1] There is a comma missing here.\n\
         [test.gba:2:2] Unexpected char $ in input!\n\
         [test.gba:1:0] Cannot implicitly convert from u32 to bool\n\
         [test.gba:2:0] No variable named foo in this scope outer::inner::\n"
    );
}

#[test]
fn writing_appends_to_what_is_there() {
    let mut files = SourceText::empty();
    files.add("x".to_string(), "abc".to_string());
    let mut strings = StringInterner::new();
    let types = Types::new(&mut strings);
    let mut out = String::from("> ");
    Diagnostics::empty().write_to(&mut out, &files, &types, &strings);
    assert_eq!(out, "> ");
}

#[test]
fn compiler_interns_locations_and_writes_its_diagnostics() {
    let mut compiler = Compiler::new();
    let file = compiler.add_file("main.gba".to_string(), "fn main() {}\nfn main".to_string());
    assert_eq!(file, SourceTextId(0));
    let first = Location { span: Span { start: 3, len: 4 }, file };
    let second = Location { span: Span { start: 16, len: 4 }, file };
    let a = compiler.intern_location(first);
    let b = compiler.intern_location(second);
    assert_eq!(a, b);
    assert_eq!(compiler.strings.get(a), "main");
    compiler.diagnostics.report_cannot_redeclare_variable(second, first);
    let mut out = String::new();
    compiler.write_diagnostics(&mut out);
    assert_eq!(
        out,
        "[main.gba:2:3] Variable with this name has been already declared and cannot be declared again.\n\
         [main.gba:1:3] The previous conflicting declaration was here.\n"
    );
}

#[test]
fn compiler_starts_with_the_built_in_types_and_their_names() {
    let mut compiler = Compiler::new();
    assert_eq!(compiler.types.types.len(), 9);
    assert!(matches!(compiler.types.types[0], gbaemu_core::comp::typing::Type::Error));
    assert!(matches!(compiler.types.types[8], gbaemu_core::comp::typing::Type::Bool));
    assert_eq!(compiler.strings.intern("void".to_string()).0, 0);
    assert_eq!(compiler.strings.intern("u8".to_string()).0, 1);
    assert_eq!(compiler.strings.intern("ptr".to_string()).0, 5);
    assert_eq!(compiler.strings.intern("x".to_string()).0, 6);
    assert_eq!(compiler.types.names[1], (TypeId(5), gbaemu_core::comp::source::StringId(1)));
}

#[test]
fn compiler_lexes_a_file_up_to_its_end() {
    let mut compiler = Compiler::new();
    let file = compiler.add_file("main.comp".to_string(), "const x = 12 # 3;".to_string());
    let tokens = compiler.lex(file);
    let kinds: Vec<TokenKind> = tokens.iter().map(|t| t.kind).collect();
    assert_eq!(
        kinds,
        vec![
            TokenKind::ConstKeyword,
            TokenKind::Identifier,
            TokenKind::Equals,
            TokenKind::Integer,
            TokenKind::Error,
            TokenKind::Integer,
            TokenKind::Semicolon,
            TokenKind::Eof,
        ]
    );
    assert_eq!(tokens[3].location.span.start, 10);
    assert_eq!(tokens[3].location.span.len, 2);
    assert_eq!(compiler.diagnostics.len(), 1);
}
