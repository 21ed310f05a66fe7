//! Diagnostics: what the compiler reports about a program, and where.
use vstd::prelude::*;
use vstd::string::StringExecFns;

use crate::commands::{decimal_digits, decimal_string_usize};
use crate::comp::lexer::{kind_name, TokenKind};
use crate::comp::source::{count_at_most, Location, SourceText, StringId, StringInterner};
use crate::comp::types::{operator_verb, BoundBinaryOperator, TypeId};
use crate::comp::typing::{type_text, Type, Types};

verus! {

/// A piece of a composed message.
#[derive(Debug)]
pub enum MessagePart {
    Text(String),
    Char(char),
    Name(StringId),
    Type(TypeId),
    Namespace(Vec<StringId>),
}

/// A piece of a message as contracts see it.
pub enum PartView {
    Text(Seq<char>),
    Char(char),
    Name(StringId),
    Type(TypeId),
    Namespace(Seq<StringId>),
}

impl View for MessagePart {
    type V = PartView;

    open spec fn view(&self) -> PartView {
        match self {
            MessagePart::Text(s) => PartView::Text(s@),
            MessagePart::Char(c) => PartView::Char(*c),
            MessagePart::Name(n) => PartView::Name(*n),
            MessagePart::Type(t) => PartView::Type(*t),
            MessagePart::Namespace(v) => PartView::Namespace(v@),
        }
    }
}

/// The text of a diagnostic: plain, or composed of parts that name
/// strings and types.
#[derive(Debug)]
pub enum DiagnosticMessage {
    String(String),
    Format(Vec<MessagePart>),
}

/// A message as contracts see it.
pub enum MessageView {
    String(Seq<char>),
    Format(Seq<PartView>),
}

impl View for DiagnosticMessage {
    type V = MessageView;

    open spec fn view(&self) -> MessageView {
        match self {
            DiagnosticMessage::String(s) => MessageView::String(s@),
            DiagnosticMessage::Format(parts) => MessageView::Format(
                parts@.map_values(|p: MessagePart| p@),
            ),
        }
    }
}

/// A message at a location.
#[derive(Debug)]
pub struct Diagnostic {
    pub location: Location,
    pub message: DiagnosticMessage,
}

/// A diagnostic as contracts see it.
pub struct DiagnosticView {
    pub location: Location,
    pub message: MessageView,
}

impl View for Diagnostic {
    type V = DiagnosticView;

    open spec fn view(&self) -> DiagnosticView {
        DiagnosticView { location: self.location, message: self.message@ }
    }
}

fn text(s: &str) -> (r: MessagePart)
    ensures
        r@ == PartView::Text(s@),
{
    MessagePart::Text(String::from_str(s))
}

fn plain(s: &str) -> (r: DiagnosticMessage)
    ensures
        r@ == MessageView::String(s@),
{
    DiagnosticMessage::String(String::from_str(s))
}

fn format(parts: Vec<MessagePart>) -> (r: DiagnosticMessage)
    ensures
        r@ == MessageView::Format(parts@.map_values(|p: MessagePart| p@)),
{
    DiagnosticMessage::Format(parts)
}

/// The diagnostics reported so far, in order.
pub struct Diagnostics {
    diagnostics: Vec<Diagnostic>,
}

impl View for Diagnostics {
    type V = Seq<DiagnosticView>;

    closed spec fn view(&self) -> Seq<DiagnosticView> {
        self.diagnostics@.map_values(|d: Diagnostic| d@)
    }
}

pub open spec fn diag(location: Location, message: MessageView) -> DiagnosticView {
    DiagnosticView { location, message }
}

impl Diagnostics {
    pub fn empty() -> (r: Diagnostics)
        ensures
            r@ == Seq::<DiagnosticView>::empty(),
    {
        let r = Diagnostics { diagnostics: Vec::new() };
        assert(r@ =~= Seq::<DiagnosticView>::empty());
        r
    }

    /// The number of diagnostics.
    pub fn len(&self) -> (r: usize)
        ensures
            r == self@.len(),
    {
        self.diagnostics.len()
    }

    /// The diagnostic at `index`.
    pub fn get(&self, index: usize) -> (r: &Diagnostic)
        requires
            index < self@.len(),
        ensures
            r@ == self@[index as int],
    {
        &self.diagnostics[index]
    }

    fn push(&mut self, location: Location, message: DiagnosticMessage)
        ensures
            final(self)@ == old(self)@.push(diag(location, message@)),
    {
        self.diagnostics.push(Diagnostic { location, message });
        proof {
            assert(self@ =~= old(self)@.push(diag(location, message@)));
        }
    }

    /// Reports an unexpected character.
    pub fn report_invalid_char(&mut self, location: Location, ch: char)
        ensures
            final(self)@ == old(self)@.push(diag(location, MessageView::Format(seq![PartView::Text("Unexpected char "@), PartView::Char(ch), PartView::Text(" in input!"@)]))),
    {
        let parts = vec![text("Unexpected char "), MessagePart::Char(ch), text(" in input!")];
        assert(parts@.map_values(|p: MessagePart| p@) =~= seq![PartView::Text("Unexpected char "@), PartView::Char(ch), PartView::Text(" in input!"@)]);
        let m = format(parts);
        self.push(location, m);
    }

    /// Reports a missing comma.
    pub fn report_missing_comma(&mut self, location: Location)
        ensures
            final(self)@ == old(self)@.push(diag(location, MessageView::String("There is a comma missing here."@))),
    {
        let m = plain("There is a comma missing here.");
        self.push(location, m);
    }

    /// Reports a type generic marked as an output.
    pub fn report_cannot_declare_type_generics_as_out(&mut self, location: Location)
        ensures
            final(self)@ == old(self)@.push(diag(location, MessageView::String("Generic cannot be marked as out, since it has no type set."@))),
    {
        let m = plain("Generic cannot be marked as out, since it has no type set.");
        self.push(location, m);
    }

    /// Reports a keyword used as a name.
    pub fn report_cannot_use_reserved_keyword(&mut self, location: Location, keyword: &str)
        ensures
            final(self)@ == old(self)@.push(diag(location, MessageView::Format(seq![PartView::Text("Cannot use keyword `"@), PartView::Text(keyword@), PartView::Text("` here."@)]))),
    {
        let parts = vec![text("Cannot use keyword `"), text(keyword), text("` here.")];
        assert(parts@.map_values(|p: MessagePart| p@) =~= seq![PartView::Text("Cannot use keyword `"@), PartView::Text(keyword@), PartView::Text("` here."@)]);
        let m = format(parts);
        self.push(location, m);
    }

    /// Reports a statement that cannot stand at the top level.
    pub fn report_invalid_top_level_statement(&mut self, location: Location, found: TokenKind)
        ensures
            final(self)@ == old(self)@.push(diag(location, MessageView::Format(seq![PartView::Text("Only const declarations and function definitions are valid here. Found a/an "@), PartView::Text(kind_name(found)), PartView::Text(" instead."@)]))),
    {
        let parts = vec![
            text("Only const declarations and function definitions are valid here. Found a/an "),
            text(found.diagnostic_name()),
            text(" instead."),
        ];
        assert(parts@.map_values(|p: MessagePart| p@) =~= seq![PartView::Text("Only const declarations and function definitions are valid here. Found a/an "@), PartView::Text(kind_name(found)), PartView::Text(" instead."@)]);
        let m = format(parts);
        self.push(location, m);
    }

    /// Reports a token that starts no expression.
    pub fn report_cannot_parse_as_expression(&mut self, location: Location, unexpected: TokenKind)
        ensures
            final(self)@ == old(self)@.push(diag(location, MessageView::Format(seq![PartView::Text("Cannot parse a/an "@), PartView::Text(kind_name(unexpected)), PartView::Text(" as an expression."@)]))),
    {
        let parts = vec![
            text("Cannot parse a/an "),
            text(unexpected.diagnostic_name()),
            text(" as an expression."),
        ];
        assert(parts@.map_values(|p: MessagePart| p@) =~= seq![PartView::Text("Cannot parse a/an "@), PartView::Text(kind_name(unexpected)), PartView::Text(" as an expression."@)]);
        let m = format(parts);
        self.push(location, m);
    }

    /// Reports a malformed type.
    pub fn report_invalid_type_identifier_format(&mut self, location: Location, unexpected: TokenKind)
        ensures
            final(self)@ == old(self)@.push(diag(location, MessageView::Format(seq![PartView::Text("Type identifiers must be either written as `typeName` or as `[typeName; NUMBER]`, found a/an "@), PartView::Text(kind_name(unexpected)), PartView::Text(" instead."@)]))),
    {
        let parts = vec![
            text(
                "Type identifiers must be either written as `typeName` or as `[typeName; NUMBER]`, found a/an ",
            ),
            text(unexpected.diagnostic_name()),
            text(" instead."),
        ];
        assert(parts@.map_values(|p: MessagePart| p@) =~= seq![PartView::Text("Type identifiers must be either written as `typeName` or as `[typeName; NUMBER]`, found a/an "@), PartView::Text(kind_name(unexpected)), PartView::Text(" instead."@)]);
        let m = format(parts);
        self.push(location, m);
    }

    /// Reports an unknown type name.
    pub fn report_cannot_find_type(&mut self, location: Location, name: StringId)
        ensures
            final(self)@ == old(self)@.push(diag(location, MessageView::Format(seq![PartView::Text("No type named "@), PartView::Name(name), PartView::Text(" could be found."@)]))),
    {
        let parts = vec![text("No type named "), MessagePart::Name(name), text(" could be found.")];
        assert(parts@.map_values(|p: MessagePart| p@) =~= seq![PartView::Text("No type named "@), PartView::Name(name), PartView::Text(" could be found."@)]);
        let m = format(parts);
        self.push(location, m);
    }

    /// Reports a type that is not known at compile time.
    pub fn report_non_const_value_in_type(&mut self, location: Location)
        ensures
            final(self)@ == old(self)@.push(diag(location, MessageView::String("Expression did not evaluate at compile time. Is it not const?"@))),
    {
        let m = plain("Expression did not evaluate at compile time. Is it not const?");
        self.push(location, m);
    }

    /// Reports a const declaration whose value is not known at compile time.
    pub fn report_non_const_value_in_const_declaration(&mut self, location: Location)
        ensures
            final(self)@ == old(self)@.push(diag(location, MessageView::String("The value cannot be computed at compile time and can therefore not be used in a const declaration."@))),
    {
        let m = plain(
            "The value cannot be computed at compile time and can therefore not be used in a const declaration.",
        );
        self.push(location, m);
    }

    /// Reports an integer literal that does not fit its type.
    pub fn report_cannot_parse_integer_literal_to(&mut self, location: Location, expected: TypeId)
        ensures
            final(self)@ == old(self)@.push(diag(location, MessageView::Format(seq![PartView::Text("Value is not a valid representation for "@), PartView::Type(expected)]))),
    {
        let parts = vec![text("Value is not a valid representation for "), MessagePart::Type(expected)];
        assert(parts@.map_values(|p: MessagePart| p@) =~= seq![PartView::Text("Value is not a valid representation for "@), PartView::Type(expected)]);
        let m = format(parts);
        self.push(location, m);
    }

    /// Reports a value of a type that does not convert to the expected one.
    pub fn report_cannot_convert(&mut self, location: Location, from: TypeId, to: TypeId)
        ensures
            final(self)@ == old(self)@.push(diag(location, MessageView::Format(seq![PartView::Text("Cannot implicitly convert from "@), PartView::Type(from), PartView::Text(" to "@), PartView::Type(to)]))),
    {
        let parts = vec![
            text("Cannot implicitly convert from "),
            MessagePart::Type(from),
            text(" to "),
            MessagePart::Type(to),
        ];
        assert(parts@.map_values(|p: MessagePart| p@) =~= seq![PartView::Text("Cannot implicitly convert from "@), PartView::Type(from), PartView::Text(" to "@), PartView::Type(to)]);
        let m = format(parts);
        self.push(location, m);
    }

    /// Reports an operator applied to types it does not take.
    pub fn report_invalid_binary_operation(&mut self, location: Location, lhs_type: TypeId, op: BoundBinaryOperator, rhs_type: TypeId)
        ensures
            final(self)@ == old(self)@.push(diag(location, MessageView::Format(seq![PartView::Text("Cannot "@), PartView::Text(operator_verb(op)), PartView::Text(" a/an "@), PartView::Type(lhs_type), PartView::Text(" and a/an "@), PartView::Type(rhs_type)]))),
    {
        let parts = vec![
            text("Cannot "),
            text(op.diagnostic_name()),
            text(" a/an "),
            MessagePart::Type(lhs_type),
            text(" and a/an "),
            MessagePart::Type(rhs_type),
        ];
        assert(parts@.map_values(|p: MessagePart| p@) =~= seq![PartView::Text("Cannot "@), PartView::Text(operator_verb(op)), PartView::Text(" a/an "@), PartView::Type(lhs_type), PartView::Text(" and a/an "@), PartView::Type(rhs_type)]);
        let m = format(parts);
        self.push(location, m);
    }

    /// Reports an unknown variable; with namespaces, the message names them.
    pub fn report_cannot_find_variable_by_name(
        &mut self,
        location: Location,
        namespaces: &[StringId],
        identifier: StringId,
    )
        ensures
            final(self)@ == old(self)@.push(
                diag(
                    location,
                    if namespaces@.len() == 0 {
                        MessageView::Format(
                            seq![
                                PartView::Text("No variable named "@),
                                PartView::Name(identifier),
                                PartView::Text(" could be found in the current scope."@),
                            ],
                        )
                    } else {
                        MessageView::Format(
                            seq![
                                PartView::Text("No variable named "@),
                                PartView::Name(identifier),
                                PartView::Text(" in this scope "@),
                                PartView::Namespace(namespaces@),
                            ],
                        )
                    },
                ),
            ),
    {
        let m = if namespaces.len() == 0 {
            let parts = vec![
                text("No variable named "),
                MessagePart::Name(identifier),
                text(" could be found in the current scope."),
            ];
            assert(parts@.map_values(|p: MessagePart| p@) =~= seq![
                PartView::Text("No variable named "@),
                PartView::Name(identifier),
                PartView::Text(" could be found in the current scope."@),
            ]);
            format(parts)
        } else {
            let mut names: Vec<StringId> = Vec::new();
            let mut i: usize = 0;
            while i < namespaces.len()
                invariant
                    i <= namespaces@.len(),
                    names@ == namespaces@.subrange(0, i as int),
                decreases namespaces@.len() - i,
            {
                names.push(namespaces[i]);
                i = i + 1;
                assert(names@ =~= namespaces@.subrange(0, i as int));
            }
            assert(names@ =~= namespaces@);
            let parts = vec![
                text("No variable named "),
                MessagePart::Name(identifier),
                text(" in this scope "),
                MessagePart::Namespace(names),
            ];
            assert(parts@.map_values(|p: MessagePart| p@) =~= seq![
                PartView::Text("No variable named "@),
                PartView::Name(identifier),
                PartView::Text(" in this scope "@),
                PartView::Namespace(namespaces@),
            ]);
            format(parts)
        };
        self.push(location, m);
    }

    /// Reports a second declaration of a name, and where the first one is.
    pub fn report_cannot_redeclare_variable(&mut self, location: Location, previous: Location)
        ensures
            final(self)@ == old(self)@.push(
                diag(
                    location,
                    MessageView::String(
                        "Variable with this name has been already declared and cannot be declared again."@,
                    ),
                ),
            ).push(
                diag(
                    previous,
                    MessageView::String("The previous conflicting declaration was here."@),
                ),
            ),
    {
        let m = plain(
            "Variable with this name has been already declared and cannot be declared again.",
        );
        self.push(location, m);
        let m = plain("The previous conflicting declaration was here.");
        self.push(previous, m);
    }
}

/// Each name of `names` followed by `::`.
pub open spec fn names_text(strings: Seq<Seq<char>>, names: Seq<StringId>) -> Seq<char>
    decreases names.len(),
{
    if names.len() == 0 {
        Seq::empty()
    } else {
        names_text(strings, names.drop_last()) + strings[names.last().0 as int] + "::"@
    }
}

/// How a part of a message reads: text as it is, a name as the string it
/// names, a type as the type table writes it, a namespace as its names
/// each followed by `::`.
pub open spec fn part_text(p: PartView, types: Seq<Type>, strings: Seq<Seq<char>>) -> Seq<char> {
    match p {
        PartView::Text(t) => t,
        PartView::Char(c) => seq![c],
        PartView::Name(n) => strings[n.0 as int],
        PartView::Type(t) => type_text(types, strings, t.0 as int),
        PartView::Namespace(ns) => names_text(strings, ns),
    }
}

/// The parts of a message one after another.
pub open spec fn parts_text(parts: Seq<PartView>, types: Seq<Type>, strings: Seq<Seq<char>>) -> Seq<char>
    decreases parts.len(),
{
    if parts.len() == 0 {
        Seq::empty()
    } else {
        parts_text(parts.drop_last(), types, strings) + part_text(parts.last(), types, strings)
    }
}

/// How a message reads.
pub open spec fn message_text(m: MessageView, types: Seq<Type>, strings: Seq<Seq<char>>) -> Seq<char> {
    match m {
        MessageView::String(t) => t,
        MessageView::Format(parts) => parts_text(parts, types, strings),
    }
}

/// Whether every name and type that a part refers to is in the tables.
pub open spec fn part_resolves(p: PartView, type_count: nat, string_count: nat) -> bool {
    match p {
        PartView::Name(n) => n.0 < string_count,
        PartView::Type(t) => t.0 < type_count,
        PartView::Namespace(ns) => names_resolve(ns, string_count),
        _ => true,
    }
}

/// Whether every name of `names` is in a table of `string_count` strings.
pub open spec fn names_resolve(names: Seq<StringId>, string_count: nat) -> bool {
    forall|i: int| 0 <= i < names.len() ==> (#[trigger] names[i]).0 < string_count
}

/// Whether every part of a message resolves.
pub open spec fn message_resolves(m: MessageView, type_count: nat, string_count: nat) -> bool {
    match m {
        MessageView::String(_) => true,
        MessageView::Format(parts) => parts_resolve(parts, type_count, string_count),
    }
}

/// Whether every part of `parts` resolves.
pub open spec fn parts_resolve(parts: Seq<PartView>, type_count: nat, string_count: nat) -> bool {
    forall|i: int| 0 <= i < parts.len() ==> part_resolves(#[trigger] parts[i], type_count, string_count)
}

/// The line on which a diagnostic is written: its file, line and column in
/// brackets, then its message.
pub open spec fn diagnostic_line(
    d: DiagnosticView,
    files: SourceText,
    types: Seq<Type>,
    strings: Seq<Seq<char>>,
) -> Seq<char> {
    let f = files.files()[d.location.file.0 as int];
    let line = count_at_most(f.starts(), d.location.span.start);
    let column = (d.location.span.start - f.starts()[line - 1]) as nat;
    "["@ + f.name() + ":"@ + decimal_digits(line) + ":"@ + decimal_digits(column) + "] "@ + message_text(
        d.message,
        types,
        strings,
    ) + "\n"@
}

/// The lines of the first `n` diagnostics.
pub open spec fn diagnostics_text(
    ds: Seq<DiagnosticView>,
    files: SourceText,
    types: Seq<Type>,
    strings: Seq<Seq<char>>,
    n: nat,
) -> Seq<char>
    decreases n,
{
    if n == 0 {
        Seq::empty()
    } else {
        diagnostics_text(ds, files, types, strings, (n - 1) as nat) + diagnostic_line(
            ds[n - 1],
            files,
            types,
            strings,
        )
    }
}

/// Whether `types` and `strings` can write every part of `m`.
pub open spec fn can_write_message(m: MessageView, types: &Types, strings: &StringInterner) -> bool {
    &&& types.wf()
    &&& types.names_below(strings@.len())
    &&& message_resolves(m, types.types@.len(), strings@.len())
}

/// `String::push`: std documents that it appends the character to the
/// end of the string.
#[verifier::external_body]
fn push_char(out: &mut String, c: char)
    ensures
        final(out)@ == old(out)@.push(c),
{
    out.push(c);
}

fn write_names(out: &mut String, names: &Vec<StringId>, strings: &StringInterner)
    requires
        names_resolve(names@, strings@.len()),
    ensures
        final(out)@ == old(out)@ + names_text(strings@, names@),
{
    proof {
        reveal_strlit("::");
    }
    let mut i: usize = 0;
    while i < names.len()
        invariant
            i <= names@.len(),
            forall|k: int| 0 <= k < names@.len() ==> (#[trigger] names@[k]).0 < strings@.len(),
            out@ == old(out)@ + names_text(strings@, names@.subrange(0, i as int)),
        decreases names@.len() - i,
    {
        let name = strings.get(names[i]);
        out.append(name);
        out.append("::");
        proof {
            let next = names@.subrange(0, i + 1);
            assert(next.drop_last() =~= names@.subrange(0, i as int));
        }
        i = i + 1;
    }
    assert(names@.subrange(0, names@.len() as int) =~= names@);
}

impl DiagnosticMessage {
    /// Appends the message as it reads to `out`.
    pub fn write_to(&self, out: &mut String, types: &Types, strings: &StringInterner)
        requires
            can_write_message(self@, types, strings),
        ensures
            final(out)@ == old(out)@ + message_text(self@, types.types@, strings@),
    {
        match self {
            DiagnosticMessage::String(t) => {
                out.append(t.as_str());
            },
            DiagnosticMessage::Format(parts) => {
                let ghost views = parts@.map_values(|p: MessagePart| p@);
                let mut i: usize = 0;
                while i < parts.len()
                    invariant
                        i <= parts@.len(),
                        views == parts@.map_values(|p: MessagePart| p@),
                        types.wf(),
                        types.names_below(strings@.len()),
                        parts_resolve(views, types.types@.len(), strings@.len()),
                        out@ == old(out)@ + parts_text(views.subrange(0, i as int), types.types@, strings@),
                    decreases parts@.len() - i,
                {
                    let ghost before = out@;
                    assert(views[i as int] == parts@[i as int]@);
                    assert(part_resolves(views[i as int], types.types@.len(), strings@.len()));
                    match &parts[i] {
                        MessagePart::Text(t) => {
                            out.append(t.as_str());
                        },
                        MessagePart::Char(c) => {
                            push_char(out, *c);
                        },
                        MessagePart::Name(n) => {
                            out.append(strings.get(*n));
                        },
                        MessagePart::Type(t) => {
                            let written = types.to_string(*t, strings);
                            out.append(written.as_str());
                        },
                        MessagePart::Namespace(ns) => {
                            write_names(out, ns, strings);
                        },
                    }
                    proof {
                        assert(out@ =~= before + part_text(views[i as int], types.types@, strings@));
                        assert(views.subrange(0, i + 1).drop_last() =~= views.subrange(0, i as int));
                    }
                    i = i + 1;
                }
                assert(views.subrange(0, parts@.len() as int) =~= views);
            },
        }
    }
}

impl Diagnostics {
    /// Appends every diagnostic to `out`, each on a line of its own: its
    /// file, line and column in brackets, then its message.
    pub fn write_to(&self, out: &mut String, files: &SourceText, types: &Types, strings: &StringInterner)
        requires
            files.wf(),
            forall|i: int| 0 <= i < self@.len() ==> (#[trigger] self@[i]).location.file.0 < files.files().len(),
            forall|i: int| 0 <= i < self@.len() ==> can_write_message((#[trigger] self@[i]).message, types, strings),
        ensures
            final(out)@ == old(out)@ + diagnostics_text(self@, *files, types.types@, strings@, self@.len()),
    {
        proof {
            reveal_strlit("[");
            reveal_strlit(":");
            reveal_strlit("] ");
            reveal_strlit("\n");
        }
        let mut i: usize = 0;
        while i < self.diagnostics.len()
            invariant
                i <= self@.len(),
                self@.len() == self.diagnostics@.len(),
                files.wf(),
                forall|k: int| 0 <= k < self@.len() ==> (#[trigger] self@[k]).location.file.0 < files.files().len(),
                forall|k: int| 0 <= k < self@.len() ==> can_write_message((#[trigger] self@[k]).message, types, strings),
                out@ == old(out)@ + diagnostics_text(self@, *files, types.types@, strings@, i as nat),
            decreases self@.len() - i,
        {
            let diagnostic = &self.diagnostics[i];
            let ghost d = self@[i as int];
            assert(diagnostic@ == d);
            let ghost before = out@;
            out.append("[");
            out.append(files.file_name(diagnostic.location));
            out.append(":");
            let line = decimal_string_usize(files.line_number(diagnostic.location));
            out.append(line.as_str());
            out.append(":");
            let column = decimal_string_usize(files.column(diagnostic.location));
            out.append(column.as_str());
            out.append("] ");
            diagnostic.message.write_to(out, types, strings);
            out.append("\n");
            proof {
                assert(out@ =~= before + diagnostic_line(d, *files, types.types@, strings@));
            }
            i = i + 1;
        }
    }
}

} // verus!
