//! The compiler's shared state: its source files, diagnostics, strings,
//! types and compile-time memory.
use vstd::prelude::*;

use crate::comp::lexer::{lex_reports, lexes_cleanly, tokens_from, Lexer, Token};
use crate::comp::diagnostics::{can_write_message, diagnostics_text, Diagnostics, DiagnosticView};
use crate::comp::memory::{Bound, Memoryblock};
use crate::comp::source::{interned, Location, SourceText, SourceTextId, StringId, StringInterner};
use crate::comp::types::TypeId;
use crate::comp::typing::Types;

verus! {

/// Everything a compilation shares.
pub struct Compiler {
    pub files: SourceText,
    pub diagnostics: Diagnostics,
    pub strings: StringInterner,
    pub types: Types,
    pub const_memory: Memoryblock<Bound>,
}

impl Compiler {
    /// The tables agree: files and strings are well formed, and every type
    /// name is a string of the table.
    pub open spec fn wf(&self) -> bool {
        &&& self.files.wf()
        &&& self.strings.wf()
        &&& self.types.wf()
        &&& self.types.names_below(self.strings@.len())
    }

    /// Whether every diagnostic can be written: its file is known and every
    /// name and type in its message is in the tables.
    pub open spec fn can_write_diagnostics(&self) -> bool {
        forall|i: int|
            0 <= i < self.diagnostics@.len() ==> {
                let d = #[trigger] self.diagnostics@[i];
                &&& d.location.file.0 < self.files.files().len()
                &&& can_write_message(d.message, &self.types, &self.strings)
            }
    }

    /// A compiler with no files and no diagnostics, whose type table holds
    /// the built-in types, in the order of their fixed ids, and whose string
    /// table holds the names of the named ones.
    pub fn new() -> (r: Compiler)
        ensures
            r.wf(),
            r.files.files().len() == 0,
            r.diagnostics@ == Seq::<DiagnosticView>::empty(),
            r.types.types@.len() == 9,
            r.types.types@[0] is Error && r.types.types@[1] is Unknown && r.types.types@[2] is Void
                && r.types.types@[3] is Type && r.types.types@[4] is Pointer
                && r.types.types@[5] is UnsignedInteger8 && r.types.types@[6] is UnsignedInteger16
                && r.types.types@[7] is UnsignedInteger32 && r.types.types@[8] is Bool,
            r.strings@ == seq!["void"@, "u8"@, "u16"@, "u32"@, "bool"@, "ptr"@],
            r.types.names@ == seq![
                (TypeId(2), StringId(0)),
                (TypeId(5), StringId(1)),
                (TypeId(6), StringId(2)),
                (TypeId(7), StringId(3)),
                (TypeId(8), StringId(4)),
                (TypeId(4), StringId(5)),
            ],
            r.types.active_generic_types == 0,
    {
        let mut strings = StringInterner::new();
        let types = Types::new(&mut strings);
        let r = Compiler {
            files: SourceText::empty(),
            diagnostics: Diagnostics::empty(),
            strings,
            types,
            const_memory: Memoryblock::new(),
        };
        assert(r.types.names_below(r.strings@.len()));
        r
    }

    /// The tokens of the file `file`, up to and with its end of file token;
    /// each character that starts no token is reported.
    pub fn lex(&mut self, file: SourceTextId) -> (r: Vec<Token>)
        requires
            old(self).wf(),
            file.0 < old(self).files.files().len(),
            lexes_cleanly(old(self).files.files()[file.0 as int].text(), file, 0),
        ensures
            final(self).wf(),
            r@ == tokens_from(old(self).files.files()[file.0 as int].text(), file, 0),
            final(self).diagnostics@ == old(self).diagnostics@ + lex_reports(
                old(self).files.files()[file.0 as int].text(),
                file,
                0,
            ),
            final(self).files == old(self).files,
            final(self).strings == old(self).strings,
            final(self).types == old(self).types,
    {
        let ghost s = self.files.files()[file.0 as int].text();
        let mut tokens: Vec<Token> = Vec::new();
        let mut lexer = Lexer::new(file);
        loop
            invariant_except_break
                lexes_cleanly(s, file, lexer.position as int),
                lexer.position <= s.len() + 1,
                tokens@ + tokens_from(s, file, lexer.position as int) == tokens_from(s, file, 0),
                self.diagnostics@ + lex_reports(s, file, lexer.position as int) == old(
                    self,
                ).diagnostics@ + lex_reports(s, file, 0),
            invariant
                self.wf(),
                self.files == old(self).files,
                self.strings == old(self).strings,
                self.types == old(self).types,
                s == self.files.files()[file.0 as int].text(),
                file.0 < self.files.files().len(),
                lexer.file == file,
            ensures
                tokens@ == tokens_from(s, file, 0),
                self.diagnostics@ == old(self).diagnostics@ + lex_reports(s, file, 0),
            decreases s.len() + 2 - lexer.position,
        {
            let ghost before = lexer.position as int;
            let ghost before_tokens = tokens@;
            let ghost before_reports = self.diagnostics@;
            match lexer.lex(&self.files, &mut self.diagnostics) {
                Some(token) => {
                    tokens.push(token);
                    proof {
                        assert(tokens_from(s, file, before) == seq![token] + tokens_from(
                            s,
                            file,
                            lexer.position as int,
                        ));
                        assert(tokens@ + tokens_from(s, file, lexer.position as int) =~= before_tokens
                            + tokens_from(s, file, before));
                        assert(self.diagnostics@ + lex_reports(s, file, lexer.position as int)
                            =~= before_reports + lex_reports(s, file, before));
                    }
                },
                None => {
                    proof {
                        assert(tokens@ =~= tokens@ + tokens_from(s, file, before));
                        assert(self.diagnostics@ =~= self.diagnostics@ + lex_reports(s, file, before));
                    }
                    break;
                },
            }
        }
        tokens
    }

    /// Adds the text `content` of the file `file_name`.
    pub fn add_file(&mut self, file_name: String, content: String) -> (r: SourceTextId)
        requires
            old(self).wf(),
            content@.len() + 2 <= usize::MAX,
        ensures
            final(self).wf(),
            r.0 == old(self).files.files().len(),
            final(self).files.files() == old(self).files.files().push(final(self).files.files()[r.0 as int]),
            final(self).files.files()[r.0 as int].name() == file_name@,
            final(self).files.files()[r.0 as int].text() == content@,
            final(self).diagnostics@ == old(self).diagnostics@,
            final(self).strings@ == old(self).strings@,
            final(self).types == old(self).types,
    {
        let id = self.files.add(file_name, content);
        assert(self.files.files() =~= old(self).files.files().push(self.files.files()[id.0 as int]));
        id
    }

    /// The id of `string`, which is added to the table when it is new.
    pub fn intern(&mut self, string: String) -> (r: StringId)
        requires
            old(self).wf(),
        ensures
            final(self).wf(),
            (final(self).strings@, r.0 as int) == interned(old(self).strings@, string@),
            final(self).files == old(self).files,
            final(self).diagnostics@ == old(self).diagnostics@,
            final(self).types == old(self).types,
    {
        let r = self.strings.intern(string);
        assert(self.types.names_below(self.strings@.len()));
        r
    }

    /// The id of the text at `location`, which is added to the table when
    /// it is new.
    pub fn intern_location(&mut self, location: Location) -> (r: StringId)
        requires
            old(self).wf(),
            old(self).files.contains(location),
        ensures
            final(self).wf(),
            (final(self).strings@, r.0 as int) == interned(
                old(self).strings@,
                old(self).files.files()[location.file.0 as int].text().subrange(
                    location.span.start as int,
                    location.span.spec_end(),
                ),
            ),
            final(self).files == old(self).files,
            final(self).diagnostics@ == old(self).diagnostics@,
            final(self).types == old(self).types,
    {
        let text = self.files.text(location);
        self.intern(text)
    }

    /// Appends every diagnostic to `out`, each on a line of its own.
    pub fn write_diagnostics(&self, out: &mut String)
        requires
            self.wf(),
            self.can_write_diagnostics(),
        ensures
            final(out)@ == old(out)@ + diagnostics_text(
                self.diagnostics@,
                self.files,
                self.types.types@,
                self.strings@,
                self.diagnostics@.len(),
            ),
    {
        self.diagnostics.write_to(out, &self.files, &self.types, &self.strings);
    }
}

} // verus!
