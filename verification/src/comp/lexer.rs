//! Tokens of the source language and the lexer that produces them.
use vstd::prelude::*;

use crate::comp::diagnostics::Diagnostics;
use crate::comp::source::{same_text, HasLocation, Location, SourceText, SourceTextId, Span};

verus! {

/// The kinds of tokens.
#[derive(Debug, Clone, Copy, PartialEq, Eq, Structural)]
pub enum TokenKind {
    Eof,
    Error,
    ConstKeyword,
    TrueKeyword,
    FalseKeyword,
    Identifier,
    Equals,
    Plus,
    Minus,
    Asterisk,
    Slash,
    Percent,
    Semicolon,
    Integer,
    LBracket,
    RBracket,
    Comma,
    Colon,
    LParen,
    RParen,
    CompKeyword,
    FnKeyword,
    StructKeyword,
    LBrace,
    RBrace,
    LessThan,
    GreaterThan,
    Period,
    ImplKeyword,
    ThisKeyword,
    Ampersand,
}

/// How diagnostics name a kind of token.
pub open spec fn kind_name(kind: TokenKind) -> Seq<char> {
    match kind {
        TokenKind::Eof => "end of file"@,
        TokenKind::Error => "invalid character"@,
        TokenKind::ConstKeyword => "const keyword"@,
        TokenKind::TrueKeyword => "true keyword"@,
        TokenKind::FalseKeyword => "false keyword"@,
        TokenKind::Identifier => "identifier"@,
        TokenKind::Equals => "="@,
        TokenKind::Plus => "+"@,
        TokenKind::Minus => "-"@,
        TokenKind::Asterisk => "*"@,
        TokenKind::Slash => "/"@,
        TokenKind::Percent => "%"@,
        TokenKind::Semicolon => ";"@,
        TokenKind::Integer => "integer"@,
        TokenKind::LBracket => "["@,
        TokenKind::RBracket => "]"@,
        TokenKind::Comma => ","@,
        TokenKind::Colon => ":"@,
        TokenKind::Period => "."@,
        TokenKind::LParen => "("@,
        TokenKind::RParen => ")"@,
        TokenKind::CompKeyword => "comp keyword"@,
        TokenKind::FnKeyword => "fn keyword"@,
        TokenKind::StructKeyword => "struct keyword"@,
        TokenKind::LBrace => "{"@,
        TokenKind::RBrace => "}"@,
        TokenKind::LessThan => "<"@,
        TokenKind::GreaterThan => ">"@,
        TokenKind::ImplKeyword => "impl keyword"@,
        TokenKind::ThisKeyword => "this keyword"@,
        TokenKind::Ampersand => "&"@,
    }
}

impl TokenKind {
    /// The left and right binding power of a binary operator.
    pub fn binary_precedence(&self) -> (r: Option<(usize, usize)>)
        ensures
            r == match *self {
                TokenKind::Plus | TokenKind::Minus => Some((10usize, 20usize)),
                TokenKind::Asterisk | TokenKind::Slash | TokenKind::Percent => Some(
                    (30usize, 40usize),
                ),
                _ => None,
            },
    {
        match self {
            TokenKind::Plus => Some((10, 20)),
            TokenKind::Minus => Some((10, 20)),
            TokenKind::Asterisk => Some((30, 40)),
            TokenKind::Slash => Some((30, 40)),
            TokenKind::Percent => Some((30, 40)),
            _ => None,
        }
    }

    pub fn diagnostic_name(&self) -> (r: &'static str)
        ensures
            r@ == kind_name(*self),
    {
        match self {
            TokenKind::Eof => "end of file",
            TokenKind::Error => "invalid character",
            TokenKind::ConstKeyword => "const keyword",
            TokenKind::TrueKeyword => "true keyword",
            TokenKind::FalseKeyword => "false keyword",
            TokenKind::Identifier => "identifier",
            TokenKind::Equals => "=",
            TokenKind::Plus => "+",
            TokenKind::Minus => "-",
            TokenKind::Asterisk => "*",
            TokenKind::Slash => "/",
            TokenKind::Percent => "%",
            TokenKind::Semicolon => ";",
            TokenKind::Integer => "integer",
            TokenKind::LBracket => "[",
            TokenKind::RBracket => "]",
            TokenKind::Comma => ",",
            TokenKind::Colon => ":",
            TokenKind::Period => ".",
            TokenKind::LParen => "(",
            TokenKind::RParen => ")",
            TokenKind::CompKeyword => "comp keyword",
            TokenKind::FnKeyword => "fn keyword",
            TokenKind::StructKeyword => "struct keyword",
            TokenKind::LBrace => "{",
            TokenKind::RBrace => "}",
            TokenKind::LessThan => "<",
            TokenKind::GreaterThan => ">",
            TokenKind::ImplKeyword => "impl keyword",
            TokenKind::ThisKeyword => "this keyword",
            TokenKind::Ampersand => "&",
        }
    }
}

/// The token kind of a single character; characters that start no token
/// are errors.
pub open spec fn char_kind(ch: char) -> TokenKind {
    if ch == '\0' {
        TokenKind::Eof
    } else if ch == '=' {
        TokenKind::Equals
    } else if ch == '.' {
        TokenKind::Period
    } else if ch == ':' {
        TokenKind::Colon
    } else if ch == ';' {
        TokenKind::Semicolon
    } else if ch == '+' {
        TokenKind::Plus
    } else if ch == '-' {
        TokenKind::Minus
    } else if ch == '*' {
        TokenKind::Asterisk
    } else if ch == '/' {
        TokenKind::Slash
    } else if ch == '%' {
        TokenKind::Percent
    } else if ch == '&' {
        TokenKind::Ampersand
    } else if ch == '{' {
        TokenKind::LBrace
    } else if ch == '}' {
        TokenKind::RBrace
    } else if ch == '<' {
        TokenKind::LessThan
    } else if ch == '>' {
        TokenKind::GreaterThan
    } else if ch == '[' {
        TokenKind::LBracket
    } else if ch == ']' {
        TokenKind::RBracket
    } else if ch == '(' {
        TokenKind::LParen
    } else if ch == ')' {
        TokenKind::RParen
    } else if ch == ',' {
        TokenKind::Comma
    } else {
        TokenKind::Error
    }
}

/// The kind of a word: a keyword, or an identifier.
pub open spec fn word_kind(lexeme: Seq<char>) -> TokenKind {
    if lexeme == "const"@ {
        TokenKind::ConstKeyword
    } else if lexeme == "true"@ {
        TokenKind::TrueKeyword
    } else if lexeme == "false"@ {
        TokenKind::FalseKeyword
    } else if lexeme == "comp"@ {
        TokenKind::CompKeyword
    } else if lexeme == "fn"@ {
        TokenKind::FnKeyword
    } else if lexeme == "struct"@ {
        TokenKind::StructKeyword
    } else if lexeme == "impl"@ {
        TokenKind::ImplKeyword
    } else if lexeme == "this"@ {
        TokenKind::ThisKeyword
    } else {
        TokenKind::Identifier
    }
}

/// A token: its kind and where it stands; generated tokens stand for ones
/// the parser expected but did not find.
#[derive(Debug, Clone, Copy, PartialEq, Eq, Structural)]
pub struct Token {
    pub location: Location,
    pub kind: TokenKind,
    pub is_generated: bool,
}

impl HasLocation for Token {
    open spec fn spec_location(&self) -> Location {
        self.location
    }

    fn location(&self) -> (r: Location) {
        self.location
    }
}

impl Token {
    /// The token of a single character.
    pub fn char(location: Location, ch: char) -> (r: Token)
        ensures
            r == (Token { location, kind: char_kind(ch), is_generated: false }),
    {
        let kind = if ch == '\0' {
            TokenKind::Eof
        } else if ch == '=' {
            TokenKind::Equals
        } else if ch == '.' {
            TokenKind::Period
        } else if ch == ':' {
            TokenKind::Colon
        } else if ch == ';' {
            TokenKind::Semicolon
        } else if ch == '+' {
            TokenKind::Plus
        } else if ch == '-' {
            TokenKind::Minus
        } else if ch == '*' {
            TokenKind::Asterisk
        } else if ch == '/' {
            TokenKind::Slash
        } else if ch == '%' {
            TokenKind::Percent
        } else if ch == '&' {
            TokenKind::Ampersand
        } else if ch == '{' {
            TokenKind::LBrace
        } else if ch == '}' {
            TokenKind::RBrace
        } else if ch == '<' {
            TokenKind::LessThan
        } else if ch == '>' {
            TokenKind::GreaterThan
        } else if ch == '[' {
            TokenKind::LBracket
        } else if ch == ']' {
            TokenKind::RBracket
        } else if ch == '(' {
            TokenKind::LParen
        } else if ch == ')' {
            TokenKind::RParen
        } else if ch == ',' {
            TokenKind::Comma
        } else {
            TokenKind::Error
        };
        Token { location, kind, is_generated: false }
    }

    pub fn integer(location: Location) -> (r: Token)
        ensures
            r == (Token { location, kind: TokenKind::Integer, is_generated: false }),
    {
        Token { location, kind: TokenKind::Integer, is_generated: false }
    }

    /// The token of a word: a keyword or an identifier.
    pub fn identifier(location: Location, lexeme: &str) -> (r: Token)
        ensures
            r == (Token { location, kind: word_kind(lexeme@), is_generated: false }),
    {
        let kind = if same_text(lexeme, "const") {
            TokenKind::ConstKeyword
        } else if same_text(lexeme, "true") {
            TokenKind::TrueKeyword
        } else if same_text(lexeme, "false") {
            TokenKind::FalseKeyword
        } else if same_text(lexeme, "comp") {
            TokenKind::CompKeyword
        } else if same_text(lexeme, "fn") {
            TokenKind::FnKeyword
        } else if same_text(lexeme, "struct") {
            TokenKind::StructKeyword
        } else if same_text(lexeme, "impl") {
            TokenKind::ImplKeyword
        } else if same_text(lexeme, "this") {
            TokenKind::ThisKeyword
        } else {
            TokenKind::Identifier
        };
        Token { location, kind, is_generated: false }
    }

    /// A token the parser inserts for one it expected.
    pub fn generate(kind: TokenKind, location: Location) -> (r: Token)
        ensures
            r == (Token { location, kind, is_generated: true }),
    {
        Token { location, kind, is_generated: true }
    }
}

/// What the lexer is in the middle of.
#[derive(Debug, Clone, Copy, PartialEq, Eq, Structural)]
pub enum LexState {
    Init,
    Identifier,
    Integer,
    Comment,
    MultiCharStart(char),
}

/// How a call of the lexer ends: at the end of the input, with a token (and
/// the character it reports as invalid, if any), or at a two-character
/// token, which the lexer does not know.
pub enum LexOutcome {
    End(int),
    Token(Token, int, Option<char>),
    Fault,
}

pub open spec fn state_rank(state: LexState) -> int {
    match state {
        LexState::Comment => 1,
        _ => 0,
    }
}

pub open spec fn is_blank(c: char) -> bool {
    c == ' ' || c == '\n' || c == '\t' || c == '\r'
}

pub open spec fn is_ascii_digit(c: char) -> bool {
    '0' <= c && c <= '9'
}

pub open spec fn starts_word(c: char) -> bool {
    ('a' <= c && c <= 'z') || ('A' <= c && c <= 'Z') || c == '_'
}

pub open spec fn span_location(file: SourceTextId, start: int, end: int) -> Location {
    Location { span: Span { start: start as usize, len: (end - start) as usize }, file }
}

/// The lexer on the text `s` in `state`, at `position` (one past the
/// current character) with the token starting at `start`: blanks are
/// skipped, digits form integers, letters, digits and `_` form words,
/// `//` starts a comment up to the line's end, and every other character
/// is a token of its own.
pub open spec fn lex_run(s: Seq<char>, file: SourceTextId, state: LexState, position: int, start: int) -> LexOutcome
    decreases s.len() + 2 - position, state_rank(state),
{
    if position - 1 > s.len() || position < 1 {
        LexOutcome::End(position)
    } else {
        let cur: Option<char> = if position - 1 < s.len() {
            Some(s[position - 1])
        } else {
            None
        };
        match state {
            LexState::Init => match cur {
                None => LexOutcome::Token(
                    Token { location: span_location(file, start, position), kind: TokenKind::Eof, is_generated: false },
                    position,
                    None,
                ),
                Some(c) => if is_blank(c) {
                    lex_run(s, file, LexState::Init, position + 1, start + 1)
                } else if is_ascii_digit(c) {
                    lex_run(s, file, LexState::Integer, position + 1, start)
                } else if starts_word(c) {
                    lex_run(s, file, LexState::Identifier, position + 1, start)
                } else if c == '/' {
                    lex_run(s, file, LexState::MultiCharStart(c), position + 1, start)
                } else {
                    let kind = char_kind(c);
                    LexOutcome::Token(
                        Token { location: span_location(file, start, position), kind, is_generated: false },
                        position,
                        if kind == TokenKind::Error {
                            Some(c)
                        } else {
                            None
                        },
                    )
                },
            },
            LexState::Integer => match cur {
                Some(c) => if is_ascii_digit(c) {
                    lex_run(s, file, LexState::Integer, position + 1, start)
                } else {
                    LexOutcome::Token(
                        Token {
                            location: span_location(file, start, position - 1),
                            kind: TokenKind::Integer,
                            is_generated: false,
                        },
                        position - 1,
                        None,
                    )
                },
                None => LexOutcome::Token(
                    Token {
                        location: span_location(file, start, position - 1),
                        kind: TokenKind::Integer,
                        is_generated: false,
                    },
                    position - 1,
                    None,
                ),
            },
            LexState::Identifier => match cur {
                Some(c) => if starts_word(c) || is_ascii_digit(c) {
                    lex_run(s, file, LexState::Identifier, position + 1, start)
                } else {
                    LexOutcome::Token(
                        Token {
                            location: span_location(file, start, position - 1),
                            kind: word_kind(s.subrange(start, position - 1)),
                            is_generated: false,
                        },
                        position - 1,
                        None,
                    )
                },
                None => LexOutcome::Token(
                    Token {
                        location: span_location(file, start, position - 1),
                        kind: word_kind(s.subrange(start, position - 1)),
                        is_generated: false,
                    },
                    position - 1,
                    None,
                ),
            },
            LexState::MultiCharStart(prev) => match cur {
                None => {
                    let kind = char_kind(prev);
                    LexOutcome::Token(
                        Token { location: span_location(file, start, position), kind, is_generated: false },
                        position,
                        if kind == TokenKind::Error {
                            Some(prev)
                        } else {
                            None
                        },
                    )
                },
                Some(c) => if prev == '/' && c == '/' {
                    lex_run(s, file, LexState::Comment, position + 1, start)
                } else {
                    LexOutcome::Fault
                },
            },
            LexState::Comment => match cur {
                Some(c) => if c == '\n' {
                    lex_run(s, file, LexState::Init, position, start)
                } else {
                    lex_run(s, file, LexState::Comment, position + 1, position)
                },
                None => lex_run(s, file, LexState::Init, position, start),
            },
        }
    }
}

/// What the lexer does on the text `s` when it starts at `position`.
pub open spec fn lex_from(s: Seq<char>, file: SourceTextId, position: int) -> LexOutcome {
    lex_run(s, file, LexState::Init, position + 1, position)
}

/// The report of the lexer about a character that starts no token.
pub open spec fn unexpected_char(location: Location, ch: char) -> crate::comp::diagnostics::DiagnosticView {
    crate::comp::diagnostics::diag(
        location,
        crate::comp::diagnostics::MessageView::Format(
            seq![
                crate::comp::diagnostics::PartView::Text("Unexpected char "@),
                crate::comp::diagnostics::PartView::Char(ch),
                crate::comp::diagnostics::PartView::Text(" in input!"@),
            ],
        ),
    )
}

/// Whether the lexer, started at `position` and called until it ends, meets
/// no two-character token it does not know, and moves on with each token.
pub open spec fn lexes_cleanly(s: Seq<char>, file: SourceTextId, position: int) -> bool
    decreases s.len() + 2 - position,
{
    if 0 <= position <= s.len() + 1 {
        match lex_from(s, file, position) {
            LexOutcome::End(_) => true,
            LexOutcome::Token(_, p, _) => position < p <= s.len() + 1 && lexes_cleanly(s, file, p),
            LexOutcome::Fault => false,
        }
    } else {
        false
    }
}

/// The tokens the lexer gives from `position` on, up to and with the end
/// of file token.
pub open spec fn tokens_from(s: Seq<char>, file: SourceTextId, position: int) -> Seq<Token>
    decreases s.len() + 2 - position,
{
    if 0 <= position <= s.len() + 1 {
        match lex_from(s, file, position) {
            LexOutcome::Token(t, p, _) => if position < p <= s.len() + 1 {
                seq![t] + tokens_from(s, file, p)
            } else {
                seq![t]
            },
            _ => Seq::empty(),
        }
    } else {
        Seq::empty()
    }
}

/// The reports of the lexer from `position` on: one for each character
/// that starts no token.
pub open spec fn lex_reports(s: Seq<char>, file: SourceTextId, position: int) -> Seq<
    crate::comp::diagnostics::DiagnosticView,
>
    decreases s.len() + 2 - position,
{
    if 0 <= position <= s.len() + 1 {
        match lex_from(s, file, position) {
            LexOutcome::Token(t, p, e) => {
                let here = match e {
                    Some(ch) => seq![unexpected_char(t.location, ch)],
                    None => Seq::empty(),
                };
                if position < p <= s.len() + 1 {
                    here + lex_reports(s, file, p)
                } else {
                    here
                }
            },
            _ => Seq::empty(),
        }
    } else {
        Seq::empty()
    }
}

/// Walks a source file token by token.
pub struct Lexer {
    pub file: SourceTextId,
    pub position: usize,
}

impl Lexer {
    pub fn new(file: SourceTextId) -> (r: Lexer)
        ensures
            r.file == file && r.position == 0,
    {
        Lexer { file, position: 0 }
    }

    pub fn position(&self) -> (r: usize)
        ensures
            r == self.position,
    {
        self.position
    }

    /// Whether the next call of `lex` runs without a fault.
    pub open spec fn can_lex(&self, files: &SourceText) -> bool {
        &&& files.wf()
        &&& self.file.0 < files.files().len()
        &&& self.position <= files.files()[self.file.0 as int].text().len() + 1
        &&& !(lex_run(
            files.files()[self.file.0 as int].text(),
            self.file,
            LexState::Init,
            self.position + 1,
            self.position as int,
        ) is Fault)
    }

    /// The next token, or none past the end of the file; a character that
    /// starts no token is reported and becomes an error token.
    pub fn lex(&mut self, files: &SourceText, diagnostics: &mut Diagnostics) -> (r: Option<Token>)
        requires
            old(self).can_lex(files),
        ensures
            final(self).file == old(self).file,
            match lex_run(
                files.files()[old(self).file.0 as int].text(),
                old(self).file,
                LexState::Init,
                old(self).position + 1,
                old(self).position as int,
            ) {
                LexOutcome::End(p) => r is None && final(self).position == p && final(diagnostics)@
                    == old(diagnostics)@,
                LexOutcome::Token(t, p, e) => r == Some(t) && final(self).position == p
                    && match e {
                    Some(ch) => final(diagnostics)@ == old(diagnostics)@.push(unexpected_char(t.location, ch)),
                    None => final(diagnostics)@ == old(diagnostics)@,
                },
                LexOutcome::Fault => false,
            },
    {
        let source = files.file(self.file);
        let text = source.content();
        proof {
            assert(source.wf());
            source.lemma_wf();
        }
        let len = text.unicode_len();
        let ghost s = text@;
        let ghost target = lex_run(s, self.file, LexState::Init, self.position + 1, self.position as int);
        let mut state = LexState::Init;
        let mut start = self.position;
        self.position = self.position + 1;
        loop
            invariant
                len == s.len(),
                len + 2 <= usize::MAX,
                s == files.files()[self.file.0 as int].text(),
                text@ == s,
                self.file == old(self).file,
                1 <= self.position <= len + 2,
                start <= self.position,
                lex_run(s, self.file, state, self.position as int, start as int) == target,
                !(target is Fault),
                state is MultiCharStart ==> state->MultiCharStart_0 == '/',
                start + 1 <= self.position,
                state is Integer || state is Identifier || state is MultiCharStart ==> start + 2
                    <= self.position,
                diagnostics@ == old(diagnostics)@,
                target == lex_run(
                    files.files()[old(self).file.0 as int].text(),
                    old(self).file,
                    LexState::Init,
                    old(self).position + 1,
                    old(self).position as int,
                ),
            decreases len + 2 - self.position, state_rank(state),
        {
            if self.position - 1 > len {
                return None;
            }
            let cur: Option<char> = if self.position - 1 < len {
                Some(text.get_char(self.position - 1))
            } else {
                None
            };
            match state {
                LexState::Init => match cur {
                    None => {
                        let location = Location { span: Span { start, len: 0 }, file: self.file }.with_end_at(self.position);
                        return Some(Token::char(location, '\0'));
                    },
                    Some(c) => {
                        if c == ' ' || c == '\n' || c == '\t' || c == '\r' {
                            self.position = self.position + 1;
                            start = start + 1;
                        } else if '0' <= c && c <= '9' {
                            self.position = self.position + 1;
                            state = LexState::Integer;
                        } else if ('a' <= c && c <= 'z') || ('A' <= c && c <= 'Z') || c == '_' {
                            self.position = self.position + 1;
                            state = LexState::Identifier;
                        } else if c == '/' {
                            state = LexState::MultiCharStart(c);
                            self.position = self.position + 1;
                        } else {
                            let location = Location { span: Span { start, len: 0 }, file: self.file }.with_end_at(self.position);
                            let token = Token::char(location, c);
                            if token.kind == TokenKind::Error {
                                diagnostics.report_invalid_char(location, c);
                            }
                            return Some(token);
                        }
                    },
                },
                LexState::Integer => {
                    let continues = match cur {
                        Some(c) => '0' <= c && c <= '9',
                        None => false,
                    };
                    if continues {
                        self.position = self.position + 1;
                    } else {
                        self.position = self.position - 1;
                        let location = Location { span: Span { start, len: 0 }, file: self.file }.with_end_at(self.position);
                        return Some(Token::integer(location));
                    }
                },
                LexState::Identifier => {
                    let continues = match cur {
                        Some(c) => ('a' <= c && c <= 'z') || ('A' <= c && c <= 'Z') || c == '_' || ('0'
                            <= c && c <= '9'),
                        None => false,
                    };
                    if continues {
                        self.position = self.position + 1;
                    } else {
                        self.position = self.position - 1;
                        let location = Location { span: Span { start, len: 0 }, file: self.file }.with_end_at(self.position);
                        let lexeme = text.substring_char(start, self.position);
                        return Some(Token::identifier(location, lexeme));
                    }
                },
                LexState::MultiCharStart(prev) => match cur {
                    None => {
                        let location = Location { span: Span { start, len: 0 }, file: self.file }.with_end_at(self.position);
                        let token = Token::char(location, prev);
                        if token.kind == TokenKind::Error {
                            diagnostics.report_invalid_char(location, prev);
                        }
                        return Some(token);
                    },
                    Some(c) => {
                        self.position = self.position + 1;
                        state = LexState::Comment;
                    },
                },
                LexState::Comment => match cur {
                    Some(c) => {
                        if c == '\n' {
                            state = LexState::Init;
                        } else {
                            start = self.position;
                            self.position = self.position + 1;
                        }
                    },
                    None => {
                        state = LexState::Init;
                    },
                },
            }
        }
    }
}

} // verus!
