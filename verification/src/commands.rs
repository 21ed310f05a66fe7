//! The debugger's command language: a tokenizer and a parser from a typed
//! line to a `Command`.
use vstd::prelude::*;
use vstd::string::StrSliceExecFns;
use vstd::string::StringExecFns;
use crate::comp::source::same_text;
use crate::memory::{Memory, MemoryView};
use crate::registers::{RegisterIndex, Registers};

verus! {

/// What the debugger is asked to do.
#[derive(Debug, PartialEq, Eq)]
pub enum Command {
    GoBack,
    ShowRegisters,
    ShowStackFrame,
    JumpOut,
    Continue,
    Step,
    StartEmittingAssembly,
    StopEmittingAssembly,
    ReadMemory(Address),
    WriteMemory(Address, u32),
    Help,
    Echo(String),
}

/// A memory location named in a command.
#[derive(Debug, PartialEq, Eq)]
pub enum Address {
    Literal(u32),
    Indirect(Box<Address>),
    Register(RegisterIndex),
}

/// A lexical unit of a command line.
#[derive(Debug, PartialEq)]
pub enum Token {
    Text(String),
    Int(u32),
    LBracket,
    RBracket,
    Equals,
    Error,
    Eof,
}

/// A token with its text as a sequence of characters.
pub enum TokenView {
    Text(Seq<char>),
    Int(u32),
    LBracket,
    RBracket,
    Equals,
    Error,
    Eof,
}

impl View for Token {
    type V = TokenView;

    open spec fn view(&self) -> TokenView {
        match self {
            Token::Text(s) => TokenView::Text(s@),
            Token::Int(u) => TokenView::Int(*u),
            Token::LBracket => TokenView::LBracket,
            Token::RBracket => TokenView::RBracket,
            Token::Equals => TokenView::Equals,
            Token::Error => TokenView::Error,
            Token::Eof => TokenView::Eof,
        }
    }
}

pub open spec fn token_views(tokens: Seq<Token>) -> Seq<TokenView> {
    tokens.map_values(|t: Token| t@)
}

pub open spec fn is_space(c: char) -> bool {
    c == ' ' || c == '\t' || c == '\n' || c == '\r' || c == '\x0C'
}

pub open spec fn is_digit(c: char) -> bool {
    '0' <= c && c <= '9'
}

pub open spec fn is_letter(c: char) -> bool {
    ('a' <= c && c <= 'z') || ('A' <= c && c <= 'Z')
}

/// Characters that continue a word (a name or a number).
pub open spec fn is_word_char(c: char) -> bool {
    is_digit(c) || is_letter(c) || c == '_' || c == '?' || c == '-'
}

/// The index just past the run of word characters that starts at `i`.
pub open spec fn word_end(s: Seq<char>, i: int) -> int
    decreases s.len() - i,
{
    if 0 <= i < s.len() && is_word_char(s[i]) {
        word_end(s, i + 1)
    } else {
        i
    }
}

pub proof fn lemma_word_end(s: Seq<char>, i: int)
    requires
        0 <= i <= s.len(),
    ensures
        i <= word_end(s, i) <= s.len(),
        forall|k: int| i <= k < word_end(s, i) ==> is_word_char(#[trigger] s[k]),
        word_end(s, i) < s.len() ==> !is_word_char(s[word_end(s, i)]),
    decreases s.len() - i,
{
    if i < s.len() && is_word_char(s[i]) {
        lemma_word_end(s, i + 1);
    }
}

/// The value of a digit in base 16, or 16 for a character that is no digit.
pub open spec fn digit_value(c: char) -> int {
    if is_digit(c) {
        c as int - '0' as int
    } else if 'a' <= c && c <= 'f' {
        c as int - 'a' as int + 10
    } else if 'A' <= c && c <= 'F' {
        c as int - 'A' as int + 10
    } else {
        16
    }
}

/// Whether every character of `s` is a digit of the given base.
pub open spec fn digits_valid(s: Seq<char>, radix: int) -> bool {
    forall|k: int| 0 <= k < s.len() ==> digit_value(#[trigger] s[k]) < radix
}

/// The number that the digits of `s` spell in the given base.
pub open spec fn number_value(s: Seq<char>, radix: int) -> int
    decreases s.len(),
{
    if s.len() == 0 {
        0
    } else {
        number_value(s.drop_last(), radix) * radix + digit_value(s.last())
    }
}

/// A word that starts with a digit: a decimal number, or a hexadecimal one
/// after `0x`; anything else, or a value above `u32::MAX`, is an error.
pub open spec fn number_token(w: Seq<char>) -> TokenView {
    let (digits, radix) = if w.len() > 2 && w[0] == '0' && w[1] == 'x' {
        (w.subrange(2, w.len() as int), 16int)
    } else {
        (w, 10int)
    };
    if digits_valid(digits, radix) && number_value(digits, radix) <= u32::MAX {
        TokenView::Int(number_value(digits, radix) as u32)
    } else {
        TokenView::Error
    }
}

/// The tokens of `s` from index `i` on: blanks separate tokens, brackets and
/// `=` stand alone, a word starting with a digit is a number, one starting
/// with a letter or `?` is text, and any other character is an error.
pub open spec fn tokens_from(s: Seq<char>, i: int) -> Seq<TokenView>
    decreases s.len() - i,
{
    if i < 0 || i >= s.len() {
        Seq::empty()
    } else {
        let c = s[i];
        if is_space(c) {
            tokens_from(s, i + 1)
        } else if c == '[' {
            seq![TokenView::LBracket] + tokens_from(s, i + 1)
        } else if c == ']' {
            seq![TokenView::RBracket] + tokens_from(s, i + 1)
        } else if c == '=' {
            seq![TokenView::Equals] + tokens_from(s, i + 1)
        } else if is_digit(c) || is_letter(c) || c == '?' {
            let e = word_end(s, i + 1);
            if e <= i || e > s.len() {
                Seq::empty()
            } else {
                let w = s.subrange(i, e);
                let t = if is_digit(c) {
                    number_token(w)
                } else {
                    TokenView::Text(w)
                };
                seq![t] + tokens_from(s, e)
            }
        } else {
            seq![TokenView::Error] + tokens_from(s, i + 1)
        }
    }
}

pub proof fn lemma_number_value_monotone(s: Seq<char>, radix: int, j: int)
    requires
        radix >= 1,
        0 <= j <= s.len(),
        digits_valid(s, radix),
    ensures
        number_value(s.subrange(0, j), radix) <= number_value(s, radix),
    decreases s.len() - j,
{
    if j < s.len() {
        lemma_number_value_monotone(s, radix, j + 1);
        let p = s.subrange(0, j + 1);
        assert(p.drop_last() =~= s.subrange(0, j));
        assert(digit_value(p.last()) >= 0);
        let v = number_value(s.subrange(0, j), radix);
        assert(v >= 0) by {
            lemma_number_value_nonneg(s.subrange(0, j), radix);
        }
        assert(v * radix >= v) by (nonlinear_arith)
            requires
                v >= 0,
                radix >= 1,
        ;
    } else {
        assert(s.subrange(0, j) =~= s);
    }
}

pub proof fn lemma_number_value_nonneg(s: Seq<char>, radix: int)
    requires
        radix >= 1,
        digits_valid(s, radix),
    ensures
        number_value(s, radix) >= 0,
    decreases s.len(),
{
    if s.len() > 0 {
        assert(digits_valid(s.drop_last(), radix)) by {
            assert forall|k: int| 0 <= k < s.drop_last().len() implies digit_value(
                #[trigger] s.drop_last()[k],
            ) < radix by {
                assert(s.drop_last()[k] == s[k]);
            }
        }
        lemma_number_value_nonneg(s.drop_last(), radix);
        let v = number_value(s.drop_last(), radix);
        assert(v * radix >= 0) by (nonlinear_arith)
            requires
                v >= 0,
                radix >= 1,
        ;
        assert(digit_value(s.last()) >= 0);
    }
}

fn char_digit_value(c: char) -> (r: u32)
    ensures
        r == digit_value(c),
{
    if '0' <= c && c <= '9' {
        (c as u32) - ('0' as u32)
    } else if 'a' <= c && c <= 'f' {
        (c as u32) - ('a' as u32) + 10
    } else if 'A' <= c && c <= 'F' {
        (c as u32) - ('A' as u32) + 10
    } else {
        16
    }
}

/// The index just past the word that starts at `i` in `text`.
fn scan_word(text: &str, i: usize, len: usize) -> (r: usize)
    requires
        len == text@.len(),
        i <= len,
    ensures
        r == word_end(text@, i as int),
{
    let mut j = i;
    while j < len
        invariant
            len == text@.len(),
            i <= j <= len,
            word_end(text@, i as int) == word_end(text@, j as int),
        decreases len - j,
    {
        let c = text.get_char(j);
        if is_word_char_exec(c) {
            j = j + 1;
        } else {
            return j;
        }
    }
    j
}

fn is_word_char_exec(c: char) -> (r: bool)
    ensures
        r == is_word_char(c),
{
    ('0' <= c && c <= '9') || ('a' <= c && c <= 'z') || ('A' <= c && c <= 'Z') || c == '_' || c
        == '?' || c == '-'
}

/// The number token of the word `text[from..to]`.
fn parse_number(text: &str, from: usize, to: usize) -> (r: Token)
    requires
        from < to <= text@.len(),
    ensures
        r@ == number_token(text@.subrange(from as int, to as int)),
{
    let ghost w = text@.subrange(from as int, to as int);
    let is_hex = to - from > 2 && text.get_char(from) == '0' && text.get_char(from + 1) == 'x';
    let start = if is_hex {
        from + 2
    } else {
        from
    };
    let radix: u64 = if is_hex {
        16
    } else {
        10
    };
    let ghost digits = if is_hex {
        w.subrange(2, w.len() as int)
    } else {
        w
    };
    assert(w[0] == text@[from as int] && w.len() == to - from);
    assert(to - from > 2 ==> w[1] == text@[from + 1]);
    assert(is_hex == (w.len() > 2 && w[0] == '0' && w[1] == 'x'));
    assert(digits =~= text@.subrange(start as int, to as int));
    let mut value: u64 = 0;
    let mut k = start;
    while k < to
        invariant
            start <= k <= to <= text@.len(),
            digits == text@.subrange(start as int, to as int),
            radix == 10 || radix == 16,
            value <= u32::MAX,
            digits_valid(digits.subrange(0, k - start), radix as int),
            value == number_value(digits.subrange(0, k - start), radix as int),
            w == text@.subrange(from as int, to as int),
            number_token(w) == (if digits_valid(digits, radix as int) && number_value(
                digits,
                radix as int,
            ) <= u32::MAX {
                TokenView::Int(number_value(digits, radix as int) as u32)
            } else {
                TokenView::Error
            }),
        decreases to - k,
    {
        let d = char_digit_value(text.get_char(k));
        let ghost prefix = digits.subrange(0, k - start);
        let ghost next = digits.subrange(0, k + 1 - start);
        assert(next.drop_last() =~= prefix);
        assert(next.last() == text@[k as int]);
        if d as u64 >= radix {
            assert(!digits_valid(digits, radix as int)) by {
                assert(digits[k - start] == text@[k as int]);
            }
            return Token::Error;
        }
        assert(digits_valid(next, radix as int)) by {
            assert forall|q: int| 0 <= q < next.len() implies digit_value(#[trigger] next[q])
                < radix by {
                if q < prefix.len() {
                    assert(next[q] == prefix[q]);
                }
            }
        }
        assert(value * radix <= 0xffff_ffff * 16) by (nonlinear_arith)
            requires
                value <= 0xffff_ffff,
                radix <= 16,
        ;
        let new_value = value * radix + d as u64;
        if new_value > 0xffff_ffff {
            proof {
                if digits_valid(digits, radix as int) {
                    lemma_number_value_monotone(digits, radix as int, k + 1 - start);
                }
            }
            return Token::Error;
        }
        value = new_value;
        k = k + 1;
    }
    assert(digits.subrange(0, k - start) =~= digits);
    Token::Int(value as u32)
}

/// Splits a command line into tokens.
pub fn parse_tokens(text: String) -> (result: Vec<Token>)
    ensures
        token_views(result@) == tokens_from(text@, 0),
{
    let s = text.as_str();
    let len = s.unicode_len();
    let mut result: Vec<Token> = Vec::new();
    let mut i: usize = 0;
    while i < len
        invariant
            len == s@.len(),
            s@ == text@,
            i <= len,
            token_views(result@) + tokens_from(s@, i as int) == tokens_from(s@, 0),
        decreases len - i,
    {
        let ghost before = result@;
        let c = s.get_char(i);
        if c == ' ' || c == '\t' || c == '\n' || c == '\r' || c == '\x0C' {
            i = i + 1;
        } else if c == '[' || c == ']' || c == '=' || !(('0' <= c && c <= '9') || ('a' <= c && c
            <= 'z') || ('A' <= c && c <= 'Z') || c == '?') {
            let t = if c == '[' {
                Token::LBracket
            } else if c == ']' {
                Token::RBracket
            } else if c == '=' {
                Token::Equals
            } else {
                Token::Error
            };
            result.push(t);
            assert(token_views(result@) =~= token_views(before).push(t@));
            assert(seq![t@] + tokens_from(s@, i + 1) == tokens_from(s@, i as int));
            assert(token_views(result@) + tokens_from(s@, i + 1) =~= token_views(before) + (seq![
                t@,
            ] + tokens_from(s@, i + 1)));
            i = i + 1;
        } else {
            proof {
                lemma_word_end(s@, i + 1);
            }
            let end = scan_word(s, i + 1, len);
            let t = if '0' <= c && c <= '9' {
                parse_number(s, i, end)
            } else {
                Token::Text(String::from_str(s.substring_char(i, end)))
            };
            result.push(t);
            assert(token_views(result@) =~= token_views(before).push(t@));
            assert(seq![t@] + tokens_from(s@, end as int) == tokens_from(s@, i as int));
            assert(token_views(result@) + tokens_from(s@, end as int) =~= token_views(before) + (
            seq![t@] + tokens_from(s@, end as int)));
            i = end;
        }
    }
    assert(token_views(result@) =~= token_views(result@) + tokens_from(s@, len as int));
    result
}

pub open spec fn upper_char(c: char) -> char {
    if 'a' <= c && c <= 'z' {
        ((c as int) - 32) as char
    } else {
        c
    }
}

/// `s` with its ASCII lower-case letters made upper-case.
pub open spec fn upper(s: Seq<char>) -> Seq<char> {
    s.map_values(|c: char| upper_char(c))
}

/// The first register, in number order from `k`, whose name is `u`.
pub open spec fn first_named(u: Seq<char>, k: nat) -> Option<RegisterIndex>
    decreases 18 - k,
{
    if k >= 18 {
        None
    } else {
        match RegisterIndex::from_raw(k) {
            Some(r) => if crate::registers::register_name(r) == u {
                Some(r)
            } else {
                first_named(u, k + 1)
            },
            None => None,
        }
    }
}

/// The register that a name spells, ignoring case (`r6`, `R6`, `sp`).
pub open spec fn register_named(n: Seq<char>) -> Option<RegisterIndex> {
    first_named(upper(n), 0)
}

/// The command that a single word names.
pub open spec fn named_command(n: Seq<char>) -> Option<Command> {
    if n == "b"@ || n == "back"@ {
        Some(Command::GoBack)
    } else if n == "c"@ || n == "cont"@ || n == "continue"@ {
        Some(Command::Continue)
    } else if n == "h"@ || n == "help"@ || n == "?"@ {
        Some(Command::Help)
    } else if n == "jr"@ || n == "jump-return"@ {
        Some(Command::JumpOut)
    } else if n == "r"@ || n == "reg"@ || n == "registers"@ {
        Some(Command::ShowRegisters)
    } else if n == "stackframe"@ || n == "sf"@ {
        Some(Command::ShowStackFrame)
    } else if n == "show-asm"@ {
        Some(Command::StartEmittingAssembly)
    } else if n == "hide-asm"@ {
        Some(Command::StopEmittingAssembly)
    } else if n == "n"@ || n == "next"@ || n == "step"@ || n == "s"@ {
        Some(Command::Step)
    } else {
        None
    }
}

/// An address at token `pos`: a number, a register, or an address in
/// brackets (the word stored there); with the index after it.
pub open spec fn address_at(t: Seq<TokenView>, pos: int) -> Option<(Address, int)>
    decreases t.len() - pos,
{
    if pos < 0 || pos >= t.len() {
        None
    } else {
        match t[pos] {
            TokenView::Int(u) => Some((Address::Literal(u), pos + 1)),
            TokenView::Text(n) => match register_named(n) {
                Some(r) => Some((Address::Register(r), pos + 1)),
                None => None,
            },
            TokenView::LBracket => match address_at(t, pos + 1) {
                Some((a, p)) => if 0 <= p < t.len() && t[p] == TokenView::RBracket {
                    Some((Address::Indirect(Box::new(a)), p + 1))
                } else {
                    None
                },
                None => None,
            },
            _ => None,
        }
    }
}

/// The value that a token stands for: a number, or what a readable
/// register holds.
pub open spec fn value_of(t: TokenView, registers: Registers) -> Option<u32> {
    match t {
        TokenView::Int(u) => Some(u),
        TokenView::Text(n) => match register_named(n) {
            Some(r) => if registers.can_read(r) {
                Some(registers.spec_read(r))
            } else {
                None
            },
            None => None,
        },
        _ => None,
    }
}

/// The shape of a parsed command line.
pub enum CommandForm {
    /// A bare number, echoed back in decimal.
    Echo(u32),
    Plain(Command),
    Invalid,
}

/// What a command line means: nothing is a step; a word names a command; a
/// number is echoed; `[ADDR]` reads memory and `[ADDR]=VALUE` writes it.
pub open spec fn command_form(t: Seq<TokenView>, registers: Registers) -> CommandForm {
    if t.len() == 0 {
        CommandForm::Plain(Command::Step)
    } else {
        match t[0] {
            TokenView::Text(n) => if t.len() == 1 {
                match named_command(n) {
                    Some(c) => CommandForm::Plain(c),
                    None => CommandForm::Invalid,
                }
            } else {
                CommandForm::Invalid
            },
            TokenView::Int(u) => if t.len() == 1 {
                CommandForm::Echo(u)
            } else {
                CommandForm::Invalid
            },
            TokenView::LBracket => match address_at(t, 1) {
                Some((a, p)) => if p < t.len() && t[p] == TokenView::RBracket {
                    if p + 1 == t.len() {
                        CommandForm::Plain(Command::ReadMemory(a))
                    } else if p + 3 == t.len() && t[p + 1] == TokenView::Equals {
                        match value_of(t[p + 2], registers) {
                            Some(v) => CommandForm::Plain(Command::WriteMemory(a, v)),
                            None => CommandForm::Invalid,
                        }
                    } else {
                        CommandForm::Invalid
                    }
                } else {
                    CommandForm::Invalid
                },
                None => CommandForm::Invalid,
            },
            _ => CommandForm::Invalid,
        }
    }
}

pub open spec fn digit_char(d: nat) -> char {
    (('0' as nat) + d) as char
}

/// The decimal digits of `n`, most significant first.
pub open spec fn decimal_digits(n: nat) -> Seq<char>
    decreases n,
{
    if n < 10 {
        seq![digit_char(n)]
    } else {
        decimal_digits(n / 10).push(digit_char(n % 10))
    }
}

fn digit_str(d: u32) -> (r: &'static str)
    requires
        d < 10,
    ensures
        r@ == seq![digit_char(d as nat)],
{
    proof {
        reveal_strlit("0");
        reveal_strlit("1");
        reveal_strlit("2");
        reveal_strlit("3");
        reveal_strlit("4");
        reveal_strlit("5");
        reveal_strlit("6");
        reveal_strlit("7");
        reveal_strlit("8");
        reveal_strlit("9");
    }
    if d == 0 {
        "0"
    } else if d == 1 {
        "1"
    } else if d == 2 {
        "2"
    } else if d == 3 {
        "3"
    } else if d == 4 {
        "4"
    } else if d == 5 {
        "5"
    } else if d == 6 {
        "6"
    } else if d == 7 {
        "7"
    } else if d == 8 {
        "8"
    } else {
        "9"
    }
}

/// `n` written in decimal.
pub fn decimal_string(n: u32) -> (r: String)
    ensures
        r@ == decimal_digits(n as nat),
    decreases n,
{
    if n < 10 {
        String::from_str(digit_str(n))
    } else {
        let mut s = decimal_string(n / 10);
        s.append(digit_str(n % 10));
        s
    }
}

/// `n` written in decimal.
pub fn decimal_string_usize(n: usize) -> (r: String)
    ensures
        r@ == decimal_digits(n as nat),
    decreases n,
{
    if n < 10 {
        String::from_str(digit_str(n as u32))
    } else {
        let mut s = decimal_string_usize(n / 10);
        s.append(digit_str((n % 10) as u32));
        s
    }
}

fn upper_char_exec(c: char) -> (r: char)
    ensures
        r == upper_char(c),
{
    if 'a' <= c && c <= 'z' {
        (((c as u32) - 32) as u8) as char
    } else {
        c
    }
}

/// Whether `text`, made upper-case, is `name`.
fn upper_equals(text: &str, name: &str) -> (r: bool)
    ensures
        r == (upper(text@) == name@),
{
    let len = text.unicode_len();
    if len != name.unicode_len() {
        return false;
    }
    let mut i: usize = 0;
    while i < len
        invariant
            len == text@.len() == name@.len(),
            i <= len,
            forall|k: int| 0 <= k < i ==> upper_char(text@[k]) == name@[k],
        decreases len - i,
    {
        if upper_char_exec(text.get_char(i)) != name.get_char(i) {
            assert(upper(text@)[i as int] != name@[i as int]);
            return false;
        }
        i = i + 1;
    }
    assert(upper(text@) =~= name@);
    true
}

/// The register that `name` spells, ignoring case.
pub fn register_from_name(name: &str) -> (r: Option<RegisterIndex>)
    ensures
        r == register_named(name@),
{
    let mut k: u32 = 0;
    while k < 18
        invariant
            k <= 18,
            register_named(name@) == first_named(upper(name@), k as nat),
        decreases 18 - k,
    {
        match RegisterIndex::try_from_u32(k) {
            Ok(r) => {
                if upper_equals(name, r.name()) {
                    return Some(r);
                }
            },
            Err(()) => {},
        }
        k = k + 1;
    }
    None
}

fn command_named(name: &str) -> (r: Option<Command>)
    ensures
        r == named_command(name@),
{
    if same_text(name, "b") || same_text(name, "back") {
        Some(Command::GoBack)
    } else if same_text(name, "c") || same_text(name, "cont") || same_text(name, "continue") {
        Some(Command::Continue)
    } else if same_text(name, "h") || same_text(name, "help") || same_text(name, "?") {
        Some(Command::Help)
    } else if same_text(name, "jr") || same_text(name, "jump-return") {
        Some(Command::JumpOut)
    } else if same_text(name, "r") || same_text(name, "reg") || same_text(name, "registers") {
        Some(Command::ShowRegisters)
    } else if same_text(name, "stackframe") || same_text(name, "sf") {
        Some(Command::ShowStackFrame)
    } else if same_text(name, "show-asm") {
        Some(Command::StartEmittingAssembly)
    } else if same_text(name, "hide-asm") {
        Some(Command::StopEmittingAssembly)
    } else if same_text(name, "n") || same_text(name, "next") || same_text(name, "step")
        || same_text(name, "s") {
        Some(Command::Step)
    } else {
        None
    }
}

fn parse_address(tokens: &Vec<Token>, pos: usize) -> (r: Option<(Address, usize)>)
    ensures
        match address_at(token_views(tokens@), pos as int) {
            Some((a, p)) => r matches Some((a2, p2)) && a2 == a && p2 == p,
            None => r is None,
        },
    decreases tokens@.len() - pos,
{
    let ghost t = token_views(tokens@);
    if pos >= tokens.len() {
        return None;
    }
    assert(t[pos as int] == tokens@[pos as int]@);
    match &tokens[pos] {
        Token::Int(u) => Some((Address::Literal(*u), pos + 1)),
        Token::Text(n) => match register_from_name(n.as_str()) {
            Some(r) => Some((Address::Register(r), pos + 1)),
            None => None,
        },
        Token::LBracket => match parse_address(tokens, pos + 1) {
            Some((a, p)) => {
                if p < tokens.len() && matches!(tokens[p], Token::RBracket) {
                    assert(t[p as int] == tokens@[p as int]@);
                    Some((Address::Indirect(Box::new(a)), p + 1))
                } else {
                    proof {
                        if p < tokens.len() {
                            assert(t[p as int] == tokens@[p as int]@);
                        }
                    }
                    None
                }
            },
            None => None,
        },
        _ => None,
    }
}

fn token_value(t: &Token, registers: &Registers) -> (r: Option<u32>)
    ensures
        r == value_of(t@, *registers),
{
    match t {
        Token::Int(u) => Some(*u),
        Token::Text(n) => match register_from_name(n.as_str()) {
            Some(reg) => {
                if registers.can_read_register(reg) {
                    Some(registers.read(reg))
                } else {
                    None
                }
            },
            None => None,
        },
        _ => None,
    }
}

/// Parses a command line; register names in it stand for the values in
/// `registers`.
pub fn parse_command(text: String, registers: Registers) -> (result: Result<Command, ()>)
    ensures
        match command_form(tokens_from(text@, 0), registers) {
            CommandForm::Echo(u) => result matches Ok(Command::Echo(s)) && s@ == decimal_digits(
                u as nat,
            ),
            CommandForm::Plain(c) => result == Ok::<Command, ()>(c),
            CommandForm::Invalid => result == Err::<Command, ()>(()),
        },
{
    let tokens = parse_tokens(text);
    let ghost t = token_views(tokens@);
    if tokens.len() == 0 {
        return Ok(Command::Step);
    }
    assert(t[0] == tokens@[0]@);
    match &tokens[0] {
        Token::Text(n) => {
            if tokens.len() == 1 {
                match command_named(n.as_str()) {
                    Some(c) => Ok(c),
                    None => Err(()),
                }
            } else {
                Err(())
            }
        },
        Token::Int(u) => {
            if tokens.len() == 1 {
                Ok(Command::Echo(decimal_string(*u)))
            } else {
                Err(())
            }
        },
        Token::LBracket => match parse_address(&tokens, 1) {
            Some((a, p)) => {
                if p < tokens.len() && matches!(tokens[p], Token::RBracket) {
                    assert(t[p as int] == tokens@[p as int]@);
                    if p + 1 == tokens.len() {
                        Ok(Command::ReadMemory(a))
                    } else if tokens.len() - p == 3 && matches!(tokens[p + 1], Token::Equals) {
                        assert(t[p + 1] == tokens@[p + 1]@);
                        assert(t[p + 2] == tokens@[p + 2]@);
                        match token_value(&tokens[p + 2], &registers) {
                            Some(v) => Ok(Command::WriteMemory(a, v)),
                            None => Err(()),
                        }
                    } else {
                        proof {
                            if tokens.len() - p == 3 {
                                assert(t[p + 1] == tokens@[p + 1]@);
                            }
                        }
                        Err(())
                    }
                } else {
                    proof {
                        if p < tokens.len() {
                            assert(t[p as int] == tokens@[p as int]@);
                        }
                    }
                    Err(())
                }
            },
            None => Err(()),
        },
        _ => Err(()),
    }
}

impl Command {
    /// Parses a command line typed into the debugger.
    pub fn parse(cmd: &str, registers: Registers) -> (result: Result<Command, ()>)
        ensures
            match command_form(tokens_from(cmd@, 0), registers) {
                CommandForm::Echo(u) => result matches Ok(Command::Echo(s)) && s@
                    == decimal_digits(u as nat),
                CommandForm::Plain(c) => result == Ok::<Command, ()>(c),
                CommandForm::Invalid => result == Err::<Command, ()>(()),
            },
    {
        parse_command(String::from_str(cmd), registers)
    }
}

impl Address {
    /// Whether the address can be computed: registers can be read and
    /// every word read on the way is readable and aligned.
    pub open spec fn can_resolve(self, registers: Registers, memory: MemoryView) -> bool
        decreases self,
    {
        match self {
            Address::Literal(_) => true,
            Address::Indirect(inner) => {
                &&& inner.can_resolve(registers, memory)
                &&& inner.value(registers, memory) % 4 == 0
                &&& memory.can_read(inner.value(registers, memory), 4)
            },
            Address::Register(r) => registers.can_read(r),
        }
    }

    /// The address a command means: a number, the word stored at an
    /// address, or a register's value.
    pub open spec fn value(self, registers: Registers, memory: MemoryView) -> u32
        decreases self,
    {
        match self {
            Address::Literal(u) => u,
            Address::Indirect(inner) => memory.word(inner.value(registers, memory)),
            Address::Register(r) => registers.spec_read(r),
        }
    }

    pub fn resolve(&self, registers: Registers, memory: &Memory) -> (r: u32)
        requires
            memory.wf(),
            self.can_resolve(registers, memory@),
        ensures
            r == self.value(registers, memory@),
        decreases self,
    {
        match self {
            Address::Literal(it) => *it,
            Address::Indirect(address) => {
                let address = address.resolve(registers, memory);
                memory.read_word_silent(address)
            },
            Address::Register(register) => registers.read(*register),
        }
    }
}

/// The lines that the help command shows: how addresses and values are
/// written, then one line for each command.
pub open spec fn help_text() -> Seq<Seq<char>> {
    seq![
        "ADDR or VALUE can be written as hex (0xaf123) or decimal (1921). You can also use registers (R6 or r6 or sp) or memory locations"@,
        "  b/back - Go back one instruction in the debugger"@,
        "  r/registers - Show the current values of all registers"@,
        "  sf/stackframe - Show the stackframe of all functions being called right now"@,
        "  jr/jump-return - Continue exectution until the end of the current function. Needs a stackframe to work."@,
        "  c/continue - Continue exectution again."@,
        "  n/next/s/step - Execute one instruction."@,
        "  show-asm - Output executed assembly onto stdout."@,
        "  hide-asm - Stop Outputting executed assembly onto stdout."@,
        "  [ADDR] - Read Memory value at address."@,
        "  [ADDR]=VALUE - Write value to memory address."@,
        "  ?/h/help - Emits this help."@,
    ]
}

/// The lines that the help command shows, in order.
pub fn help_lines() -> (r: Vec<&'static str>)
    ensures
        r@.len() == help_text().len(),
        forall|i: int| 0 <= i < r@.len() ==> #[trigger] r@[i]@ == help_text()[i],
{
    let mut r: Vec<&'static str> = Vec::new();
    r.push("ADDR or VALUE can be written as hex (0xaf123) or decimal (1921). You can also use registers (R6 or r6 or sp) or memory locations");
    r.push("  b/back - Go back one instruction in the debugger");
    r.push("  r/registers - Show the current values of all registers");
    r.push("  sf/stackframe - Show the stackframe of all functions being called right now");
    r.push("  jr/jump-return - Continue exectution until the end of the current function. Needs a stackframe to work.");
    r.push("  c/continue - Continue exectution again.");
    r.push("  n/next/s/step - Execute one instruction.");
    r.push("  show-asm - Output executed assembly onto stdout.");
    r.push("  hide-asm - Stop Outputting executed assembly onto stdout.");
    r.push("  [ADDR] - Read Memory value at address.");
    r.push("  [ADDR]=VALUE - Write value to memory address.");
    r.push("  ?/h/help - Emits this help.");
    r
}

} // verus!
