//! The scanner: source text to tokens.
//!
//! `scan_from` says which tokens a text holds; `Scanner` computes them with
//! one forward cursor and is proved to agree.

use crate::number::{double_from_decimal, is_decimal_literal, is_digit_char, parse_double};
use crate::text::{chars_of, text_between};
use crate::token::{token_views, Literal, SpecLiteral, SpecToken, Token, TokenType};
use vstd::prelude::*;
use vstd::string::StrSliceExecFns;

verus! {

/// Why scanning stopped, and the line on which it did.
#[derive(Copy, Clone, PartialEq, Eq, Debug, Structural)]
pub enum LexError {
    /// The text ended inside a string literal.
    UnterminatedString { line: usize },
    /// A character that starts no token.
    UnexpectedCharacter { found: char, line: usize },
}

/// The mathematical value of a [`LexError`].
pub enum SpecLexError {
    UnterminatedString { line: nat },
    UnexpectedCharacter { found: char, line: nat },
}

impl View for LexError {
    type V = SpecLexError;

    open spec fn view(&self) -> SpecLexError {
        match self {
            LexError::UnterminatedString { line } => SpecLexError::UnterminatedString {
                line: *line as nat,
            },
            LexError::UnexpectedCharacter { found, line } => SpecLexError::UnexpectedCharacter {
                found: *found,
                line: *line as nat,
            },
        }
    }
}

/// The kinds of character run that the scanner reads in one go.
pub enum Run {
    /// Decimal digits.
    Digits,
    /// Letters, digits and underscores.
    Word,
    /// Everything up to the end of the line.
    Comment,
    /// Everything up to the closing quote.
    Quoted,
}

/// Whether `c` can start an identifier: an ASCII letter or an underscore.
pub open spec fn is_alpha_char(c: char) -> bool {
    ('a' <= c && c <= 'z') || ('A' <= c && c <= 'Z') || c == '_'
}

/// Whether `c` belongs to a run of the given kind.
pub open spec fn in_run(c: char, run: Run) -> bool {
    match run {
        Run::Digits => is_digit_char(c),
        Run::Word => is_alpha_char(c) || is_digit_char(c),
        Run::Comment => c != '\n',
        Run::Quoted => c != '"',
    }
}

/// The number of characters from index `from` on that belong to the run,
/// up to the first that does not or the end of the text.
pub open spec fn run_length(src: Seq<char>, from: int, run: Run) -> nat
    decreases src.len() - from,
{
    if 0 <= from < src.len() && in_run(src[from], run) {
        1 + run_length(src, from + 1, run)
    } else {
        0
    }
}

/// The number of line breaks among the characters from index `from` up to,
/// not including, index `to`.
pub open spec fn newlines(src: Seq<char>, from: int, to: int) -> nat
    decreases to - from,
{
    if from < to {
        newlines(src, from, to - 1) + if src[to - 1] == '\n' {
            1nat
        } else {
            0nat
        }
    } else {
        0
    }
}

/// The category of a word: that of the keyword it spells, or `Identifier`.
pub open spec fn keyword_type(word: Seq<char>) -> TokenType {
    if word == "and"@ {
        TokenType::And
    } else if word == "class"@ {
        TokenType::Class
    } else if word == "else"@ {
        TokenType::Else
    } else if word == "false"@ {
        TokenType::False
    } else if word == "for"@ {
        TokenType::For
    } else if word == "fun"@ {
        TokenType::Fun
    } else if word == "if"@ {
        TokenType::If
    } else if word == "nil"@ {
        TokenType::Nil
    } else if word == "or"@ {
        TokenType::Or
    } else if word == "print"@ {
        TokenType::Print
    } else if word == "return"@ {
        TokenType::Return
    } else if word == "super"@ {
        TokenType::Super
    } else if word == "this"@ {
        TokenType::This
    } else if word == "true"@ {
        TokenType::True
    } else if word == "var"@ {
        TokenType::Var
    } else if word == "while"@ {
        TokenType::While
    } else {
        TokenType::Identifier
    }
}

/// What one step of the scanner does: the tokens it emits (one or none),
/// the number of characters it takes, and the line it ends on.
pub struct Step {
    pub tokens: Seq<SpecToken>,
    pub length: nat,
    pub line: nat,
}

/// The token of category `tok_type` read from `length` characters at index
/// `start`, with the payload given.
pub open spec fn token_at(
    src: Seq<char>,
    tok_type: TokenType,
    start: int,
    length: nat,
    literal: SpecLiteral,
    line: nat,
) -> SpecToken {
    SpecToken { tok_type, lexme: src.subrange(start, start + length), literal, line }
}

/// A step that emits one token without payload and stays on its line.
pub open spec fn emit(src: Seq<char>, tok_type: TokenType, start: int, length: nat, line: nat) -> Step {
    Step {
        tokens: seq![token_at(src, tok_type, start, length, SpecLiteral::Nil, line)],
        length,
        line,
    }
}

/// A step that emits nothing.
pub open spec fn skip(length: nat, line: nat) -> Step {
    Step { tokens: Seq::empty(), length, line }
}

/// Whether the character at index `at` is `c`.
pub open spec fn follows(src: Seq<char>, at: int, c: char) -> bool {
    0 <= at < src.len() && src[at] == c
}

/// A one-character operator, or the two-character one that it starts where
/// `=` follows.
pub open spec fn operator(
    src: Seq<char>,
    start: int,
    line: nat,
    alone: TokenType,
    with_equal: TokenType,
) -> Step {
    if follows(src, start + 1, '=') {
        emit(src, with_equal, start, 2, line)
    } else {
        emit(src, alone, start, 1, line)
    }
}

/// The length of the number literal that starts with the digit at index
/// `start`: a run of digits, then a point and a second run of digits where
/// a digit follows the point.
pub open spec fn number_length(src: Seq<char>, start: int) -> nat {
    let whole = 1 + run_length(src, start + 1, Run::Digits);
    if follows(src, start + whole, '.') && 0 <= start + whole + 1 < src.len() && is_digit_char(
        src[start + whole + 1],
    ) {
        whole + 1 + run_length(src, start + whole + 1, Run::Digits)
    } else {
        whole
    }
}

/// The step at a digit: a number token whose payload is the binary64 value
/// of its text.
pub open spec fn number_step(src: Seq<char>, start: int, line: nat) -> Step {
    let length = number_length(src, start);
    let text = src.subrange(start, start + length);
    Step {
        tokens: seq![
            token_at(
                src,
                TokenType::Number,
                start,
                length,
                SpecLiteral::Number(double_from_decimal(text)),
                line,
            ),
        ],
        length,
        line,
    }
}

/// The step at a letter or an underscore: a keyword or an identifier.
pub open spec fn word_step(src: Seq<char>, start: int, line: nat) -> Step {
    let length = 1 + run_length(src, start + 1, Run::Word);
    emit(src, keyword_type(src.subrange(start, start + length)), start, length, line)
}

/// The step at an opening quote: a string token that ends with the closing
/// quote and carries the text between the two, on the line where it ends;
/// an error where the text ends first.
pub open spec fn string_step(src: Seq<char>, start: int, line: nat) -> Result<Step, SpecLexError> {
    let inside = run_length(src, start + 1, Run::Quoted);
    let last_line = line + newlines(src, start + 1, start + 1 + inside);
    if start + 1 + inside >= src.len() {
        Err(SpecLexError::UnterminatedString { line: last_line })
    } else {
        Ok(
            Step {
                tokens: seq![
                    token_at(
                        src,
                        TokenType::String,
                        start,
                        inside + 2,
                        SpecLiteral::String(src.subrange(start + 1, start + 1 + inside)),
                        last_line,
                    ),
                ],
                length: inside + 2,
                line: last_line,
            },
        )
    }
}

/// What the scanner does at index `start` of the text, on line `line`.
pub open spec fn scan_step(src: Seq<char>, start: int, line: nat) -> Result<Step, SpecLexError> {
    let c = src[start];
    match c {
        '(' => Ok(emit(src, TokenType::LeftParen, start, 1, line)),
        ')' => Ok(emit(src, TokenType::RightParen, start, 1, line)),
        '{' => Ok(emit(src, TokenType::LeftBrace, start, 1, line)),
        '}' => Ok(emit(src, TokenType::RightBrace, start, 1, line)),
        ',' => Ok(emit(src, TokenType::Comma, start, 1, line)),
        '.' => Ok(emit(src, TokenType::Dot, start, 1, line)),
        '-' => Ok(emit(src, TokenType::Minus, start, 1, line)),
        '+' => Ok(emit(src, TokenType::Plus, start, 1, line)),
        ';' => Ok(emit(src, TokenType::SemiColon, start, 1, line)),
        '*' => Ok(emit(src, TokenType::Star, start, 1, line)),
        '%' => Ok(emit(src, TokenType::Modulo, start, 1, line)),
        '!' => Ok(operator(src, start, line, TokenType::Bang, TokenType::BangEqual)),
        '=' => Ok(operator(src, start, line, TokenType::Equal, TokenType::EqualEqual)),
        '<' => Ok(operator(src, start, line, TokenType::Less, TokenType::LessEqual)),
        '>' => Ok(operator(src, start, line, TokenType::Greater, TokenType::GreaterEqual)),
        '/' => if follows(src, start + 1, '/') {
            Ok(skip(2 + run_length(src, start + 2, Run::Comment), line))
        } else {
            Ok(emit(src, TokenType::Slash, start, 1, line))
        },
        ' ' => Ok(skip(1, line)),
        '\r' => Ok(skip(1, line)),
        '\t' => Ok(skip(1, line)),
        '\n' => Ok(skip(1, line + 1)),
        '"' => string_step(src, start, line),
        _ => if is_digit_char(c) {
            Ok(number_step(src, start, line))
        } else if is_alpha_char(c) {
            Ok(word_step(src, start, line))
        } else {
            Err(SpecLexError::UnexpectedCharacter { found: c, line })
        },
    }
}

/// The outcome of scanning: the tokens read, the error that stopped the
/// scan, if one did, and the index and the line at which the scan stopped.
pub struct Scanned {
    pub tokens: Seq<SpecToken>,
    pub error: Option<SpecLexError>,
    pub end: int,
    pub line: nat,
}

/// The index at which a scan that fails at index `start` stops: the end of
/// the text for a string left open, the next character otherwise.
pub open spec fn stop_after(src: Seq<char>, start: int, error: SpecLexError) -> int {
    match error {
        SpecLexError::UnterminatedString { .. } => src.len() as int,
        SpecLexError::UnexpectedCharacter { .. } => start + 1,
    }
}

/// The line that an error carries.
pub open spec fn line_of(error: SpecLexError) -> nat {
    match error {
        SpecLexError::UnterminatedString { line } => line,
        SpecLexError::UnexpectedCharacter { line, .. } => line,
    }
}

/// The end-of-input token on line `line`.
pub open spec fn eof_token(line: nat) -> SpecToken {
    SpecToken { tok_type: TokenType::Eof, lexme: Seq::empty(), literal: SpecLiteral::Nil, line }
}

/// The outcome of scanning the text from index `start` on, on line `line`:
/// the tokens of the steps in order and the end-of-input token after the
/// last; or, where a step fails, the tokens before it, its error, and the
/// place where it gave up.
pub open spec fn scan_from(src: Seq<char>, start: int, line: nat) -> Scanned
    decreases
            (if start < src.len() {
                src.len() - start
            } else {
                0
            }),
{
    if 0 <= start < src.len() {
        match scan_step(src, start, line) {
            Ok(step) => {
                let rest = scan_from(src, start + step.length, step.line);
                Scanned { tokens: step.tokens + rest.tokens, ..rest }
            },
            Err(error) => Scanned {
                tokens: Seq::empty(),
                error: Some(error),
                end: stop_after(src, start, error),
                line: line_of(error),
            },
        }
    } else {
        Scanned { tokens: seq![eof_token(line)], error: None, end: start, line }
    }
}

/// The outcome of scanning a whole text. Lines count from 1.
pub open spec fn scan_text(src: Seq<char>) -> Scanned {
    scan_from(src, 0, 1)
}

/// A scan that meets no error ends with the end-of-input token, and holds
/// that token nowhere else.
pub proof fn lemma_scan_ends_with_eof(src: Seq<char>, start: int, line: nat)
    ensures
        scan_from(src, start, line).error is None ==> ({
            let tokens = scan_from(src, start, line).tokens;
            &&& tokens.len() > 0
            &&& forall|i: int|
                0 <= i < tokens.len() ==> ((#[trigger] tokens[i]).tok_type == TokenType::Eof <==> i
                    == tokens.len() - 1)
        }),
    decreases
            (if start < src.len() {
                src.len() - start
            } else {
                0
            }),
{
    if 0 <= start < src.len() {
        if let Ok(step) = scan_step(src, start, line) {
            lemma_scan_ends_with_eof(src, start + step.length, step.line);
            assert(forall|i: int|
                0 <= i < step.tokens.len() ==> (#[trigger] step.tokens[i]).tok_type
                    != TokenType::Eof) by {
                reveal_strlit("and");
                reveal_strlit("class");
                reveal_strlit("else");
                reveal_strlit("false");
                reveal_strlit("for");
                reveal_strlit("fun");
                reveal_strlit("if");
                reveal_strlit("nil");
                reveal_strlit("or");
                reveal_strlit("print");
                reveal_strlit("return");
                reveal_strlit("super");
                reveal_strlit("this");
                reveal_strlit("true");
                reveal_strlit("var");
                reveal_strlit("while");
            }
        }
    }
}

/// The token of a number literal that makes up a whole text.
pub open spec fn number_token(text: Seq<char>) -> SpecToken {
    SpecToken {
        tok_type: TokenType::Number,
        lexme: text,
        literal: SpecLiteral::Number(double_from_decimal(text)),
        line: 1,
    }
}

/// A decimal literal scans to one number token that carries the binary64
/// value of the whole literal, and the end-of-input token.
pub proof fn lemma_scan_number(text: Seq<char>)
    requires
        is_decimal_literal(text),
    ensures
        scan_text(text).error is None,
        scan_text(text).tokens == seq![number_token(text), eof_token(1)],
{
    let length = text.len() as int;
    assert forall|i: int| 0 <= i < length && text[i] != '.' implies in_run(
        #[trigger] text[i],
        Run::Digits,
    ) by {
        assert(is_digit_char(text[i]) || text[i] == '.');
    }
    if exists|d: int| 0 <= d < length && text[d] == '.' {
        let d = choose|d: int| 0 <= d < length && text[d] == '.';
        assert forall|i: int| 0 <= i < length && i != d implies text[i] != '.' by {
            if text[i] == '.' {
                assert(text[i] == '.' && text[d] == '.');
            }
        }
        lemma_run_split(text, 1, d, Run::Digits);
        lemma_run_split(text, d + 1, length, Run::Digits);
    } else {
        lemma_run_split(text, 1, length, Run::Digits);
    }
    assert(number_length(text, 0) == length);
    assert(text.subrange(0, length) =~= text);
    let step = number_step(text, 0, 1);
    assert(scan_step(text, 0, 1) == Ok::<Step, SpecLexError>(step));
    assert(step.tokens =~= seq![number_token(text)]);
    let rest = scan_from(text, length, 1);
    assert(rest.tokens =~= seq![eof_token(1)]);
    assert(scan_text(text).tokens =~= seq![number_token(text), eof_token(1)]);
}

/// A scanner: the text, a cursor into it, and the tokens read so far.
#[derive(Debug)]
pub struct Scanner {
    /// The text to scan.
    pub source: String,
    /// The characters of `source`.
    pub chars: Vec<char>,
    /// The index of the next character to read.
    pub current: usize,
    /// The index at which the token being read starts.
    pub start: usize,
    /// The line of the next character to read, counted from 1.
    pub line: usize,
    /// The tokens read so far, in order.
    pub tokens: Vec<Token>,
}

/// Whether the characters of `chars` from index `from` up to, not including,
/// index `to` spell `word`.
fn spells(chars: &Vec<char>, from: usize, to: usize, word: &str) -> (r: bool)
    requires
        from <= to <= chars@.len(),
    ensures
        r == (chars@.subrange(from as int, to as int) == word@),
{
    let length = word.unicode_len();
    if to - from != length {
        return false;
    }
    let mut i: usize = 0;
    while i < length
        invariant
            from <= to <= chars@.len(),
            to - from == length,
            length == word@.len(),
            i <= length,
            forall|j: int| 0 <= j < i ==> chars@[from + j] == word@[j],
        decreases length - i,
    {
        if chars[from + i] != word.get_char(i) {
            proof {
                assert(chars@.subrange(from as int, to as int)[i as int] != word@[i as int]);
            }
            return false;
        }
        i += 1;
    }
    proof {
        assert(chars@.subrange(from as int, to as int) =~= word@);
    }
    true
}

/// The category of the word at `from..to`: that of the keyword it spells, or
/// `Identifier`.
fn keyword(chars: &Vec<char>, from: usize, to: usize) -> (tok_type: TokenType)
    requires
        from <= to <= chars@.len(),
    ensures
        tok_type == keyword_type(chars@.subrange(from as int, to as int)),
{
    if spells(chars, from, to, "and") {
        TokenType::And
    } else if spells(chars, from, to, "class") {
        TokenType::Class
    } else if spells(chars, from, to, "else") {
        TokenType::Else
    } else if spells(chars, from, to, "false") {
        TokenType::False
    } else if spells(chars, from, to, "for") {
        TokenType::For
    } else if spells(chars, from, to, "fun") {
        TokenType::Fun
    } else if spells(chars, from, to, "if") {
        TokenType::If
    } else if spells(chars, from, to, "nil") {
        TokenType::Nil
    } else if spells(chars, from, to, "or") {
        TokenType::Or
    } else if spells(chars, from, to, "print") {
        TokenType::Print
    } else if spells(chars, from, to, "return") {
        TokenType::Return
    } else if spells(chars, from, to, "super") {
        TokenType::Super
    } else if spells(chars, from, to, "this") {
        TokenType::This
    } else if spells(chars, from, to, "true") {
        TokenType::True
    } else if spells(chars, from, to, "var") {
        TokenType::Var
    } else if spells(chars, from, to, "while") {
        TokenType::While
    } else {
        TokenType::Identifier
    }
}

/// The views of a token list grow with the list.
proof fn lemma_token_views_push(tokens: Seq<Token>, token: Token)
    ensures
        token_views(tokens.push(token)) == token_views(tokens).push(token@),
{
    assert(token_views(tokens.push(token)) =~= token_views(tokens).push(token@));
}

/// A run is as long as the part of it already passed and the run from
/// there on.
proof fn lemma_run_split(src: Seq<char>, from: int, passed: int, run: Run)
    requires
        0 <= from <= passed <= src.len(),
        forall|i: int| from <= i < passed ==> in_run(#[trigger] src[i], run),
    ensures
        run_length(src, from, run) == (passed - from) + run_length(src, passed, run),
    decreases passed - from,
{
    if from < passed {
        lemma_run_split(src, from + 1, passed, run);
    }
}

impl Scanner {
    /// What holds of a scanner between calls: the cursor lies inside the
    /// text, the token being read starts before it, and the line counter
    /// cannot overflow.
    pub open spec fn well_formed(&self) -> bool {
        &&& self.chars@ == self.source@
        &&& self.chars@.len() < usize::MAX
        &&& self.start <= self.current <= self.chars@.len()
        &&& self.line <= self.current + 1
    }

    /// A scanner at the start of `source`, on line 1, with no tokens.
    pub fn new(source: String) -> (scanner: Scanner)
        requires
            source@.len() < usize::MAX,
        ensures
            scanner.well_formed(),
            scanner.source == source,
            scanner.current == 0,
            scanner.line == 1,
            scanner.tokens@.len() == 0,
    {
        let chars = chars_of(source.as_str());
        Scanner { source, chars, current: 0, start: 0, line: 1, tokens: Vec::new() }
    }

    /// Takes the next character.
    fn advance(&mut self) -> (c: char)
        requires
            old(self).current < old(self).chars@.len(),
        ensures
            c == old(self).chars@[old(self).current as int],
            final(self).current == old(self).current + 1,
            final(self).same_but_cursor(*old(self)),
    {
        let c = self.chars[self.current];
        proof {
            assert(self.chars.len() <= usize::MAX);
        }
        self.current += 1;
        c
    }

    /// Appends a token without payload, read from `start` up to the cursor.
    fn add_token(&mut self, tok_type: TokenType)
        requires
            old(self).start <= old(self).current <= old(self).chars@.len(),
        ensures
            *final(self) == (Scanner { tokens: final(self).tokens, ..*old(self) }),
            token_views(final(self).tokens@) == token_views(old(self).tokens@).push(
                token_at(
                    old(self).chars@,
                    tok_type,
                    old(self).start as int,
                    (old(self).current - old(self).start) as nat,
                    SpecLiteral::Nil,
                    old(self).line as nat,
                ),
            ),
    {
        self.add_token_lit(tok_type, Literal::Nil);
    }

    /// Appends a token with the payload given, read from `start` up to the
    /// cursor.
    fn add_token_lit(&mut self, tok_type: TokenType, lit: Literal)
        requires
            old(self).start <= old(self).current <= old(self).chars@.len(),
        ensures
            *final(self) == (Scanner { tokens: final(self).tokens, ..*old(self) }),
            token_views(final(self).tokens@) == token_views(old(self).tokens@).push(
                token_at(
                    old(self).chars@,
                    tok_type,
                    old(self).start as int,
                    (old(self).current - old(self).start) as nat,
                    lit@,
                    old(self).line as nat,
                ),
            ),
    {
        let text = text_between(&self.chars, self.start, self.current);
        let token = Token::new(tok_type, text, lit, self.line);
        proof {
            lemma_token_views_push(self.tokens@, token);
        }
        self.tokens.push(token);
    }

    /// Takes the next character if it is `expected`.
    fn match_next(&mut self, expected: char) -> (r: bool)
        requires
            old(self).current <= old(self).chars@.len(),
        ensures
            r == follows(old(self).chars@, old(self).current as int, expected),
            final(self).current == old(self).current + if r {
                1int
            } else {
                0int
            },
            final(self).same_but_cursor(*old(self)),
    {
        if self.is_at_end() {
            return false;
        }
        if self.chars[self.current] != expected {
            return false;
        }
        proof {
            assert(self.chars.len() <= usize::MAX);
        }
        self.current += 1;
        true
    }

    /// Whether the two scanners differ in nothing but where the cursor is.
    spec fn same_but_cursor(&self, before: Scanner) -> bool {
        &&& self.source == before.source
        &&& self.chars == before.chars
        &&& self.start == before.start
        &&& self.line == before.line
        &&& self.tokens == before.tokens
    }

    /// Whether the scanner after a step stands where the step says.
    spec fn took(&self, before: Scanner, step: Step) -> bool {
        &&& self.source == before.source
        &&& self.chars == before.chars
        &&& self.start == before.start
        &&& self.current == before.start + step.length
        &&& self.line == step.line
        &&& token_views(self.tokens@) == token_views(before.tokens@) + step.tokens
    }

    /// Whether the scanner and the result of a step agree with what the
    /// step should do: the step is taken, or its error returned with no
    /// token added.
    spec fn agrees(
        &self,
        before: Scanner,
        outcome: Result<Step, SpecLexError>,
        r: Result<(), LexError>,
    ) -> bool {
        &&& self.well_formed()
        &&& self.source == before.source
        &&& match outcome {
            Ok(step) => r is Ok && self.took(before, step),
            Err(error) => {
                &&& r matches Err(found) && found@ == error
                &&& token_views(self.tokens@) == token_views(before.tokens@)
                &&& self.current == stop_after(before.chars@, before.start as int, error)
                &&& self.line == line_of(error)
            },
        }
    }

    /// Reads one token, or skips one stretch of blank space or one comment.
    fn scan_token(&mut self) -> (r: Result<(), LexError>)
        requires
            old(self).well_formed(),
            old(self).start == old(self).current,
            old(self).current < old(self).chars@.len(),
        ensures
            final(self).agrees(
                *old(self),
                scan_step(old(self).chars@, old(self).start as int, old(self).line as nat),
                r,
            ),
    {
        let ghost src = self.chars@;
        let ghost before = *self;
        let c = self.advance();
        match c {
            '(' => self.add_token(TokenType::LeftParen),
            ')' => self.add_token(TokenType::RightParen),
            '{' => self.add_token(TokenType::LeftBrace),
            '}' => self.add_token(TokenType::RightBrace),
            ',' => self.add_token(TokenType::Comma),
            '.' => self.add_token(TokenType::Dot),
            '-' => self.add_token(TokenType::Minus),
            '+' => self.add_token(TokenType::Plus),
            ';' => self.add_token(TokenType::SemiColon),
            '*' => self.add_token(TokenType::Star),
            '%' => self.add_token(TokenType::Modulo),
            '!' => {
                if self.match_next('=') {
                    self.add_token(TokenType::BangEqual)
                } else {
                    self.add_token(TokenType::Bang)
                }
            },
            '=' => {
                if self.match_next('=') {
                    self.add_token(TokenType::EqualEqual)
                } else {
                    self.add_token(TokenType::Equal)
                }
            },
            '<' => {
                if self.match_next('=') {
                    self.add_token(TokenType::LessEqual)
                } else {
                    self.add_token(TokenType::Less)
                }
            },
            '>' => {
                if self.match_next('=') {
                    self.add_token(TokenType::GreaterEqual)
                } else {
                    self.add_token(TokenType::Greater)
                }
            },
            '/' => {
                if self.match_next('/') {
                    while self.peek() != '\n' && !self.is_at_end()
                        invariant
                            self.same_but_cursor(before),
                            before.start + 2 <= self.current <= src.len(),
                            src == before.chars@,
                            forall|i: int|
                                before.start + 2 <= i < self.current ==> in_run(
                                    #[trigger] src[i],
                                    Run::Comment,
                                ),
                        decreases src.len() - self.current,
                    {
                        self.advance();
                    }
                    proof {
                        lemma_run_split(
                            src,
                            before.start + 2,
                            self.current as int,
                            Run::Comment,
                        );
                        assert(token_views(self.tokens@) + Seq::<SpecToken>::empty()
                            =~= token_views(self.tokens@));
                    }
                } else {
                    self.add_token(TokenType::Slash);
                }
            },
            ' ' => {
                proof {
                    assert(token_views(self.tokens@) + Seq::<SpecToken>::empty() =~= token_views(
                        self.tokens@,
                    ));
                }
            },
            '\r' => {
                proof {
                    assert(token_views(self.tokens@) + Seq::<SpecToken>::empty() =~= token_views(
                        self.tokens@,
                    ));
                }
            },
            '\t' => {
                proof {
                    assert(token_views(self.tokens@) + Seq::<SpecToken>::empty() =~= token_views(
                        self.tokens@,
                    ));
                }
            },
            '\n' => {
                self.line += 1;
                proof {
                    assert(token_views(self.tokens@) + Seq::<SpecToken>::empty() =~= token_views(
                        self.tokens@,
                    ));
                }
            },
            '"' => {
                return self.string();
            },
            _ => {
                if self.is_digit(c) {
                    self.number();
                } else if self.is_alpha(c) {
                    self.identifier();
                } else {
                    return Err(LexError::UnexpectedCharacter { found: c, line: self.line });
                }
            },
        }
        proof {
            let step = scan_step(src, before.start as int, before.line as nat);
            assert(step is Ok);
            assert(token_views(self.tokens@) =~= token_views(before.tokens@) + step->Ok_0.tokens);
        }
        Ok(())
    }

    /// Reads the rest of a word and appends the keyword or identifier that
    /// it spells.
    fn identifier(&mut self)
        requires
            old(self).well_formed(),
            old(self).current == old(self).start + 1,
            is_alpha_char(old(self).chars@[old(self).start as int]),
        ensures
            final(self).well_formed(),
            final(self).took(
                *old(self),
                word_step(old(self).chars@, old(self).start as int, old(self).line as nat),
            ),
    {
        let ghost src = self.chars@;
        let ghost before = *self;
        while self.is_alpha_numeric(self.peek())
            invariant
                self.same_but_cursor(before),
                before.start + 1 <= self.current <= src.len(),
                src == before.chars@,
                forall|i: int|
                    before.start + 1 <= i < self.current ==> in_run(#[trigger] src[i], Run::Word),
            decreases src.len() - self.current,
        {
            self.advance();
        }
        proof {
            lemma_run_split(src, before.start + 1, self.current as int, Run::Word);
        }
        let tok_type = keyword(&self.chars, self.start, self.current);
        self.add_token(tok_type);
        proof {
            let step = word_step(src, before.start as int, before.line as nat);
            assert(token_views(self.tokens@) =~= token_views(before.tokens@) + step.tokens);
        }
    }

    /// Whether `c` is a letter, a digit or an underscore.
    fn is_alpha_numeric(&self, c: char) -> (r: bool)
        ensures
            r == in_run(c, Run::Word),
    {
        self.is_alpha(c) || self.is_digit(c)
    }

    /// Whether `c` is an ASCII letter or an underscore.
    fn is_alpha(&self, c: char) -> (r: bool)
        ensures
            r == is_alpha_char(c),
    {
        (c >= 'a' && c <= 'z') || (c >= 'A' && c <= 'Z') || c == '_'
    }

    /// Reads the rest of a number literal and appends its token.
    fn number(&mut self)
        requires
            old(self).well_formed(),
            old(self).current == old(self).start + 1,
            is_digit_char(old(self).chars@[old(self).start as int]),
        ensures
            final(self).well_formed(),
            final(self).took(
                *old(self),
                number_step(old(self).chars@, old(self).start as int, old(self).line as nat),
            ),
    {
        let ghost src = self.chars@;
        let ghost before = *self;
        while self.is_digit(self.peek())
            invariant
                self.same_but_cursor(before),
                before.start + 1 <= self.current <= src.len(),
                src == before.chars@,
                forall|i: int|
                    before.start <= i < self.current ==> is_digit_char(#[trigger] src[i]),
            decreases src.len() - self.current,
        {
            self.advance();
        }
        let ghost whole = self.current - before.start;
        proof {
            assert forall|i: int| before.start + 1 <= i < self.current implies in_run(
                #[trigger] src[i],
                Run::Digits,
            ) by {
                assert(is_digit_char(src[i]));
            }
            lemma_run_split(src, before.start + 1, self.current as int, Run::Digits);
        }
        if self.peek() == '.' && self.is_digit(self.peek_next()) {
            self.advance();
            while self.is_digit(self.peek())
                invariant
                    self.same_but_cursor(before),
                    before.start + whole + 1 <= self.current <= src.len(),
                    src == before.chars@,
                    forall|i: int|
                        before.start + whole + 1 <= i < self.current ==> in_run(
                            #[trigger] src[i],
                            Run::Digits,
                        ),
                decreases src.len() - self.current,
            {
                self.advance();
            }
            proof {
                lemma_run_split(
                    src,
                    before.start + whole + 1,
                    self.current as int,
                    Run::Digits,
                );
            }
        }
        let text = text_between(&self.chars, self.start, self.current);
        proof {
            let literal = text@;
            assert(literal.len() == number_length(src, before.start as int));
            assert forall|i: int| 0 <= i < literal.len() implies is_digit_char(
                #[trigger] literal[i],
            ) || literal[i] == '.' by {
                let at = before.start + i;
                if i < whole {
                    assert(is_digit_char(src[at]));
                } else if i > whole {
                    assert(in_run(src[at], Run::Digits));
                }
            }
            assert forall|i: int, j: int|
                0 <= i < literal.len() && 0 <= j < literal.len() && #[trigger] literal[i] == '.'
                    && #[trigger] literal[j] == '.' implies i == j by {
                if i != whole {
                    let at = before.start + i;
                    if i < whole {
                        assert(is_digit_char(src[at]));
                    } else {
                        assert(in_run(src[at], Run::Digits));
                    }
                }
                if j != whole {
                    let at = before.start + j;
                    if j < whole {
                        assert(is_digit_char(src[at]));
                    } else {
                        assert(in_run(src[at], Run::Digits));
                    }
                }
            }
            assert(is_digit_char(src[before.start as int]));
            let last = before.start + literal.len() - 1;
            if literal.len() > whole {
                assert(in_run(src[last], Run::Digits));
            } else {
                assert(is_digit_char(src[last]));
            }
            assert(is_decimal_literal(literal));
        }
        let bits = parse_double(text.as_str());
        self.add_token_lit(TokenType::Number, Literal::Number(bits));
        proof {
            let step = number_step(src, before.start as int, before.line as nat);
            assert(token_views(self.tokens@) =~= token_views(before.tokens@) + step.tokens);
        }
    }

    /// The character after the next one, or NUL where the text ends before.
    fn peek_next(&self) -> (c: char)
        requires
            self.current <= self.chars@.len(),
        ensures
            c == if self.current + 1 < self.chars@.len() {
                self.chars@[self.current + 1]
            } else {
                '\0'
            },
    {
        if self.chars.len() - self.current <= 1 {
            return '\0';
        }
        self.chars[self.current + 1]
    }

    /// Whether `c` is a decimal digit.
    fn is_digit(&self, c: char) -> (r: bool)
        ensures
            r == is_digit_char(c),
    {
        c >= '0' && c <= '9'
    }

    /// Reads the rest of a string literal and appends its token; fails where
    /// the text ends before the closing quote.
    fn string(&mut self) -> (r: Result<(), LexError>)
        requires
            old(self).well_formed(),
            old(self).current == old(self).start + 1,
            old(self).chars@[old(self).start as int] == '"',
        ensures
            final(self).agrees(
                *old(self),
                string_step(old(self).chars@, old(self).start as int, old(self).line as nat),
                r,
            ),
    {
        let ghost src = self.chars@;
        let ghost before = *self;
        while self.peek() != '"' && !self.is_at_end()
            invariant
                self.source == before.source,
                self.chars == before.chars,
                self.start == before.start,
                self.tokens == before.tokens,
                before.well_formed(),
                before.start + 1 <= self.current <= src.len(),
                src == before.chars@,
                self.line == before.line + newlines(src, before.start + 1, self.current as int),
                self.line <= self.current + 1,
                forall|i: int|
                    before.start + 1 <= i < self.current ==> in_run(#[trigger] src[i], Run::Quoted),
            decreases src.len() - self.current,
        {
            if self.peek() == '\n' {
                self.line += 1;
            }
            self.advance();
        }
        proof {
            lemma_run_split(src, before.start + 1, self.current as int, Run::Quoted);
        }
        if self.is_at_end() {
            return Err(LexError::UnterminatedString { line: self.line });
        }
        self.advance();
        let value: Literal = Literal::String(
            text_between(&self.chars, self.start + 1, self.current - 1),
        );
        self.add_token_lit(TokenType::String, value);
        proof {
            let step = string_step(src, before.start as int, before.line as nat);
            assert(token_views(self.tokens@) =~= token_views(before.tokens@) + step->Ok_0.tokens);
        }
        Ok(())
    }

    /// The next character, or NUL at the end of the text.
    fn peek(&self) -> (c: char)
        ensures
            c == if self.current < self.chars@.len() {
                self.chars@[self.current as int]
            } else {
                '\0'
            },
    {
        if self.is_at_end() {
            return '\0';
        }
        self.chars[self.current]
    }

    /// Scans the text from the cursor to its end and appends the tokens
    /// read, the end-of-input token last. Stops at the first error, with the
    /// tokens read before it appended and the cursor where the scan gave
    /// up.
    pub fn scan_tokens(&mut self) -> (r: Result<(), LexError>)
        requires
            old(self).well_formed(),
        ensures
            final(self).well_formed(),
            final(self).source == old(self).source,
            ({
                let scanned = scan_from(
                    old(self).source@,
                    old(self).current as int,
                    old(self).line as nat,
                );
                &&& token_views(final(self).tokens@) == token_views(old(self).tokens@)
                    + scanned.tokens
                &&& match scanned.error {
                    None => r is Ok,
                    Some(error) => r matches Err(found) && found@ == error,
                }
                &&& final(self).current == scanned.end
                &&& final(self).start == scanned.end
                &&& final(self).line == scanned.line
            }),
    {
        let ghost src = self.chars@;
        let ghost goal = scan_from(src, self.current as int, self.line as nat);
        let ghost already = token_views(self.tokens@);
        proof {
            assert(token_views(self.tokens@) + goal.tokens =~= already + goal.tokens);
        }
        while !self.is_at_end()
            invariant
                self.well_formed(),
                self.source == old(self).source,
                src == self.chars@,
                goal == scan_from(
                    old(self).source@,
                    old(self).current as int,
                    old(self).line as nat,
                ),
                already == token_views(old(self).tokens@),
                token_views(self.tokens@) + scan_from(
                    src,
                    self.current as int,
                    self.line as nat,
                ).tokens == already + goal.tokens,
                scan_from(src, self.current as int, self.line as nat).error == goal.error,
                scan_from(src, self.current as int, self.line as nat).end == goal.end,
                scan_from(src, self.current as int, self.line as nat).line == goal.line,
            decreases src.len() - self.current,
        {
            self.start = self.current;
            let ghost before = *self;
            match self.scan_token() {
                Err(error) => {
                    proof {
                        let failed = scan_from(src, before.current as int, before.line as nat);
                        assert(failed.tokens =~= Seq::<SpecToken>::empty());
                        assert(token_views(before.tokens@) + failed.tokens =~= token_views(
                            before.tokens@,
                        ));
                    }
                    self.start = self.current;
                    return Err(error);
                },
                Ok(()) => {
                    proof {
                        let step = scan_step(src, before.start as int, before.line as nat)->Ok_0;
                        let rest = scan_from(src, self.current as int, self.line as nat);
                        assert(token_views(self.tokens@) + rest.tokens =~= token_views(
                            before.tokens@,
                        ) + (step.tokens + rest.tokens));
                    }
                },
            }
        }
        let token = Token::new(TokenType::Eof, String::new(), Literal::Nil, self.line);
        proof {
            lemma_token_views_push(self.tokens@, token);
            assert(token_views(self.tokens@).push(token@) =~= token_views(self.tokens@) + seq![
                eof_token(self.line as nat),
            ]);
        }
        self.tokens.push(token);
        self.start = self.current;
        Ok(())
    }

    /// Whether the cursor is at the end of the text.
    fn is_at_end(&self) -> (r: bool)
        ensures
            r == (self.current >= self.chars@.len()),
    {
        self.current >= self.chars.len()
    }
}

/// Scans a whole text: its tokens in order, the end-of-input token last, or
/// the first error.
pub fn scan(source: &str) -> (r: Result<Vec<Token>, LexError>)
    requires
        source@.len() < usize::MAX,
    ensures
        match scan_text(source@).error {
            None => r matches Ok(tokens) && token_views(tokens@) == scan_text(source@).tokens,
            Some(error) => r matches Err(found) && found@ == error,
        },
{
    let mut scanner = Scanner::new(source.to_owned());
    proof {
        assert(token_views(scanner.tokens@) + scan_text(source@).tokens =~= scan_text(
            source@,
        ).tokens);
    }
    match scanner.scan_tokens() {
        Ok(()) => Ok(scanner.tokens),
        Err(error) => Err(error),
    }
}

} // verus!
