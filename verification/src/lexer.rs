//! The scanner itself: character classification, the mathematical model of
//! one scan step, and the `Lexer` that produces tokens from source text.

use vstd::prelude::*;
use vstd::string::*;

use crate::tokens::compound_op_token;
use crate::tokens::ident_or_keyword;
use crate::tokens::keyword_of;
use crate::tokens::punct_token;
use crate::tokens::single_op_token;
use crate::tokens::SpecToken;
use crate::tokens::Token;

verus! {

/// An ASCII letter or underscore: the characters that may start an
/// identifier.
pub open spec fn is_letter(c: char) -> bool {
    ('A' as u32 <= c as u32 && c as u32 <= 'Z' as u32) || ('a' as u32 <= c as u32 && c as u32
        <= 'z' as u32) || c == '_'
}

/// An ASCII decimal digit.
pub open spec fn is_digit(c: char) -> bool {
    '0' as u32 <= c as u32 && c as u32 <= '9' as u32
}

/// A character that may continue an identifier: letter, underscore or digit.
pub open spec fn is_ident_char(c: char) -> bool {
    is_letter(c) || is_digit(c)
}

/// An operator-class character: one that starts a one- or two-character
/// operator token.
pub open spec fn is_op_char(c: char) -> bool {
    c == '!' || c == '=' || c == '<' || c == '>' || c == '+' || c == '-' || c == '*' || c == '/'
        || c == '%'
}

/// A single-character punctuation mark.
pub open spec fn is_punct(c: char) -> bool {
    c == '(' || c == ')' || c == '{' || c == '}' || c == ',' || c == ';' || c == ':' || c == '.'
}

/// Whitespace that is consumed without producing a token, newline excepted.
pub open spec fn is_skip(c: char) -> bool {
    c == ' ' || c == '\t' || c == '\r'
}

/// A pure separator: consumed between tokens without being reflected in any
/// token of its own.
pub open spec fn is_separator(c: char) -> bool {
    c == '\n' || is_skip(c)
}

/// The first index at or after `i` whose character does not continue an
/// identifier, or the end of the text.
pub open spec fn ident_end(s: Seq<char>, i: int) -> int
    decreases s.len() - i,
{
    if 0 <= i < s.len() && is_ident_char(s[i]) {
        ident_end(s, i + 1)
    } else {
        i
    }
}

/// The first index at or after `i` whose character is not a decimal digit,
/// or the end of the text.
pub open spec fn digit_end(s: Seq<char>, i: int) -> int
    decreases s.len() - i,
{
    if 0 <= i < s.len() && is_digit(s[i]) {
        digit_end(s, i + 1)
    } else {
        i
    }
}

/// The index of the first double quote at or after `i`, or the end of the
/// text when no closing quote remains.
pub open spec fn str_end(s: Seq<char>, i: int) -> int
    decreases s.len() - i,
{
    if 0 <= i < s.len() {
        if s[i] == '"' {
            i
        } else {
            str_end(s, i + 1)
        }
    } else {
        i
    }
}

/// `ident_end` stays within the text, consumes only identifier characters,
/// and stops exactly at the first character that cannot continue an
/// identifier: the scanned span is maximal.
pub proof fn lemma_ident_end_bounds(s: Seq<char>, i: int)
    requires
        0 <= i <= s.len(),
    ensures
        i <= ident_end(s, i) <= s.len(),
        forall|j: int| i <= j < ident_end(s, i) ==> is_ident_char(s[j]),
        ident_end(s, i) < s.len() ==> !is_ident_char(s[ident_end(s, i)]),
    decreases s.len() - i,
{
    if i < s.len() && is_ident_char(s[i]) {
        lemma_ident_end_bounds(s, i + 1);
    }
}

/// `digit_end` stays within the text, consumes only digits, and stops
/// exactly at the first character that is not a digit.
pub proof fn lemma_digit_end_bounds(s: Seq<char>, i: int)
    requires
        0 <= i <= s.len(),
    ensures
        i <= digit_end(s, i) <= s.len(),
        forall|j: int| i <= j < digit_end(s, i) ==> is_digit(s[j]),
        digit_end(s, i) < s.len() ==> !is_digit(s[digit_end(s, i)]),
    decreases s.len() - i,
{
    if i < s.len() && is_digit(s[i]) {
        lemma_digit_end_bounds(s, i + 1);
    }
}

/// `str_end` stays within the text, passes no double quote on the way, and
/// stops at a double quote whenever one remains.
pub proof fn lemma_str_end_bounds(s: Seq<char>, i: int)
    requires
        0 <= i <= s.len(),
    ensures
        i <= str_end(s, i) <= s.len(),
        forall|j: int| i <= j < str_end(s, i) ==> s[j] != '"',
        str_end(s, i) < s.len() ==> s[str_end(s, i)] == '"',
    decreases s.len() - i,
{
    if i < s.len() && s[i] != '"' {
        lemma_str_end_bounds(s, i + 1);
    }
}

/// The outcome of one token request: the token produced, if any, and the
/// cursor, line and column counters after it.
pub struct ScanStep {
    pub token: Option<SpecToken>,
    pub pos: nat,
    pub line: nat,
    pub col: nat,
}

/// The mathematical model of one token request on text `s` with the cursor
/// at `pos`, on line `line` at column `col`.
///
/// Newlines and other whitespace are pure separators: they are consumed,
/// counted in the line and column bookkeeping, and the scan continues. Every
/// other character is reflected in exactly one token. A newline inside a
/// string literal is ordinary content: it does not advance the line counter,
/// a known quirk of the language's diagnostics. An unterminated string
/// literal consumes to the end of the text and yields what was scanned as
/// the body.
pub open spec fn spec_next(s: Seq<char>, pos: nat, line: nat, col: nat) -> ScanStep
    decreases s.len() - pos,
{
    if pos >= s.len() {
        ScanStep { token: None, pos, line, col }
    } else {
        let c = s[pos as int];
        if c == '\n' {
            spec_next(s, pos + 1, line + 1, 0)
        } else if is_skip(c) {
            spec_next(s, pos + 1, line, col + 1)
        } else if is_op_char(c) {
            if pos + 1 < s.len() && s[pos as int + 1] == '=' {
                ScanStep { token: Some(compound_op_token(c)), pos: pos + 2, line, col: col + 2 }
            } else {
                ScanStep { token: Some(single_op_token(c)), pos: pos + 1, line, col: col + 1 }
            }
        } else if is_punct(c) {
            ScanStep { token: Some(punct_token(c)), pos: pos + 1, line, col: col + 1 }
        } else if is_letter(c) {
            let end = ident_end(s, pos as int + 1);
            ScanStep {
                token: Some(ident_or_keyword(s.subrange(pos as int, end))),
                pos: end as nat,
                line,
                col: (col + (end - pos)) as nat,
            }
        } else if is_digit(c) {
            let end = digit_end(s, pos as int + 1);
            ScanStep {
                token: Some(SpecToken::Number(s.subrange(pos as int, end))),
                pos: end as nat,
                line,
                col: (col + (end - pos)) as nat,
            }
        } else if c == '"' {
            let close = str_end(s, pos as int + 1);
            let newpos = if close < s.len() {
                close + 1
            } else {
                close
            };
            ScanStep {
                token: Some(SpecToken::Str(s.subrange(pos as int + 1, close))),
                pos: newpos as nat,
                line,
                col: (col + (newpos - pos)) as nat,
            }
        } else {
            ScanStep {
                token: Some(SpecToken::Illegal(pos, col, line)),
                pos: pos + 1,
                line,
                col: col + 1,
            }
        }
    }
}

/// Totality of the scan: the cursor never moves backwards nor past the end
/// of the text, the end signal comes exactly when nothing but separators
/// remains (no other character is ever silently dropped), and every produced
/// token consumes at least one character.
pub proof fn lemma_scan_total(s: Seq<char>, pos: nat, line: nat, col: nat)
    requires
        pos <= s.len(),
    ensures
        ({
            let step = spec_next(s, pos, line, col);
            &&& pos <= step.pos <= s.len()
            &&& (step.token is None <==> forall|i: int|
                pos <= i < s.len() ==> is_separator(s[i]))
            &&& (step.token is None ==> step.pos == s.len())
            &&& (step.token is Some ==> step.pos > pos)
        }),
    decreases s.len() - pos,
{
    if pos < s.len() {
        let c = s[pos as int];
        if c == '\n' {
            lemma_scan_total(s, pos + 1, line + 1, 0);
        } else if is_skip(c) {
            lemma_scan_total(s, pos + 1, line, col + 1);
        } else {
            assert(!is_separator(s[pos as int]));
            if is_letter(c) {
                lemma_ident_end_bounds(s, pos as int + 1);
            }
            if is_digit(c) {
                lemma_digit_end_bounds(s, pos as int + 1);
            }
            if c == '"' {
                lemma_str_end_bounds(s, pos as int + 1);
            }
        }
    }
}

/// End-of-input idempotence: once a scan returns the end signal, scanning
/// again from the state it leaves returns the end signal with that state
/// unchanged.
pub proof fn lemma_end_idempotent(s: Seq<char>, pos: nat, line: nat, col: nat)
    requires
        pos <= s.len(),
        spec_next(s, pos, line, col).token is None,
    ensures
        ({
            let step = spec_next(s, pos, line, col);
            let again = spec_next(s, step.pos, step.line, step.col);
            &&& again.token is None
            &&& again.pos == step.pos
            &&& again.line == step.line
            &&& again.col == step.col
        }),
{
    lemma_scan_total(s, pos, line, col);
}

/// Line and column tracking: a newline produces no token of its own; it
/// advances the line counter by exactly one and resets the column counter to
/// zero, and the scan goes on from the character after it. Any other
/// separator advances only the column counter.
pub proof fn lemma_line_column_tracking(s: Seq<char>, pos: nat, line: nat, col: nat)
    requires
        pos < s.len(),
        is_separator(s[pos as int]),
    ensures
        s[pos as int] == '\n' ==> spec_next(s, pos, line, col) == spec_next(s, pos + 1, line + 1, 0),
        s[pos as int] != '\n' ==> spec_next(s, pos, line, col) == spec_next(s, pos + 1, line, col + 1),
{
}

/// Compound-operator greediness: an operator-class character followed
/// immediately by `=` scans to the single two-character compound token, and
/// followed by anything else it scans to its one-character token alone,
/// leaving the next character unconsumed.
pub proof fn lemma_compound_greedy(s: Seq<char>, pos: nat, line: nat, col: nat)
    requires
        pos < s.len(),
        is_op_char(s[pos as int]),
    ensures
        ({
            let step = spec_next(s, pos, line, col);
            &&& step.line == line
            &&& (if pos + 1 < s.len() && s[pos as int + 1] == '=' {
                step.token == Some(compound_op_token(s[pos as int])) && step.pos == pos + 2
                    && step.col == col + 2
            } else {
                step.token == Some(single_op_token(s[pos as int])) && step.pos == pos + 1
                    && step.col == col + 1
            })
        }),
{
}

/// Keyword precedence: from a letter or underscore the scan consumes the
/// longest run of identifier characters as one span, so a keyword followed
/// by more identifier characters is never split off, and the span becomes a
/// keyword token only on an exact spelling match, otherwise an identifier
/// carrying the spelling.
pub proof fn lemma_keyword_precedence(s: Seq<char>, pos: nat, line: nat, col: nat)
    requires
        pos < s.len(),
        is_letter(s[pos as int]),
    ensures
        ({
            let end = ident_end(s, pos as int + 1);
            let name = s.subrange(pos as int, end);
            let step = spec_next(s, pos, line, col);
            &&& step.token == Some(ident_or_keyword(name))
            &&& step.pos == end
            &&& step.line == line
            &&& step.col == col + (end - pos)
            &&& end == s.len() || !is_ident_char(s[end])
            &&& forall|j: int| pos < j < end ==> is_ident_char(s[j])
            &&& (keyword_of(name) is None ==> step.token == Some(SpecToken::Ident(name)))
        }),
{
    lemma_ident_end_bounds(s, pos as int + 1);
}

/// String literal round-trip: from an opening quote the scan takes every
/// character up to the next quote, literally, as the body of one string
/// token, and leaves the cursor immediately after the closing quote; with no
/// closing quote left the literal runs to the end of the text.
pub proof fn lemma_string_literal(s: Seq<char>, pos: nat, line: nat, col: nat)
    requires
        pos < s.len(),
        s[pos as int] == '"',
    ensures
        ({
            let close = str_end(s, pos as int + 1);
            let step = spec_next(s, pos, line, col);
            &&& step.token == Some(SpecToken::Str(s.subrange(pos as int + 1, close)))
            &&& forall|j: int| pos < j < close ==> s[j] != '"'
            &&& (close < s.len() ==> s[close] == '"' && step.pos == close + 1)
            &&& (close == s.len() ==> step.pos == close)
        }),
{
    lemma_str_end_bounds(s, pos as int + 1);
}

/// Illegal token coordinates: a character in no lexical class yields an
/// illegal-character token that records exactly the cursor position, column
/// and line at the moment the character was encountered, before it is
/// consumed, and the scan consumes that one character.
pub proof fn lemma_illegal_coordinates(s: Seq<char>, pos: nat, line: nat, col: nat)
    requires
        pos < s.len(),
        !is_separator(s[pos as int]),
        !is_op_char(s[pos as int]),
        !is_punct(s[pos as int]),
        !is_letter(s[pos as int]),
        !is_digit(s[pos as int]),
        s[pos as int] != '"',
    ensures
        ({
            let step = spec_next(s, pos, line, col);
            &&& step.token == Some(SpecToken::Illegal(pos, col, line))
            &&& step.pos == pos + 1
            &&& step.line == line
            &&& step.col == col + 1
        }),
{
}

/// Exec twin of `is_letter`.
fn letter(c: char) -> (b: bool)
    ensures
        b == is_letter(c),
{
    let u = c as u32;
    ('A' as u32 <= u && u <= 'Z' as u32) || ('a' as u32 <= u && u <= 'z' as u32) || c == '_'
}

/// Exec twin of `is_digit`.
fn digit(c: char) -> (b: bool)
    ensures
        b == is_digit(c),
{
    let u = c as u32;
    '0' as u32 <= u && u <= '9' as u32
}

/// Exec twin of `is_ident_char`.
fn ident_char(c: char) -> (b: bool)
    ensures
        b == is_ident_char(c),
{
    letter(c) || digit(c)
}

/// Exec twin of `is_op_char`.
fn op_char(c: char) -> (b: bool)
    ensures
        b == is_op_char(c),
{
    c == '!' || c == '=' || c == '<' || c == '>' || c == '+' || c == '-' || c == '*' || c == '/'
        || c == '%'
}

/// The scanner. It owns the full source text and a cursor: the absolute
/// character position, the zero-based line number, and the zero-based
/// column offset within the current line.
pub struct Lexer {
    input: String,
    position: usize,
    lineno: usize,
    offset: usize,
}

impl Lexer {
    /// The source text, as a sequence of characters.
    pub closed spec fn text(&self) -> Seq<char> {
        self.input@
    }

    /// The absolute character position of the cursor.
    pub closed spec fn cursor(&self) -> nat {
        self.position as nat
    }

    /// The zero-based line counter.
    pub closed spec fn line(&self) -> nat {
        self.lineno as nat
    }

    /// The zero-based column offset within the current line.
    pub closed spec fn col(&self) -> nat {
        self.offset as nat
    }

    /// The scanner's invariant: the cursor stays within the text, and the
    /// line and column counters never outrun the cursor.
    pub open spec fn wf(&self) -> bool {
        &&& self.cursor() <= self.text().len()
        &&& self.col() <= self.cursor()
        &&& self.line() <= self.cursor()
    }

    /// A fresh scanner over one complete chunk of source text, with the
    /// cursor at the start of the first line.
    pub fn new(s: String) -> (lx: Self)
        ensures
            lx.wf(),
            lx.text() == s@,
            lx.cursor() == 0,
            lx.line() == 0,
            lx.col() == 0,
    {
        Self { input: s, position: 0, lineno: 0, offset: 0 }
    }

    /// Greedily consumes the identifier whose first character, a letter or
    /// underscore, stands just before the cursor, and classifies the full
    /// span: the keyword token on an exact spelling match against a reserved
    /// word, otherwise an identifier token carrying the spelling.
    #[verifier::loop_isolation(false)]
    fn read_identifier(&mut self) -> (t: Token)
        requires
            old(self).wf(),
            1 <= old(self).cursor(),
            is_letter(old(self).text()[old(self).cursor() - 1]),
        ensures
            final(self).wf(),
            final(self).text() == old(self).text(),
            final(self).line() == old(self).line(),
            ({
                let end = ident_end(old(self).text(), old(self).cursor() as int);
                &&& final(self).cursor() == end
                &&& final(self).col() == old(self).col() + (end - old(self).cursor())
                &&& t@ == ident_or_keyword(
                    old(self).text().subrange(old(self).cursor() - 1, end),
                )
            }),
    {
        let start = self.position - 1;
        let n = self.input.as_str().unicode_len();
        while self.position < n && ident_char(self.input.as_str().get_char(self.position))
            invariant
                old(self).cursor() <= self.position <= n,
                self.input == old(self).input,
                self.lineno == old(self).lineno,
                self.offset == old(self).offset + (self.position - old(self).position),
                self.offset <= self.position,
                ident_end(self.text(), old(self).cursor() as int) == ident_end(
                    self.text(),
                    self.position as int,
                ),
            decreases n - self.position,
        {
            self.position = self.position + 1;
            self.offset = self.offset + 1;
        }
        let name = self.input.as_str().substring_char(start, self.position).to_owned();
        if name == "fn".to_owned() {
            Token::Fn
        } else if name == "import".to_owned() {
            Token::Import
        } else if name == "true".to_owned() {
            Token::True
        } else if name == "false".to_owned() {
            Token::False
        } else if name == "if".to_owned() {
            Token::If
        } else if name == "elif".to_owned() {
            Token::Elif
        } else if name == "else".to_owned() {
            Token::Else
        } else if name == "return".to_owned() {
            Token::Return
        } else {
            Token::Ident(name)
        }
    }

    /// Greedily consumes the decimal digits whose first digit stands just
    /// before the cursor and returns the integer-literal token carrying the
    /// spelled digit sequence as text: no sign, base prefix or overflow
    /// handling happens at this stage.
    #[verifier::loop_isolation(false)]
    pub fn read_number(&mut self) -> (t: Token)
        requires
            old(self).wf(),
            1 <= old(self).cursor(),
            is_digit(old(self).text()[old(self).cursor() - 1]),
        ensures
            final(self).wf(),
            final(self).text() == old(self).text(),
            final(self).line() == old(self).line(),
            ({
                let end = digit_end(old(self).text(), old(self).cursor() as int);
                &&& final(self).cursor() == end
                &&& final(self).col() == old(self).col() + (end - old(self).cursor())
                &&& t@ == SpecToken::Number(
                    old(self).text().subrange(old(self).cursor() - 1, end),
                )
            }),
    {
        let start = self.position - 1;
        let n = self.input.as_str().unicode_len();
        while self.position < n && digit(self.input.as_str().get_char(self.position))
            invariant
                old(self).cursor() <= self.position <= n,
                self.input == old(self).input,
                self.lineno == old(self).lineno,
                self.offset == old(self).offset + (self.position - old(self).position),
                self.offset <= self.position,
                digit_end(self.text(), old(self).cursor() as int) == digit_end(
                    self.text(),
                    self.position as int,
                ),
            decreases n - self.position,
        {
            self.position = self.position + 1;
            self.offset = self.offset + 1;
        }
        let spelling = self.input.as_str().substring_char(start, self.position).to_owned();
        Token::Number(spelling)
    }

    /// Consumes a string literal whose opening quote stands just before the
    /// cursor: every character up to the next double quote is taken
    /// literally as the body, with no escape interpretation, and the closing
    /// quote is consumed. Without a closing quote the literal runs to the
    /// end of the text and the remainder is the body.
    #[verifier::loop_isolation(false)]
    fn read_str(&mut self) -> (t: Token)
        requires
            old(self).wf(),
            1 <= old(self).cursor(),
            old(self).text()[old(self).cursor() - 1] == '"',
        ensures
            final(self).wf(),
            final(self).text() == old(self).text(),
            final(self).line() == old(self).line(),
            ({
                let close = str_end(old(self).text(), old(self).cursor() as int);
                let newpos = if close < old(self).text().len() {
                    close + 1
                } else {
                    close
                };
                &&& final(self).cursor() == newpos
                &&& final(self).col() == old(self).col() + (newpos - old(self).cursor())
                &&& t@ == SpecToken::Str(
                    old(self).text().subrange(old(self).cursor() as int, close),
                )
            }),
    {
        let start = self.position;
        let n = self.input.as_str().unicode_len();
        while self.position < n && self.input.as_str().get_char(self.position) != '"'
            invariant
                old(self).cursor() <= self.position <= n,
                self.input == old(self).input,
                self.lineno == old(self).lineno,
                self.offset == old(self).offset + (self.position - old(self).position),
                self.offset <= self.position,
                str_end(self.text(), old(self).cursor() as int) == str_end(
                    self.text(),
                    self.position as int,
                ),
            decreases n - self.position,
        {
            self.position = self.position + 1;
            self.offset = self.offset + 1;
        }
        let body = self.input.as_str().substring_char(start, self.position).to_owned();
        if self.position < n {
            self.position = self.position + 1;
            self.offset = self.offset + 1;
        }
        Token::Str(body)
    }

    /// Consumes at most one further character to disambiguate an operator:
    /// when the character after the already consumed operator character `ch`
    /// is `=`, it is consumed too and the two-character compound token comes
    /// back; otherwise the peeked character stays for the next scan call and
    /// the one-character token for `ch` alone comes back.
    fn next_with_eq(&mut self, ch: char) -> (t: Token)
        requires
            old(self).wf(),
            is_op_char(ch),
        ensures
            final(self).wf(),
            final(self).text() == old(self).text(),
            final(self).line() == old(self).line(),
            ({
                if old(self).cursor() < old(self).text().len() && old(self).text()[old(
                    self,
                ).cursor() as int] == '=' {
                    &&& final(self).cursor() == old(self).cursor() + 1
                    &&& final(self).col() == old(self).col() + 1
                    &&& t@ == compound_op_token(ch)
                } else {
                    &&& final(self).cursor() == old(self).cursor()
                    &&& final(self).col() == old(self).col()
                    &&& t@ == single_op_token(ch)
                }
            }),
    {
        let n = self.input.as_str().unicode_len();
        if self.position < n && self.input.as_str().get_char(self.position) == '=' {
            self.position = self.position + 1;
            self.offset = self.offset + 1;
            match ch {
                '+' => Token::PlusEq,
                '-' => Token::MinusEq,
                '*' => Token::AsterixEq,
                '/' => Token::SlashEq,
                '%' => Token::ModEq,
                '>' => Token::GtEq,
                '<' => Token::LtEq,
                '=' => Token::EqEq,
                _ => Token::BangEq,
            }
        } else {
            match ch {
                '+' => Token::Plus,
                '-' => Token::Minus,
                '*' => Token::Asterix,
                '/' => Token::Slash,
                '%' => Token::Mod,
                '>' => Token::Gt,
                '<' => Token::Lt,
                '=' => Token::Eq,
                _ => Token::Bang,
            }
        }
    }

    /// Produces the next token, or `None` once the input is exhausted.
    ///
    /// Each call consumes one or more characters and leaves the cursor at
    /// the start of the next unconsumed character; the cursor never moves
    /// backwards. The result and the new cursor, line and column counters
    /// are exactly those of `spec_next` on the state before the call.
    #[verifier::loop_isolation(false)]
    pub fn next(&mut self) -> (r: Option<Token>)
        requires
            old(self).wf(),
        ensures
            final(self).wf(),
            final(self).text() == old(self).text(),
            old(self).cursor() <= final(self).cursor(),
            ({
                let step = spec_next(
                    old(self).text(),
                    old(self).cursor(),
                    old(self).line(),
                    old(self).col(),
                );
                &&& final(self).cursor() == step.pos
                &&& final(self).line() == step.line
                &&& final(self).col() == step.col
                &&& (match r {
                    Some(t) => step.token == Some(t@),
                    None => step.token is None,
                })
            }),
    {
        loop
            invariant
                self.wf(),
                self.input == old(self).input,
                old(self).cursor() <= self.position,
                spec_next(self.text(), self.cursor(), self.line(), self.col()) == spec_next(
                    old(self).text(),
                    old(self).cursor(),
                    old(self).line(),
                    old(self).col(),
                ),
            decreases self.text().len() - self.cursor(),
        {
            let n = self.input.as_str().unicode_len();
            if self.position >= n {
                return None;
            }
            let ch = self.input.as_str().get_char(self.position);
            self.position = self.position + 1;
            self.offset = self.offset + 1;
            if ch == '\n' {
                self.lineno = self.lineno + 1;
                self.offset = 0;
            } else if ch == ' ' || ch == '\t' || ch == '\r' {
            } else if op_char(ch) {
                return Some(self.next_with_eq(ch));
            } else if ch == '(' {
                return Some(Token::LParen);
            } else if ch == ')' {
                return Some(Token::RParen);
            } else if ch == '{' {
                return Some(Token::LBrace);
            } else if ch == '}' {
                return Some(Token::RBrace);
            } else if ch == ',' {
                return Some(Token::Comma);
            } else if ch == ';' {
                return Some(Token::SemiColon);
            } else if ch == ':' {
                return Some(Token::Colon);
            } else if ch == '.' {
                return Some(Token::Dot);
            } else if letter(ch) {
                proof {
                    lemma_ident_end_bounds(self.text(), self.position as int);
                }
                return Some(self.read_identifier());
            } else if digit(ch) {
                proof {
                    lemma_digit_end_bounds(self.text(), self.position as int);
                }
                return Some(self.read_number());
            } else if ch == '"' {
                proof {
                    lemma_str_end_bounds(self.text(), self.position as int);
                }
                return Some(self.read_str());
            } else {
                // The recorded coordinates are those at which the character
                // was encountered, before it was consumed.
                return Some(Token::Illegal(self.position - 1, self.offset - 1, self.lineno));
            }
        }
    }
}

} // verus!
