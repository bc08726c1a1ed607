//! The lexical scanner.
//!
//! A [`Scanner`] turns source text into a lazy, finite sequence of
//! tokens: [`Scanner::scan_token`] is called repeatedly until it
//! produces an end-of-input token, and keeps producing that same token
//! afterwards. Bad input never halts it: it produces an error token
//! carrying a diagnostic message and lets the consumer decide. Every
//! token borrows the exact span of source it covers, and carries the
//! 1-based line it starts on.

use vstd::prelude::*;
use vstd::string::StrSliceExecFns;

verus! {

/// The kind of a token.
#[derive(Clone, Copy, Debug, PartialEq, Eq, Structural)]
pub enum TokenType {
    LeftParen,
    RightParen,
    LeftBrace,
    RightBrace,
    Comma,
    Dot,
    Minus,
    Plus,
    Semicolon,
    Slash,
    Star,
    Bang,
    BangEqual,
    Equal,
    EqualEqual,
    Greater,
    GreaterEqual,
    Less,
    LessEqual,
    Identifier,
    String,
    Number,
    And,
    Class,
    Else,
    False,
    For,
    Fun,
    If,
    Nil,
    Or,
    Print,
    Return,
    Super,
    This,
    True,
    Var,
    While,
    Error,
    EOF,
}

/// A classified, positioned span of source text. The lexeme borrows
/// the source buffer; an error token carries a diagnostic message in
/// its place.
pub struct Token<'a> {
    pub token_type: TokenType,
    pub lexeme: &'a str,
    pub line: usize,
}

/// Whether `c` is a decimal digit.
pub open spec fn spec_is_digit(c: char) -> bool {
    ('0' as u32) <= (c as u32) && (c as u32) <= ('9' as u32)
}

/// Whether `c` can begin an identifier: a letter or an underscore.
pub open spec fn spec_is_alpha(c: char) -> bool {
    (('a' as u32) <= (c as u32) && (c as u32) <= ('z' as u32)) || (('A' as u32) <= (c as u32) && (
    c as u32) <= ('Z' as u32)) || c == '_'
}

/// Whether `c` can continue an identifier: a letter, digit or
/// underscore.
pub open spec fn spec_is_alnum(c: char) -> bool {
    spec_is_alpha(c) || spec_is_digit(c)
}

/// The position right after a single-line comment whose body starts at
/// `i`: the first newline at or after `i`, or the end of the input.
pub open spec fn spec_comment_end(s: Seq<char>, i: nat) -> nat
    decreases s.len() - i,
{
    if i >= s.len() || s[i as int] == '\n' {
        i
    } else {
        spec_comment_end(s, i + 1)
    }
}

/// A comment ends no earlier than it starts, and no later than the
/// input does.
pub proof fn lemma_comment_end_bounds(s: Seq<char>, i: nat)
    ensures
        i <= spec_comment_end(s, i),
        i <= s.len() ==> spec_comment_end(s, i) <= s.len(),
    decreases s.len() - i,
{
    if !(i >= s.len() || s[i as int] == '\n') {
        lemma_comment_end_bounds(s, i + 1);
    }
}

/// Where scanning resumes after skipping insignificant input from
/// position `i` on line `line`: spaces, tabs and carriage returns are
/// passed over; a newline is passed over and counts the line up; a
/// doubled slash starts a comment that runs to the end of the line,
/// without consuming the newline itself. The result is the position of
/// the next significant character and the line it is on.
pub open spec fn spec_skip(s: Seq<char>, i: nat, line: nat) -> (nat, nat)
    decreases s.len() - i,
    via spec_skip_decreases
{
    if i >= s.len() {
        (i, line)
    } else {
        let c = s[i as int];
        if c == ' ' || c == '\r' || c == '\t' {
            spec_skip(s, i + 1, line)
        } else if c == '\n' {
            spec_skip(s, i + 1, line + 1)
        } else if c == '/' && i + 1 < s.len() && s[i as int + 1] == '/' {
            spec_skip(s, spec_comment_end(s, i + 2), line)
        } else {
            (i, line)
        }
    }
}

#[via_fn]
proof fn spec_skip_decreases(s: Seq<char>, i: nat, line: nat) {
    if i < s.len() {
        let c = s[i as int];
        if !(c == ' ' || c == '\r' || c == '\t') && c != '\n' && c == '/' && i + 1 < s.len() && s[
            i as int + 1] == '/' {
            lemma_comment_end_bounds(s, i + 2);
        }
    }
}

/// Scan a string literal's body from `i` (just after the opening
/// quote): the position right after the closing quote if one comes,
/// and the line counter after the embedded newlines, or `None` when
/// the input ends first.
pub open spec fn spec_string_scan(s: Seq<char>, i: nat, line: nat) -> (Option<nat>, nat)
    decreases s.len() - i,
{
    if i >= s.len() {
        (None, line)
    } else if s[i as int] == '"' {
        (Some((i + 1) as nat), line)
    } else if s[i as int] == '\n' {
        spec_string_scan(s, i + 1, line + 1)
    } else {
        spec_string_scan(s, i + 1, line)
    }
}

/// The end of the maximal run of decimal digits starting at `i`.
pub open spec fn spec_digits_end(s: Seq<char>, i: nat) -> nat
    decreases s.len() - i,
{
    if i < s.len() && spec_is_digit(s[i as int]) {
        spec_digits_end(s, i + 1)
    } else {
        i
    }
}

/// The end of a number literal starting at `i`: a maximal digit run,
/// then one decimal point followed by a further maximal digit run, the
/// point only taken when at least one digit follows it.
pub open spec fn spec_number_end(s: Seq<char>, i: nat) -> nat {
    let d = spec_digits_end(s, i);
    if d < s.len() && s[d as int] == '.' && d + 1 < s.len() && spec_is_digit(s[d as int + 1]) {
        spec_digits_end(s, d + 1)
    } else {
        d
    }
}

/// The end of the maximal identifier run starting at `i`.
pub open spec fn spec_ident_end(s: Seq<char>, i: nat) -> nat
    decreases s.len() - i,
{
    if i < s.len() && spec_is_alnum(s[i as int]) {
        spec_ident_end(s, i + 1)
    } else {
        i
    }
}

/// The token kind of an identifier lexeme: one of the reserved words
/// on an exact, case-sensitive match, a generic identifier otherwise.
pub open spec fn spec_keyword_type(lex: Seq<char>) -> TokenType {
    if lex == "and"@ {
        TokenType::And
    } else if lex == "class"@ {
        TokenType::Class
    } else if lex == "else"@ {
        TokenType::Else
    } else if lex == "false"@ {
        TokenType::False
    } else if lex == "for"@ {
        TokenType::For
    } else if lex == "fun"@ {
        TokenType::Fun
    } else if lex == "if"@ {
        TokenType::If
    } else if lex == "nil"@ {
        TokenType::Nil
    } else if lex == "or"@ {
        TokenType::Or
    } else if lex == "print"@ {
        TokenType::Print
    } else if lex == "return"@ {
        TokenType::Return
    } else if lex == "super"@ {
        TokenType::Super
    } else if lex == "this"@ {
        TokenType::This
    } else if lex == "true"@ {
        TokenType::True
    } else if lex == "var"@ {
        TokenType::Var
    } else if lex == "while"@ {
        TokenType::While
    } else {
        TokenType::Identifier
    }
}

/// The kind of a one- or two-character operator or punctuation token
/// whose first character is `c` at position `p`, and the position
/// right after it. `!`, `=`, `<` and `>` probe one further character
/// for a trailing `=` (maximal munch).
pub open spec fn spec_operator(s: Seq<char>, p: nat, c: char) -> (TokenType, nat) {
    let eq_next = p + 1 < s.len() && s[p as int + 1] == '=';
    if c == '(' {
        (TokenType::LeftParen, (p + 1) as nat)
    } else if c == ')' {
        (TokenType::RightParen, (p + 1) as nat)
    } else if c == '{' {
        (TokenType::LeftBrace, (p + 1) as nat)
    } else if c == '}' {
        (TokenType::RightBrace, (p + 1) as nat)
    } else if c == ';' {
        (TokenType::Semicolon, (p + 1) as nat)
    } else if c == ',' {
        (TokenType::Comma, (p + 1) as nat)
    } else if c == '.' {
        (TokenType::Dot, (p + 1) as nat)
    } else if c == '-' {
        (TokenType::Minus, (p + 1) as nat)
    } else if c == '+' {
        (TokenType::Plus, (p + 1) as nat)
    } else if c == '/' {
        (TokenType::Slash, (p + 1) as nat)
    } else if c == '*' {
        (TokenType::Star, (p + 1) as nat)
    } else if c == '!' {
        if eq_next {
            (TokenType::BangEqual, (p + 2) as nat)
        } else {
            (TokenType::Bang, (p + 1) as nat)
        }
    } else if c == '=' {
        if eq_next {
            (TokenType::EqualEqual, (p + 2) as nat)
        } else {
            (TokenType::Equal, (p + 1) as nat)
        }
    } else if c == '<' {
        if eq_next {
            (TokenType::LessEqual, (p + 2) as nat)
        } else {
            (TokenType::Less, (p + 1) as nat)
        }
    } else {
        if eq_next {
            (TokenType::GreaterEqual, (p + 2) as nat)
        } else {
            (TokenType::Greater, (p + 1) as nat)
        }
    }
}

/// Whether `c` is one of the single- or double-character operator and
/// punctuation characters.
pub open spec fn spec_is_operator_char(c: char) -> bool {
    c == '(' || c == ')' || c == '{' || c == '}' || c == ';' || c == ',' || c == '.' || c == '-'
        || c == '+' || c == '/' || c == '*' || c == '!' || c == '=' || c == '<' || c == '>'
}

/// One step of scanning: what `scan_token` produces and where it
/// leaves the cursor.
pub struct ScanStep {
    /// The kind of the token produced.
    pub token_type: TokenType,
    /// The characters of its lexeme: the exact span of source it
    /// covers, or a diagnostic message for an error token, or a NUL
    /// marker at end of input.
    pub lexeme: Seq<char>,
    /// The line reported with the token.
    pub line: nat,
    /// The cursor position after the token.
    pub end: nat,
    /// The line counter after the token.
    pub end_line: nat,
}

/// The token produced by one `scan_token` call on source `s` with the
/// cursor at `i` on line `line`, and the cursor state it leaves
/// behind. Insignificant input is skipped first; at the end of input
/// the end-of-input token comes, over and over. A token carries the
/// exact source span it covers and the line it starts on; an error
/// token carries a message instead, and the line the failure was
/// noticed on.
pub open spec fn spec_scan(s: Seq<char>, i: nat, line: nat) -> ScanStep {
    let (p, l) = spec_skip(s, i, line);
    if p >= s.len() {
        ScanStep { token_type: TokenType::EOF, lexeme: "\0"@, line: l, end: p, end_line: l }
    } else {
        let c = s[p as int];
        if spec_is_operator_char(c) {
            let (token_type, end) = spec_operator(s, p, c);
            ScanStep {
                token_type,
                lexeme: s.subrange(p as int, end as int),
                line: l,
                end,
                end_line: l,
            }
        } else if c == '"' {
            let (closed, l2) = spec_string_scan(s, p + 1, l);
            match closed {
                Some(end) => ScanStep {
                    token_type: TokenType::String,
                    lexeme: s.subrange(p as int, end as int),
                    line: l,
                    end,
                    end_line: l2,
                },
                None => ScanStep {
                    token_type: TokenType::Error,
                    lexeme: "Unterminated string."@,
                    line: l2,
                    end: s.len(),
                    end_line: l2,
                },
            }
        } else if spec_is_digit(c) {
            let end = spec_number_end(s, p);
            ScanStep {
                token_type: TokenType::Number,
                lexeme: s.subrange(p as int, end as int),
                line: l,
                end,
                end_line: l,
            }
        } else if spec_is_alpha(c) {
            let end = spec_ident_end(s, p);
            ScanStep {
                token_type: spec_keyword_type(s.subrange(p as int, end as int)),
                lexeme: s.subrange(p as int, end as int),
                line: l,
                end,
                end_line: l,
            }
        } else {
            ScanStep {
                token_type: TokenType::Error,
                lexeme: "Unexpected character."@,
                line: l,
                end: (p + 1) as nat,
                end_line: l,
            }
        }
    }
}

/// Law: the token sequence is exhausted at its end-of-input token.
/// A scan that yields the end-of-input token leaves the cursor in a
/// state from which scanning again yields the very same token and the
/// very same cursor state, over and over.
pub proof fn lemma_eof_idempotent(s: Seq<char>, i: nat, line: nat)
    requires
        spec_scan(s, i, line).token_type == TokenType::EOF,
    ensures
        spec_scan(s, spec_scan(s, i, line).end, spec_scan(s, i, line).end_line) == spec_scan(
            s,
            i,
            line,
        ),
{
    let (p, l) = spec_skip(s, i, line);
    assert(p >= s.len());
}

/// The mathematical content of a scanner: the source and the cursor.
pub struct ScannerData {
    /// The source text.
    pub source: Seq<char>,
    /// Where the current token begins.
    pub start: nat,
    /// The next unread position.
    pub current: nat,
    /// The 1-based current line.
    pub line: nat,
}

/// A scanner over a borrowed source buffer. It owns only its cursor:
/// tokens borrow spans of the source and are not retained.
pub struct Scanner<'a> {
    source: &'a str,
    start: usize,
    current: usize,
    line: usize,
}

impl<'a> View for Scanner<'a> {
    type V = ScannerData;

    closed spec fn view(&self) -> ScannerData {
        ScannerData {
            source: self.source@,
            start: self.start as nat,
            current: self.current as nat,
            line: self.line as nat,
        }
    }
}

impl<'a> Scanner<'a> {
    /// The cursor never runs past the input, never backtracks past the
    /// token start, and the line counter stays 1-based and cannot
    /// outgrow the input.
    pub open spec fn wf(&self) -> bool {
        &&& self@.source.len() < usize::MAX
        &&& self@.start <= self@.current
        &&& self@.current <= self@.source.len()
        &&& 1 <= self@.line
        &&& self@.line <= self@.current + 1
    }

    /// A fresh scanner at the start of `source`, on line 1.
    ///
    /// The source must be shorter than the address space, which any
    /// text held in memory is.
    pub fn new(source: &'a str) -> (scanner: Scanner<'a>)
        requires
            source@.len() < usize::MAX,
        ensures
            scanner@.source == source@,
            scanner@.start == 0,
            scanner@.current == 0,
            scanner@.line == 1,
            scanner.wf(),
    {
        Scanner { source, start: 0, current: 0, line: 1 }
    }

    /// The next unread character, if any.
    fn peek(&self) -> (r: Option<char>)
        requires
            self.wf(),
        ensures
            self@.current < self@.source.len() ==> r == Some(
                self@.source[self@.current as int],
            ),
            self@.current >= self@.source.len() ==> r == None::<char>,
    {
        if self.current < self.source.unicode_len() {
            Some(self.source.get_char(self.current))
        } else {
            None
        }
    }

    /// The character after the next unread one, if any.
    fn peek_next(&self) -> (r: Option<char>)
        requires
            self.wf(),
        ensures
            self@.current + 1 < self@.source.len() ==> r == Some(
                self@.source[self@.current as int + 1],
            ),
            self@.current + 1 >= self@.source.len() ==> r == None::<char>,
    {
        if self.current < usize::MAX && self.current + 1 < self.source.unicode_len() {
            Some(self.source.get_char(self.current + 1))
        } else {
            None
        }
    }

    /// Consume and return the next character.
    fn advance(&mut self) -> (c: char)
        requires
            old(self).wf(),
            old(self)@.current < old(self)@.source.len(),
        ensures
            final(self).wf(),
            c == old(self)@.source[old(self)@.current as int],
            final(self)@.current == old(self)@.current + 1,
            final(self)@.source == old(self)@.source,
            final(self)@.start == old(self)@.start,
            final(self)@.line == old(self)@.line,
    {
        let c = self.source.get_char(self.current);
        self.current = self.current + 1;
        c
    }

    /// Consume the next character exactly when it equals `expected`.
    fn match_char(&mut self, expected: char) -> (r: bool)
        requires
            old(self).wf(),
        ensures
            final(self).wf(),
            r == (old(self)@.current < old(self)@.source.len() && old(self)@.source[old(
                self,
            )@.current as int] == expected),
            r ==> final(self)@.current == old(self)@.current + 1,
            !r ==> final(self)@.current == old(self)@.current,
            final(self)@.source == old(self)@.source,
            final(self)@.start == old(self)@.start,
            final(self)@.line == old(self)@.line,
    {
        match self.peek() {
            Some(c) => {
                if c == expected {
                    self.current = self.current + 1;
                    true
                } else {
                    false
                }
            },
            None => false,
        }
    }

    /// Skip insignificant input: whitespace, newlines (counting lines
    /// up) and single-line comments.
    fn skip_whitespace(&mut self)
        requires
            old(self).wf(),
        ensures
            final(self).wf(),
            final(self)@.source == old(self)@.source,
            final(self)@.start == old(self)@.start,
            (final(self)@.current, final(self)@.line) == spec_skip(
                old(self)@.source,
                old(self)@.current,
                old(self)@.line,
            ),
            final(self)@.current >= old(self)@.current,
    {
        let ghost s = self@.source;
        let ghost goal = spec_skip(s, self@.current, self@.line);
        loop
            invariant
                self.wf(),
                s == self@.source,
                s == old(self)@.source,
                self@.start == old(self)@.start,
                self@.current >= old(self)@.current,
                spec_skip(s, self@.current, self@.line) == goal,
                goal == spec_skip(s, old(self)@.current, old(self)@.line),
            decreases s.len() - self@.current,
        {
            match self.peek() {
                None => {
                    return ;
                },
                Some(c) => {
                    if c == ' ' || c == '\r' || c == '\t' {
                        self.advance();
                    } else if c == '\n' {
                        self.advance();
                        self.line = self.line + 1;
                    } else if c == '/' {
                        let next_slash = match self.peek_next() {
                            Some(c2) => c2 == '/',
                            None => false,
                        };
                        if !next_slash {
                            return ;
                        }
                        let ghost c0 = self@.current;
                        let ghost line0 = self@.line;
                        proof {
                            assert(spec_comment_end(s, c0) == spec_comment_end(s, c0 + 1));
                            assert(spec_comment_end(s, c0 + 1) == spec_comment_end(s, c0 + 2));
                            lemma_comment_end_bounds(s, c0 + 2);
                        }
                        loop
                            invariant
                                self.wf(),
                                s == self@.source,
                                s == old(self)@.source,
                                self@.start == old(self)@.start,
                                self@.current >= c0,
                                c0 >= old(self)@.current,
                                self@.line == line0,
                                spec_comment_end(s, self@.current) == spec_comment_end(s, c0),
                            ensures
                                self.wf(),
                                s == self@.source,
                                self@.start == old(self)@.start,
                                self@.current >= c0,
                                self@.line == line0,
                                spec_comment_end(s, self@.current) == spec_comment_end(s, c0),
                                self@.current >= s.len() || s[self@.current as int] == '\n',
                            decreases s.len() - self@.current,
                        {
                            match self.peek() {
                                Some(q) => {
                                    if q == '\n' {
                                        break ;
                                    } else {
                                        self.advance();
                                    }
                                },
                                None => {
                                    break ;
                                },
                            }
                        }
                        proof {
                            assert(spec_comment_end(s, self@.current) == self@.current);
                            assert(spec_skip(s, c0, line0) == spec_skip(
                                s,
                                spec_comment_end(s, c0 + 2),
                                line0,
                            ));
                            assert(spec_skip(s, self@.current, self@.line) == goal);
                        }
                    } else {
                        return ;
                    }
                },
            }
        }
    }

    /// Make a token of `token_type` covering the current lexeme span,
    /// reported on `line`.
    fn make_token(&self, token_type: TokenType, line: usize) -> (t: Token<'a>)
        requires
            self.wf(),
        ensures
            t.token_type == token_type,
            t.lexeme@ == self@.source.subrange(self@.start as int, self@.current as int),
            t.line == line,
    {
        Token { token_type, lexeme: self.source.substring_char(self.start, self.current), line }
    }

    /// Scan to the end of a string literal whose opening quote is
    /// already consumed, counting embedded newlines; reaching the end
    /// of the input first yields an error token carrying a message.
    fn string(&mut self) -> (t: Token<'a>)
        requires
            old(self).wf(),
            old(self)@.start < old(self)@.current,
        ensures
            final(self).wf(),
            final(self)@.source == old(self)@.source,
            final(self)@.start == old(self)@.start,
            ({
                let (closed, l2) = spec_string_scan(
                    old(self)@.source,
                    old(self)@.current,
                    old(self)@.line,
                );
                match closed {
                    Some(end) => {
                        &&& t.token_type == TokenType::String
                        &&& t.lexeme@ == old(self)@.source.subrange(
                            old(self)@.start as int,
                            end as int,
                        )
                        &&& final(self)@.current == end
                        &&& final(self)@.line == l2
                    },
                    None => {
                        &&& t.token_type == TokenType::Error
                        &&& t.lexeme@ == "Unterminated string."@
                        &&& t.line == l2
                        &&& final(self)@.current == old(self)@.source.len()
                        &&& final(self)@.line == l2
                    },
                }
            }),
            t.token_type == TokenType::String ==> t.line == old(self)@.line,
    {
        let ghost s = self@.source;
        let token_line = self.line;
        let ghost goal = spec_string_scan(s, self@.current, self@.line);
        loop
            invariant
                self.wf(),
                s == self@.source,
                s == old(self)@.source,
                self@.start == old(self)@.start,
                self@.start < self@.current,
                token_line == old(self)@.line,
                spec_string_scan(s, self@.current, self@.line) == goal,
                goal == spec_string_scan(s, old(self)@.current, old(self)@.line),
            decreases s.len() - self@.current,
        {
            match self.peek() {
                Some(q) => {
                    if q == '"' {
                        self.advance();
                        return self.make_token(TokenType::String, token_line);
                    } else if q == '\n' {
                        self.advance();
                        self.line = self.line + 1;
                    } else {
                        self.advance();
                    }
                },
                None => {
                    return Token {
                        token_type: TokenType::Error,
                        lexeme: "Unterminated string.",
                        line: self.line,
                    };
                },
            }
        }
    }

    /// Consume a maximal run of digits, and one decimal point followed
    /// by a further maximal digit run if both are there.
    fn number(&mut self) -> (t: Token<'a>)
        requires
            old(self).wf(),
        ensures
            final(self).wf(),
            final(self)@.source == old(self)@.source,
            final(self)@.start == old(self)@.start,
            final(self)@.line == old(self)@.line,
            final(self)@.current == spec_number_end(old(self)@.source, old(self)@.current),
            t.token_type == TokenType::Number,
            t.lexeme@ == old(self)@.source.subrange(
                old(self)@.start as int,
                spec_number_end(old(self)@.source, old(self)@.current) as int,
            ),
            t.line == old(self)@.line,
    {
        self.digits();
        let has_fraction = match self.peek() {
            Some(q) => q == '.',
            None => false,
        };
        let next_digit = match self.peek_next() {
            Some(q) => is_digit_char(q),
            None => false,
        };
        if has_fraction && next_digit {
            self.advance();
            self.digits();
        }
        self.make_token(TokenType::Number, self.line)
    }

    /// Consume a maximal run of digits.
    fn digits(&mut self)
        requires
            old(self).wf(),
        ensures
            final(self).wf(),
            final(self)@.source == old(self)@.source,
            final(self)@.start == old(self)@.start,
            final(self)@.line == old(self)@.line,
            final(self)@.current == spec_digits_end(old(self)@.source, old(self)@.current),
    {
        let ghost s = self@.source;
        loop
            invariant
                self.wf(),
                s == self@.source,
                s == old(self)@.source,
                self@.start == old(self)@.start,
                self@.line == old(self)@.line,
                spec_digits_end(s, self@.current) == spec_digits_end(s, old(self)@.current),
            decreases s.len() - self@.current,
        {
            let next_digit = match self.peek() {
                Some(q) => is_digit_char(q),
                None => false,
            };
            if next_digit {
                self.advance();
            } else {
                return ;
            }
        }
    }

    /// Consume a maximal identifier run and classify it against the
    /// reserved words.
    fn identifier(&mut self) -> (t: Token<'a>)
        requires
            old(self).wf(),
        ensures
            final(self).wf(),
            final(self)@.source == old(self)@.source,
            final(self)@.start == old(self)@.start,
            final(self)@.line == old(self)@.line,
            final(self)@.current == spec_ident_end(old(self)@.source, old(self)@.current),
            ({
                let lex = old(self)@.source.subrange(
                    old(self)@.start as int,
                    spec_ident_end(old(self)@.source, old(self)@.current) as int,
                );
                t.token_type == spec_keyword_type(lex) && t.lexeme@ == lex
            }),
            t.line == old(self)@.line,
    {
        let ghost s = self@.source;
        loop
            invariant
                self.wf(),
                s == self@.source,
                s == old(self)@.source,
                self@.start == old(self)@.start,
                self@.line == old(self)@.line,
                spec_ident_end(s, self@.current) == spec_ident_end(s, old(self)@.current),
            decreases s.len() - self@.current,
        {
            let next_alnum = match self.peek() {
                Some(q) => is_alnum_char(q),
                None => false,
            };
            if next_alnum {
                self.advance();
            } else {
                let lexeme = self.source.substring_char(self.start, self.current);
                let token_type = keyword_type(lexeme);
                return Token { token_type, lexeme, line: self.line };
            }
        }
    }

    /// An error token carrying a diagnostic message in place of a
    /// lexeme.
    fn error_token(&self, message: &'a str) -> (t: Token<'a>)
        ensures
            t.token_type == TokenType::Error,
            t.lexeme@ == message@,
            t.line == self@.line,
    {
        Token { token_type: TokenType::Error, lexeme: message, line: self.line }
    }

    /// The end-of-input token: produced once the input is exhausted,
    /// and on every call after that.
    fn make_eof(&self) -> (t: Token<'a>)
        ensures
            t.token_type == TokenType::EOF,
            t.lexeme@ == "\0"@,
            t.line == self@.line,
    {
        Token { token_type: TokenType::EOF, lexeme: "\0", line: self.line }
    }

    /// Produce the next token. Insignificant input is skipped first;
    /// at the end of input the end-of-input token comes, and keeps
    /// coming on every further call. Bad input yields an error token,
    /// never a crash.
    pub fn scan_token(&mut self) -> (t: Token<'a>)
        requires
            old(self).wf(),
        ensures
            final(self).wf(),
            final(self)@.source == old(self)@.source,
            ({
                let st = spec_scan(old(self)@.source, old(self)@.current, old(self)@.line);
                &&& t.token_type == st.token_type
                &&& t.lexeme@ == st.lexeme
                &&& t.line == st.line
                &&& final(self)@.current == st.end
                &&& final(self)@.line == st.end_line
            }),
    {
        let ghost s = self@.source;
        let ghost st = spec_scan(s, self@.current, self@.line);
        self.skip_whitespace();
        self.start = self.current;
        let token_line = self.line;
        if self.current >= self.source.unicode_len() {
            return self.make_eof();
        }
        let c = self.advance();
        if c == '(' {
            self.make_token(TokenType::LeftParen, token_line)
        } else if c == ')' {
            self.make_token(TokenType::RightParen, token_line)
        } else if c == '{' {
            self.make_token(TokenType::LeftBrace, token_line)
        } else if c == '}' {
            self.make_token(TokenType::RightBrace, token_line)
        } else if c == ';' {
            self.make_token(TokenType::Semicolon, token_line)
        } else if c == ',' {
            self.make_token(TokenType::Comma, token_line)
        } else if c == '.' {
            self.make_token(TokenType::Dot, token_line)
        } else if c == '-' {
            self.make_token(TokenType::Minus, token_line)
        } else if c == '+' {
            self.make_token(TokenType::Plus, token_line)
        } else if c == '/' {
            self.make_token(TokenType::Slash, token_line)
        } else if c == '*' {
            self.make_token(TokenType::Star, token_line)
        } else if c == '!' {
            if self.match_char('=') {
                self.make_token(TokenType::BangEqual, token_line)
            } else {
                self.make_token(TokenType::Bang, token_line)
            }
        } else if c == '=' {
            if self.match_char('=') {
                self.make_token(TokenType::EqualEqual, token_line)
            } else {
                self.make_token(TokenType::Equal, token_line)
            }
        } else if c == '<' {
            if self.match_char('=') {
                self.make_token(TokenType::LessEqual, token_line)
            } else {
                self.make_token(TokenType::Less, token_line)
            }
        } else if c == '>' {
            if self.match_char('=') {
                self.make_token(TokenType::GreaterEqual, token_line)
            } else {
                self.make_token(TokenType::Greater, token_line)
            }
        } else if c == '"' {
            self.string()
        } else if is_digit_char(c) {
            self.number()
        } else if is_alpha_char(c) {
            self.identifier()
        } else {
            self.error_token("Unexpected character.")
        }
    }
}

/// Whether `c` is a decimal digit.
fn is_digit_char(c: char) -> (r: bool)
    ensures
        r == spec_is_digit(c),
{
    let u = c as u32;
    48 <= u && u <= 57
}

/// Whether `c` can begin an identifier.
fn is_alpha_char(c: char) -> (r: bool)
    ensures
        r == spec_is_alpha(c),
{
    let u = c as u32;
    (97 <= u && u <= 122) || (65 <= u && u <= 90) || c == '_'
}

/// Whether `c` can continue an identifier.
fn is_alnum_char(c: char) -> (r: bool)
    ensures
        r == spec_is_alnum(c),
{
    is_alpha_char(c) || is_digit_char(c)
}

/// Whether two borrowed strings hold the same characters.
fn str_eq(a: &str, b: &str) -> (r: bool)
    ensures
        r == (a@ == b@),
{
    let n = a.unicode_len();
    let m = b.unicode_len();
    if n != m {
        return false;
    }
    let mut i: usize = 0;
    while i < n
        invariant
            i <= n,
            n == a@.len(),
            n == b@.len(),
            forall|k: int| 0 <= k < i ==> a@[k] == b@[k],
        decreases n - i,
    {
        if a.get_char(i) != b.get_char(i) {
            return false;
        }
        i = i + 1;
    }
    proof {
        assert(a@ =~= b@);
    }
    true
}

/// Classify an identifier lexeme against the reserved words, exactly.
fn keyword_type(lexeme: &str) -> (t: TokenType)
    ensures
        t == spec_keyword_type(lexeme@),
{
    proof {
        reveal_strlit("and");
        reveal_strlit("class");
        reveal_strlit("else");
        reveal_strlit("false");
        reveal_strlit("for");
        reveal_strlit("fun");
        reveal_strlit("if");
        reveal_strlit("nil");
        reveal_strlit("or");
        reveal_strlit("print");
        reveal_strlit("return");
        reveal_strlit("super");
        reveal_strlit("this");
        reveal_strlit("true");
        reveal_strlit("var");
        reveal_strlit("while");
    }
    if str_eq(lexeme, "and") {
        TokenType::And
    } else if str_eq(lexeme, "class") {
        TokenType::Class
    } else if str_eq(lexeme, "else") {
        TokenType::Else
    } else if str_eq(lexeme, "false") {
        TokenType::False
    } else if str_eq(lexeme, "for") {
        TokenType::For
    } else if str_eq(lexeme, "fun") {
        TokenType::Fun
    } else if str_eq(lexeme, "if") {
        TokenType::If
    } else if str_eq(lexeme, "nil") {
        TokenType::Nil
    } else if str_eq(lexeme, "or") {
        TokenType::Or
    } else if str_eq(lexeme, "print") {
        TokenType::Print
    } else if str_eq(lexeme, "return") {
        TokenType::Return
    } else if str_eq(lexeme, "super") {
        TokenType::Super
    } else if str_eq(lexeme, "this") {
        TokenType::This
    } else if str_eq(lexeme, "true") {
        TokenType::True
    } else if str_eq(lexeme, "var") {
        TokenType::Var
    } else if str_eq(lexeme, "while") {
        TokenType::While
    } else {
        TokenType::Identifier
    }
}

} // verus!
