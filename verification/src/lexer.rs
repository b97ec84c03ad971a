//! The tokenizer: turns a line of input into the flat token sequence the
//! parser consumes. The model of the scan is the family of `spec_` functions
//! below; every exec method is proved to compute exactly what they describe.
//!
//! Whitespace here is the ASCII blank set (space, tab, newline, carriage
//! return); it separates words and is otherwise insignificant.

use vstd::prelude::*;
use vstd::string::StrSliceExecFns;

use crate::command::RedirectOperator;

verus! {

/// Relies on `String::push`: appends exactly the given character.
pub assume_specification[ String::push ](s: &mut String, c: char)
    ensures
        final(s)@ == old(s)@.push(c),
;

/// One lexical token.
#[derive(Debug, Clone, PartialEq)]
pub enum Token {
    /// A bare word.
    Word(String),
    /// `'text'` with the quotes stripped.
    SingleQuoted(String),
    /// `"text"` with the quotes stripped and backslash escapes resolved.
    DoubleQuoted(String),
    /// `;`
    Semicolon,
    /// `|`
    Pipe,
    /// `&&`
    And,
    /// `||`
    Or,
    /// `&`
    Background,
    /// `>`, `>>`, `>&`, `<`, `<<` or `<&`.
    RedirectOperator(RedirectOperator),
    /// `(`
    LParen,
    /// `)`
    RParen,
    /// End of input.
    EOF,
}

/// Mathematical model of a `Token`.
pub enum TokenModel {
    Word(Seq<char>),
    SingleQuoted(Seq<char>),
    DoubleQuoted(Seq<char>),
    Semicolon,
    Pipe,
    And,
    Or,
    Background,
    RedirectOperator(RedirectOperator),
    LParen,
    RParen,
    Eof,
}

impl View for Token {
    type V = TokenModel;

    open spec fn view(&self) -> TokenModel {
        match self {
            Token::Word(s) => TokenModel::Word(s@),
            Token::SingleQuoted(s) => TokenModel::SingleQuoted(s@),
            Token::DoubleQuoted(s) => TokenModel::DoubleQuoted(s@),
            Token::Semicolon => TokenModel::Semicolon,
            Token::Pipe => TokenModel::Pipe,
            Token::And => TokenModel::And,
            Token::Or => TokenModel::Or,
            Token::Background => TokenModel::Background,
            Token::RedirectOperator(op) => TokenModel::RedirectOperator(*op),
            Token::LParen => TokenModel::LParen,
            Token::RParen => TokenModel::RParen,
            Token::EOF => TokenModel::Eof,
        }
    }
}

impl DeepView for Token {
    type V = TokenModel;

    open spec fn deep_view(&self) -> TokenModel {
        self.view()
    }
}

/// The characters that separate words.
pub open spec fn is_space_char(c: char) -> bool {
    c == ' ' || c == '\t' || c == '\n' || c == '\r'
}

/// The characters that start an operator and therefore end a bare word.
pub open spec fn is_operator_char(c: char) -> bool {
    c == ';' || c == '|' || c == '&' || c == '>' || c == '<' || c == '(' || c == ')'
}

/// The first position at or after `pos` holding a non-blank character, or
/// the end of the input.
pub open spec fn spec_skip_whitespace(input: Seq<char>, pos: nat) -> nat
    decreases input.len() - pos,
{
    if pos < input.len() && is_space_char(input[pos as int]) {
        spec_skip_whitespace(input, pos + 1)
    } else {
        pos
    }
}

/// The position where a bare word starting at `pos` ends: the first blank or
/// operator character at or after `pos`, or the end of the input.
pub open spec fn spec_word_end(input: Seq<char>, pos: nat) -> nat
    decreases input.len() - pos,
{
    if pos < input.len() && !is_space_char(input[pos as int]) && !is_operator_char(
        input[pos as int],
    ) {
        spec_word_end(input, pos + 1)
    } else {
        pos
    }
}

/// The scan of a quoted run that starts just after the opening delimiter at
/// `pos`: the content gathered and the position just after the closing
/// delimiter. Inside double quotes a backslash escapes the next character;
/// an unterminated quote consumes to the end of the input.
pub open spec fn spec_quoted_scan(input: Seq<char>, pos: nat, quote: char) -> (Seq<char>, nat)
    decreases input.len() - pos,
{
    if pos >= input.len() {
        (Seq::<char>::empty(), pos)
    } else if input[pos as int] == quote {
        (Seq::<char>::empty(), (pos + 1) as nat)
    } else if input[pos as int] == '\\' && quote == '"' {
        if pos + 1 < input.len() {
            let rest = spec_quoted_scan(input, pos + 2, quote);
            (seq![input[pos + 1 as int]] + rest.0, rest.1)
        } else {
            (Seq::<char>::empty(), (pos + 1) as nat)
        }
    } else {
        let rest = spec_quoted_scan(input, pos + 1, quote);
        (seq![input[pos as int]] + rest.0, rest.1)
    }
}

/// The token read at `pos`, where `pos` is already past any whitespace, and
/// the position just after it.
pub open spec fn spec_raw_token(input: Seq<char>, pos: nat) -> (TokenModel, nat) {
    if pos >= input.len() {
        (TokenModel::Eof, pos)
    } else {
        let c = input[pos as int];
        if c == ';' {
            (TokenModel::Semicolon, (pos + 1) as nat)
        } else if c == '|' {
            if pos + 1 < input.len() && input[pos + 1 as int] == '|' {
                (TokenModel::Or, (pos + 2) as nat)
            } else {
                (TokenModel::Pipe, (pos + 1) as nat)
            }
        } else if c == '&' {
            if pos + 1 < input.len() && input[pos + 1 as int] == '&' {
                (TokenModel::And, (pos + 2) as nat)
            } else {
                (TokenModel::Background, (pos + 1) as nat)
            }
        } else if c == '>' {
            if pos + 1 < input.len() && input[pos + 1 as int] == '>' {
                (TokenModel::RedirectOperator(RedirectOperator::Append), (pos + 2) as nat)
            } else if pos + 1 < input.len() && input[pos + 1 as int] == '&' {
                (TokenModel::RedirectOperator(RedirectOperator::DuplicateOut), (pos + 2) as nat)
            } else {
                (TokenModel::RedirectOperator(RedirectOperator::Overwrite), (pos + 1) as nat)
            }
        } else if c == '<' {
            if pos + 1 < input.len() && input[pos + 1 as int] == '<' {
                (TokenModel::RedirectOperator(RedirectOperator::HereDoc), (pos + 2) as nat)
            } else if pos + 1 < input.len() && input[pos + 1 as int] == '&' {
                (TokenModel::RedirectOperator(RedirectOperator::DuplicateIn), (pos + 2) as nat)
            } else {
                (TokenModel::RedirectOperator(RedirectOperator::Input), (pos + 1) as nat)
            }
        } else if c == '(' {
            (TokenModel::LParen, (pos + 1) as nat)
        } else if c == ')' {
            (TokenModel::RParen, (pos + 1) as nat)
        } else if c == '\'' {
            let r = spec_quoted_scan(input, pos + 1, '\'');
            (TokenModel::SingleQuoted(r.0), r.1)
        } else if c == '"' {
            let r = spec_quoted_scan(input, pos + 1, '"');
            (TokenModel::DoubleQuoted(r.0), r.1)
        } else {
            let e = spec_word_end(input, pos);
            (TokenModel::Word(input.subrange(pos as int, e as int)), e)
        }
    }
}

/// The token read at `pos`, whitespace skipped first, and the position just
/// after it.
pub open spec fn spec_token_at(input: Seq<char>, pos: nat) -> (TokenModel, nat) {
    spec_raw_token(input, spec_skip_whitespace(input, pos))
}

/// Skipping whitespace stays within the input and stops on a non-blank
/// character.
pub proof fn lemma_skip_whitespace_bounds(input: Seq<char>, pos: nat)
    requires
        pos <= input.len(),
    ensures
        pos <= spec_skip_whitespace(input, pos) <= input.len(),
        spec_skip_whitespace(input, pos) < input.len() ==> !is_space_char(
            input[spec_skip_whitespace(input, pos) as int],
        ),
    decreases input.len() - pos,
{
    if pos < input.len() && is_space_char(input[pos as int]) {
        lemma_skip_whitespace_bounds(input, pos + 1);
    }
}

/// A word's end lies between its start and the end of the input.
pub proof fn lemma_word_end_bounds(input: Seq<char>, pos: nat)
    requires
        pos <= input.len(),
    ensures
        pos <= spec_word_end(input, pos) <= input.len(),
    decreases input.len() - pos,
{
    if pos < input.len() && !is_space_char(input[pos as int]) && !is_operator_char(
        input[pos as int],
    ) {
        lemma_word_end_bounds(input, pos + 1);
    }
}

/// A quoted scan consumes at least one character and stays within the input.
pub proof fn lemma_quoted_scan_bounds(input: Seq<char>, pos: nat, quote: char)
    requires
        pos <= input.len(),
    ensures
        pos <= spec_quoted_scan(input, pos, quote).1 <= input.len(),
        pos < input.len() ==> pos + 1 <= spec_quoted_scan(input, pos, quote).1,
    decreases input.len() - pos,
{
    if pos >= input.len() {
    } else if input[pos as int] == quote {
    } else if input[pos as int] == '\\' && quote == '"' {
        if pos + 1 < input.len() {
            lemma_quoted_scan_bounds(input, pos + 2, quote);
        }
    } else {
        lemma_quoted_scan_bounds(input, pos + 1, quote);
    }
}

/// Reading one token stays within the input and, unless it reports the end
/// of the input, consumes at least one character.
pub proof fn lemma_token_at_progress(input: Seq<char>, pos: nat)
    requires
        pos <= input.len(),
    ensures
        spec_token_at(input, pos).1 <= input.len(),
        spec_token_at(input, pos).0 != TokenModel::Eof ==> pos < spec_token_at(input, pos).1,
{
    lemma_skip_whitespace_bounds(input, pos);
    let p = spec_skip_whitespace(input, pos);
    if p < input.len() {
        let c = input[p as int];
        if c == '\'' {
            lemma_quoted_scan_bounds(input, p + 1, '\'');
        } else if c == '"' {
            lemma_quoted_scan_bounds(input, p + 1, '"');
        } else if !is_operator_char(c) {
            assert(!is_space_char(c));
            assert(spec_word_end(input, p) == spec_word_end(input, p + 1));
            lemma_word_end_bounds(input, p + 1);
        }
    }
}

/// The whole token sequence of the input from `pos` on, the end-of-input
/// marker excluded.
pub open spec fn spec_tokens_from(input: Seq<char>, pos: nat) -> Seq<TokenModel>
    decreases input.len() - pos,
    via spec_tokens_from_decreases
{
    let r = spec_token_at(input, pos);
    if r.0 == TokenModel::Eof {
        Seq::<TokenModel>::empty()
    } else {
        seq![r.0] + spec_tokens_from(input, r.1)
    }
}

#[via_fn]
proof fn spec_tokens_from_decreases(input: Seq<char>, pos: nat) {
    if pos <= input.len() {
        lemma_token_at_progress(input, pos);
    }
}

/// The tokenizer: a character buffer and the position of the next character
/// to read.
pub struct Lexer {
    pub input: Vec<char>,
    pub position: usize,
}

impl Lexer {
    /// A lexer over the given line, positioned at its start.
    pub fn new(input: String) -> (lexer: Lexer)
        ensures
            lexer.input@ == input@,
            lexer.position == 0,
    {
        let n = input.as_str().unicode_len();
        let mut chars: Vec<char> = Vec::new();
        let mut i: usize = 0;
        while i < n
            invariant
                i <= n,
                n == input@.len(),
                chars@ == input@.take(i as int),
            decreases n - i,
        {
            let c = input.as_str().get_char(i);
            chars.push(c);
            proof {
                assert(chars@ =~= input@.take(i + 1 as int));
            }
            i = i + 1;
        }
        proof {
            assert(input@.take(n as int) =~= input@);
        }
        Lexer { input: chars, position: 0 }
    }

    /// The character under the cursor, if any.
    fn peek(&self) -> (c: Option<char>)
        ensures
            c == (if self.position < self.input.len() {
                Some(self.input@[self.position as int])
            } else {
                Option::<char>::None
            }),
    {
        if self.position < self.input.len() {
            Some(self.input[self.position])
        } else {
            None
        }
    }

    /// Step past the character under the cursor.
    fn consume(&mut self)
        requires
            old(self).position < old(self).input.len(),
        ensures
            final(self).input@ == old(self).input@,
            final(self).position == old(self).position + 1,
    {
        self.position = self.position + 1;
    }

    /// Step past any whitespace under the cursor.
    fn skip_whitespace(&mut self)
        ensures
            final(self).input@ == old(self).input@,
            final(self).position as nat == spec_skip_whitespace(
                old(self).input@,
                old(self).position as nat,
            ),
    {
        let ghost self0 = *self;
        loop
            invariant_except_break
                self.input@ == self0.input@,
                spec_skip_whitespace(self0.input@, self0.position as nat)
                    == spec_skip_whitespace(self.input@, self.position as nat),
            ensures
                self.input@ == self0.input@,
                self.position as nat == spec_skip_whitespace(
                    self0.input@,
                    self0.position as nat,
                ),
            decreases self.input.len() - self.position,
        {
            if self.position >= self.input.len() {
                break;
            }
            let c = self.input[self.position];
            if !is_space(c) {
                break;
            }
            self.position = self.position + 1;
        }
    }

    /// All tokens from the cursor to the end of the input, in order; the
    /// end-of-input marker is not included.
    pub fn tokens(&mut self) -> (tokens: Vec<Token>)
        ensures
            final(self).input@ == old(self).input@,
            tokens.deep_view() == spec_tokens_from(old(self).input@, old(self).position as nat),
    {
        let ghost input0 = self.input@;
        let ghost pos0 = self.position as nat;
        let mut tokens: Vec<Token> = Vec::new();
        proof {
            assert(tokens.deep_view() =~= Seq::<TokenModel>::empty());
            assert(Seq::<TokenModel>::empty() + spec_tokens_from(input0, pos0) =~= spec_tokens_from(
                input0,
                pos0,
            ));
        }
        loop
            invariant_except_break
                self.input@ == input0,
                spec_tokens_from(input0, pos0) == tokens.deep_view() + spec_tokens_from(
                    input0,
                    self.position as nat,
                ),
            ensures
                self.input@ == input0,
                tokens.deep_view() == spec_tokens_from(input0, pos0),
            decreases input0.len() + 1 - self.position,
        {
            let ghost pos_before = self.position as nat;
            let token = self.next_token();
            proof {
                if pos_before <= input0.len() {
                    lemma_token_at_progress(input0, pos_before);
                }
            }
            if matches!(token, Token::EOF) {
                proof {
                    assert(spec_tokens_from(input0, pos_before) =~= Seq::<TokenModel>::empty());
                    assert(tokens.deep_view() + Seq::<TokenModel>::empty() =~= tokens.deep_view());
                }
                break;
            }
            proof {
                assert(token@ != TokenModel::Eof);
            }
            let ghost tokens_before = tokens.deep_view();
            tokens.push(token);
            proof {
                assert(tokens.deep_view() =~= tokens_before.push(token@));
                assert(tokens_before.push(token@) =~= tokens_before + seq![token@]);
                assert((tokens_before + seq![token@]) + spec_tokens_from(
                    input0,
                    self.position as nat,
                ) =~= tokens_before + (seq![token@] + spec_tokens_from(
                    input0,
                    self.position as nat,
                )));
            }
        }
        tokens
    }

    /// The next token under the cursor, whitespace skipped first; the
    /// end-of-input marker once the input is exhausted.
    pub fn next_token(&mut self) -> (token: Token)
        ensures
            final(self).input@ == old(self).input@,
            token@ == spec_token_at(old(self).input@, old(self).position as nat).0,
            final(self).position as nat == spec_token_at(old(self).input@, old(self).position as nat).1,
    {
        self.skip_whitespace();
        if self.position >= self.input.len() {
            return Token::EOF;
        }
        let c = self.input[self.position];
        if c == ';' {
            self.handle_semicolon()
        } else if c == '|' {
            self.handle_pipe()
        } else if c == '&' {
            self.handle_ampersand()
        } else if c == '>' {
            self.handle_redirect_out()
        } else if c == '<' {
            self.handle_redirect_in()
        } else if c == '(' || c == ')' {
            self.handle_parentheses()
        } else if c == '\'' {
            self.read_single_quoted()
        } else if c == '"' {
            self.read_double_quoted()
        } else {
            self.read_word()
        }
    }

    /// `;`
    fn handle_semicolon(&mut self) -> (token: Token)
        requires
            old(self).position < old(self).input.len(),
            old(self).input@[old(self).position as int] == ';',
        ensures
            final(self).input@ == old(self).input@,
            token@ == spec_raw_token(old(self).input@, old(self).position as nat).0,
            final(self).position as nat == spec_raw_token(old(self).input@, old(self).position as nat).1,
    {
        self.consume();
        Token::Semicolon
    }

    /// `|`, or `||` when a second bar follows.
    fn handle_pipe(&mut self) -> (token: Token)
        requires
            old(self).position < old(self).input.len(),
            old(self).input@[old(self).position as int] == '|',
        ensures
            final(self).input@ == old(self).input@,
            token@ == spec_raw_token(old(self).input@, old(self).position as nat).0,
            final(self).position as nat == spec_raw_token(old(self).input@, old(self).position as nat).1,
    {
        self.consume();
        match self.peek() {
            Some('|') => {
                self.consume();
                Token::Or
            },
            _ => Token::Pipe,
        }
    }

    /// `&`, or `&&` when a second ampersand follows.
    fn handle_ampersand(&mut self) -> (token: Token)
        requires
            old(self).position < old(self).input.len(),
            old(self).input@[old(self).position as int] == '&',
        ensures
            final(self).input@ == old(self).input@,
            token@ == spec_raw_token(old(self).input@, old(self).position as nat).0,
            final(self).position as nat == spec_raw_token(old(self).input@, old(self).position as nat).1,
    {
        self.consume();
        match self.peek() {
            Some('&') => {
                self.consume();
                Token::And
            },
            _ => Token::Background,
        }
    }

    /// `<`, `<<` or `<&`.
    fn handle_redirect_in(&mut self) -> (token: Token)
        requires
            old(self).position < old(self).input.len(),
            old(self).input@[old(self).position as int] == '<',
        ensures
            final(self).input@ == old(self).input@,
            token@ == spec_raw_token(old(self).input@, old(self).position as nat).0,
            final(self).position as nat == spec_raw_token(old(self).input@, old(self).position as nat).1,
    {
        self.consume();
        match self.peek() {
            Some('<') => {
                self.consume();
                Token::RedirectOperator(RedirectOperator::HereDoc)
            },
            Some('&') => {
                self.consume();
                Token::RedirectOperator(RedirectOperator::DuplicateIn)
            },
            _ => Token::RedirectOperator(RedirectOperator::Input),
        }
    }

    /// `>`, `>>` or `>&`.
    fn handle_redirect_out(&mut self) -> (token: Token)
        requires
            old(self).position < old(self).input.len(),
            old(self).input@[old(self).position as int] == '>',
        ensures
            final(self).input@ == old(self).input@,
            token@ == spec_raw_token(old(self).input@, old(self).position as nat).0,
            final(self).position as nat == spec_raw_token(old(self).input@, old(self).position as nat).1,
    {
        self.consume();
        match self.peek() {
            Some('>') => {
                self.consume();
                Token::RedirectOperator(RedirectOperator::Append)
            },
            Some('&') => {
                self.consume();
                Token::RedirectOperator(RedirectOperator::DuplicateOut)
            },
            _ => Token::RedirectOperator(RedirectOperator::Overwrite),
        }
    }

    /// `(` or `)`.
    fn handle_parentheses(&mut self) -> (token: Token)
        requires
            old(self).position < old(self).input.len(),
            old(self).input@[old(self).position as int] == '(' || old(self).input@[old(
                self,
            ).position as int] == ')',
        ensures
            final(self).input@ == old(self).input@,
            token@ == spec_raw_token(old(self).input@, old(self).position as nat).0,
            final(self).position as nat == spec_raw_token(old(self).input@, old(self).position as nat).1,
    {
        match self.peek() {
            Some('(') => {
                self.consume();
                Token::LParen
            },
            _ => {
                self.consume();
                Token::RParen
            },
        }
    }

    /// A `'…'` run.
    fn read_single_quoted(&mut self) -> (token: Token)
        requires
            old(self).position < old(self).input.len(),
            old(self).input@[old(self).position as int] == '\'',
        ensures
            final(self).input@ == old(self).input@,
            token@ == spec_raw_token(old(self).input@, old(self).position as nat).0,
            final(self).position as nat == spec_raw_token(old(self).input@, old(self).position as nat).1,
    {
        let content = self.read_quoted('\'');
        Token::SingleQuoted(content)
    }

    /// A `"…"` run.
    fn read_double_quoted(&mut self) -> (token: Token)
        requires
            old(self).position < old(self).input.len(),
            old(self).input@[old(self).position as int] == '"',
        ensures
            final(self).input@ == old(self).input@,
            token@ == spec_raw_token(old(self).input@, old(self).position as nat).0,
            final(self).position as nat == spec_raw_token(old(self).input@, old(self).position as nat).1,
    {
        let content = self.read_quoted('"');
        Token::DoubleQuoted(content)
    }

    /// The content between the quote under the cursor and its closing mate.
    fn read_quoted(&mut self, quote: char) -> (content: String)
        requires
            old(self).position < old(self).input.len(),
        ensures
            final(self).input@ == old(self).input@,
            content@ == spec_quoted_scan(
                old(self).input@,
                (old(self).position + 1) as nat,
                quote,
            ).0,
            final(self).position as nat == spec_quoted_scan(
                old(self).input@,
                (old(self).position + 1) as nat,
                quote,
            ).1,
    {
        let ghost input0 = self.input@;
        let ghost target = spec_quoted_scan(input0, (old(self).position + 1) as nat, quote);
        let mut content = String::new();
        self.consume();
        proof {
            assert(Seq::<char>::empty() + spec_quoted_scan(input0, self.position as nat, quote).0
                =~= spec_quoted_scan(input0, self.position as nat, quote).0);
        }
        loop
            invariant_except_break
                self.input@ == input0,
                self.position <= input0.len(),
                target.0 == content@ + spec_quoted_scan(input0, self.position as nat, quote).0,
                target.1 == spec_quoted_scan(input0, self.position as nat, quote).1,
            ensures
                self.input@ == input0,
                content@ == target.0,
                self.position as nat == target.1,
            decreases input0.len() - self.position,
        {
            if self.position >= self.input.len() {
                proof {
                    assert(content@ + Seq::<char>::empty() =~= content@);
                }
                break;
            }
            let c = self.input[self.position];
            if c == quote {
                self.consume();
                proof {
                    assert(content@ + Seq::<char>::empty() =~= content@);
                }
                break;
            } else if c == '\\' && quote == '"' {
                let ghost content_before = content@;
                let ghost pos_before = self.position as nat;
                self.consume();
                if self.position < self.input.len() {
                    let d = self.input[self.position];
                    content.push(d);
                    self.consume();
                    proof {
                        let rest = spec_quoted_scan(input0, self.position as nat, quote);
                        assert(spec_quoted_scan(input0, pos_before, quote).0 == seq![d] + rest.0);
                        assert(content@ =~= content_before + seq![d]);
                        assert((content_before + seq![d]) + rest.0 =~= content_before + (seq![d]
                            + rest.0));
                    }
                }
            } else {
                let ghost content_before = content@;
                let ghost pos_before = self.position as nat;
                content.push(c);
                self.consume();
                proof {
                    let rest = spec_quoted_scan(input0, self.position as nat, quote);
                    assert(spec_quoted_scan(input0, pos_before, quote).0 == seq![c] + rest.0);
                    assert(content@ =~= content_before + seq![c]);
                    assert((content_before + seq![c]) + rest.0 =~= content_before + (seq![c]
                        + rest.0));
                }
            }
        }
        content
    }

    /// A bare word: everything up to the next blank or operator character.
    fn read_word(&mut self) -> (token: Token)
        requires
            old(self).position <= old(self).input.len(),
        ensures
            final(self).input@ == old(self).input@,
            token@ == TokenModel::Word(
                old(self).input@.subrange(
                    old(self).position as int,
                    spec_word_end(old(self).input@, old(self).position as nat) as int,
                ),
            ),
            final(self).position as nat == spec_word_end(old(self).input@, old(self).position as nat),
    {
        let ghost input0 = self.input@;
        let ghost pos0 = self.position as nat;
        let mut word = String::new();
        proof {
            assert(word@ =~= input0.subrange(pos0 as int, pos0 as int));
        }
        loop
            invariant_except_break
                self.input@ == input0,
                pos0 <= self.position <= input0.len(),
                word@ == input0.subrange(pos0 as int, self.position as int),
                spec_word_end(input0, pos0) == spec_word_end(input0, self.position as nat),
            ensures
                self.input@ == input0,
                self.position as nat == spec_word_end(input0, pos0),
                word@ == input0.subrange(pos0 as int, spec_word_end(input0, pos0) as int),
            decreases input0.len() - self.position,
        {
            if self.position >= self.input.len() {
                break;
            }
            let c = self.input[self.position];
            if is_space(c) || self.is_operator(c) {
                break;
            }
            let ghost word_before = word@;
            word.push(c);
            self.consume();
            proof {
                assert(word@ =~= input0.subrange(pos0 as int, self.position as int));
            }
        }
        Token::Word(word)
    }

    /// Whether the character ends a bare word by starting an operator.
    fn is_operator(&self, c: char) -> (r: bool)
        ensures
            r == is_operator_char(c),
    {
        c == ';' || c == '|' || c == '&' || c == '>' || c == '<' || c == '(' || c == ')'
    }
}

/// Whether the character is one of the blanks that separate words.
fn is_space(c: char) -> (r: bool)
    ensures
        r == is_space_char(c),
{
    c == ' ' || c == '\t' || c == '\n' || c == '\r'
}

} // verus!
