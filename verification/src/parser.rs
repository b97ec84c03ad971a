//! The parser: builds a `Command` tree from the token stream by precedence
//! climbing, with a dedicated sub-grammar for redirections. The model is
//! `spec_parse` and the `spec_` functions it rests on; `Parser::parse` is
//! proved to return exactly what the model says, and the laws at the end of
//! the file state what the model does on word-only input and that it is a
//! pure function of the token sequence.

use vstd::prelude::*;

use crate::command::{Command, CommandModel, Operator, RedirectTarget, RedirectTargetModel, Redirection, RedirectionModel};
use crate::engine::{default_descriptor, spec_default_descriptor};
use crate::lexer::{Lexer, Token, TokenModel, spec_tokens_from};

verus! {

/// The ways a parse can fail.
pub enum ParseErrorKind {
    /// No word where a command was required.
    EmptyCommand,
    /// A redirection operator without a word for its target.
    InvalidRedirectTarget,
}

/// The message each failure carries.
pub open spec fn spec_error_message(k: ParseErrorKind) -> Seq<char> {
    match k {
        ParseErrorKind::EmptyCommand => "Empty command"@,
        ParseErrorKind::InvalidRedirectTarget => "Invalid redirect target"@,
    }
}

/// A decimal digit.
pub open spec fn is_digit_char(c: char) -> bool {
    48 <= c as u32 <= 57
}

/// The value of one decimal digit.
pub open spec fn spec_digit_value(c: char) -> nat {
    (c as u32 - 48) as nat
}

/// The value of a digit string read in base ten.
pub open spec fn spec_digits_value(s: Seq<char>) -> nat
    decreases s.len(),
{
    if s.len() == 0 {
        0
    } else {
        spec_digits_value(s.drop_last()) * 10 + spec_digit_value(s.last())
    }
}

/// Whether every character is a decimal digit.
pub open spec fn spec_all_digits(s: Seq<char>) -> bool {
    forall|i: int| 0 <= i < s.len() ==> is_digit_char(#[trigger] s[i])
}

/// The digits of a descriptor word: the word itself, or what follows one
/// leading plus sign.
pub open spec fn spec_fd_digits(s: Seq<char>) -> Seq<char> {
    if s.len() > 0 && s[0] == '+' {
        s.drop_first()
    } else {
        s
    }
}

/// Whether a word reads as a descriptor number: an optional leading plus
/// sign, then one or more decimal digits, with a value that fits 32 bits.
pub open spec fn spec_is_fd_word(s: Seq<char>) -> bool {
    let d = spec_fd_digits(s);
    d.len() > 0 && spec_all_digits(d) && spec_digits_value(d) <= u32::MAX
}

/// The descriptor number a word reads as.
pub open spec fn spec_fd_value(s: Seq<char>) -> nat {
    spec_digits_value(spec_fd_digits(s))
}

/// A longer digit prefix never has a smaller value.
proof fn lemma_digits_value_monotone(d: Seq<char>, i: int, j: int)
    requires
        0 <= i <= j <= d.len(),
    ensures
        spec_digits_value(d.take(i)) <= spec_digits_value(d.take(j)),
    decreases j - i,
{
    if i < j {
        lemma_digits_value_monotone(d, i, j - 1);
        assert(d.take(j).drop_last() =~= d.take(j - 1));
        assert(spec_digits_value(d.take(j)) == spec_digits_value(d.take(j - 1)) * 10
            + spec_digit_value(d.take(j).last()));
    }
}

/// Whether the character is a decimal digit.
fn is_digit(c: char) -> (r: bool)
    ensures
        r == is_digit_char(c),
{
    let u = c as u32;
    48 <= u && u <= 57
}

/// Reads a word as a descriptor number the way the redirection grammar
/// accepts one: an optional leading plus sign, then decimal digits whose
/// value fits 32 bits. Anything else is no descriptor.
pub fn parse_descriptor(s: &String) -> (r: Option<u32>)
    ensures
        r == (if spec_is_fd_word(s@) {
            Some(spec_fd_value(s@) as u32)
        } else {
            Option::<u32>::None
        }),
{
    let ghost sv = s@;
    let n = s.as_str().unicode_len();
    let start: usize = if n > 0 && s.as_str().get_char(0) == '+' {
        1
    } else {
        0
    };
    let ghost d = spec_fd_digits(sv);
    proof {
        assert(d.len() == n - start);
        assert(forall|k: int| 0 <= k < d.len() ==> d[k] == sv[k + start]);
    }
    if n == start {
        return None;
    }
    let mut value: u32 = 0;
    let mut i: usize = start;
    #[verifier::loop_isolation(false)]
    while i < n
        invariant
            start <= i <= n,
            spec_all_digits(d.take(i - start)),
            value == spec_digits_value(d.take(i - start)),
        decreases n - i,
    {
        let c = s.as_str().get_char(i);
        if !is_digit(c) {
            proof {
                assert(d[i - start] == c);
                assert(!spec_all_digits(d));
            }
            return None;
        }
        let dv: u32 = c as u32 - 48;
        let ghost k = i - start;
        proof {
            assert(d.take(k + 1).drop_last() =~= d.take(k as int));
            assert(d.take(k + 1).last() == d[k as int]);
            assert(d[k as int] == c);
            assert(spec_digits_value(d.take(k + 1)) == value * 10 + dv);
        }
        if value > (u32::MAX - dv) / 10 {
            proof {
                assert(value * 10 + dv > u32::MAX) by {
                    let q = ((u32::MAX - dv) / 10) as int;
                    assert(10 * q + ((u32::MAX - dv) as int % 10) == u32::MAX - dv);
                    assert(value >= q + 1);
                    assert(value * 10 >= (q + 1) * 10) by (nonlinear_arith)
                        requires value >= q + 1;
                }
                if spec_all_digits(d) {
                    lemma_digits_value_monotone(d, k + 1, d.len() as int);
                    assert(d.take(d.len() as int) =~= d);
                    assert(!spec_is_fd_word(sv));
                } else {
                    assert(!spec_is_fd_word(sv));
                }
            }
            return None;
        }
        value = value * 10 + dv;
        proof {
            assert(spec_all_digits(d.take(k + 1)));
        }
        i = i + 1;
    }
    proof {
        assert(d.take(n - start) =~= d);
        assert(spec_is_fd_word(sv));
    }
    Some(value)
}

/// The text a word-like token carries: a bare word or a quoted run.
pub open spec fn spec_word_text(t: TokenModel) -> Option<Seq<char>> {
    match t {
        TokenModel::Word(s) => Some(s),
        TokenModel::SingleQuoted(s) => Some(s),
        TokenModel::DoubleQuoted(s) => Some(s),
        _ => None,
    }
}

/// The binary operator a token stands for, with its binding precedence:
/// pipes bind tightest, then and, then or, then the sequencing operators.
pub open spec fn spec_operator_of(t: TokenModel) -> Option<(Operator, int)> {
    match t {
        TokenModel::Pipe => Some((Operator::Pipe, 4int)),
        TokenModel::And => Some((Operator::And, 3int)),
        TokenModel::Or => Some((Operator::Or, 2int)),
        TokenModel::Semicolon => Some((Operator::Semicolon, 1int)),
        TokenModel::Background => Some((Operator::Background, 1int)),
        _ => None,
    }
}

/// The descriptor number of an explicit-descriptor word, when the token is
/// one.
pub open spec fn spec_explicit_fd(t: TokenModel) -> Option<u32> {
    match t {
        TokenModel::Word(w) => if spec_is_fd_word(w) {
            Some(spec_fd_value(w) as u32)
        } else {
            None
        },
        _ => None,
    }
}

/// The redirection read at `pos`, which holds a redirection operator: the
/// operator's default descriptor, overridden when the next token is a word
/// that reads as a descriptor number; then a word or quoted token as the
/// file target. Anything else in the target slot is an error.
pub open spec fn spec_parse_redirection(toks: Seq<TokenModel>, pos: nat) -> Result<
    (RedirectionModel, nat),
    ParseErrorKind,
> {
    if pos < toks.len() {
        match toks[pos as int] {
            TokenModel::RedirectOperator(op) => {
                let explicit = if pos + 1 < toks.len() {
                    spec_explicit_fd(toks[pos as int + 1])
                } else {
                    None
                };
                let fd = match explicit {
                    Some(n) => n,
                    None => spec_default_descriptor(op),
                };
                let tpos = match explicit {
                    Some(_) => pos + 2,
                    None => pos + 1,
                };
                if tpos < toks.len() {
                    match spec_word_text(toks[tpos as int]) {
                        Some(text) => Ok(
                            (
                                RedirectionModel {
                                    fd: Some(fd),
                                    operator: op,
                                    target: RedirectTargetModel::File(text),
                                },
                                (tpos + 1) as nat,
                            ),
                        ),
                        None => Err(ParseErrorKind::InvalidRedirectTarget),
                    }
                } else {
                    Err(ParseErrorKind::InvalidRedirectTarget)
                }
            },
            _ => Err(ParseErrorKind::InvalidRedirectTarget),
        }
    } else {
        Err(ParseErrorKind::InvalidRedirectTarget)
    }
}

/// A redirection consumes two or three tokens and stays within the input.
pub proof fn lemma_parse_redirection_bounds(toks: Seq<TokenModel>, pos: nat)
    ensures
        spec_parse_redirection(toks, pos) matches Ok(p) ==> pos + 2 <= p.1 <= toks.len(),
{
}

/// The primary-command scan from `pos`: words and quoted runs accumulate as
/// arguments and redirection operators start redirections, until some other
/// token or the end of the input. No word at all is an error; otherwise the
/// first word is the executable and the rest are the arguments.
pub open spec fn spec_parse_command_loop(
    toks: Seq<TokenModel>,
    pos: nat,
    words: Seq<Seq<char>>,
    redirects: Seq<RedirectionModel>,
) -> Result<(CommandModel, nat), ParseErrorKind>
    decreases toks.len() - pos,
    via spec_parse_command_loop_decreases
{
    if pos < toks.len() && spec_word_text(toks[pos as int]) is Some {
        match spec_word_text(toks[pos as int]) {
            Some(w) => spec_parse_command_loop(toks, pos + 1, words.push(w), redirects),
            None => Err(ParseErrorKind::EmptyCommand),
        }
    } else if pos < toks.len() && toks[pos as int] is RedirectOperator {
        match spec_parse_redirection(toks, pos) {
            Ok(p) => spec_parse_command_loop(toks, p.1, words, redirects.push(p.0)),
            Err(e) => Err(e),
        }
    } else if words.len() == 0 {
        Err(ParseErrorKind::EmptyCommand)
    } else {
        Ok(
            (
                CommandModel::Simple {
                    executable: words[0],
                    args: words.drop_first(),
                    redirects: redirects,
                },
                pos,
            ),
        )
    }
}

#[via_fn]
proof fn spec_parse_command_loop_decreases(
    toks: Seq<TokenModel>,
    pos: nat,
    words: Seq<Seq<char>>,
    redirects: Seq<RedirectionModel>,
) {
    lemma_parse_redirection_bounds(toks, pos);
}

/// The primary-command scan stays within the input and, starting from no
/// words, consumes at least one token when it succeeds.
pub proof fn lemma_command_loop_progress(
    toks: Seq<TokenModel>,
    pos: nat,
    words: Seq<Seq<char>>,
    redirects: Seq<RedirectionModel>,
)
    requires
        pos <= toks.len(),
    ensures
        spec_parse_command_loop(toks, pos, words, redirects) matches Ok(p) ==> pos <= p.1
            <= toks.len() && (words.len() == 0 ==> pos < p.1),
    decreases toks.len() - pos,
{
    if pos < toks.len() && spec_word_text(toks[pos as int]) is Some {
        match spec_word_text(toks[pos as int]) {
            Some(w) => {
                lemma_command_loop_progress(toks, pos + 1, words.push(w), redirects);
            },
            None => {},
        }
    } else if pos < toks.len() && toks[pos as int] is RedirectOperator {
        lemma_parse_redirection_bounds(toks, pos);
        match spec_parse_redirection(toks, pos) {
            Ok(p) => {
                lemma_command_loop_progress(toks, p.1, words, redirects.push(p.0));
            },
            Err(_) => {},
        }
    }
}

/// Precedence climbing from `pos` at threshold `min`: parse one primary
/// command, then while an operator of precedence at least `min` follows,
/// parse its right side one level tighter and fold the two into a binary
/// node. The fuel only bounds the recursion and never runs out on real
/// input; `spec_parse_fuel` always suffices.
pub open spec fn spec_parse_min_prec(
    toks: Seq<TokenModel>,
    pos: nat,
    min: int,
    fuel: nat,
) -> Result<(CommandModel, nat), ParseErrorKind>
    decreases fuel,
{
    if fuel == 0 {
        Err(ParseErrorKind::EmptyCommand)
    } else {
        match spec_parse_command_loop(toks, pos, Seq::<Seq<char>>::empty(), Seq::<RedirectionModel>::empty()) {
            Ok(p) => spec_climb(toks, p.1, min, p.0, (fuel - 1) as nat),
            Err(e) => Err(e),
        }
    }
}

/// The climbing fold of `spec_parse_min_prec`: `left` is what has been
/// built so far.
pub open spec fn spec_climb(
    toks: Seq<TokenModel>,
    pos: nat,
    min: int,
    left: CommandModel,
    fuel: nat,
) -> Result<(CommandModel, nat), ParseErrorKind>
    decreases fuel,
{
    if fuel == 0 {
        Err(ParseErrorKind::EmptyCommand)
    } else if pos < toks.len() {
        match spec_operator_of(toks[pos as int]) {
            Some(op_prec) => {
                if op_prec.1 >= min {
                    match spec_parse_min_prec(toks, pos + 1, op_prec.1 + 1, (fuel - 1) as nat) {
                        Ok(r) => spec_climb(
                            toks,
                            r.1,
                            min,
                            CommandModel::Binary {
                                left: Box::new(left),
                                right: Box::new(r.0),
                                operator: op_prec.0,
                            },
                            (fuel - 1) as nat,
                        ),
                        Err(e) => Err(e),
                    }
                } else {
                    Ok((left, pos))
                }
            },
            None => Ok((left, pos)),
        }
    } else {
        Ok((left, pos))
    }
}

/// A successful parse from `pos` consumes at least one token and stays
/// within the input.
pub proof fn lemma_parse_min_prec_progress(toks: Seq<TokenModel>, pos: nat, min: int, fuel: nat)
    requires
        pos <= toks.len(),
    ensures
        spec_parse_min_prec(toks, pos, min, fuel) matches Ok(p) ==> pos < p.1 <= toks.len(),
    decreases fuel,
{
    if fuel > 0 {
        match spec_parse_command_loop(
            toks,
            pos,
            Seq::<Seq<char>>::empty(),
            Seq::<RedirectionModel>::empty(),
        ) {
            Ok(p) => {
                lemma_command_loop_progress(
                    toks,
                    pos,
                    Seq::<Seq<char>>::empty(),
                    Seq::<RedirectionModel>::empty(),
                );
                lemma_climb_progress(toks, p.1, min, p.0, (fuel - 1) as nat);
            },
            Err(_) => {},
        }
    }
}

/// The climbing fold never steps back and stays within the input.
pub proof fn lemma_climb_progress(
    toks: Seq<TokenModel>,
    pos: nat,
    min: int,
    left: CommandModel,
    fuel: nat,
)
    requires
        pos <= toks.len(),
    ensures
        spec_climb(toks, pos, min, left, fuel) matches Ok(p) ==> pos <= p.1 <= toks.len(),
    decreases fuel,
{
    if fuel > 0 && pos < toks.len() {
        match spec_operator_of(toks[pos as int]) {
            Some(op_prec) => {
                if op_prec.1 >= min {
                    lemma_parse_min_prec_progress(toks, pos + 1, op_prec.1 + 1, (fuel - 1) as nat);
                    match spec_parse_min_prec(toks, pos + 1, op_prec.1 + 1, (fuel - 1) as nat) {
                        Ok(r) => {
                            lemma_climb_progress(
                                toks,
                                r.1,
                                min,
                                CommandModel::Binary {
                                    left: Box::new(left),
                                    right: Box::new(r.0),
                                    operator: op_prec.0,
                                },
                                (fuel - 1) as nat,
                            );
                        },
                        Err(_) => {},
                    }
                }
            },
            None => {},
        }
    }
}

/// Any two sufficient fuels give the same parse.
pub proof fn lemma_parse_min_prec_fuel(
    toks: Seq<TokenModel>,
    pos: nat,
    min: int,
    f1: nat,
    f2: nat,
)
    requires
        pos <= toks.len(),
        f1 >= 2 * (toks.len() - pos) + 2,
        f2 >= 2 * (toks.len() - pos) + 2,
    ensures
        spec_parse_min_prec(toks, pos, min, f1) == spec_parse_min_prec(toks, pos, min, f2),
    decreases toks.len() - pos, 1int,
{
    match spec_parse_command_loop(
        toks,
        pos,
        Seq::<Seq<char>>::empty(),
        Seq::<RedirectionModel>::empty(),
    ) {
        Ok(p) => {
            lemma_command_loop_progress(
                toks,
                pos,
                Seq::<Seq<char>>::empty(),
                Seq::<RedirectionModel>::empty(),
            );
            lemma_climb_fuel(toks, p.1, min, p.0, (f1 - 1) as nat, (f2 - 1) as nat);
        },
        Err(_) => {},
    }
}

/// Any two sufficient fuels give the same climbing fold.
pub proof fn lemma_climb_fuel(
    toks: Seq<TokenModel>,
    pos: nat,
    min: int,
    left: CommandModel,
    f1: nat,
    f2: nat,
)
    requires
        pos <= toks.len(),
        f1 >= 2 * (toks.len() - pos) + 1,
        f2 >= 2 * (toks.len() - pos) + 1,
    ensures
        spec_climb(toks, pos, min, left, f1) == spec_climb(toks, pos, min, left, f2),
    decreases toks.len() - pos, 0int,
{
    if pos < toks.len() {
        match spec_operator_of(toks[pos as int]) {
            Some(op_prec) => {
                if op_prec.1 >= min {
                    lemma_parse_min_prec_fuel(
                        toks,
                        pos + 1,
                        op_prec.1 + 1,
                        (f1 - 1) as nat,
                        (f2 - 1) as nat,
                    );
                    lemma_parse_min_prec_progress(toks, pos + 1, op_prec.1 + 1, (f1 - 1) as nat);
                    match spec_parse_min_prec(toks, pos + 1, op_prec.1 + 1, (f1 - 1) as nat) {
                        Ok(r) => {
                            lemma_climb_fuel(
                                toks,
                                r.1,
                                min,
                                CommandModel::Binary {
                                    left: Box::new(left),
                                    right: Box::new(r.0),
                                    operator: op_prec.0,
                                },
                                (f1 - 1) as nat,
                                (f2 - 1) as nat,
                            );
                        },
                        Err(_) => {},
                    }
                }
            },
            None => {},
        }
    }
}

/// Fuel that always suffices for the whole input.
pub open spec fn spec_parse_fuel(toks: Seq<TokenModel>) -> nat {
    2 * toks.len() + 2
}

/// The parse of a whole token sequence: precedence climbing from its start
/// with no threshold.
pub open spec fn spec_parse(toks: Seq<TokenModel>) -> Result<
    (CommandModel, nat),
    ParseErrorKind,
> {
    spec_parse_min_prec(toks, 0, 0, spec_parse_fuel(toks))
}

/// The parser: the token sequence of one line and the position of the next
/// token to consume.
pub struct Parser {
    pub tokens: Vec<Token>,
    pub position: usize,
}

impl Parser {
    /// Well-formedness: the cursor lies within the token sequence. The
    /// constructor establishes it and parsing preserves it.
    pub open spec fn wf(&self) -> bool {
        self.position <= self.tokens@.len()
    }
}

/// The binary operator a token stands for, with its binding precedence.
fn operator_of(t: &Token) -> (r: Option<(Operator, u8)>)
    ensures
        match spec_operator_of(t@) {
            Some(p) => r matches Some(q) && q.0 == p.0 && q.1 as int == p.1,
            None => r is None,
        },
{
    match t {
        Token::Pipe => Some((Operator::Pipe, 4)),
        Token::And => Some((Operator::And, 3)),
        Token::Or => Some((Operator::Or, 2)),
        Token::Semicolon => Some((Operator::Semicolon, 1)),
        Token::Background => Some((Operator::Background, 1)),
        _ => None,
    }
}

impl Parser {
    /// A parser over the lexer's tokens, positioned at the first of them.
    pub fn new(lexer: Lexer) -> (parser: Parser)
        ensures
            parser.wf(),
            parser.tokens.deep_view() == spec_tokens_from(lexer.input@, lexer.position as nat),
            parser.position == 0,
    {
        let mut lexer = lexer;
        let tokens = lexer.tokens();
        Parser { tokens, position: 0 }
    }

    /// Parse the whole token sequence into one command tree. Returns the
    /// tree the grammar gives, or the message of the first error: a missing
    /// word where a command was required, or a redirection without a target.
    pub fn parse(&mut self) -> (r: Result<Command, String>)
        requires
            old(self).wf(),
        ensures
            final(self).wf(),
            final(self).tokens.deep_view() == old(self).tokens.deep_view(),
            ({
                let toks = old(self).tokens.deep_view();
                match spec_parse_min_prec(
                    toks,
                    old(self).position as nat,
                    0,
                    spec_parse_fuel(toks),
                ) {
                    Ok(p) => r matches Ok(c) && c@ == p.0 && final(self).position as nat == p.1,
                    Err(k) => r matches Err(m) && m@ == spec_error_message(k),
                }
            }),
    {
        self.parse_with_min_precedence(0)
    }

    /// One climb of the precedence ladder: parse a primary command, then
    /// fold in every following operator that binds at least as tightly as
    /// `min_precedence`.
    fn parse_with_min_precedence(&mut self, min_precedence: u8) -> (r: Result<Command, String>)
        requires
            old(self).position <= old(self).tokens@.len(),
        ensures
            final(self).tokens.deep_view() == old(self).tokens.deep_view(),
            final(self).position <= final(self).tokens@.len(),
            ({
                let toks = old(self).tokens.deep_view();
                match spec_parse_min_prec(
                    toks,
                    old(self).position as nat,
                    min_precedence as int,
                    spec_parse_fuel(toks),
                ) {
                    Ok(p) => r matches Ok(c) && c@ == p.0 && final(self).position as nat == p.1,
                    Err(k) => r matches Err(m) && m@ == spec_error_message(k),
                }
            }),
        decreases old(self).tokens@.len() - old(self).position,
    {
        let ghost toks0 = self.tokens.deep_view();
        let ghost pos0 = self.position as nat;
        let ghost fuel = spec_parse_fuel(toks0);
        let ghost target = spec_parse_min_prec(toks0, pos0, min_precedence as int, fuel);
        let mut left = match self.parse_command() {
            Ok(c) => c,
            Err(e) => {
                return Err(e);
            },
        };
        proof {
            lemma_command_loop_progress(
                toks0,
                pos0,
                Seq::<Seq<char>>::empty(),
                Seq::<RedirectionModel>::empty(),
            );
            lemma_climb_fuel(
                toks0,
                self.position as nat,
                min_precedence as int,
                left@,
                (fuel - 1) as nat,
                fuel,
            );
        }
        loop
            invariant_except_break
                toks0 == old(self).tokens.deep_view(),
                pos0 == old(self).position as nat,
                fuel == spec_parse_fuel(toks0),
                target == spec_parse_min_prec(toks0, pos0, min_precedence as int, fuel),
                self.tokens.deep_view() == toks0,
                pos0 <= self.position <= toks0.len(),
                spec_climb(toks0, self.position as nat, min_precedence as int, left@, fuel)
                    == target,
            ensures
                toks0 == old(self).tokens.deep_view(),
                pos0 == old(self).position as nat,
                self.tokens.deep_view() == toks0,
                pos0 <= self.position <= toks0.len(),
                target == Ok::<(CommandModel, nat), ParseErrorKind>(
                    (left@, self.position as nat),
                ),
            decreases toks0.len() - self.position,
        {
            if self.position >= self.tokens.len() {
                break;
            }
            let op_prec = operator_of(&self.tokens[self.position]);
            let (op, prec) = match op_prec {
                Some(p) => p,
                None => {
                    break;
                },
            };
            if prec < min_precedence {
                break;
            }
            let ghost pos_at_op = self.position as nat;
            self.position = self.position + 1;
            let right = match self.parse_with_min_precedence(prec + 1) {
                Ok(c) => c,
                Err(e) => {
                    proof {
                        lemma_parse_min_prec_fuel(
                            toks0,
                            pos_at_op + 1,
                            prec as int + 1,
                            (fuel - 1) as nat,
                            fuel,
                        );
                    }
                    return Err(e);
                },
            };
            proof {
                lemma_parse_min_prec_fuel(
                    toks0,
                    pos_at_op + 1,
                    prec as int + 1,
                    (fuel - 1) as nat,
                    fuel,
                );
                lemma_parse_min_prec_progress(
                    toks0,
                    pos_at_op + 1,
                    prec as int + 1,
                    (fuel - 1) as nat,
                );
            }
            left = Command::Binary { left: Box::new(left), right: Box::new(right), operator: op };
            proof {
                lemma_climb_fuel(
                    toks0,
                    self.position as nat,
                    min_precedence as int,
                    left@,
                    (fuel - 1) as nat,
                    fuel,
                );
            }
        }
        Ok(left)
    }

    /// One primary command: words and quoted runs accumulate as arguments,
    /// redirection operators start redirections, until some other token or
    /// the end of the input. The first word is the executable; no word at
    /// all is an error.
    fn parse_command(&mut self) -> (r: Result<Command, String>)
        requires
            old(self).position <= old(self).tokens@.len(),
        ensures
            final(self).tokens.deep_view() == old(self).tokens.deep_view(),
            final(self).position <= final(self).tokens@.len(),
            old(self).position <= final(self).position,
            ({
                let toks = old(self).tokens.deep_view();
                match spec_parse_command_loop(
                    toks,
                    old(self).position as nat,
                    Seq::<Seq<char>>::empty(),
                    Seq::<RedirectionModel>::empty(),
                ) {
                    Ok(p) => r matches Ok(c) && c@ == p.0 && final(self).position as nat == p.1,
                    Err(k) => r matches Err(m) && m@ == spec_error_message(k),
                }
            }),
    {
        let ghost toks0 = self.tokens.deep_view();
        let ghost pos0 = self.position as nat;
        let ghost target = spec_parse_command_loop(
            toks0,
            pos0,
            Seq::<Seq<char>>::empty(),
            Seq::<RedirectionModel>::empty(),
        );
        let mut words: Vec<String> = Vec::new();
        let mut redirects: Vec<Redirection> = Vec::new();
        proof {
            assert(words.deep_view() =~= Seq::<Seq<char>>::empty());
            assert(redirects.deep_view() =~= Seq::<RedirectionModel>::empty());
        }
        loop
            invariant_except_break
                toks0 == old(self).tokens.deep_view(),
                pos0 == old(self).position as nat,
                target == spec_parse_command_loop(
                    toks0,
                    pos0,
                    Seq::<Seq<char>>::empty(),
                    Seq::<RedirectionModel>::empty(),
                ),
                self.tokens.deep_view() == toks0,
                pos0 <= self.position <= toks0.len(),
                spec_parse_command_loop(
                    toks0,
                    self.position as nat,
                    words.deep_view(),
                    redirects.deep_view(),
                ) == target,
            ensures
                toks0 == old(self).tokens.deep_view(),
                pos0 == old(self).position as nat,
                target == spec_parse_command_loop(
                    toks0,
                    pos0,
                    Seq::<Seq<char>>::empty(),
                    Seq::<RedirectionModel>::empty(),
                ),
                self.tokens.deep_view() == toks0,
                pos0 <= self.position <= toks0.len(),
                target == (if words.deep_view().len() == 0 {
                    Err::<(CommandModel, nat), ParseErrorKind>(ParseErrorKind::EmptyCommand)
                } else {
                    Ok(
                        (
                            CommandModel::Simple {
                                executable: words.deep_view()[0],
                                args: words.deep_view().drop_first(),
                                redirects: redirects.deep_view(),
                            },
                            self.position as nat,
                        ),
                    )
                }),
            decreases toks0.len() - self.position,
        {
            if self.position >= self.tokens.len() {
                break;
            }
            let ghost pos_before = self.position as nat;
            let ghost words_before = words.deep_view();
            let ghost redirects_before = redirects.deep_view();
            match &self.tokens[self.position] {
                Token::Word(w) => {
                    words.push(w.clone());
                    self.position = self.position + 1;
                    proof {
                        assert(words.deep_view() =~= words_before.push(w@));
                    }
                },
                Token::SingleQuoted(w) => {
                    words.push(w.clone());
                    self.position = self.position + 1;
                    proof {
                        assert(words.deep_view() =~= words_before.push(w@));
                    }
                },
                Token::DoubleQuoted(w) => {
                    words.push(w.clone());
                    self.position = self.position + 1;
                    proof {
                        assert(words.deep_view() =~= words_before.push(w@));
                    }
                },
                Token::RedirectOperator(_) => {
                    let rd = match self.parse_redirection() {
                        Ok(rd) => rd,
                        Err(e) => {
                            return Err(e);
                        },
                    };
                    redirects.push(rd);
                    proof {
                        assert(redirects.deep_view() =~= redirects_before.push(rd@));
                    }
                },
                _ => {
                    break;
                },
            }
        }
        if words.len() == 0 {
            return Err("Empty command".to_owned());
        }
        let ghost words_dv = words.deep_view();
        let executable = words.remove(0);
        proof {
            assert(words.deep_view() =~= words_dv.drop_first());
        }
        Ok(Command::Simple { executable, args: words, redirects })
    }

    /// One redirection: the operator under the cursor, an optional explicit
    /// descriptor word, and the target word.
    fn parse_redirection(&mut self) -> (r: Result<Redirection, String>)
        requires
            old(self).position < old(self).tokens@.len(),
            old(self).tokens.deep_view()[old(self).position as int] is RedirectOperator,
        ensures
            final(self).tokens.deep_view() == old(self).tokens.deep_view(),
            final(self).position <= final(self).tokens@.len(),
            old(self).position <= final(self).position,
            ({
                let toks = old(self).tokens.deep_view();
                match spec_parse_redirection(toks, old(self).position as nat) {
                    Ok(p) => r matches Ok(rd) && rd@ == p.0 && final(self).position as nat == p.1,
                    Err(k) => r matches Err(m) && m@ == spec_error_message(k),
                }
            }),
    {
        let n = self.tokens.len();
        let op = match &self.tokens[self.position] {
            Token::RedirectOperator(o) => *o,
            _ => {
                // Unreachable: the caller hands over a redirection token.
                proof {
                    assert(false);
                }
                return Err("Invalid redirect target".to_owned());
            },
        };
        self.position = self.position + 1;
        let mut fd: u32 = default_descriptor(op);
        if self.position < n {
            match &self.tokens[self.position] {
                Token::Word(n) => {
                    match parse_descriptor(n) {
                        Some(num) => {
                            fd = num;
                            self.position = self.position + 1;
                        },
                        None => {},
                    }
                },
                _ => {},
            }
        }
        if self.position >= n {
            return Err("Invalid redirect target".to_owned());
        }
        let target = match &self.tokens[self.position] {
            Token::Word(f) => {
                let t = f.clone();
                self.position = self.position + 1;
                RedirectTarget::File(t)
            },
            Token::SingleQuoted(f) => {
                let t = f.clone();
                self.position = self.position + 1;
                RedirectTarget::File(t)
            },
            Token::DoubleQuoted(f) => {
                let t = f.clone();
                self.position = self.position + 1;
                RedirectTarget::File(t)
            },
            _ => {
                return Err("Invalid redirect target".to_owned());
            },
        };
        Ok(Redirection { fd: Some(fd), operator: op, target })
    }
}

/// The text of a word-like token; the empty sequence elsewhere.
pub open spec fn spec_text_of(t: TokenModel) -> Seq<char> {
    match spec_word_text(t) {
        Some(s) => s,
        None => Seq::<char>::empty(),
    }
}

/// The texts of a token sequence, in order.
pub open spec fn spec_word_texts(toks: Seq<TokenModel>) -> Seq<Seq<char>> {
    Seq::new(toks.len(), |i: int| spec_text_of(toks[i]))
}

/// The primary-command scan of a word-only suffix gathers every text.
proof fn lemma_command_loop_words(
    toks: Seq<TokenModel>,
    pos: nat,
    words: Seq<Seq<char>>,
    redirects: Seq<RedirectionModel>,
)
    requires
        pos <= toks.len(),
        forall|i: int| pos <= i < toks.len() ==> spec_word_text(#[trigger] toks[i]) is Some,
    ensures
        spec_parse_command_loop(toks, pos, words, redirects) == ({
            let all = words + spec_word_texts(toks.subrange(pos as int, toks.len() as int));
            if all.len() == 0 {
                Err::<(CommandModel, nat), ParseErrorKind>(ParseErrorKind::EmptyCommand)
            } else {
                Ok(
                    (
                        CommandModel::Simple {
                            executable: all[0],
                            args: all.drop_first(),
                            redirects: redirects,
                        },
                        toks.len() as nat,
                    ),
                )
            }
        }),
    decreases toks.len() - pos,
{
    if pos < toks.len() {
        match spec_word_text(toks[pos as int]) {
            Some(w) => {
                lemma_command_loop_words(toks, pos + 1, words.push(w), redirects);
                assert(words.push(w) + spec_word_texts(
                    toks.subrange(pos as int + 1, toks.len() as int),
                ) =~= words + spec_word_texts(toks.subrange(pos as int, toks.len() as int)));
            },
            None => {},
        }
    } else {
        assert(words + spec_word_texts(toks.subrange(pos as int, toks.len() as int)) =~= words);
    }
}

/// Law: a line of bare words and quoted runs alone parses to exactly the
/// simple command whose executable is the first word typed and whose
/// arguments are the rest, in order, with no redirections — tokenizing and
/// parsing reconstruct the typed word sequence.
pub proof fn lemma_parse_words_only(toks: Seq<TokenModel>)
    requires
        toks.len() > 0,
        forall|i: int| 0 <= i < toks.len() ==> spec_word_text(#[trigger] toks[i]) is Some,
    ensures
        spec_parse(toks) == Ok::<(CommandModel, nat), ParseErrorKind>(
            (
                CommandModel::Simple {
                    executable: spec_word_texts(toks)[0],
                    args: spec_word_texts(toks).drop_first(),
                    redirects: Seq::<RedirectionModel>::empty(),
                },
                toks.len() as nat,
            ),
        ),
{
    lemma_command_loop_words(
        toks,
        0,
        Seq::<Seq<char>>::empty(),
        Seq::<RedirectionModel>::empty(),
    );
    assert(toks.subrange(0, toks.len() as int) =~= toks);
    assert(Seq::<Seq<char>>::empty() + spec_word_texts(toks) =~= spec_word_texts(toks));
}

/// Law: the parser is a pure function of the token stream — parsing equal
/// token sequences gives structurally identical command trees, so parsing
/// the same sequence twice gives the same tree.
pub proof fn lemma_parse_deterministic(t1: Seq<TokenModel>, t2: Seq<TokenModel>)
    requires
        t1 == t2,
    ensures
        spec_parse(t1) == spec_parse(t2),
{
}

} // verus!
