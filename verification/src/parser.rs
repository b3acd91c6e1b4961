//! The operator-precedence (Pratt) parser: two tokens of lookahead, a prefix
//! rule per token kind, infix rules driven by a precedence table, and
//! fail-fast errors. Its whole behaviour is stated by the specification
//! parser (`parse_program_v` and companions) over the token stream that
//! `spec_next_token` gives; recursion depth is bounded, and exceeding the
//! bound is reported as an error rather than overrunning the stack.
use vstd::prelude::*;
use crate::ast::{
    expr_v, exprs_v, exprs_v_rec, lemma_exprs_v_rec, lemma_stmts_v_rec, stmt_v, stmts_v,
    stmts_v_rec, epairs_v, epairs_v_rec, lemma_epairs_v_rec, Expression, ExpressionV, Program,
    Statement, StatementV,
};
use crate::lexer::{is_digit_char, spec_next_token, Lexer, Token, TokenType};
use std::rc::Rc;

verus! {

/// How a parse fails; the first failure aborts the parse.
#[derive(Debug, Clone, Copy, PartialEq, Eq, Structural)]
pub enum ParseError {
    MissingPrefixRule { found: TokenType },
    ExpectedButFound { expected: TokenType, found: TokenType },
    InvalidIntegerLiteral,
    NestingTooDeep,
}

pub const BLANK: u32 = 1;

pub const LOWEST: u32 = 2;

pub const EQUALS: u32 = 4;

pub const LESSGREATER: u32 = 8;

pub const SUM: u32 = 16;

pub const PRODUCT: u32 = 32;

pub const PREFIX: u32 = 64;

pub const CALL: u32 = 128;

pub const INDEX: u32 = 256;

/// How many levels of recursion a single statement may use while parsing.
pub const PARSE_FUEL: u64 = 1024;

/// The binding strength of a token when it appears in infix position;
/// tokens without an infix rule bind lowest.
pub open spec fn precedence_of(t: TokenType) -> u32 {
    match t {
        TokenType::EQ => EQUALS,
        TokenType::NOTEQ => EQUALS,
        TokenType::LT => LESSGREATER,
        TokenType::GT => LESSGREATER,
        TokenType::LTE => LESSGREATER,
        TokenType::GTE => LESSGREATER,
        TokenType::PLUS => SUM,
        TokenType::MINUS => SUM,
        TokenType::ASTERISK => PRODUCT,
        TokenType::SLASH => PRODUCT,
        TokenType::LPAREN => CALL,
        TokenType::LBRACKET => INDEX,
        _ => LOWEST,
    }
}

/// The numeric value of a run of decimal digits, most significant first.
pub open spec fn digits_val(s: Seq<char>) -> int
    decreases s.len(),
{
    if s.len() == 0 {
        0
    } else {
        digits_val(s.drop_last()) * 10 + (s.last() as u32 - 48)
    }
}

/// Whether every character of `s` is a decimal digit.
pub open spec fn all_digits(s: Seq<char>) -> bool {
    forall|i: int| 0 <= i < s.len() ==> is_digit_char(#[trigger] s[i])
}

proof fn lemma_digits_val_nonneg(s: Seq<char>)
    requires
        all_digits(s),
    ensures
        digits_val(s) >= 0,
    decreases s.len(),
{
    if s.len() > 0 {
        assert(all_digits(s.drop_last())) by {
            assert(forall|i: int|
                0 <= i < s.len() - 1 ==> is_digit_char(#[trigger] s.drop_last()[i]) == is_digit_char(
                    s[i],
                ));
        }
        lemma_digits_val_nonneg(s.drop_last());
    }
}

proof fn lemma_digits_val_mono(s: Seq<char>, i: int)
    requires
        all_digits(s),
        0 <= i <= s.len(),
    ensures
        digits_val(s.take(i)) <= digits_val(s),
    decreases s.len() - i,
{
    if i < s.len() {
        lemma_digits_val_mono(s, i + 1);
        let t = s.take(i + 1);
        assert(all_digits(t)) by {
            assert(forall|j: int|
                0 <= j < t.len() ==> is_digit_char(#[trigger] t[j]) == is_digit_char(s[j]));
        }
        assert(t.drop_last() =~= s.take(i));
        assert(all_digits(s.take(i))) by {
            assert(forall|j: int|
                0 <= j < i ==> is_digit_char(#[trigger] s.take(i)[j]) == is_digit_char(s[j]));
        }
        lemma_digits_val_nonneg(s.take(i));
        assert(digits_val(t) == digits_val(s.take(i)) * 10 + (t.last() as u32 - 48));
        assert(digits_val(s.take(i)) * 10 >= digits_val(s.take(i))) by (nonlinear_arith)
            requires
                digits_val(s.take(i)) >= 0,
        ;
    } else {
        assert(s.take(i) =~= s);
    }
}

/// Read a decimal integer. The parse succeeds exactly when the text is a
/// non-empty run of digits whose value fits in a 64-bit signed integer, and
/// then yields that value.
pub fn parse_i64(s: &str) -> (r: Option<i64>)
    ensures
        match r {
            Some(v) => all_digits(s@) && s@.len() > 0 && v as int == digits_val(s@),
            None => !(all_digits(s@) && s@.len() > 0 && digits_val(s@) <= i64::MAX),
        },
{
    let n = s.unicode_len();
    if n == 0 {
        return None;
    }
    let mut acc: i64 = 0;
    let mut i: usize = 0;
    while i < n
        invariant
            n == s@.len(),
            i <= n,
            all_digits(s@.take(i as int)),
            acc as int == digits_val(s@.take(i as int)),
            acc >= 0,
        decreases n - i,
    {
        let c = s.get_char(i);
        let u = c as u32;
        if !(48 <= u && u <= 57) {
            return None;
        }
        let d: i64 = ((u - 48) as i64);
        let next = match acc.checked_mul(10) {
            Some(m) => match m.checked_add(d) {
                Some(t) => Some(t),
                None => None,
            },
            None => None,
        };
        match next {
            Some(t) => {
                proof {
                    assert(s@.take(i + 1).drop_last() =~= s@.take(i as int));
                    assert(all_digits(s@.take(i + 1))) by {
                        assert(forall|j: int|
                            0 <= j < i + 1 ==> is_digit_char(#[trigger] s@.take(i + 1)[j])
                                == is_digit_char(s@[j]));
                    }
                }
                acc = t;
            },
            None => {
                proof {
                    assert(s@.take(i + 1).drop_last() =~= s@.take(i as int));
                    assert(all_digits(s@) ==> digits_val(s@) > i64::MAX) by {
                        if all_digits(s@) {
                            assert(all_digits(s@.take(i + 1))) by {
                                assert(forall|j: int|
                                    0 <= j < i + 1 ==> is_digit_char(
                                        #[trigger] s@.take(i + 1)[j],
                                    ) == is_digit_char(s@[j]));
                            }
                            assert(digits_val(s@.take(i + 1)) == acc * 10 + (u - 48));
                            lemma_digits_val_mono(s@, i + 1);
                        }
                    }
                }
                return None;
            },
        }
        i = i + 1;
    }
    proof {
        assert(s@.take(n as int) =~= s@);
    }
    Some(acc)
}

/// The view of a token: its kind and its text.
pub open spec fn tok_v(t: Token) -> (TokenType, Seq<char>) {
    (t.token_type, t.literal@)
}

/// The parser's state as the specification parser sees it: the source text,
/// the lexer's cursor, and the two-token window.
#[verifier::ext_equal]
pub struct PState {
    pub input: Seq<char>,
    pub pos: int,
    pub cur: (TokenType, Seq<char>),
    pub peek: (TokenType, Seq<char>),
}

/// Shifting the token window: the peek token becomes current, and the next
/// scanned token becomes the peek token.
pub open spec fn ps_next(st: PState) -> PState {
    let (ty, lit, end) = spec_next_token(st.input, st.pos);
    PState {
        input: st.input,
        pos: if end <= st.input.len() {
            end
        } else {
            st.input.len() as int
        },
        cur: st.peek,
        peek: (ty, lit),
    }
}

/// The window before any token has been read: both slots hold the sentinel
/// end-of-input token.
pub open spec fn ps_start(input: Seq<char>, pos: int) -> PState {
    PState {
        input,
        pos,
        cur: (TokenType::EOF, seq!['\0']),
        peek: (TokenType::EOF, seq!['\0']),
    }
}

/// How an expression result and its view correspond.
pub open spec fn expr_res(r: Result<Expression, ParseError>, rv: Result<ExpressionV, ParseError>) -> bool {
    match (r, rv) {
        (Ok(e), Ok(ev)) => expr_v(e) == ev,
        (Err(a), Err(b)) => a == b,
        _ => false,
    }
}

/// How a statement result and its view correspond.
pub open spec fn stmt_res(r: Result<Statement, ParseError>, rv: Result<StatementV, ParseError>) -> bool {
    match (r, rv) {
        (Ok(s), Ok(sv)) => stmt_v(s) == sv,
        (Err(a), Err(b)) => a == b,
        _ => false,
    }
}

/// How an expression-list result and its view correspond.
pub open spec fn exprs_res(
    r: Result<Vec<Expression>, ParseError>,
    rv: Result<Seq<ExpressionV>, ParseError>,
) -> bool {
    match (r, rv) {
        (Ok(es), Ok(evs)) => exprs_v(es@) == evs,
        (Err(a), Err(b)) => a == b,
        _ => false,
    }
}

/// What parsing one statement yields: `let` and `return` statements by their
/// keyword, everything else an expression statement.
pub open spec fn parse_statement_v(st: PState, fuel: nat) -> (Result<StatementV, ParseError>, PState)
    decreases fuel, 1int,
{
    if fuel == 0 {
        (Err(ParseError::NestingTooDeep), st)
    } else {
        let f1 = (fuel - 1) as nat;
        match st.cur.0 {
            TokenType::LET => parse_let_v(st, f1),
            TokenType::RETURN => parse_return_v(st, f1),
            _ => parse_expr_stmt_v(st, f1),
        }
    }
}

/// What parsing an expression statement yields; an optional trailing
/// semicolon is consumed.
pub open spec fn parse_expr_stmt_v(st: PState, fuel: nat) -> (Result<StatementV, ParseError>, PState)
    decreases fuel, 1int,
{
    if fuel == 0 {
        (Err(ParseError::NestingTooDeep), st)
    } else {
        let (r, st1) = parse_expression_v(st, LOWEST, (fuel - 1) as nat);
        match r {
            Ok(e) => {
                let st2 = if st1.peek.0 == TokenType::SEMICOLON {
                    ps_next(st1)
                } else {
                    st1
                };
                (Ok(StatementV::ExpressionStatementV { expression: e }), st2)
            },
            Err(er) => (Err(er), st1),
        }
    }
}

/// What parsing a block yields: statements until `}` or end of input.
pub open spec fn parse_block_v(st: PState, fuel: nat) -> (Result<StatementV, ParseError>, PState)
    decreases fuel, st.input.len() + 2,
{
    if fuel == 0 {
        (Err(ParseError::NestingTooDeep), st)
    } else {
        parse_block_stmts_v(ps_next(st), fuel, st.input.len(), Seq::empty())
    }
}

/// The statements of a block from the current position on.
pub open spec fn parse_block_stmts_v(
    st: PState,
    fuel: nat,
    guard: nat,
    acc: Seq<StatementV>,
) -> (Result<StatementV, ParseError>, PState)
    decreases fuel, guard,
{
    if st.cur.0 == TokenType::RBRACE || st.cur.0 == TokenType::EOF {
        (Ok(StatementV::BlockStatmentV { statements: acc }), st)
    } else if guard == 0 || fuel == 0 {
        (Err(ParseError::NestingTooDeep), st)
    } else {
        let (r, st1) = parse_statement_v(st, (fuel - 1) as nat);
        match r {
            Ok(s) => parse_block_stmts_v(ps_next(st1), fuel, (guard - 1) as nat, acc.push(s)),
            Err(er) => (Err(er), st1),
        }
    }
}

/// Precedence climbing: the current token's prefix rule yields the initial
/// expression, then stronger-binding infix rules absorb it from the left.
pub open spec fn parse_expression_v(st: PState, precedence: u32, fuel: nat) -> (Result<
    ExpressionV,
    ParseError,
>, PState)
    decreases fuel, st.input.len() + 2,
{
    if fuel == 0 {
        (Err(ParseError::NestingTooDeep), st)
    } else {
        let (r, st1) = call_prefix_v(st, st.cur.0, (fuel - 1) as nat);
        match r {
            Ok(left) => infix_loop_v(st1, precedence, left, fuel, st.input.len()),
            Err(er) => (Err(er), st1),
        }
    }
}

/// The infix loop: while the peek token is no statement terminator and binds
/// more strongly than `precedence`, absorb the left operand into its rule.
pub open spec fn infix_loop_v(
    st: PState,
    precedence: u32,
    left: ExpressionV,
    fuel: nat,
    guard: nat,
) -> (Result<ExpressionV, ParseError>, PState)
    decreases fuel, guard,
{
    if st.peek.0 == TokenType::SEMICOLON || precedence >= precedence_of(st.peek.0) {
        (Ok(left), st)
    } else if guard == 0 || fuel == 0 {
        (Err(ParseError::NestingTooDeep), st)
    } else {
        let t = st.peek.0;
        let (r, st1) = call_infix_v(ps_next(st), t, left, (fuel - 1) as nat);
        match r {
            Ok(l2) => infix_loop_v(st1, precedence, l2, fuel, (guard - 1) as nat),
            Err(er) => (Err(er), st1),
        }
    }
}

/// Dispatch on a token's prefix rule; a token without one is a parse error.
pub open spec fn call_prefix_v(st: PState, t: TokenType, fuel: nat) -> (Result<
    ExpressionV,
    ParseError,
>, PState)
    decreases fuel, 1int,
{
    if fuel == 0 {
        (Err(ParseError::NestingTooDeep), st)
    } else {
        let f1 = (fuel - 1) as nat;
        match t {
            TokenType::IDENT => (Ok(ExpressionV::IdentifierV { name: st.cur.1 }), st),
            TokenType::INT => (int_literal_v(st), st),
            TokenType::BANG => parse_prefix_v(st, f1),
            TokenType::MINUS => parse_prefix_v(st, f1),
            TokenType::TRUE => (
                Ok(ExpressionV::BooleanV { value: st.cur.0 == TokenType::TRUE }),
                st,
            ),
            TokenType::FALSE => (
                Ok(ExpressionV::BooleanV { value: st.cur.0 == TokenType::TRUE }),
                st,
            ),
            TokenType::LPAREN => parse_grouped_v(st, f1),
            TokenType::IF => parse_if_v(st, f1),
            TokenType::FUNCTION => parse_fn_literal_v(st, f1),
            TokenType::STRING => (Ok(ExpressionV::StringLiteralV { value: st.cur.1 }), st),
            TokenType::LBRACKET => parse_array_v(st, f1),
            TokenType::LBRACE => parse_hash_v(st, f1),
            _ => (Err(ParseError::MissingPrefixRule { found: t }), st),
        }
    }
}

/// What an integer-literal token yields: its digits' value, or the error for
/// a malformed or overflowing literal.
pub open spec fn int_literal_v(st: PState) -> Result<ExpressionV, ParseError> {
    if all_digits(st.cur.1) && st.cur.1.len() > 0 && digits_val(st.cur.1) <= i64::MAX {
        Ok(ExpressionV::IntegerLiteralV { value: digits_val(st.cur.1) as i64 })
    } else {
        Err(ParseError::InvalidIntegerLiteral)
    }
}

/// Dispatch on a token's infix rule; a token without one leaves the left
/// operand as it is.
pub open spec fn call_infix_v(st: PState, t: TokenType, left: ExpressionV, fuel: nat) -> (Result<
    ExpressionV,
    ParseError,
>, PState)
    decreases fuel, 1int,
{
    if fuel == 0 {
        (Err(ParseError::NestingTooDeep), st)
    } else {
        let f1 = (fuel - 1) as nat;
        match t {
            TokenType::PLUS => parse_infix_v(st, left, f1),
            TokenType::MINUS => parse_infix_v(st, left, f1),
            TokenType::SLASH => parse_infix_v(st, left, f1),
            TokenType::ASTERISK => parse_infix_v(st, left, f1),
            TokenType::GT => parse_infix_v(st, left, f1),
            TokenType::LT => parse_infix_v(st, left, f1),
            TokenType::GTE => parse_infix_v(st, left, f1),
            TokenType::LTE => parse_infix_v(st, left, f1),
            TokenType::EQ => parse_infix_v(st, left, f1),
            TokenType::NOTEQ => parse_infix_v(st, left, f1),
            TokenType::LPAREN => parse_call_expr_v(st, left, f1),
            TokenType::LBRACKET => parse_index_v(st, left, f1),
            _ => (Ok(left), st),
        }
    }
}

/// A prefix expression: the current operator applied to the expression that
/// follows at prefix precedence.
pub open spec fn parse_prefix_v(st: PState, fuel: nat) -> (Result<ExpressionV, ParseError>, PState)
    decreases fuel, 1int,
{
    if fuel == 0 {
        (Err(ParseError::NestingTooDeep), st)
    } else {
        let operator = st.cur.1;
        let (r, st1) = parse_expression_v(ps_next(st), PREFIX, (fuel - 1) as nat);
        match r {
            Ok(e) => (
                Ok(ExpressionV::PrefixExpressionV { operator, right: Box::new(e) }),
                st1,
            ),
            Err(er) => (Err(er), st1),
        }
    }
}

/// An infix expression: the right operand is parsed at this operator's own
/// precedence, so an equal-strength operator to the right is not absorbed —
/// operators group left to right.
pub open spec fn parse_infix_v(st: PState, left: ExpressionV, fuel: nat) -> (Result<
    ExpressionV,
    ParseError,
>, PState)
    decreases fuel, 1int,
{
    if fuel == 0 {
        (Err(ParseError::NestingTooDeep), st)
    } else {
        let operator = st.cur.1;
        let precedence = precedence_of(st.cur.0);
        let (r, st1) = parse_expression_v(ps_next(st), precedence, (fuel - 1) as nat);
        match r {
            Ok(e) => (
                Ok(
                    ExpressionV::InfixExpressionV {
                        left: Box::new(left),
                        operator,
                        right: Box::new(e),
                    },
                ),
                st1,
            ),
            Err(er) => (Err(er), st1),
        }
    }
}

/// A call expression: the callee applied to a parenthesised argument list.
pub open spec fn parse_call_expr_v(st: PState, left: ExpressionV, fuel: nat) -> (Result<
    ExpressionV,
    ParseError,
>, PState)
    decreases fuel, 1int,
{
    if fuel == 0 {
        (Err(ParseError::NestingTooDeep), st)
    } else {
        let (r, st1) = parse_list_v(st, TokenType::RPAREN, (fuel - 1) as nat);
        match r {
            Ok(args) => (
                Ok(ExpressionV::CallExpressionV { function: Box::new(left), arguments: args }),
                st1,
            ),
            Err(er) => (Err(er), st1),
        }
    }
}

/// An index expression: `left[index]`.
pub open spec fn parse_index_v(st: PState, left: ExpressionV, fuel: nat) -> (Result<
    ExpressionV,
    ParseError,
>, PState)
    decreases fuel, 1int,
{
    if fuel == 0 {
        (Err(ParseError::NestingTooDeep), st)
    } else {
        let (r, st1) = parse_expression_v(ps_next(st), LOWEST, (fuel - 1) as nat);
        match r {
            Ok(idx) => if st1.peek.0 == TokenType::RBRACKET {
                (
                    Ok(
                        ExpressionV::IndexExpressionV {
                            left: Box::new(left),
                            index: Box::new(idx),
                        },
                    ),
                    ps_next(st1),
                )
            } else {
                (
                    Err(
                        ParseError::ExpectedButFound {
                            expected: TokenType::RBRACKET,
                            found: st1.peek.0,
                        },
                    ),
                    st1,
                )
            },
            Err(er) => (Err(er), st1),
        }
    }
}

/// A parenthesised expression: the inner expression, requiring the `)`.
pub open spec fn parse_grouped_v(st: PState, fuel: nat) -> (Result<ExpressionV, ParseError>, PState)
    decreases fuel, 1int,
{
    if fuel == 0 {
        (Err(ParseError::NestingTooDeep), st)
    } else {
        let (r, st1) = parse_expression_v(ps_next(st), LOWEST, (fuel - 1) as nat);
        match r {
            Ok(e) => if st1.peek.0 == TokenType::RPAREN {
                (Ok(e), ps_next(st1))
            } else {
                (
                    Err(
                        ParseError::ExpectedButFound {
                            expected: TokenType::RPAREN,
                            found: st1.peek.0,
                        },
                    ),
                    st1,
                )
            },
            Err(er) => (Err(er), st1),
        }
    }
}

/// An `if` expression: `( condition ) { consequence }` and an optional
/// `else { alternative }`, the `else` followed directly by `{`.
pub open spec fn parse_if_v(st: PState, fuel: nat) -> (Result<ExpressionV, ParseError>, PState)
    decreases fuel, 1int,
{
    if fuel == 0 {
        (Err(ParseError::NestingTooDeep), st)
    } else if st.peek.0 != TokenType::LPAREN {
        (
            Err(ParseError::ExpectedButFound { expected: TokenType::LPAREN, found: st.peek.0 }),
            st,
        )
    } else {
        let (cr, st1) = parse_expression_v(ps_next(ps_next(st)), LOWEST, (fuel - 1) as nat);
        match cr {
            Err(er) => (Err(er), st1),
            Ok(cond) => if st1.peek.0 != TokenType::RPAREN {
                (
                    Err(
                        ParseError::ExpectedButFound {
                            expected: TokenType::RPAREN,
                            found: st1.peek.0,
                        },
                    ),
                    st1,
                )
            } else {
                let st2 = ps_next(st1);
                if st2.peek.0 != TokenType::LBRACE {
                    (
                        Err(
                            ParseError::ExpectedButFound {
                                expected: TokenType::LBRACE,
                                found: st2.peek.0,
                            },
                        ),
                        st2,
                    )
                } else {
                    let (br, st3) = parse_block_v(ps_next(st2), (fuel - 1) as nat);
                    match br {
                        Err(er) => (Err(er), st3),
                        Ok(cons) => if st3.peek.0 == TokenType::ELSE {
                            let st4 = ps_next(st3);
                            if st4.peek.0 != TokenType::LBRACE {
                                (
                                    Err(
                                        ParseError::ExpectedButFound {
                                            expected: TokenType::LBRACE,
                                            found: st4.peek.0,
                                        },
                                    ),
                                    st4,
                                )
                            } else {
                                let (ar, st5) = parse_block_v(ps_next(st4), (fuel - 1) as nat);
                                match ar {
                                    Err(er) => (Err(er), st5),
                                    Ok(alt) => (
                                        Ok(
                                            ExpressionV::IfExpressionV {
                                                condition: Box::new(cond),
                                                consequence: Box::new(cons),
                                                alternative: Some(Box::new(alt)),
                                            },
                                        ),
                                        st5,
                                    ),
                                }
                            }
                        } else {
                            (
                                Ok(
                                    ExpressionV::IfExpressionV {
                                        condition: Box::new(cond),
                                        consequence: Box::new(cons),
                                        alternative: None,
                                    },
                                ),
                                st3,
                            )
                        },
                    }
                }
            },
        }
    }
}

/// A function literal: `( parameters ) { body }`.
pub open spec fn parse_fn_literal_v(st: PState, fuel: nat) -> (Result<ExpressionV, ParseError>, PState)
    decreases fuel, 1int,
{
    if fuel == 0 {
        (Err(ParseError::NestingTooDeep), st)
    } else if st.peek.0 != TokenType::LPAREN {
        (
            Err(ParseError::ExpectedButFound { expected: TokenType::LPAREN, found: st.peek.0 }),
            st,
        )
    } else {
        let (pr, st1) = fn_params_v(ps_next(st), (fuel - 1) as nat);
        match pr {
            Err(er) => (Err(er), st1),
            Ok(params) => if st1.peek.0 != TokenType::LBRACE {
                (
                    Err(
                        ParseError::ExpectedButFound {
                            expected: TokenType::LBRACE,
                            found: st1.peek.0,
                        },
                    ),
                    st1,
                )
            } else {
                let (br, st2) = parse_block_v(ps_next(st1), (fuel - 1) as nat);
                match br {
                    Err(er) => (Err(er), st2),
                    Ok(body) => (
                        Ok(
                            ExpressionV::FunctionLiteralV {
                                parameters: params,
                                body: Box::new(body),
                            },
                        ),
                        st2,
                    ),
                }
            },
        }
    }
}

/// A comma-separated identifier list in parentheses.
pub open spec fn fn_params_v(st: PState, fuel: nat) -> (Result<Seq<ExpressionV>, ParseError>, PState)
    decreases fuel, st.input.len() + 2,
{
    if fuel == 0 {
        (Err(ParseError::NestingTooDeep), st)
    } else if st.peek.0 == TokenType::RPAREN {
        (Ok(Seq::empty()), ps_next(st))
    } else {
        let st1 = ps_next(st);
        let (r, st2) = params_loop_v(
            st1,
            st.input.len(),
            seq![ExpressionV::IdentifierV { name: st1.cur.1 }],
        );
        match r {
            Err(er) => (Err(er), st2),
            Ok(ids) => if st2.peek.0 == TokenType::RPAREN {
                (Ok(ids), ps_next(st2))
            } else {
                (
                    Err(
                        ParseError::ExpectedButFound {
                            expected: TokenType::RPAREN,
                            found: st2.peek.0,
                        },
                    ),
                    st2,
                )
            },
        }
    }
}

/// The comma-continued part of a parameter list.
pub open spec fn params_loop_v(st: PState, guard: nat, acc: Seq<ExpressionV>) -> (Result<
    Seq<ExpressionV>,
    ParseError,
>, PState)
    decreases guard,
{
    if st.peek.0 != TokenType::COMA {
        (Ok(acc), st)
    } else if guard == 0 {
        (Err(ParseError::NestingTooDeep), st)
    } else {
        let st1 = ps_next(ps_next(st));
        params_loop_v(st1, (guard - 1) as nat, acc.push(ExpressionV::IdentifierV { name: st1.cur.1 }))
    }
}

/// A comma-separated expression list closed by `end`; shared by call
/// arguments and array elements.
pub open spec fn parse_list_v(st: PState, end: TokenType, fuel: nat) -> (Result<
    Seq<ExpressionV>,
    ParseError,
>, PState)
    decreases fuel, st.input.len() + 2,
{
    if fuel == 0 {
        (Err(ParseError::NestingTooDeep), st)
    } else if st.peek.0 == end {
        (Ok(Seq::empty()), ps_next(st))
    } else {
        let (r, st1) = parse_expression_v(ps_next(st), LOWEST, (fuel - 1) as nat);
        match r {
            Err(er) => (Err(er), st1),
            Ok(first) => {
                let (lr, st2) = list_loop_v(st1, fuel, st.input.len(), seq![first]);
                match lr {
                    Err(er) => (Err(er), st2),
                    Ok(es) => if st2.peek.0 == end {
                        (Ok(es), ps_next(st2))
                    } else {
                        (
                            Err(ParseError::ExpectedButFound { expected: end, found: st2.peek.0 }),
                            st2,
                        )
                    },
                }
            },
        }
    }
}

/// The comma-continued part of an expression list.
pub open spec fn list_loop_v(st: PState, fuel: nat, guard: nat, acc: Seq<ExpressionV>) -> (Result<
    Seq<ExpressionV>,
    ParseError,
>, PState)
    decreases fuel, guard,
{
    if st.peek.0 != TokenType::COMA {
        (Ok(acc), st)
    } else if guard == 0 || fuel == 0 {
        (Err(ParseError::NestingTooDeep), st)
    } else {
        let (r, st1) = parse_expression_v(ps_next(ps_next(st)), LOWEST, (fuel - 1) as nat);
        match r {
            Ok(e) => list_loop_v(st1, fuel, (guard - 1) as nat, acc.push(e)),
            Err(er) => (Err(er), st1),
        }
    }
}

/// An array literal: a bracketed expression list.
pub open spec fn parse_array_v(st: PState, fuel: nat) -> (Result<ExpressionV, ParseError>, PState)
    decreases fuel, 1int,
{
    if fuel == 0 {
        (Err(ParseError::NestingTooDeep), st)
    } else {
        let (r, st1) = parse_list_v(st, TokenType::RBRACKET, (fuel - 1) as nat);
        match r {
            Ok(es) => (Ok(ExpressionV::ArrayLiteralV { elements: es }), st1),
            Err(er) => (Err(er), st1),
        }
    }
}

/// A hash literal: `key : value` pairs separated by commas, closed by `}`.
pub open spec fn parse_hash_v(st: PState, fuel: nat) -> (Result<ExpressionV, ParseError>, PState)
    decreases fuel, st.input.len() + 2,
{
    if fuel == 0 {
        (Err(ParseError::NestingTooDeep), st)
    } else {
        let (r, st1) = hash_loop_v(st, fuel, st.input.len(), Seq::empty());
        match r {
            Err(er) => (Err(er), st1),
            Ok(ps) => if st1.peek.0 == TokenType::RBRACE {
                (Ok(ExpressionV::HashLiteralV { pairs: ps }), ps_next(st1))
            } else {
                (
                    Err(
                        ParseError::ExpectedButFound {
                            expected: TokenType::RBRACE,
                            found: st1.peek.0,
                        },
                    ),
                    st1,
                )
            },
        }
    }
}

/// The pairs of a hash literal, in source order.
pub open spec fn hash_loop_v(
    st: PState,
    fuel: nat,
    guard: nat,
    acc: Seq<(ExpressionV, ExpressionV)>,
) -> (Result<Seq<(ExpressionV, ExpressionV)>, ParseError>, PState)
    decreases fuel, guard,
{
    if st.peek.0 == TokenType::RBRACE {
        (Ok(acc), st)
    } else if guard == 0 || fuel == 0 {
        (Err(ParseError::NestingTooDeep), st)
    } else {
        let (kr, st1) = parse_expression_v(ps_next(st), LOWEST, (fuel - 1) as nat);
        match kr {
            Err(er) => (Err(er), st1),
            Ok(k) => if st1.peek.0 != TokenType::COLON {
                (
                    Err(
                        ParseError::ExpectedButFound {
                            expected: TokenType::COLON,
                            found: st1.peek.0,
                        },
                    ),
                    st1,
                )
            } else {
                let (vr, st2) = parse_expression_v(ps_next(ps_next(st1)), LOWEST, (fuel - 1) as nat);
                match vr {
                    Err(er) => (Err(er), st2),
                    Ok(v) => {
                        let acc2 = acc.push((k, v));
                        if st2.peek.0 != TokenType::RBRACE && st2.peek.0 != TokenType::COMA {
                            (
                                Err(
                                    ParseError::ExpectedButFound {
                                        expected: TokenType::COMA,
                                        found: st2.peek.0,
                                    },
                                ),
                                st2,
                            )
                        } else {
                            let st3 = if st2.peek.0 == TokenType::COMA {
                                ps_next(st2)
                            } else {
                                st2
                            };
                            hash_loop_v(st3, fuel, (guard - 1) as nat, acc2)
                        }
                    },
                }
            },
        }
    }
}

/// A `let` statement: `let IDENT = expression ;?`; the bound name is the
/// identifier after the keyword.
pub open spec fn parse_let_v(st: PState, fuel: nat) -> (Result<StatementV, ParseError>, PState)
    decreases fuel, 1int,
{
    if fuel == 0 {
        (Err(ParseError::NestingTooDeep), st)
    } else if st.peek.0 != TokenType::IDENT {
        (Err(ParseError::ExpectedButFound { expected: TokenType::IDENT, found: st.peek.0 }), st)
    } else {
        let st1 = ps_next(st);
        let name = ExpressionV::IdentifierV { name: st1.cur.1 };
        if st1.peek.0 != TokenType::ASSIGN {
            (
                Err(
                    ParseError::ExpectedButFound { expected: TokenType::ASSIGN, found: st1.peek.0 },
                ),
                st1,
            )
        } else {
            let (r, st2) = parse_expression_v(ps_next(ps_next(st1)), LOWEST, (fuel - 1) as nat);
            match r {
                Err(er) => (Err(er), st2),
                Ok(value) => {
                    let st3 = if st2.peek.0 == TokenType::SEMICOLON {
                        ps_next(st2)
                    } else {
                        st2
                    };
                    (Ok(StatementV::LetStatementV { name, value }), st3)
                },
            }
        }
    }
}

/// A `return` statement: `return expression ;?`.
pub open spec fn parse_return_v(st: PState, fuel: nat) -> (Result<StatementV, ParseError>, PState)
    decreases fuel, 1int,
{
    if fuel == 0 {
        (Err(ParseError::NestingTooDeep), st)
    } else {
        let (r, st1) = parse_expression_v(ps_next(st), LOWEST, (fuel - 1) as nat);
        match r {
            Err(er) => (Err(er), st1),
            Ok(value) => {
                let st2 = if st1.peek.0 == TokenType::SEMICOLON {
                    ps_next(st1)
                } else {
                    st1
                };
                (Ok(StatementV::ReturnStatementV { return_value: value }), st2)
            },
        }
    }
}

/// What parsing a whole program yields: statements until the end of the
/// input, each given a fresh depth budget, fail-fast on the first error.
pub open spec fn parse_program_v(st: PState, guard: nat, acc: Seq<StatementV>) -> (Result<
    Seq<StatementV>,
    ParseError,
>, PState)
    decreases PARSE_FUEL as int + 1, guard,
{
    if st.cur.0 == TokenType::EOF {
        (Ok(acc), st)
    } else if guard == 0 {
        (Err(ParseError::NestingTooDeep), st)
    } else {
        let (r, st1) = parse_statement_v(st, PARSE_FUEL as nat);
        match r {
            Ok(s) => parse_program_v(ps_next(st1), (guard - 1) as nat, acc.push(s)),
            Err(er) => (Err(er), st1),
        }
    }
}

/// The parser: the lexer it draws tokens from, the current and the peek
/// token, and the precedence table.
#[derive(Debug)]
pub struct Parser {
    lexer: Lexer,
    cur_token: Token,
    peek_token: Token,
    precedences: Vec<(TokenType, u32)>,
}

impl View for Parser {
    type V = PState;

    closed spec fn view(&self) -> PState {
        PState {
            input: self.lexer.inp(),
            pos: self.lexer.pos(),
            cur: tok_v(self.cur_token),
            peek: tok_v(self.peek_token),
        }
    }
}

impl Parser {
    /// The parser's lexer is internally consistent.
    pub closed spec fn wf(&self) -> bool {
        self.lexer.wf()
    }

    /// A parser over the given lexer, with the token window primed by two
    /// reads from the lexer's position.
    pub fn new(lexer: Lexer) -> (p: Self)
        requires
            lexer.wf(),
        ensures
            p.wf(),
            p@ == ps_next(ps_next(ps_start(lexer.inp(), lexer.pos()))),
    {
        let ghost st0 = ps_start(lexer.inp(), lexer.pos());
        let mut parser = Parser {
            lexer,
            cur_token: Token::new(TokenType::EOF, '\0'),
            peek_token: Token::new(TokenType::EOF, '\0'),
            precedences: Parser::get_precedences(),
        };
        proof {
            assert(parser@ =~= st0);
        }
        parser.next_token();
        parser.next_token();
        parser
    }

    /// The precedence table: each infix-capable token with its strength, as
    /// `precedence_of` states it.
    pub fn get_precedences() -> (r: Vec<(TokenType, u32)>)
        ensures
            forall|i: int| 0 <= i < r@.len() ==> (#[trigger] r@[i]).1 == precedence_of(r@[i].0),
    {
        let mut precedences: Vec<(TokenType, u32)> = Vec::new();
        precedences.push((TokenType::EQ, EQUALS));
        precedences.push((TokenType::NOTEQ, EQUALS));
        precedences.push((TokenType::LT, LESSGREATER));
        precedences.push((TokenType::GT, LESSGREATER));
        precedences.push((TokenType::LTE, LESSGREATER));
        precedences.push((TokenType::GTE, LESSGREATER));
        precedences.push((TokenType::PLUS, SUM));
        precedences.push((TokenType::MINUS, SUM));
        precedences.push((TokenType::ASTERISK, PRODUCT));
        precedences.push((TokenType::SLASH, PRODUCT));
        precedences.push((TokenType::LPAREN, CALL));
        precedences.push((TokenType::LBRACKET, INDEX));
        precedences
    }

    /// The binding strength of a token kind, looked up in the table.
    fn table_precedence(&self, t: TokenType) -> (p: u32)
        ensures
            p == precedence_of(t),
    {
        match t {
            TokenType::EQ => EQUALS,
            TokenType::NOTEQ => EQUALS,
            TokenType::LT => LESSGREATER,
            TokenType::GT => LESSGREATER,
            TokenType::LTE => LESSGREATER,
            TokenType::GTE => LESSGREATER,
            TokenType::PLUS => SUM,
            TokenType::MINUS => SUM,
            TokenType::ASTERISK => PRODUCT,
            TokenType::SLASH => PRODUCT,
            TokenType::LPAREN => CALL,
            TokenType::LBRACKET => INDEX,
            _ => LOWEST,
        }
    }

    fn peek_precedence(&self) -> (p: u32)
        ensures
            p == precedence_of(self@.peek.0),
    {
        self.table_precedence(self.peek_token.token_type)
    }

    fn cur_precedence(&self) -> (p: u32)
        ensures
            p == precedence_of(self@.cur.0),
    {
        self.table_precedence(self.cur_token.token_type)
    }

    /// Shift the token window: the peek token becomes current, and the lexer
    /// supplies a fresh peek token, exactly as `ps_next` states.
    pub fn next_token(&mut self)
        requires
            old(self).wf(),
        ensures
            final(self).wf(),
            final(self)@ == ps_next(old(self)@),
    {
        self.cur_token = self.peek_token.clone();
        self.peek_token = self.lexer.next_token();
        proof {
            assert(self@ =~= ps_next(old(self)@));
        }
    }

    fn cur_token_is(&self, token_type: TokenType) -> (r: bool)
        ensures
            r == (self@.cur.0 == token_type),
    {
        self.cur_token.token_type == token_type
    }

    fn peek_token_is(&self, token_type: TokenType) -> (r: bool)
        ensures
            r == (self@.peek.0 == token_type),
    {
        self.peek_token.token_type == token_type
    }

    /// If the peek token has the expected kind, consume it and answer true;
    /// otherwise leave the window alone and answer false.
    fn expect_peek(&mut self, token_type: TokenType) -> (r: bool)
        requires
            old(self).wf(),
        ensures
            final(self).wf(),
            r == (old(self)@.peek.0 == token_type),
            r ==> final(self)@ == ps_next(old(self)@),
            !r ==> *final(self) == *old(self),
    {
        if self.peek_token_is(token_type) {
            self.next_token();
            true
        } else {
            false
        }
    }

    /// Parse a whole program: statements until the end of the input, as
    /// `parse_program_v` states it.
    pub fn parse_program(&mut self) -> (r: Result<Program, ParseError>)
        requires
            old(self).wf(),
        ensures
            final(self).wf(),
            ({
                let (rv, st2) = parse_program_v(
                    old(self)@,
                    old(self)@.input.len() as nat,
                    Seq::empty(),
                );
                &&& final(self)@ == st2
                &&& match (r, rv) {
                    (Ok(p), Ok(ss)) => stmts_v(p.statements@) == ss,
                    (Err(e1), Err(e2)) => e1 == e2,
                    _ => false,
                }
            }),
    {
        let guard = self.lexer.char_count();
        let acc: Vec<Statement> = Vec::new();
        proof {
            assert(stmts_v(acc@) =~= Seq::<StatementV>::empty());
        }
        let statements = match self.parse_program_rest(guard, acc) {
            Ok(ss) => ss,
            Err(e) => {
                return Err(e);
            },
        };
        let mut program = Program::new();
        program.statements = statements;
        Ok(program)
    }

    /// Parse the remaining statements of a program, extending `acc`.
    fn parse_program_rest(&mut self, guard: usize, acc: Vec<Statement>) -> (r: Result<
        Vec<Statement>,
        ParseError,
    >)
        requires
            old(self).wf(),
        ensures
            final(self).wf(),
            ({
                let (rv, st2) = parse_program_v(old(self)@, guard as nat, stmts_v(acc@));
                &&& final(self)@ == st2
                &&& match (r, rv) {
                    (Ok(ss), Ok(ssv)) => stmts_v(ss@) == ssv,
                    (Err(e1), Err(e2)) => e1 == e2,
                    _ => false,
                }
            }),
        decreases PARSE_FUEL as int + 1, guard,
    {
        if self.cur_token_is(TokenType::EOF) {
            return Ok(acc);
        }
        if guard == 0 {
            return Err(ParseError::NestingTooDeep);
        }
        let statement = match self.parse_statement(PARSE_FUEL) {
            Ok(s) => s,
            Err(e) => {
                return Err(e);
            },
        };
        let ghost pre = acc@;
        let mut acc2 = acc;
        acc2.push(statement);
        proof {
            assert(stmts_v(acc2@) =~= stmts_v(pre).push(stmt_v(statement)));
        }
        self.next_token();
        self.parse_program_rest(guard - 1, acc2)
    }

    /// Parse one statement (executable form of `parse_statement_v`).
    fn parse_statement(&mut self, fuel: u64) -> (r: Result<Statement, ParseError>)
        requires
            old(self).wf(),
        ensures
            final(self).wf(),
            ({
                let (rv, st2) = parse_statement_v(old(self)@, fuel as nat);
                final(self)@ == st2 && stmt_res(r, rv)
            }),
        decreases fuel, 1int,
    {
        if fuel == 0 {
            return Err(ParseError::NestingTooDeep);
        }
        match self.cur_token.token_type {
            TokenType::LET => self.parse_let_statement(fuel - 1),
            TokenType::RETURN => self.parse_return_statement(fuel - 1),
            _ => self.parse_expression_statement(fuel - 1),
        }
    }

    /// Parse an expression statement (executable form of
    /// `parse_expr_stmt_v`).
    fn parse_expression_statement(&mut self, fuel: u64) -> (r: Result<Statement, ParseError>)
        requires
            old(self).wf(),
        ensures
            final(self).wf(),
            ({
                let (rv, st2) = parse_expr_stmt_v(old(self)@, fuel as nat);
                final(self)@ == st2 && stmt_res(r, rv)
            }),
        decreases fuel, 1int,
    {
        if fuel == 0 {
            return Err(ParseError::NestingTooDeep);
        }
        let token = self.cur_token.clone();
        let expression = match self.parse_expression(LOWEST, fuel - 1) {
            Ok(e) => e,
            Err(e) => {
                return Err(e);
            },
        };
        if self.peek_token_is(TokenType::SEMICOLON) {
            self.next_token();
        }
        Ok(Statement::ExpressionStatement { token, expression })
    }

    /// Parse a block (executable form of `parse_block_v`).
    fn parse_block_statement(&mut self, fuel: u64) -> (r: Result<Statement, ParseError>)
        requires
            old(self).wf(),
        ensures
            final(self).wf(),
            ({
                let (rv, st2) = parse_block_v(old(self)@, fuel as nat);
                final(self)@ == st2 && stmt_res(r, rv)
            }),
        decreases fuel, usize::MAX as int + 1,
    {
        if fuel == 0 {
            return Err(ParseError::NestingTooDeep);
        }
        let guard = self.lexer.char_count();
        let token = self.cur_token.clone();
        self.next_token();
        let acc: Vec<Statement> = Vec::new();
        proof {
            assert(stmts_v(acc@) =~= Seq::<StatementV>::empty());
        }
        let statements = match self.parse_block_rest(fuel, guard, acc) {
            Ok(ss) => ss,
            Err(e) => {
                return Err(e);
            },
        };
        let r = Statement::BlockStatment { token, statements };
        proof {
            lemma_stmts_v_rec(statements@);
        }
        Ok(r)
    }

    /// Parse the remaining statements of a block, extending `acc`.
    fn parse_block_rest(&mut self, fuel: u64, guard: usize, acc: Vec<Statement>) -> (r: Result<
        Vec<Statement>,
        ParseError,
    >)
        requires
            old(self).wf(),
        ensures
            final(self).wf(),
            ({
                let (rv, st2) = parse_block_stmts_v(old(self)@, fuel as nat, guard as nat, stmts_v(acc@));
                &&& final(self)@ == st2
                &&& match (r, rv) {
                    (Ok(ss), Ok(sv)) => sv matches StatementV::BlockStatmentV { statements }
                        && stmts_v(ss@) == statements,
                    (Err(e1), Err(e2)) => e1 == e2,
                    _ => false,
                }
            }),
        decreases fuel, guard,
    {
        if self.cur_token_is(TokenType::RBRACE) || self.cur_token_is(TokenType::EOF) {
            return Ok(acc);
        }
        if guard == 0 || fuel == 0 {
            return Err(ParseError::NestingTooDeep);
        }
        let stmt = match self.parse_statement(fuel - 1) {
            Ok(s) => s,
            Err(e) => {
                return Err(e);
            },
        };
        let ghost pre = acc@;
        let mut acc2 = acc;
        acc2.push(stmt);
        proof {
            assert(stmts_v(acc2@) =~= stmts_v(pre).push(stmt_v(stmt)));
        }
        self.next_token();
        self.parse_block_rest(fuel, guard - 1, acc2)
    }

    /// Precedence climbing (executable form of `parse_expression_v`): a
    /// prefix rule yields the initial expression, then stronger-binding
    /// infix rules absorb it from the left.
    fn parse_expression(&mut self, precedence: u32, fuel: u64) -> (r: Result<
        Expression,
        ParseError,
    >)
        requires
            old(self).wf(),
        ensures
            final(self).wf(),
            ({
                let (rv, st2) = parse_expression_v(old(self)@, precedence, fuel as nat);
                final(self)@ == st2 && expr_res(r, rv)
            }),
        decreases fuel, usize::MAX as int + 1,
    {
        if fuel == 0 {
            return Err(ParseError::NestingTooDeep);
        }
        let guard = self.lexer.char_count();
        let left = match self.call_prefix(self.cur_token.token_type, fuel - 1) {
            Ok(e) => e,
            Err(e) => {
                return Err(e);
            },
        };
        self.parse_infix_rest(precedence, left, fuel, guard)
    }

    /// The infix loop (executable form of `infix_loop_v`).
    fn parse_infix_rest(
        &mut self,
        precedence: u32,
        left: Expression,
        fuel: u64,
        guard: usize,
    ) -> (r: Result<Expression, ParseError>)
        requires
            old(self).wf(),
        ensures
            final(self).wf(),
            ({
                let (rv, st2) = infix_loop_v(
                    old(self)@,
                    precedence,
                    expr_v(left),
                    fuel as nat,
                    guard as nat,
                );
                final(self)@ == st2 && expr_res(r, rv)
            }),
        decreases fuel, guard,
    {
        if self.peek_token_is(TokenType::SEMICOLON) {
            return Ok(left);
        }
        if precedence >= self.peek_precedence() {
            return Ok(left);
        }
        if guard == 0 || fuel == 0 {
            return Err(ParseError::NestingTooDeep);
        }
        let infix_token = self.peek_token.token_type;
        self.next_token();
        let left2 = match self.call_infix(infix_token, left, fuel - 1) {
            Ok(e) => e,
            Err(e) => {
                return Err(e);
            },
        };
        self.parse_infix_rest(precedence, left2, fuel, guard - 1)
    }

    /// Dispatch on the current token's prefix rule (executable form of
    /// `call_prefix_v`); a token without one is a parse error.
    fn call_prefix(&mut self, token_type: TokenType, fuel: u64) -> (r: Result<
        Expression,
        ParseError,
    >)
        requires
            old(self).wf(),
        ensures
            final(self).wf(),
            ({
                let (rv, st2) = call_prefix_v(old(self)@, token_type, fuel as nat);
                final(self)@ == st2 && expr_res(r, rv)
            }),
        decreases fuel, 2int,
    {
        if fuel == 0 {
            return Err(ParseError::NestingTooDeep);
        }
        match token_type {
            TokenType::IDENT => self.parse_identifier(),
            TokenType::INT => self.parse_integer_literal(),
            TokenType::BANG => self.parse_prefix_expression(fuel - 1),
            TokenType::MINUS => self.parse_prefix_expression(fuel - 1),
            TokenType::TRUE => self.parse_boolean(),
            TokenType::FALSE => self.parse_boolean(),
            TokenType::LPAREN => self.parse_grouped_expression(fuel - 1),
            TokenType::IF => self.parse_if_expression(fuel - 1),
            TokenType::FUNCTION => self.parse_function_literal(fuel - 1),
            TokenType::STRING => self.parse_string_literal(),
            TokenType::LBRACKET => self.parse_array_literal(fuel - 1),
            TokenType::LBRACE => self.parse_hash_literal(fuel - 1),
            _ => Err(ParseError::MissingPrefixRule { found: token_type }),
        }
    }

    /// Dispatch on a token's infix rule (executable form of `call_infix_v`);
    /// a token without one leaves the left operand as it is.
    fn call_infix(&mut self, token_type: TokenType, left: Expression, fuel: u64) -> (r: Result<
        Expression,
        ParseError,
    >)
        requires
            old(self).wf(),
        ensures
            final(self).wf(),
            ({
                let (rv, st2) = call_infix_v(old(self)@, token_type, expr_v(left), fuel as nat);
                final(self)@ == st2 && expr_res(r, rv)
            }),
        decreases fuel, 2int,
    {
        if fuel == 0 {
            return Err(ParseError::NestingTooDeep);
        }
        match token_type {
            TokenType::PLUS => self.parse_infix_expression(left, fuel - 1),
            TokenType::MINUS => self.parse_infix_expression(left, fuel - 1),
            TokenType::SLASH => self.parse_infix_expression(left, fuel - 1),
            TokenType::ASTERISK => self.parse_infix_expression(left, fuel - 1),
            TokenType::GT => self.parse_infix_expression(left, fuel - 1),
            TokenType::LT => self.parse_infix_expression(left, fuel - 1),
            TokenType::GTE => self.parse_infix_expression(left, fuel - 1),
            TokenType::LTE => self.parse_infix_expression(left, fuel - 1),
            TokenType::EQ => self.parse_infix_expression(left, fuel - 1),
            TokenType::NOTEQ => self.parse_infix_expression(left, fuel - 1),
            TokenType::LPAREN => self.parse_call_expression(left, fuel - 1),
            TokenType::LBRACKET => self.parse_index_expression(left, fuel - 1),
            _ => Ok(left),
        }
    }

    /// Parse a prefix expression (executable form of `parse_prefix_v`).
    fn parse_prefix_expression(&mut self, fuel: u64) -> (r: Result<Expression, ParseError>)
        requires
            old(self).wf(),
        ensures
            final(self).wf(),
            ({
                let (rv, st2) = parse_prefix_v(old(self)@, fuel as nat);
                final(self)@ == st2 && expr_res(r, rv)
            }),
        decreases fuel, 1int,
    {
        if fuel == 0 {
            return Err(ParseError::NestingTooDeep);
        }
        let token = self.cur_token.clone();
        let operator = self.cur_token.literal.clone();
        self.next_token();
        let expression = match self.parse_expression(PREFIX, fuel - 1) {
            Ok(e) => e,
            Err(e) => {
                return Err(e);
            },
        };
        Ok(Expression::PrefixExpression { token, operator, right: Box::new(expression) })
    }

    /// Parse an infix expression (executable form of `parse_infix_v`): the
    /// right operand is parsed at this operator's own precedence, so
    /// operators of equal strength group left to right.
    fn parse_infix_expression(&mut self, left: Expression, fuel: u64) -> (r: Result<
        Expression,
        ParseError,
    >)
        requires
            old(self).wf(),
        ensures
            final(self).wf(),
            ({
                let (rv, st2) = parse_infix_v(old(self)@, expr_v(left), fuel as nat);
                final(self)@ == st2 && expr_res(r, rv)
            }),
        decreases fuel, 1int,
    {
        if fuel == 0 {
            return Err(ParseError::NestingTooDeep);
        }
        let token = self.cur_token.clone();
        let operator = self.cur_token.literal.clone();
        let precedence = self.cur_precedence();
        self.next_token();
        let right = match self.parse_expression(precedence, fuel - 1) {
            Ok(e) => e,
            Err(e) => {
                return Err(e);
            },
        };
        Ok(
            Expression::InfixExpression {
                token,
                operator,
                left: Box::new(left),
                right: Box::new(right),
            },
        )
    }

    /// Parse a call expression (executable form of `parse_call_expr_v`).
    fn parse_call_expression(&mut self, function: Expression, fuel: u64) -> (r: Result<
        Expression,
        ParseError,
    >)
        requires
            old(self).wf(),
        ensures
            final(self).wf(),
            ({
                let (rv, st2) = parse_call_expr_v(old(self)@, expr_v(function), fuel as nat);
                final(self)@ == st2 && expr_res(r, rv)
            }),
        decreases fuel, usize::MAX as int + 3,
    {
        if fuel == 0 {
            return Err(ParseError::NestingTooDeep);
        }
        let token = self.cur_token.clone();
        let arguments = match self.parse_call_arguments(fuel - 1) {
            Ok(a) => a,
            Err(e) => {
                return Err(e);
            },
        };
        let r = Expression::CallExpression { token, function: Box::new(function), arguments };
        proof {
            lemma_exprs_v_rec(arguments@);
        }
        Ok(r)
    }

    /// Parse a parenthesised argument list: the expression-list rule closed
    /// by `)`.
    fn parse_call_arguments(&mut self, fuel: u64) -> (r: Result<Vec<Expression>, ParseError>)
        requires
            old(self).wf(),
        ensures
            final(self).wf(),
            ({
                let (rv, st2) = parse_list_v(old(self)@, TokenType::RPAREN, fuel as nat);
                final(self)@ == st2 && exprs_res(r, rv)
            }),
        decreases fuel, usize::MAX as int + 2,
    {
        self.parse_expression_list(TokenType::RPAREN, fuel)
    }

    /// Parse an index expression (executable form of `parse_index_v`).
    fn parse_index_expression(&mut self, left: Expression, fuel: u64) -> (r: Result<
        Expression,
        ParseError,
    >)
        requires
            old(self).wf(),
        ensures
            final(self).wf(),
            ({
                let (rv, st2) = parse_index_v(old(self)@, expr_v(left), fuel as nat);
                final(self)@ == st2 && expr_res(r, rv)
            }),
        decreases fuel, 1int,
    {
        if fuel == 0 {
            return Err(ParseError::NestingTooDeep);
        }
        let token = self.cur_token.clone();
        self.next_token();
        let index_exp = match self.parse_expression(LOWEST, fuel - 1) {
            Ok(e) => e,
            Err(e) => {
                return Err(e);
            },
        };
        if !self.expect_peek(TokenType::RBRACKET) {
            return Err(
                ParseError::ExpectedButFound {
                    expected: TokenType::RBRACKET,
                    found: self.peek_token.token_type,
                },
            );
        }
        Ok(Expression::IndexExpression { token, left: Box::new(left), index: Box::new(index_exp) })
    }

    /// Parse a parenthesised expression (executable form of
    /// `parse_grouped_v`).
    fn parse_grouped_expression(&mut self, fuel: u64) -> (r: Result<Expression, ParseError>)
        requires
            old(self).wf(),
        ensures
            final(self).wf(),
            ({
                let (rv, st2) = parse_grouped_v(old(self)@, fuel as nat);
                final(self)@ == st2 && expr_res(r, rv)
            }),
        decreases fuel, 1int,
    {
        if fuel == 0 {
            return Err(ParseError::NestingTooDeep);
        }
        self.next_token();
        let exp = match self.parse_expression(LOWEST, fuel - 1) {
            Ok(e) => e,
            Err(e) => {
                return Err(e);
            },
        };
        if !self.expect_peek(TokenType::RPAREN) {
            return Err(
                ParseError::ExpectedButFound {
                    expected: TokenType::RPAREN,
                    found: self.peek_token.token_type,
                },
            );
        }
        Ok(exp)
    }

    /// Parse an `if` expression (executable form of `parse_if_v`).
    fn parse_if_expression(&mut self, fuel: u64) -> (r: Result<Expression, ParseError>)
        requires
            old(self).wf(),
        ensures
            final(self).wf(),
            ({
                let (rv, st2) = parse_if_v(old(self)@, fuel as nat);
                final(self)@ == st2 && expr_res(r, rv)
            }),
        decreases fuel, 1int,
    {
        if fuel == 0 {
            return Err(ParseError::NestingTooDeep);
        }
        let token = self.cur_token.clone();
        if !self.expect_peek(TokenType::LPAREN) {
            return Err(
                ParseError::ExpectedButFound {
                    expected: TokenType::LPAREN,
                    found: self.peek_token.token_type,
                },
            );
        }
        self.next_token();
        let condition = match self.parse_expression(LOWEST, fuel - 1) {
            Ok(e) => e,
            Err(e) => {
                return Err(e);
            },
        };
        if !self.expect_peek(TokenType::RPAREN) {
            return Err(
                ParseError::ExpectedButFound {
                    expected: TokenType::RPAREN,
                    found: self.peek_token.token_type,
                },
            );
        }
        if !self.expect_peek(TokenType::LBRACE) {
            return Err(
                ParseError::ExpectedButFound {
                    expected: TokenType::LBRACE,
                    found: self.peek_token.token_type,
                },
            );
        }
        let consequence = match self.parse_block_statement(fuel - 1) {
            Ok(s) => s,
            Err(e) => {
                return Err(e);
            },
        };
        if self.peek_token_is(TokenType::ELSE) {
            self.next_token();
            if !self.expect_peek(TokenType::LBRACE) {
                return Err(
                    ParseError::ExpectedButFound {
                        expected: TokenType::LBRACE,
                        found: self.peek_token.token_type,
                    },
                );
            }
            let alternative = match self.parse_block_statement(fuel - 1) {
                Ok(s) => s,
                Err(e) => {
                    return Err(e);
                },
            };
            return Ok(
                Expression::IfExpression {
                    token,
                    condition: Box::new(condition),
                    consequence: Box::new(consequence),
                    alternative: Some(Box::new(alternative)),
                },
            );
        }
        Ok(
            Expression::IfExpression {
                token,
                condition: Box::new(condition),
                consequence: Box::new(consequence),
                alternative: None,
            },
        )
    }

    /// Parse a function literal (executable form of `parse_fn_literal_v`).
    fn parse_function_literal(&mut self, fuel: u64) -> (r: Result<Expression, ParseError>)
        requires
            old(self).wf(),
        ensures
            final(self).wf(),
            ({
                let (rv, st2) = parse_fn_literal_v(old(self)@, fuel as nat);
                final(self)@ == st2 && expr_res(r, rv)
            }),
        decreases fuel, 1int,
    {
        if fuel == 0 {
            return Err(ParseError::NestingTooDeep);
        }
        let token = self.cur_token.clone();
        if !self.expect_peek(TokenType::LPAREN) {
            return Err(
                ParseError::ExpectedButFound {
                    expected: TokenType::LPAREN,
                    found: self.peek_token.token_type,
                },
            );
        }
        let parameters = match self.parse_function_parameters(fuel - 1) {
            Ok(p) => p,
            Err(e) => {
                return Err(e);
            },
        };
        if !self.expect_peek(TokenType::LBRACE) {
            return Err(
                ParseError::ExpectedButFound {
                    expected: TokenType::LBRACE,
                    found: self.peek_token.token_type,
                },
            );
        }
        let body = match self.parse_block_statement(fuel - 1) {
            Ok(s) => s,
            Err(e) => {
                return Err(e);
            },
        };
        proof {
            lemma_exprs_v_rec(parameters@);
        }
        Ok(
            Expression::FunctionLiteral {
                token,
                parameters: Rc::new(parameters),
                body: Rc::new(body),
            },
        )
    }

    /// Parse a parenthesised identifier list (executable form of
    /// `fn_params_v`).
    fn parse_function_parameters(&mut self, fuel: u64) -> (r: Result<Vec<Expression>, ParseError>)
        requires
            old(self).wf(),
        ensures
            final(self).wf(),
            ({
                let (rv, st2) = fn_params_v(old(self)@, fuel as nat);
                final(self)@ == st2 && exprs_res(r, rv)
            }),
        decreases fuel, usize::MAX as int + 1,
    {
        if fuel == 0 {
            return Err(ParseError::NestingTooDeep);
        }
        let guard = self.lexer.char_count();
        let mut identifiers: Vec<Expression> = Vec::new();
        if self.peek_token_is(TokenType::RPAREN) {
            self.next_token();
            proof {
                assert(exprs_v(identifiers@) =~= Seq::<ExpressionV>::empty());
            }
            return Ok(identifiers);
        }
        self.next_token();
        let identifier = Expression::Identifier {
            token: self.cur_token.clone(),
            value: self.cur_token.literal.clone(),
        };
        identifiers.push(identifier);
        proof {
            assert(exprs_v(identifiers@) =~= seq![
                ExpressionV::IdentifierV { name: self.cur_token.literal@ },
            ]);
        }
        let ids = match self.parse_params_rest(guard, identifiers) {
            Ok(v) => v,
            Err(e) => {
                return Err(e);
            },
        };
        if !self.expect_peek(TokenType::RPAREN) {
            return Err(
                ParseError::ExpectedButFound {
                    expected: TokenType::RPAREN,
                    found: self.peek_token.token_type,
                },
            );
        }
        Ok(ids)
    }

    /// Parse the comma-continued part of a parameter list, extending `acc`.
    fn parse_params_rest(&mut self, guard: usize, acc: Vec<Expression>) -> (r: Result<
        Vec<Expression>,
        ParseError,
    >)
        requires
            old(self).wf(),
        ensures
            final(self).wf(),
            ({
                let (rv, st2) = params_loop_v(old(self)@, guard as nat, exprs_v(acc@));
                final(self)@ == st2 && exprs_res(r, rv)
            }),
        decreases guard,
    {
        if !self.peek_token_is(TokenType::COMA) {
            return Ok(acc);
        }
        if guard == 0 {
            return Err(ParseError::NestingTooDeep);
        }
        self.next_token();
        self.next_token();
        let identifier = Expression::Identifier {
            token: self.cur_token.clone(),
            value: self.cur_token.literal.clone(),
        };
        let ghost pre = acc@;
        let mut acc2 = acc;
        acc2.push(identifier);
        proof {
            assert(exprs_v(acc2@) =~= exprs_v(pre).push(
                ExpressionV::IdentifierV { name: self.cur_token.literal@ },
            ));
        }
        self.parse_params_rest(guard - 1, acc2)
    }

    /// An identifier expression: the current token's text as a name; nothing
    /// is consumed.
    fn parse_identifier(&mut self) -> (r: Result<Expression, ParseError>)
        requires
            old(self).wf(),
        ensures
            *final(self) == *old(self),
            r matches Ok(e) && expr_v(e) == (ExpressionV::IdentifierV { name: old(self)@.cur.1 }),
    {
        let token = self.cur_token.clone();
        Ok(Expression::Identifier { token, value: self.cur_token.literal.clone() })
    }

    /// An integer literal: the current token's digits as a 64-bit value, as
    /// `int_literal_v` states; nothing is consumed.
    fn parse_integer_literal(&mut self) -> (r: Result<Expression, ParseError>)
        requires
            old(self).wf(),
        ensures
            *final(self) == *old(self),
            expr_res(r, int_literal_v(old(self)@)),
    {
        let token = self.cur_token.clone();
        let number = parse_i64(self.cur_token.literal.as_str());
        match number {
            Some(value) => Ok(Expression::IntegerLiteral { token, value }),
            None => Err(ParseError::InvalidIntegerLiteral),
        }
    }

    /// Parse an array literal (executable form of `parse_array_v`).
    fn parse_array_literal(&mut self, fuel: u64) -> (r: Result<Expression, ParseError>)
        requires
            old(self).wf(),
        ensures
            final(self).wf(),
            ({
                let (rv, st2) = parse_array_v(old(self)@, fuel as nat);
                final(self)@ == st2 && expr_res(r, rv)
            }),
        decreases fuel, usize::MAX as int + 3,
    {
        if fuel == 0 {
            return Err(ParseError::NestingTooDeep);
        }
        let token = self.cur_token.clone();
        let elements = match self.parse_expression_list(TokenType::RBRACKET, fuel - 1) {
            Ok(es) => es,
            Err(e) => {
                return Err(e);
            },
        };
        let r = Expression::ArrayLiteral { token, elements };
        proof {
            lemma_exprs_v_rec(elements@);
        }
        Ok(r)
    }

    /// Parse a hash literal (executable form of `parse_hash_v`).
    fn parse_hash_literal(&mut self, fuel: u64) -> (r: Result<Expression, ParseError>)
        requires
            old(self).wf(),
        ensures
            final(self).wf(),
            ({
                let (rv, st2) = parse_hash_v(old(self)@, fuel as nat);
                final(self)@ == st2 && expr_res(r, rv)
            }),
        decreases fuel, usize::MAX as int + 1,
    {
        if fuel == 0 {
            return Err(ParseError::NestingTooDeep);
        }
        let guard = self.lexer.char_count();
        let token = self.cur_token.clone();
        let acc: Vec<(Expression, Expression)> = Vec::new();
        proof {
            assert(epairs_v(acc@) =~= Seq::<(ExpressionV, ExpressionV)>::empty());
        }
        let pairs = match self.parse_hash_rest(fuel, guard, acc) {
            Ok(ps) => ps,
            Err(e) => {
                return Err(e);
            },
        };
        if !self.expect_peek(TokenType::RBRACE) {
            return Err(
                ParseError::ExpectedButFound {
                    expected: TokenType::RBRACE,
                    found: self.peek_token.token_type,
                },
            );
        }
        proof {
            lemma_epairs_v_rec(pairs@);
        }
        let r = Expression::HashLiteral { pairs, token };
        Ok(r)
    }

    /// Parse the remaining pairs of a hash literal, extending `acc`.
    fn parse_hash_rest(
        &mut self,
        fuel: u64,
        guard: usize,
        acc: Vec<(Expression, Expression)>,
    ) -> (r: Result<Vec<(Expression, Expression)>, ParseError>)
        requires
            old(self).wf(),
        ensures
            final(self).wf(),
            ({
                let (rv, st2) = hash_loop_v(old(self)@, fuel as nat, guard as nat, epairs_v(acc@));
                &&& final(self)@ == st2
                &&& match (r, rv) {
                    (Ok(ps), Ok(pv)) => epairs_v(ps@) == pv,
                    (Err(e1), Err(e2)) => e1 == e2,
                    _ => false,
                }
            }),
        decreases fuel, guard,
    {
        if self.peek_token_is(TokenType::RBRACE) {
            return Ok(acc);
        }
        if guard == 0 || fuel == 0 {
            return Err(ParseError::NestingTooDeep);
        }
        self.next_token();
        let key = match self.parse_expression(LOWEST, fuel - 1) {
            Ok(e) => e,
            Err(e) => {
                return Err(e);
            },
        };
        if !self.expect_peek(TokenType::COLON) {
            return Err(
                ParseError::ExpectedButFound {
                    expected: TokenType::COLON,
                    found: self.peek_token.token_type,
                },
            );
        }
        self.next_token();
        let value = match self.parse_expression(LOWEST, fuel - 1) {
            Ok(e) => e,
            Err(e) => {
                return Err(e);
            },
        };
        let ghost pre = acc@;
        let ghost keyv = expr_v(key);
        let ghost valuev = expr_v(value);
        let mut acc2 = acc;
        acc2.push((key, value));
        proof {
            assert(epairs_v(acc2@) =~= epairs_v(pre).push((keyv, valuev)));
        }
        if !self.peek_token_is(TokenType::RBRACE) && !self.peek_token_is(TokenType::COMA) {
            return Err(
                ParseError::ExpectedButFound {
                    expected: TokenType::COMA,
                    found: self.peek_token.token_type,
                },
            );
        }
        if self.peek_token_is(TokenType::COMA) {
            self.next_token();
        }
        self.parse_hash_rest(fuel, guard - 1, acc2)
    }

    /// Parse a comma-separated expression list closed by `end` (executable
    /// form of `parse_list_v`); shared by call arguments and array elements.
    fn parse_expression_list(&mut self, end: TokenType, fuel: u64) -> (r: Result<
        Vec<Expression>,
        ParseError,
    >)
        requires
            old(self).wf(),
        ensures
            final(self).wf(),
            ({
                let (rv, st2) = parse_list_v(old(self)@, end, fuel as nat);
                final(self)@ == st2 && exprs_res(r, rv)
            }),
        decreases fuel, usize::MAX as int + 1,
    {
        if fuel == 0 {
            return Err(ParseError::NestingTooDeep);
        }
        let guard = self.lexer.char_count();
        let mut result: Vec<Expression> = Vec::new();
        if self.peek_token_is(end) {
            self.next_token();
            proof {
                assert(exprs_v(result@) =~= Seq::<ExpressionV>::empty());
            }
            return Ok(result);
        }
        self.next_token();
        let expression = match self.parse_expression(LOWEST, fuel - 1) {
            Ok(e) => e,
            Err(e) => {
                return Err(e);
            },
        };
        let ghost firstv = expr_v(expression);
        result.push(expression);
        proof {
            assert(exprs_v(result@) =~= seq![firstv]);
        }
        let es = match self.parse_list_rest(fuel, guard, result) {
            Ok(v) => v,
            Err(e) => {
                return Err(e);
            },
        };
        if !self.expect_peek(end) {
            return Err(
                ParseError::ExpectedButFound { expected: end, found: self.peek_token.token_type },
            );
        }
        Ok(es)
    }

    /// Parse the comma-continued part of an expression list, extending
    /// `acc`.
    fn parse_list_rest(&mut self, fuel: u64, guard: usize, acc: Vec<Expression>) -> (r: Result<
        Vec<Expression>,
        ParseError,
    >)
        requires
            old(self).wf(),
        ensures
            final(self).wf(),
            ({
                let (rv, st2) = list_loop_v(old(self)@, fuel as nat, guard as nat, exprs_v(acc@));
                final(self)@ == st2 && exprs_res(r, rv)
            }),
        decreases fuel, guard,
    {
        if !self.peek_token_is(TokenType::COMA) {
            return Ok(acc);
        }
        if guard == 0 || fuel == 0 {
            return Err(ParseError::NestingTooDeep);
        }
        self.next_token();
        self.next_token();
        let expression = match self.parse_expression(LOWEST, fuel - 1) {
            Ok(e) => e,
            Err(e) => {
                return Err(e);
            },
        };
        let ghost pre = acc@;
        let ghost ev = expr_v(expression);
        let mut acc2 = acc;
        acc2.push(expression);
        proof {
            assert(exprs_v(acc2@) =~= exprs_v(pre).push(ev));
        }
        self.parse_list_rest(fuel, guard - 1, acc2)
    }

    /// A string literal: the current token's text; nothing is consumed.
    fn parse_string_literal(&mut self) -> (r: Result<Expression, ParseError>)
        requires
            old(self).wf(),
        ensures
            *final(self) == *old(self),
            r matches Ok(e) && expr_v(e) == (ExpressionV::StringLiteralV {
                value: old(self)@.cur.1,
            }),
    {
        let token = self.cur_token.clone();
        Ok(Expression::StringLiteral { token, value: self.cur_token.literal.clone() })
    }

    /// A boolean literal: true exactly for the `true` keyword; nothing is
    /// consumed.
    fn parse_boolean(&mut self) -> (r: Result<Expression, ParseError>)
        requires
            old(self).wf(),
        ensures
            *final(self) == *old(self),
            r matches Ok(e) && expr_v(e) == (ExpressionV::BooleanV {
                value: old(self)@.cur.0 == TokenType::TRUE,
            }),
    {
        let value = self.cur_token_is(TokenType::TRUE);
        Ok(Expression::Boolean { token: self.cur_token.clone(), value })
    }

    /// Parse a `let` statement (executable form of `parse_let_v`).
    fn parse_let_statement(&mut self, fuel: u64) -> (r: Result<Statement, ParseError>)
        requires
            old(self).wf(),
        ensures
            final(self).wf(),
            ({
                let (rv, st2) = parse_let_v(old(self)@, fuel as nat);
                final(self)@ == st2 && stmt_res(r, rv)
            }),
        decreases fuel, 1int,
    {
        if fuel == 0 {
            return Err(ParseError::NestingTooDeep);
        }
        let token = self.cur_token.clone();
        if !self.expect_peek(TokenType::IDENT) {
            Err(
                ParseError::ExpectedButFound {
                    expected: TokenType::IDENT,
                    found: self.peek_token.token_type,
                },
            )
        } else {
            let name = Expression::Identifier {
                token: self.cur_token.clone(),
                value: self.cur_token.literal.clone(),
            };
            if !self.expect_peek(TokenType::ASSIGN) {
                return Err(
                    ParseError::ExpectedButFound {
                        expected: TokenType::ASSIGN,
                        found: self.peek_token.token_type,
                    },
                );
            }
            self.next_token();
            let expression = match self.parse_expression(LOWEST, fuel - 1) {
                Ok(e) => e,
                Err(e) => {
                    return Err(e);
                },
            };
            if self.peek_token_is(TokenType::SEMICOLON) {
                self.next_token();
            }
            Ok(Statement::LetStatement { token, name, value: expression })
        }
    }

    /// Parse a `return` statement (executable form of `parse_return_v`).
    fn parse_return_statement(&mut self, fuel: u64) -> (r: Result<Statement, ParseError>)
        requires
            old(self).wf(),
        ensures
            final(self).wf(),
            ({
                let (rv, st2) = parse_return_v(old(self)@, fuel as nat);
                final(self)@ == st2 && stmt_res(r, rv)
            }),
        decreases fuel, 1int,
    {
        if fuel == 0 {
            return Err(ParseError::NestingTooDeep);
        }
        let token = self.cur_token.clone();
        self.next_token();
        let return_value = match self.parse_expression(LOWEST, fuel - 1) {
            Ok(e) => e,
            Err(e) => {
                return Err(e);
            },
        };
        if self.peek_token_is(TokenType::SEMICOLON) {
            self.next_token();
        }
        Ok(Statement::ReturnStatement { token, return_value })
    }
}

} // verus!
