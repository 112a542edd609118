use vstd::prelude::*;

use crate::ast::{
    sp_top_functions, sp_top_statements, Expression, ExpressionKind, ExpressionKindV, ExpressionV,
    BinaryOperator, Statement, StatementKind, StatementKindV, StatementV, TopLevelStatement,
};
use crate::lexer::{spanned_tokens_model, TokenV};
use crate::reporting::{Diagnostics, Message, MessageKindV, MessageV, ParseError, ParseErrorV};
use crate::tokens::{FileId, Span, SpannedToken, Token};

verus! {

// ---------------------------------------------------------------------------
// The parser: token stream to top-level statements, with one placeholder
// per malformed construct so its siblings still parse. The grammar this
// token set carries: variable declarations, assignments, `wait`, and
// arithmetic expressions with two precedence levels and parentheses.
// ---------------------------------------------------------------------------

pub type TokSeq = Seq<(TokenV, Span)>;

/// A short written name for each token, used in reports about what stood
/// where something else was expected.
pub open spec fn sp_token_name(t: TokenV) -> Seq<char> {
    match t {
        TokenV::KeywordWait => "wait"@,
        TokenV::KeywordVar => "var"@,
        TokenV::Identifier(_) => "an identifier"@,
        TokenV::Integer(_) => "an integer"@,
        TokenV::Fix(_) => "a fixed-point number"@,
        TokenV::True => "true"@,
        TokenV::False => "false"@,
        TokenV::LParen => "("@,
        TokenV::RParen => ")"@,
        TokenV::Assign => "="@,
        TokenV::Semicolon => ";"@,
        TokenV::OperatorAdd => "+"@,
        TokenV::OperatorSub => "-"@,
        TokenV::OperatorMul => "*"@,
        TokenV::OperatorDiv => "/"@,
        TokenV::OperatorMod => "%"@,
        TokenV::OperatorRealDiv => "//"@,
        TokenV::OperatorRealMod => "%%"@,
    }
}

/// Where a fault at the end of the input is anchored: the last token, or
/// the start of the file if there is none.
pub open spec fn sp_eof_span(toks: TokSeq, file_id: FileId) -> Span {
    if toks.len() > 0 {
        toks.last().1
    } else {
        Span { file_id, start: 0, end: 1 }
    }
}

pub open spec fn sp_eof_message(toks: TokSeq, file_id: FileId, expected: Seq<char>) -> MessageV {
    MessageV {
        span: sp_eof_span(toks, file_id),
        error: MessageKindV::ParseError(
            ParseErrorV::UnrecognizedEof { expected: seq![expected] },
        ),
    }
}

pub open spec fn sp_unexpected_message(t: (TokenV, Span), expected: Seq<char>) -> MessageV {
    MessageV {
        span: t.1,
        error: MessageKindV::ParseError(
            ParseErrorV::UnrecognizedToken {
                token: sp_token_name(t.0),
                expected: seq![expected],
            },
        ),
    }
}

pub open spec fn sp_error_expr(span: Span) -> ExpressionV {
    ExpressionV { span, kind: ExpressionKindV::Error, symbol: None, function: None }
}

/// The position just past the next `;` at or after `i`, where parsing
/// resumes after a malformed statement, or the end of the input.
pub open spec fn sp_sync(toks: TokSeq, i: int) -> int
    decreases toks.len() - i,
{
    if i < 0 || i >= toks.len() {
        toks.len() as int
    } else if toks[i].0 is Semicolon {
        i + 1
    } else {
        sp_sync(toks, i + 1)
    }
}

/// A primary expression: a literal, a variable read, or a parenthesized
/// expression. On an unexpected token or the end of input, one report
/// and an `Error` placeholder.
pub open spec fn sp_parse_primary(
    toks: TokSeq,
    i: int,
    msgs: Seq<MessageV>,
    file_id: FileId,
    fuel: nat,
) -> (ExpressionV, int, Seq<MessageV>)
    decreases fuel,
{
    if fuel == 0 {
        (sp_error_expr(sp_eof_span(toks, file_id)), i, msgs)
    } else if i < 0 || i >= toks.len() {
        (
            sp_error_expr(sp_eof_span(toks, file_id)),
            i,
            msgs.push(sp_eof_message(toks, file_id, "an expression"@)),
        )
    } else {
        let (t, span) = toks[i];
        match t {
            TokenV::Integer(v) => (
                ExpressionV {
                    span,
                    kind: ExpressionKindV::Integer(v),
                    symbol: None,
                    function: None,
                },
                i + 1,
                msgs,
            ),
            TokenV::Fix(f) => (
                ExpressionV { span, kind: ExpressionKindV::Fix(f), symbol: None, function: None },
                i + 1,
                msgs,
            ),
            TokenV::True => (
                ExpressionV {
                    span,
                    kind: ExpressionKindV::Bool(true),
                    symbol: None,
                    function: None,
                },
                i + 1,
                msgs,
            ),
            TokenV::False => (
                ExpressionV {
                    span,
                    kind: ExpressionKindV::Bool(false),
                    symbol: None,
                    function: None,
                },
                i + 1,
                msgs,
            ),
            TokenV::Identifier(name) => (
                ExpressionV {
                    span,
                    kind: ExpressionKindV::Variable(name),
                    symbol: None,
                    function: None,
                },
                i + 1,
                msgs,
            ),
            TokenV::LParen => {
                let (e, j, m) = sp_parse_expr(toks, i + 1, msgs, file_id, (fuel - 1) as nat);
                if 0 <= j < toks.len() && toks[j].0 is RParen {
                    (e, j + 1, m)
                } else if 0 <= j < toks.len() {
                    (e, j, m.push(sp_unexpected_message(toks[j], ")"@)))
                } else {
                    (e, j, m.push(sp_eof_message(toks, file_id, ")"@)))
                }
            },
            _ => (
                sp_error_expr(span),
                i,
                msgs.push(sp_unexpected_message(toks[i], "an expression"@)),
            ),
        }
    }
}

pub open spec fn sp_factor_op(t: TokenV) -> Option<BinaryOperator> {
    match t {
        TokenV::OperatorMul => Some(BinaryOperator::Mul),
        TokenV::OperatorDiv => Some(BinaryOperator::Div),
        TokenV::OperatorMod => Some(BinaryOperator::Mod),
        TokenV::OperatorRealDiv => Some(BinaryOperator::RealDiv),
        TokenV::OperatorRealMod => Some(BinaryOperator::RealMod),
        _ => None,
    }
}

pub open spec fn sp_term_op(t: TokenV) -> Option<BinaryOperator> {
    match t {
        TokenV::OperatorAdd => Some(BinaryOperator::Add),
        TokenV::OperatorSub => Some(BinaryOperator::Sub),
        _ => None,
    }
}

pub open spec fn sp_combine(lhs: ExpressionV, op: BinaryOperator, rhs: ExpressionV) -> ExpressionV {
    ExpressionV {
        span: Span { file_id: lhs.span.file_id, start: lhs.span.start, end: rhs.span.end },
        kind: ExpressionKindV::BinaryOperation {
            lhs: Box::new(lhs),
            operator: op,
            rhs: Box::new(rhs),
        },
        symbol: None,
        function: None,
    }
}

/// A term: primaries joined left to right by the tighter operators.
pub open spec fn sp_parse_term(
    toks: TokSeq,
    i: int,
    msgs: Seq<MessageV>,
    file_id: FileId,
    fuel: nat,
) -> (ExpressionV, int, Seq<MessageV>)
    decreases fuel,
{
    if fuel == 0 {
        (sp_error_expr(sp_eof_span(toks, file_id)), i, msgs)
    } else {
        let (lhs, j, m) = sp_parse_primary(toks, i, msgs, file_id, (fuel - 1) as nat);
        sp_parse_term_rest(lhs, toks, j, m, file_id, (fuel - 1) as nat)
    }
}

pub open spec fn sp_parse_term_rest(
    lhs: ExpressionV,
    toks: TokSeq,
    i: int,
    msgs: Seq<MessageV>,
    file_id: FileId,
    fuel: nat,
) -> (ExpressionV, int, Seq<MessageV>)
    decreases fuel,
{
    if fuel == 0 {
        (lhs, i, msgs)
    } else if 0 <= i < toks.len() && sp_factor_op(toks[i].0) is Some {
        let op = sp_factor_op(toks[i].0)->Some_0;
        let (rhs, j, m) = sp_parse_primary(toks, i + 1, msgs, file_id, (fuel - 1) as nat);
        sp_parse_term_rest(sp_combine(lhs, op, rhs), toks, j, m, file_id, (fuel - 1) as nat)
    } else {
        (lhs, i, msgs)
    }
}

/// An expression: terms joined left to right by the looser operators.
pub open spec fn sp_parse_expr(
    toks: TokSeq,
    i: int,
    msgs: Seq<MessageV>,
    file_id: FileId,
    fuel: nat,
) -> (ExpressionV, int, Seq<MessageV>)
    decreases fuel,
{
    if fuel == 0 {
        (sp_error_expr(sp_eof_span(toks, file_id)), i, msgs)
    } else {
        let (lhs, j, m) = sp_parse_term(toks, i, msgs, file_id, (fuel - 1) as nat);
        sp_parse_expr_rest(lhs, toks, j, m, file_id, (fuel - 1) as nat)
    }
}

pub open spec fn sp_parse_expr_rest(
    lhs: ExpressionV,
    toks: TokSeq,
    i: int,
    msgs: Seq<MessageV>,
    file_id: FileId,
    fuel: nat,
) -> (ExpressionV, int, Seq<MessageV>)
    decreases fuel,
{
    if fuel == 0 {
        (lhs, i, msgs)
    } else if 0 <= i < toks.len() && sp_term_op(toks[i].0) is Some {
        let op = sp_term_op(toks[i].0)->Some_0;
        let (rhs, j, m) = sp_parse_term(toks, i + 1, msgs, file_id, (fuel - 1) as nat);
        sp_parse_expr_rest(sp_combine(lhs, op, rhs), toks, j, m, file_id, (fuel - 1) as nat)
    } else {
        (lhs, i, msgs)
    }
}

/// The statement's span: from its first token to the token before the
/// position parsing continues at.
pub open spec fn sp_stmt_span(toks: TokSeq, i: int, next: int, file_id: FileId) -> Span {
    if 0 <= i < toks.len() && i < next <= toks.len() {
        Span { file_id, start: toks[i].1.start, end: toks[next - 1].1.end }
    } else {
        sp_eof_span(toks, file_id)
    }
}

/// One statement. A malformed statement is reported once, parsing skips
/// past the next `;`, and the statement's place is taken by a
/// placeholder (`None`), so everything after it still parses.
pub open spec fn sp_parse_statement(
    toks: TokSeq,
    i: int,
    msgs: Seq<MessageV>,
    file_id: FileId,
    fuel: nat,
) -> (Option<StatementV>, int, Seq<MessageV>)
    decreases fuel,
{
    if fuel == 0 || !(0 <= i < toks.len()) {
        (None, toks.len() as int, msgs)
    } else {
        let (t, span) = toks[i];
        match t {
            TokenV::KeywordWait => {
                if i + 1 < toks.len() && toks[i + 1].0 is Semicolon {
                    (
                        Some(
                            StatementV {
                                span: sp_stmt_span(toks, i, i + 2, file_id),
                                kind: StatementKindV::Wait,
                                symbol: None,
                                function: None,
                                dead: false,
                                loop_has_no_break: false,
                            },
                        ),
                        i + 2,
                        msgs,
                    )
                } else if i + 1 < toks.len() {
                    (
                        None,
                        sp_sync(toks, i + 1),
                        msgs.push(sp_unexpected_message(toks[i + 1], ";"@)),
                    )
                } else {
                    (None, toks.len() as int, msgs.push(sp_eof_message(toks, file_id, ";"@)))
                }
            },
            TokenV::KeywordVar => {
                if i + 1 < toks.len() && toks[i + 1].0 is Identifier {
                    if i + 2 < toks.len() && toks[i + 2].0 is Assign {
                        let ident = toks[i + 1].0->Identifier_0;
                        let (value, j, m) = sp_parse_expr(
                            toks,
                            i + 3,
                            msgs,
                            file_id,
                            (fuel - 1) as nat,
                        );
                        if 0 <= j < toks.len() && toks[j].0 is Semicolon {
                            (
                                Some(
                                    StatementV {
                                        span: sp_stmt_span(toks, i, j + 1, file_id),
                                        kind: StatementKindV::VariableDeclaration {
                                            ident,
                                            value,
                                        },
                                        symbol: None,
                                        function: None,
                                        dead: false,
                                        loop_has_no_break: false,
                                    },
                                ),
                                j + 1,
                                m,
                            )
                        } else if 0 <= j < toks.len() {
                            (
                                None,
                                sp_sync(toks, j),
                                m.push(sp_unexpected_message(toks[j], ";"@)),
                            )
                        } else {
                            (
                                None,
                                toks.len() as int,
                                m.push(sp_eof_message(toks, file_id, ";"@)),
                            )
                        }
                    } else if i + 2 < toks.len() {
                        (
                            None,
                            sp_sync(toks, i + 2),
                            msgs.push(sp_unexpected_message(toks[i + 2], "="@)),
                        )
                    } else {
                        (None, toks.len() as int, msgs.push(sp_eof_message(toks, file_id, "="@)))
                    }
                } else if i + 1 < toks.len() {
                    (
                        None,
                        sp_sync(toks, i + 1),
                        msgs.push(sp_unexpected_message(toks[i + 1], "an identifier"@)),
                    )
                } else {
                    (
                        None,
                        toks.len() as int,
                        msgs.push(sp_eof_message(toks, file_id, "an identifier"@)),
                    )
                }
            },
            TokenV::Identifier(ident) => {
                if i + 1 < toks.len() && toks[i + 1].0 is Assign {
                    let (value, j, m) = sp_parse_expr(toks, i + 2, msgs, file_id, (fuel - 1) as nat);
                    if 0 <= j < toks.len() && toks[j].0 is Semicolon {
                        (
                            Some(
                                StatementV {
                                    span: sp_stmt_span(toks, i, j + 1, file_id),
                                    kind: StatementKindV::Assignment { ident, value },
                                    symbol: None,
                                    function: None,
                                    dead: false,
                                    loop_has_no_break: false,
                                },
                            ),
                            j + 1,
                            m,
                        )
                    } else if 0 <= j < toks.len() {
                        (None, sp_sync(toks, j), m.push(sp_unexpected_message(toks[j], ";"@)))
                    } else {
                        (None, toks.len() as int, m.push(sp_eof_message(toks, file_id, ";"@)))
                    }
                } else if i + 1 < toks.len() {
                    (
                        None,
                        sp_sync(toks, i + 1),
                        msgs.push(sp_unexpected_message(toks[i + 1], "="@)),
                    )
                } else {
                    (None, toks.len() as int, msgs.push(sp_eof_message(toks, file_id, "="@)))
                }
            },
            _ => (
                None,
                sp_sync(toks, i + 1),
                msgs.push(sp_unexpected_message(toks[i], "a statement"@)),
            ),
        }
    }
}

/// A whole program: statements until the input ends. Each malformed
/// statement contributes its report and nothing else.
pub open spec fn sp_parse_program(
    toks: TokSeq,
    i: int,
    msgs: Seq<MessageV>,
    file_id: FileId,
    fuel: nat,
) -> (Seq<StatementV>, Seq<MessageV>)
    decreases fuel,
{
    if fuel == 0 || !(0 <= i < toks.len()) {
        (Seq::empty(), msgs)
    } else {
        let (stmt, j, m) = sp_parse_statement(toks, i, msgs, file_id, (fuel - 1) as nat);
        let j2 = if j > i {
            j
        } else {
            i + 1
        };
        let (rest, m2) = sp_parse_program(toks, j2, m, file_id, (fuel - 1) as nat);
        (
            (match stmt {
                Some(s) => seq![s],
                None => Seq::empty(),
            }) + rest,
            m2,
        )
    }
}

/// The fuel that makes the bounded descent complete: no parsing step
/// looks at a token more than a few times.
pub open spec fn sp_parse_fuel(toks: TokSeq) -> nat {
    if toks.len() < usize::MAX as int / 8 {
        (8 * toks.len() + 8) as nat
    } else {
        usize::MAX as nat
    }
}

/// What parsing a token stream yields: the top-level statements in
/// order, and the log with the report of every malformed construct
/// appended.
pub open spec fn sp_parse(toks: TokSeq, file_id: FileId, msgs: Seq<MessageV>) -> (
    Seq<StatementV>,
    Seq<MessageV>,
) {
    sp_parse_program(toks, 0, msgs, file_id, sp_parse_fuel(toks))
}


// ---------------------------------------------------------------------------
// The executable parser.
// ---------------------------------------------------------------------------

fn token_name(t: &Token) -> (r: String)
    ensures
        r@ == sp_token_name(t.model()),
{
    match t {
        Token::KeywordWait => "wait".to_owned(),
        Token::KeywordVar => "var".to_owned(),
        Token::Identifier(_) => "an identifier".to_owned(),
        Token::Integer(_) => "an integer".to_owned(),
        Token::Fix(_) => "a fixed-point number".to_owned(),
        Token::True => "true".to_owned(),
        Token::False => "false".to_owned(),
        Token::LParen => "(".to_owned(),
        Token::RParen => ")".to_owned(),
        Token::Assign => "=".to_owned(),
        Token::Semicolon => ";".to_owned(),
        Token::OperatorAdd => "+".to_owned(),
        Token::OperatorSub => "-".to_owned(),
        Token::OperatorMul => "*".to_owned(),
        Token::OperatorDiv => "/".to_owned(),
        Token::OperatorMod => "%".to_owned(),
        Token::OperatorRealDiv => "//".to_owned(),
        Token::OperatorRealMod => "%%".to_owned(),
    }
}

fn eof_span(tokens: &Vec<SpannedToken>, file_id: FileId) -> (r: Span)
    ensures
        r == sp_eof_span(spanned_tokens_model(tokens@), file_id),
{
    if tokens.len() > 0 {
        tokens[tokens.len() - 1].span
    } else {
        Span::new(file_id, 0, 1)
    }
}

fn push_eof_message(
    tokens: &Vec<SpannedToken>,
    file_id: FileId,
    expected: &str,
    diagnostics: &mut Diagnostics,
)
    ensures
        final(diagnostics).model() == old(diagnostics).model().push(
            sp_eof_message(spanned_tokens_model(tokens@), file_id, expected@),
        ),
{
    let span = eof_span(tokens, file_id);
    let mut expected_list: Vec<String> = Vec::new();
    expected_list.push(expected.to_owned());
    let message = Message {
        span,
        error: Box::new(
            crate::reporting::MessageKind::ParseError(
                ParseError::UnrecognizedEof { expected: expected_list },
            ),
        ),
    };
    proof {
        assert(crate::reporting::strings_model(message.error->ParseError_0->UnrecognizedEof_expected@)
            =~= seq![expected@]);
    }
    diagnostics.add_message(message);
}

fn push_unexpected_message(t: &SpannedToken, expected: &str, diagnostics: &mut Diagnostics)
    ensures
        final(diagnostics).model() == old(diagnostics).model().push(
            sp_unexpected_message((t.token.model(), t.span), expected@),
        ),
{
    let mut expected_list: Vec<String> = Vec::new();
    expected_list.push(expected.to_owned());
    let message = Message {
        span: t.span,
        error: Box::new(
            crate::reporting::MessageKind::ParseError(
                ParseError::UnrecognizedToken {
                    token: token_name(&t.token),
                    expected: expected_list,
                },
            ),
        ),
    };
    proof {
        assert(crate::reporting::strings_model(message.error->ParseError_0->UnrecognizedToken_expected@)
            =~= seq![expected@]);
    }
    diagnostics.add_message(message);
}

fn error_expr(span: Span) -> (r: Expression)
    ensures
        r.model() == sp_error_expr(span),
{
    Expression { span, kind: ExpressionKind::Error, symbol: None, function: None }
}

fn sync(tokens: &Vec<SpannedToken>, i: usize) -> (r: usize)
    requires
        i <= tokens@.len(),
    ensures
        r as int == sp_sync(spanned_tokens_model(tokens@), i as int),
        i <= r <= tokens@.len(),
    decreases tokens@.len() - i,
{
    if i >= tokens.len() {
        tokens.len()
    } else if matches!(tokens[i].token, Token::Semicolon) {
        i + 1
    } else {
        sync(tokens, i + 1)
    }
}

fn parse_primary(
    tokens: &Vec<SpannedToken>,
    i: usize,
    file_id: FileId,
    diagnostics: &mut Diagnostics,
    fuel: usize,
) -> (r: (Expression, usize))
    requires
        i <= tokens@.len(),
    ensures
        ({
            let (e, j, m) = sp_parse_primary(
                spanned_tokens_model(tokens@),
                i as int,
                old(diagnostics).model(),
                file_id,
                fuel as nat,
            );
            r.0.model() == e && r.1 as int == j && final(diagnostics).model() == m
        }),
        r.1 <= tokens@.len(),
    decreases fuel,
{
    if fuel == 0 {
        return (error_expr(eof_span(tokens, file_id)), i);
    }
    if i >= tokens.len() {
        push_eof_message(tokens, file_id, "an expression", diagnostics);
        return (error_expr(eof_span(tokens, file_id)), i);
    }
    let span = tokens[i].span;
    match &tokens[i].token {
        Token::Integer(v) => (
            Expression { span, kind: ExpressionKind::Integer(*v), symbol: None, function: None },
            i + 1,
        ),
        Token::Fix(f) => (
            Expression { span, kind: ExpressionKind::Fix(*f), symbol: None, function: None },
            i + 1,
        ),
        Token::True => (
            Expression { span, kind: ExpressionKind::Bool(true), symbol: None, function: None },
            i + 1,
        ),
        Token::False => (
            Expression { span, kind: ExpressionKind::Bool(false), symbol: None, function: None },
            i + 1,
        ),
        Token::Identifier(name) => (
            Expression {
                span,
                kind: ExpressionKind::Variable(name.clone()),
                symbol: None,
                function: None,
            },
            i + 1,
        ),
        Token::LParen => {
            let (e, j) = parse_expr(tokens, i + 1, file_id, diagnostics, fuel - 1);
            if j < tokens.len() {
                if matches!(tokens[j].token, Token::RParen) {
                    (e, j + 1)
                } else {
                    push_unexpected_message(&tokens[j], ")", diagnostics);
                    (e, j)
                }
            } else {
                push_eof_message(tokens, file_id, ")", diagnostics);
                (e, j)
            }
        },
        _ => {
            push_unexpected_message(&tokens[i], "an expression", diagnostics);
            (error_expr(span), i)
        },
    }
}

fn factor_op(t: &Token) -> (r: Option<BinaryOperator>)
    ensures
        r == sp_factor_op(t.model()),
{
    match t {
        Token::OperatorMul => Some(BinaryOperator::Mul),
        Token::OperatorDiv => Some(BinaryOperator::Div),
        Token::OperatorMod => Some(BinaryOperator::Mod),
        Token::OperatorRealDiv => Some(BinaryOperator::RealDiv),
        Token::OperatorRealMod => Some(BinaryOperator::RealMod),
        _ => None,
    }
}

fn term_op(t: &Token) -> (r: Option<BinaryOperator>)
    ensures
        r == sp_term_op(t.model()),
{
    match t {
        Token::OperatorAdd => Some(BinaryOperator::Add),
        Token::OperatorSub => Some(BinaryOperator::Sub),
        _ => None,
    }
}

fn combine(lhs: Expression, op: BinaryOperator, rhs: Expression) -> (r: Expression)
    ensures
        r.model() == sp_combine(lhs.model(), op, rhs.model()),
{
    let span = Span { file_id: lhs.span.file_id, start: lhs.span.start, end: rhs.span.end };
    Expression {
        span,
        kind: ExpressionKind::BinaryOperation {
            lhs: Box::new(lhs),
            operator: op,
            rhs: Box::new(rhs),
        },
        symbol: None,
        function: None,
    }
}

fn parse_term(
    tokens: &Vec<SpannedToken>,
    i: usize,
    file_id: FileId,
    diagnostics: &mut Diagnostics,
    fuel: usize,
) -> (r: (Expression, usize))
    requires
        i <= tokens@.len(),
    ensures
        ({
            let (e, j, m) = sp_parse_term(
                spanned_tokens_model(tokens@),
                i as int,
                old(diagnostics).model(),
                file_id,
                fuel as nat,
            );
            r.0.model() == e && r.1 as int == j && final(diagnostics).model() == m
        }),
        r.1 <= tokens@.len(),
    decreases fuel,
{
    if fuel == 0 {
        return (error_expr(eof_span(tokens, file_id)), i);
    }
    let (lhs, j) = parse_primary(tokens, i, file_id, diagnostics, fuel - 1);
    parse_term_rest(lhs, tokens, j, file_id, diagnostics, fuel - 1)
}

fn parse_term_rest(
    lhs: Expression,
    tokens: &Vec<SpannedToken>,
    i: usize,
    file_id: FileId,
    diagnostics: &mut Diagnostics,
    fuel: usize,
) -> (r: (Expression, usize))
    requires
        i <= tokens@.len(),
    ensures
        ({
            let (e, j, m) = sp_parse_term_rest(
                lhs.model(),
                spanned_tokens_model(tokens@),
                i as int,
                old(diagnostics).model(),
                file_id,
                fuel as nat,
            );
            r.0.model() == e && r.1 as int == j && final(diagnostics).model() == m
        }),
        r.1 <= tokens@.len(),
    decreases fuel,
{
    if fuel == 0 {
        return (lhs, i);
    }
    if i < tokens.len() {
        match factor_op(&tokens[i].token) {
            Some(op) => {
                let (rhs, j) = parse_primary(tokens, i + 1, file_id, diagnostics, fuel - 1);
                let combined = combine(lhs, op, rhs);
                return parse_term_rest(combined, tokens, j, file_id, diagnostics, fuel - 1);
            },
            None => {},
        }
    }
    (lhs, i)
}

fn parse_expr(
    tokens: &Vec<SpannedToken>,
    i: usize,
    file_id: FileId,
    diagnostics: &mut Diagnostics,
    fuel: usize,
) -> (r: (Expression, usize))
    requires
        i <= tokens@.len(),
    ensures
        ({
            let (e, j, m) = sp_parse_expr(
                spanned_tokens_model(tokens@),
                i as int,
                old(diagnostics).model(),
                file_id,
                fuel as nat,
            );
            r.0.model() == e && r.1 as int == j && final(diagnostics).model() == m
        }),
        r.1 <= tokens@.len(),
    decreases fuel,
{
    if fuel == 0 {
        return (error_expr(eof_span(tokens, file_id)), i);
    }
    let (lhs, j) = parse_term(tokens, i, file_id, diagnostics, fuel - 1);
    parse_expr_rest(lhs, tokens, j, file_id, diagnostics, fuel - 1)
}

fn parse_expr_rest(
    lhs: Expression,
    tokens: &Vec<SpannedToken>,
    i: usize,
    file_id: FileId,
    diagnostics: &mut Diagnostics,
    fuel: usize,
) -> (r: (Expression, usize))
    requires
        i <= tokens@.len(),
    ensures
        ({
            let (e, j, m) = sp_parse_expr_rest(
                lhs.model(),
                spanned_tokens_model(tokens@),
                i as int,
                old(diagnostics).model(),
                file_id,
                fuel as nat,
            );
            r.0.model() == e && r.1 as int == j && final(diagnostics).model() == m
        }),
        r.1 <= tokens@.len(),
    decreases fuel,
{
    if fuel == 0 {
        return (lhs, i);
    }
    if i < tokens.len() {
        match term_op(&tokens[i].token) {
            Some(op) => {
                let (rhs, j) = parse_term(tokens, i + 1, file_id, diagnostics, fuel - 1);
                let combined = combine(lhs, op, rhs);
                return parse_expr_rest(combined, tokens, j, file_id, diagnostics, fuel - 1);
            },
            None => {},
        }
    }
    (lhs, i)
}

fn stmt_span(tokens: &Vec<SpannedToken>, i: usize, next: usize, file_id: FileId) -> (r: Span)
    ensures
        r == sp_stmt_span(spanned_tokens_model(tokens@), i as int, next as int, file_id),
{
    if i < tokens.len() && i < next && next <= tokens.len() {
        Span {
            file_id,
            start: tokens[i].span.start,
            end: tokens[next - 1].span.end,
        }
    } else {
        eof_span(tokens, file_id)
    }
}

fn parse_statement(
    tokens: &Vec<SpannedToken>,
    i: usize,
    file_id: FileId,
    diagnostics: &mut Diagnostics,
    fuel: usize,
) -> (r: (Option<Statement>, usize))
    requires
        i <= tokens@.len(),
    ensures
        ({
            let (stmt, j, m) = sp_parse_statement(
                spanned_tokens_model(tokens@),
                i as int,
                old(diagnostics).model(),
                file_id,
                fuel as nat,
            );
            (match (r.0, stmt) {
                (Some(sr), Some(sv)) => sr.model() == sv,
                (None, None) => true,
                _ => false,
            }) && r.1 as int == j && final(diagnostics).model() == m
        }),
        r.1 <= tokens@.len(),
    decreases fuel,
{
    if fuel == 0 || i >= tokens.len() {
        return (None, tokens.len());
    }
    match &tokens[i].token {
        Token::KeywordWait => {
            if i + 1 < tokens.len() && matches!(tokens[i + 1].token, Token::Semicolon) {
                let span = stmt_span(tokens, i, i + 2, file_id);
                (
                    Some(
                        Statement {
                            span,
                            kind: StatementKind::Wait,
                            symbol: None,
                            function: None,
                            dead: false,
                            loop_has_no_break: false,
                        },
                    ),
                    i + 2,
                )
            } else if i + 1 < tokens.len() {
                push_unexpected_message(&tokens[i + 1], ";", diagnostics);
                (None, sync(tokens, i + 1))
            } else {
                push_eof_message(tokens, file_id, ";", diagnostics);
                (None, tokens.len())
            }
        },
        Token::KeywordVar => {
            let ident_here = if i + 1 < tokens.len() {
                matches!(tokens[i + 1].token, Token::Identifier(_))
            } else {
                false
            };
            if ident_here {
                let assign_here = if i + 2 < tokens.len() {
                    matches!(tokens[i + 2].token, Token::Assign)
                } else {
                    false
                };
                if assign_here {
                    let ident = match &tokens[i + 1].token {
                        Token::Identifier(name) => name.clone(),
                        _ => unreached(),
                    };
                    let (value, j) = parse_expr(tokens, i + 3, file_id, diagnostics, fuel - 1);
                    if j < tokens.len() && matches!(tokens[j].token, Token::Semicolon) {
                        let span = stmt_span(tokens, i, j + 1, file_id);
                        (
                            Some(
                                Statement {
                                    span,
                                    kind: StatementKind::VariableDeclaration { ident, value },
                                    symbol: None,
                                    function: None,
                                    dead: false,
                                    loop_has_no_break: false,
                                },
                            ),
                            j + 1,
                        )
                    } else if j < tokens.len() {
                        push_unexpected_message(&tokens[j], ";", diagnostics);
                        (None, sync(tokens, j))
                    } else {
                        push_eof_message(tokens, file_id, ";", diagnostics);
                        (None, tokens.len())
                    }
                } else if i + 2 < tokens.len() {
                    push_unexpected_message(&tokens[i + 2], "=", diagnostics);
                    (None, sync(tokens, i + 2))
                } else {
                    push_eof_message(tokens, file_id, "=", diagnostics);
                    (None, tokens.len())
                }
            } else if i + 1 < tokens.len() {
                push_unexpected_message(&tokens[i + 1], "an identifier", diagnostics);
                (None, sync(tokens, i + 1))
            } else {
                push_eof_message(tokens, file_id, "an identifier", diagnostics);
                (None, tokens.len())
            }
        },
        Token::Identifier(name) => {
            if i + 1 < tokens.len() && matches!(tokens[i + 1].token, Token::Assign) {
                let ident = name.clone();
                let (value, j) = parse_expr(tokens, i + 2, file_id, diagnostics, fuel - 1);
                if j < tokens.len() && matches!(tokens[j].token, Token::Semicolon) {
                    let span = stmt_span(tokens, i, j + 1, file_id);
                    (
                        Some(
                            Statement {
                                span,
                                kind: StatementKind::Assignment { ident, value },
                                symbol: None,
                                function: None,
                                dead: false,
                                loop_has_no_break: false,
                            },
                        ),
                        j + 1,
                    )
                } else if j < tokens.len() {
                    push_unexpected_message(&tokens[j], ";", diagnostics);
                    (None, sync(tokens, j))
                } else {
                    push_eof_message(tokens, file_id, ";", diagnostics);
                    (None, tokens.len())
                }
            } else if i + 1 < tokens.len() {
                push_unexpected_message(&tokens[i + 1], "=", diagnostics);
                (None, sync(tokens, i + 1))
            } else {
                push_eof_message(tokens, file_id, "=", diagnostics);
                (None, tokens.len())
            }
        },
        _ => {
            push_unexpected_message(&tokens[i], "a statement", diagnostics);
            (None, sync(tokens, i + 1))
        },
    }
}

/// Parses a whole token stream into top-level items: one item per
/// well-formed statement, one placeholder per malformed one, and one
/// report for each fault; a fault never stops the parse.
pub fn parse_top_level(
    tokens: &Vec<SpannedToken>,
    file_id: FileId,
    diagnostics: &mut Diagnostics,
) -> (r: Vec<TopLevelStatement>)
    ensures
        ({
            let (stmts, m) = sp_parse(
                spanned_tokens_model(tokens@),
                file_id,
                old(diagnostics).model(),
            );
            sp_top_statements(r@) == stmts && sp_top_functions(r@) == Seq::<
                crate::ast::FunctionV,
            >::empty() && final(diagnostics).model() == m
        }),
{
    let fuel: usize = if tokens.len() < usize::MAX / 8 {
        8 * tokens.len() + 8
    } else {
        usize::MAX
    };
    let ghost toks = spanned_tokens_model(tokens@);
    let ghost m0 = diagnostics.model();
    proof {
        assert(fuel as nat == sp_parse_fuel(toks));
    }
    parse_program_rec(tokens, 0, file_id, diagnostics, fuel)
}

/// Splitting a top-level sequence at its head.
proof fn lemma_top_level_prepend(t: TopLevelStatement, ts: Seq<TopLevelStatement>)
    ensures
        sp_top_statements(seq![t] + ts) == (match t {
            TopLevelStatement::Statement(s) => seq![s.model()],
            _ => Seq::<StatementV>::empty(),
        }) + sp_top_statements(ts),
        sp_top_functions(seq![t] + ts) == (match t {
            TopLevelStatement::FunctionDefinition(f) => seq![f.model()],
            _ => Seq::<crate::ast::FunctionV>::empty(),
        }) + sp_top_functions(ts),
{
    let v = seq![t] + ts;
    assert(v[0] == t);
    assert(v.skip(1) =~= ts);
}

/// The program loop behind `parse_top_level`.
fn parse_program_rec(
    tokens: &Vec<SpannedToken>,
    i: usize,
    file_id: FileId,
    diagnostics: &mut Diagnostics,
    fuel: usize,
) -> (r: Vec<TopLevelStatement>)
    requires
        i <= tokens@.len(),
    ensures
        ({
            let (stmts, m) = sp_parse_program(
                spanned_tokens_model(tokens@),
                i as int,
                old(diagnostics).model(),
                file_id,
                fuel as nat,
            );
            sp_top_statements(r@) == stmts && sp_top_functions(r@) == Seq::<
                crate::ast::FunctionV,
            >::empty() && final(diagnostics).model() == m
        }),
    decreases fuel,
{
    if fuel == 0 || i >= tokens.len() {
        let r: Vec<TopLevelStatement> = Vec::new();
        proof {
            assert(sp_top_statements(r@) =~= Seq::<StatementV>::empty());
            assert(sp_top_functions(r@) =~= Seq::<crate::ast::FunctionV>::empty());
        }
        return r;
    }
    let (stmt, j) = parse_statement(tokens, i, file_id, diagnostics, fuel - 1);
    let j2 = if j > i {
        j
    } else {
        i + 1
    };
    let mut rest = parse_program_rec(tokens, j2, file_id, diagnostics, fuel - 1);
    let ghost pre = rest@;
    let item = match stmt {
        Some(statement) => TopLevelStatement::Statement(statement),
        None => TopLevelStatement::Error,
    };
    let ghost itemg = item;
    rest.insert(0, item);
    proof {
        assert(rest@ =~= seq![itemg] + pre);
        lemma_top_level_prepend(itemg, pre);
        assert(Seq::<crate::ast::FunctionV>::empty() + Seq::<crate::ast::FunctionV>::empty()
            =~= Seq::<crate::ast::FunctionV>::empty());
    }
    rest
}

} // verus!
