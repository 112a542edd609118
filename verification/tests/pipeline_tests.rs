use tapir_script::ast::{ExpressionKind, StatementKind};
use tapir_script::compile;
use tapir_script::lexer::tokenise;
use tapir_script::settings::{CompileSettings, Property};
use tapir_script::tokens::{FileId, LexicalErrorKind, Span, Token};
use tapir_script::types::{Fix, Type};

fn int_prop_settings(enable_optimisations: bool) -> CompileSettings {
    CompileSettings {
        properties: vec![Property { name: "int_prop".to_owned(), ty: Type::Int, index: 0 }],
        enable_optimisations,
    }
}

#[test]
fn tokenise_simple_declaration() {
    let (tokens, errors) = tokenise("var x = 1;", FileId::new(0));
    assert!(errors.is_empty());
    assert_eq!(tokens.len(), 5);
    assert!(matches!(tokens[0].token, Token::KeywordVar));
    assert!(matches!(tokens[1].token, Token::Identifier(ref n) if n == "x"));
    assert!(matches!(tokens[2].token, Token::Assign));
    assert!(matches!(tokens[3].token, Token::Integer(1)));
    assert!(matches!(tokens[4].token, Token::Semicolon));
    assert_eq!(tokens[0].span, Span { file_id: FileId::new(0), start: 0, end: 3 });
    assert_eq!(tokens[3].span, Span { file_id: FileId::new(0), start: 8, end: 9 });
}

#[test]
fn tokenise_skips_whitespace_and_comments() {
    let (tokens, errors) = tokenise("  # a comment\n  wait ;", FileId::new(0));
    assert!(errors.is_empty());
    assert_eq!(tokens.len(), 2);
    assert!(matches!(tokens[0].token, Token::KeywordWait));
    assert!(matches!(tokens[1].token, Token::Semicolon));
}

#[test]
fn tokenise_fixed_point_literal() {
    // 1.5 scaled by 256 is 384; -2.25 scaled is -576.
    let (tokens, errors) = tokenise("1.5 -2.25", FileId::new(0));
    assert!(errors.is_empty());
    assert_eq!(tokens.len(), 2);
    assert!(matches!(tokens[0].token, Token::Fix(Fix { raw: 384 })));
    assert!(matches!(tokens[1].token, Token::Fix(Fix { raw: -576 })));
}

#[test]
fn tokenise_operators() {
    let (tokens, errors) = tokenise("+ - * / % // %% ( ) = true false", FileId::new(0));
    assert!(errors.is_empty());
    let kinds: Vec<&Token> = tokens.iter().map(|t| &t.token).collect();
    assert!(matches!(kinds[0], Token::OperatorAdd));
    assert!(matches!(kinds[1], Token::OperatorSub));
    assert!(matches!(kinds[2], Token::OperatorMul));
    assert!(matches!(kinds[3], Token::OperatorDiv));
    assert!(matches!(kinds[4], Token::OperatorMod));
    assert!(matches!(kinds[5], Token::OperatorRealDiv));
    assert!(matches!(kinds[6], Token::OperatorRealMod));
    assert!(matches!(kinds[7], Token::LParen));
    assert!(matches!(kinds[8], Token::RParen));
    assert!(matches!(kinds[9], Token::Assign));
    assert!(matches!(kinds[10], Token::True));
    assert!(matches!(kinds[11], Token::False));
}

#[test]
fn spans_are_byte_offsets() {
    // the comment holds a two-byte character, so the tokens after it sit
    // one byte further than their character position
    let source = "# caf\u{e9}\nwait;";
    let (tokens, errors) = tokenise(source, FileId::new(0));
    assert!(errors.is_empty());
    assert_eq!(tokens.len(), 2);
    let wait_start = source.find("wait").unwrap();
    assert_eq!(tokens[0].span, Span { file_id: FileId::new(0), start: wait_start, end: wait_start + 4 });
    assert_eq!(tokens[1].span, Span { file_id: FileId::new(0), start: wait_start + 4, end: wait_start + 5 });
}

#[test]
fn non_ascii_reports_render_without_panicking() {
    // an invalid two-byte character: its fault span covers both bytes and
    // the renderer quotes the line around it
    let source = "var x\u{e9} = 1;";
    let result = compile(source, FileId::new(0), &int_prop_settings(false));
    let diagnostics = match result {
        Err(d) => d,
        Ok(_) => panic!("expected a failed compile"),
    };
    let cache = tapir_script::format::DiagnosticCache::new(vec![(
        FileId::new(0),
        "script.tapir".to_owned(),
        source.to_owned(),
    )]);
    let rendered = diagnostics.pretty_string(&cache, false);
    assert!(rendered.contains("Invalid token"));
}

#[test]
fn tokenise_reports_invalid_number_and_continues() {
    let (tokens, errors) = tokenise("var x = 99999999999;", FileId::new(0));
    assert_eq!(errors.len(), 1);
    assert_eq!(errors[0].kind, LexicalErrorKind::InvalidNumber);
    // the scan continued: the semicolon after the bad literal is still there
    assert!(matches!(tokens.last().unwrap().token, Token::Semicolon));
}

#[test]
fn tokenise_reports_invalid_token_and_continues() {
    let (tokens, errors) = tokenise("var @ x", FileId::new(0));
    assert_eq!(errors.len(), 1);
    assert_eq!(errors[0].kind, LexicalErrorKind::InvalidToken);
    assert_eq!(errors[0].span, Span { file_id: FileId::new(0), start: 4, end: 5 });
    assert_eq!(tokens.len(), 2);
}

#[test]
fn tokenise_extreme_integers() {
    let (tokens, errors) = tokenise("2147483647 -2147483648", FileId::new(0));
    assert!(errors.is_empty());
    assert!(matches!(tokens[0].token, Token::Integer(2147483647)));
    assert!(matches!(tokens[1].token, Token::Integer(-2147483648)));

    let (_tokens, errors) = tokenise("2147483648", FileId::new(0));
    assert_eq!(errors.len(), 1);
}

#[test]
fn compile_simple_script_succeeds() {
    let checked = compile("var x = 1; x = x + 2;", FileId::new(0), &int_prop_settings(false))
        .unwrap_or_else(|_| panic!("expected a clean compile"));
    // the synthesized top-level function wraps both statements
    assert_eq!(checked.script.functions.len(), 1);
    assert_eq!(checked.script.functions[0].name, "@toplevel");
    assert_eq!(checked.script.functions[0].statements.len(), 2);
    // int_prop is symbol 0, x is symbol 1, both Int
    assert_eq!(
        checked.type_table.type_for_symbol(tapir_script::ast::SymbolId(0)),
        Type::Int,
    );
    assert_eq!(
        checked.type_table.type_for_symbol(tapir_script::ast::SymbolId(1)),
        Type::Int,
    );
    assert_eq!(checked.type_table.num_function_returns(&"@toplevel".to_owned()), 0);
}

#[test]
fn compile_reads_properties() {
    let checked = compile(
        "int_prop = int_prop + 1;",
        FileId::new(0),
        &int_prop_settings(false),
    ).unwrap_or_else(|_| panic!("expected a clean compile"));
    let stmt = &checked.script.functions[0].statements[0];
    // the assignment resolved to the property symbol
    assert_eq!(stmt.symbol, Some(tapir_script::ast::SymbolId(0)));
    let symtab = &checked.symtab;
    let prop = symtab.get_property(tapir_script::ast::SymbolId(0)).unwrap();
    assert_eq!(prop.index, 0);
    assert_eq!(prop.ty, Type::Int);
}

#[test]
fn compile_unknown_variable_fails() {
    let result = compile("x = 1;", FileId::new(0), &int_prop_settings(false));
    let diagnostics = match result {
        Err(d) => d,
        Ok(_) => panic!("expected a failed compile"),
    };
    assert!(diagnostics.has_any());
    assert_eq!(diagnostics.len(), 1);
    let message = diagnostics.message_at(0);
    assert!(matches!(
        &*message.error,
        tapir_script::reporting::MessageKind::CompilerError(
            tapir_script::reporting::CompilerErrorKind::UnknownVariable(name)
        ) if name == "x"
    ));
}

#[test]
fn compile_type_mismatch_fails() {
    let result = compile("var x = 1; x = true;", FileId::new(0), &int_prop_settings(false));
    let diagnostics = match result {
        Err(d) => d,
        Ok(_) => panic!("expected a failed compile"),
    };
    assert_eq!(diagnostics.len(), 1);
    assert!(matches!(
        &*diagnostics.message_at(0).error,
        tapir_script::reporting::MessageKind::CompilerError(
            tapir_script::reporting::CompilerErrorKind::TypeError {
                expected: Type::Int,
                actual: Type::Bool,
            }
        )
    ));
}

#[test]
fn compile_operand_mismatch_fails() {
    let result = compile("var x = 1 + true;", FileId::new(0), &int_prop_settings(false));
    let diagnostics = match result {
        Err(d) => d,
        Ok(_) => panic!("expected a failed compile"),
    };
    assert_eq!(diagnostics.len(), 1);
    assert!(matches!(
        &*diagnostics.message_at(0).error,
        tapir_script::reporting::MessageKind::CompilerError(
            tapir_script::reporting::CompilerErrorKind::BinaryOperatorTypeError {
                lhs_type: Type::Int,
                rhs_type: Type::Bool,
            }
        )
    ));
}

#[test]
fn compile_operator_cannot_handle_bools() {
    let result = compile("var x = true + false;", FileId::new(0), &int_prop_settings(false));
    let diagnostics = match result {
        Err(d) => d,
        Ok(_) => panic!("expected a failed compile"),
    };
    assert_eq!(diagnostics.len(), 1);
    assert!(matches!(
        &*diagnostics.message_at(0).error,
        tapir_script::reporting::MessageKind::CompilerError(
            tapir_script::reporting::CompilerErrorKind::InvalidTypeForBinaryOperator {
                type_: Type::Bool,
            }
        )
    ));
}

#[test]
fn parser_recovers_after_malformed_statement() {
    // the malformed first statement is reported once; the second one
    // still parses and resolves
    let result = compile("var = 5; var y = 2;", FileId::new(0), &int_prop_settings(false));
    let diagnostics = match result {
        Err(d) => d,
        Ok(_) => panic!("expected a failed compile"),
    };
    assert_eq!(diagnostics.len(), 1);
    assert!(matches!(
        &*diagnostics.message_at(0).error,
        tapir_script::reporting::MessageKind::ParseError(
            tapir_script::reporting::ParseError::UnrecognizedToken { .. }
        )
    ));
}

#[test]
fn parser_reports_unexpected_eof() {
    let result = compile("var x = ", FileId::new(0), &int_prop_settings(false));
    let diagnostics = match result {
        Err(d) => d,
        Ok(_) => panic!("expected a failed compile"),
    };
    assert!(matches!(
        &*diagnostics.message_at(0).error,
        tapir_script::reporting::MessageKind::ParseError(
            tapir_script::reporting::ParseError::UnrecognizedEof { .. }
        )
    ));
}

#[test]
fn parser_precedence_and_parens() {
    let checked = compile("var x = 1 + 2 * 3; var y = (1 + 2) * 3;", FileId::new(0), &int_prop_settings(false))
        .unwrap_or_else(|_| panic!("expected a clean compile"));
    let stmts = &checked.script.functions[0].statements;
    // x: Add(1, Mul(2, 3))
    match &stmts[0].kind {
        StatementKind::VariableDeclaration { value, .. } => match &value.kind {
            ExpressionKind::BinaryOperation { lhs, operator, rhs } => {
                assert_eq!(*operator, tapir_script::ast::BinaryOperator::Add);
                assert!(matches!(lhs.kind, ExpressionKind::Integer(1)));
                assert!(matches!(
                    &rhs.kind,
                    ExpressionKind::BinaryOperation { operator: tapir_script::ast::BinaryOperator::Mul, .. }
                ));
            },
            other => panic!("unexpected expression: {:?}", other),
        },
        other => panic!("unexpected statement: {:?}", other),
    }
    // y: Mul(Add(1, 2), 3)
    match &stmts[1].kind {
        StatementKind::VariableDeclaration { value, .. } => match &value.kind {
            ExpressionKind::BinaryOperation { lhs, operator, .. } => {
                assert_eq!(*operator, tapir_script::ast::BinaryOperator::Mul);
                assert!(matches!(
                    &lhs.kind,
                    ExpressionKind::BinaryOperation { operator: tapir_script::ast::BinaryOperator::Add, .. }
                ));
            },
            other => panic!("unexpected expression: {:?}", other),
        },
        other => panic!("unexpected statement: {:?}", other),
    }
}

#[test]
fn rendered_report_quotes_the_source() {
    let source = "var x = @;";
    let result = compile(source, FileId::new(0), &int_prop_settings(false));
    let diagnostics = match result {
        Err(d) => d,
        Ok(_) => panic!("expected a failed compile"),
    };
    let cache = tapir_script::format::DiagnosticCache::new(vec![(
        FileId::new(0),
        "script.tapir".to_owned(),
        source.to_owned(),
    )]);
    let rendered = diagnostics.pretty_string(&cache, false);
    // the renderer works its arguments into a source-quoted report: the
    // title, the file's display name and the source line all appear
    assert!(rendered.contains("Invalid token"));
    assert!(rendered.contains("script.tapir"));
    assert!(rendered.contains("var x = @;"));
    assert!(rendered.len() > "Invalid token".len());
}

#[test]
fn pretty_string_of_clean_compile_is_empty() {
    let checked = compile("var x = 1;", FileId::new(0), &int_prop_settings(false));
    assert!(checked.is_ok());
}
