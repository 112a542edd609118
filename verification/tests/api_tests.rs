use tapir_script::ast::{
    BinaryOperator, ExpressionKind, FunctionModifiers, FunctionReturn, StatementKind,
    TopLevelStatement,
};
use tapir_script::ast::Script;
use tapir_script::reporting::{CompilerErrorKind, MessageKind, ParseError};
use tapir_script::settings::{CompileSettings, Property};
use tapir_script::tokens::{FileId, LexicalErrorKind, Span};
use tapir_script::types::{Fix, Type};

#[test]
fn spans_carry_their_fields() {
    let span = Span::new(FileId::new(3), 4, 9);
    assert_eq!(span.file_id, FileId::new(3));
    assert_eq!(span.start, 4);
    assert_eq!(span.end, 9);
}

#[test]
fn lexical_error_with_span() {
    let error = LexicalErrorKind::InvalidToken.with_span(FileId::new(0), 2, 3);
    assert_eq!(error.kind, LexicalErrorKind::InvalidToken);
    assert_eq!(error.span, Span::new(FileId::new(0), 2, 3));
}

#[test]
fn fix_from_raw_keeps_the_raw_value() {
    let f = Fix::from_raw(-384);
    assert_eq!(f.raw, -384);
}

#[test]
fn message_constructors_anchor_spans() {
    let span = Span::new(FileId::new(0), 1, 2);
    let message = CompilerErrorKind::UnknownVariable("q".to_owned()).into_message(span);
    assert_eq!(message.span, span);

    let moved = message.with_new_span(Span::new(FileId::new(0), 5, 6));
    assert_eq!(moved.span, Span::new(FileId::new(0), 5, 6));

    let parse = ParseError::ExtraToken { token: ";".to_owned() }.with_span(FileId::new(0), 7, 8);
    assert_eq!(parse.span, Span::new(FileId::new(0), 7, 8));
    assert!(matches!(&*parse.error, MessageKind::ParseError(ParseError::ExtraToken { .. })));

    let kinded = MessageKind::LexerError(LexicalErrorKind::InvalidNumber).with_span(
        FileId::new(0),
        9,
        10,
    );
    assert!(matches!(&*kinded.error, MessageKind::LexerError(LexicalErrorKind::InvalidNumber)));
}

#[test]
fn binary_operators_specialize_on_fix() {
    let mut op = BinaryOperator::Mul;
    op.update_type_with_lhs(Type::Fix);
    assert_eq!(op, BinaryOperator::FixMul);

    let mut op = BinaryOperator::Div;
    op.update_type_with_lhs(Type::Fix);
    assert_eq!(op, BinaryOperator::FixDiv);

    let mut op = BinaryOperator::Mul;
    op.update_type_with_lhs(Type::Int);
    assert_eq!(op, BinaryOperator::Mul);

    assert!(BinaryOperator::Add.can_handle_type(Type::Int));
    assert!(BinaryOperator::Add.can_handle_type(Type::Fix));
    assert!(!BinaryOperator::Add.can_handle_type(Type::Bool));
    assert!(BinaryOperator::EqEq.can_handle_type(Type::Bool));
    assert!(!BinaryOperator::EqEq.can_handle_type(Type::Error));
    assert!(BinaryOperator::FixMul.can_handle_type(Type::Fix));
    assert!(!BinaryOperator::FixMul.can_handle_type(Type::Int));

    assert_eq!(BinaryOperator::Add.resulting_type(Type::Int, Type::Int), Type::Int);
    assert_eq!(BinaryOperator::Lt.resulting_type(Type::Int, Type::Int), Type::Bool);
    assert_eq!(BinaryOperator::Then.resulting_type(Type::Int, Type::Bool), Type::Bool);
}

#[test]
fn from_top_level_wraps_statements_and_drops_error_items() {
    let file_id = FileId::new(0);
    let statement = StatementKind::Wait.with_span(file_id, 0, 5);
    let function = tapir_script::ast::Function {
        name: "f".to_owned(),
        span: Span::new(file_id, 6, 20),
        statements: vec![],
        arguments: vec![],
        return_types: FunctionReturn { types: vec![], span: Span::new(file_id, 6, 7) },
        modifiers: FunctionModifiers { is_event_handler: None },
        function_id: None,
    };
    let script = Script::from_top_level(
        vec![
            TopLevelStatement::Statement(statement),
            TopLevelStatement::Error,
            TopLevelStatement::FunctionDefinition(function),
        ],
        file_id,
    );
    assert_eq!(script.functions.len(), 2);
    assert_eq!(script.functions[0].name, "@toplevel");
    assert_eq!(script.functions[0].statements.len(), 1);
    assert!(matches!(script.functions[0].statements[0].kind, StatementKind::Wait));
    assert_eq!(script.functions[1].name, "f");
}

#[test]
fn event_handlers_are_listed_by_name() {
    let settings = CompileSettings {
        properties: vec![Property { name: "int_prop".to_owned(), ty: Type::Int, index: 0 }],
        enable_optimisations: false,
    };
    let checked = tapir_script::compile("var x = 1;", FileId::new(0), &settings)
        .unwrap_or_else(|_| panic!("expected a clean compile"));
    // the synthesized top-level function is no event handler
    assert_eq!(checked.event_handlers().len(), 0);

    let file_id = FileId::new(0);
    let handler = tapir_script::ast::Function {
        name: "on_hit".to_owned(),
        span: Span::new(file_id, 0, 10),
        statements: vec![],
        arguments: vec![tapir_script::ast::FunctionArgument {
            span: Span::new(file_id, 3, 4),
            t: tapir_script::ast::TypeWithLocation { t: Type::Int, span: Span::new(file_id, 3, 4) },
            name: tapir_script::ast::MaybeResolved::Unresolved("damage".to_owned()),
        }],
        return_types: FunctionReturn { types: vec![], span: Span::new(file_id, 0, 1) },
        modifiers: FunctionModifiers { is_event_handler: Some(Span::new(file_id, 0, 5)) },
        function_id: None,
    };
    let mut resolved_handler = tapir_script::ast::Function {
        name: "on_tick".to_owned(),
        span: Span::new(file_id, 11, 20),
        statements: vec![],
        arguments: vec![tapir_script::ast::FunctionArgument {
            span: Span::new(file_id, 13, 14),
            t: tapir_script::ast::TypeWithLocation {
                t: Type::Int,
                span: Span::new(file_id, 13, 14),
            },
            // symbol 1 of the compiled script above is the local `x`
            name: tapir_script::ast::MaybeResolved::Resolved(tapir_script::ast::SymbolId(1)),
        }],
        return_types: FunctionReturn { types: vec![], span: Span::new(file_id, 11, 12) },
        modifiers: FunctionModifiers { is_event_handler: Some(Span::new(file_id, 11, 12)) },
        function_id: None,
    };
    resolved_handler.function_id = Some(tapir_script::ast::FunctionId(1));
    let with_handler = tapir_script::CheckedScript {
        script: Script { functions: vec![handler, resolved_handler] },
        symtab: checked.symtab,
        type_table: checked.type_table,
    };
    let handlers = with_handler.event_handlers();
    assert_eq!(handlers.len(), 2);
    assert_eq!(handlers[0].name, "on_hit");
    assert_eq!(handlers[0].arguments.len(), 1);
    assert_eq!(handlers[0].arguments[0].0, "damage");
    assert_eq!(handlers[0].arguments[0].1, Type::Int);
    // a resolved argument reads its written name back off the registry
    assert_eq!(handlers[1].name, "on_tick");
    assert_eq!(handlers[1].arguments[0].0, "x");
    assert_eq!(handlers[1].arguments[0].1, Type::Int);
}

#[test]
fn pretty_print_renders_the_tree() {
    let settings = CompileSettings {
        properties: vec![Property { name: "int_prop".to_owned(), ty: Type::Int, index: 0 }],
        enable_optimisations: false,
    };
    let checked = tapir_script::compile(
        "var x = 1 + 2; wait;",
        FileId::new(0),
        &settings,
    ).unwrap_or_else(|_| panic!("expected a clean compile"));
    let text = checked.script.pretty_print();
    assert_eq!(text, "fn @toplevel {\n  var x = (1 + 2);\n  wait;\n}\n");

    // nesting indents: a loop statement built directly
    let the_loop = StatementKind::Loop {
        block: vec![StatementKind::Wait.with_span(FileId::new(0), 2, 3)],
    }.with_span(FileId::new(0), 0, 5);
    let script = Script {
        functions: vec![tapir_script::ast::Function {
            name: "f".to_owned(),
            span: Span::new(FileId::new(0), 0, 6),
            statements: vec![the_loop],
            arguments: vec![],
            return_types: FunctionReturn { types: vec![], span: Span::new(FileId::new(0), 0, 1) },
            modifiers: FunctionModifiers { is_event_handler: None },
            function_id: None,
        }],
    };
    assert_eq!(script.pretty_print(), "fn f {\n  loop {\n    wait;\n  }\n}\n");
}

#[test]
fn numbers_render_in_decimal() {
    assert_eq!(tapir_script::format::usize_to_string(0), "0");
    assert_eq!(tapir_script::format::usize_to_string(7), "7");
    assert_eq!(tapir_script::format::usize_to_string(42), "42");
    assert_eq!(tapir_script::format::usize_to_string(1234567890), "1234567890");
}
