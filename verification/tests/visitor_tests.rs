use tapir_script::ast::{
    ExpressionKind, Function, FunctionModifiers, FunctionReturn, StatementKind, SymbolId,
    TypeWithLocation,
};
use tapir_script::loop_visitor::visit_loop_check;
use tapir_script::reporting::{CompilerErrorKind, Diagnostics, MessageKind};
use tapir_script::settings::{CompileSettings, Property};
use tapir_script::symtab::SymTabVisitor;
use tapir_script::tokens::{FileId, Span};
use tapir_script::type_visitor::TypeVisitor;
use tapir_script::types::Type;

fn sp(start: usize, end: usize) -> Span {
    Span::new(FileId::new(0), start, end)
}

fn no_property_settings() -> CompileSettings {
    CompileSettings { properties: vec![], enable_optimisations: false }
}

fn function(name: &str, span: Span, returns: Vec<TypeWithLocation>, ret_span: Span, statements: Vec<tapir_script::ast::Statement>) -> Function {
    Function {
        name: name.to_owned(),
        span,
        statements,
        arguments: vec![],
        return_types: FunctionReturn { types: returns, span: ret_span },
        modifiers: FunctionModifiers { is_event_handler: None },
        function_id: None,
    }
}

/// Runs the front-end visitors over a prepared set of functions and
/// returns the log and the finished type table.
fn run_pipeline(
    mut functions: Vec<Function>,
    settings: &CompileSettings,
) -> (Diagnostics, tapir_script::type_visitor::TypeTable, Vec<Function>) {
    let mut diagnostics = Diagnostics::new();
    let mut symtab_visitor = SymTabVisitor::new(settings, &mut functions, &mut diagnostics);
    let mut type_visitor = TypeVisitor::new(settings, &functions);
    let mut done = Vec::new();
    while !functions.is_empty() {
        let f = functions.remove(0);
        let f = visit_loop_check(f);
        let f = symtab_visitor.visit_function(f, &mut diagnostics);
        let f = type_visitor.visit_function(f, &mut diagnostics);
        done.push(f);
    }
    let symtab = symtab_visitor.into_symtab();
    let type_table = type_visitor.into_type_table(&symtab, &mut diagnostics);
    (diagnostics, type_table, done)
}

fn count_missing_return(diagnostics: &Diagnostics) -> usize {
    let mut count = 0;
    let mut i = 0;
    while i < diagnostics.len() {
        if matches!(
            &*diagnostics.message_at(i).error,
            MessageKind::CompilerError(CompilerErrorKind::FunctionDoesNotHaveReturn { .. })
        ) {
            count += 1;
        }
        i += 1;
    }
    count
}

#[test]
fn missing_return_is_reported_exactly_once() {
    // fn f(cond: Bool) -> Int { if cond { return 1; } }
    let ret_span = sp(10, 13);
    let body = vec![
        StatementKind::If {
            condition: ExpressionKind::Variable("cond".to_owned()).with_span(FileId::new(0), 20, 24),
            true_block: vec![
                StatementKind::Return {
                    values: vec![ExpressionKind::Integer(1).with_span(FileId::new(0), 34, 35)],
                }.with_span(FileId::new(0), 27, 36),
            ],
            false_block: vec![],
        }.with_span(FileId::new(0), 17, 38),
    ];
    let mut f = function("f", sp(0, 40), vec![TypeWithLocation { t: Type::Int, span: ret_span }], ret_span, body);
    f.arguments.push(tapir_script::ast::FunctionArgument {
        span: sp(5, 9),
        t: TypeWithLocation { t: Type::Bool, span: sp(5, 9) },
        name: tapir_script::ast::MaybeResolved::Unresolved("cond".to_owned()),
    });

    let (diagnostics, _table, _fs) = run_pipeline(vec![f], &no_property_settings());
    assert_eq!(diagnostics.len(), 1);
    assert_eq!(count_missing_return(&diagnostics), 1);
    // the report is anchored at the declared return types' span
    assert_eq!(diagnostics.message_at(0).span, ret_span);
    match &*diagnostics.message_at(0).error {
        MessageKind::CompilerError(CompilerErrorKind::FunctionDoesNotHaveReturn {
            name,
            return_location,
        }) => {
            assert_eq!(name, "f");
            assert_eq!(*return_location, ret_span);
        },
        other => panic!("unexpected report: {:?}", other),
    }
}

#[test]
fn loop_without_break_satisfies_the_return_proof() {
    // fn f() -> Int { loop { wait; } }  -- the loop never falls through
    let ret_span = sp(8, 11);
    let body = vec![
        StatementKind::Loop {
            block: vec![StatementKind::Wait.with_span(FileId::new(0), 21, 26)],
        }.with_span(FileId::new(0), 14, 28),
    ];
    let f = function("f", sp(0, 30), vec![TypeWithLocation { t: Type::Int, span: ret_span }], ret_span, body);
    let (diagnostics, _table, _fs) = run_pipeline(vec![f], &no_property_settings());
    assert_eq!(diagnostics.len(), 0);
}

#[test]
fn duplicate_function_reported_once_and_first_signature_wins() {
    // two functions named foo; a call to foo resolves to the first one
    let first_span = sp(0, 10);
    let second_span = sp(20, 30);
    let foo1 = function(
        "foo",
        first_span,
        vec![TypeWithLocation { t: Type::Int, span: sp(6, 9) }],
        sp(6, 9),
        vec![
            StatementKind::Return {
                values: vec![ExpressionKind::Integer(1).with_span(FileId::new(0), 7, 8)],
            }.with_span(FileId::new(0), 5, 9),
        ],
    );
    let foo2 = function("foo", second_span, vec![], sp(20, 21), vec![]);
    let toplevel = function(
        "@toplevel",
        sp(40, 41),
        vec![],
        sp(40, 41),
        vec![
            StatementKind::VariableDeclaration {
                ident: "x".to_owned(),
                value: ExpressionKind::Call { name: "foo".to_owned(), arguments: vec![] }
                    .with_span(FileId::new(0), 50, 55),
            }.with_span(FileId::new(0), 42, 56),
        ],
    );

    let (diagnostics, table, fs) = run_pipeline(
        vec![toplevel, foo1, foo2],
        &no_property_settings(),
    );

    assert_eq!(diagnostics.len(), 1);
    match &*diagnostics.message_at(0).error {
        MessageKind::CompilerError(CompilerErrorKind::FunctionAlreadyDeclared {
            function_name,
            old_function_declaration,
            new_function_declaration,
        }) => {
            assert_eq!(function_name, "foo");
            assert_eq!(*old_function_declaration, first_span);
            assert_eq!(*new_function_declaration, second_span);
        },
        other => panic!("unexpected report: {:?}", other),
    }

    // the call bound to the first declaration, whose signature returns Int
    match &fs[0].statements[0].kind {
        StatementKind::VariableDeclaration { value, .. } => {
            assert_eq!(value.function, Some(tapir_script::ast::FunctionId(1)));
        },
        other => panic!("unexpected statement: {:?}", other),
    }
    assert_eq!(table.type_for_symbol(SymbolId(0)), Type::Int);
    assert_eq!(table.num_function_returns(&"foo".to_owned()), 1);
}

#[test]
fn unknown_function_is_reported() {
    let toplevel = function(
        "@toplevel",
        sp(0, 1),
        vec![],
        sp(0, 1),
        vec![
            StatementKind::Call { name: "nope".to_owned(), arguments: vec![] }
                .with_span(FileId::new(0), 2, 9),
        ],
    );
    let (diagnostics, _table, _fs) = run_pipeline(vec![toplevel], &no_property_settings());
    assert_eq!(diagnostics.len(), 1);
    assert!(matches!(
        &*diagnostics.message_at(0).error,
        MessageKind::CompilerError(CompilerErrorKind::UnknownFunction { name }) if name == "nope"
    ));
}

#[test]
fn wrong_argument_count_is_reported() {
    let mut callee = function("foo", sp(0, 10), vec![], sp(6, 9), vec![]);
    callee.arguments.push(tapir_script::ast::FunctionArgument {
        span: sp(4, 5),
        t: TypeWithLocation { t: Type::Int, span: sp(4, 5) },
        name: tapir_script::ast::MaybeResolved::Unresolved("a".to_owned()),
    });
    let toplevel = function(
        "@toplevel",
        sp(20, 21),
        vec![],
        sp(20, 21),
        vec![
            StatementKind::Call { name: "foo".to_owned(), arguments: vec![] }
                .with_span(FileId::new(0), 22, 29),
        ],
    );
    let (diagnostics, _table, _fs) = run_pipeline(vec![toplevel, callee], &no_property_settings());
    assert_eq!(diagnostics.len(), 1);
    match &*diagnostics.message_at(0).error {
        MessageKind::CompilerError(CompilerErrorKind::IncorrectNumberOfArguments {
            expected,
            actual,
            function_name,
            ..
        }) => {
            assert_eq!(*expected, 1);
            assert_eq!(*actual, 0);
            assert_eq!(function_name, "foo");
        },
        other => panic!("unexpected report: {:?}", other),
    }
}

#[test]
fn wrong_return_arity_is_reported() {
    let ret_span = sp(8, 11);
    let f = function(
        "f",
        sp(0, 20),
        vec![TypeWithLocation { t: Type::Int, span: ret_span }],
        ret_span,
        vec![StatementKind::Return { values: vec![] }.with_span(FileId::new(0), 14, 20)],
    );
    let (diagnostics, _table, _fs) = run_pipeline(vec![f], &no_property_settings());
    assert_eq!(diagnostics.len(), 1);
    match &*diagnostics.message_at(0).error {
        MessageKind::CompilerError(CompilerErrorKind::IncorrectNumberOfReturnTypes {
            expected,
            actual,
            function_return_location,
        }) => {
            assert_eq!(*expected, 1);
            assert_eq!(*actual, 0);
            assert_eq!(*function_return_location, ret_span);
        },
        other => panic!("unexpected report: {:?}", other),
    }
}

#[test]
fn mismatching_return_type_is_reported() {
    let ret_span = sp(8, 11);
    let f = function(
        "f",
        sp(0, 20),
        vec![TypeWithLocation { t: Type::Int, span: ret_span }],
        ret_span,
        vec![
            StatementKind::Return {
                values: vec![ExpressionKind::Bool(true).with_span(FileId::new(0), 15, 19)],
            }.with_span(FileId::new(0), 14, 20),
        ],
    );
    let (diagnostics, _table, _fs) = run_pipeline(vec![f], &no_property_settings());
    assert_eq!(diagnostics.len(), 1);
    assert!(matches!(
        &*diagnostics.message_at(0).error,
        MessageKind::CompilerError(CompilerErrorKind::MismatchingReturnTypes {
            expected: Type::Int,
            actual: Type::Bool,
            ..
        })
    ));
}

#[test]
fn call_expression_needs_exactly_one_value() {
    let callee = function("foo", sp(0, 10), vec![], sp(6, 9), vec![]);
    let toplevel = function(
        "@toplevel",
        sp(20, 21),
        vec![],
        sp(20, 21),
        vec![
            StatementKind::VariableDeclaration {
                ident: "x".to_owned(),
                value: ExpressionKind::Call { name: "foo".to_owned(), arguments: vec![] }
                    .with_span(FileId::new(0), 30, 35),
            }.with_span(FileId::new(0), 22, 36),
        ],
    );
    let (diagnostics, _table, _fs) = run_pipeline(vec![toplevel, callee], &no_property_settings());
    assert_eq!(diagnostics.len(), 1);
    assert!(matches!(
        &*diagnostics.message_at(0).error,
        MessageKind::CompilerError(
            CompilerErrorKind::FunctionMustReturnOneValueInThisLocation { actual: 0 },
        )
    ));
}

#[test]
fn if_condition_must_be_bool() {
    let toplevel = function(
        "@toplevel",
        sp(0, 1),
        vec![],
        sp(0, 1),
        vec![
            StatementKind::If {
                condition: ExpressionKind::Integer(1).with_span(FileId::new(0), 5, 6),
                true_block: vec![],
                false_block: vec![],
            }.with_span(FileId::new(0), 2, 10),
        ],
    );
    let (diagnostics, _table, _fs) = run_pipeline(vec![toplevel], &no_property_settings());
    assert_eq!(diagnostics.len(), 1);
    assert!(matches!(
        &*diagnostics.message_at(0).error,
        MessageKind::CompilerError(CompilerErrorKind::InvalidTypeForIfCondition { got: Type::Int })
    ));
}

#[test]
fn never_typed_symbol_is_reported_at_finalization() {
    // the binding after the return is never reached by the type checker,
    // so its symbol is reported as UnknownType only when the table closes
    let toplevel = function(
        "@toplevel",
        sp(0, 1),
        vec![],
        sp(0, 1),
        vec![
            StatementKind::Return { values: vec![] }.with_span(FileId::new(0), 2, 9),
            StatementKind::VariableDeclaration {
                ident: "z".to_owned(),
                value: ExpressionKind::Integer(1).with_span(FileId::new(0), 18, 19),
            }.with_span(FileId::new(0), 10, 20),
        ],
    );
    let (diagnostics, _table, _fs) = run_pipeline(vec![toplevel], &no_property_settings());
    assert_eq!(diagnostics.len(), 1);
    assert!(matches!(
        &*diagnostics.message_at(0).error,
        MessageKind::CompilerError(CompilerErrorKind::UnknownType(name)) if name == "z"
    ));
}

#[test]
fn shadowing_resolves_to_the_innermost_binding() {
    // var s = 1; if true { var s = 2; s = 3; } s = 4;
    // the inner assignment binds to the inner symbol, the outer to the outer
    let settings = no_property_settings();
    let toplevel = function(
        "@toplevel",
        sp(0, 1),
        vec![],
        sp(0, 1),
        vec![
            StatementKind::VariableDeclaration {
                ident: "s".to_owned(),
                value: ExpressionKind::Integer(1).with_span(FileId::new(0), 8, 9),
            }.with_span(FileId::new(0), 2, 10),
            StatementKind::If {
                condition: ExpressionKind::Bool(true).with_span(FileId::new(0), 14, 18),
                true_block: vec![
                    StatementKind::VariableDeclaration {
                        ident: "s".to_owned(),
                        value: ExpressionKind::Integer(2).with_span(FileId::new(0), 27, 28),
                    }.with_span(FileId::new(0), 20, 29),
                    StatementKind::Assignment {
                        ident: "s".to_owned(),
                        value: ExpressionKind::Integer(3).with_span(FileId::new(0), 34, 35),
                    }.with_span(FileId::new(0), 30, 36),
                ],
                false_block: vec![],
            }.with_span(FileId::new(0), 11, 38),
            StatementKind::Assignment {
                ident: "s".to_owned(),
                value: ExpressionKind::Integer(4).with_span(FileId::new(0), 43, 44),
            }.with_span(FileId::new(0), 39, 45),
        ],
    );
    let (diagnostics, _table, fs) = run_pipeline(vec![toplevel], &settings);
    assert_eq!(diagnostics.len(), 0);
    let outer_symbol = fs[0].statements[0].symbol;
    match &fs[0].statements[1].kind {
        StatementKind::If { true_block, .. } => {
            let inner_symbol = true_block[0].symbol;
            assert!(inner_symbol.is_some());
            assert_ne!(inner_symbol, outer_symbol);
            assert_eq!(true_block[1].symbol, inner_symbol);
        },
        other => panic!("unexpected statement: {:?}", other),
    }
    assert_eq!(fs[0].statements[2].symbol, outer_symbol);
}
