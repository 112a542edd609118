use tapir_script::ast::{ExpressionKind, StatementKind};
use tapir_script::compile;
use tapir_script::constant_propagation::{constant_propagation, ConstantPropagationResult};
use tapir_script::dead_code::{dead_code_eliminate, eliminate_after_control_flow_diverge};
use tapir_script::settings::{CompileSettings, Property};
use tapir_script::tokens::FileId;
use tapir_script::types::Type;

fn int_prop_settings(enable_optimisations: bool) -> CompileSettings {
    CompileSettings {
        properties: vec![Property { name: "int_prop".to_owned(), ty: Type::Int, index: 0 }],
        enable_optimisations,
    }
}

#[test]
fn propagation_substitutes_and_elimination_drops_unread_binding() {
    // x is never read after substitution, so the read of x becomes the
    // literal 1 (left unfolded as 1 + 1) and the binding of x is deleted.
    let settings = int_prop_settings(true);
    let checked = compile("var x = 1; var y = x + 1; int_prop = y;", FileId::new(0), &settings)
        .unwrap_or_else(|_| panic!("expected a clean compile"));
    let stmts = &checked.script.functions[0].statements;
    assert_eq!(stmts.len(), 2);
    match &stmts[0].kind {
        StatementKind::VariableDeclaration { ident, value } => {
            assert_eq!(ident, "y");
            match &value.kind {
                ExpressionKind::BinaryOperation { lhs, operator, rhs } => {
                    assert_eq!(*operator, tapir_script::ast::BinaryOperator::Add);
                    assert!(matches!(lhs.kind, ExpressionKind::Integer(1)));
                    assert!(matches!(rhs.kind, ExpressionKind::Integer(1)));
                },
                other => panic!("initializer was not substituted: {:?}", other),
            }
        },
        other => panic!("unexpected statement: {:?}", other),
    }
}

#[test]
fn locals_survive_wait_only_properties_are_poisoned() {
    // c is an ordinary local: the suspension poisons only host-visible
    // state, so d's initializer still becomes the literal 5
    let settings = int_prop_settings(false);
    let checked = compile("var c = 5; wait; var d = c;", FileId::new(0), &settings)
        .unwrap_or_else(|_| panic!("expected a clean compile"));
    let mut functions = checked.script.functions;
    let function = functions.remove(0);
    let (function, changed) = constant_propagation(function, &settings);
    assert_eq!(changed, ConstantPropagationResult::DidSomething);
    match &function.statements[2].kind {
        StatementKind::VariableDeclaration { ident, value } => {
            assert_eq!(ident, "d");
            assert!(matches!(value.kind, ExpressionKind::Integer(5)));
        },
        other => panic!("unexpected statement: {:?}", other),
    }
}

#[test]
fn property_reads_are_poisoned_by_wait() {
    // p caches a property before the suspension; the cache cannot be
    // trusted afterwards, so q's initializer stays a variable read
    let settings = int_prop_settings(false);
    let checked = compile(
        "int_prop = 7; wait; var q = int_prop;",
        FileId::new(0),
        &settings,
    ).unwrap_or_else(|_| panic!("expected a clean compile"));
    let mut functions = checked.script.functions;
    let function = functions.remove(0);
    let (function, _) = constant_propagation(function, &settings);
    match &function.statements[2].kind {
        StatementKind::VariableDeclaration { ident, value } => {
            assert_eq!(ident, "q");
            assert!(matches!(value.kind, ExpressionKind::Variable(_)));
        },
        other => panic!("unexpected statement: {:?}", other),
    }
}

#[test]
fn constant_propagation_twice_does_nothing_new() {
    let settings = int_prop_settings(false);
    let checked = compile(
        "var a = 1; var b = a; int_prop = b; var c = b + a;",
        FileId::new(0),
        &settings,
    ).unwrap_or_else(|_| panic!("expected a clean compile"));
    let mut functions = checked.script.functions;
    let function = functions.remove(0);
    let (function, first) = constant_propagation(function, &settings);
    assert_eq!(first, ConstantPropagationResult::DidSomething);
    let before = format!("{:?}", function);
    let (function, second) = constant_propagation(function, &settings);
    assert_eq!(second, ConstantPropagationResult::DidNothing);
    assert_eq!(before, format!("{:?}", function));
}

#[test]
fn dead_code_elimination_twice_removes_nothing_new() {
    let settings = int_prop_settings(false);
    let checked = compile(
        "var x = 1; wait; int_prop = 2; int_prop = 3; var y = 4; int_prop = y;",
        FileId::new(0),
        &settings,
    ).unwrap_or_else(|_| panic!("expected a clean compile"));
    let num_symbols = checked.symtab.symbol_count();
    let mut functions = checked.script.functions;
    let function = functions.remove(0);

    let waits_before = function
        .statements
        .iter()
        .filter(|s| matches!(s.kind, StatementKind::Wait))
        .count();

    let function = dead_code_eliminate(function, &settings, num_symbols);
    let once = format!("{:?}", function);
    // x is unread and deleted; the overwritten-before-observed property
    // write is deleted too; the wait stays
    let waits_after = function
        .statements
        .iter()
        .filter(|s| matches!(s.kind, StatementKind::Wait))
        .count();
    assert_eq!(waits_before, waits_after);
    assert!(function.statements.len() < 6);

    let function = dead_code_eliminate(function, &settings, num_symbols);
    assert_eq!(once, format!("{:?}", function));
}

#[test]
fn pruning_drops_unreachable_after_break() {
    // loop { break; var unused = 1; }  =>  loop { break; }
    let file_id = FileId::new(0);
    let unused_decl = StatementKind::VariableDeclaration {
        ident: "unused".to_owned(),
        value: ExpressionKind::Integer(1).with_span(file_id, 20, 21),
    }.with_span(file_id, 8, 22);
    let brk = StatementKind::Break.with_span(file_id, 2, 7);
    let the_loop = StatementKind::Loop { block: vec![brk, unused_decl] }.with_span(file_id, 0, 24);

    let pruned = eliminate_after_control_flow_diverge(vec![the_loop]);
    assert_eq!(pruned.len(), 1);
    match &pruned[0].kind {
        StatementKind::Loop { block } => {
            assert_eq!(block.len(), 1);
            assert!(matches!(block[0].kind, StatementKind::Break));
        },
        other => panic!("unexpected statement: {:?}", other),
    }
}

#[test]
fn branches_are_never_merged_optimistically() {
    // var a = 1; if true { a = 2; }  var b = a;
    // a is reassigned in one branch, so after the branch nothing about a
    // is assumed and b's initializer stays a variable read
    let file_id = FileId::new(0);
    let settings = int_prop_settings(false);
    let decl_a = StatementKind::VariableDeclaration {
        ident: "a".to_owned(),
        value: ExpressionKind::Integer(1).with_span(file_id, 8, 9),
    }.with_span(file_id, 0, 10);
    let reassign = StatementKind::Assignment {
        ident: "a".to_owned(),
        value: ExpressionKind::Integer(2).with_span(file_id, 25, 26),
    }.with_span(file_id, 21, 27);
    let branch = StatementKind::If {
        condition: ExpressionKind::Bool(true).with_span(file_id, 14, 18),
        true_block: vec![reassign],
        false_block: vec![],
    }.with_span(file_id, 11, 29);
    let decl_b = StatementKind::VariableDeclaration {
        ident: "b".to_owned(),
        value: ExpressionKind::Variable("a".to_owned()).with_span(file_id, 38, 39),
    }.with_span(file_id, 30, 40);

    let function = tapir_script::ast::Function {
        name: "@toplevel".to_owned(),
        span: tapir_script::tokens::Span::new(file_id, 0, 1),
        statements: vec![decl_a, branch, decl_b],
        arguments: vec![],
        return_types: tapir_script::ast::FunctionReturn {
            types: vec![],
            span: tapir_script::tokens::Span::new(file_id, 0, 1),
        },
        modifiers: tapir_script::ast::FunctionModifiers { is_event_handler: None },
        function_id: None,
    };

    let mut diagnostics = tapir_script::reporting::Diagnostics::new();
    let mut functions = vec![function];
    let mut visitor = tapir_script::symtab::SymTabVisitor::new(
        &settings,
        &mut functions,
        &mut diagnostics,
    );
    let function = functions.remove(0);
    let function = visitor.visit_function(function, &mut diagnostics);
    assert!(!diagnostics.has_any());

    let (function, _) = constant_propagation(function, &settings);
    match &function.statements[2].kind {
        StatementKind::VariableDeclaration { ident, value } => {
            assert_eq!(ident, "b");
            assert!(matches!(value.kind, ExpressionKind::Variable(_)));
        },
        other => panic!("unexpected statement: {:?}", other),
    }
}
