use tapir_script::ast::{ExpressionKind, SymbolId};
use tapir_script::constant_propagation::{Constant, ConstantPropagationMap};
use tapir_script::dead_code::UsedAssignmentsSet;
use tapir_script::settings::{CompileSettings, Property};
use tapir_script::symtab::NameTable;
use tapir_script::tokens::FileId;
use tapir_script::types::Type;

fn two_prop_settings() -> CompileSettings {
    CompileSettings {
        properties: vec![
            Property { name: "int_prop".to_owned(), ty: Type::Int, index: 0 },
            Property { name: "bool_prop".to_owned(), ty: Type::Bool, index: 1 },
        ],
        enable_optimisations: false,
    }
}

#[test]
fn name_table_shadows_and_unwinds() {
    let settings = two_prop_settings();
    let mut table = NameTable::new(&settings);

    // properties occupy the outermost scope
    assert_eq!(table.get(&"int_prop".to_owned()), Some(SymbolId(0)));
    assert_eq!(table.get(&"bool_prop".to_owned()), Some(SymbolId(1)));
    assert_eq!(table.get(&"x".to_owned()), None);

    table.push_scope();
    table.insert("x".to_owned(), SymbolId(2));
    // the inner binding shadows the property of the same name
    table.insert("int_prop".to_owned(), SymbolId(3));
    assert_eq!(table.get(&"x".to_owned()), Some(SymbolId(2)));
    assert_eq!(table.get(&"int_prop".to_owned()), Some(SymbolId(3)));

    table.pop_scope();
    // the shadow is gone, the property shows through again
    assert_eq!(table.get(&"x".to_owned()), None);
    assert_eq!(table.get(&"int_prop".to_owned()), Some(SymbolId(0)));
}

#[test]
fn constant_map_tracks_branches_and_poisons() {
    let settings = two_prop_settings();
    let mut map = ConstantPropagationMap::new();

    map.set(SymbolId(2), &ExpressionKind::Integer(5));
    assert_eq!(map.get(SymbolId(2)), Some(Constant::Int(5)));
    assert_eq!(map.get(SymbolId(9)), None);

    // a non-literal right-hand side drops the stale entry
    map.set(SymbolId(2), &ExpressionKind::Variable("y".to_owned()));
    assert_eq!(map.get(SymbolId(2)), None);

    // only properties are forgotten by a suspension
    map.set(SymbolId(0), &ExpressionKind::Integer(1));
    map.set(SymbolId(3), &ExpressionKind::Bool(true));
    map.poison_properties(&settings);
    assert_eq!(map.get(SymbolId(0)), None);
    assert_eq!(map.get(SymbolId(3)), Some(Constant::Bool(true)));

    // a branch that reassigns a symbol poisons it in the join
    let mut branch = map.snapshot();
    branch.set(SymbolId(3), &ExpressionKind::Bool(false));
    map.apply_poisons(&branch);
    assert_eq!(map.get(SymbolId(3)), None);
}

#[test]
fn constant_map_set_grows_the_map() {
    let mut map = ConstantPropagationMap::new();
    map.set(SymbolId(7), &ExpressionKind::Integer(3));
    assert_eq!(map.get(SymbolId(7)), Some(Constant::Int(3)));
    assert_eq!(map.get(SymbolId(6)), None);
}

#[test]
fn used_set_union_and_removal() {
    let settings = two_prop_settings();
    let mut used = UsedAssignmentsSet::new(5);
    used.poison_properties(&settings);

    // properties are live from the start
    assert!(used.remove(SymbolId(0)));
    assert!(!used.remove(SymbolId(0)));

    used.used(SymbolId(3));
    let mut other = UsedAssignmentsSet::new(5);
    other.used(SymbolId(4));

    let mut combined = used.combine(other);
    assert!(combined.remove(SymbolId(3)));
    assert!(combined.remove(SymbolId(4)));
    assert!(!combined.remove(SymbolId(2)));

    let mut absorber = UsedAssignmentsSet::new(5);
    let mut donor = UsedAssignmentsSet::new(5);
    donor.used(SymbolId(1));
    absorber.absorb(donor);
    assert!(absorber.remove(SymbolId(1)));
}

#[test]
fn symtab_records_names_and_spans() {
    let settings = two_prop_settings();
    let checked = tapir_script::compile("var x = 2;", FileId::new(0), &settings)
        .unwrap_or_else(|_| panic!("expected a clean compile"));
    let symtab = &checked.symtab;
    assert_eq!(symtab.symbol_count(), 3);
    assert_eq!(symtab.name_for_symbol(SymbolId(0)), "int_prop");
    assert_eq!(symtab.name_for_symbol(SymbolId(2)), "x");
    assert!(!symtab.span_exists(SymbolId(0)));
    assert!(symtab.span_exists(SymbolId(2)));
    let span = symtab.span_for_symbol(SymbolId(2));
    assert_eq!(span.start, 0);
    assert_eq!(span.end, 10);

    let all = symtab.all_symbols();
    assert_eq!(all.len(), 3);
    assert_eq!(all[2].0, "x");
    assert_eq!(all[2].1, SymbolId(2));

    assert!(symtab.get_property(SymbolId(1)).is_some());
    assert!(symtab.get_property(SymbolId(2)).is_none());
}
