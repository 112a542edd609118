use vstd::prelude::*;

use crate::ast::{
    args_model, exprs_model, functions_model, lemma_exprs_model_index, lemma_exprs_model_prepend,
    lemma_exprs_model_skip1, lemma_stmts_model_index, lemma_stmts_model_prepend,
    lemma_stmts_model_skip1, stmts_model, Expression, ExpressionKind, ExpressionKindV, ExpressionV, Function,
    FunctionArgument, FunctionArgumentV, FunctionId, FunctionV, MaybeResolved, MaybeResolvedV,
    Statement, StatementKind, StatementKindV, StatementV, SymbolId,
};
use crate::settings::{CompileSettings, Property, PropertyV, properties_model};
use crate::reporting::{
    CompilerErrorKind, CompilerErrorKindV, Diagnostics, MessageKindV, MessageV,
};
use crate::tokens::Span;

verus! {

// ---------------------------------------------------------------------------
// The scoped name table used while resolving identifiers.
// ---------------------------------------------------------------------------

/// One binding visible in a scope: a written name and the symbol it names.
pub type ScopeBindingV = (Seq<char>, SymbolId);

/// What a symbol lookup finds in one scope: the most recently inserted
/// binding of the name, if any.
pub open spec fn sp_scope_lookup(scope: Seq<ScopeBindingV>, name: Seq<char>) -> Option<SymbolId>
    decreases scope,
{
    if scope.len() == 0 {
        None
    } else if scope.last().0 == name {
        Some(scope.last().1)
    } else {
        sp_scope_lookup(scope.drop_last(), name)
    }
}

/// What a symbol lookup finds: scopes are searched innermost (last)
/// to outermost, so inner bindings shadow outer ones.
pub open spec fn sp_lookup(scopes: Seq<Seq<ScopeBindingV>>, name: Seq<char>) -> Option<SymbolId>
    decreases scopes,
{
    if scopes.len() == 0 {
        None
    } else {
        match sp_scope_lookup(scopes.last(), name) {
            Some(id) => Some(id),
            None => sp_lookup(scopes.drop_last(), name),
        }
    }
}

/// The bindings the host's properties contribute to the outermost scope:
/// property `i` is symbol `i`.
pub open spec fn sp_property_scope(ps: Seq<PropertyV>) -> Seq<ScopeBindingV> {
    Seq::new(ps.len(), |i: int| (ps[i].name, SymbolId(i as usize)))
}

/// A stack of nested scopes, each mapping written names to symbols.
/// The outermost scope holds the host's properties; one more scope is
/// pushed per function, block, branch, or loop body.
#[derive(Debug)]
pub struct NameTable {
    names: Vec<Vec<(String, SymbolId)>>,
}

pub open spec fn scope_model(scope: Seq<(String, SymbolId)>) -> Seq<ScopeBindingV> {
    scope.map_values(|b: (String, SymbolId)| (b.0@, b.1))
}

impl NameTable {
    /// The stack of scopes, outermost first.
    pub closed spec fn model(self) -> Seq<Seq<ScopeBindingV>> {
        self.names@.map_values(|scope: Vec<(String, SymbolId)>| scope_model(scope@))
    }

    /// The table at the start of resolution: only the property scope.
    pub fn new(settings: &CompileSettings) -> (r: NameTable)
        ensures
            r.model() == seq![sp_property_scope(properties_model(settings.properties@))],
    {
        let mut property_scope: Vec<(String, SymbolId)> = Vec::new();
        let mut i: usize = 0;
        while i < settings.properties.len()
            invariant
                i <= settings.properties@.len(),
                property_scope@.len() == i,
                forall|j: int|
                    0 <= j < i ==> #[trigger] property_scope@[j] == (
                    settings.properties@[j].name,
                    SymbolId(j as usize),
                ),
            decreases settings.properties@.len() - i,
        {
            let name = settings.properties[i].name.clone();
            property_scope.push((name, SymbolId(i)));
            i += 1;
        }
        let r = NameTable { names: vec![property_scope] };
        proof {
            assert(scope_model(property_scope@) =~= sp_property_scope(
                properties_model(settings.properties@),
            ));
            assert(r.model() =~= seq![sp_property_scope(properties_model(settings.properties@))]);
        }
        r
    }

    /// Adds a binding to the innermost scope, shadowing any older binding
    /// of the same name there or further out.
    pub fn insert(&mut self, name: String, id: SymbolId)
        requires
            old(self).model().len() > 0,
        ensures
            final(self).model() == old(self).model().drop_last().push(
                old(self).model().last().push((name@, id)),
            ),
    {
        let ghost m0 = self.model();
        let mut scope = match self.names.pop() {
            Some(scope) => scope,
            None => Vec::new(),
        };
        let ghost s0 = scope@;
        scope.push((name, id));
        proof {
            assert(scope_model(scope@) =~= scope_model(s0).push((name@, id)));
        }
        self.names.push(scope);
        proof {
            assert(self.model() =~= m0.drop_last().push(m0.last().push((name@, id))));
        }
    }

    /// Looks a name up, innermost scope first.
    pub fn get(&self, name: &String) -> (r: Option<SymbolId>)
        ensures
            r == sp_lookup(self.model(), name@),
    {
        let ghost scopes = self.model();
        let mut j: usize = self.names.len();
        proof {
            assert(scopes.take(self.names@.len() as int) =~= scopes);
        }
        while j > 0
            invariant
                j <= self.names@.len(),
                scopes == self.model(),
                self.names@.len() == scopes.len(),
                sp_lookup(scopes, name@) == sp_lookup(scopes.take(j as int), name@),
            decreases j,
        {
            j -= 1;
            let scope = &self.names[j];
            let ghost scope_m = scopes[j as int];
            let mut k: usize = scope.len();
            proof {
                assert(scope_m == scope_model(scope@));
                assert(scope_m.take(scope@.len() as int) =~= scope_m);
            }
            while k > 0
                invariant
                    k <= scope@.len(),
                    j < scopes.len(),
                    scopes == self.model(),
                    scope_m == scopes[j as int],
                    scope_m == scope_model(scope@),
                    scope_m.len() == scope@.len(),
                    sp_lookup(scopes, name@) == sp_lookup(scopes.take(j + 1), name@),
                    sp_scope_lookup(scope_m, name@) == sp_scope_lookup(
                        scope_m.take(k as int),
                        name@,
                    ),
                decreases k,
            {
                k -= 1;
                let binding = &scope[k];
                proof {
                    assert(scope_m.take(k + 1).last() == scope_m[k as int]);
                    assert(scope_m.take(k + 1).drop_last() =~= scope_m.take(k as int));
                }
                if binding.0.eq(name) {
                    proof {
                        assert(scopes.take(j + 1).len() == j + 1);
                        assert(scopes.take(j + 1)[j as int] == scopes[j as int]);
                        assert(scopes.take(j + 1).last() == scope_m);
                        assert(sp_scope_lookup(scope_m.take(k + 1), name@) == Some(binding.1));
                    }
                    return Some(binding.1);
                }
            }
            proof {
                assert(scope_m.take(0int) =~= Seq::<ScopeBindingV>::empty());
                assert(sp_scope_lookup(scope_m, name@) is None);
                assert(scopes.take(j + 1).len() == j + 1);
                assert(scopes.take(j + 1)[j as int] == scopes[j as int]);
                assert(scopes.take(j + 1).last() == scope_m);
                assert(scopes.take(j + 1).drop_last() =~= scopes.take(j as int));
            }
        }
        proof {
            assert(scopes.take(0int) =~= Seq::<Seq<ScopeBindingV>>::empty());
        }
        None
    }

    /// Opens a nested scope.
    pub fn push_scope(&mut self)
        ensures
            final(self).model() == old(self).model().push(Seq::<ScopeBindingV>::empty()),
    {
        let ghost m0 = self.model();
        self.names.push(Vec::new());
        proof {
            assert(scope_model(Seq::<(String, SymbolId)>::empty()) =~= Seq::<
                ScopeBindingV,
            >::empty());
            assert(self.model() =~= m0.push(Seq::<ScopeBindingV>::empty()));
        }
    }

    /// Closes the innermost scope; the outermost (property) scope is
    /// never popped.
    pub fn pop_scope(&mut self)
        requires
            old(self).model().len() >= 2,
        ensures
            final(self).model() == old(self).model().drop_last(),
    {
        let ghost m0 = self.model();
        let _ = self.names.pop();
        proof {
            assert(self.model() =~= m0.drop_last());
        }
    }
}

// ---------------------------------------------------------------------------
// The symbol table: everything ever known about each symbol id.
// ---------------------------------------------------------------------------

/// One record per symbol ever created, indexed by `SymbolId`: the written
/// name, and the declaration span (property symbols have none).
pub type SymbolRecordV = (Seq<char>, Option<Span>);

/// The symbol records the host's properties contribute: property `i` is
/// symbol `i` and has no declaration span.
pub open spec fn sp_initial_symbols(ps: Seq<PropertyV>) -> Seq<SymbolRecordV> {
    Seq::new(ps.len(), |i: int| (ps[i].name, None::<Span>))
}

/// The registry of every symbol one compilation ever created. Ids are
/// assigned in creation order and never reused; properties come first.
#[derive(Debug)]
pub struct SymTab {
    properties: Vec<Property>,
    symbol_names: Vec<(String, Option<Span>)>,
}

impl SymTab {
    /// One record per symbol, in id order.
    pub closed spec fn names_model(self) -> Seq<SymbolRecordV> {
        self.symbol_names@.map_values(|p: (String, Option<Span>)| (p.0@, p.1))
    }

    /// The properties the table was created with, in index order.
    pub closed spec fn properties_mod(self) -> Seq<PropertyV> {
        properties_model(self.properties@)
    }

    pub fn new(settings: &CompileSettings) -> (r: SymTab)
        ensures
            r.properties_mod() == properties_model(settings.properties@),
            r.names_model() == sp_initial_symbols(properties_model(settings.properties@)),
    {
        let mut properties: Vec<Property> = Vec::new();
        let mut symbol_names: Vec<(String, Option<Span>)> = Vec::new();
        let mut i: usize = 0;
        while i < settings.properties.len()
            invariant
                i <= settings.properties@.len(),
                properties@.len() == i,
                symbol_names@.len() == i,
                forall|j: int|
                    0 <= j < i ==> (#[trigger] properties@[j]).model()
                        == settings.properties@[j].model(),
                forall|j: int|
                    0 <= j < i ==> #[trigger] symbol_names@[j] == (
                    settings.properties@[j].name,
                    None::<Span>,
                ),
            decreases settings.properties@.len() - i,
        {
            let p = &settings.properties[i];
            properties.push(Property { name: p.name.clone(), ty: p.ty, index: p.index });
            symbol_names.push((p.name.clone(), None));
            i += 1;
        }
        let r = SymTab { properties, symbol_names };
        proof {
            assert(r.properties_mod() =~= properties_model(settings.properties@));
            assert(r.names_model() =~= sp_initial_symbols(properties_model(settings.properties@)));
        }
        r
    }

    /// Creates a fresh symbol for a newly seen binding. The next free id
    /// is handed out; no existing record changes.
    pub fn new_symbol(&mut self, ident: &String, span: Span) -> (r: SymbolId)
        ensures
            r == SymbolId(old(self).names_model().len() as usize),
            final(self).names_model() == old(self).names_model().push((ident@, Some(span))),
            final(self).properties_mod() == old(self).properties_mod(),
    {
        let ghost m0 = self.names_model();
        let id = SymbolId(self.symbol_names.len());
        self.symbol_names.push((ident.clone(), Some(span)));
        proof {
            assert(self.names_model() =~= m0.push((ident@, Some(span))));
        }
        id
    }

    /// How many symbols exist so far.
    pub fn symbol_count(&self) -> (r: usize)
        ensures
            r == self.names_model().len(),
    {
        self.symbol_names.len()
    }

    /// The written name of a symbol.
    pub fn name_for_symbol(&self, symbol_id: SymbolId) -> (r: String)
        requires
            symbol_id.0 < self.names_model().len(),
        ensures
            r@ == self.names_model()[symbol_id.0 as int].0,
    {
        self.symbol_names[symbol_id.0].0.clone()
    }

    /// The declaration span of a symbol that has one (every symbol a
    /// script declares does; property symbols do not).
    pub fn span_for_symbol(&self, symbol_id: SymbolId) -> (r: Span)
        requires
            symbol_id.0 < self.names_model().len(),
            self.names_model()[symbol_id.0 as int].1 is Some,
        ensures
            Some(r) == self.names_model()[symbol_id.0 as int].1,
    {
        let entry = &self.symbol_names[symbol_id.0];
        match entry.1 {
            Some(span) => span,
            None => unreached(),
        }
    }

    /// Whether a symbol has a declaration span (property symbols do not).
    pub fn span_exists(&self, symbol_id: SymbolId) -> (r: bool)
        requires
            symbol_id.0 < self.names_model().len(),
        ensures
            r == (self.names_model()[symbol_id.0 as int].1 is Some),
    {
        self.symbol_names[symbol_id.0].1.is_some()
    }

    /// Every symbol with its name, in id order.
    pub fn all_symbols(&self) -> (r: Vec<(String, SymbolId)>)
        ensures
            r@.len() == self.names_model().len(),
            forall|i: int|
                0 <= i < r@.len() ==> (#[trigger] r@[i]).0@ == self.names_model()[i].0 && r@[i].1
                    == SymbolId(i as usize),
    {
        let mut out: Vec<(String, SymbolId)> = Vec::new();
        let mut i: usize = 0;
        while i < self.symbol_names.len()
            invariant
                i <= self.symbol_names@.len(),
                self.names_model().len() == self.symbol_names@.len(),
                out@.len() == i,
                forall|j: int|
                    0 <= j < i ==> (#[trigger] out@[j]).0@ == self.names_model()[j].0 && out@[j].1
                        == SymbolId(j as usize),
            decreases self.symbol_names@.len() - i,
        {
            out.push((self.symbol_names[i].0.clone(), SymbolId(i)));
            i += 1;
        }
        out
    }

    /// The property a symbol stands for, if it is a property symbol:
    /// exactly the symbols with ids below the property count are.
    pub fn get_property(&self, symbol_id: SymbolId) -> (r: Option<&Property>)
        ensures
            match r {
                Some(p) => symbol_id.0 < self.properties_mod().len() && p.model()
                    == self.properties_mod()[symbol_id.0 as int],
                None => symbol_id.0 >= self.properties_mod().len(),
            },
    {
        if symbol_id.0 < self.properties.len() {
            Some(&self.properties[symbol_id.0])
        } else {
            None
        }
    }
}


// ---------------------------------------------------------------------------
// Registering function declarations.
// ---------------------------------------------------------------------------

/// An entry of the function table: written name, identity, declaration span.
pub type FunctionEntryV = (Seq<char>, FunctionId, Span);

/// The first entry declared under a name, if any.
pub open spec fn sp_ftable_find(table: Seq<FunctionEntryV>, name: Seq<char>) -> Option<
    FunctionEntryV,
>
    decreases table,
{
    if table.len() == 0 {
        None
    } else if table[0].0 == name {
        Some(table[0])
    } else {
        sp_ftable_find(table.skip(1), name)
    }
}

pub open spec fn sp_already_declared_message(
    name: Seq<char>,
    old_span: Span,
    new_span: Span,
) -> MessageV {
    MessageV {
        span: new_span,
        error: MessageKindV::CompilerError(
            CompilerErrorKindV::FunctionAlreadyDeclared {
                function_name: name,
                old_function_declaration: old_span,
                new_function_declaration: new_span,
            },
        ),
    }
}

pub open spec fn sp_unknown_variable_message(name: Seq<char>, span: Span) -> MessageV {
    MessageV {
        span,
        error: MessageKindV::CompilerError(CompilerErrorKindV::UnknownVariable(name)),
    }
}

pub open spec fn sp_unknown_function_message(name: Seq<char>, span: Span) -> MessageV {
    MessageV {
        span,
        error: MessageKindV::CompilerError(CompilerErrorKindV::UnknownFunction { name }),
    }
}

/// Registering the functions of a script, in declaration order. The first
/// declaration of a name enters the table and is the one later lookups
/// find; each later declaration of the same name contributes exactly one
/// `FunctionAlreadyDeclared` report carrying both spans, and nothing else.
pub open spec fn sp_register_functions(
    fs: Seq<FunctionV>,
    next: int,
    table: Seq<FunctionEntryV>,
    msgs: Seq<MessageV>,
) -> (Seq<FunctionEntryV>, Seq<MessageV>)
    decreases fs,
{
    if fs.len() == 0 {
        (table, msgs)
    } else {
        let f = fs[0];
        match sp_ftable_find(table, f.name) {
            Some(e) => sp_register_functions(
                fs.skip(1),
                next + 1,
                table,
                msgs.push(sp_already_declared_message(f.name, e.2, f.span)),
            ),
            None => sp_register_functions(
                fs.skip(1),
                next + 1,
                table.push((f.name, FunctionId(next as usize), f.span)),
                msgs,
            ),
        }
    }
}

/// Every function gets its identity from its position in the script.
pub open spec fn sp_assign_ids(fs: Seq<FunctionV>) -> Seq<FunctionV> {
    Seq::new(
        fs.len(),
        |i: int|
            FunctionV {
                function_id: Some(FunctionId(i as usize)),
                name: fs[i].name,
                span: fs[i].span,
                statements: fs[i].statements,
                arguments: fs[i].arguments,
                return_types: fs[i].return_types,
                modifiers: fs[i].modifiers,
            },
    )
}

// ---------------------------------------------------------------------------
// The resolution pass itself, as a function on the model.
// ---------------------------------------------------------------------------

/// The state resolution threads through the tree: the scope stack, the
/// symbol registry, and the diagnostics log.
pub struct ResolveStateV {
    pub scopes: Seq<Seq<ScopeBindingV>>,
    pub symbols: Seq<SymbolRecordV>,
    pub msgs: Seq<MessageV>,
}

/// Resolving one expression: variable reads and calls are bound to their
/// symbol or function; an unresolvable name is reported and the node left
/// unresolved. The scope stack and symbol registry never change here.
pub open spec fn sp_resolve_expr(
    e: ExpressionV,
    scopes: Seq<Seq<ScopeBindingV>>,
    msgs: Seq<MessageV>,
    ftable: Seq<FunctionEntryV>,
) -> (ExpressionV, Seq<MessageV>)
    decreases e,
{
    match e.kind {
        ExpressionKindV::Variable(name) => {
            match sp_lookup(scopes, name) {
                Some(id) => (ExpressionV { symbol: Some(id), ..e }, msgs),
                None => (e, msgs.push(sp_unknown_variable_message(name, e.span))),
            }
        },
        ExpressionKindV::BinaryOperation { lhs, operator, rhs } => {
            let (l2, m1) = sp_resolve_expr(*lhs, scopes, msgs, ftable);
            let (r2, m2) = sp_resolve_expr(*rhs, scopes, m1, ftable);
            (
                ExpressionV {
                    kind: ExpressionKindV::BinaryOperation {
                        lhs: Box::new(l2),
                        operator,
                        rhs: Box::new(r2),
                    },
                    ..e
                },
                m2,
            )
        },
        ExpressionKindV::Call { name, arguments } => {
            let (fun, m1) = match sp_ftable_find(ftable, name) {
                Some(entry) => (Some(entry.1), msgs),
                None => (e.function, msgs.push(sp_unknown_function_message(name, e.span))),
            };
            let (args2, m2) = sp_resolve_exprs(arguments, scopes, m1, ftable);
            (
                ExpressionV {
                    kind: ExpressionKindV::Call { name, arguments: args2 },
                    function: fun,
                    ..e
                },
                m2,
            )
        },
        _ => (e, msgs),
    }
}

pub open spec fn sp_resolve_exprs(
    es: Seq<ExpressionV>,
    scopes: Seq<Seq<ScopeBindingV>>,
    msgs: Seq<MessageV>,
    ftable: Seq<FunctionEntryV>,
) -> (Seq<ExpressionV>, Seq<MessageV>)
    decreases es,
{
    if es.len() == 0 {
        (es, msgs)
    } else {
        let (e2, m1) = sp_resolve_expr(es[0], scopes, msgs, ftable);
        let (rest2, m2) = sp_resolve_exprs(es.skip(1), scopes, m1, ftable);
        (seq![e2] + rest2, m2)
    }
}

/// Resolving one statement. Declarations create a fresh symbol in the
/// innermost scope; assignments and reads look names up innermost-first;
/// every nested block is resolved under a scope of its own.
pub open spec fn sp_resolve_stmt(
    s: StatementV,
    st: ResolveStateV,
    ftable: Seq<FunctionEntryV>,
) -> (StatementV, ResolveStateV)
    decreases s, 0int,
{
    match s.kind {
        StatementKindV::VariableDeclaration { ident, value } => {
            let (v2, m1) = sp_resolve_expr(value, st.scopes, st.msgs, ftable);
            let id = SymbolId(st.symbols.len() as usize);
            let st2 = ResolveStateV {
                scopes: st.scopes.drop_last().push(st.scopes.last().push((ident, id))),
                symbols: st.symbols.push((ident, Some(s.span))),
                msgs: m1,
            };
            (
                StatementV {
                    kind: StatementKindV::VariableDeclaration { ident, value: v2 },
                    symbol: Some(id),
                    ..s
                },
                st2,
            )
        },
        StatementKindV::Assignment { ident, value } => {
            let (v2, m1) = sp_resolve_expr(value, st.scopes, st.msgs, ftable);
            let (sym, m2) = match sp_lookup(st.scopes, ident) {
                Some(id) => (Some(id), m1),
                None => (s.symbol, m1.push(sp_unknown_variable_message(ident, s.span))),
            };
            (
                StatementV {
                    kind: StatementKindV::Assignment { ident, value: v2 },
                    symbol: sym,
                    ..s
                },
                ResolveStateV { msgs: m2, ..st },
            )
        },
        StatementKindV::If { condition, true_block, false_block } => {
            let (c2, m1) = sp_resolve_expr(condition, st.scopes, st.msgs, ftable);
            let (tb2, st2) = sp_resolve_scoped_block(
                true_block,
                ResolveStateV { msgs: m1, ..st },
                ftable,
            );
            let (fb2, st3) = sp_resolve_scoped_block(false_block, st2, ftable);
            (
                StatementV {
                    kind: StatementKindV::If {
                        condition: c2,
                        true_block: tb2,
                        false_block: fb2,
                    },
                    ..s
                },
                st3,
            )
        },
        StatementKindV::Return { values } => {
            let (vs2, m1) = sp_resolve_exprs(values, st.scopes, st.msgs, ftable);
            (
                StatementV { kind: StatementKindV::Return { values: vs2 }, ..s },
                ResolveStateV { msgs: m1, ..st },
            )
        },
        StatementKindV::Block { block } => {
            let (b2, st2) = sp_resolve_scoped_block(block, st, ftable);
            (StatementV { kind: StatementKindV::Block { block: b2 }, ..s }, st2)
        },
        StatementKindV::Loop { block } => {
            let (b2, st2) = sp_resolve_scoped_block(block, st, ftable);
            (StatementV { kind: StatementKindV::Loop { block: b2 }, ..s }, st2)
        },
        StatementKindV::Call { name, arguments } => {
            let (fun, m1) = match sp_ftable_find(ftable, name) {
                Some(entry) => (Some(entry.1), st.msgs),
                None => (s.function, st.msgs.push(sp_unknown_function_message(name, s.span))),
            };
            let (args2, m2) = sp_resolve_exprs(arguments, st.scopes, m1, ftable);
            (
                StatementV {
                    kind: StatementKindV::Call { name, arguments: args2 },
                    function: fun,
                    ..s
                },
                ResolveStateV { msgs: m2, ..st },
            )
        },
        StatementKindV::Spawn { name, arguments } => {
            let (fun, m1) = match sp_ftable_find(ftable, name) {
                Some(entry) => (Some(entry.1), st.msgs),
                None => (s.function, st.msgs.push(sp_unknown_function_message(name, s.span))),
            };
            let (args2, m2) = sp_resolve_exprs(arguments, st.scopes, m1, ftable);
            (
                StatementV {
                    kind: StatementKindV::Spawn { name, arguments: args2 },
                    function: fun,
                    ..s
                },
                ResolveStateV { msgs: m2, ..st },
            )
        },
        _ => (s, st),
    }
}

pub open spec fn sp_resolve_stmts(
    ss: Seq<StatementV>,
    st: ResolveStateV,
    ftable: Seq<FunctionEntryV>,
) -> (Seq<StatementV>, ResolveStateV)
    decreases ss, 0int,
{
    if ss.len() == 0 {
        (ss, st)
    } else {
        let (s2, st1) = sp_resolve_stmt(ss[0], st, ftable);
        let (rest2, st2) = sp_resolve_stmts(ss.skip(1), st1, ftable);
        (seq![s2] + rest2, st2)
    }
}

/// A nested block is resolved under a scope of its own: bindings made in
/// it vanish when it ends.
pub open spec fn sp_resolve_scoped_block(
    ss: Seq<StatementV>,
    st: ResolveStateV,
    ftable: Seq<FunctionEntryV>,
) -> (Seq<StatementV>, ResolveStateV)
    decreases ss, 1int,
{
    let st1 = ResolveStateV { scopes: st.scopes.push(Seq::empty()), ..st };
    let (ss2, st2) = sp_resolve_stmts(ss, st1, ftable);
    (ss2, ResolveStateV { scopes: st2.scopes.drop_last(), ..st2 })
}

/// Binding the arguments of a function, in declaration order: each becomes
/// a fresh symbol in the function's scope.
pub open spec fn sp_bind_args(
    args: Seq<FunctionArgumentV>,
    st: ResolveStateV,
) -> (Seq<FunctionArgumentV>, ResolveStateV)
    decreases args,
{
    if args.len() == 0 {
        (args, st)
    } else {
        let a = args[0];
        let name = a.name->Unresolved_0;
        let id = SymbolId(st.symbols.len() as usize);
        let st1 = ResolveStateV {
            scopes: st.scopes.drop_last().push(st.scopes.last().push((name, id))),
            symbols: st.symbols.push((name, Some(a.span))),
            msgs: st.msgs,
        };
        let a2 = FunctionArgumentV { name: MaybeResolvedV::Resolved(id), ..a };
        let (rest2, st2) = sp_bind_args(args.skip(1), st1);
        (seq![a2] + rest2, st2)
    }
}

/// Resolving one function: a scope for its arguments, a nested scope for
/// its body, and both gone afterwards.
pub open spec fn sp_resolve_function(
    f: FunctionV,
    st: ResolveStateV,
    ftable: Seq<FunctionEntryV>,
) -> (FunctionV, ResolveStateV) {
    let st1 = ResolveStateV { scopes: st.scopes.push(Seq::empty()), ..st };
    let (args2, st2) = sp_bind_args(f.arguments, st1);
    let (ss2, st3) = sp_resolve_scoped_block(f.statements, st2, ftable);
    let st4 = ResolveStateV { scopes: st3.scopes.drop_last(), ..st3 };
    (FunctionV { arguments: args2, statements: ss2, ..f }, st4)
}


// ---------------------------------------------------------------------------
// Scope depth is invariant under resolution.
// ---------------------------------------------------------------------------

pub proof fn lemma_resolve_stmt_depth(s: StatementV, st: ResolveStateV, ftable: Seq<FunctionEntryV>)
    requires
        st.scopes.len() >= 1,
    ensures
        sp_resolve_stmt(s, st, ftable).1.scopes.len() == st.scopes.len(),
    decreases s, 0int,
{
    match s.kind {
        StatementKindV::If { condition, true_block, false_block } => {
            let (c2, m1) = sp_resolve_expr(condition, st.scopes, st.msgs, ftable);
            let stm = ResolveStateV { msgs: m1, ..st };
            lemma_resolve_scoped_block_depth(true_block, stm, ftable);
            let (tb2, st2) = sp_resolve_scoped_block(true_block, stm, ftable);
            lemma_resolve_scoped_block_depth(false_block, st2, ftable);
        },
        StatementKindV::Block { block } => {
            lemma_resolve_scoped_block_depth(block, st, ftable);
        },
        StatementKindV::Loop { block } => {
            lemma_resolve_scoped_block_depth(block, st, ftable);
        },
        _ => {},
    }
}

pub proof fn lemma_resolve_stmts_depth(
    ss: Seq<StatementV>,
    st: ResolveStateV,
    ftable: Seq<FunctionEntryV>,
)
    requires
        st.scopes.len() >= 1,
    ensures
        sp_resolve_stmts(ss, st, ftable).1.scopes.len() == st.scopes.len(),
    decreases ss, 0int,
{
    if ss.len() > 0 {
        lemma_resolve_stmt_depth(ss[0], st, ftable);
        let (s2, st1) = sp_resolve_stmt(ss[0], st, ftable);
        lemma_resolve_stmts_depth(ss.skip(1), st1, ftable);
    }
}

pub proof fn lemma_resolve_scoped_block_depth(
    ss: Seq<StatementV>,
    st: ResolveStateV,
    ftable: Seq<FunctionEntryV>,
)
    requires
        st.scopes.len() >= 1,
    ensures
        sp_resolve_scoped_block(ss, st, ftable).1.scopes.len() == st.scopes.len(),
    decreases ss, 1int,
{
    let st1 = ResolveStateV { scopes: st.scopes.push(Seq::empty()), ..st };
    lemma_resolve_stmts_depth(ss, st1, ftable);
}

// ---------------------------------------------------------------------------
// The resolution visitor.
// ---------------------------------------------------------------------------

pub open spec fn ftable_entries_model(t: Seq<(String, FunctionId, Span)>) -> Seq<FunctionEntryV> {
    t.map_values(|e: (String, FunctionId, Span)| (e.0@, e.1, e.2))
}

/// The first table entry declared under a name, if any.
fn find_function_entry(table: &Vec<(String, FunctionId, Span)>, name: &String) -> (r: Option<
    (FunctionId, Span),
>)
    ensures
        match sp_ftable_find(ftable_entries_model(table@), name@) {
            Some(e) => r == Some((e.1, e.2)),
            None => r is None,
        },
{
    let ghost m = ftable_entries_model(table@);
    let mut k: usize = 0;
    proof {
        assert(m.skip(0int) =~= m);
    }
    while k < table.len()
        invariant
            k <= table@.len(),
            m == ftable_entries_model(table@),
            m.len() == table@.len(),
            sp_ftable_find(m, name@) == sp_ftable_find(m.skip(k as int), name@),
        decreases table@.len() - k,
    {
        let entry = &table[k];
        proof {
            assert(m.skip(k as int)[0] == m[k as int]);
            assert(m.skip(k as int).skip(1) =~= m.skip(k + 1));
        }
        if entry.0.eq(name) {
            return Some((entry.1, entry.2));
        }
        k += 1;
    }
    proof {
        assert(m.skip(k as int) =~= Seq::<FunctionEntryV>::empty());
    }
    None
}

/// Resolves every identifier of a script to a stable symbol or function
/// identity, owning the scope stack, the symbol registry, and the function
/// table while it works.
#[derive(Debug)]
pub struct SymTabVisitor {
    symtab: SymTab,
    symbol_names: NameTable,
    function_names: Vec<(String, FunctionId, Span)>,
}

impl SymTabVisitor {
    /// The scope stack, outermost scope first.
    pub closed spec fn scopes_model(self) -> Seq<Seq<ScopeBindingV>> {
        self.symbol_names.model()
    }

    /// One record per symbol created so far, in id order.
    pub closed spec fn symtab_names_model(self) -> Seq<SymbolRecordV> {
        self.symtab.names_model()
    }

    pub closed spec fn symtab_properties_model(self) -> Seq<PropertyV> {
        self.symtab.properties_mod()
    }

    /// The function table: one entry per declared name, first declaration
    /// first.
    pub closed spec fn ftable_model(self) -> Seq<FunctionEntryV> {
        ftable_entries_model(self.function_names@)
    }

    /// The state this visitor threads through the tree, next to the given
    /// diagnostics log.
    pub open spec fn state_model(self, diagnostics: Diagnostics) -> ResolveStateV {
        ResolveStateV {
            scopes: self.scopes_model(),
            symbols: self.symtab_names_model(),
            msgs: diagnostics.model(),
        }
    }

    /// Prepares resolution of a script: gives every function its identity
    /// by position, records the first declaration of each name in the
    /// function table, and reports every later declaration of an already
    /// declared name, with both spans.
    pub fn new(
        settings: &CompileSettings,
        functions: &mut Vec<Function>,
        diagnostics: &mut Diagnostics,
    ) -> (r: SymTabVisitor)
        ensures
            functions_model(final(functions)@) == sp_assign_ids(
                functions_model(old(functions)@),
            ),
            ({
                let (table, msgs) = sp_register_functions(
                    functions_model(old(functions)@),
                    0,
                    Seq::empty(),
                    old(diagnostics).model(),
                );
                r.ftable_model() == table && final(diagnostics).model() == msgs
            }),
            r.scopes_model() == seq![
                sp_property_scope(properties_model(settings.properties@)),
            ],
            r.symtab_names_model() == sp_initial_symbols(
                properties_model(settings.properties@),
            ),
            r.symtab_properties_model() == properties_model(settings.properties@),
    {
        let mut rest: Vec<Function> = Vec::new();
        core::mem::swap(functions, &mut rest);
        let ghost origs = functions_model(rest@);
        let ghost msgs0 = diagnostics.model();

        let mut function_names: Vec<(String, FunctionId, Span)> = Vec::new();
        let mut out: Vec<Function> = Vec::new();
        let mut i: usize = 0;
        proof {
            assert(origs.skip(0int) =~= origs);
            assert(ftable_entries_model(function_names@) =~= Seq::<FunctionEntryV>::empty());
            assert(sp_assign_ids(origs).take(0int) =~= Seq::<FunctionV>::empty());
            assert(functions_model(out@) =~= Seq::<FunctionV>::empty());
        }
        while rest.len() > 0
            invariant
                i == out@.len(),
                i + rest@.len() == origs.len(),
                functions_model(rest@) == origs.skip(i as int),
                functions_model(out@) == sp_assign_ids(origs).take(i as int),
                sp_register_functions(origs, 0, Seq::empty(), msgs0) == sp_register_functions(
                    origs.skip(i as int),
                    i as int,
                    ftable_entries_model(function_names@),
                    diagnostics.model(),
                ),
            decreases rest@.len(),
        {
            let ghost rest0 = rest@;
            let ghost tbl_pre = ftable_entries_model(function_names@);
            let ghost msgs_pre = diagnostics.model();
            let mut f = rest.remove(0);
            let ghost fpre = f.model();
            proof {
                assert(rest@ =~= rest0.skip(1));
                assert(functions_model(rest@) =~= functions_model(rest0).skip(1));
                assert(fpre == functions_model(rest0)[0]);
                assert(origs.skip(i as int).skip(1) =~= origs.skip(i + 1));
                assert(origs.skip(i as int)[0] == fpre);
            }
            match find_function_entry(&function_names, &f.name) {
                Some(entry) => {
                    let message = CompilerErrorKind::FunctionAlreadyDeclared {
                        function_name: f.name.clone(),
                        old_function_declaration: entry.1,
                        new_function_declaration: f.span,
                    }.into_message(f.span);
                    proof {
                        assert(message.model() == sp_already_declared_message(
                            fpre.name,
                            entry.1,
                            fpre.span,
                        ));
                    }
                    diagnostics.add_message(message);
                    proof {
                        assert(sp_ftable_find(tbl_pre, fpre.name) is Some);
                        assert(sp_register_functions(
                            origs.skip(i as int),
                            i as int,
                            tbl_pre,
                            msgs_pre,
                        ) == sp_register_functions(
                            origs.skip(i + 1),
                            i + 1,
                            ftable_entries_model(function_names@),
                            diagnostics.model(),
                        ));
                    }
                },
                None => {
                    function_names.push((f.name.clone(), FunctionId(i), f.span));
                    proof {
                        assert(sp_ftable_find(tbl_pre, fpre.name) is None);
                        assert(ftable_entries_model(function_names@) =~= tbl_pre.push(
                            (fpre.name, FunctionId(i as usize), fpre.span),
                        ));
                        assert(sp_register_functions(
                            origs.skip(i as int),
                            i as int,
                            tbl_pre,
                            msgs_pre,
                        ) == sp_register_functions(
                            origs.skip(i + 1),
                            i + 1,
                            ftable_entries_model(function_names@),
                            diagnostics.model(),
                        ));
                    }
                },
            }
            let ghost out0 = out@;
            f.function_id = Some(FunctionId(i));
            out.push(f);
            i = out.len();
            proof {
                assert(functions_model(out@) =~= functions_model(out0).push(f.model()));
                assert(f.model() == sp_assign_ids(origs)[i - 1]);
                assert(sp_assign_ids(origs).take(i as int) =~= sp_assign_ids(origs).take(
                    i - 1,
                ).push(sp_assign_ids(origs)[i - 1]));
            }
        }
        proof {
            assert(origs.skip(i as int) =~= Seq::<FunctionV>::empty());
            assert(sp_assign_ids(origs).take(i as int) =~= sp_assign_ids(origs));
        }
        core::mem::swap(functions, &mut out);
        SymTabVisitor {
            symtab: SymTab::new(settings),
            symbol_names: NameTable::new(settings),
            function_names,
        }
    }

    /// The symbol registry built so far.
    pub fn get_symtab(&self) -> (r: &SymTab)
        ensures
            r.names_model() == self.symtab_names_model(),
            r.properties_mod() == self.symtab_properties_model(),
    {
        &self.symtab
    }

    /// Consumes the visitor, handing the symbol registry out.
    pub fn into_symtab(self) -> (r: SymTab)
        ensures
            r.names_model() == self.symtab_names_model(),
            r.properties_mod() == self.symtab_properties_model(),
    {
        self.symtab
    }

    /// Resolves one expression against the current scopes.
    pub fn visit_expr(&self, expr: Expression, diagnostics: &mut Diagnostics) -> (r: Expression)
        ensures
            ({
                let (e2, m2) = sp_resolve_expr(
                    expr.model(),
                    self.scopes_model(),
                    old(diagnostics).model(),
                    self.ftable_model(),
                );
                r.model() == e2 && final(diagnostics).model() == m2
            }),
        decreases expr,
    {
        let Expression { span, kind, symbol, function } = expr;
        match kind {
            ExpressionKind::Variable(name) => {
                match self.symbol_names.get(&name) {
                    Some(id) => Expression {
                        span,
                        kind: ExpressionKind::Variable(name),
                        symbol: Some(id),
                        function,
                    },
                    None => {
                        diagnostics.add_message(
                            CompilerErrorKind::UnknownVariable(name.clone()).into_message(span),
                        );
                        Expression { span, kind: ExpressionKind::Variable(name), symbol, function }
                    },
                }
            },
            ExpressionKind::BinaryOperation { lhs, operator, rhs } => {
                let l2 = self.visit_expr(*lhs, diagnostics);
                let r2 = self.visit_expr(*rhs, diagnostics);
                Expression {
                    span,
                    kind: ExpressionKind::BinaryOperation {
                        lhs: Box::new(l2),
                        operator,
                        rhs: Box::new(r2),
                    },
                    symbol,
                    function,
                }
            },
            ExpressionKind::Call { name, arguments } => {
                let fun = match find_function_entry(&self.function_names, &name) {
                    Some(entry) => Some(entry.0),
                    None => {
                        diagnostics.add_message(
                            CompilerErrorKind::UnknownFunction {
                                name: name.clone(),
                            }.into_message(span),
                        );
                        function
                    },
                };
                let args2 = self.visit_exprs(arguments, diagnostics);
                Expression {
                    span,
                    kind: ExpressionKind::Call { name, arguments: args2 },
                    symbol,
                    function: fun,
                }
            },
            other => Expression { span, kind: other, symbol, function },
        }
    }

    /// Resolves a list of expressions, left to right.
    pub fn visit_exprs(&self, es: Vec<Expression>, diagnostics: &mut Diagnostics) -> (r: Vec<
        Expression,
    >)
        ensures
            ({
                let (es2, m2) = sp_resolve_exprs(
                    exprs_model(es@),
                    self.scopes_model(),
                    old(diagnostics).model(),
                    self.ftable_model(),
                );
                exprs_model(r@) == es2 && final(diagnostics).model() == m2
            }),
        decreases es@,
    {
        let ghost es0 = es@;
        let mut rest = es;
        if rest.len() == 0 {
            proof {
                assert(exprs_model(es0).len() == 0);
            }
            return rest;
        }
        let first = rest.remove(0);
        proof {
            assert(rest@ =~= es0.skip(1));
            lemma_exprs_model_index(es0, 0);
            lemma_exprs_model_skip1(es0);
        }
        let e2 = self.visit_expr(first, diagnostics);
        let mut rest2 = self.visit_exprs(rest, diagnostics);
        let ghost pre = rest2@;
        rest2.insert(0, e2);
        proof {
            assert(rest2@ =~= seq![e2] + pre);
            lemma_exprs_model_prepend(e2, pre);
            assert(exprs_model(rest2@) == seq![e2.model()] + exprs_model(pre));
        }
        rest2
    }
}


impl SymTabVisitor {
    /// Resolves one statement, updating scopes and symbols as bindings
    /// appear.
    pub fn visit_stmt(&mut self, stmt: Statement, diagnostics: &mut Diagnostics) -> (r: Statement)
        requires
            old(self).scopes_model().len() >= 1,
        ensures
            ({
                let (s2, st2) = sp_resolve_stmt(
                    stmt.model(),
                    old(self).state_model(*old(diagnostics)),
                    old(self).ftable_model(),
                );
                r.model() == s2 && final(self).state_model(*final(diagnostics)) == st2
            }),
            final(self).ftable_model() == old(self).ftable_model(),
            final(self).symtab_properties_model() == old(self).symtab_properties_model(),
            final(self).scopes_model().len() == old(self).scopes_model().len(),
        decreases stmt, 0int,
    {
        proof {
            lemma_resolve_stmt_depth(
                stmt.model(),
                self.state_model(*diagnostics),
                self.ftable_model(),
            );
        }
        let Statement { span, kind, symbol, function, dead, loop_has_no_break } = stmt;
        match kind {
            StatementKind::VariableDeclaration { ident, value } => {
                let value2 = self.visit_expr(value, diagnostics);
                let symbol_id = self.symtab.new_symbol(&ident, span);
                self.symbol_names.insert(ident.clone(), symbol_id);
                Statement {
                    span,
                    kind: StatementKind::VariableDeclaration { ident, value: value2 },
                    symbol: Some(symbol_id),
                    function,
                    dead,
                    loop_has_no_break,
                }
            },
            StatementKind::Assignment { ident, value } => {
                let value2 = self.visit_expr(value, diagnostics);
                let sym = match self.symbol_names.get(&ident) {
                    Some(id) => Some(id),
                    None => {
                        diagnostics.add_message(
                            CompilerErrorKind::UnknownVariable(ident.clone()).into_message(span),
                        );
                        symbol
                    },
                };
                Statement {
                    span,
                    kind: StatementKind::Assignment { ident, value: value2 },
                    symbol: sym,
                    function,
                    dead,
                    loop_has_no_break,
                }
            },
            StatementKind::If { condition, true_block, false_block } => {
                let c2 = self.visit_expr(condition, diagnostics);
                let tb2 = self.visit_block(true_block, diagnostics);
                let fb2 = self.visit_block(false_block, diagnostics);
                Statement {
                    span,
                    kind: StatementKind::If {
                        condition: c2,
                        true_block: tb2,
                        false_block: fb2,
                    },
                    symbol,
                    function,
                    dead,
                    loop_has_no_break,
                }
            },
            StatementKind::Return { values } => {
                let vs2 = self.visit_exprs(values, diagnostics);
                Statement {
                    span,
                    kind: StatementKind::Return { values: vs2 },
                    symbol,
                    function,
                    dead,
                    loop_has_no_break,
                }
            },
            StatementKind::Block { block } => {
                let b2 = self.visit_block(block, diagnostics);
                Statement {
                    span,
                    kind: StatementKind::Block { block: b2 },
                    symbol,
                    function,
                    dead,
                    loop_has_no_break,
                }
            },
            StatementKind::Loop { block } => {
                let b2 = self.visit_block(block, diagnostics);
                Statement {
                    span,
                    kind: StatementKind::Loop { block: b2 },
                    symbol,
                    function,
                    dead,
                    loop_has_no_break,
                }
            },
            StatementKind::Call { name, arguments } => {
                let fun = match find_function_entry(&self.function_names, &name) {
                    Some(entry) => Some(entry.0),
                    None => {
                        diagnostics.add_message(
                            CompilerErrorKind::UnknownFunction {
                                name: name.clone(),
                            }.into_message(span),
                        );
                        function
                    },
                };
                let args2 = self.visit_exprs(arguments, diagnostics);
                Statement {
                    span,
                    kind: StatementKind::Call { name, arguments: args2 },
                    symbol,
                    function: fun,
                    dead,
                    loop_has_no_break,
                }
            },
            StatementKind::Spawn { name, arguments } => {
                let fun = match find_function_entry(&self.function_names, &name) {
                    Some(entry) => Some(entry.0),
                    None => {
                        diagnostics.add_message(
                            CompilerErrorKind::UnknownFunction {
                                name: name.clone(),
                            }.into_message(span),
                        );
                        function
                    },
                };
                let args2 = self.visit_exprs(arguments, diagnostics);
                Statement {
                    span,
                    kind: StatementKind::Spawn { name, arguments: args2 },
                    symbol,
                    function: fun,
                    dead,
                    loop_has_no_break,
                }
            },
            other => Statement {
                span,
                kind: other,
                symbol,
                function,
                dead,
                loop_has_no_break,
            },
        }
    }

    /// Resolves the statements of one block, in order.
    pub fn visit_stmts(&mut self, ss: Vec<Statement>, diagnostics: &mut Diagnostics) -> (r: Vec<
        Statement,
    >)
        requires
            old(self).scopes_model().len() >= 1,
        ensures
            ({
                let (ss2, st2) = sp_resolve_stmts(
                    stmts_model(ss@),
                    old(self).state_model(*old(diagnostics)),
                    old(self).ftable_model(),
                );
                stmts_model(r@) == ss2 && final(self).state_model(*final(diagnostics)) == st2
            }),
            final(self).ftable_model() == old(self).ftable_model(),
            final(self).symtab_properties_model() == old(self).symtab_properties_model(),
            final(self).scopes_model().len() == old(self).scopes_model().len(),
        decreases ss@, 0int,
    {
        let ghost ss0 = ss@;
        let mut rest = ss;
        if rest.len() == 0 {
            proof {
                assert(stmts_model(ss0).len() == 0);
            }
            return rest;
        }
        let first = rest.remove(0);
        proof {
            assert(rest@ =~= ss0.skip(1));
            lemma_stmts_model_index(ss0, 0);
            lemma_stmts_model_skip1(ss0);
        }
        let s2 = self.visit_stmt(first, diagnostics);
        let mut rest2 = self.visit_stmts(rest, diagnostics);
        let ghost pre = rest2@;
        rest2.insert(0, s2);
        proof {
            assert(rest2@ =~= seq![s2] + pre);
            lemma_stmts_model_prepend(s2, pre);
            assert(stmts_model(rest2@) == seq![s2.model()] + stmts_model(pre));
        }
        rest2
    }

    /// Resolves a nested block under a scope of its own.
    pub fn visit_block(
        &mut self,
        block: Vec<Statement>,
        diagnostics: &mut Diagnostics,
    ) -> (r: Vec<Statement>)
        requires
            old(self).scopes_model().len() >= 1,
        ensures
            ({
                let (ss2, st2) = sp_resolve_scoped_block(
                    stmts_model(block@),
                    old(self).state_model(*old(diagnostics)),
                    old(self).ftable_model(),
                );
                stmts_model(r@) == ss2 && final(self).state_model(*final(diagnostics)) == st2
            }),
            final(self).ftable_model() == old(self).ftable_model(),
            final(self).symtab_properties_model() == old(self).symtab_properties_model(),
            final(self).scopes_model().len() == old(self).scopes_model().len(),
        decreases block@, 1int,
    {
        self.symbol_names.push_scope();
        let r = self.visit_stmts(block, diagnostics);
        proof {
            assert(self.scopes_model().len() >= 2);
        }
        self.symbol_names.pop_scope();
        r
    }

    /// Binds the arguments of a function, each becoming a fresh symbol in
    /// the innermost scope.
    fn bind_args(&mut self, args: Vec<FunctionArgument>, diagnostics: &Diagnostics) -> (r: Vec<
        FunctionArgument,
    >)
        requires
            old(self).scopes_model().len() >= 1,
            forall|i: int|
                0 <= i < args@.len() ==> (#[trigger] args@[i]).name is Unresolved,
        ensures
            ({
                let (args2, st2) = sp_bind_args(
                    args_model(args@),
                    old(self).state_model(*diagnostics),
                );
                args_model(r@) == args2 && final(self).state_model(*diagnostics) == st2
            }),
            final(self).ftable_model() == old(self).ftable_model(),
            final(self).symtab_properties_model() == old(self).symtab_properties_model(),
            final(self).scopes_model().len() == old(self).scopes_model().len(),
        decreases args@,
    {
        let ghost args0 = args@;
        let mut rest = args;
        if rest.len() == 0 {
            proof {
                assert(args_model(args0).len() == 0);
            }
            return rest;
        }
        let first = rest.remove(0);
        proof {
            assert(rest@ =~= args0.skip(1));
            assert(args_model(rest@) =~= args_model(args0).skip(1));
            assert(first.model() == args_model(args0)[0]);
        }
        let FunctionArgument { span, t, name } = first;
        let name_string = match name {
            MaybeResolved::Unresolved(name_string) => name_string,
            MaybeResolved::Resolved(_) => unreached(),
        };
        let symbol_id = self.symtab.new_symbol(&name_string, span);
        self.symbol_names.insert(name_string, symbol_id);
        let first2 = FunctionArgument { span, t, name: MaybeResolved::Resolved(symbol_id) };
        let mut rest2 = self.bind_args(rest, diagnostics);
        let ghost pre = rest2@;
        rest2.insert(0, first2);
        proof {
            assert(rest2@ =~= seq![first2] + pre);
            assert(args_model(rest2@) =~= seq![first2.model()] + args_model(pre));
        }
        rest2
    }

    /// Resolves one function: its arguments are bound in a scope of their
    /// own, its body in a nested one, and both are gone afterwards.
    pub fn visit_function(&mut self, function: Function, diagnostics: &mut Diagnostics) -> (r:
        Function)
        requires
            old(self).scopes_model().len() >= 1,
            forall|i: int|
                0 <= i < function.arguments@.len() ==> (#[trigger] function.arguments@[i]).name
                    is Unresolved,
        ensures
            ({
                let (f2, st2) = sp_resolve_function(
                    function.model(),
                    old(self).state_model(*old(diagnostics)),
                    old(self).ftable_model(),
                );
                r.model() == f2 && final(self).state_model(*final(diagnostics)) == st2
            }),
            final(self).ftable_model() == old(self).ftable_model(),
            final(self).symtab_properties_model() == old(self).symtab_properties_model(),
            final(self).scopes_model().len() == old(self).scopes_model().len(),
    {
        let Function {
            name,
            span,
            statements,
            arguments,
            return_types,
            modifiers,
            function_id,
        } = function;
        self.symbol_names.push_scope();
        proof {
            assert(forall|i: int|
                0 <= i < arguments@.len() ==> (#[trigger] args_model(arguments@)[i]).name
                    is Unresolved);
        }
        let args2 = self.bind_args(arguments, diagnostics);
        let statements2 = self.visit_block(statements, diagnostics);
        proof {
            assert(self.scopes_model().len() >= 2);
        }
        self.symbol_names.pop_scope();
        Function {
            name,
            span,
            statements: statements2,
            arguments: args2,
            return_types,
            modifiers,
            function_id,
        }
    }
}

} // verus!
