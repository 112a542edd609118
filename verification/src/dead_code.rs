use vstd::prelude::*;

use crate::ast::{
    exprs_model, lemma_exprs_model_index, lemma_stmts_model_index, lemma_stmts_model_prepend,
    lemma_stmts_model_skip1, stmts_model, Expression, ExpressionKind,
    ExpressionKindV, ExpressionV, Function, FunctionV, Statement, StatementKind, StatementKindV,
    StatementV, SymbolId,
};
use crate::settings::CompileSettings;
use vstd::pervasive::VecAdditionalExecFns;

verus! {

// ---------------------------------------------------------------------------
// Dead code elimination: unreachable-statement pruning after control flow
// diverges, then backward liveness analysis and a sweep of unread pure
// bindings.
// ---------------------------------------------------------------------------

/// Pruning after divergence: once a block reaches `break` or `continue`,
/// nothing after it in that same block can ever run, so everything after
/// it is dropped. Nested branch and loop bodies are pruned independently.
pub open spec fn sp_prune_block(ss: Seq<StatementV>) -> Seq<StatementV>
    decreases ss, 0int,
{
    if ss.len() == 0 {
        ss
    } else {
        let s0 = ss[0];
        match s0.kind {
            StatementKindV::Break | StatementKindV::Continue => seq![s0],
            _ => seq![sp_prune_stmt(s0)] + sp_prune_block(ss.skip(1)),
        }
    }
}

pub open spec fn sp_prune_stmt(s: StatementV) -> StatementV
    decreases s, 1int,
{
    match s.kind {
        StatementKindV::If { condition, true_block, false_block } => StatementV {
            kind: StatementKindV::If {
                condition,
                true_block: sp_prune_block(true_block),
                false_block: sp_prune_block(false_block),
            },
            ..s
        },
        StatementKindV::Loop { block } => StatementV {
            kind: StatementKindV::Loop { block: sp_prune_block(block) },
            ..s
        },
        StatementKindV::Block { block } => StatementV {
            kind: StatementKindV::Block { block: sp_prune_block(block) },
            ..s
        },
        _ => s,
    }
}

// ---------------------------------------------------------------------------
// The used-symbol set of the backward liveness walk.
// ---------------------------------------------------------------------------

/// Entry `i` says whether symbol `i` is read on some path after the point
/// the backward walk has reached.
pub type UsedSetV = Seq<bool>;

pub open spec fn sp_used_mark(u: UsedSetV, id: int) -> UsedSetV {
    if 0 <= id < u.len() {
        u.update(id, true)
    } else {
        u
    }
}

/// Removing a symbol at its (re)definition: whatever need existed is now
/// satisfied. Reports whether the symbol was needed at all.
pub open spec fn sp_used_remove(u: UsedSetV, id: int) -> (UsedSetV, bool) {
    if 0 <= id < u.len() {
        (u.update(id, false), u[id])
    } else {
        (u, false)
    }
}

/// Host state is always live: a host observer may read any property at
/// any suspension or call, so property symbols are re-marked used.
pub open spec fn sp_used_poison_properties(u: UsedSetV, np: int) -> UsedSetV {
    Seq::new(u.len(), |i: int| i < np || u[i])
}

/// Either branch may run: a symbol needed by one is needed.
pub open spec fn sp_used_union(a: UsedSetV, b: UsedSetV) -> UsedSetV {
    Seq::new(a.len(), |i: int| a[i] || (0 <= i < b.len() && b[i]))
}

/// The reads an expression makes, walked into the used set. A call
/// re-marks every property: the callee may read them.
pub open spec fn sp_dce_expr(e: ExpressionV, u: UsedSetV, np: int) -> UsedSetV
    decreases e, 1int,
{
    match e.kind {
        ExpressionKindV::Variable(_) => {
            match e.symbol {
                Some(id) => sp_used_mark(u, id.0 as int),
                None => u,
            }
        },
        ExpressionKindV::BinaryOperation { lhs, operator, rhs } => {
            sp_dce_expr(*rhs, sp_dce_expr(*lhs, u, np), np)
        },
        ExpressionKindV::Call { name, arguments } => {
            sp_used_poison_properties(sp_dce_exprs(arguments, u, np), np)
        },
        _ => u,
    }
}

pub open spec fn sp_dce_exprs(es: Seq<ExpressionV>, u: UsedSetV, np: int) -> UsedSetV
    decreases es, 0int,
{
    if es.len() == 0 {
        u
    } else {
        sp_dce_exprs(es.skip(1), sp_dce_expr(es[0], u, np), np)
    }
}

/// The backward liveness walk over one statement. A binding whose target
/// is not needed at this point is flagged dead (when flagging is on) and
/// its right-hand side is not walked: a dead binding's computation is
/// dead too. Branch walks start from copies and are joined by union; a
/// loop body is walked twice, first without flagging purely to learn what
/// a later iteration needs, then for real with that knowledge folded in.
pub open spec fn sp_annotate_stmt(s: StatementV, u: UsedSetV, np: int, mark: bool) -> (
    StatementV,
    UsedSetV,
)
    decreases s, 1int,
{
    match s.kind {
        StatementKindV::Wait => (s, sp_used_poison_properties(u, np)),
        StatementKindV::VariableDeclaration { ident, value } => {
            match s.symbol {
                Some(id) => {
                    let (u1, was_used) = sp_used_remove(u, id.0 as int);
                    if !was_used {
                        (if mark {
                            StatementV { dead: true, ..s }
                        } else {
                            s
                        }, u1)
                    } else {
                        (s, sp_dce_expr(value, u1, np))
                    }
                },
                None => (s, sp_dce_expr(value, u, np)),
            }
        },
        StatementKindV::Assignment { ident, value } => {
            match s.symbol {
                Some(id) => {
                    let (u1, was_used) = sp_used_remove(u, id.0 as int);
                    if !was_used {
                        (if mark {
                            StatementV { dead: true, ..s }
                        } else {
                            s
                        }, u1)
                    } else {
                        (s, sp_dce_expr(value, u1, np))
                    }
                },
                None => (s, sp_dce_expr(value, u, np)),
            }
        },
        StatementKindV::If { condition, true_block, false_block } => {
            let (tb2, tu) = sp_annotate_block(true_block, u, np, mark);
            let (fb2, fu) = sp_annotate_block(false_block, u, np, mark);
            let u1 = sp_used_union(tu, fu);
            let u2 = sp_dce_expr(condition, u1, np);
            (
                StatementV {
                    kind: StatementKindV::If {
                        condition,
                        true_block: tb2,
                        false_block: fb2,
                    },
                    ..s
                },
                u2,
            )
        },
        StatementKindV::Loop { block } => {
            let (b_ex, u_ex) = sp_annotate_block(block, u, np, false);
            let u1 = sp_used_union(u, u_ex);
            let (b2, u2) = sp_annotate_block(block, u1, np, mark);
            (StatementV { kind: StatementKindV::Loop { block: b2 }, ..s }, u2)
        },
        StatementKindV::Block { block } => {
            let (b2, u2) = sp_annotate_block(block, u, np, mark);
            (StatementV { kind: StatementKindV::Block { block: b2 }, ..s }, u2)
        },
        StatementKindV::Call { name, arguments } => {
            (s, sp_used_poison_properties(sp_dce_exprs(arguments, u, np), np))
        },
        StatementKindV::Spawn { name, arguments } => (s, sp_dce_exprs(arguments, u, np)),
        StatementKindV::Return { values } => (s, sp_dce_exprs(values, u, np)),
        _ => (s, u),
    }
}

/// The backward walk over a block: the last statement is seen first.
pub open spec fn sp_annotate_block(ss: Seq<StatementV>, u: UsedSetV, np: int, mark: bool) -> (
    Seq<StatementV>,
    UsedSetV,
)
    decreases ss, 0int,
{
    if ss.len() == 0 {
        (ss, u)
    } else {
        let (l2, u1) = sp_annotate_stmt(ss.last(), u, np, mark);
        let (rest2, u2) = sp_annotate_block(ss.drop_last(), u1, np, mark);
        (rest2.push(l2), u2)
    }
}

/// The sweep: every statement flagged dead is deleted, everywhere.
pub open spec fn sp_sweep_block(ss: Seq<StatementV>) -> Seq<StatementV>
    decreases ss, 0int,
{
    if ss.len() == 0 {
        ss
    } else {
        let s1 = sp_sweep_stmt(ss[0]);
        (if s1.dead {
            Seq::empty()
        } else {
            seq![s1]
        }) + sp_sweep_block(ss.skip(1))
    }
}

pub open spec fn sp_sweep_stmt(s: StatementV) -> StatementV
    decreases s, 1int,
{
    match s.kind {
        StatementKindV::If { condition, true_block, false_block } => StatementV {
            kind: StatementKindV::If {
                condition,
                true_block: sp_sweep_block(true_block),
                false_block: sp_sweep_block(false_block),
            },
            ..s
        },
        StatementKindV::Loop { block } => StatementV {
            kind: StatementKindV::Loop { block: sp_sweep_block(block) },
            ..s
        },
        StatementKindV::Block { block } => StatementV {
            kind: StatementKindV::Block { block: sp_sweep_block(block) },
            ..s
        },
        _ => s,
    }
}

/// The used set every walk starts from: all properties live, nothing
/// else, over a universe of `num_symbols` symbols.
pub open spec fn sp_initial_used(num_symbols: int, np: int) -> UsedSetV {
    Seq::new(num_symbols as nat, |i: int| i < np)
}

/// Dead code elimination over one function: prune what diverging control
/// flow makes unreachable, walk liveness backward flagging unread pure
/// bindings, and sweep the flagged ones out.
pub open spec fn sp_dead_code_eliminate(f: FunctionV, num_symbols: int, np: int) -> FunctionV {
    let ss1 = sp_prune_block(f.statements);
    let (ss2, u) = sp_annotate_block(ss1, sp_initial_used(num_symbols, np), np, true);
    FunctionV { statements: sp_sweep_block(ss2), ..f }
}


/// The exploratory walk changes nothing: with flagging off, the walk
/// only computes a used set, and the block comes out as it went in.
pub proof fn lemma_annotate_stmt_unmarked(s: StatementV, u: UsedSetV, np: int)
    ensures
        sp_annotate_stmt(s, u, np, false).0 == s,
    decreases s, 1int,
{
    match s.kind {
        StatementKindV::If { condition, true_block, false_block } => {
            lemma_annotate_block_unmarked(true_block, u, np);
            let (tb2, tu) = sp_annotate_block(true_block, u, np, false);
            lemma_annotate_block_unmarked(false_block, u, np);
        },
        StatementKindV::Loop { block } => {
            let (b_ex, u_ex) = sp_annotate_block(block, u, np, false);
            let u1 = sp_used_union(u, u_ex);
            lemma_annotate_block_unmarked(block, u1, np);
        },
        StatementKindV::Block { block } => {
            lemma_annotate_block_unmarked(block, u, np);
        },
        _ => {},
    }
}

pub proof fn lemma_annotate_block_unmarked(ss: Seq<StatementV>, u: UsedSetV, np: int)
    ensures
        sp_annotate_block(ss, u, np, false).0 == ss,
    decreases ss, 0int,
{
    if ss.len() > 0 {
        lemma_annotate_stmt_unmarked(ss.last(), u, np);
        let (l2, u1) = sp_annotate_stmt(ss.last(), u, np, false);
        lemma_annotate_block_unmarked(ss.drop_last(), u1, np);
        assert(sp_annotate_block(ss, u, np, false).0 =~= ss);
    }
}


// ---------------------------------------------------------------------------
// The executable used-symbol set.
// ---------------------------------------------------------------------------

/// The set of symbols some later point still reads, over a fixed universe
/// of symbol ids.
#[derive(Debug)]
pub struct UsedAssignmentsSet {
    used: Vec<bool>,
}

impl UsedAssignmentsSet {
    pub closed spec fn model(self) -> UsedSetV {
        self.used@
    }

    /// The empty set over a universe of `num_symbols` symbols.
    pub fn new(num_symbols: usize) -> (r: UsedAssignmentsSet)
        ensures
            r.model() == Seq::new(num_symbols as nat, |i: int| false),
    {
        let mut used: Vec<bool> = Vec::new();
        let mut i: usize = 0;
        while i < num_symbols
            invariant
                i <= num_symbols,
                used@.len() == i,
                forall|j: int| 0 <= j < i ==> !(#[trigger] used@[j]),
            decreases num_symbols - i,
        {
            used.push(false);
            i += 1;
        }
        let r = UsedAssignmentsSet { used };
        proof {
            assert(r.model() =~= Seq::new(num_symbols as nat, |i: int| false));
        }
        r
    }

    /// Marks every property symbol live: host state is always observable.
    pub fn poison_properties(&mut self, compile_settings: &CompileSettings)
        ensures
            final(self).model() == sp_used_poison_properties(
                old(self).model(),
                compile_settings.properties@.len() as int,
            ),
    {
        let ghost m0 = self.model();
        let num = compile_settings.num_properties();
        let mut i: usize = 0;
        while i < num && i < self.used.len()
            invariant
                self.used@.len() == m0.len(),
                forall|j: int|
                    0 <= j < m0.len() ==> #[trigger] self.used@[j] == (if j < i && j < num {
                        true
                    } else {
                        m0[j]
                    }),
            decreases self.used@.len() - i,
        {
            self.used.set(i, true);
            i += 1;
        }
        proof {
            assert(self.used@ =~= sp_used_poison_properties(
                m0,
                compile_settings.properties@.len() as int,
            ));
        }
    }

    /// Marks one symbol live.
    pub fn used(&mut self, symbol: SymbolId)
        ensures
            final(self).model() == sp_used_mark(old(self).model(), symbol.0 as int),
    {
        if symbol.0 < self.used.len() {
            self.used.set(symbol.0, true);
        }
        proof {
            assert(self.model() =~= sp_used_mark(old(self).model(), symbol.0 as int));
        }
    }

    /// Takes one symbol out at its definition, saying whether anything
    /// later still needed it.
    pub fn remove(&mut self, symbol: SymbolId) -> (r: bool)
        ensures
            (final(self).model(), r) == sp_used_remove(old(self).model(), symbol.0 as int),
    {
        if symbol.0 < self.used.len() {
            let was = self.used[symbol.0];
            self.used.set(symbol.0, false);
            proof {
                assert(self.model() =~= sp_used_remove(old(self).model(), symbol.0 as int).0);
            }
            was
        } else {
            false
        }
    }

    /// The union of what two branches need.
    pub fn combine(self, other: UsedAssignmentsSet) -> (r: UsedAssignmentsSet)
        ensures
            r.model() == sp_used_union(self.model(), other.model()),
    {
        let ghost a = self.model();
        let mut out = self;
        out.absorb(other);
        out
    }

    /// Folds another set's needs into this one.
    pub fn absorb(&mut self, other: UsedAssignmentsSet)
        ensures
            final(self).model() == sp_used_union(old(self).model(), other.model()),
    {
        let ghost m0 = self.model();
        let mut i: usize = 0;
        while i < self.used.len()
            invariant
                self.used@.len() == m0.len(),
                forall|j: int|
                    i <= j < m0.len() ==> #[trigger] self.used@[j] == m0[j],
                forall|j: int|
                    0 <= j < i && j < m0.len() ==> #[trigger] self.used@[j] == sp_used_union(
                        m0,
                        other.model(),
                    )[j],
            decreases self.used@.len() - i,
        {
            let o = if i < other.used.len() {
                other.used[i]
            } else {
                false
            };
            if o {
                self.used.set(i, true);
            }
            i += 1;
        }
        proof {
            assert(self.used@ =~= sp_used_union(m0, other.model()));
        }
    }

    /// An independent copy, for walking one branch of an `if`.
    pub fn snapshot(&self) -> (r: UsedAssignmentsSet)
        ensures
            r.model() == self.model(),
    {
        let mut used: Vec<bool> = Vec::new();
        let mut i: usize = 0;
        while i < self.used.len()
            invariant
                i <= self.used@.len(),
                used@ =~= self.used@.take(i as int),
            decreases self.used@.len() - i,
        {
            used.push(self.used[i]);
            proof {
                assert(used@ =~= self.used@.take(i + 1));
            }
            i += 1;
        }
        proof {
            assert(self.used@.take(self.used@.len() as int) =~= self.used@);
        }
        UsedAssignmentsSet { used }
    }
}

// ---------------------------------------------------------------------------
// The executable passes.
// ---------------------------------------------------------------------------

/// Drops everything after the first `break` or `continue` of each block.
pub fn eliminate_after_control_flow_diverge(block: Vec<Statement>) -> (r: Vec<Statement>)
    ensures
        stmts_model(r@) == sp_prune_block(stmts_model(block@)),
    decreases stmts_model(block@), 0int,
{
    let ghost b0 = block@;
    let mut rest = block;
    if rest.len() == 0 {
        proof {
            assert(stmts_model(b0).len() == 0);
        }
        return rest;
    }
    let first = rest.remove(0);
    proof {
        assert(rest@ =~= b0.skip(1));
        lemma_stmts_model_index(b0, 0);
        lemma_stmts_model_skip1(b0);
    }
    if matches!(&first.kind, StatementKind::Break | StatementKind::Continue) {
        let mut out: Vec<Statement> = Vec::new();
        out.push(first);
        proof {
            reveal_with_fuel(stmts_model, 2);
            assert(out@ =~= seq![first]);
            assert(seq![first].skip(1) =~= Seq::<Statement>::empty());
            assert(stmts_model(out@) =~= seq![stmts_model(b0)[0]]);
        }
        return out;
    }
    let first2 = prune_statement(first);
    let mut rest2 = eliminate_after_control_flow_diverge(rest);
    let ghost pre = rest2@;
    rest2.insert(0, first2);
    proof {
        assert(rest2@ =~= seq![first2] + pre);
        crate::ast::lemma_stmts_model_prepend(first2, pre);
    }
    rest2
}

fn prune_statement(s: Statement) -> (r: Statement)
    ensures
        r.model() == sp_prune_stmt(s.model()),
    decreases s.model(), 1int,
{
    let Statement { span, kind, symbol, function, dead, loop_has_no_break } = s;
    match kind {
        StatementKind::If { condition, true_block, false_block } => {
            let tb2 = eliminate_after_control_flow_diverge(true_block);
            let fb2 = eliminate_after_control_flow_diverge(false_block);
            Statement {
                span,
                kind: StatementKind::If { condition, true_block: tb2, false_block: fb2 },
                symbol,
                function,
                dead,
                loop_has_no_break,
            }
        },
        StatementKind::Loop { block } => {
            let b2 = eliminate_after_control_flow_diverge(block);
            Statement {
                span,
                kind: StatementKind::Loop { block: b2 },
                symbol,
                function,
                dead,
                loop_has_no_break,
            }
        },
        StatementKind::Block { block } => {
            let b2 = eliminate_after_control_flow_diverge(block);
            Statement {
                span,
                kind: StatementKind::Block { block: b2 },
                symbol,
                function,
                dead,
                loop_has_no_break,
            }
        },
        other => Statement { span, kind: other, symbol, function, dead, loop_has_no_break },
    }
}

/// Walks the reads of one expression into the used set.
pub fn dead_code_visit_expression(
    expression: &Expression,
    used_symbols: &mut UsedAssignmentsSet,
    compile_settings: &CompileSettings,
)
    ensures
        final(used_symbols).model() == sp_dce_expr(
            expression.model(),
            old(used_symbols).model(),
            compile_settings.properties@.len() as int,
        ),
    decreases *expression, 1int,
{
    match &expression.kind {
        ExpressionKind::Variable(_) => {
            match expression.symbol {
                Some(id) => used_symbols.used(id),
                None => {},
            }
        },
        ExpressionKind::BinaryOperation { lhs, operator, rhs } => {
            dead_code_visit_expression(lhs, used_symbols, compile_settings);
            dead_code_visit_expression(rhs, used_symbols, compile_settings);
        },
        ExpressionKind::Call { arguments, .. } => {
            dead_code_visit_expressions(arguments, used_symbols, compile_settings);
            used_symbols.poison_properties(compile_settings);
        },
        _ => {},
    }
}

fn dead_code_visit_expressions(
    expressions: &Vec<Expression>,
    used_symbols: &mut UsedAssignmentsSet,
    compile_settings: &CompileSettings,
)
    ensures
        final(used_symbols).model() == sp_dce_exprs(
            exprs_model(expressions@),
            old(used_symbols).model(),
            compile_settings.properties@.len() as int,
        ),
    decreases expressions@, 0int,
{
    let ghost es0 = exprs_model(expressions@);
    let mut i: usize = 0;
    proof {
        crate::ast::lemma_exprs_model_len(expressions@);
        assert(es0.skip(0int) =~= es0);
    }
    while i < expressions.len()
        invariant
            i <= expressions@.len(),
            es0 == exprs_model(expressions@),
            es0.len() == expressions@.len(),
            sp_dce_exprs(es0, old(used_symbols).model(), compile_settings.properties@.len() as int)
                == sp_dce_exprs(
                es0.skip(i as int),
                used_symbols.model(),
                compile_settings.properties@.len() as int,
            ),
        decreases expressions@.len() - i,
    {
        proof {
            lemma_exprs_model_index(expressions@, i as int);
            assert(es0.skip(i as int)[0] == es0[i as int]);
            assert(es0.skip(i as int).skip(1) =~= es0.skip(i + 1));
        }
        dead_code_visit_expression(&expressions[i], used_symbols, compile_settings);
        i += 1;
    }
    proof {
        assert(es0.skip(i as int) =~= Seq::<ExpressionV>::empty());
    }
}

/// The backward liveness walk over one statement.
pub fn annotate_dead_statement(
    statement: Statement,
    used_symbols: &mut UsedAssignmentsSet,
    compile_settings: &CompileSettings,
    mark_as_dead: bool,
) -> (r: Statement)
    ensures
        ({
            let (s2, u2) = sp_annotate_stmt(
                statement.model(),
                old(used_symbols).model(),
                compile_settings.properties@.len() as int,
                mark_as_dead,
            );
            r.model() == s2 && final(used_symbols).model() == u2
        }),
    decreases statement.model(), 1int,
{
    let Statement { span, kind, symbol, function, dead, loop_has_no_break } = statement;
    match kind {
        StatementKind::Wait => {
            used_symbols.poison_properties(compile_settings);
            Statement { span, kind: StatementKind::Wait, symbol, function, dead, loop_has_no_break }
        },
        StatementKind::VariableDeclaration { ident, value } => {
            let (d2, value2) = annotate_binding(
                symbol,
                value,
                used_symbols,
                compile_settings,
                mark_as_dead,
                dead,
            );
            Statement {
                span,
                kind: StatementKind::VariableDeclaration { ident, value: value2 },
                symbol,
                function,
                dead: d2,
                loop_has_no_break,
            }
        },
        StatementKind::Assignment { ident, value } => {
            let (d2, value2) = annotate_binding(
                symbol,
                value,
                used_symbols,
                compile_settings,
                mark_as_dead,
                dead,
            );
            Statement {
                span,
                kind: StatementKind::Assignment { ident, value: value2 },
                symbol,
                function,
                dead: d2,
                loop_has_no_break,
            }
        },
        StatementKind::If { condition, true_block, false_block } => {
            let mut true_used = used_symbols.snapshot();
            let tb2 = annotate_dead_statements(
                true_block,
                &mut true_used,
                compile_settings,
                mark_as_dead,
            );
            let mut false_used = used_symbols.snapshot();
            let fb2 = annotate_dead_statements(
                false_block,
                &mut false_used,
                compile_settings,
                mark_as_dead,
            );
            let merged = true_used.combine(false_used);
            *used_symbols = merged;
            dead_code_visit_expression(&condition, used_symbols, compile_settings);
            Statement {
                span,
                kind: StatementKind::If { condition, true_block: tb2, false_block: fb2 },
                symbol,
                function,
                dead,
                loop_has_no_break,
            }
        },
        StatementKind::Loop { block } => {
            let ghost block_m = stmts_model(block@);
            let ghost u0 = used_symbols.model();
            let mut analyse_existing = used_symbols.snapshot();
            let b_ex = annotate_dead_statements(
                block,
                &mut analyse_existing,
                compile_settings,
                false,
            );
            proof {
                lemma_annotate_block_unmarked(
                    block_m,
                    u0,
                    compile_settings.properties@.len() as int,
                );
                assert(stmts_model(b_ex@) == block_m);
            }
            used_symbols.absorb(analyse_existing);
            let b2 = annotate_dead_statements(b_ex, used_symbols, compile_settings, mark_as_dead);
            Statement {
                span,
                kind: StatementKind::Loop { block: b2 },
                symbol,
                function,
                dead,
                loop_has_no_break,
            }
        },
        StatementKind::Block { block } => {
            let b2 = annotate_dead_statements(block, used_symbols, compile_settings, mark_as_dead);
            Statement {
                span,
                kind: StatementKind::Block { block: b2 },
                symbol,
                function,
                dead,
                loop_has_no_break,
            }
        },
        StatementKind::Call { name, arguments } => {
            dead_code_visit_expressions(&arguments, used_symbols, compile_settings);
            used_symbols.poison_properties(compile_settings);
            Statement {
                span,
                kind: StatementKind::Call { name, arguments },
                symbol,
                function,
                dead,
                loop_has_no_break,
            }
        },
        StatementKind::Spawn { name, arguments } => {
            dead_code_visit_expressions(&arguments, used_symbols, compile_settings);
            Statement {
                span,
                kind: StatementKind::Spawn { name, arguments },
                symbol,
                function,
                dead,
                loop_has_no_break,
            }
        },
        StatementKind::Return { values } => {
            dead_code_visit_expressions(&values, used_symbols, compile_settings);
            Statement {
                span,
                kind: StatementKind::Return { values },
                symbol,
                function,
                dead,
                loop_has_no_break,
            }
        },
        other => Statement { span, kind: other, symbol, function, dead, loop_has_no_break },
    }
}

/// The shared handling of a declaration or assignment: take the target
/// out of the set; if nothing needed it, flag the binding (when flagging
/// is on) and leave its computation unwalked.
fn annotate_binding(
    symbol: Option<SymbolId>,
    value: Expression,
    used_symbols: &mut UsedAssignmentsSet,
    compile_settings: &CompileSettings,
    mark_as_dead: bool,
    dead: bool,
) -> (r: (bool, Expression))
    ensures
        ({
            let np = compile_settings.properties@.len() as int;
            match symbol {
                Some(id) => {
                    let (u1, was_used) = sp_used_remove(old(used_symbols).model(), id.0 as int);
                    if !was_used {
                        r.0 == (if mark_as_dead {
                            true
                        } else {
                            dead
                        }) && r.1 == value && final(used_symbols).model() == u1
                    } else {
                        r.0 == dead && r.1 == value && final(used_symbols).model() == sp_dce_expr(
                            value.model(),
                            u1,
                            np,
                        )
                    }
                },
                None => r.0 == dead && r.1 == value && final(used_symbols).model() == sp_dce_expr(
                    value.model(),
                    old(used_symbols).model(),
                    np,
                ),
            }
        }),
{
    match symbol {
        Some(id) => {
            let symbol_is_used = used_symbols.remove(id);
            if !symbol_is_used {
                if mark_as_dead {
                    (true, value)
                } else {
                    (dead, value)
                }
            } else {
                dead_code_visit_expression(&value, used_symbols, compile_settings);
                (dead, value)
            }
        },
        None => {
            dead_code_visit_expression(&value, used_symbols, compile_settings);
            (dead, value)
        },
    }
}

/// The backward liveness walk over a block: last statement first.
pub fn annotate_dead_statements(
    block: Vec<Statement>,
    used_symbols: &mut UsedAssignmentsSet,
    compile_settings: &CompileSettings,
    mark_as_dead: bool,
) -> (r: Vec<Statement>)
    ensures
        ({
            let (ss2, u2) = sp_annotate_block(
                stmts_model(block@),
                old(used_symbols).model(),
                compile_settings.properties@.len() as int,
                mark_as_dead,
            );
            stmts_model(r@) == ss2 && final(used_symbols).model() == u2
        }),
    decreases stmts_model(block@), 0int,
{
    let ghost b0 = block@;
    let mut rest = block;
    if rest.len() == 0 {
        proof {
            assert(stmts_model(b0).len() == 0);
        }
        return rest;
    }
    let last = match rest.pop() {
        Some(last) => last,
        None => unreached(),
    };
    proof {
        crate::ast::lemma_stmts_model_len(b0);
        assert(rest@ =~= b0.drop_last());
        lemma_stmts_model_index(b0, b0.len() - 1);
        lemma_stmts_model_drop_last(b0);
        assert(last.model() == stmts_model(b0).last());
    }
    let last2 = annotate_dead_statement(last, used_symbols, compile_settings, mark_as_dead);
    let mut rest2 = annotate_dead_statements(rest, used_symbols, compile_settings, mark_as_dead);
    let ghost pre = rest2@;
    rest2.push(last2);
    proof {
        crate::ast::lemma_stmts_model_push(pre, last2);
    }
    rest2
}

/// Drops every statement the walk flagged dead.
pub fn sweep_dead_statements(block: Vec<Statement>) -> (r: Vec<Statement>)
    ensures
        stmts_model(r@) == sp_sweep_block(stmts_model(block@)),
    decreases stmts_model(block@), 0int,
{
    let ghost b0 = block@;
    let mut rest = block;
    if rest.len() == 0 {
        proof {
            assert(stmts_model(b0).len() == 0);
        }
        return rest;
    }
    let first = rest.remove(0);
    proof {
        assert(rest@ =~= b0.skip(1));
        lemma_stmts_model_index(b0, 0);
        lemma_stmts_model_skip1(b0);
    }
    let first2 = sweep_statement(first);
    let mut rest2 = sweep_dead_statements(rest);
    if first2.dead {
        proof {
            assert(stmts_model(rest2@) =~= (Seq::<StatementV>::empty() + stmts_model(rest2@)));
        }
        return rest2;
    }
    let ghost pre = rest2@;
    rest2.insert(0, first2);
    proof {
        assert(rest2@ =~= seq![first2] + pre);
        crate::ast::lemma_stmts_model_prepend(first2, pre);
    }
    rest2
}

fn sweep_statement(s: Statement) -> (r: Statement)
    ensures
        r.model() == sp_sweep_stmt(s.model()),
    decreases s.model(), 1int,
{
    let Statement { span, kind, symbol, function, dead, loop_has_no_break } = s;
    match kind {
        StatementKind::If { condition, true_block, false_block } => {
            let tb2 = sweep_dead_statements(true_block);
            let fb2 = sweep_dead_statements(false_block);
            Statement {
                span,
                kind: StatementKind::If { condition, true_block: tb2, false_block: fb2 },
                symbol,
                function,
                dead,
                loop_has_no_break,
            }
        },
        StatementKind::Loop { block } => {
            let b2 = sweep_dead_statements(block);
            Statement {
                span,
                kind: StatementKind::Loop { block: b2 },
                symbol,
                function,
                dead,
                loop_has_no_break,
            }
        },
        StatementKind::Block { block } => {
            let b2 = sweep_dead_statements(block);
            Statement {
                span,
                kind: StatementKind::Block { block: b2 },
                symbol,
                function,
                dead,
                loop_has_no_break,
            }
        },
        other => Statement { span, kind: other, symbol, function, dead, loop_has_no_break },
    }
}

/// Runs dead code elimination over one function: pruning after diverging
/// control flow, the backward liveness walk, and the sweep. The walk
/// needs to know the whole symbol universe, so the caller passes how many
/// symbols the compilation created.
pub fn dead_code_eliminate(
    function: Function,
    compile_settings: &CompileSettings,
    num_symbols: usize,
) -> (r: Function)
    ensures
        r.model() == sp_dead_code_eliminate(
            function.model(),
            num_symbols as int,
            compile_settings.properties@.len() as int,
        ),
{
    let Function { name, span, statements, arguments, return_types, modifiers, function_id } =
        function;
    let pruned = eliminate_after_control_flow_diverge(statements);
    let mut used_symbols = UsedAssignmentsSet::new(num_symbols);
    used_symbols.poison_properties(compile_settings);
    proof {
        assert(used_symbols.model() =~= sp_initial_used(
            num_symbols as int,
            compile_settings.properties@.len() as int,
        ));
    }
    let annotated = annotate_dead_statements(pruned, &mut used_symbols, compile_settings, true);
    let swept = sweep_dead_statements(annotated);
    Function {
        name,
        span,
        statements: swept,
        arguments,
        return_types,
        modifiers,
        function_id,
    }
}

/// Dropping the last statement of a block drops the last model too.
pub proof fn lemma_stmts_model_drop_last(ss: Seq<Statement>)
    requires
        ss.len() > 0,
    ensures
        stmts_model(ss.drop_last()) == stmts_model(ss).drop_last(),
{
    crate::ast::lemma_stmts_model_len(ss);
    assert forall|i: int| 0 <= i < ss.len() - 1 implies stmts_model(ss.drop_last())[i]
        == stmts_model(ss).drop_last()[i] by {
        crate::ast::lemma_stmts_model_len(ss.drop_last());
        lemma_stmts_model_index(ss.drop_last(), i);
        lemma_stmts_model_index(ss, i);
        assert(ss.drop_last()[i] == ss[i]);
    }
    crate::ast::lemma_stmts_model_len(ss.drop_last());
    assert(stmts_model(ss.drop_last()) =~= stmts_model(ss).drop_last());
}


// ---------------------------------------------------------------------------
// Laws of the elimination.
// ---------------------------------------------------------------------------

/// Pruning a second time finds nothing: after one pruning, no block holds
/// anything after a `break` or `continue`.
pub proof fn lemma_prune_idempotent(ss: Seq<StatementV>)
    ensures
        sp_prune_block(sp_prune_block(ss)) == sp_prune_block(ss),
    decreases ss, 0int,
{
    if ss.len() > 0 {
        let s0 = ss[0];
        match s0.kind {
            StatementKindV::Break | StatementKindV::Continue => {
                assert(sp_prune_block(seq![s0]) =~= seq![s0]);
            },
            _ => {
                lemma_prune_stmt_idempotent(s0);
                lemma_prune_idempotent(ss.skip(1));
                let out = seq![sp_prune_stmt(s0)] + sp_prune_block(ss.skip(1));
                assert(out[0] == sp_prune_stmt(s0));
                assert(out.skip(1) =~= sp_prune_block(ss.skip(1)));
                assert(sp_prune_block(out) =~= sp_prune_block(ss));
            },
        }
    }
}

pub proof fn lemma_prune_stmt_idempotent(s: StatementV)
    ensures
        sp_prune_stmt(sp_prune_stmt(s)) == sp_prune_stmt(s),
    decreases s, 1int,
{
    match s.kind {
        StatementKindV::If { condition, true_block, false_block } => {
            lemma_prune_idempotent(true_block);
            lemma_prune_idempotent(false_block);
        },
        StatementKindV::Loop { block } => {
            lemma_prune_idempotent(block);
        },
        StatementKindV::Block { block } => {
            lemma_prune_idempotent(block);
        },
        _ => {},
    }
}

/// Whether this statement is one with an observable effect: a suspension,
/// a call, a spawned task, or a return.
pub open spec fn sp_stmt_effectful(s: StatementV) -> bool {
    match s.kind {
        StatementKindV::Wait
        | StatementKindV::Call { .. }
        | StatementKindV::Spawn { .. }
        | StatementKindV::Return { .. } => true,
        _ => false,
    }
}

/// How many statements with observable effects a tree holds, nested ones
/// included.
pub open spec fn sp_count_effectful(ss: Seq<StatementV>) -> nat
    decreases ss, 0int,
{
    if ss.len() == 0 {
        0
    } else {
        sp_count_effectful_stmt(ss[0]) + sp_count_effectful(ss.skip(1))
    }
}

pub open spec fn sp_count_effectful_stmt(s: StatementV) -> nat
    decreases s, 1int,
{
    (if sp_stmt_effectful(s) {
        1nat
    } else {
        0nat
    }) + (match s.kind {
        StatementKindV::If { true_block, false_block, .. } => sp_count_effectful(true_block)
            + sp_count_effectful(false_block),
        StatementKindV::Loop { block } => sp_count_effectful(block),
        StatementKindV::Block { block } => sp_count_effectful(block),
        _ => 0nat,
    })
}

/// No statement with an observable effect, and no branch, loop or block
/// around one, carries a dead flag. This holds of every tree the front
/// end builds (flags are this pass's own fact), and the walk keeps it.
pub open spec fn sp_effect_flags_clear(ss: Seq<StatementV>) -> bool
    decreases ss, 0int,
{
    if ss.len() == 0 {
        true
    } else {
        sp_effect_flags_clear_stmt(ss[0]) && sp_effect_flags_clear(ss.skip(1))
    }
}

pub open spec fn sp_effect_flags_clear_stmt(s: StatementV) -> bool
    decreases s, 1int,
{
    match s.kind {
        StatementKindV::Wait
        | StatementKindV::Call { .. }
        | StatementKindV::Spawn { .. }
        | StatementKindV::Return { .. } => !s.dead,
        StatementKindV::If { true_block, false_block, .. } => !s.dead && sp_effect_flags_clear(
            true_block,
        ) && sp_effect_flags_clear(false_block),
        StatementKindV::Loop { block } => !s.dead && sp_effect_flags_clear(block),
        StatementKindV::Block { block } => !s.dead && sp_effect_flags_clear(block),
        _ => true,
    }
}

/// The walk flags only pure bindings: effectful statements and the
/// containers around them stay unflagged, and nothing is added or lost.
pub proof fn lemma_annotate_keeps_effects(ss: Seq<StatementV>, u: UsedSetV, np: int, mark: bool)
    requires
        sp_effect_flags_clear(ss),
    ensures
        ({
            let (ss2, u2) = sp_annotate_block(ss, u, np, mark);
            sp_effect_flags_clear(ss2) && sp_count_effectful(ss2) == sp_count_effectful(ss)
                && ss2.len() == ss.len()
        }),
    decreases ss, 0int,
{
    if ss.len() > 0 {
        assert(sp_effect_flags_clear_stmt(ss.last())) by {
            lemma_effect_flags_clear_index(ss, ss.len() - 1);
        }
        lemma_annotate_stmt_keeps_effects(ss.last(), u, np, mark);
        let (l2, u1) = sp_annotate_stmt(ss.last(), u, np, mark);
        assert(sp_effect_flags_clear(ss.drop_last())) by {
            lemma_effect_flags_clear_drop_last(ss);
        }
        lemma_annotate_keeps_effects(ss.drop_last(), u1, np, mark);
        let (rest2, u2) = sp_annotate_block(ss.drop_last(), u1, np, mark);
        lemma_effect_helpers_push(rest2, l2);
        lemma_count_effectful_split(ss);
    }
}

pub proof fn lemma_annotate_stmt_keeps_effects(s: StatementV, u: UsedSetV, np: int, mark: bool)
    requires
        sp_effect_flags_clear_stmt(s),
    ensures
        ({
            let (s2, u2) = sp_annotate_stmt(s, u, np, mark);
            sp_effect_flags_clear_stmt(s2) && sp_count_effectful_stmt(s2)
                == sp_count_effectful_stmt(s)
        }),
    decreases s, 1int,
{
    match s.kind {
        StatementKindV::If { condition, true_block, false_block } => {
            lemma_annotate_keeps_effects(true_block, u, np, mark);
            let (tb2, tu) = sp_annotate_block(true_block, u, np, mark);
            lemma_annotate_keeps_effects(false_block, u, np, mark);
        },
        StatementKindV::Loop { block } => {
            let (b_ex, u_ex) = sp_annotate_block(block, u, np, false);
            let u1 = sp_used_union(u, u_ex);
            lemma_annotate_keeps_effects(block, u1, np, mark);
        },
        StatementKindV::Block { block } => {
            lemma_annotate_keeps_effects(block, u, np, mark);
        },
        _ => {},
    }
}

/// The sweep deletes only flagged statements, and no effectful statement
/// or container around one is flagged: every one of them survives.
pub proof fn lemma_sweep_keeps_effects(ss: Seq<StatementV>)
    requires
        sp_effect_flags_clear(ss),
    ensures
        sp_count_effectful(sp_sweep_block(ss)) == sp_count_effectful(ss),
        sp_effect_flags_clear(sp_sweep_block(ss)),
    decreases ss, 0int,
{
    if ss.len() > 0 {
        lemma_effect_flags_clear_index(ss, 0);
        lemma_sweep_stmt_keeps_effects(ss[0]);
        let s1 = sp_sweep_stmt(ss[0]);
        assert(sp_effect_flags_clear(ss.skip(1)) && sp_count_effectful(ss)
            == sp_count_effectful_stmt(ss[0]) + sp_count_effectful(ss.skip(1)));
        lemma_sweep_keeps_effects(ss.skip(1));
        if s1.dead {
            assert(sp_count_effectful_stmt(ss[0]) == 0) by {
                lemma_dead_clear_stmt_no_effects(ss[0]);
            }
            assert((Seq::<StatementV>::empty() + sp_sweep_block(ss.skip(1))) =~= sp_sweep_block(
                ss.skip(1),
            ));
        } else {
            let out = seq![s1] + sp_sweep_block(ss.skip(1));
            assert(out[0] == s1);
            assert(out.skip(1) =~= sp_sweep_block(ss.skip(1)));
        }
    }
}

pub proof fn lemma_sweep_stmt_keeps_effects(s: StatementV)
    requires
        sp_effect_flags_clear_stmt(s),
    ensures
        sp_count_effectful_stmt(sp_sweep_stmt(s)) == sp_count_effectful_stmt(s),
        sp_effect_flags_clear_stmt(sp_sweep_stmt(s)),
    decreases s, 1int,
{
    match s.kind {
        StatementKindV::If { condition, true_block, false_block } => {
            lemma_sweep_keeps_effects(true_block);
            lemma_sweep_keeps_effects(false_block);
        },
        StatementKindV::Loop { block } => {
            lemma_sweep_keeps_effects(block);
        },
        StatementKindV::Block { block } => {
            lemma_sweep_keeps_effects(block);
        },
        _ => {},
    }
}

/// A flagged statement that satisfies clearness is a pure binding, and
/// a pure binding holds no effectful statement.
proof fn lemma_dead_clear_stmt_no_effects(s: StatementV)
    requires
        sp_effect_flags_clear_stmt(s),
        sp_sweep_stmt(s).dead,
    ensures
        sp_count_effectful_stmt(s) == 0,
{
}

proof fn lemma_effect_flags_clear_index(ss: Seq<StatementV>, i: int)
    requires
        sp_effect_flags_clear(ss),
        0 <= i < ss.len(),
    ensures
        sp_effect_flags_clear_stmt(ss[i]),
    decreases ss,
{
    if i > 0 {
        lemma_effect_flags_clear_index(ss.skip(1), i - 1);
    }
}

proof fn lemma_effect_flags_clear_drop_last(ss: Seq<StatementV>)
    requires
        sp_effect_flags_clear(ss),
        ss.len() > 0,
    ensures
        sp_effect_flags_clear(ss.drop_last()),
    decreases ss,
{
    if ss.len() > 1 {
        assert(ss.skip(1).drop_last() =~= ss.drop_last().skip(1));
        lemma_effect_flags_clear_drop_last(ss.skip(1));
        assert(ss.drop_last()[0] == ss[0]);
    } else {
        assert(ss.drop_last() =~= Seq::<StatementV>::empty());
    }
}

proof fn lemma_effect_helpers_push(ss: Seq<StatementV>, s: StatementV)
    requires
        sp_effect_flags_clear(ss),
        sp_effect_flags_clear_stmt(s),
    ensures
        sp_effect_flags_clear(ss.push(s)),
        sp_count_effectful(ss.push(s)) == sp_count_effectful(ss) + sp_count_effectful_stmt(s),
    decreases ss,
{
    if ss.len() == 0 {
        reveal_with_fuel(sp_effect_flags_clear, 2);
        reveal_with_fuel(sp_count_effectful, 2);
        assert(ss.push(s)[0] == s);
        assert(ss.push(s).skip(1) =~= Seq::<StatementV>::empty());
    } else {
        assert(ss.push(s)[0] == ss[0]);
        assert(ss.push(s).skip(1) =~= ss.skip(1).push(s));
        lemma_effect_helpers_push(ss.skip(1), s);
    }
}

/// A block's effect count splits at its last statement.
proof fn lemma_count_effectful_split(ss: Seq<StatementV>)
    requires
        ss.len() > 0,
    ensures
        sp_count_effectful(ss) == sp_count_effectful(ss.drop_last()) + sp_count_effectful_stmt(
            ss.last(),
        ),
    decreases ss,
{
    if ss.len() == 1 {
        assert(ss.drop_last() =~= Seq::<StatementV>::empty());
        assert(ss.skip(1) =~= Seq::<StatementV>::empty());
    } else {
        assert(ss.skip(1).drop_last() =~= ss.drop_last().skip(1));
        assert(ss.skip(1).last() == ss.last());
        lemma_count_effectful_split(ss.skip(1));
        assert(ss.drop_last()[0] == ss[0]);
    }
}

/// Law: the liveness stage removes only pure bindings. Every `wait`,
/// `call`, `spawn` and `return` present when the backward walk starts is
/// still present after the sweep, whatever the seed set.
pub proof fn lemma_liveness_keeps_effects(ss: Seq<StatementV>, u: UsedSetV, np: int)
    requires
        sp_effect_flags_clear(ss),
    ensures
        sp_count_effectful(sp_sweep_block(sp_annotate_block(ss, u, np, true).0))
            == sp_count_effectful(ss),
{
    lemma_annotate_keeps_effects(ss, u, np, true);
    let (ss2, u2) = sp_annotate_block(ss, u, np, true);
    lemma_sweep_keeps_effects(ss2);
}


/// The sweep is idempotent: it never flags anything itself, so a second
/// sweep finds nothing left to delete.
pub proof fn lemma_sweep_idempotent(ss: Seq<StatementV>)
    ensures
        sp_sweep_block(sp_sweep_block(ss)) == sp_sweep_block(ss),
    decreases ss, 0int,
{
    if ss.len() > 0 {
        let s1 = sp_sweep_stmt(ss[0]);
        lemma_sweep_stmt_idempotent(ss[0]);
        lemma_sweep_idempotent(ss.skip(1));
        if s1.dead {
            assert((Seq::<StatementV>::empty() + sp_sweep_block(ss.skip(1))) =~= sp_sweep_block(
                ss.skip(1),
            ));
        } else {
            let out = seq![s1] + sp_sweep_block(ss.skip(1));
            assert(out[0] == s1);
            assert(out.skip(1) =~= sp_sweep_block(ss.skip(1)));
            assert(sp_sweep_block(out) =~= sp_sweep_block(ss));
        }
    }
}

pub proof fn lemma_sweep_stmt_idempotent(s: StatementV)
    ensures
        sp_sweep_stmt(sp_sweep_stmt(s)) == sp_sweep_stmt(s),
        sp_sweep_stmt(s).dead == s.dead,
    decreases s, 1int,
{
    match s.kind {
        StatementKindV::If { condition, true_block, false_block } => {
            lemma_sweep_idempotent(true_block);
            lemma_sweep_idempotent(false_block);
        },
        StatementKindV::Loop { block } => {
            lemma_sweep_idempotent(block);
        },
        StatementKindV::Block { block } => {
            lemma_sweep_idempotent(block);
        },
        _ => {},
    }
}


/// Pruning keeps the flag discipline: it only deletes statements and
/// recurses, so no effectful statement or container gains a flag.
pub proof fn lemma_prune_keeps_flags_clear(ss: Seq<StatementV>)
    requires
        sp_effect_flags_clear(ss),
    ensures
        sp_effect_flags_clear(sp_prune_block(ss)),
    decreases ss, 0int,
{
    if ss.len() > 0 {
        let s0 = ss[0];
        match s0.kind {
            StatementKindV::Break | StatementKindV::Continue => {
                reveal_with_fuel(sp_effect_flags_clear, 2);
                assert(seq![s0].skip(1) =~= Seq::<StatementV>::empty());
                assert(seq![s0][0] == s0);
            },
            _ => {
                lemma_prune_stmt_keeps_flags_clear(s0);
                lemma_prune_keeps_flags_clear(ss.skip(1));
                let out = seq![sp_prune_stmt(s0)] + sp_prune_block(ss.skip(1));
                assert(out[0] == sp_prune_stmt(s0));
                assert(out.skip(1) =~= sp_prune_block(ss.skip(1)));
            },
        }
    }
}

pub proof fn lemma_prune_stmt_keeps_flags_clear(s: StatementV)
    requires
        sp_effect_flags_clear_stmt(s),
    ensures
        sp_effect_flags_clear_stmt(sp_prune_stmt(s)),
    decreases s, 1int,
{
    match s.kind {
        StatementKindV::If { condition, true_block, false_block } => {
            lemma_prune_keeps_flags_clear(true_block);
            lemma_prune_keeps_flags_clear(false_block);
        },
        StatementKindV::Loop { block } => {
            lemma_prune_keeps_flags_clear(block);
        },
        StatementKindV::Block { block } => {
            lemma_prune_keeps_flags_clear(block);
        },
        _ => {},
    }
}

/// Law: across the whole elimination, every `wait`, `call`, `spawn` and
/// `return` that survives the unreachable-statement pruning is still
/// there at the end: the liveness walk and the sweep remove only pure
/// bindings. Only the pruning itself can drop an effectful statement,
/// and only one standing after a `break` or `continue` of its own block,
/// which could never have run.
pub proof fn lemma_dead_code_keeps_reachable_effects(f: FunctionV, num_symbols: int, np: int)
    requires
        sp_effect_flags_clear(f.statements),
    ensures
        sp_count_effectful(sp_dead_code_eliminate(f, num_symbols, np).statements)
            == sp_count_effectful(sp_prune_block(f.statements)),
{
    let ss1 = sp_prune_block(f.statements);
    lemma_prune_keeps_flags_clear(f.statements);
    lemma_annotate_keeps_effects(ss1, sp_initial_used(num_symbols, np), np, true);
    let (ss2, u) = sp_annotate_block(ss1, sp_initial_used(num_symbols, np), np, true);
    lemma_sweep_keeps_effects(ss2);
}

} // verus!
