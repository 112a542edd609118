use vstd::prelude::*;

use crate::ast::{
    exprs_model, lemma_exprs_model_index, lemma_exprs_model_prepend, lemma_exprs_model_skip1,
    lemma_stmts_model_index, lemma_stmts_model_prepend, lemma_stmts_model_skip1, stmts_model,
    Expression, ExpressionKind, ExpressionKindV, ExpressionV, Function, FunctionV, Statement,
    StatementKind, StatementKindV, StatementV, SymbolId,
};
use crate::settings::CompileSettings;
use crate::types::Fix;
use vstd::pervasive::VecAdditionalExecFns;

verus! {

// ---------------------------------------------------------------------------
// Constant propagation: forward substitution of known literal values,
// with conservative invalidation around effects and joins.
// ---------------------------------------------------------------------------

/// A literal value a symbol is known to hold.
#[derive(Clone, Copy, Debug, PartialEq, Eq, Structural)]
pub enum Constant {
    Int(i32),
    Fix(Fix),
    Bool(bool),
}

impl Constant {
    /// The expression node a known constant is substituted as.
    pub open spec fn spec_kind(self) -> ExpressionKindV {
        match self {
            Constant::Int(i) => ExpressionKindV::Integer(i),
            Constant::Fix(f) => ExpressionKindV::Fix(f),
            Constant::Bool(b) => ExpressionKindV::Bool(b),
        }
    }
}

/// The literal a fully reduced expression node holds, if it holds one.
pub open spec fn sp_constant_of(kind: ExpressionKindV) -> Option<Constant> {
    match kind {
        ExpressionKindV::Integer(i) => Some(Constant::Int(i)),
        ExpressionKindV::Fix(f) => Some(Constant::Fix(f)),
        ExpressionKindV::Bool(b) => Some(Constant::Bool(b)),
        _ => None,
    }
}

/// Whether a pass changed the tree; the caller reruns until a pass
/// reports `DidNothing`.
#[derive(Clone, Copy, Debug, PartialEq, Eq, Structural)]
pub enum ConstantPropagationResult {
    DidSomething,
    DidNothing,
}

impl ConstantPropagationResult {
    pub open spec fn spec_or(self, other: ConstantPropagationResult) -> ConstantPropagationResult {
        if self == ConstantPropagationResult::DidSomething || other
            == ConstantPropagationResult::DidSomething {
            ConstantPropagationResult::DidSomething
        } else {
            ConstantPropagationResult::DidNothing
        }
    }
}

/// The map from symbols to the literal each is currently known to hold:
/// entry `i` speaks about symbol `i`.
pub type CpMapV = Seq<Option<Constant>>;

/// Forgetting every property-backed symbol: an effect may have changed
/// host state, so nothing about symbols below the property count is
/// trusted any more. Ordinary locals keep their entries.
pub open spec fn sp_poison_properties(m: CpMapV, num_properties: int) -> CpMapV {
    Seq::new(m.len(), |i: int| if i < num_properties {
        None
    } else {
        m[i]
    })
}

/// Forgetting everything.
pub open spec fn sp_poison_all(m: CpMapV) -> CpMapV {
    Seq::new(m.len(), |i: int| None::<Constant>)
}

/// The map grown with unknown entries so `id` is in range.
pub open spec fn sp_cp_extend(m: CpMapV, id: int) -> CpMapV {
    if m.len() <= id {
        m + Seq::new((id + 1 - m.len()) as nat, |i: int| None::<Constant>)
    } else {
        m
    }
}

/// Recording what an assignment leaves a symbol holding: the literal if
/// its right-hand side reduced to one, otherwise nothing (any older
/// entry is stale and dropped).
pub open spec fn sp_cp_set(m: CpMapV, id: int, kind: ExpressionKindV) -> CpMapV {
    sp_cp_extend(m, id).update(id, sp_constant_of(kind))
}

/// What survives a branch join: a symbol is still known only if it was
/// known before the branch and the branch left that same knowledge
/// standing. Branches are never merged optimistically. A branch that
/// reassigns a symbol the very value it already held is indistinguishable
/// here from one that left it alone, and the entry survives: sound either
/// way, since the value is the same.
pub open spec fn sp_apply_poisons(m: CpMapV, branch: CpMapV) -> CpMapV {
    Seq::new(
        m.len(),
        |i: int|
            if m[i] is Some && i < branch.len() && branch[i] == m[i] {
                m[i]
            } else {
                None
            },
    )
}

/// Substituting known constants through one expression: a read of a
/// symbol with a known literal becomes that literal, in place; nothing
/// is folded (`1 + 1` stays for a later pass), and nothing else changes.
pub open spec fn sp_cp_expr(e: ExpressionV, m: CpMapV) -> (ExpressionV, ConstantPropagationResult)
    decreases e, 1int,
{
    match e.kind {
        ExpressionKindV::Variable(_) => {
            match e.symbol {
                Some(id) => {
                    if id.0 < m.len() && m[id.0 as int] is Some {
                        (
                            ExpressionV { kind: m[id.0 as int]->Some_0.spec_kind(), ..e },
                            ConstantPropagationResult::DidSomething,
                        )
                    } else {
                        (e, ConstantPropagationResult::DidNothing)
                    }
                },
                None => (e, ConstantPropagationResult::DidNothing),
            }
        },
        ExpressionKindV::BinaryOperation { lhs, operator, rhs } => {
            let (l2, c1) = sp_cp_expr(*lhs, m);
            let (r2, c2) = sp_cp_expr(*rhs, m);
            (
                ExpressionV {
                    kind: ExpressionKindV::BinaryOperation {
                        lhs: Box::new(l2),
                        operator,
                        rhs: Box::new(r2),
                    },
                    ..e
                },
                c1.spec_or(c2),
            )
        },
        ExpressionKindV::Call { name, arguments } => {
            let (args2, c) = sp_cp_exprs(arguments, m);
            (ExpressionV { kind: ExpressionKindV::Call { name, arguments: args2 }, ..e }, c)
        },
        _ => (e, ConstantPropagationResult::DidNothing),
    }
}

pub open spec fn sp_cp_exprs(es: Seq<ExpressionV>, m: CpMapV) -> (
    Seq<ExpressionV>,
    ConstantPropagationResult,
)
    decreases es, 0int,
{
    if es.len() == 0 {
        (es, ConstantPropagationResult::DidNothing)
    } else {
        let (e2, c1) = sp_cp_expr(es[0], m);
        let (rest2, c2) = sp_cp_exprs(es.skip(1), m);
        (seq![e2] + rest2, c1.spec_or(c2))
    }
}

/// One statement under constant propagation.
///
/// `wait` and calls forget only property-backed symbols: a suspension or
/// a callee can change host state, never an ordinary local. Around a
/// branch, each arm is analyzed against its own copy of the map and only
/// the poison information is joined back. A loop body is analyzed under
/// a fully forgotten map and forgets everything afterwards, and `return`
/// forgets everything too: a deliberately conservative policy for the
/// constructs whose finer treatment is an open product decision.
pub open spec fn sp_cp_stmt(s: StatementV, m: CpMapV, num_properties: int) -> (
    StatementV,
    CpMapV,
    ConstantPropagationResult,
)
    decreases s, 1int,
{
    match s.kind {
        StatementKindV::Wait => (s, sp_poison_properties(m, num_properties), ConstantPropagationResult::DidNothing),
        StatementKindV::VariableDeclaration { ident, value } => {
            let (v2, c) = sp_cp_expr(value, m);
            let m2 = match s.symbol {
                Some(id) => sp_cp_set(m, id.0 as int, v2.kind),
                None => m,
            };
            (
                StatementV { kind: StatementKindV::VariableDeclaration { ident, value: v2 }, ..s },
                m2,
                c,
            )
        },
        StatementKindV::Assignment { ident, value } => {
            let (v2, c) = sp_cp_expr(value, m);
            let m2 = match s.symbol {
                Some(id) => sp_cp_set(m, id.0 as int, v2.kind),
                None => m,
            };
            (StatementV { kind: StatementKindV::Assignment { ident, value: v2 }, ..s }, m2, c)
        },
        StatementKindV::If { condition, true_block, false_block } => {
            let (c2, r1) = sp_cp_expr(condition, m);
            let (tb2, tm, r2) = sp_cp_stmts(true_block, m, num_properties);
            let (fb2, fm, r3) = sp_cp_stmts(false_block, m, num_properties);
            let m2 = sp_apply_poisons(sp_apply_poisons(m, tm), fm);
            (
                StatementV {
                    kind: StatementKindV::If {
                        condition: c2,
                        true_block: tb2,
                        false_block: fb2,
                    },
                    ..s
                },
                m2,
                r1.spec_or(r2).spec_or(r3),
            )
        },
        StatementKindV::Block { block } => {
            let (b2, m2, r) = sp_cp_stmts(block, m, num_properties);
            (StatementV { kind: StatementKindV::Block { block: b2 }, ..s }, m2, r)
        },
        StatementKindV::Loop { block } => {
            let (b2, bm, r) = sp_cp_stmts(block, sp_poison_all(m), num_properties);
            (StatementV { kind: StatementKindV::Loop { block: b2 }, ..s }, sp_poison_all(m), r)
        },
        StatementKindV::Call { name, arguments } => {
            let (args2, r) = sp_cp_exprs(arguments, m);
            (
                StatementV { kind: StatementKindV::Call { name, arguments: args2 }, ..s },
                sp_poison_properties(m, num_properties),
                r,
            )
        },
        StatementKindV::Spawn { name, arguments } => {
            let (args2, r) = sp_cp_exprs(arguments, m);
            (
                StatementV { kind: StatementKindV::Spawn { name, arguments: args2 }, ..s },
                sp_poison_properties(m, num_properties),
                r,
            )
        },
        StatementKindV::Return { values } => {
            let (vs2, r) = sp_cp_exprs(values, m);
            (
                StatementV { kind: StatementKindV::Return { values: vs2 }, ..s },
                sp_poison_all(m),
                r,
            )
        },
        _ => (s, m, ConstantPropagationResult::DidNothing),
    }
}

pub open spec fn sp_cp_stmts(ss: Seq<StatementV>, m: CpMapV, num_properties: int) -> (
    Seq<StatementV>,
    CpMapV,
    ConstantPropagationResult,
)
    decreases ss, 0int,
{
    if ss.len() == 0 {
        (ss, m, ConstantPropagationResult::DidNothing)
    } else {
        let (s2, m1, c1) = sp_cp_stmt(ss[0], m, num_properties);
        let (rest2, m2, c2) = sp_cp_stmts(ss.skip(1), m1, num_properties);
        (seq![s2] + rest2, m2, c1.spec_or(c2))
    }
}

/// One whole pass over a function's body, starting from an empty map.
pub open spec fn sp_constant_propagation(f: FunctionV, num_properties: int) -> (
    FunctionV,
    ConstantPropagationResult,
) {
    let (ss2, m2, c) = sp_cp_stmts(f.statements, Seq::empty(), num_properties);
    (FunctionV { statements: ss2, ..f }, c)
}


// ---------------------------------------------------------------------------
// The executable map and pass.
// ---------------------------------------------------------------------------

/// The literal an expression node holds, if it holds one.
pub fn constant_of(kind: &ExpressionKind) -> (r: Option<Constant>)
    ensures
        r == sp_constant_of_kind(*kind),
{
    match kind {
        ExpressionKind::Integer(i) => Some(Constant::Int(*i)),
        ExpressionKind::Fix(f) => Some(Constant::Fix(*f)),
        ExpressionKind::Bool(b) => Some(Constant::Bool(*b)),
        _ => None,
    }
}

/// The scoped knowledge of which symbols currently hold which literal.
#[derive(Debug)]
pub struct ConstantPropagationMap {
    known: Vec<Option<Constant>>,
}

impl ConstantPropagationMap {
    /// Entry `i` is what symbol `i` is known to hold.
    pub closed spec fn model(self) -> CpMapV {
        self.known@
    }

    /// The empty map: nothing known yet.
    pub fn new() -> (r: ConstantPropagationMap)
        ensures
            r.model() == Seq::<Option<Constant>>::empty(),
    {
        let r = ConstantPropagationMap { known: Vec::new() };
        proof {
            assert(r.model() =~= Seq::<Option<Constant>>::empty());
        }
        r
    }

    /// The literal a symbol is known to hold, if any.
    pub fn get(&self, symbol: SymbolId) -> (r: Option<Constant>)
        ensures
            r == if symbol.0 < self.model().len() {
                self.model()[symbol.0 as int]
            } else {
                None::<Constant>
            },
    {
        if symbol.0 < self.known.len() {
            self.known[symbol.0]
        } else {
            None
        }
    }

    /// Records what an assignment leaves a symbol holding.
    pub fn set(&mut self, symbol: SymbolId, kind: &ExpressionKind)
        ensures
            final(self).model() == sp_cp_extend(old(self).model(), symbol.0 as int).update(
                symbol.0 as int,
                ({
                    let c = sp_constant_of_kind(*kind);
                    c
                }),
            ),
    {
        let ghost m0 = self.model();
        proof {
            assert(m0 + Seq::new(0nat, |i: int| None::<Constant>) =~= m0);
        }
        while self.known.len() <= symbol.0
            invariant
                self.known@.len() >= m0.len(),
                self.known@.len() <= m0.len() || self.known@.len() <= symbol.0 + 1,
                self.known@ == m0 + Seq::new(
                    (self.known@.len() - m0.len()) as nat,
                    |i: int| None::<Constant>,
                ),
            decreases symbol.0 + 1 - self.known@.len(),
        {
            self.known.push(None);
            proof {
                assert(self.known@ =~= m0 + Seq::new(
                    (self.known@.len() - m0.len()) as nat,
                    |i: int| None::<Constant>,
                ));
            }
        }
        proof {
            assert(self.known@ =~= sp_cp_extend(m0, symbol.0 as int));
        }
        let value = constant_of(kind);
        self.known.set(symbol.0, value);
    }

    /// Forgets every property-backed symbol.
    pub fn poison_properties(&mut self, settings: &CompileSettings)
        ensures
            final(self).model() == sp_poison_properties(
                old(self).model(),
                settings.properties@.len() as int,
            ),
    {
        let ghost m0 = self.model();
        let num = settings.num_properties();
        let mut i: usize = 0;
        while i < num && i < self.known.len()
            invariant
                self.known@.len() == m0.len(),
                forall|j: int|
                    0 <= j < m0.len() ==> #[trigger] self.known@[j] == (if j < i && j < num {
                        None::<Constant>
                    } else {
                        m0[j]
                    }),
            decreases self.known@.len() - i,
        {
            self.known.set(i, None);
            i += 1;
        }
        proof {
            assert(self.known@ =~= sp_poison_properties(m0, settings.properties@.len() as int));
        }
    }

    /// Forgets everything.
    pub fn poison_all(&mut self)
        ensures
            final(self).model() == sp_poison_all(old(self).model()),
    {
        let ghost m0 = self.model();
        let mut i: usize = 0;
        while i < self.known.len()
            invariant
                self.known@.len() == m0.len(),
                forall|j: int|
                    0 <= j < m0.len() ==> #[trigger] self.known@[j] == (if j < i {
                        None::<Constant>
                    } else {
                        m0[j]
                    }),
            decreases self.known@.len() - i,
        {
            self.known.set(i, None);
            i += 1;
        }
        proof {
            assert(self.known@ =~= sp_poison_all(m0));
        }
    }

    /// An independent copy, for analyzing one branch of an `if`.
    pub fn snapshot(&self) -> (r: ConstantPropagationMap)
        ensures
            r.model() == self.model(),
    {
        let mut known: Vec<Option<Constant>> = Vec::new();
        let mut i: usize = 0;
        while i < self.known.len()
            invariant
                i <= self.known@.len(),
                known@ =~= self.known@.take(i as int),
            decreases self.known@.len() - i,
        {
            known.push(self.known[i]);
            proof {
                assert(known@ =~= self.known@.take(i + 1));
            }
            i += 1;
        }
        proof {
            assert(self.known@.take(self.known@.len() as int) =~= self.known@);
        }
        ConstantPropagationMap { known }
    }

    /// Keeps only what a finished branch left standing.
    pub fn apply_poisons(&mut self, branch: &ConstantPropagationMap)
        ensures
            final(self).model() == sp_apply_poisons(old(self).model(), branch.model()),
    {
        let ghost m0 = self.model();
        let mut i: usize = 0;
        while i < self.known.len()
            invariant
                self.known@.len() == m0.len(),
                forall|j: int|
                    i <= j < m0.len() ==> #[trigger] self.known@[j] == m0[j],
                forall|j: int|
                    0 <= j < i && j < m0.len() ==> #[trigger] self.known@[j] == sp_apply_poisons(
                        m0,
                        branch.model(),
                    )[j],
            decreases self.known@.len() - i,
        {
            let keep = match self.known[i] {
                Some(c) => {
                    if i < branch.known.len() {
                        match branch.known[i] {
                            Some(c2) => c == c2,
                            None => false,
                        }
                    } else {
                        false
                    }
                },
                None => false,
            };
            if !keep {
                self.known.set(i, None);
            }
            i += 1;
        }
        proof {
            assert(self.known@ =~= sp_apply_poisons(m0, branch.model()));
        }
    }
}

/// What `constant_of` returns, as a function of the node alone.
pub open spec fn sp_constant_of_kind(kind: ExpressionKind) -> Option<Constant> {
    match kind {
        ExpressionKind::Integer(i) => Some(Constant::Int(i)),
        ExpressionKind::Fix(f) => Some(Constant::Fix(f)),
        ExpressionKind::Bool(b) => Some(Constant::Bool(b)),
        _ => None,
    }
}


/// The node an expression's model holds exactly the literal its own node
/// holds: substitution decisions read the same on both sides.
pub proof fn lemma_constant_of_model(e: Expression)
    ensures
        sp_constant_of_kind(e.kind) == sp_constant_of(e.model().kind),
{
}


/// Substitutes known constants through one expression.
pub fn constant_propagation_expr(
    expression: Expression,
    constant_symbols: &ConstantPropagationMap,
) -> (r: (Expression, ConstantPropagationResult))
    ensures
        ({
            let (e2, c) = sp_cp_expr(expression.model(), constant_symbols.model());
            r.0.model() == e2 && r.1 == c
        }),
    decreases expression, 1int,
{
    let Expression { span, kind, symbol, function } = expression;
    match kind {
        ExpressionKind::Variable(name) => {
            let looked_up = match symbol {
                Some(id) => constant_symbols.get(id),
                None => None,
            };
            match looked_up {
                Some(constant) => {
                    let kind2 = match constant {
                        Constant::Int(i) => ExpressionKind::Integer(i),
                        Constant::Fix(f) => ExpressionKind::Fix(f),
                        Constant::Bool(b) => ExpressionKind::Bool(b),
                    };
                    (
                        Expression { span, kind: kind2, symbol, function },
                        ConstantPropagationResult::DidSomething,
                    )
                },
                None => (
                    Expression { span, kind: ExpressionKind::Variable(name), symbol, function },
                    ConstantPropagationResult::DidNothing,
                ),
            }
        },
        ExpressionKind::BinaryOperation { lhs, operator, rhs } => {
            let (l2, c1) = constant_propagation_expr(*lhs, constant_symbols);
            let (r2, c2) = constant_propagation_expr(*rhs, constant_symbols);
            (
                Expression {
                    span,
                    kind: ExpressionKind::BinaryOperation {
                        lhs: Box::new(l2),
                        operator,
                        rhs: Box::new(r2),
                    },
                    symbol,
                    function,
                },
                or_result(c1, c2),
            )
        },
        ExpressionKind::Call { name, arguments } => {
            let (args2, c) = constant_propagation_exprs(arguments, constant_symbols);
            (
                Expression { span, kind: ExpressionKind::Call { name, arguments: args2 }, symbol, function },
                c,
            )
        },
        other => (
            Expression { span, kind: other, symbol, function },
            ConstantPropagationResult::DidNothing,
        ),
    }
}

/// Whether either of two partial results changed anything.
pub fn or_result(a: ConstantPropagationResult, b: ConstantPropagationResult) -> (r:
    ConstantPropagationResult)
    ensures
        r == a.spec_or(b),
{
    if matches!(a, ConstantPropagationResult::DidSomething) || matches!(
        b,
        ConstantPropagationResult::DidSomething,
    ) {
        ConstantPropagationResult::DidSomething
    } else {
        ConstantPropagationResult::DidNothing
    }
}

pub fn constant_propagation_exprs(
    es: Vec<Expression>,
    constant_symbols: &ConstantPropagationMap,
) -> (r: (Vec<Expression>, ConstantPropagationResult))
    ensures
        ({
            let (es2, c) = sp_cp_exprs(exprs_model(es@), constant_symbols.model());
            exprs_model(r.0@) == es2 && r.1 == c
        }),
    decreases es@, 0int,
{
    let ghost es0 = es@;
    let mut rest = es;
    if rest.len() == 0 {
        proof {
            assert(exprs_model(es0).len() == 0);
        }
        return (rest, ConstantPropagationResult::DidNothing);
    }
    let first = rest.remove(0);
    proof {
        assert(rest@ =~= es0.skip(1));
        lemma_exprs_model_index(es0, 0);
        lemma_exprs_model_skip1(es0);
    }
    let (e2, c1) = constant_propagation_expr(first, constant_symbols);
    let (mut rest2, c2) = constant_propagation_exprs(rest, constant_symbols);
    let ghost pre = rest2@;
    rest2.insert(0, e2);
    proof {
        assert(rest2@ =~= seq![e2] + pre);
        lemma_exprs_model_prepend(e2, pre);
    }
    (rest2, or_result(c1, c2))
}

/// Runs constant propagation through one statement, updating the map.
pub fn constant_propagation_stmt(
    statement: Statement,
    constant_symbols: &mut ConstantPropagationMap,
    compile_settings: &CompileSettings,
) -> (r: (Statement, ConstantPropagationResult))
    ensures
        ({
            let (s2, m2, c) = sp_cp_stmt(
                statement.model(),
                old(constant_symbols).model(),
                compile_settings.properties@.len() as int,
            );
            r.0.model() == s2 && final(constant_symbols).model() == m2 && r.1 == c
        }),
    decreases statement, 1int,
{
    let Statement { span, kind, symbol, function, dead, loop_has_no_break } = statement;
    match kind {
        StatementKind::Wait => {
            constant_symbols.poison_properties(compile_settings);
            (
                Statement { span, kind: StatementKind::Wait, symbol, function, dead, loop_has_no_break },
                ConstantPropagationResult::DidNothing,
            )
        },
        StatementKind::VariableDeclaration { ident, value } => {
            let (v2, c) = constant_propagation_expr(value, constant_symbols);
            match symbol {
                Some(id) => {
                    proof {
                        lemma_constant_of_model(v2);
                    }
                    constant_symbols.set(id, &v2.kind);
                },
                None => {},
            }
            (
                Statement {
                    span,
                    kind: StatementKind::VariableDeclaration { ident, value: v2 },
                    symbol,
                    function,
                    dead,
                    loop_has_no_break,
                },
                c,
            )
        },
        StatementKind::Assignment { ident, value } => {
            let (v2, c) = constant_propagation_expr(value, constant_symbols);
            match symbol {
                Some(id) => {
                    proof {
                        lemma_constant_of_model(v2);
                    }
                    constant_symbols.set(id, &v2.kind);
                },
                None => {},
            }
            (
                Statement {
                    span,
                    kind: StatementKind::Assignment { ident, value: v2 },
                    symbol,
                    function,
                    dead,
                    loop_has_no_break,
                },
                c,
            )
        },
        StatementKind::If { condition, true_block, false_block } => {
            let (c2, r1) = constant_propagation_expr(condition, constant_symbols);
            let mut true_block_symbols = constant_symbols.snapshot();
            let (tb2, r2) = constant_propagation_block(
                true_block,
                &mut true_block_symbols,
                compile_settings,
            );
            let mut false_block_symbols = constant_symbols.snapshot();
            let (fb2, r3) = constant_propagation_block(
                false_block,
                &mut false_block_symbols,
                compile_settings,
            );
            constant_symbols.apply_poisons(&true_block_symbols);
            constant_symbols.apply_poisons(&false_block_symbols);
            (
                Statement {
                    span,
                    kind: StatementKind::If { condition: c2, true_block: tb2, false_block: fb2 },
                    symbol,
                    function,
                    dead,
                    loop_has_no_break,
                },
                or_result(or_result(r1, r2), r3),
            )
        },
        StatementKind::Block { block } => {
            let (b2, r) = constant_propagation_block(block, constant_symbols, compile_settings);
            (
                Statement {
                    span,
                    kind: StatementKind::Block { block: b2 },
                    symbol,
                    function,
                    dead,
                    loop_has_no_break,
                },
                r,
            )
        },
        StatementKind::Loop { block } => {
            constant_symbols.poison_all();
            let mut body_symbols = constant_symbols.snapshot();
            let (b2, r) = constant_propagation_block(block, &mut body_symbols, compile_settings);
            (
                Statement {
                    span,
                    kind: StatementKind::Loop { block: b2 },
                    symbol,
                    function,
                    dead,
                    loop_has_no_break,
                },
                r,
            )
        },
        StatementKind::Call { name, arguments } => {
            let (args2, r) = constant_propagation_exprs(arguments, constant_symbols);
            constant_symbols.poison_properties(compile_settings);
            (
                Statement {
                    span,
                    kind: StatementKind::Call { name, arguments: args2 },
                    symbol,
                    function,
                    dead,
                    loop_has_no_break,
                },
                r,
            )
        },
        StatementKind::Spawn { name, arguments } => {
            let (args2, r) = constant_propagation_exprs(arguments, constant_symbols);
            constant_symbols.poison_properties(compile_settings);
            (
                Statement {
                    span,
                    kind: StatementKind::Spawn { name, arguments: args2 },
                    symbol,
                    function,
                    dead,
                    loop_has_no_break,
                },
                r,
            )
        },
        StatementKind::Return { values } => {
            let (vs2, r) = constant_propagation_exprs(values, constant_symbols);
            constant_symbols.poison_all();
            (
                Statement {
                    span,
                    kind: StatementKind::Return { values: vs2 },
                    symbol,
                    function,
                    dead,
                    loop_has_no_break,
                },
                r,
            )
        },
        other => (
            Statement { span, kind: other, symbol, function, dead, loop_has_no_break },
            ConstantPropagationResult::DidNothing,
        ),
    }
}

/// Runs constant propagation through the statements of a block, in order.
pub fn constant_propagation_block(
    block: Vec<Statement>,
    constant_symbols: &mut ConstantPropagationMap,
    compile_settings: &CompileSettings,
) -> (r: (Vec<Statement>, ConstantPropagationResult))
    ensures
        ({
            let (ss2, m2, c) = sp_cp_stmts(
                stmts_model(block@),
                old(constant_symbols).model(),
                compile_settings.properties@.len() as int,
            );
            stmts_model(r.0@) == ss2 && final(constant_symbols).model() == m2 && r.1 == c
        }),
    decreases block@, 0int,
{
    let ghost ss0 = block@;
    let mut rest = block;
    if rest.len() == 0 {
        proof {
            assert(stmts_model(ss0).len() == 0);
        }
        return (rest, ConstantPropagationResult::DidNothing);
    }
    let first = rest.remove(0);
    proof {
        assert(rest@ =~= ss0.skip(1));
        lemma_stmts_model_index(ss0, 0);
        lemma_stmts_model_skip1(ss0);
    }
    let (s2, c1) = constant_propagation_stmt(first, constant_symbols, compile_settings);
    let (mut rest2, c2) = constant_propagation_block(rest, constant_symbols, compile_settings);
    let ghost pre = rest2@;
    rest2.insert(0, s2);
    proof {
        assert(rest2@ =~= seq![s2] + pre);
        lemma_stmts_model_prepend(s2, pre);
    }
    (rest2, or_result(c1, c2))
}

/// One whole constant-propagation pass over a function's body. The
/// caller reruns the pass until it reports `DidNothing`.
pub fn constant_propagation(function: Function, compile_settings: &CompileSettings) -> (r: (
    Function,
    ConstantPropagationResult,
))
    ensures
        ({
            let (f2, c) = sp_constant_propagation(
                function.model(),
                compile_settings.properties@.len() as int,
            );
            r.0.model() == f2 && r.1 == c
        }),
{
    let Function { name, span, statements, arguments, return_types, modifiers, function_id } =
        function;
    let mut constant_symbols = ConstantPropagationMap::new();
    let (statements2, c) = constant_propagation_block(
        statements,
        &mut constant_symbols,
        compile_settings,
    );
    (
        Function {
            name,
            span,
            statements: statements2,
            arguments,
            return_types,
            modifiers,
            function_id,
        },
        c,
    )
}


// ---------------------------------------------------------------------------
// Idempotence: a second pass over a pass's own output finds nothing left
// to substitute.
// ---------------------------------------------------------------------------

pub proof fn lemma_cp_expr_idempotent(e: ExpressionV, m: CpMapV)
    ensures
        ({
            let (e2, c) = sp_cp_expr(e, m);
            sp_cp_expr(e2, m) == (e2, ConstantPropagationResult::DidNothing)
        }),
    decreases e, 1int,
{
    match e.kind {
        ExpressionKindV::BinaryOperation { lhs, operator, rhs } => {
            lemma_cp_expr_idempotent(*lhs, m);
            lemma_cp_expr_idempotent(*rhs, m);
        },
        ExpressionKindV::Call { name, arguments } => {
            lemma_cp_exprs_idempotent(arguments, m);
        },
        _ => {},
    }
}

pub proof fn lemma_cp_exprs_idempotent(es: Seq<ExpressionV>, m: CpMapV)
    ensures
        ({
            let (es2, c) = sp_cp_exprs(es, m);
            sp_cp_exprs(es2, m) == (es2, ConstantPropagationResult::DidNothing)
        }),
    decreases es, 0int,
{
    if es.len() > 0 {
        lemma_cp_expr_idempotent(es[0], m);
        lemma_cp_exprs_idempotent(es.skip(1), m);
        let (e2, c1) = sp_cp_expr(es[0], m);
        let (rest2, c2) = sp_cp_exprs(es.skip(1), m);
        let es2 = seq![e2] + rest2;
        assert(es2[0] == e2);
        assert(es2.skip(1) =~= rest2);
    }
}

pub proof fn lemma_cp_stmt_idempotent(s: StatementV, m: CpMapV, np: int)
    ensures
        ({
            let (s2, m2, c) = sp_cp_stmt(s, m, np);
            sp_cp_stmt(s2, m, np) == (s2, m2, ConstantPropagationResult::DidNothing)
        }),
    decreases s, 1int,
{
    match s.kind {
        StatementKindV::VariableDeclaration { ident, value } => {
            lemma_cp_expr_idempotent(value, m);
        },
        StatementKindV::Assignment { ident, value } => {
            lemma_cp_expr_idempotent(value, m);
        },
        StatementKindV::If { condition, true_block, false_block } => {
            lemma_cp_expr_idempotent(condition, m);
            lemma_cp_stmts_idempotent(true_block, m, np);
            lemma_cp_stmts_idempotent(false_block, m, np);
        },
        StatementKindV::Block { block } => {
            lemma_cp_stmts_idempotent(block, m, np);
        },
        StatementKindV::Loop { block } => {
            lemma_cp_stmts_idempotent(block, sp_poison_all(m), np);
        },
        StatementKindV::Call { name, arguments } => {
            lemma_cp_exprs_idempotent(arguments, m);
        },
        StatementKindV::Spawn { name, arguments } => {
            lemma_cp_exprs_idempotent(arguments, m);
        },
        StatementKindV::Return { values } => {
            lemma_cp_exprs_idempotent(values, m);
        },
        _ => {},
    }
}

pub proof fn lemma_cp_stmts_idempotent(ss: Seq<StatementV>, m: CpMapV, np: int)
    ensures
        ({
            let (ss2, m2, c) = sp_cp_stmts(ss, m, np);
            sp_cp_stmts(ss2, m, np) == (ss2, m2, ConstantPropagationResult::DidNothing)
        }),
    decreases ss, 0int,
{
    if ss.len() > 0 {
        lemma_cp_stmt_idempotent(ss[0], m, np);
        let (s2, m1, c1) = sp_cp_stmt(ss[0], m, np);
        lemma_cp_stmts_idempotent(ss.skip(1), m1, np);
        let (rest2, m2, c2) = sp_cp_stmts(ss.skip(1), m1, np);
        let ss2 = seq![s2] + rest2;
        assert(ss2[0] == s2);
        assert(ss2.skip(1) =~= rest2);
    }
}

/// Law: constant propagation is idempotent. Running the pass a second
/// time on its own output changes nothing and reports `DidNothing`,
/// whatever the function and however many properties the host declared.
pub proof fn lemma_constant_propagation_idempotent(f: FunctionV, num_properties: int)
    ensures
        ({
            let (f2, c) = sp_constant_propagation(f, num_properties);
            sp_constant_propagation(f2, num_properties) == (
                f2,
                ConstantPropagationResult::DidNothing,
            )
        }),
{
    lemma_cp_stmts_idempotent(f.statements, Seq::empty(), num_properties);
}

} // verus!
