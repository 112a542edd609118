use vstd::prelude::*;

use crate::ast::{
    exprs_model, functions_model, lemma_exprs_model_index, lemma_exprs_model_prepend,
    lemma_exprs_model_skip1, stmts_model, Expression, ExpressionKind, ExpressionKindV, ExpressionV,
    Function, FunctionId, FunctionV, MaybeResolved, MaybeResolvedV, Statement, StatementKind,
    StatementKindV, StatementV, SymbolId,
};
use crate::reporting::{
    CompilerErrorKind, CompilerErrorKindV, Diagnostics, MessageKindV, MessageV,
};
use crate::settings::CompileSettings;
use crate::symtab::{SymTab, SymbolRecordV};
use crate::tokens::Span;
use crate::types::{FunctionType, Type};
use vstd::pervasive::VecAdditionalExecFns;

verus! {

// ---------------------------------------------------------------------------
// The model of flow-sensitive type checking.
// ---------------------------------------------------------------------------

/// The outcome of checking one block: either a `return` is reached on
/// every control path through it, or some path falls through.
#[derive(Clone, Copy, Debug, PartialEq, Eq, Structural)]
pub enum BlockAnalysisResult {
    AllBranchesReturn,
    ContainsNonReturningBranch,
}

/// The signature of one declared function: what a call site is checked
/// against, plus the name and span used in reports about the call.
pub struct SigV {
    pub name: Seq<char>,
    pub span: Span,
    pub args: Seq<Type>,
    pub rets: Seq<Type>,
}

/// The signature a function declares, read off its header.
pub open spec fn sp_sig_of(f: FunctionV) -> SigV {
    SigV {
        name: f.name,
        span: f.span,
        args: f.arguments.map_values(|a: crate::ast::FunctionArgumentV| a.t.t),
        rets: f.return_types.types.map_values(|t: crate::ast::TypeWithLocation| t.t),
    }
}

/// What checking consults but never changes: every function's signature,
/// by function identity.
pub struct TcContextV {
    pub sigs: Seq<SigV>,
}

/// What checking threads along: one type per symbol, settled the first
/// time the symbol is seen, and the diagnostics log.
pub struct TcStateV {
    pub types: Seq<Option<Type>>,
    pub msgs: Seq<MessageV>,
}

pub open spec fn sp_type_error_message(expected: Type, actual: Type, span: Span) -> MessageV {
    MessageV {
        span,
        error: MessageKindV::CompilerError(CompilerErrorKindV::TypeError { expected, actual }),
    }
}

/// The type table, grown with unresolved entries so `id` is in range.
pub open spec fn sp_extend_types(types: Seq<Option<Type>>, id: int) -> Seq<Option<Type>> {
    if types.len() <= id {
        types + Seq::new((id + 1 - types.len()) as nat, |i: int| None::<Type>)
    } else {
        types
    }
}

/// Settling a symbol's type: the first type wins; a later differing type
/// is a `TypeError` against the settled one, except that `Error` (an
/// already reported fault) never triggers a report.
pub open spec fn sp_resolve_type(
    st: TcStateV,
    id: int,
    ty: Type,
    span: Span,
) -> TcStateV {
    let ext = sp_extend_types(st.types, id);
    match ext[id] {
        Some(settled) => {
            if settled == ty {
                TcStateV { types: ext, ..st }
            } else if ty == Type::Error {
                TcStateV { types: ext, ..st }
            } else {
                TcStateV {
                    types: ext,
                    msgs: st.msgs.push(sp_type_error_message(settled, ty, span)),
                }
            }
        },
        None => TcStateV { types: ext.update(id, Some(ty)), ..st },
    }
}

pub open spec fn sp_unknown_type_message(name: Seq<char>, span: Span) -> MessageV {
    MessageV {
        span,
        error: MessageKindV::CompilerError(CompilerErrorKindV::UnknownType(name)),
    }
}

/// Reading a symbol's type. A symbol no type ever reached reads as
/// `Error`, silently: it is reported as `UnknownType` once, when the
/// table is finalized, not at every use.
pub open spec fn sp_get_type(types: Seq<Option<Type>>, id: int) -> Type {
    if 0 <= id < types.len() && types[id] is Some {
        types[id]->Some_0
    } else {
        Type::Error
    }
}

/// Typing one expression: its type, the expression with multiply and
/// divide specialized to their fixed-point forms where the operands are
/// `Fix`, and the reports the checks produced. An `Error` operand
/// poisons silently: the fault was already reported.
pub open spec fn sp_tc_expr(e: ExpressionV, st: TcStateV, ctx: TcContextV) -> (
    ExpressionV,
    Type,
    TcStateV,
)
    decreases e, 1int,
{
    match e.kind {
        ExpressionKindV::Integer(_) => (e, Type::Int, st),
        ExpressionKindV::Fix(_) => (e, Type::Fix, st),
        ExpressionKindV::Bool(_) => (e, Type::Bool, st),
        ExpressionKindV::Variable(_) => {
            match e.symbol {
                Some(id) => (e, sp_get_type(st.types, id.0 as int), st),
                None => (e, Type::Error, st),
            }
        },
        ExpressionKindV::BinaryOperation { lhs, operator, rhs } => {
            let (l2, lt, st1) = sp_tc_expr(*lhs, st, ctx);
            let (r2, rt, st2) = sp_tc_expr(*rhs, st1, ctx);
            let rebuilt = |op: crate::ast::BinaryOperator|
                ExpressionV {
                    kind: ExpressionKindV::BinaryOperation {
                        lhs: Box::new(l2),
                        operator: op,
                        rhs: Box::new(r2),
                    },
                    ..e
                };
            if lt == Type::Error || rt == Type::Error {
                (rebuilt(operator), Type::Error, st2)
            } else if lt != rt {
                (
                    rebuilt(operator),
                    Type::Error,
                    TcStateV {
                        msgs: st2.msgs.push(
                            MessageV {
                                span: e.span,
                                error: MessageKindV::CompilerError(
                                    CompilerErrorKindV::BinaryOperatorTypeError {
                                        lhs_type: lt,
                                        rhs_type: rt,
                                    },
                                ),
                            },
                        ),
                        ..st2
                    },
                )
            } else if !operator.spec_can_handle_type(lt) {
                (
                    rebuilt(operator),
                    Type::Error,
                    TcStateV {
                        msgs: st2.msgs.push(
                            MessageV {
                                span: l2.span,
                                error: MessageKindV::CompilerError(
                                    CompilerErrorKindV::InvalidTypeForBinaryOperator {
                                        type_: lt,
                                    },
                                ),
                            },
                        ),
                        ..st2
                    },
                )
            } else {
                let op2 = operator.spec_updated_with_lhs(lt);
                (rebuilt(op2), op2.spec_resulting_type(lt, rt), st2)
            }
        },
        ExpressionKindV::Error => (e, Type::Error, st),
        ExpressionKindV::Nop => (e, Type::Error, st),
        ExpressionKindV::Call { name, arguments } => {
            let (args2, rets, st1) = sp_tc_call(e.span, e.function, arguments, st, ctx);
            let e2 = ExpressionV { kind: ExpressionKindV::Call { name, arguments: args2 }, ..e };
            if rets.len() != 1 {
                (
                    e2,
                    Type::Error,
                    TcStateV {
                        msgs: st1.msgs.push(
                            MessageV {
                                span: e.span,
                                error: MessageKindV::CompilerError(
                                    CompilerErrorKindV::FunctionMustReturnOneValueInThisLocation {
                                        actual: rets.len(),
                                    },
                                ),
                            },
                        ),
                        ..st1
                    },
                )
            } else {
                (e2, rets[0], st1)
            }
        },
    }
}

/// Typing a list of expressions left to right, keeping each one's type
/// and span for the caller's per-argument checks.
pub open spec fn sp_tc_exprs(es: Seq<ExpressionV>, st: TcStateV, ctx: TcContextV) -> (
    Seq<ExpressionV>,
    Seq<(Type, Span)>,
    TcStateV,
)
    decreases es, 0int,
{
    if es.len() == 0 {
        (es, Seq::empty(), st)
    } else {
        let (e2, t, st1) = sp_tc_expr(es[0], st, ctx);
        let (rest2, ts, st2) = sp_tc_exprs(es.skip(1), st1, ctx);
        (seq![e2] + rest2, seq![(t, e2.span)] + ts, st2)
    }
}

/// Per-argument checks of a call against the callee's declared argument
/// types: each mismatch is one `TypeError` at the argument's own span;
/// `Error` on either side stays silent.
pub open spec fn sp_check_args(
    argts: Seq<(Type, Span)>,
    expected: Seq<Type>,
    msgs: Seq<MessageV>,
) -> Seq<MessageV>
    decreases argts,
{
    if argts.len() == 0 || expected.len() == 0 {
        msgs
    } else {
        let (actual, span) = argts[0];
        let m1 = if actual != expected[0] && actual != Type::Error && expected[0] != Type::Error {
            msgs.push(sp_type_error_message(expected[0], actual, span))
        } else {
            msgs
        };
        sp_check_args(argts.skip(1), expected.skip(1), m1)
    }
}

/// Checking one call site: arguments are typed first; then, if the callee
/// is known, the argument count is checked (a wrong count is one
/// `IncorrectNumberOfArguments` naming the callee), and on a right count
/// each argument's type is checked. The callee's declared return types
/// come back. An unresolved callee was reported by symbol resolution
/// already: it stays silent here and yields one `Error` return.
pub open spec fn sp_tc_call(
    span: Span,
    fun: Option<crate::ast::FunctionId>,
    arguments: Seq<ExpressionV>,
    st: TcStateV,
    ctx: TcContextV,
) -> (Seq<ExpressionV>, Seq<Type>, TcStateV)
    decreases arguments, 1int,
{
    let (args2, argts, st1) = sp_tc_exprs(arguments, st, ctx);
    match fun {
        Some(fid) => {
            if fid.0 < ctx.sigs.len() {
                let sig = ctx.sigs[fid.0 as int];
                if argts.len() != sig.args.len() {
                    (
                        args2,
                        sig.rets,
                        TcStateV {
                            msgs: st1.msgs.push(
                                MessageV {
                                    span,
                                    error: MessageKindV::CompilerError(
                                        CompilerErrorKindV::IncorrectNumberOfArguments {
                                            expected: sig.args.len(),
                                            actual: argts.len(),
                                            function_span: sig.span,
                                            function_name: sig.name,
                                        },
                                    ),
                                },
                            ),
                            ..st1
                        },
                    )
                } else {
                    (
                        args2,
                        sig.rets,
                        TcStateV { msgs: sp_check_args(argts, sig.args, st1.msgs), ..st1 },
                    )
                }
            } else {
                (args2, seq![Type::Error], st1)
            }
        },
        None => (args2, seq![Type::Error], st1),
    }
}

/// The declared return types a `return` statement is held against.
pub struct ExpectedReturnV {
    pub types: Seq<crate::ast::TypeWithLocation>,
    pub span: Span,
}

/// Checks of one `return`: a wrong number of values is one
/// `IncorrectNumberOfReturnTypes`; among the positions both sides have,
/// each mismatch is one `MismatchingReturnTypes` carrying both spans.
pub open spec fn sp_check_returns(
    argts: Seq<(Type, Span)>,
    expected: Seq<crate::ast::TypeWithLocation>,
    stmt_span: Span,
    msgs: Seq<MessageV>,
) -> Seq<MessageV>
    decreases argts,
{
    if argts.len() == 0 || expected.len() == 0 {
        msgs
    } else {
        let (actual, value_span) = argts[0];
        let exp = expected[0];
        let m1 = if actual != exp.t && actual != Type::Error && exp.t != Type::Error {
            msgs.push(
                MessageV {
                    span: stmt_span,
                    error: MessageKindV::CompilerError(
                        CompilerErrorKindV::MismatchingReturnTypes {
                            expected: exp.t,
                            actual,
                            expected_location: exp.span,
                            actual_location: value_span,
                        },
                    ),
                },
            )
        } else {
            msgs
        };
        sp_check_returns(argts.skip(1), expected.skip(1), stmt_span, m1)
    }
}

/// Typing one statement: the statement with its expressions specialized,
/// whether every control path through it returns, and the updated state.
pub open spec fn sp_tc_stmt(
    s: StatementV,
    st: TcStateV,
    ctx: TcContextV,
    expected: ExpectedReturnV,
) -> (StatementV, BlockAnalysisResult, TcStateV)
    decreases s, 2int,
{
    match s.kind {
        StatementKindV::VariableDeclaration { ident, value } => {
            let (v2, t, st1) = sp_tc_expr(value, st, ctx);
            let st2 = match s.symbol {
                Some(id) => sp_resolve_type(st1, id.0 as int, t, s.span),
                None => st1,
            };
            (
                StatementV { kind: StatementKindV::VariableDeclaration { ident, value: v2 }, ..s },
                BlockAnalysisResult::ContainsNonReturningBranch,
                st2,
            )
        },
        StatementKindV::Assignment { ident, value } => {
            let (v2, t, st1) = sp_tc_expr(value, st, ctx);
            let st2 = match s.symbol {
                Some(id) => sp_resolve_type(st1, id.0 as int, t, s.span),
                None => st1,
            };
            (
                StatementV { kind: StatementKindV::Assignment { ident, value: v2 }, ..s },
                BlockAnalysisResult::ContainsNonReturningBranch,
                st2,
            )
        },
        StatementKindV::If { condition, true_block, false_block } => {
            let (c2, ct, st1) = sp_tc_expr(condition, st, ctx);
            let st1b = if ct != Type::Bool && ct != Type::Error {
                TcStateV {
                    msgs: st1.msgs.push(
                        MessageV {
                            span: c2.span,
                            error: MessageKindV::CompilerError(
                                CompilerErrorKindV::InvalidTypeForIfCondition { got: ct },
                            ),
                        },
                    ),
                    ..st1
                }
            } else {
                st1
            };
            let (tb2, rt, st2) = sp_tc_stmts(true_block, st1b, ctx, expected);
            let (fb2, rf, st3) = sp_tc_stmts(false_block, st2, ctx, expected);
            let res = if rt == BlockAnalysisResult::AllBranchesReturn && rf
                == BlockAnalysisResult::AllBranchesReturn {
                BlockAnalysisResult::AllBranchesReturn
            } else {
                BlockAnalysisResult::ContainsNonReturningBranch
            };
            (
                StatementV {
                    kind: StatementKindV::If {
                        condition: c2,
                        true_block: tb2,
                        false_block: fb2,
                    },
                    ..s
                },
                res,
                st3,
            )
        },
        StatementKindV::Return { values } => {
            let (vs2, ts, st1) = sp_tc_exprs(values, st, ctx);
            let m1 = if ts.len() != expected.types.len() {
                st1.msgs.push(
                    MessageV {
                        span: s.span,
                        error: MessageKindV::CompilerError(
                            CompilerErrorKindV::IncorrectNumberOfReturnTypes {
                                expected: expected.types.len(),
                                actual: ts.len(),
                                function_return_location: expected.span,
                            },
                        ),
                    },
                )
            } else {
                st1.msgs
            };
            let m2 = sp_check_returns(ts, expected.types, s.span, m1);
            (
                StatementV { kind: StatementKindV::Return { values: vs2 }, ..s },
                BlockAnalysisResult::AllBranchesReturn,
                TcStateV { msgs: m2, ..st1 },
            )
        },
        StatementKindV::Call { name, arguments } => {
            let (args2, rets, st1) = sp_tc_call(s.span, s.function, arguments, st, ctx);
            (
                StatementV { kind: StatementKindV::Call { name, arguments: args2 }, ..s },
                BlockAnalysisResult::ContainsNonReturningBranch,
                st1,
            )
        },
        StatementKindV::Spawn { name, arguments } => {
            let (args2, rets, st1) = sp_tc_call(s.span, s.function, arguments, st, ctx);
            (
                StatementV { kind: StatementKindV::Spawn { name, arguments: args2 }, ..s },
                BlockAnalysisResult::ContainsNonReturningBranch,
                st1,
            )
        },
        StatementKindV::Loop { block } => {
            let (b2, r, st1) = sp_tc_stmts(block, st, ctx, expected);
            let res = if r == BlockAnalysisResult::AllBranchesReturn {
                BlockAnalysisResult::AllBranchesReturn
            } else if s.loop_has_no_break {
                BlockAnalysisResult::AllBranchesReturn
            } else {
                BlockAnalysisResult::ContainsNonReturningBranch
            };
            (StatementV { kind: StatementKindV::Loop { block: b2 }, ..s }, res, st1)
        },
        StatementKindV::Block { block } => {
            let (b2, r, st1) = sp_tc_stmts(block, st, ctx, expected);
            (StatementV { kind: StatementKindV::Block { block: b2 }, ..s }, r, st1)
        },
        _ => (s, BlockAnalysisResult::ContainsNonReturningBranch, st),
    }
}

/// Typing the statements of a block, in order. A statement through which
/// every path returns settles the block: what follows it can never run,
/// is left as it stands, and is not checked.
pub open spec fn sp_tc_stmts(
    ss: Seq<StatementV>,
    st: TcStateV,
    ctx: TcContextV,
    expected: ExpectedReturnV,
) -> (Seq<StatementV>, BlockAnalysisResult, TcStateV)
    decreases ss, 0int,
{
    if ss.len() == 0 {
        (ss, BlockAnalysisResult::ContainsNonReturningBranch, st)
    } else {
        let (s2, r, st1) = sp_tc_stmt(ss[0], st, ctx, expected);
        if r == BlockAnalysisResult::AllBranchesReturn {
            (seq![s2] + ss.skip(1), BlockAnalysisResult::AllBranchesReturn, st1)
        } else {
            let (rest2, r2, st2) = sp_tc_stmts(ss.skip(1), st1, ctx, expected);
            (seq![s2] + rest2, r2, st2)
        }
    }
}

/// The missing-return report is anchored at the declared return types'
/// own span: that declaration is what the body fails to honour.
pub open spec fn sp_no_return_message(name: Seq<char>, return_location: Span) -> MessageV {
    MessageV {
        span: return_location,
        error: MessageKindV::CompilerError(
            CompilerErrorKindV::FunctionDoesNotHaveReturn { name, return_location },
        ),
    }
}

/// Typing one function: argument types settle their symbols first, the
/// body is checked next, and a function that declares return types but
/// whose body could fall through gets exactly one
/// `FunctionDoesNotHaveReturn`, anchored at the declaration.
pub open spec fn sp_tc_function(f: FunctionV, st: TcStateV, ctx: TcContextV) -> (
    FunctionV,
    TcStateV,
) {
    let st1 = sp_bind_arg_types(f.arguments, st);
    let expected = ExpectedReturnV { types: f.return_types.types, span: f.return_types.span };
    let (ss2, res, st2) = sp_tc_stmts(f.statements, st1, ctx, expected);
    let st3 = if f.return_types.types.len() > 0 && res
        != BlockAnalysisResult::AllBranchesReturn {
        TcStateV {
            msgs: st2.msgs.push(sp_no_return_message(f.name, f.return_types.span)),
            ..st2
        }
    } else {
        st2
    };
    (FunctionV { statements: ss2, ..f }, st3)
}

/// Argument symbols get their declared types, in declaration order.
pub open spec fn sp_bind_arg_types(
    args: Seq<crate::ast::FunctionArgumentV>,
    st: TcStateV,
) -> TcStateV
    decreases args,
{
    if args.len() == 0 {
        st
    } else {
        let a = args[0];
        let st1 = match a.name {
            MaybeResolvedV::Resolved(id) => sp_resolve_type(st, id.0 as int, a.t.t, a.span),
            MaybeResolvedV::Unresolved(_) => st,
        };
        sp_bind_arg_types(args.skip(1), st1)
    }
}


// ---------------------------------------------------------------------------
// The type checking visitor.
// ---------------------------------------------------------------------------

/// The stored signature of one declared function: its type, and the name
/// and span used in reports about calls to it.
#[derive(Debug)]
pub struct FunctionSig {
    pub name: String,
    pub span: Span,
    pub ty: FunctionType,
}

impl FunctionSig {
    pub open spec fn model(self) -> SigV {
        SigV { name: self.name@, span: self.span, args: self.ty.args@, rets: self.ty.rets@ }
    }
}

pub open spec fn sigs_model(sigs: Seq<FunctionSig>) -> Seq<SigV> {
    sigs.map_values(|s: FunctionSig| s.model())
}

/// Infers and validates one type per symbol across a whole script, and
/// checks calls and returns against the functions' signatures.
#[derive(Debug)]
pub struct TypeVisitor {
    type_table: Vec<Option<Type>>,
    functions: Vec<FunctionSig>,
}

impl TypeVisitor {
    /// One settled type per symbol seen so far, by symbol id.
    pub closed spec fn types_model(self) -> Seq<Option<Type>> {
        self.type_table@
    }

    /// Every function's signature, by function identity.
    pub closed spec fn sigs_model(self) -> Seq<SigV> {
        sigs_model(self.functions@)
    }

    pub open spec fn state_model(self, diagnostics: Diagnostics) -> TcStateV {
        TcStateV { types: self.types_model(), msgs: diagnostics.model() }
    }

    pub open spec fn context_model(self) -> TcContextV {
        TcContextV { sigs: self.sigs_model() }
    }

    /// Collects every function's signature before any body is checked, so
    /// forward references and mutual recursion work, and settles each
    /// property symbol at its declared type.
    pub fn new(settings: &CompileSettings, functions: &Vec<Function>) -> (r: TypeVisitor)
        ensures
            r.sigs_model() == functions_model(functions@).map_values(|f: FunctionV| sp_sig_of(f)),
            r.types_model() == Seq::new(
                settings.properties@.len(),
                |i: int| Some(settings.properties@[i].ty),
            ),
    {
        let mut type_table: Vec<Option<Type>> = Vec::new();
        let mut i: usize = 0;
        while i < settings.properties.len()
            invariant
                i <= settings.properties@.len(),
                type_table@.len() == i,
                forall|j: int|
                    0 <= j < i ==> #[trigger] type_table@[j] == Some(
                        settings.properties@[j].ty,
                    ),
            decreases settings.properties@.len() - i,
        {
            type_table.push(Some(settings.properties[i].ty));
            i += 1;
        }

        let mut sigs: Vec<FunctionSig> = Vec::new();
        let mut k: usize = 0;
        while k < functions.len()
            invariant
                k <= functions@.len(),
                sigs@.len() == k,
                forall|j: int|
                    0 <= j < k ==> (#[trigger] sigs@[j]).model() == sp_sig_of(
                        functions@[j].model(),
                    ),
            decreases functions@.len() - k,
        {
            let f = &functions[k];
            let mut args: Vec<Type> = Vec::new();
            let mut a: usize = 0;
            while a < f.arguments.len()
                invariant
                    a <= f.arguments@.len(),
                    args@.len() == a,
                    forall|j: int|
                        0 <= j < a ==> #[trigger] args@[j] == f.arguments@[j].t.t,
                decreases f.arguments@.len() - a,
            {
                args.push(f.arguments[a].t.t);
                a += 1;
            }
            let mut rets: Vec<Type> = Vec::new();
            let mut b: usize = 0;
            while b < f.return_types.types.len()
                invariant
                    b <= f.return_types.types@.len(),
                    rets@.len() == b,
                    forall|j: int|
                        0 <= j < b ==> #[trigger] rets@[j] == f.return_types.types@[j].t,
                decreases f.return_types.types@.len() - b,
            {
                rets.push(f.return_types.types[b].t);
                b += 1;
            }
            let sig = FunctionSig {
                name: f.name.clone(),
                span: f.span,
                ty: FunctionType { args, rets },
            };
            proof {
                assert(sig.model().args =~= sp_sig_of(f.model()).args);
                assert(sig.model().rets =~= sp_sig_of(f.model()).rets);
                assert(sig.model() == sp_sig_of(f.model()));
            }
            sigs.push(sig);
            k += 1;
        }
        let r = TypeVisitor { type_table, functions: sigs };
        proof {
            assert(r.sigs_model() =~= functions_model(functions@).map_values(
                |f: FunctionV| sp_sig_of(f),
            ));
            assert(r.types_model() =~= Seq::new(
                settings.properties@.len(),
                |i: int| Some(settings.properties@[i].ty),
            ));
        }
        r
    }

    /// Settles a symbol's type, or reports a `TypeError` against the type
    /// the symbol already settled at.
    pub fn resolve_type(
        &mut self,
        symbol_id: SymbolId,
        ty: Type,
        span: Span,
        diagnostics: &mut Diagnostics,
    )
        ensures
            final(self).state_model(*final(diagnostics)) == sp_resolve_type(
                old(self).state_model(*old(diagnostics)),
                symbol_id.0 as int,
                ty,
                span,
            ),
            final(self).sigs_model() == old(self).sigs_model(),
    {
        let ghost st0 = self.state_model(*diagnostics);
        proof {
            assert(st0.types + Seq::new(0nat, |i: int| None::<Type>) =~= st0.types);
        }
        while self.type_table.len() <= symbol_id.0
            invariant
                self.type_table@.len() >= st0.types.len(),
                self.type_table@.len() <= st0.types.len() || self.type_table@.len() <= symbol_id.0
                    + 1,
                self.type_table@ == st0.types + Seq::new(
                    (self.type_table@.len() - st0.types.len()) as nat,
                    |i: int| None::<Type>,
                ),
                *self == (TypeVisitor { type_table: self.type_table, ..*old(self) }),
            decreases symbol_id.0 + 1 - self.type_table@.len(),
        {
            self.type_table.push(None);
            proof {
                assert(self.type_table@ =~= st0.types + Seq::new(
                    (self.type_table@.len() - st0.types.len()) as nat,
                    |i: int| None::<Type>,
                ));
            }
        }
        proof {
            assert(self.type_table@ =~= sp_extend_types(st0.types, symbol_id.0 as int));
        }
        let settled = self.type_table[symbol_id.0];
        match settled {
            Some(t) => {
                if t != ty && ty != Type::Error {
                    diagnostics.add_message(
                        CompilerErrorKind::TypeError { expected: t, actual: ty }.into_message(
                            span,
                        ),
                    );
                }
            },
            None => {
                self.type_table.set(symbol_id.0, Some(ty));
            },
        }
    }

    /// Reads a symbol's settled type. A symbol without one reads as
    /// `Error`, silently: the missing type is reported once, when the
    /// table is finalized, not at every use.
    pub fn get_type(&self, symbol_id: SymbolId) -> (r: Type)
        ensures
            r == sp_get_type(self.types_model(), symbol_id.0 as int),
    {
        if symbol_id.0 < self.type_table.len() {
            if let Some(t) = self.type_table[symbol_id.0] {
                return t;
            }
        }
        Type::Error
    }
}

/// A copy of a list of types, for handing a signature's return types out.
fn copy_types(v: &Vec<Type>) -> (r: Vec<Type>)
    ensures
        r@ == v@,
{
    let mut out: Vec<Type> = Vec::new();
    let mut i: usize = 0;
    while i < v.len()
        invariant
            i <= v@.len(),
            out@ =~= v@.take(i as int),
        decreases v@.len() - i,
    {
        out.push(v[i]);
        proof {
            assert(out@ =~= v@.take(i + 1));
        }
        i += 1;
    }
    proof {
        assert(v@.take(v@.len() as int) =~= v@);
    }
    out
}


/// Per-argument mismatch reports for one call.
fn check_args(argts: &Vec<(Type, Span)>, expected: &Vec<Type>, diagnostics: &mut Diagnostics)
    ensures
        final(diagnostics).model() == sp_check_args(argts@, expected@, old(diagnostics).model()),
{
    let ghost m0 = old(diagnostics).model();
    let mut i: usize = 0;
    proof {
        assert(argts@.skip(0int) =~= argts@);
        assert(expected@.skip(0int) =~= expected@);
    }
    while i < argts.len() && i < expected.len()
        invariant
            i <= argts@.len(),
            i <= expected@.len(),
            sp_check_args(argts@, expected@, m0) == sp_check_args(
                argts@.skip(i as int),
                expected@.skip(i as int),
                diagnostics.model(),
            ),
        decreases argts@.len() - i,
    {
        proof {
            assert(argts@.skip(i as int)[0] == argts@[i as int]);
            assert(expected@.skip(i as int)[0] == expected@[i as int]);
            assert(argts@.skip(i as int).skip(1) =~= argts@.skip(i + 1));
            assert(expected@.skip(i as int).skip(1) =~= expected@.skip(i + 1));
        }
        let (actual, span) = argts[i];
        let exp = expected[i];
        if actual != exp && actual != Type::Error && exp != Type::Error {
            diagnostics.add_message(
                CompilerErrorKind::TypeError { expected: exp, actual }.into_message(span),
            );
        }
        i += 1;
    }
    proof {
        if i >= argts@.len() {
            assert(argts@.skip(i as int) =~= Seq::<(Type, Span)>::empty());
        } else {
            assert(expected@.skip(i as int) =~= Seq::<Type>::empty());
        }
    }
}

impl TypeVisitor {
    /// Types one expression against the current state.
    pub fn visit_expr(&mut self, expr: Expression, diagnostics: &mut Diagnostics) -> (r: (
        Expression,
        Type,
    ))
        ensures
            ({
                let (e2, t, st1) = sp_tc_expr(
                    expr.model(),
                    old(self).state_model(*old(diagnostics)),
                    old(self).context_model(),
                );
                r.0.model() == e2 && r.1 == t && final(self).state_model(*final(diagnostics))
                    == st1
            }),
            final(self).sigs_model() == old(self).sigs_model(),
        decreases expr, 1int,
    {
        let Expression { span, kind, symbol, function } = expr;
        match kind {
            ExpressionKind::Integer(i) => (
                Expression { span, kind: ExpressionKind::Integer(i), symbol, function },
                Type::Int,
            ),
            ExpressionKind::Fix(f) => (
                Expression { span, kind: ExpressionKind::Fix(f), symbol, function },
                Type::Fix,
            ),
            ExpressionKind::Bool(b) => (
                Expression { span, kind: ExpressionKind::Bool(b), symbol, function },
                Type::Bool,
            ),
            ExpressionKind::Variable(name) => {
                let t = match symbol {
                    Some(id) => self.get_type(id),
                    None => Type::Error,
                };
                (Expression { span, kind: ExpressionKind::Variable(name), symbol, function }, t)
            },
            ExpressionKind::BinaryOperation { lhs, operator, rhs } => {
                let (l2, lt) = self.visit_expr(*lhs, diagnostics);
                let (r2, rt) = self.visit_expr(*rhs, diagnostics);
                if lt == Type::Error || rt == Type::Error {
                    (
                        Expression {
                            span,
                            kind: ExpressionKind::BinaryOperation {
                                lhs: Box::new(l2),
                                operator,
                                rhs: Box::new(r2),
                            },
                            symbol,
                            function,
                        },
                        Type::Error,
                    )
                } else if lt != rt {
                    diagnostics.add_message(
                        CompilerErrorKind::BinaryOperatorTypeError {
                            lhs_type: lt,
                            rhs_type: rt,
                        }.into_message(span),
                    );
                    (
                        Expression {
                            span,
                            kind: ExpressionKind::BinaryOperation {
                                lhs: Box::new(l2),
                                operator,
                                rhs: Box::new(r2),
                            },
                            symbol,
                            function,
                        },
                        Type::Error,
                    )
                } else if !operator.can_handle_type(lt) {
                    diagnostics.add_message(
                        CompilerErrorKind::InvalidTypeForBinaryOperator {
                            type_: lt,
                        }.into_message(l2.span),
                    );
                    (
                        Expression {
                            span,
                            kind: ExpressionKind::BinaryOperation {
                                lhs: Box::new(l2),
                                operator,
                                rhs: Box::new(r2),
                            },
                            symbol,
                            function,
                        },
                        Type::Error,
                    )
                } else {
                    let mut op2 = operator;
                    op2.update_type_with_lhs(lt);
                    let t = op2.resulting_type(lt, rt);
                    (
                        Expression {
                            span,
                            kind: ExpressionKind::BinaryOperation {
                                lhs: Box::new(l2),
                                operator: op2,
                                rhs: Box::new(r2),
                            },
                            symbol,
                            function,
                        },
                        t,
                    )
                }
            },
            ExpressionKind::Error => (
                Expression { span, kind: ExpressionKind::Error, symbol, function },
                Type::Error,
            ),
            ExpressionKind::Nop => (
                Expression { span, kind: ExpressionKind::Nop, symbol, function },
                Type::Error,
            ),
            ExpressionKind::Call { name, arguments } => {
                let (args2, rets) = self.visit_call(span, function, arguments, diagnostics);
                let e2 = Expression {
                    span,
                    kind: ExpressionKind::Call { name, arguments: args2 },
                    symbol,
                    function,
                };
                if rets.len() != 1 {
                    diagnostics.add_message(
                        CompilerErrorKind::FunctionMustReturnOneValueInThisLocation {
                            actual: rets.len(),
                        }.into_message(span),
                    );
                    (e2, Type::Error)
                } else {
                    (e2, rets[0])
                }
            },
        }
    }

    /// Types a list of expressions, left to right, keeping each one's
    /// type and span.
    pub fn visit_exprs(&mut self, es: Vec<Expression>, diagnostics: &mut Diagnostics) -> (r: (
        Vec<Expression>,
        Vec<(Type, Span)>,
    ))
        ensures
            ({
                let (es2, ts, st1) = sp_tc_exprs(
                    exprs_model(es@),
                    old(self).state_model(*old(diagnostics)),
                    old(self).context_model(),
                );
                exprs_model(r.0@) == es2 && r.1@ == ts && final(self).state_model(
                    *final(diagnostics),
                ) == st1
            }),
            final(self).sigs_model() == old(self).sigs_model(),
        decreases es@, 0int,
    {
        let ghost es0 = es@;
        let mut rest = es;
        if rest.len() == 0 {
            proof {
                assert(exprs_model(es0).len() == 0);
            }
            return (rest, Vec::new());
        }
        let first = rest.remove(0);
        proof {
            assert(rest@ =~= es0.skip(1));
            lemma_exprs_model_index(es0, 0);
            lemma_exprs_model_skip1(es0);
        }
        let (e2, t) = self.visit_expr(first, diagnostics);
        let (mut rest2, mut ts2) = self.visit_exprs(rest, diagnostics);
        let ghost pre = rest2@;
        let ghost tpre = ts2@;
        let e2_span = e2.span;
        rest2.insert(0, e2);
        ts2.insert(0, (t, e2_span));
        proof {
            assert(rest2@ =~= seq![e2] + pre);
            lemma_exprs_model_prepend(e2, pre);
            assert(ts2@ =~= seq![(t, e2.span)] + tpre);
        }
        (rest2, ts2)
    }

    /// Checks one call site against the callee's signature and hands the
    /// callee's declared return types back.
    pub fn visit_call(
        &mut self,
        span: Span,
        fun: Option<FunctionId>,
        arguments: Vec<Expression>,
        diagnostics: &mut Diagnostics,
    ) -> (r: (Vec<Expression>, Vec<Type>))
        ensures
            ({
                let (args2, rets, st1) = sp_tc_call(
                    span,
                    fun,
                    exprs_model(arguments@),
                    old(self).state_model(*old(diagnostics)),
                    old(self).context_model(),
                );
                exprs_model(r.0@) == args2 && r.1@ == rets && final(self).state_model(
                    *final(diagnostics),
                ) == st1
            }),
            final(self).sigs_model() == old(self).sigs_model(),
        decreases arguments@, 1int,
    {
        let (args2, argts) = self.visit_exprs(arguments, diagnostics);
        match fun {
            Some(fid) => {
                if fid.0 < self.functions.len() {
                    let expected_len = self.functions[fid.0].ty.args.len();
                    if argts.len() != expected_len {
                        let sig = &self.functions[fid.0];
                        diagnostics.add_message(
                            CompilerErrorKind::IncorrectNumberOfArguments {
                                expected: expected_len,
                                actual: argts.len(),
                                function_span: sig.span,
                                function_name: sig.name.clone(),
                            }.into_message(span),
                        );
                        let rets = copy_types(&self.functions[fid.0].ty.rets);
                        (args2, rets)
                    } else {
                        check_args(&argts, &self.functions[fid.0].ty.args, diagnostics);
                        let rets = copy_types(&self.functions[fid.0].ty.rets);
                        (args2, rets)
                    }
                } else {
                    let mut rets: Vec<Type> = Vec::new();
                    rets.push(Type::Error);
                    proof {
                        assert(rets@ =~= seq![Type::Error]);
                    }
                    (args2, rets)
                }
            },
            None => {
                let mut rets: Vec<Type> = Vec::new();
                rets.push(Type::Error);
                proof {
                    assert(rets@ =~= seq![Type::Error]);
                }
                (args2, rets)
            },
        }
    }
}


/// The spans and declared types a `return` is checked against.
fn check_returns(
    argts: &Vec<(Type, Span)>,
    expected: &Vec<crate::ast::TypeWithLocation>,
    stmt_span: Span,
    diagnostics: &mut Diagnostics,
)
    ensures
        final(diagnostics).model() == sp_check_returns(
            argts@,
            expected@,
            stmt_span,
            old(diagnostics).model(),
        ),
{
    let ghost m0 = old(diagnostics).model();
    let mut i: usize = 0;
    proof {
        assert(argts@.skip(0int) =~= argts@);
        assert(expected@.skip(0int) =~= expected@);
    }
    while i < argts.len() && i < expected.len()
        invariant
            i <= argts@.len(),
            i <= expected@.len(),
            sp_check_returns(argts@, expected@, stmt_span, m0) == sp_check_returns(
                argts@.skip(i as int),
                expected@.skip(i as int),
                stmt_span,
                diagnostics.model(),
            ),
        decreases argts@.len() - i,
    {
        proof {
            assert(argts@.skip(i as int)[0] == argts@[i as int]);
            assert(expected@.skip(i as int)[0] == expected@[i as int]);
            assert(argts@.skip(i as int).skip(1) =~= argts@.skip(i + 1));
            assert(expected@.skip(i as int).skip(1) =~= expected@.skip(i + 1));
        }
        let (actual, value_span) = argts[i];
        let exp = expected[i];
        if actual != exp.t && actual != Type::Error && exp.t != Type::Error {
            diagnostics.add_message(
                CompilerErrorKind::MismatchingReturnTypes {
                    expected: exp.t,
                    actual,
                    expected_location: exp.span,
                    actual_location: value_span,
                }.into_message(stmt_span),
            );
        }
        i += 1;
    }
    proof {
        if i >= argts@.len() {
            assert(argts@.skip(i as int) =~= Seq::<(Type, Span)>::empty());
        } else {
            assert(expected@.skip(i as int) =~= Seq::<crate::ast::TypeWithLocation>::empty());
        }
    }
}

impl TypeVisitor {
    /// Types one statement and reports whether every control path through
    /// it reaches a `return`.
    pub fn visit_stmt(
        &mut self,
        stmt: Statement,
        expected: &crate::ast::FunctionReturn,
        diagnostics: &mut Diagnostics,
    ) -> (r: (Statement, BlockAnalysisResult))
        ensures
            ({
                let (s2, res, st1) = sp_tc_stmt(
                    stmt.model(),
                    old(self).state_model(*old(diagnostics)),
                    old(self).context_model(),
                    ExpectedReturnV { types: expected.types@, span: expected.span },
                );
                r.0.model() == s2 && r.1 == res && final(self).state_model(*final(diagnostics))
                    == st1
            }),
            final(self).sigs_model() == old(self).sigs_model(),
        decreases stmt, 2int,
    {
        let Statement { span, kind, symbol, function, dead, loop_has_no_break } = stmt;
        match kind {
            StatementKind::VariableDeclaration { ident, value } => {
                let (v2, t) = self.visit_expr(value, diagnostics);
                match symbol {
                    Some(id) => self.resolve_type(id, t, span, diagnostics),
                    None => {},
                }
                (
                    Statement {
                        span,
                        kind: StatementKind::VariableDeclaration { ident, value: v2 },
                        symbol,
                        function,
                        dead,
                        loop_has_no_break,
                    },
                    BlockAnalysisResult::ContainsNonReturningBranch,
                )
            },
            StatementKind::Assignment { ident, value } => {
                let (v2, t) = self.visit_expr(value, diagnostics);
                match symbol {
                    Some(id) => self.resolve_type(id, t, span, diagnostics),
                    None => {},
                }
                (
                    Statement {
                        span,
                        kind: StatementKind::Assignment { ident, value: v2 },
                        symbol,
                        function,
                        dead,
                        loop_has_no_break,
                    },
                    BlockAnalysisResult::ContainsNonReturningBranch,
                )
            },
            StatementKind::If { condition, true_block, false_block } => {
                let (c2, ct) = self.visit_expr(condition, diagnostics);
                if ct != Type::Bool && ct != Type::Error {
                    diagnostics.add_message(
                        CompilerErrorKind::InvalidTypeForIfCondition { got: ct }.into_message(
                            c2.span,
                        ),
                    );
                }
                let (tb2, rt) = self.visit_block(true_block, expected, diagnostics);
                let (fb2, rf) = self.visit_block(false_block, expected, diagnostics);
                let res = if rt == BlockAnalysisResult::AllBranchesReturn && rf
                    == BlockAnalysisResult::AllBranchesReturn {
                    BlockAnalysisResult::AllBranchesReturn
                } else {
                    BlockAnalysisResult::ContainsNonReturningBranch
                };
                (
                    Statement {
                        span,
                        kind: StatementKind::If {
                            condition: c2,
                            true_block: tb2,
                            false_block: fb2,
                        },
                        symbol,
                        function,
                        dead,
                        loop_has_no_break,
                    },
                    res,
                )
            },
            StatementKind::Return { values } => {
                let (vs2, ts) = self.visit_exprs(values, diagnostics);
                if ts.len() != expected.types.len() {
                    diagnostics.add_message(
                        CompilerErrorKind::IncorrectNumberOfReturnTypes {
                            expected: expected.types.len(),
                            actual: ts.len(),
                            function_return_location: expected.span,
                        }.into_message(span),
                    );
                }
                check_returns(&ts, &expected.types, span, diagnostics);
                (
                    Statement {
                        span,
                        kind: StatementKind::Return { values: vs2 },
                        symbol,
                        function,
                        dead,
                        loop_has_no_break,
                    },
                    BlockAnalysisResult::AllBranchesReturn,
                )
            },
            StatementKind::Call { name, arguments } => {
                let (args2, _rets) = self.visit_call(span, function, arguments, diagnostics);
                (
                    Statement {
                        span,
                        kind: StatementKind::Call { name, arguments: args2 },
                        symbol,
                        function,
                        dead,
                        loop_has_no_break,
                    },
                    BlockAnalysisResult::ContainsNonReturningBranch,
                )
            },
            StatementKind::Spawn { name, arguments } => {
                let (args2, _rets) = self.visit_call(span, function, arguments, diagnostics);
                (
                    Statement {
                        span,
                        kind: StatementKind::Spawn { name, arguments: args2 },
                        symbol,
                        function,
                        dead,
                        loop_has_no_break,
                    },
                    BlockAnalysisResult::ContainsNonReturningBranch,
                )
            },
            StatementKind::Loop { block } => {
                let (b2, r) = self.visit_block(block, expected, diagnostics);
                let res = if r == BlockAnalysisResult::AllBranchesReturn {
                    BlockAnalysisResult::AllBranchesReturn
                } else if loop_has_no_break {
                    BlockAnalysisResult::AllBranchesReturn
                } else {
                    BlockAnalysisResult::ContainsNonReturningBranch
                };
                (
                    Statement {
                        span,
                        kind: StatementKind::Loop { block: b2 },
                        symbol,
                        function,
                        dead,
                        loop_has_no_break,
                    },
                    res,
                )
            },
            StatementKind::Block { block } => {
                let (b2, r) = self.visit_block(block, expected, diagnostics);
                (
                    Statement {
                        span,
                        kind: StatementKind::Block { block: b2 },
                        symbol,
                        function,
                        dead,
                        loop_has_no_break,
                    },
                    r,
                )
            },
            other => (
                Statement { span, kind: other, symbol, function, dead, loop_has_no_break },
                BlockAnalysisResult::ContainsNonReturningBranch,
            ),
        }
    }

    /// Types the statements of a block, in order, stopping at the first
    /// statement through which every path returns: nothing after it can
    /// ever run, so it is left as it stands.
    pub fn visit_block(
        &mut self,
        ss: Vec<Statement>,
        expected: &crate::ast::FunctionReturn,
        diagnostics: &mut Diagnostics,
    ) -> (r: (Vec<Statement>, BlockAnalysisResult))
        ensures
            ({
                let (ss2, res, st1) = sp_tc_stmts(
                    stmts_model(ss@),
                    old(self).state_model(*old(diagnostics)),
                    old(self).context_model(),
                    ExpectedReturnV { types: expected.types@, span: expected.span },
                );
                stmts_model(r.0@) == ss2 && r.1 == res && final(self).state_model(
                    *final(diagnostics),
                ) == st1
            }),
            final(self).sigs_model() == old(self).sigs_model(),
        decreases ss@, 0int,
    {
        let ghost ss0 = ss@;
        let mut rest = ss;
        if rest.len() == 0 {
            proof {
                assert(stmts_model(ss0).len() == 0);
            }
            return (rest, BlockAnalysisResult::ContainsNonReturningBranch);
        }
        let first = rest.remove(0);
        proof {
            assert(rest@ =~= ss0.skip(1));
            crate::ast::lemma_stmts_model_index(ss0, 0);
            crate::ast::lemma_stmts_model_skip1(ss0);
        }
        let (s2, r1) = self.visit_stmt(first, expected, diagnostics);
        if r1 == BlockAnalysisResult::AllBranchesReturn {
            let ghost pre = rest@;
            let mut out = rest;
            out.insert(0, s2);
            proof {
                assert(out@ =~= seq![s2] + pre);
                crate::ast::lemma_stmts_model_prepend(s2, pre);
            }
            return (out, BlockAnalysisResult::AllBranchesReturn);
        }
        let (mut rest2, r2) = self.visit_block(rest, expected, diagnostics);
        let ghost pre = rest2@;
        rest2.insert(0, s2);
        proof {
            assert(rest2@ =~= seq![s2] + pre);
            crate::ast::lemma_stmts_model_prepend(s2, pre);
        }
        (rest2, r2)
    }

    /// Types one function: its arguments settle their symbols' types, the
    /// body is checked, and a function that declares return types but
    /// could fall through gets exactly one `FunctionDoesNotHaveReturn`.
    pub fn visit_function(&mut self, function: Function, diagnostics: &mut Diagnostics) -> (r:
        Function)
        ensures
            ({
                let (f2, st1) = sp_tc_function(
                    function.model(),
                    old(self).state_model(*old(diagnostics)),
                    old(self).context_model(),
                );
                r.model() == f2 && final(self).state_model(*final(diagnostics)) == st1
            }),
            final(self).sigs_model() == old(self).sigs_model(),
    {
        let Function { name, span, statements, arguments, return_types, modifiers, function_id } =
            function;
        let ghost args0 = crate::ast::args_model(arguments@);
        let ghost st_start = self.state_model(*diagnostics);
        let mut a: usize = 0;
        proof {
            assert(args0.skip(0int) =~= args0);
        }
        while a < arguments.len()
            invariant
                a <= arguments@.len(),
                args0 == crate::ast::args_model(arguments@),
                args0.len() == arguments@.len(),
                sp_bind_arg_types(args0, st_start) == sp_bind_arg_types(
                    args0.skip(a as int),
                    self.state_model(*diagnostics),
                ),
                self.sigs_model() == old(self).sigs_model(),
            decreases arguments@.len() - a,
        {
            proof {
                assert(args0.skip(a as int)[0] == args0[a as int]);
                assert(args0.skip(a as int).skip(1) =~= args0.skip(a + 1));
            }
            let arg = &arguments[a];
            match &arg.name {
                MaybeResolved::Resolved(id) => {
                    self.resolve_type(*id, arg.t.t, arg.span, diagnostics);
                },
                MaybeResolved::Unresolved(_) => {},
            }
            a += 1;
        }
        proof {
            assert(args0.skip(a as int) =~= Seq::<crate::ast::FunctionArgumentV>::empty());
        }
        let (statements2, res) = self.visit_block(statements, &return_types, diagnostics);
        if return_types.types.len() > 0 && res != BlockAnalysisResult::AllBranchesReturn {
            diagnostics.add_message(
                CompilerErrorKind::FunctionDoesNotHaveReturn {
                    name: name.clone(),
                    return_location: return_types.span,
                }.into_message(return_types.span),
            );
        }
        Function {
            name,
            span,
            statements: statements2,
            arguments,
            return_types,
            modifiers,
            function_id,
        }
    }
}


// ---------------------------------------------------------------------------
// Finalizing: the immutable type table.
// ---------------------------------------------------------------------------

/// Finalizing the type table from symbol `i` on: a symbol whose type was
/// settled keeps it; one no type ever reached becomes `Error`, reported
/// as `UnknownType` at its declaration if it has one (only now, so the
/// same dead name is not reported at every use).
pub open spec fn sp_finalize_from(
    types: Seq<Option<Type>>,
    symbols: Seq<SymbolRecordV>,
    i: int,
    acc: Seq<Type>,
    msgs: Seq<MessageV>,
) -> (Seq<Type>, Seq<MessageV>)
    decreases symbols.len() - i,
{
    if i < 0 || i >= symbols.len() {
        (acc, msgs)
    } else {
        let settled = if 0 <= i < types.len() {
            types[i]
        } else {
            None
        };
        match settled {
            Some(ty) => sp_finalize_from(types, symbols, i + 1, acc.push(ty), msgs),
            None => {
                let m1 = match symbols[i].1 {
                    Some(span) => msgs.push(sp_unknown_type_message(symbols[i].0, span)),
                    None => msgs,
                };
                sp_finalize_from(types, symbols, i + 1, acc.push(Type::Error), m1)
            },
        }
    }
}

/// The first return-arity entry recorded under a name, if any.
pub open spec fn sp_rets_find(entries: Seq<(Seq<char>, nat)>, name: Seq<char>) -> Option<nat>
    decreases entries,
{
    if entries.len() == 0 {
        None
    } else if entries[0].0 == name {
        Some(entries[0].1)
    } else {
        sp_rets_find(entries.skip(1), name)
    }
}

pub open spec fn rets_entries_model(entries: Seq<(String, usize)>) -> Seq<(Seq<char>, nat)> {
    entries.map_values(|e: (String, usize)| (e.0@, e.1 as nat))
}

/// The finished mapping from symbols to types, and from function names to
/// how many values they return; immutable once type checking completes.
#[derive(Debug)]
pub struct TypeTable {
    types: Vec<Type>,
    num_function_returns: Vec<(String, usize)>,
}

impl TypeTable {
    /// One type per symbol, by symbol id.
    pub closed spec fn types_model(self) -> Seq<Type> {
        self.types@
    }

    /// One entry per declared function, in declaration order.
    pub closed spec fn rets_model(self) -> Seq<(Seq<char>, nat)> {
        rets_entries_model(self.num_function_returns@)
    }

    /// The settled type of a symbol.
    pub fn type_for_symbol(&self, symbol_id: SymbolId) -> (r: Type)
        requires
            symbol_id.0 < self.types_model().len(),
        ensures
            r == self.types_model()[symbol_id.0 as int],
    {
        self.types[symbol_id.0]
    }

    /// How many values the named function returns; the name must be a
    /// declared function's.
    pub fn num_function_returns(&self, fn_name: &String) -> (r: usize)
        requires
            sp_rets_find(self.rets_model(), fn_name@) is Some,
        ensures
            Some(r as nat) == sp_rets_find(self.rets_model(), fn_name@),
    {
        let ghost m = self.rets_model();
        let mut k: usize = 0;
        proof {
            assert(m.skip(0int) =~= m);
        }
        while k < self.num_function_returns.len()
            invariant
                k <= self.num_function_returns@.len(),
                m == self.rets_model(),
                m.len() == self.num_function_returns@.len(),
                sp_rets_find(m, fn_name@) == sp_rets_find(m.skip(k as int), fn_name@),
                sp_rets_find(m, fn_name@) is Some,
            decreases self.num_function_returns@.len() - k,
        {
            let entry = &self.num_function_returns[k];
            proof {
                assert(m.skip(k as int)[0] == m[k as int]);
                assert(m.skip(k as int).skip(1) =~= m.skip(k + 1));
            }
            if entry.0.eq(fn_name) {
                return entry.1;
            }
            k += 1;
        }
        proof {
            assert(m.skip(k as int) =~= Seq::<(Seq<char>, nat)>::empty());
        }
        unreached()
    }
}

impl TypeVisitor {
    /// Closes type checking: every symbol that never received a type is
    /// reported as `UnknownType` once, and the finished table is handed
    /// out together with each function's return arity.
    pub fn into_type_table(
        self,
        symtab: &SymTab,
        diagnostics: &mut Diagnostics,
    ) -> (r: TypeTable)
        ensures
            ({
                let (types, msgs) = sp_finalize_from(
                    self.types_model(),
                    symtab.names_model(),
                    0,
                    Seq::empty(),
                    old(diagnostics).model(),
                );
                r.types_model() == types && final(diagnostics).model() == msgs
            }),
            r.rets_model() == self.sigs_model().map_values(
                |s: SigV| (s.name, s.rets.len()),
            ),
    {
        let ghost types0 = self.types_model();
        let ghost symbols = symtab.names_model();
        let ghost msgs0 = diagnostics.model();
        let mut types: Vec<Type> = Vec::new();
        let mut i: usize = 0;
        let total = symtab.symbol_count();
        while i < total
            invariant
                i <= symbols.len(),
                total == symbols.len(),
                types0 == self.types_model(),
                symbols == symtab.names_model(),
                sp_finalize_from(types0, symbols, 0, Seq::empty(), msgs0) == sp_finalize_from(
                    types0,
                    symbols,
                    i as int,
                    types@,
                    diagnostics.model(),
                ),
            decreases symbols.len() - i,
        {
            let settled = if i < self.type_table.len() {
                self.type_table[i]
            } else {
                None
            };
            match settled {
                Some(ty) => {
                    types.push(ty);
                },
                None => {
                    let has_span = symtab.span_exists(SymbolId(i));
                    if has_span {
                        let span = symtab.span_for_symbol(SymbolId(i));
                        let name = symtab.name_for_symbol(SymbolId(i));
                        diagnostics.add_message(
                            CompilerErrorKind::UnknownType(name).into_message(span),
                        );
                    }
                    types.push(Type::Error);
                },
            }
            i += 1;
        }
        let mut num_function_returns: Vec<(String, usize)> = Vec::new();
        let mut k: usize = 0;
        while k < self.functions.len()
            invariant
                k <= self.functions@.len(),
                num_function_returns@.len() == k,
                forall|j: int|
                    0 <= j < k ==> (#[trigger] num_function_returns@[j]).0@
                        == self.functions@[j].model().name && num_function_returns@[j].1
                        == self.functions@[j].model().rets.len(),
            decreases self.functions@.len() - k,
        {
            let f = &self.functions[k];
            num_function_returns.push((f.name.clone(), f.ty.rets.len()));
            k += 1;
        }
        let r = TypeTable { types, num_function_returns };
        proof {
            assert(r.rets_model() =~= self.sigs_model().map_values(
                |s: SigV| (s.name, s.rets.len()),
            ));
        }
        r
    }
}


// ---------------------------------------------------------------------------
// The missing-return report is unique.
// ---------------------------------------------------------------------------

pub open spec fn sp_is_fdnhr(m: MessageV) -> bool {
    m.error matches MessageKindV::CompilerError(
        CompilerErrorKindV::FunctionDoesNotHaveReturn { .. },
    )
}

/// How many missing-return reports a log holds.
pub open spec fn sp_count_fdnhr(msgs: Seq<MessageV>) -> nat
    decreases msgs,
{
    if msgs.len() == 0 {
        0
    } else {
        sp_count_fdnhr(msgs.drop_last()) + (if sp_is_fdnhr(msgs.last()) {
            1nat
        } else {
            0nat
        })
    }
}

proof fn lemma_count_fdnhr_push(msgs: Seq<MessageV>, m: MessageV)
    ensures
        sp_count_fdnhr(msgs.push(m)) == sp_count_fdnhr(msgs) + (if sp_is_fdnhr(m) {
            1nat
        } else {
            0nat
        }),
{
    assert(msgs.push(m).drop_last() =~= msgs);
    assert(msgs.push(m).last() == m);
}

proof fn lemma_resolve_type_no_fdnhr(st: TcStateV, id: int, ty: Type, span: Span)
    ensures
        sp_count_fdnhr(sp_resolve_type(st, id, ty, span).msgs) == sp_count_fdnhr(st.msgs),
{
    let ext = sp_extend_types(st.types, id);
    match ext[id] {
        Some(settled) => {
            if settled != ty && ty != Type::Error {
                lemma_count_fdnhr_push(st.msgs, sp_type_error_message(settled, ty, span));
            }
        },
        None => {},
    }
}

proof fn lemma_tc_expr_no_fdnhr(e: ExpressionV, st: TcStateV, ctx: TcContextV)
    ensures
        sp_count_fdnhr(sp_tc_expr(e, st, ctx).2.msgs) == sp_count_fdnhr(st.msgs),
    decreases e, 1int,
{
    match e.kind {

        ExpressionKindV::BinaryOperation { lhs, operator, rhs } => {
            lemma_tc_expr_no_fdnhr(*lhs, st, ctx);
            let (l2, lt, st1) = sp_tc_expr(*lhs, st, ctx);
            lemma_tc_expr_no_fdnhr(*rhs, st1, ctx);
            let (r2, rt, st2) = sp_tc_expr(*rhs, st1, ctx);
            if lt != Type::Error && rt != Type::Error && lt != rt {
                lemma_count_fdnhr_push(
                    st2.msgs,
                    MessageV {
                        span: e.span,
                        error: MessageKindV::CompilerError(
                            CompilerErrorKindV::BinaryOperatorTypeError {
                                lhs_type: lt,
                                rhs_type: rt,
                            },
                        ),
                    },
                );
            } else if lt != Type::Error && rt != Type::Error && lt == rt
                && !operator.spec_can_handle_type(lt) {
                lemma_count_fdnhr_push(
                    st2.msgs,
                    MessageV {
                        span: l2.span,
                        error: MessageKindV::CompilerError(
                            CompilerErrorKindV::InvalidTypeForBinaryOperator { type_: lt },
                        ),
                    },
                );
            }
        },
        ExpressionKindV::Call { name, arguments } => {
            lemma_tc_call_no_fdnhr(e.span, e.function, arguments, st, ctx);
            let (args2, rets, st1) = sp_tc_call(e.span, e.function, arguments, st, ctx);
            if rets.len() != 1 {
                lemma_count_fdnhr_push(
                    st1.msgs,
                    MessageV {
                        span: e.span,
                        error: MessageKindV::CompilerError(
                            CompilerErrorKindV::FunctionMustReturnOneValueInThisLocation {
                                actual: rets.len(),
                            },
                        ),
                    },
                );
            }
        },
        _ => {},
    }
}

proof fn lemma_tc_exprs_no_fdnhr(es: Seq<ExpressionV>, st: TcStateV, ctx: TcContextV)
    ensures
        sp_count_fdnhr(sp_tc_exprs(es, st, ctx).2.msgs) == sp_count_fdnhr(st.msgs),
    decreases es, 0int,
{
    if es.len() > 0 {
        lemma_tc_expr_no_fdnhr(es[0], st, ctx);
        let (e2, t, st1) = sp_tc_expr(es[0], st, ctx);
        lemma_tc_exprs_no_fdnhr(es.skip(1), st1, ctx);
    }
}

proof fn lemma_check_args_no_fdnhr(argts: Seq<(Type, Span)>, expected: Seq<Type>, msgs: Seq<MessageV>)
    ensures
        sp_count_fdnhr(sp_check_args(argts, expected, msgs)) == sp_count_fdnhr(msgs),
    decreases argts,
{
    if argts.len() > 0 && expected.len() > 0 {
        let (actual, span) = argts[0];
        let m1 = if actual != expected[0] && actual != Type::Error && expected[0] != Type::Error {
            lemma_count_fdnhr_push(msgs, sp_type_error_message(expected[0], actual, span));
            msgs.push(sp_type_error_message(expected[0], actual, span))
        } else {
            msgs
        };
        lemma_check_args_no_fdnhr(argts.skip(1), expected.skip(1), m1);
    }
}

proof fn lemma_check_returns_no_fdnhr(
    argts: Seq<(Type, Span)>,
    expected: Seq<crate::ast::TypeWithLocation>,
    stmt_span: Span,
    msgs: Seq<MessageV>,
)
    ensures
        sp_count_fdnhr(sp_check_returns(argts, expected, stmt_span, msgs)) == sp_count_fdnhr(msgs),
    decreases argts,
{
    if argts.len() > 0 && expected.len() > 0 {
        let (actual, value_span) = argts[0];
        let exp = expected[0];
        let m1 = if actual != exp.t && actual != Type::Error && exp.t != Type::Error {
            let m = MessageV {
                span: stmt_span,
                error: MessageKindV::CompilerError(
                    CompilerErrorKindV::MismatchingReturnTypes {
                        expected: exp.t,
                        actual,
                        expected_location: exp.span,
                        actual_location: value_span,
                    },
                ),
            };
            lemma_count_fdnhr_push(msgs, m);
            msgs.push(m)
        } else {
            msgs
        };
        lemma_check_returns_no_fdnhr(argts.skip(1), expected.skip(1), stmt_span, m1);
    }
}

proof fn lemma_tc_call_no_fdnhr(
    span: Span,
    fun: Option<crate::ast::FunctionId>,
    arguments: Seq<ExpressionV>,
    st: TcStateV,
    ctx: TcContextV,
)
    ensures
        sp_count_fdnhr(sp_tc_call(span, fun, arguments, st, ctx).2.msgs) == sp_count_fdnhr(st.msgs),
    decreases arguments, 1int,
{
    lemma_tc_exprs_no_fdnhr(arguments, st, ctx);
    let (args2, argts, st1) = sp_tc_exprs(arguments, st, ctx);
    match fun {
        Some(fid) => {
            if fid.0 < ctx.sigs.len() {
                let sig = ctx.sigs[fid.0 as int];
                if argts.len() != sig.args.len() {
                    lemma_count_fdnhr_push(
                        st1.msgs,
                        MessageV {
                            span,
                            error: MessageKindV::CompilerError(
                                CompilerErrorKindV::IncorrectNumberOfArguments {
                                    expected: sig.args.len(),
                                    actual: argts.len(),
                                    function_span: sig.span,
                                    function_name: sig.name,
                                },
                            ),
                        },
                    );
                } else {
                    lemma_check_args_no_fdnhr(argts, sig.args, st1.msgs);
                }
            }
        },
        None => {},
    }
}

proof fn lemma_tc_stmt_no_fdnhr(
    s: StatementV,
    st: TcStateV,
    ctx: TcContextV,
    expected: ExpectedReturnV,
)
    ensures
        sp_count_fdnhr(sp_tc_stmt(s, st, ctx, expected).2.msgs) == sp_count_fdnhr(st.msgs),
    decreases s, 2int,
{
    match s.kind {
        StatementKindV::VariableDeclaration { ident, value } => {
            lemma_tc_expr_no_fdnhr(value, st, ctx);
            let (v2, t, st1) = sp_tc_expr(value, st, ctx);
            match s.symbol {
                Some(id) => {
                    lemma_resolve_type_no_fdnhr(st1, id.0 as int, t, s.span);
                },
                None => {},
            }
        },
        StatementKindV::Assignment { ident, value } => {
            lemma_tc_expr_no_fdnhr(value, st, ctx);
            let (v2, t, st1) = sp_tc_expr(value, st, ctx);
            match s.symbol {
                Some(id) => {
                    lemma_resolve_type_no_fdnhr(st1, id.0 as int, t, s.span);
                },
                None => {},
            }
        },
        StatementKindV::If { condition, true_block, false_block } => {
            lemma_tc_expr_no_fdnhr(condition, st, ctx);
            let (c2, ct, st1) = sp_tc_expr(condition, st, ctx);
            let st1b = if ct != Type::Bool && ct != Type::Error {
                let m = MessageV {
                    span: c2.span,
                    error: MessageKindV::CompilerError(
                        CompilerErrorKindV::InvalidTypeForIfCondition { got: ct },
                    ),
                };
                lemma_count_fdnhr_push(st1.msgs, m);
                TcStateV { msgs: st1.msgs.push(m), ..st1 }
            } else {
                st1
            };
            lemma_tc_stmts_no_fdnhr(true_block, st1b, ctx, expected);
            let (tb2, rt, st2) = sp_tc_stmts(true_block, st1b, ctx, expected);
            lemma_tc_stmts_no_fdnhr(false_block, st2, ctx, expected);
        },
        StatementKindV::Return { values } => {
            lemma_tc_exprs_no_fdnhr(values, st, ctx);
            let (vs2, ts, st1) = sp_tc_exprs(values, st, ctx);
            let m1 = if ts.len() != expected.types.len() {
                let m = MessageV {
                    span: s.span,
                    error: MessageKindV::CompilerError(
                        CompilerErrorKindV::IncorrectNumberOfReturnTypes {
                            expected: expected.types.len(),
                            actual: ts.len(),
                            function_return_location: expected.span,
                        },
                    ),
                };
                lemma_count_fdnhr_push(st1.msgs, m);
                st1.msgs.push(m)
            } else {
                st1.msgs
            };
            lemma_check_returns_no_fdnhr(ts, expected.types, s.span, m1);
        },
        StatementKindV::Call { name, arguments } => {
            lemma_tc_call_no_fdnhr(s.span, s.function, arguments, st, ctx);
        },
        StatementKindV::Spawn { name, arguments } => {
            lemma_tc_call_no_fdnhr(s.span, s.function, arguments, st, ctx);
        },
        StatementKindV::Loop { block } => {
            lemma_tc_stmts_no_fdnhr(block, st, ctx, expected);
        },
        StatementKindV::Block { block } => {
            lemma_tc_stmts_no_fdnhr(block, st, ctx, expected);
        },
        _ => {},
    }
}

proof fn lemma_tc_stmts_no_fdnhr(
    ss: Seq<StatementV>,
    st: TcStateV,
    ctx: TcContextV,
    expected: ExpectedReturnV,
)
    ensures
        sp_count_fdnhr(sp_tc_stmts(ss, st, ctx, expected).2.msgs) == sp_count_fdnhr(st.msgs),
    decreases ss, 0int,
{
    if ss.len() > 0 {
        lemma_tc_stmt_no_fdnhr(ss[0], st, ctx, expected);
        let (s2, r, st1) = sp_tc_stmt(ss[0], st, ctx, expected);
        if r != BlockAnalysisResult::AllBranchesReturn {
            lemma_tc_stmts_no_fdnhr(ss.skip(1), st1, ctx, expected);
        }
    }
}

proof fn lemma_bind_arg_types_no_fdnhr(args: Seq<crate::ast::FunctionArgumentV>, st: TcStateV)
    ensures
        sp_count_fdnhr(sp_bind_arg_types(args, st).msgs) == sp_count_fdnhr(st.msgs),
    decreases args,
{
    if args.len() > 0 {
        let a = args[0];
        let st1 = match a.name {
            MaybeResolvedV::Resolved(id) => {
                lemma_resolve_type_no_fdnhr(st, id.0 as int, a.t.t, a.span);
                sp_resolve_type(st, id.0 as int, a.t.t, a.span)
            },
            MaybeResolvedV::Unresolved(_) => st,
        };
        lemma_bind_arg_types_no_fdnhr(args.skip(1), st1);
    }
}

/// Law: a function that declares at least one return type and whose body
/// cannot be proved to return on every path is reported with exactly one
/// `FunctionDoesNotHaveReturn`, carrying the declaration's span; checking
/// a function adds no such report in any other case.
pub proof fn lemma_missing_return_reported_once(f: FunctionV, st: TcStateV, ctx: TcContextV)
    ensures
        ({
            let st1 = sp_bind_arg_types(f.arguments, st);
            let expected = ExpectedReturnV {
                types: f.return_types.types,
                span: f.return_types.span,
            };
            let (ss2, res, st2) = sp_tc_stmts(f.statements, st1, ctx, expected);
            let (f2, st3) = sp_tc_function(f, st, ctx);
            if f.return_types.types.len() > 0 && res != BlockAnalysisResult::AllBranchesReturn {
                sp_count_fdnhr(st3.msgs) == sp_count_fdnhr(st.msgs) + 1 && st3.msgs.last()
                    == sp_no_return_message(f.name, f.return_types.span)
            } else {
                sp_count_fdnhr(st3.msgs) == sp_count_fdnhr(st.msgs)
            }
        }),
{
    lemma_bind_arg_types_no_fdnhr(f.arguments, st);
    let st1 = sp_bind_arg_types(f.arguments, st);
    let expected = ExpectedReturnV { types: f.return_types.types, span: f.return_types.span };
    lemma_tc_stmts_no_fdnhr(f.statements, st1, ctx, expected);
    let (ss2, res, st2) = sp_tc_stmts(f.statements, st1, ctx, expected);
    if f.return_types.types.len() > 0 && res != BlockAnalysisResult::AllBranchesReturn {
        lemma_count_fdnhr_push(
            st2.msgs,
            sp_no_return_message(f.name, f.return_types.span),
        );
    }
}

} // verus!
