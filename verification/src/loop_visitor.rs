use vstd::prelude::*;

use crate::ast::{
    lemma_stmts_model_index, lemma_stmts_model_prepend, lemma_stmts_model_skip1, stmts_model,
    Function, FunctionV, Statement, StatementKind, StatementKindV, StatementV,
};

verus! {

// ---------------------------------------------------------------------------
// Loop reachability analysis: does a loop contain a break of its own?
// ---------------------------------------------------------------------------

/// Whether a block contains a `break` that belongs to the enclosing loop:
/// one written directly in it, or in a nested branch or plain block, but
/// not one inside a nested loop (those breaks leave the nested loop only).
pub open spec fn sp_block_has_break(ss: Seq<StatementV>) -> bool
    decreases ss, 0int,
{
    if ss.len() == 0 {
        false
    } else {
        sp_stmt_has_break(ss[0]) || sp_block_has_break(ss.skip(1))
    }
}

pub open spec fn sp_stmt_has_break(s: StatementV) -> bool
    decreases s, 1int,
{
    match s.kind {
        StatementKindV::Break => true,
        StatementKindV::If { true_block, false_block, .. } => sp_block_has_break(true_block)
            || sp_block_has_break(false_block),
        StatementKindV::Block { block } => sp_block_has_break(block),
        _ => false,
    }
}

/// The fact the analysis attaches: every loop is marked with whether no
/// break of its own is reachable in its body. A loop so marked never
/// falls through; the return-exhaustiveness proof leans on that.
pub open spec fn sp_mark_stmt(s: StatementV) -> StatementV
    decreases s, 1int,
{
    match s.kind {
        StatementKindV::If { condition, true_block, false_block } => StatementV {
            kind: StatementKindV::If {
                condition,
                true_block: sp_mark_stmts(true_block),
                false_block: sp_mark_stmts(false_block),
            },
            ..s
        },
        StatementKindV::Block { block } => StatementV {
            kind: StatementKindV::Block { block: sp_mark_stmts(block) },
            ..s
        },
        StatementKindV::Loop { block } => StatementV {
            kind: StatementKindV::Loop { block: sp_mark_stmts(block) },
            loop_has_no_break: !sp_block_has_break(block),
            ..s
        },
        _ => s,
    }
}

pub open spec fn sp_mark_stmts(ss: Seq<StatementV>) -> Seq<StatementV>
    decreases ss, 0int,
{
    if ss.len() == 0 {
        ss
    } else {
        seq![sp_mark_stmt(ss[0])] + sp_mark_stmts(ss.skip(1))
    }
}

pub open spec fn sp_mark_function(f: FunctionV) -> FunctionV {
    FunctionV { statements: sp_mark_stmts(f.statements), ..f }
}

/// Whether this block holds a `break` belonging to the enclosing loop.
pub fn block_has_break(ss: &Vec<Statement>) -> (r: bool)
    ensures
        r == sp_block_has_break(stmts_model(ss@)),
    decreases ss@, 0int,
{
    let mut i: usize = 0;
    proof {
        crate::ast::lemma_stmts_model_len(ss@);
        assert(stmts_model(ss@).skip(0int) =~= stmts_model(ss@));
    }
    while i < ss.len()
        invariant
            i <= ss@.len(),
            stmts_model(ss@).len() == ss@.len(),
            sp_block_has_break(stmts_model(ss@)) == sp_block_has_break(
                stmts_model(ss@).skip(i as int),
            ),
        decreases ss@.len() - i,
    {
        proof {
            lemma_stmts_model_index(ss@, i as int);
            assert(stmts_model(ss@).skip(i as int)[0] == stmts_model(ss@)[i as int]);
            assert(stmts_model(ss@).skip(i as int).skip(1) =~= stmts_model(ss@).skip(i + 1));
        }
        if stmt_has_break(&ss[i]) {
            return true;
        }
        i += 1;
    }
    proof {
        assert(stmts_model(ss@).skip(i as int) =~= Seq::<StatementV>::empty());
    }
    false
}

pub fn stmt_has_break(s: &Statement) -> (r: bool)
    ensures
        r == sp_stmt_has_break(s.model()),
    decreases *s, 1int,
{
    match &s.kind {
        StatementKind::Break => true,
        StatementKind::If { true_block, false_block, .. } => {
            block_has_break(true_block) || block_has_break(false_block)
        },
        StatementKind::Block { block } => block_has_break(block),
        _ => false,
    }
}

/// Attaches to every loop whether no break of its own is reachable in
/// its body; nothing else about the tree changes.
pub fn mark_stmt(s: Statement) -> (r: Statement)
    ensures
        r.model() == sp_mark_stmt(s.model()),
    decreases s, 1int,
{
    let Statement { span, kind, symbol, function, dead, loop_has_no_break } = s;
    match kind {
        StatementKind::If { condition, true_block, false_block } => {
            let tb2 = mark_stmts(true_block);
            let fb2 = mark_stmts(false_block);
            Statement {
                span,
                kind: StatementKind::If { condition, true_block: tb2, false_block: fb2 },
                symbol,
                function,
                dead,
                loop_has_no_break,
            }
        },
        StatementKind::Block { block } => {
            let b2 = mark_stmts(block);
            Statement {
                span,
                kind: StatementKind::Block { block: b2 },
                symbol,
                function,
                dead,
                loop_has_no_break,
            }
        },
        StatementKind::Loop { block } => {
            let has_break = block_has_break(&block);
            let b2 = mark_stmts(block);
            Statement {
                span,
                kind: StatementKind::Loop { block: b2 },
                symbol,
                function,
                dead,
                loop_has_no_break: !has_break,
            }
        },
        other => Statement { span, kind: other, symbol, function, dead, loop_has_no_break },
    }
}

pub fn mark_stmts(ss: Vec<Statement>) -> (r: Vec<Statement>)
    ensures
        stmts_model(r@) == sp_mark_stmts(stmts_model(ss@)),
    decreases ss@, 0int,
{
    let ghost ss0 = ss@;
    let mut rest = ss;
    if rest.len() == 0 {
        proof {
            assert(stmts_model(ss0).len() == 0);
        }
        return rest;
    }
    let first = rest.remove(0);
    proof {
        assert(rest@ =~= ss0.skip(1));
        lemma_stmts_model_index(ss0, 0);
        lemma_stmts_model_skip1(ss0);
    }
    let s2 = mark_stmt(first);
    let mut rest2 = mark_stmts(rest);
    let ghost pre = rest2@;
    rest2.insert(0, s2);
    proof {
        assert(rest2@ =~= seq![s2] + pre);
        lemma_stmts_model_prepend(s2, pre);
    }
    rest2
}

/// Runs the analysis over one function's body.
pub fn visit_loop_check(function: Function) -> (r: Function)
    ensures
        r.model() == sp_mark_function(function.model()),
{
    let Function { name, span, statements, arguments, return_types, modifiers, function_id } =
        function;
    let statements2 = mark_stmts(statements);
    Function {
        name,
        span,
        statements: statements2,
        arguments,
        return_types,
        modifiers,
        function_id,
    }
}

} // verus!
