use vstd::prelude::*;

use crate::ast::{
    lemma_stmts_model_index, stmts_model, BinaryOperator, Expression, ExpressionKind,
    ExpressionKindV, ExpressionV, FunctionV, Script, Statement, StatementKind, StatementKindV,
    StatementV,
};
use crate::format::{sp_dec_str, usize_to_string};

verus! {

// ---------------------------------------------------------------------------
// A plain textual rendering of a script, for inspecting what the passes
// left behind. Spans and pass-computed facts are not shown.
// ---------------------------------------------------------------------------

/// A signed number as decimal text.
pub open spec fn sp_i32_str(n: int) -> Seq<char> {
    if n >= 0 {
        sp_dec_str(n as nat)
    } else {
        seq!['-'] + sp_dec_str((-n) as nat)
    }
}

pub fn i32_to_string(n: i32) -> (r: String)
    ensures
        r@ == sp_i32_str(n as int),
{
    if n >= 0 {
        let r = usize_to_string(n as usize);
        proof {
            assert(r@ =~= sp_i32_str(n as int));
        }
        r
    } else {
        let mut r = "-".to_owned();
        let magnitude = (-(n as i64)) as usize;
        r.append(usize_to_string(magnitude).as_str());
        proof {
            reveal_strlit("-");
            assert(r@ =~= sp_i32_str(n as int));
        }
        r
    }
}

/// The written form of an operator.
pub open spec fn sp_pp_operator(op: BinaryOperator) -> Seq<char> {
    match op {
        BinaryOperator::Add => "+"@,
        BinaryOperator::Sub => "-"@,
        BinaryOperator::Mul => "*"@,
        BinaryOperator::Div => "/"@,
        BinaryOperator::Mod => "%"@,
        BinaryOperator::RealDiv => "//"@,
        BinaryOperator::RealMod => "%%"@,
        BinaryOperator::FixMul => "*."@,
        BinaryOperator::FixDiv => "/."@,
        BinaryOperator::EqEq => "=="@,
        BinaryOperator::NeEq => "!="@,
        BinaryOperator::Gt => ">"@,
        BinaryOperator::GtEq => ">="@,
        BinaryOperator::Lt => "<"@,
        BinaryOperator::LtEq => "<="@,
        BinaryOperator::Then => "~>"@,
    }
}

fn pp_operator(op: BinaryOperator) -> (r: &'static str)
    ensures
        r@ == sp_pp_operator(op),
{
    match op {
        BinaryOperator::Add => "+",
        BinaryOperator::Sub => "-",
        BinaryOperator::Mul => "*",
        BinaryOperator::Div => "/",
        BinaryOperator::Mod => "%",
        BinaryOperator::RealDiv => "//",
        BinaryOperator::RealMod => "%%",
        BinaryOperator::FixMul => "*.",
        BinaryOperator::FixDiv => "/.",
        BinaryOperator::EqEq => "==",
        BinaryOperator::NeEq => "!=",
        BinaryOperator::Gt => ">",
        BinaryOperator::GtEq => ">=",
        BinaryOperator::Lt => "<",
        BinaryOperator::LtEq => "<=",
        BinaryOperator::Then => "~>",
    }
}

/// The written form of one expression; nested operations are always
/// parenthesized, so precedence never has to be re-derived.
pub open spec fn sp_pp_expr(e: ExpressionV) -> Seq<char>
    decreases e, 1int,
{
    match e.kind {
        ExpressionKindV::Integer(v) => sp_i32_str(v as int),
        ExpressionKindV::Fix(f) => "fix("@ + sp_i32_str(f.raw as int) + ")"@,
        ExpressionKindV::Bool(b) => if b {
            "true"@
        } else {
            "false"@
        },
        ExpressionKindV::Variable(name) => name,
        ExpressionKindV::BinaryOperation { lhs, operator, rhs } => {
            "("@ + sp_pp_expr(*lhs) + " "@ + sp_pp_operator(operator) + " "@ + sp_pp_expr(*rhs)
                + ")"@
        },
        ExpressionKindV::Error => "<error>"@,
        ExpressionKindV::Nop => "<nop>"@,
        ExpressionKindV::Call { name, arguments } => name + "("@ + sp_pp_exprs(arguments) + ")"@,
    }
}

/// A comma-separated expression list.
pub open spec fn sp_pp_exprs(es: Seq<ExpressionV>) -> Seq<char>
    decreases es, 0int,
{
    if es.len() == 0 {
        Seq::empty()
    } else if es.len() == 1 {
        sp_pp_expr(es[0])
    } else {
        sp_pp_expr(es[0]) + ", "@ + sp_pp_exprs(es.skip(1))
    }
}

pub fn pp_expr(e: &Expression, out: &mut String)
    ensures
        final(out)@ == old(out)@ + sp_pp_expr(e.model()),
    decreases *e, 1int,
{
    match &e.kind {
        ExpressionKind::Integer(v) => {
            out.append(i32_to_string(*v).as_str());
        },
        ExpressionKind::Fix(f) => {
            out.append("fix(");
            out.append(i32_to_string(f.raw).as_str());
            out.append(")");
        },
        ExpressionKind::Bool(b) => {
            if *b {
                out.append("true");
            } else {
                out.append("false");
            }
        },
        ExpressionKind::Variable(name) => {
            out.append(name.as_str());
        },
        ExpressionKind::BinaryOperation { lhs, operator, rhs } => {
            out.append("(");
            pp_expr(lhs, out);
            out.append(" ");
            out.append(pp_operator(*operator));
            out.append(" ");
            pp_expr(rhs, out);
            out.append(")");
        },
        ExpressionKind::Error => {
            out.append("<error>");
        },
        ExpressionKind::Nop => {
            out.append("<nop>");
        },
        ExpressionKind::Call { name, arguments } => {
            out.append(name.as_str());
            out.append("(");
            pp_exprs(arguments, out);
            out.append(")");
        },
    }
}

fn pp_exprs(es: &Vec<Expression>, out: &mut String)
    ensures
        final(out)@ == old(out)@ + sp_pp_exprs(crate::ast::exprs_model(es@)),
    decreases es@, 0int,
{
    let ghost esm = crate::ast::exprs_model(es@);
    let mut i: usize = 0;
    proof {
        crate::ast::lemma_exprs_model_len(es@);
        assert(esm.skip(0int) =~= esm);
        assert(old(out)@ + Seq::<char>::empty() =~= old(out)@);
    }
    while i < es.len()
        invariant
            i <= es@.len(),
            esm == crate::ast::exprs_model(es@),
            esm.len() == es@.len(),
            old(out)@ + sp_pp_exprs(esm) == out@ + sp_pp_exprs(esm.skip(i as int)),
        decreases es@.len() - i,
    {
        let ghost out0 = out@;
        proof {
            crate::ast::lemma_exprs_model_index(es@, i as int);
            assert(esm.skip(i as int)[0] == esm[i as int]);
            assert(esm.skip(i as int).skip(1) =~= esm.skip(i + 1));
        }
        pp_expr(&es[i], out);
        if i + 1 < es.len() {
            out.append(", ");
            proof {
                assert(sp_pp_exprs(esm.skip(i as int)) == sp_pp_expr(esm[i as int]) + ", "@
                    + sp_pp_exprs(esm.skip(i + 1)));
                assert(out0 + sp_pp_exprs(esm.skip(i as int)) =~= out@ + sp_pp_exprs(
                    esm.skip(i + 1),
                ));
            }
        } else {
            proof {
                assert(esm.skip(i as int).len() == 1);
                assert(sp_pp_exprs(esm.skip(i as int)) == sp_pp_expr(esm[i as int]));
                assert(sp_pp_exprs(esm.skip(i + 1)) =~= Seq::<char>::empty());
                assert(out0 + sp_pp_exprs(esm.skip(i as int)) =~= out@ + sp_pp_exprs(
                    esm.skip(i + 1),
                ));
            }
        }
        i += 1;
    }
    proof {
        assert(sp_pp_exprs(esm.skip(i as int)) =~= Seq::<char>::empty());
        assert(out@ + sp_pp_exprs(esm.skip(i as int)) =~= out@);
    }
}

/// Two spaces per nesting level.
pub open spec fn sp_indent(depth: nat) -> Seq<char>
    decreases depth,
{
    if depth == 0 {
        Seq::empty()
    } else {
        "  "@ + sp_indent((depth - 1) as nat)
    }
}

fn pp_indent(depth: usize, out: &mut String)
    ensures
        final(out)@ == old(out)@ + sp_indent(depth as nat),
    decreases depth,
{
    if depth > 0 {
        out.append("  ");
        pp_indent(depth - 1, out);
        proof {
            assert(old(out)@ + ("  "@ + sp_indent((depth - 1) as nat)) =~= (old(out)@ + "  "@)
                + sp_indent((depth - 1) as nat));
        }
    } else {
        proof {
            assert(old(out)@ + Seq::<char>::empty() =~= old(out)@);
        }
    }
}

/// One nesting level deeper; indentation stops growing past a depth no
/// readable script reaches.
pub open spec fn sp_deeper(depth: nat) -> nat {
    if depth < 64 {
        depth + 1
    } else {
        depth
    }
}

/// The written form of one statement, indented to its nesting level and
/// ending in a newline.
pub open spec fn sp_pp_stmt(s: StatementV, depth: nat) -> Seq<char>
    decreases s, 1int,
{
    sp_indent(depth) + (match s.kind {
        StatementKindV::Error => "<error>;\n"@,
        StatementKindV::VariableDeclaration { ident, value } => {
            "var "@ + ident + " = "@ + sp_pp_expr(value) + ";\n"@
        },
        StatementKindV::Assignment { ident, value } => {
            ident + " = "@ + sp_pp_expr(value) + ";\n"@
        },
        StatementKindV::Wait => "wait;\n"@,
        StatementKindV::Block { block } => {
            "{\n"@ + sp_pp_stmts(block, sp_deeper(depth)) + sp_indent(depth) + "}\n"@
        },
        StatementKindV::Continue => "continue;\n"@,
        StatementKindV::Break => "break;\n"@,
        StatementKindV::Nop => "nop;\n"@,
        StatementKindV::If { condition, true_block, false_block } => {
            "if "@ + sp_pp_expr(condition) + " {\n"@ + sp_pp_stmts(true_block, sp_deeper(depth))
                + sp_indent(depth) + "} else {\n"@ + sp_pp_stmts(false_block, sp_deeper(depth))
                + sp_indent(depth) + "}\n"@
        },
        StatementKindV::Loop { block } => {
            "loop {\n"@ + sp_pp_stmts(block, sp_deeper(depth)) + sp_indent(depth) + "}\n"@
        },
        StatementKindV::Call { name, arguments } => {
            name + "("@ + sp_pp_exprs(arguments) + ");\n"@
        },
        StatementKindV::Spawn { name, arguments } => {
            "spawn "@ + name + "("@ + sp_pp_exprs(arguments) + ");\n"@
        },
        StatementKindV::Return { values } => "return "@ + sp_pp_exprs(values) + ";\n"@,
    })
}

pub open spec fn sp_pp_stmts(ss: Seq<StatementV>, depth: nat) -> Seq<char>
    decreases ss, 0int,
{
    if ss.len() == 0 {
        Seq::empty()
    } else {
        sp_pp_stmt(ss[0], depth) + sp_pp_stmts(ss.skip(1), depth)
    }
}

fn deeper(depth: usize) -> (r: usize)
    ensures
        r == sp_deeper(depth as nat),
{
    if depth < 64 {
        depth + 1
    } else {
        depth
    }
}

pub fn pp_stmt(s: &Statement, depth: usize, out: &mut String)
    ensures
        final(out)@ == old(out)@ + sp_pp_stmt(s.model(), depth as nat),
    decreases *s, 1int,
{
    pp_indent(depth, out);
    let ghost mid = out@;
    match &s.kind {
        StatementKind::Error => {
            out.append("<error>;\n");
        },
        StatementKind::VariableDeclaration { ident, value } => {
            out.append("var ");
            out.append(ident.as_str());
            out.append(" = ");
            pp_expr(value, out);
            out.append(";\n");
        },
        StatementKind::Assignment { ident, value } => {
            out.append(ident.as_str());
            out.append(" = ");
            pp_expr(value, out);
            out.append(";\n");
        },
        StatementKind::Wait => {
            out.append("wait;\n");
        },
        StatementKind::Block { block } => {
            out.append("{\n");
            pp_stmts(block, deeper(depth), out);
            pp_indent(depth, out);
            out.append("}\n");
        },
        StatementKind::Continue => {
            out.append("continue;\n");
        },
        StatementKind::Break => {
            out.append("break;\n");
        },
        StatementKind::Nop => {
            out.append("nop;\n");
        },
        StatementKind::If { condition, true_block, false_block } => {
            out.append("if ");
            pp_expr(condition, out);
            out.append(" {\n");
            pp_stmts(true_block, deeper(depth), out);
            pp_indent(depth, out);
            out.append("} else {\n");
            pp_stmts(false_block, deeper(depth), out);
            pp_indent(depth, out);
            out.append("}\n");
        },
        StatementKind::Loop { block } => {
            out.append("loop {\n");
            pp_stmts(block, deeper(depth), out);
            pp_indent(depth, out);
            out.append("}\n");
        },
        StatementKind::Call { name, arguments } => {
            out.append(name.as_str());
            out.append("(");
            pp_exprs(arguments, out);
            out.append(");\n");
        },
        StatementKind::Spawn { name, arguments } => {
            out.append("spawn ");
            out.append(name.as_str());
            out.append("(");
            pp_exprs(arguments, out);
            out.append(");\n");
        },
        StatementKind::Return { values } => {
            out.append("return ");
            pp_exprs(values, out);
            out.append(";\n");
        },
    }
}

pub fn pp_stmts(ss: &Vec<Statement>, depth: usize, out: &mut String)
    ensures
        final(out)@ == old(out)@ + sp_pp_stmts(stmts_model(ss@), depth as nat),
    decreases ss@, 0int,
{
    let ghost ssm = stmts_model(ss@);
    let mut i: usize = 0;
    proof {
        crate::ast::lemma_stmts_model_len(ss@);
        assert(ssm.skip(0int) =~= ssm);
        assert(old(out)@ + Seq::<char>::empty() =~= old(out)@);
    }
    while i < ss.len()
        invariant
            i <= ss@.len(),
            ssm == stmts_model(ss@),
            ssm.len() == ss@.len(),
            old(out)@ + sp_pp_stmts(ssm, depth as nat) == out@ + sp_pp_stmts(
                ssm.skip(i as int),
                depth as nat,
            ),
        decreases ss@.len() - i,
    {
        let ghost out0 = out@;
        proof {
            lemma_stmts_model_index(ss@, i as int);
            assert(ssm.skip(i as int)[0] == ssm[i as int]);
            assert(ssm.skip(i as int).skip(1) =~= ssm.skip(i + 1));
        }
        pp_stmt(&ss[i], depth, out);
        proof {
            assert(out0 + sp_pp_stmts(ssm.skip(i as int), depth as nat) =~= out@ + sp_pp_stmts(
                ssm.skip(i + 1),
                depth as nat,
            ));
        }
        i += 1;
    }
    proof {
        assert(sp_pp_stmts(ssm.skip(i as int), depth as nat) =~= Seq::<char>::empty());
        assert(out@ + sp_pp_stmts(ssm.skip(i as int), depth as nat) =~= out@);
    }
}

/// The written form of one function.
pub open spec fn sp_pp_function(f: FunctionV) -> Seq<char> {
    "fn "@ + f.name + " {\n"@ + sp_pp_stmts(f.statements, 1) + "}\n"@
}

pub open spec fn sp_pp_script(fs: Seq<FunctionV>) -> Seq<char>
    decreases fs,
{
    if fs.len() == 0 {
        Seq::empty()
    } else {
        sp_pp_function(fs[0]) + sp_pp_script(fs.skip(1))
    }
}

impl Script {
    /// The whole script as plain text, one function after another.
    pub fn pretty_print(&self) -> (r: String)
        ensures
            r@ == sp_pp_script(self.model().functions),
    {
        let ghost fsm = self.model().functions;
        let mut out = String::new();
        let mut i: usize = 0;
        proof {
            assert(fsm.skip(0int) =~= fsm);
            assert(out@ + sp_pp_script(fsm) =~= sp_pp_script(fsm));
        }
        while i < self.functions.len()
            invariant
                i <= self.functions@.len(),
                fsm == self.model().functions,
                fsm.len() == self.functions@.len(),
                sp_pp_script(fsm) == out@ + sp_pp_script(fsm.skip(i as int)),
            decreases self.functions@.len() - i,
        {
            let ghost out0 = out@;
            proof {
                assert(fsm.skip(i as int)[0] == fsm[i as int]);
                assert(fsm.skip(i as int).skip(1) =~= fsm.skip(i + 1));
                assert(fsm[i as int] == self.functions@[i as int].model());
            }
            let f = &self.functions[i];
            out.append("fn ");
            out.append(f.name.as_str());
            out.append(" {\n");
            pp_stmts(&f.statements, 1, &mut out);
            out.append("}\n");
            proof {
                assert(out0 + sp_pp_script(fsm.skip(i as int)) =~= out@ + sp_pp_script(
                    fsm.skip(i + 1),
                ));
            }
            i += 1;
        }
        proof {
            assert(sp_pp_script(fsm.skip(i as int)) =~= Seq::<char>::empty());
            assert(out@ + sp_pp_script(fsm.skip(i as int)) =~= out@);
        }
        out
    }
}

} // verus!
