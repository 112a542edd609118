use vstd::prelude::*;

use crate::tokens::{FileId, Span};
use crate::types::{Fix, Type};

verus! {

/// Identifies one variable binding (argument, local, or host property) for
/// the lifetime of one compilation. Stable once assigned; never reused.
#[derive(Clone, Copy, Debug, PartialEq, Eq, Structural)]
pub struct SymbolId(pub usize);

/// Identifies one function, assigned by declaration order; id 0 is the
/// synthesized function wrapping all top-level statements.
#[derive(Clone, Copy, Debug, PartialEq, Eq, Structural)]
pub struct FunctionId(pub usize);

/// A whole parsed script: its functions, the synthesized top-level
/// function first.
#[derive(Debug)]
pub struct Script {
    pub functions: Vec<Function>,
}

#[derive(Debug)]
pub struct Function {
    pub name: String,
    pub span: Span,
    pub statements: Vec<Statement>,
    pub arguments: Vec<FunctionArgument>,
    pub return_types: FunctionReturn,
    pub modifiers: FunctionModifiers,
    /// Fact attached by symbol resolution: this function's identity.
    pub function_id: Option<FunctionId>,
}

/// Marks a function as an event handler: an entry point the host may
/// trigger externally. The span is where the modifier was written.
#[derive(Clone, Copy, Debug)]
pub struct FunctionModifiers {
    pub is_event_handler: Option<Span>,
}

/// The declared return types of a function, and the span of the
/// declaration (where diagnostics about missing returns are anchored).
#[derive(Clone, Debug)]
pub struct FunctionReturn {
    pub types: Vec<TypeWithLocation>,
    pub span: Span,
}

#[derive(Clone, Copy, Debug)]
pub struct TypeWithLocation {
    pub t: Type,
    pub span: Span,
}

#[derive(Clone, Debug)]
pub struct FunctionArgument {
    pub span: Span,
    pub t: TypeWithLocation,
    pub name: MaybeResolved,
}

/// An identifier occurrence: the written name until symbol resolution
/// binds it, the stable symbol afterwards.
#[derive(Clone, Debug)]
pub enum MaybeResolved {
    Unresolved(String),
    Resolved(SymbolId),
}

/// One item at the top level of a source file: either a statement of the
/// synthesized top-level function, a function definition, or a
/// placeholder for a construct that failed to parse.
#[derive(Debug)]
pub enum TopLevelStatement {
    Statement(Statement),
    FunctionDefinition(Function),
    Error,
}

#[derive(Debug)]
pub struct Statement {
    pub span: Span,
    pub kind: StatementKind,
    /// Fact attached by symbol resolution: the symbol a declaration or
    /// assignment binds or targets.
    pub symbol: Option<SymbolId>,
    /// Fact attached by symbol resolution: the callee of a call or spawn.
    pub function: Option<FunctionId>,
    /// Fact attached by dead-code analysis: this statement is never read.
    pub dead: bool,
    /// Fact attached by loop reachability analysis, meaningful on `Loop`
    /// statements only: no `break` of this loop is statically reachable.
    pub loop_has_no_break: bool,
}

#[derive(Debug)]
pub enum StatementKind {
    Error,
    VariableDeclaration { ident: String, value: Expression },
    Assignment { ident: String, value: Expression },
    Wait,
    Block { block: Vec<Statement> },
    Continue,
    Break,
    Nop,
    If { condition: Expression, true_block: Vec<Statement>, false_block: Vec<Statement> },
    Loop { block: Vec<Statement> },
    Call { name: String, arguments: Vec<Expression> },
    Spawn { name: String, arguments: Vec<Expression> },
    Return { values: Vec<Expression> },
}

#[derive(Debug)]
pub struct Expression {
    pub span: Span,
    pub kind: ExpressionKind,
    /// Fact attached by symbol resolution: the symbol a variable read names.
    pub symbol: Option<SymbolId>,
    /// Fact attached by symbol resolution: the callee of a call expression.
    pub function: Option<FunctionId>,
}

#[derive(Debug)]
pub enum ExpressionKind {
    Integer(i32),
    Fix(Fix),
    Bool(bool),
    Variable(String),
    BinaryOperation { lhs: Box<Expression>, operator: BinaryOperator, rhs: Box<Expression> },
    Error,
    Nop,
    Call { name: String, arguments: Vec<Expression> },
}

#[derive(Clone, Copy, Debug, PartialEq, Eq, Structural)]
pub enum BinaryOperator {
    Add,
    Sub,
    Mul,
    Div,
    Mod,
    RealDiv,
    RealMod,
    FixMul,
    FixDiv,
    EqEq,
    NeEq,
    Gt,
    GtEq,
    Lt,
    LtEq,
    Then,
}

// ---------------------------------------------------------------------------
// The mathematical model of the tree: the same shape over Seq and Seq<char>,
// used by every contract that speaks about whole subtrees.
// ---------------------------------------------------------------------------

pub struct ScriptV {
    pub functions: Seq<FunctionV>,
}

pub struct FunctionV {
    pub name: Seq<char>,
    pub span: Span,
    pub statements: Seq<StatementV>,
    pub arguments: Seq<FunctionArgumentV>,
    pub return_types: FunctionReturnV,
    pub modifiers: FunctionModifiers,
    pub function_id: Option<FunctionId>,
}

pub struct FunctionReturnV {
    pub types: Seq<TypeWithLocation>,
    pub span: Span,
}

pub struct FunctionArgumentV {
    pub span: Span,
    pub t: TypeWithLocation,
    pub name: MaybeResolvedV,
}

pub enum MaybeResolvedV {
    Unresolved(Seq<char>),
    Resolved(SymbolId),
}

pub enum TopLevelStatementV {
    Statement(StatementV),
    FunctionDefinition(FunctionV),
    Error,
}

pub struct StatementV {
    pub span: Span,
    pub kind: StatementKindV,
    pub symbol: Option<SymbolId>,
    pub function: Option<FunctionId>,
    pub dead: bool,
    pub loop_has_no_break: bool,
}

pub enum StatementKindV {
    Error,
    VariableDeclaration { ident: Seq<char>, value: ExpressionV },
    Assignment { ident: Seq<char>, value: ExpressionV },
    Wait,
    Block { block: Seq<StatementV> },
    Continue,
    Break,
    Nop,
    If { condition: ExpressionV, true_block: Seq<StatementV>, false_block: Seq<StatementV> },
    Loop { block: Seq<StatementV> },
    Call { name: Seq<char>, arguments: Seq<ExpressionV> },
    Spawn { name: Seq<char>, arguments: Seq<ExpressionV> },
    Return { values: Seq<ExpressionV> },
}

pub struct ExpressionV {
    pub span: Span,
    pub kind: ExpressionKindV,
    pub symbol: Option<SymbolId>,
    pub function: Option<FunctionId>,
}

pub enum ExpressionKindV {
    Integer(i32),
    Fix(Fix),
    Bool(bool),
    Variable(Seq<char>),
    BinaryOperation { lhs: Box<ExpressionV>, operator: BinaryOperator, rhs: Box<ExpressionV> },
    Error,
    Nop,
    Call { name: Seq<char>, arguments: Seq<ExpressionV> },
}

impl Expression {
    /// The mathematical value of this expression tree.
    pub open spec fn model(self) -> ExpressionV
        decreases self,
    {
        ExpressionV {
            span: self.span,
            kind: match self.kind {
                ExpressionKind::Integer(i) => ExpressionKindV::Integer(i),
                ExpressionKind::Fix(f) => ExpressionKindV::Fix(f),
                ExpressionKind::Bool(b) => ExpressionKindV::Bool(b),
                ExpressionKind::Variable(name) => ExpressionKindV::Variable(name@),
                ExpressionKind::BinaryOperation { lhs, operator, rhs } => {
                    ExpressionKindV::BinaryOperation {
                        lhs: Box::new(lhs.model()),
                        operator,
                        rhs: Box::new(rhs.model()),
                    }
                },
                ExpressionKind::Error => ExpressionKindV::Error,
                ExpressionKind::Nop => ExpressionKindV::Nop,
                ExpressionKind::Call { name, arguments } => ExpressionKindV::Call {
                    name: name@,
                    arguments: exprs_model(arguments@),
                },
            },
            symbol: self.symbol,
            function: self.function,
        }
    }
}

/// The models of a sequence of expressions, elementwise.
pub open spec fn exprs_model(es: Seq<Expression>) -> Seq<ExpressionV>
    decreases es,
{
    if es.len() == 0 {
        Seq::empty()
    } else {
        seq![es[0].model()] + exprs_model(es.skip(1))
    }
}

impl Statement {
    /// The mathematical value of this statement tree.
    pub open spec fn model(self) -> StatementV
        decreases self,
    {
        StatementV {
            span: self.span,
            kind: match self.kind {
                StatementKind::Error => StatementKindV::Error,
                StatementKind::VariableDeclaration { ident, value } => {
                    StatementKindV::VariableDeclaration { ident: ident@, value: value.model() }
                },
                StatementKind::Assignment { ident, value } => {
                    StatementKindV::Assignment { ident: ident@, value: value.model() }
                },
                StatementKind::Wait => StatementKindV::Wait,
                StatementKind::Block { block } => StatementKindV::Block {
                    block: stmts_model(block@),
                },
                StatementKind::Continue => StatementKindV::Continue,
                StatementKind::Break => StatementKindV::Break,
                StatementKind::Nop => StatementKindV::Nop,
                StatementKind::If { condition, true_block, false_block } => StatementKindV::If {
                    condition: condition.model(),
                    true_block: stmts_model(true_block@),
                    false_block: stmts_model(false_block@),
                },
                StatementKind::Loop { block } => StatementKindV::Loop {
                    block: stmts_model(block@),
                },
                StatementKind::Call { name, arguments } => StatementKindV::Call {
                    name: name@,
                    arguments: exprs_model(arguments@),
                },
                StatementKind::Spawn { name, arguments } => StatementKindV::Spawn {
                    name: name@,
                    arguments: exprs_model(arguments@),
                },
                StatementKind::Return { values } => StatementKindV::Return {
                    values: exprs_model(values@),
                },
            },
            symbol: self.symbol,
            function: self.function,
            dead: self.dead,
            loop_has_no_break: self.loop_has_no_break,
        }
    }
}

/// The models of a sequence of statements, elementwise.
pub open spec fn stmts_model(ss: Seq<Statement>) -> Seq<StatementV>
    decreases ss,
{
    if ss.len() == 0 {
        Seq::empty()
    } else {
        seq![ss[0].model()] + stmts_model(ss.skip(1))
    }
}

impl MaybeResolved {
    pub open spec fn model(self) -> MaybeResolvedV {
        match self {
            MaybeResolved::Unresolved(name) => MaybeResolvedV::Unresolved(name@),
            MaybeResolved::Resolved(id) => MaybeResolvedV::Resolved(id),
        }
    }
}

impl FunctionArgument {
    pub open spec fn model(self) -> FunctionArgumentV {
        FunctionArgumentV { span: self.span, t: self.t, name: self.name.model() }
    }
}

pub open spec fn args_model(args: Seq<FunctionArgument>) -> Seq<FunctionArgumentV> {
    args.map_values(|a: FunctionArgument| a.model())
}

impl FunctionReturn {
    pub open spec fn model(self) -> FunctionReturnV {
        FunctionReturnV { types: self.types@, span: self.span }
    }
}

impl Function {
    pub open spec fn model(self) -> FunctionV {
        FunctionV {
            name: self.name@,
            span: self.span,
            statements: stmts_model(self.statements@),
            arguments: args_model(self.arguments@),
            return_types: self.return_types.model(),
            modifiers: self.modifiers,
            function_id: self.function_id,
        }
    }
}

pub open spec fn functions_model(fs: Seq<Function>) -> Seq<FunctionV> {
    fs.map_values(|f: Function| f.model())
}

impl Script {
    pub open spec fn model(self) -> ScriptV {
        ScriptV { functions: functions_model(self.functions@) }
    }
}

impl TopLevelStatement {
    pub open spec fn model(self) -> TopLevelStatementV {
        match self {
            TopLevelStatement::Statement(s) => TopLevelStatementV::Statement(s.model()),
            TopLevelStatement::FunctionDefinition(f) => TopLevelStatementV::FunctionDefinition(
                f.model(),
            ),
            TopLevelStatement::Error => TopLevelStatementV::Error,
        }
    }
}

// ---------------------------------------------------------------------------
// Basic laws about the element-wise models, used whenever a loop walks a
// block while a contract speaks about the block's model.
// ---------------------------------------------------------------------------

pub broadcast proof fn lemma_stmts_model_len(ss: Seq<Statement>)
    ensures
        #[trigger] stmts_model(ss).len() == ss.len(),
    decreases ss,
{
    if ss.len() > 0 {
        lemma_stmts_model_len(ss.skip(1));
    }
}

pub broadcast proof fn lemma_stmts_model_index(ss: Seq<Statement>, i: int)
    requires
        0 <= i < ss.len(),
    ensures
        stmts_model(ss).len() == ss.len(),
        #[trigger] stmts_model(ss)[i] == ss[i].model(),
    decreases ss,
{
    lemma_stmts_model_len(ss);
    if i > 0 {
        lemma_stmts_model_index(ss.skip(1), i - 1);
    }
}

pub broadcast proof fn lemma_stmts_model_push(ss: Seq<Statement>, s: Statement)
    ensures
        #[trigger] stmts_model(ss.push(s)) == stmts_model(ss).push(s.model()),
    decreases ss,
{
    if ss.len() == 0 {
        reveal_with_fuel(stmts_model, 2);
        assert(ss.push(s).skip(1) =~= Seq::<Statement>::empty());
        assert(ss.push(s)[0] == s);
        assert(stmts_model(ss.push(s)) =~= stmts_model(ss).push(s.model()));
    } else {
        assert(ss.push(s)[0] == ss[0]);
        assert(ss.push(s).skip(1) =~= ss.skip(1).push(s));
        lemma_stmts_model_push(ss.skip(1), s);
        assert(stmts_model(ss.push(s)) =~= stmts_model(ss).push(s.model()));
    }
}

pub broadcast proof fn lemma_exprs_model_len(es: Seq<Expression>)
    ensures
        #[trigger] exprs_model(es).len() == es.len(),
    decreases es,
{
    if es.len() > 0 {
        lemma_exprs_model_len(es.skip(1));
    }
}

pub broadcast proof fn lemma_exprs_model_index(es: Seq<Expression>, i: int)
    requires
        0 <= i < es.len(),
    ensures
        exprs_model(es).len() == es.len(),
        #[trigger] exprs_model(es)[i] == es[i].model(),
    decreases es,
{
    lemma_exprs_model_len(es);
    if i > 0 {
        lemma_exprs_model_index(es.skip(1), i - 1);
    }
}

pub broadcast proof fn lemma_exprs_model_push(es: Seq<Expression>, e: Expression)
    ensures
        #[trigger] exprs_model(es.push(e)) == exprs_model(es).push(e.model()),
    decreases es,
{
    if es.len() == 0 {
        reveal_with_fuel(exprs_model, 2);
        assert(es.push(e).skip(1) =~= Seq::<Expression>::empty());
        assert(es.push(e)[0] == e);
        assert(exprs_model(es.push(e)) =~= exprs_model(es).push(e.model()));
    } else {
        assert(es.push(e)[0] == es[0]);
        assert(es.push(e).skip(1) =~= es.skip(1).push(e));
        lemma_exprs_model_push(es.skip(1), e);
        assert(exprs_model(es.push(e)) =~= exprs_model(es).push(e.model()));
    }
}


// ---------------------------------------------------------------------------
// Binary operators: which operand types each operator accepts, what type a
// use of it produces, and the fixed-point specialization rewrite.
// ---------------------------------------------------------------------------

impl BinaryOperator {
    /// Whether this operator can work on operands of the given type
    /// (both operands are already known to have that same type).
    pub open spec fn spec_can_handle_type(self, lhs_type: Type) -> bool {
        match self {
            BinaryOperator::Add
            | BinaryOperator::Sub
            | BinaryOperator::Mul
            | BinaryOperator::Div
            | BinaryOperator::Mod
            | BinaryOperator::RealDiv
            | BinaryOperator::RealMod
            | BinaryOperator::Gt
            | BinaryOperator::GtEq
            | BinaryOperator::Lt
            | BinaryOperator::LtEq => lhs_type == Type::Fix || lhs_type == Type::Int,
            BinaryOperator::FixMul | BinaryOperator::FixDiv => lhs_type == Type::Fix,
            BinaryOperator::EqEq | BinaryOperator::NeEq => lhs_type != Type::Error,
            BinaryOperator::Then => true,
        }
    }

    #[verifier::when_used_as_spec(spec_can_handle_type)]
    pub fn can_handle_type(self, lhs_type: Type) -> (r: bool)
        ensures
            r == self.spec_can_handle_type(lhs_type),
    {
        match self {
            BinaryOperator::Add
            | BinaryOperator::Sub
            | BinaryOperator::Mul
            | BinaryOperator::Div
            | BinaryOperator::Mod
            | BinaryOperator::RealDiv
            | BinaryOperator::RealMod
            | BinaryOperator::Gt
            | BinaryOperator::GtEq
            | BinaryOperator::Lt
            | BinaryOperator::LtEq => matches!(lhs_type, Type::Fix | Type::Int),
            BinaryOperator::FixMul | BinaryOperator::FixDiv => matches!(lhs_type, Type::Fix),
            BinaryOperator::EqEq | BinaryOperator::NeEq => !matches!(lhs_type, Type::Error),
            BinaryOperator::Then => true,
        }
    }

    /// The type an application of this operator produces, given the types
    /// of its operands.
    pub open spec fn spec_resulting_type(self, lhs_type: Type, rhs_type: Type) -> Type {
        match self {
            BinaryOperator::Add
            | BinaryOperator::Sub
            | BinaryOperator::Mul
            | BinaryOperator::Div
            | BinaryOperator::Mod
            | BinaryOperator::RealDiv
            | BinaryOperator::RealMod
            | BinaryOperator::FixMul
            | BinaryOperator::FixDiv => lhs_type,
            BinaryOperator::EqEq
            | BinaryOperator::NeEq
            | BinaryOperator::Gt
            | BinaryOperator::GtEq
            | BinaryOperator::Lt
            | BinaryOperator::LtEq => Type::Bool,
            BinaryOperator::Then => rhs_type,
        }
    }

    #[verifier::when_used_as_spec(spec_resulting_type)]
    pub fn resulting_type(self, lhs_type: Type, rhs_type: Type) -> (r: Type)
        ensures
            r == self.spec_resulting_type(lhs_type, rhs_type),
    {
        match self {
            BinaryOperator::Add
            | BinaryOperator::Sub
            | BinaryOperator::Mul
            | BinaryOperator::Div
            | BinaryOperator::Mod
            | BinaryOperator::RealDiv
            | BinaryOperator::RealMod
            | BinaryOperator::FixMul
            | BinaryOperator::FixDiv => lhs_type,
            BinaryOperator::EqEq
            | BinaryOperator::NeEq
            | BinaryOperator::Gt
            | BinaryOperator::GtEq
            | BinaryOperator::Lt
            | BinaryOperator::LtEq => Type::Bool,
            BinaryOperator::Then => rhs_type,
        }
    }

    /// The operator after fixed-point specialization: once the left
    /// operand is known to be `Fix`, generic multiply and divide become
    /// their fixed-point variants so code generation can pick the right
    /// instruction without re-deriving the type.
    pub open spec fn spec_updated_with_lhs(self, lhs_type: Type) -> BinaryOperator {
        if self == BinaryOperator::Mul && lhs_type == Type::Fix {
            BinaryOperator::FixMul
        } else if self == BinaryOperator::Div && lhs_type == Type::Fix {
            BinaryOperator::FixDiv
        } else {
            self
        }
    }

    pub fn update_type_with_lhs(&mut self, lhs_type: Type)
        ensures
            *final(self) == old(self).spec_updated_with_lhs(lhs_type),
    {
        match (*self, lhs_type) {
            (BinaryOperator::Mul, Type::Fix) => *self = BinaryOperator::FixMul,
            (BinaryOperator::Div, Type::Fix) => *self = BinaryOperator::FixDiv,
            _ => {},
        }
    }
}

impl StatementKind {
    /// Wraps this kind into a statement carrying the given span and no
    /// pass-computed facts yet.
    pub fn with_span(self, file_id: FileId, start: usize, end: usize) -> (r: Statement)
        requires
            start < end,
        ensures
            r.span == (Span { file_id, start, end }),
            r.kind == self,
            r.symbol is None,
            r.function is None,
            !r.dead,
            !r.loop_has_no_break,
    {
        Statement {
            span: Span::new(file_id, start, end),
            kind: self,
            symbol: None,
            function: None,
            dead: false,
            loop_has_no_break: false,
        }
    }
}

impl ExpressionKind {
    /// Wraps this kind into an expression carrying the given span and no
    /// pass-computed facts yet.
    pub fn with_span(self, file_id: FileId, start: usize, end: usize) -> (r: Expression)
        requires
            start < end,
        ensures
            r.span == (Span { file_id, start, end }),
            r.kind == self,
            r.symbol is None,
            r.function is None,
    {
        Expression { span: Span::new(file_id, start, end), kind: self, symbol: None, function: None }
    }
}

// ---------------------------------------------------------------------------
// Assembling a script from top-level items.
// ---------------------------------------------------------------------------

/// The statements written outside any function, in order.
pub open spec fn sp_top_statements(ts: Seq<TopLevelStatement>) -> Seq<StatementV>
    decreases ts,
{
    if ts.len() == 0 {
        Seq::empty()
    } else {
        (match ts[0] {
            TopLevelStatement::Statement(s) => seq![s.model()],
            _ => Seq::empty(),
        }) + sp_top_statements(ts.skip(1))
    }
}

/// The function definitions among the top-level items, in order.
pub open spec fn sp_top_functions(ts: Seq<TopLevelStatement>) -> Seq<FunctionV>
    decreases ts,
{
    if ts.len() == 0 {
        Seq::empty()
    } else {
        (match ts[0] {
            TopLevelStatement::FunctionDefinition(f) => seq![f.model()],
            _ => Seq::empty(),
        }) + sp_top_functions(ts.skip(1))
    }
}

/// The synthesized function that wraps the top-level statements. It is
/// named `@toplevel` (a name no written function can have), takes no
/// arguments, returns nothing, and is not an event handler.
pub open spec fn sp_toplevel_function(statements: Seq<StatementV>, file_id: FileId) -> FunctionV {
    FunctionV {
        name: "@toplevel"@,
        span: Span { file_id, start: 0, end: 1 },
        statements,
        arguments: Seq::empty(),
        return_types: FunctionReturnV {
            types: Seq::empty(),
            span: Span { file_id, start: 0, end: 1 },
        },
        modifiers: FunctionModifiers { is_event_handler: None },
        function_id: None,
    }
}

impl Script {
    /// Collects the top-level items of one source file into a script:
    /// statements outside any function become the body of a synthesized
    /// function inserted first, written functions follow in declaration
    /// order, and placeholders for unparsable items are dropped.
    pub fn from_top_level(top_level: Vec<TopLevelStatement>, file_id: FileId) -> (r: Script)
        ensures
            r.model().functions == seq![
                sp_toplevel_function(sp_top_statements(top_level@), file_id),
            ] + sp_top_functions(top_level@),
    {
        let ghost orig = top_level@;
        let mut rest = top_level;
        let mut top_level_function_statements: Vec<Statement> = Vec::new();
        let mut functions: Vec<Function> = Vec::new();

        while rest.len() > 0
            invariant
                sp_top_statements(orig) == stmts_model(top_level_function_statements@)
                    + sp_top_statements(rest@),
                sp_top_functions(orig) == functions_model(functions@) + sp_top_functions(rest@),
            decreases rest.len(),
        {
            let ghost rest0 = rest@;
            let item = rest.remove(0);
            proof {
                assert(rest@ =~= rest0.skip(1));
            }
            match item {
                TopLevelStatement::Statement(statement) => {
                    let ghost acc0 = top_level_function_statements@;
                    top_level_function_statements.push(statement);
                    proof {
                        lemma_stmts_model_push(acc0, statement);
                        assert(stmts_model(top_level_function_statements@) + sp_top_statements(
                            rest@,
                        ) =~= stmts_model(acc0) + sp_top_statements(rest0));
                    }
                },
                TopLevelStatement::FunctionDefinition(function) => {
                    let ghost acc0 = functions@;
                    functions.push(function);
                    proof {
                        assert(functions_model(functions@) =~= functions_model(acc0).push(
                            function.model(),
                        ));
                        assert(functions_model(functions@) + sp_top_functions(rest@)
                            =~= functions_model(acc0) + sp_top_functions(rest0));
                    }
                },
                TopLevelStatement::Error => {
                    proof {
                        assert(sp_top_statements(rest0) =~= sp_top_statements(rest@));
                        assert(sp_top_functions(rest0) =~= sp_top_functions(rest@));
                    }
                },
            }
        }

        proof {
            assert(sp_top_statements(rest@) =~= Seq::<StatementV>::empty());
            assert(sp_top_functions(rest@) =~= Seq::<FunctionV>::empty());
            assert(stmts_model(top_level_function_statements@) =~= sp_top_statements(orig));
            assert(functions_model(functions@) =~= sp_top_functions(orig));
        }

        let top_level_function = Function {
            name: "@toplevel".to_owned(),
            span: Span::new(file_id, 0, 1),
            statements: top_level_function_statements,
            arguments: Vec::new(),
            return_types: FunctionReturn { types: Vec::new(), span: Span::new(file_id, 0, 1) },
            modifiers: FunctionModifiers { is_event_handler: None },
            function_id: None,
        };
        proof {
            assert(args_model(Seq::<FunctionArgument>::empty()) =~= Seq::<FunctionArgumentV>::empty());
            assert(top_level_function.model() == sp_toplevel_function(
                sp_top_statements(orig),
                file_id,
            ));
        }

        let ghost written = functions@;
        let mut all_functions = functions;
        all_functions.insert(0, top_level_function);
        proof {
            assert(functions_model(all_functions@) =~= seq![
                sp_toplevel_function(sp_top_statements(orig), file_id),
            ] + functions_model(written));
        }
        Script { functions: all_functions }
    }
}


pub proof fn lemma_stmts_model_prepend(s: Statement, ss: Seq<Statement>)
    ensures
        stmts_model(seq![s] + ss) == seq![s.model()] + stmts_model(ss),
{
    let v = seq![s] + ss;
    assert(v[0] == s);
    assert(v.skip(1) =~= ss);
    assert(stmts_model(v) =~= seq![s.model()] + stmts_model(ss));
}

pub proof fn lemma_exprs_model_prepend(e: Expression, es: Seq<Expression>)
    ensures
        exprs_model(seq![e] + es) == seq![e.model()] + exprs_model(es),
{
    let v = seq![e] + es;
    assert(v[0] == e);
    assert(v.skip(1) =~= es);
    assert(exprs_model(v) =~= seq![e.model()] + exprs_model(es));
}

pub proof fn lemma_stmts_model_skip1(ss: Seq<Statement>)
    requires
        ss.len() > 0,
    ensures
        stmts_model(ss.skip(1)) == stmts_model(ss).skip(1),
{
    assert((seq![ss[0].model()] + stmts_model(ss.skip(1))).skip(1) =~= stmts_model(ss.skip(1)));
}

pub proof fn lemma_exprs_model_skip1(es: Seq<Expression>)
    requires
        es.len() > 0,
    ensures
        exprs_model(es.skip(1)) == exprs_model(es).skip(1),
{
    assert((seq![es[0].model()] + exprs_model(es.skip(1))).skip(1) =~= exprs_model(es.skip(1)));
}


pub proof fn lemma_functions_model_prepend(f: Function, fs: Seq<Function>)
    ensures
        functions_model(seq![f] + fs) == seq![f.model()] + functions_model(fs),
{
    assert(functions_model(seq![f] + fs) =~= seq![f.model()] + functions_model(fs));
}

} // verus!
