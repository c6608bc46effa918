//! The data model of the language: declared-type tags, operators, the
//! abstract syntax tree, runtime values, and the control-flow signal.
//!
//! Each executable tree type has a ghost counterpart (`LitM`, `ExprM`,
//! `StmtM`, `ValueM`) in which every `String` is replaced by its `Seq<char>`
//! view; the contracts of the lowering stage and of the evaluator speak of
//! those counterparts.

use vstd::prelude::*;
use crate::text::str_eq;

verus! {

/// The six symbolic type names a variable declaration may carry.
/// The tag is advisory only: lowering resolves it, and the evaluator never
/// checks it against the value the initializer actually produced.
#[derive(Debug, Clone, Copy, PartialEq, Eq, Structural)]
pub enum DataType {
    /// text
    Scroll,
    /// 64-bit integer
    Blade,
    /// 64-bit float (recognised as a declared-type name only)
    Wine,
    /// boolean
    Vow,
    /// single character
    Sigil,
    /// no return value
    Void,
}

#[derive(Debug, Clone, Copy, PartialEq, Eq, Structural)]
pub enum BinaryOperator {
    Add,
    Subtract,
    Multiply,
    Divide,
    Greater,
    Less,
    Equal,
    NotEqual,
}

#[derive(Debug, Clone, Copy, PartialEq, Eq, Structural)]
pub enum UnaryOperator {
    Minus,
    Not,
}

/// A literal as it stands in the tree after lowering.
#[derive(Debug, PartialEq)]
pub enum Literal {
    String(String),
    Integer(i64),
    Boolean(bool),
    Char(char),
}

#[derive(Debug, PartialEq)]
pub enum Expression {
    Literal(Literal),
    Identifier(String),
    Binary { left: Box<Expression>, operator: BinaryOperator, right: Box<Expression> },
    Unary { operator: UnaryOperator, operand: Box<Expression> },
    /// An interactive-input request; the payload is the prompt context name.
    Input(String),
    FunctionCall { name: String, arguments: Vec<Expression> },
}

#[derive(Debug, PartialEq)]
pub enum Statement {
    VariableDeclaration { name: String, data_type: DataType, value: Expression },
    FunctionDeclaration { name: String, parameters: Vec<String>, body: Vec<Statement> },
    FunctionCall { name: String, arguments: Vec<Expression> },
    Assignment { name: String, value: Expression },
    Conditional {
        condition: Expression,
        then_branch: Vec<Statement>,
        else_branch: Option<Vec<Statement>>,
    },
    ForLoop { count: i64, body: Vec<Statement> },
    WhileLoop { condition: Expression, body: Vec<Statement> },
    Return(Option<Expression>),
    Speak(Expression),
    MainBlock(Vec<Statement>),
}

/// An ordered sequence of top-level statements; source order is execution
/// order for everything but function declarations, which are collected
/// before execution begins.
#[derive(Debug, PartialEq)]
pub struct Program {
    pub statements: Vec<Statement>,
}

/// A runtime value: text, 64-bit integer, boolean, single character, or the
/// void marker used for functions without a return.
#[derive(Debug)]
pub enum Value {
    String(String),
    Integer(i64),
    Boolean(bool),
    Char(char),
    Void,
}

/// The explicit early-return signal threaded out of statement execution.
#[derive(Debug)]
pub enum ControlFlow {
    Return(Value),
}

// ------------------------------------------------------------------
// Ghost counterparts.
// ------------------------------------------------------------------

pub enum LitM {
    Str(Seq<char>),
    Int(i64),
    Bool(bool),
    Ch(char),
}

pub enum ExprM {
    Lit(LitM),
    Ident(Seq<char>),
    Binary { left: Box<ExprM>, op: BinaryOperator, right: Box<ExprM> },
    Unary { op: UnaryOperator, operand: Box<ExprM> },
    Input(Seq<char>),
    Call { name: Seq<char>, args: Seq<ExprM> },
}

pub enum StmtM {
    VarDecl { name: Seq<char>, data_type: DataType, value: ExprM },
    FnDecl { name: Seq<char>, params: Seq<Seq<char>>, body: Seq<StmtM> },
    Call { name: Seq<char>, args: Seq<ExprM> },
    Assign { name: Seq<char>, value: ExprM },
    If { condition: ExprM, then_branch: Seq<StmtM>, else_branch: Option<Seq<StmtM>> },
    For { count: i64, body: Seq<StmtM> },
    While { condition: ExprM, body: Seq<StmtM> },
    Ret(Option<ExprM>),
    Speak(ExprM),
    Main(Seq<StmtM>),
}

pub enum ValueM {
    Str(Seq<char>),
    Int(i64),
    Bool(bool),
    Ch(char),
    Void,
}

pub enum FlowM {
    Norm,
    Ret(ValueM),
}

// ------------------------------------------------------------------
// Views from the executable tree onto the ghost counterparts.
// ------------------------------------------------------------------

pub open spec fn lit_view(l: Literal) -> LitM {
    match l {
        Literal::String(s) => LitM::Str(s@),
        Literal::Integer(i) => LitM::Int(i),
        Literal::Boolean(b) => LitM::Bool(b),
        Literal::Char(c) => LitM::Ch(c),
    }
}

pub open spec fn expr_view(e: Expression) -> ExprM
    decreases e,
{
    match e {
        Expression::Literal(l) => ExprM::Lit(lit_view(l)),
        Expression::Identifier(s) => ExprM::Ident(s@),
        Expression::Binary { left, operator, right } => ExprM::Binary {
            left: Box::new(expr_view(*left)),
            op: operator,
            right: Box::new(expr_view(*right)),
        },
        Expression::Unary { operator, operand } => ExprM::Unary {
            op: operator,
            operand: Box::new(expr_view(*operand)),
        },
        Expression::Input(s) => ExprM::Input(s@),
        Expression::FunctionCall { name, arguments } => ExprM::Call {
            name: name@,
            args: exprs_view(arguments@),
        },
    }
}

pub open spec fn exprs_view(es: Seq<Expression>) -> Seq<ExprM>
    decreases es,
{
    if es.len() == 0 {
        Seq::empty()
    } else {
        seq![expr_view(es[0])] + exprs_view(es.drop_first())
    }
}

pub open spec fn params_view(ps: Seq<String>) -> Seq<Seq<char>> {
    ps.map_values(|p: String| p@)
}

pub open spec fn stmt_view(s: Statement) -> StmtM
    decreases s,
{
    match s {
        Statement::VariableDeclaration { name, data_type, value } => StmtM::VarDecl {
            name: name@,
            data_type,
            value: expr_view(value),
        },
        Statement::FunctionDeclaration { name, parameters, body } => StmtM::FnDecl {
            name: name@,
            params: params_view(parameters@),
            body: stmts_view(body@),
        },
        Statement::FunctionCall { name, arguments } => StmtM::Call {
            name: name@,
            args: exprs_view(arguments@),
        },
        Statement::Assignment { name, value } => StmtM::Assign {
            name: name@,
            value: expr_view(value),
        },
        Statement::Conditional { condition, then_branch, else_branch } => StmtM::If {
            condition: expr_view(condition),
            then_branch: stmts_view(then_branch@),
            else_branch: match else_branch {
                Some(b) => Some(stmts_view(b@)),
                None => None,
            },
        },
        Statement::ForLoop { count, body } => StmtM::For { count, body: stmts_view(body@) },
        Statement::WhileLoop { condition, body } => StmtM::While {
            condition: expr_view(condition),
            body: stmts_view(body@),
        },
        Statement::Return(e) => StmtM::Ret(
            match e {
                Some(e) => Some(expr_view(e)),
                None => None,
            },
        ),
        Statement::Speak(e) => StmtM::Speak(expr_view(e)),
        Statement::MainBlock(b) => StmtM::Main(stmts_view(b@)),
    }
}

pub open spec fn stmts_view(ss: Seq<Statement>) -> Seq<StmtM>
    decreases ss,
{
    if ss.len() == 0 {
        Seq::empty()
    } else {
        seq![stmt_view(ss[0])] + stmts_view(ss.drop_first())
    }
}

pub open spec fn value_view(v: Value) -> ValueM {
    match v {
        Value::String(s) => ValueM::Str(s@),
        Value::Integer(i) => ValueM::Int(i),
        Value::Boolean(b) => ValueM::Bool(b),
        Value::Char(c) => ValueM::Ch(c),
        Value::Void => ValueM::Void,
    }
}

pub open spec fn flow_view(f: Option<ControlFlow>) -> FlowM {
    match f {
        None => FlowM::Norm,
        Some(ControlFlow::Return(v)) => FlowM::Ret(value_view(v)),
    }
}

impl View for Literal {
    type V = LitM;

    open spec fn view(&self) -> LitM {
        lit_view(*self)
    }
}

impl View for Expression {
    type V = ExprM;

    open spec fn view(&self) -> ExprM {
        expr_view(*self)
    }
}

impl View for Statement {
    type V = StmtM;

    open spec fn view(&self) -> StmtM {
        stmt_view(*self)
    }
}

impl View for Program {
    type V = Seq<StmtM>;

    open spec fn view(&self) -> Seq<StmtM> {
        stmts_view(self.statements@)
    }
}

impl View for Value {
    type V = ValueM;

    open spec fn view(&self) -> ValueM {
        value_view(*self)
    }
}

pub proof fn lemma_exprs_view_len(es: Seq<Expression>)
    ensures
        exprs_view(es).len() == es.len(),
    decreases es,
{
    if es.len() > 0 {
        lemma_exprs_view_len(es.drop_first());
    }
}

pub proof fn lemma_exprs_view_index(es: Seq<Expression>, i: int)
    requires
        0 <= i < es.len(),
    ensures
        exprs_view(es).len() == es.len(),
        exprs_view(es)[i] == expr_view(es[i]),
    decreases es,
{
    lemma_exprs_view_len(es);
    if i > 0 {
        lemma_exprs_view_index(es.drop_first(), i - 1);
    }
}

pub proof fn lemma_stmts_view_len(ss: Seq<Statement>)
    ensures
        stmts_view(ss).len() == ss.len(),
    decreases ss,
{
    if ss.len() > 0 {
        lemma_stmts_view_len(ss.drop_first());
    }
}

pub proof fn lemma_stmts_view_index(ss: Seq<Statement>, i: int)
    requires
        0 <= i < ss.len(),
    ensures
        stmts_view(ss).len() == ss.len(),
        stmts_view(ss)[i] == stmt_view(ss[i]),
    decreases ss,
{
    lemma_stmts_view_len(ss);
    if i > 0 {
        lemma_stmts_view_index(ss.drop_first(), i - 1);
    }
}

pub proof fn lemma_stmts_view_take_step(ss: Seq<Statement>, i: int)
    requires
        0 <= i < ss.len(),
    ensures
        stmts_view(ss.take(i + 1)) == stmts_view(ss.take(i)).push(stmt_view(ss[i])),
{
    lemma_stmts_view_len(ss.take(i + 1));
    lemma_stmts_view_len(ss.take(i));
    assert(stmts_view(ss.take(i + 1)) =~= stmts_view(ss.take(i)).push(stmt_view(ss[i]))) by {
        assert forall|j: int| 0 <= j < i + 1 implies stmts_view(ss.take(i + 1))[j] == stmts_view(
            ss.take(i),
        ).push(stmt_view(ss[i]))[j] by {
            lemma_stmts_view_index(ss.take(i + 1), j);
            if j < i {
                lemma_stmts_view_index(ss.take(i), j);
            }
        }
    }
}

/// Structural, kind-aware equality: two values are equal exactly when their
/// ghost counterparts are; values of different kinds are never equal.
impl PartialEq for Value {
    fn eq(&self, other: &Self) -> (r: bool) {
        match (self, other) {
            (Value::String(a), Value::String(b)) => *a == *b,
            (Value::Integer(a), Value::Integer(b)) => *a == *b,
            (Value::Boolean(a), Value::Boolean(b)) => *a == *b,
            (Value::Char(a), Value::Char(b)) => *a == *b,
            (Value::Void, Value::Void) => true,
            _ => false,
        }
    }
}

impl vstd::std_specs::cmp::PartialEqSpecImpl for Value {
    open spec fn obeys_eq_spec() -> bool {
        true
    }

    open spec fn eq_spec(&self, other: &Value) -> bool {
        self@ == other@
    }
}

// ------------------------------------------------------------------
// Resolution of source tokens.
// ------------------------------------------------------------------

impl DataType {
    /// What `from_str` resolves each of the six type names to.
    pub open spec fn from_str_m(s: Seq<char>) -> Option<DataType> {
        if s == "scroll"@ {
            Some(DataType::Scroll)
        } else if s == "blade"@ {
            Some(DataType::Blade)
        } else if s == "wine"@ {
            Some(DataType::Wine)
        } else if s == "vow"@ {
            Some(DataType::Vow)
        } else if s == "sigil"@ {
            Some(DataType::Sigil)
        } else if s == "void"@ {
            Some(DataType::Void)
        } else {
            None
        }
    }

    /// Resolves a declared-type token against the six known type names.
    pub fn from_str(s: &str) -> (r: Option<DataType>)
        ensures
            r == Self::from_str_m(s@),
    {
        if str_eq(s, "scroll") {
            Some(DataType::Scroll)
        } else if str_eq(s, "blade") {
            Some(DataType::Blade)
        } else if str_eq(s, "wine") {
            Some(DataType::Wine)
        } else if str_eq(s, "vow") {
            Some(DataType::Vow)
        } else if str_eq(s, "sigil") {
            Some(DataType::Sigil)
        } else if str_eq(s, "void") {
            Some(DataType::Void)
        } else {
            None
        }
    }
}

impl BinaryOperator {
    /// What `from_str` resolves each operator spelling to.
    pub open spec fn from_str_m(s: Seq<char>) -> Option<BinaryOperator> {
        if s == "+"@ {
            Some(BinaryOperator::Add)
        } else if s == "-"@ {
            Some(BinaryOperator::Subtract)
        } else if s == "*"@ {
            Some(BinaryOperator::Multiply)
        } else if s == "/"@ {
            Some(BinaryOperator::Divide)
        } else if s == ">"@ {
            Some(BinaryOperator::Greater)
        } else if s == "<"@ {
            Some(BinaryOperator::Less)
        } else if s == "=="@ {
            Some(BinaryOperator::Equal)
        } else if s == "!="@ {
            Some(BinaryOperator::NotEqual)
        } else {
            None
        }
    }

    /// Resolves an operator token.
    pub fn from_str(s: &str) -> (r: Option<BinaryOperator>)
        ensures
            r == Self::from_str_m(s@),
    {
        if str_eq(s, "+") {
            Some(BinaryOperator::Add)
        } else if str_eq(s, "-") {
            Some(BinaryOperator::Subtract)
        } else if str_eq(s, "*") {
            Some(BinaryOperator::Multiply)
        } else if str_eq(s, "/") {
            Some(BinaryOperator::Divide)
        } else if str_eq(s, ">") {
            Some(BinaryOperator::Greater)
        } else if str_eq(s, "<") {
            Some(BinaryOperator::Less)
        } else if str_eq(s, "==") {
            Some(BinaryOperator::Equal)
        } else if str_eq(s, "!=") {
            Some(BinaryOperator::NotEqual)
        } else {
            None
        }
    }
}

impl Clone for Value {
    /// Runtime values are cloned when a variable is read or snapshotted;
    /// the copy carries the same ghost value.
    fn clone(&self) -> (r: Self)
        ensures
            r@ == self@,
    {
        match self {
            Value::String(s) => Value::String(s.clone()),
            Value::Integer(i) => Value::Integer(*i),
            Value::Boolean(b) => Value::Boolean(*b),
            Value::Char(c) => Value::Char(*c),
            Value::Void => Value::Void,
        }
    }
}

} // verus!
