//! The lowering stage: walks a grammar-produced parse tree and produces the
//! abstract syntax tree, rejecting malformed or unrecognized constructs
//! with a descriptive parse error. Every function is pinned to a ghost
//! mirror over the tree's ghost counterpart.

use vstd::prelude::*;
use crate::ast::{
    DataType, BinaryOperator, UnaryOperator, Literal, Expression, Statement, Program, LitM, ExprM,
    StmtM, expr_view, exprs_view, stmt_view, stmts_view, params_view, lemma_stmts_view_len,
};
use crate::error::{ValyrianError, ErrM};
use crate::parse_tree::{NodeKind, ParseNode, ParseNodeM, nodes_view, kind_label_m, kind_label,
    lemma_nodes_view_index, lemma_nodes_view_len};
use crate::text::{str_eq, trim, trim_m, strip_quotes, strip_quotes_m, parse_i64, parse_i64_m};

verus! {

/// The error raised where the tree lacks a child the construct requires.
pub open spec fn missing_child_err() -> ErrM {
    ErrM::Parse("missing parse-tree child"@)
}

// ------------------------------------------------------------------
// The ghost mirror of the lowering stage.
// ------------------------------------------------------------------

/// What an expression-category node lowers to.
pub open spec fn lower_expr_m(n: ParseNodeM) -> Result<ExprM, ErrM>
    decreases n, 1nat, 0nat,
{
    match n.kind {
        NodeKind::Expression => if n.children.len() == 0 {
            Err(missing_child_err())
        } else {
            lower_expr_m(n.children[0])
        },
        NodeKind::BinaryExpr => if n.children.len() == 0 {
            Err(missing_child_err())
        } else {
            match lower_expr_m(n.children[0]) {
                Err(e) => Err(e),
                Ok(first) => lower_binary_chain_m(n.children, 1, first),
            }
        },
        NodeKind::UnaryExpr => if n.children.len() == 0 {
            Err(missing_child_err())
        } else if n.children[0].kind == NodeKind::UnaryOp {
            let op_text = n.children[0].text;
            if op_text == "-"@ || op_text == "!"@ {
                if n.children.len() < 2 {
                    Err(missing_child_err())
                } else {
                    match lower_expr_m(n.children[1]) {
                        Err(e) => Err(e),
                        Ok(operand) => Ok(
                            ExprM::Unary {
                                op: if op_text == "-"@ {
                                    UnaryOperator::Minus
                                } else {
                                    UnaryOperator::Not
                                },
                                operand: Box::new(operand),
                            },
                        ),
                    }
                }
            } else {
                Err(ErrM::Parse("Unknown unary operator: "@ + op_text))
            }
        } else {
            lower_expr_m(n.children[0])
        },
        NodeKind::Primary => if n.children.len() == 0 {
            Err(missing_child_err())
        } else {
            lower_expr_m(n.children[0])
        },
        NodeKind::StringLiteral => Ok(ExprM::Lit(LitM::Str(strip_quotes_m(n.text)))),
        NodeKind::IntegerLiteral => match parse_i64_m(trim_m(n.text)) {
            Some(v) => Ok(ExprM::Lit(LitM::Int(v))),
            None => Err(ErrM::Parse("Invalid integer: "@ + n.text)),
        },
        NodeKind::BooleanLiteral => if n.text == "aye"@ {
            Ok(ExprM::Lit(LitM::Bool(true)))
        } else if n.text == "nay"@ {
            Ok(ExprM::Lit(LitM::Bool(false)))
        } else {
            Err(ErrM::Parse("Invalid boolean: "@ + n.text))
        },
        NodeKind::CharLiteral => if n.text.len() < 3 {
            Err(ErrM::Parse("Invalid character literal"@))
        } else {
            Ok(ExprM::Lit(LitM::Ch(n.text[1])))
        },
        NodeKind::FunctionCall => if n.children.len() < 1 {
            Err(missing_child_err())
        } else {
            match lower_filtered_exprs_m(n.children, 1) {
                Err(e) => Err(e),
                Ok(args) => Ok(ExprM::Call { name: n.children[0].text, args }),
            }
        },
        NodeKind::Identifier => Ok(ExprM::Ident(n.text)),
        NodeKind::InputStatement => if n.children.len() == 0 {
            Err(missing_child_err())
        } else {
            Ok(ExprM::Input(n.children[0].text))
        },
        _ => Err(ErrM::Parse("Unknown expression type: "@ + kind_label_m(n.kind))),
    }
}

/// Left-associative folding of a binary chain: operator token, then next
/// operand, folding left, regardless of conventional precedence.
pub open spec fn lower_binary_chain_m(cs: Seq<ParseNodeM>, i: nat, acc: ExprM) -> Result<
    ExprM,
    ErrM,
>
    decreases cs, 0nat, cs.len() - i,
{
    if i >= cs.len() {
        Ok(acc)
    } else {
        match BinaryOperator::from_str_m(cs[i as int].text) {
            None => Err(ErrM::Parse("Unknown binary operator: "@ + cs[i as int].text)),
            Some(op) => if i + 1 >= cs.len() {
                Err(missing_child_err())
            } else {
                match lower_expr_m(cs[i as int + 1]) {
                    Err(e) => Err(e),
                    Ok(right) => lower_binary_chain_m(
                        cs,
                        i + 2,
                        ExprM::Binary { left: Box::new(acc), op, right: Box::new(right) },
                    ),
                }
            },
        }
    }
}

/// The expression-category children, lowered in order.
pub open spec fn lower_filtered_exprs_m(cs: Seq<ParseNodeM>, i: nat) -> Result<Seq<ExprM>, ErrM>
    decreases cs, 0nat, cs.len() - i,
{
    if i >= cs.len() {
        Ok(Seq::empty())
    } else if cs[i as int].kind == NodeKind::Expression {
        match lower_expr_m(cs[i as int]) {
            Err(e) => Err(e),
            Ok(e) => match lower_filtered_exprs_m(cs, i + 1) {
                Err(er) => Err(er),
                Ok(rest) => Ok(seq![e] + rest),
            },
        }
    } else {
        lower_filtered_exprs_m(cs, i + 1)
    }
}

/// The identifier-category children's texts, in order: a parameter list.
pub open spec fn params_of_m(cs: Seq<ParseNodeM>) -> Seq<Seq<char>>
    decreases cs,
{
    if cs.len() == 0 {
        Seq::empty()
    } else if cs[0].kind == NodeKind::Identifier {
        seq![cs[0].text] + params_of_m(cs.drop_first())
    } else {
        params_of_m(cs.drop_first())
    }
}

/// The statement-category children, lowered in order.
pub open spec fn lower_filtered_stmts_m(cs: Seq<ParseNodeM>, i: nat) -> Result<Seq<StmtM>, ErrM>
    decreases cs, 2nat, cs.len() - i,
{
    if i >= cs.len() {
        Ok(Seq::empty())
    } else if cs[i as int].kind == NodeKind::Statement {
        match lower_stmt_m(cs[i as int]) {
            Err(e) => Err(e),
            Ok(s) => match lower_filtered_stmts_m(cs, i + 1) {
                Err(er) => Err(er),
                Ok(rest) => Ok(seq![s] + rest),
            },
        }
    } else {
        lower_filtered_stmts_m(cs, i + 1)
    }
}

/// A main block's children: each block-category child contributes its
/// statement-category children, lowered in order; other tokens are ignored.
pub open spec fn lower_main_m(cs: Seq<ParseNodeM>, i: nat) -> Result<Seq<StmtM>, ErrM>
    decreases cs, 3nat, cs.len() - i,
{
    if i >= cs.len() {
        Ok(Seq::empty())
    } else if cs[i as int].kind == NodeKind::Block {
        match lower_filtered_stmts_m(cs[i as int].children, 0) {
            Err(e) => Err(e),
            Ok(part) => match lower_main_m(cs, i + 1) {
                Err(er) => Err(er),
                Ok(rest) => Ok(part + rest),
            },
        }
    } else {
        lower_main_m(cs, i + 1)
    }
}

/// A conditional's children after the condition: statements accumulate into
/// the then-branch until the else-marker, into the else-branch after it.
pub open spec fn lower_cond_branches_m(cs: Seq<ParseNodeM>, i: nat, in_else: bool) -> Result<
    (Seq<StmtM>, Seq<StmtM>),
    ErrM,
>
    decreases cs, 2nat, cs.len() - i,
{
    if i >= cs.len() {
        Ok((Seq::empty(), Seq::empty()))
    } else if cs[i as int].kind == NodeKind::Else {
        lower_cond_branches_m(cs, i + 1, true)
    } else if cs[i as int].kind == NodeKind::Statement {
        match lower_stmt_m(cs[i as int]) {
            Err(e) => Err(e),
            Ok(s) => match lower_cond_branches_m(cs, i + 1, in_else) {
                Err(er) => Err(er),
                Ok(rest) => if in_else {
                    Ok((rest.0, seq![s] + rest.1))
                } else {
                    Ok((seq![s] + rest.0, rest.1))
                },
            },
        }
    } else {
        lower_cond_branches_m(cs, i + 1, in_else)
    }
}

/// What a statement-category node lowers to.
pub open spec fn lower_stmt_m(n: ParseNodeM) -> Result<StmtM, ErrM>
    decreases n, 4nat, 0nat,
{
    if n.children.len() == 0 {
        Err(ErrM::Parse("Empty statement found in the scroll"@))
    } else {
        let inner = n.children[0];
        match inner.kind {
            NodeKind::MainBlock => match lower_main_m(inner.children, 0) {
                Err(e) => Err(e),
                Ok(body) => Ok(StmtM::Main(body)),
            },
            NodeKind::VariableDeclaration => if inner.children.len() < 2 {
                Err(missing_child_err())
            } else if inner.children.len() < 3 {
                Err(ErrM::Parse("Missing expression in variable declaration"@))
            } else {
                match lower_expr_m(inner.children[2]) {
                    Err(e) => Err(e),
                    Ok(value) => match DataType::from_str_m(inner.children[1].text) {
                        None => Err(ErrM::Parse("Unknown type: "@ + inner.children[1].text)),
                        Some(dt) => Ok(
                            StmtM::VarDecl { name: inner.children[0].text, data_type: dt, value },
                        ),
                    },
                }
            },
            NodeKind::FunctionDeclaration => if inner.children.len() < 2 {
                Err(missing_child_err())
            } else {
                match lower_filtered_stmts_m(inner.children, 2) {
                    Err(e) => Err(e),
                    Ok(body) => Ok(
                        StmtM::FnDecl {
                            name: inner.children[0].text,
                            params: params_of_m(inner.children[1].children),
                            body,
                        },
                    ),
                }
            },
            NodeKind::FunctionCall => if inner.children.len() < 1 {
                Err(missing_child_err())
            } else {
                match lower_filtered_exprs_m(inner.children, 1) {
                    Err(e) => Err(e),
                    Ok(args) => Ok(StmtM::Call { name: inner.children[0].text, args }),
                }
            },
            NodeKind::Assignment => if inner.children.len() < 2 {
                Err(missing_child_err())
            } else {
                match lower_expr_m(inner.children[1]) {
                    Err(e) => Err(e),
                    Ok(v) => Ok(StmtM::Assign { name: inner.children[0].text, value: v }),
                }
            },
            NodeKind::Conditional => if inner.children.len() < 1 {
                Err(missing_child_err())
            } else {
                match lower_expr_m(inner.children[0]) {
                    Err(e) => Err(e),
                    Ok(cond) => match lower_cond_branches_m(inner.children, 1, false) {
                        Err(er) => Err(er),
                        Ok(branches) => Ok(
                            StmtM::If {
                                condition: cond,
                                then_branch: branches.0,
                                else_branch: if branches.1.len() == 0 {
                                    None
                                } else {
                                    Some(branches.1)
                                },
                            },
                        ),
                    },
                }
            },
            NodeKind::ForLoop => if inner.children.len() < 1 {
                Err(missing_child_err())
            } else {
                match parse_i64_m(inner.children[0].text) {
                    None => Err(ErrM::Parse("Invalid loop count"@)),
                    Some(c) => match lower_filtered_stmts_m(inner.children, 1) {
                        Err(e) => Err(e),
                        Ok(body) => Ok(StmtM::For { count: c, body }),
                    },
                }
            },
            NodeKind::WhileLoop => if inner.children.len() < 1 {
                Err(missing_child_err())
            } else {
                match lower_expr_m(inner.children[0]) {
                    Err(e) => Err(e),
                    Ok(cond) => match lower_filtered_stmts_m(inner.children, 1) {
                        Err(er) => Err(er),
                        Ok(body) => Ok(StmtM::While { condition: cond, body }),
                    },
                }
            },
            NodeKind::SpeakStatement => if inner.children.len() == 0 {
                Err(ErrM::Parse("speak() is empty"@))
            } else {
                match lower_expr_m(inner.children[0]) {
                    Err(e) => Err(e),
                    Ok(e) => Ok(StmtM::Speak(e)),
                }
            },
            _ => Err(ErrM::Parse("Unknown statement type: "@ + kind_label_m(inner.kind))),
        }
    }
}

/// What a whole parse tree lowers to: the statement-category children of a
/// program-category root, in order; any other root yields the empty program.
pub open spec fn lower_program_m(root: ParseNodeM) -> Result<Seq<StmtM>, ErrM> {
    if root.kind == NodeKind::Program {
        lower_filtered_stmts_m(root.children, 0)
    } else {
        Ok(Seq::empty())
    }
}

// ------------------------------------------------------------------
// Views of executable lowering results onto the mirror's results.
// ------------------------------------------------------------------

pub open spec fn expr_res_view(r: Result<Expression, ValyrianError>) -> Result<ExprM, ErrM> {
    match r {
        Ok(e) => Ok(e@),
        Err(er) => Err(er@),
    }
}

pub open spec fn stmt_res_view(r: Result<Statement, ValyrianError>) -> Result<StmtM, ErrM> {
    match r {
        Ok(s) => Ok(s@),
        Err(er) => Err(er@),
    }
}

pub open spec fn stmts_res_view(r: Result<Vec<Statement>, ValyrianError>) -> Result<
    Seq<StmtM>,
    ErrM,
> {
    match r {
        Ok(v) => Ok(stmts_view(v@)),
        Err(er) => Err(er@),
    }
}

pub open spec fn exprs_res_view(r: Result<Vec<Expression>, ValyrianError>) -> Result<
    Seq<ExprM>,
    ErrM,
> {
    match r {
        Ok(v) => Ok(exprs_view(v@)),
        Err(er) => Err(er@),
    }
}

pub open spec fn prog_res_view(r: Result<Program, ValyrianError>) -> Result<Seq<StmtM>, ErrM> {
    match r {
        Ok(p) => Ok(p@),
        Err(er) => Err(er@),
    }
}

proof fn lemma_stmts_view_cons(s: Statement, rest: Seq<Statement>)
    ensures
        stmts_view(seq![s] + rest) == seq![stmt_view(s)] + stmts_view(rest),
{
    assert((seq![s] + rest)[0] == s);
    assert((seq![s] + rest).drop_first() =~= rest);
    assert((seq![s] + rest).len() > 0);
}

proof fn lemma_exprs_view_cons(e: Expression, rest: Seq<Expression>)
    ensures
        exprs_view(seq![e] + rest) == seq![expr_view(e)] + exprs_view(rest),
{
    assert((seq![e] + rest)[0] == e);
    assert((seq![e] + rest).drop_first() =~= rest);
    assert((seq![e] + rest).len() > 0);
}

fn missing_child_error() -> (r: ValyrianError)
    ensures
        r@ == missing_child_err(),
{
    ValyrianError::ParseError("missing parse-tree child".to_owned())
}

// ------------------------------------------------------------------
// The executable lowering stage.
// ------------------------------------------------------------------

/// Lowers an expression-category parse-tree node.
pub fn parse_expression(node: &ParseNode) -> (r: Result<Expression, ValyrianError>)
    ensures
        expr_res_view(r) == lower_expr_m(node@),
    decreases node@, 1nat, 0nat,
{
    proof {
        if node.children@.len() > 0 {
            lemma_nodes_view_index(node.children@, 0);
        }
        lemma_nodes_view_len(node.children@);
    }
    match node.kind {
        NodeKind::Expression => {
            if node.children.len() == 0 {
                Err(missing_child_error())
            } else {
                parse_expression(&node.children[0])
            }
        },
        NodeKind::BinaryExpr => {
            if node.children.len() == 0 {
                Err(missing_child_error())
            } else {
                let first = match parse_expression(&node.children[0]) {
                    Ok(e) => e,
                    Err(er) => {
                        return Err(er);
                    },
                };
                parse_binary_chain(&node.children, 1, first)
            }
        },
        NodeKind::UnaryExpr => {
            if node.children.len() == 0 {
                return Err(missing_child_error());
            }
            if node.children[0].kind == NodeKind::UnaryOp {
                let is_minus = str_eq(node.children[0].text.as_str(), "-");
                let is_not = str_eq(node.children[0].text.as_str(), "!");
                if is_minus || is_not {
                    if node.children.len() < 2 {
                        return Err(missing_child_error());
                    }
                    proof {
                        lemma_nodes_view_index(node.children@, 1);
                    }
                    let operand = match parse_expression(&node.children[1]) {
                        Ok(e) => e,
                        Err(er) => {
                            return Err(er);
                        },
                    };
                    Ok(
                        Expression::Unary {
                            operator: if is_minus {
                                UnaryOperator::Minus
                            } else {
                                UnaryOperator::Not
                            },
                            operand: Box::new(operand),
                        },
                    )
                } else {
                    let mut msg = "Unknown unary operator: ".to_owned();
                    msg.append(node.children[0].text.as_str());
                    Err(ValyrianError::ParseError(msg))
                }
            } else {
                parse_expression(&node.children[0])
            }
        },
        NodeKind::Primary => {
            if node.children.len() == 0 {
                Err(missing_child_error())
            } else {
                parse_expression(&node.children[0])
            }
        },
        NodeKind::StringLiteral => Ok(
            Expression::Literal(Literal::String(strip_quotes(node.text.as_str()))),
        ),
        NodeKind::IntegerLiteral => {
            let trimmed = trim(node.text.as_str());
            match parse_i64(trimmed.as_str()) {
                Some(v) => Ok(Expression::Literal(Literal::Integer(v))),
                None => {
                    let mut msg = "Invalid integer: ".to_owned();
                    msg.append(node.text.as_str());
                    Err(ValyrianError::ParseError(msg))
                },
            }
        },
        NodeKind::BooleanLiteral => {
            if str_eq(node.text.as_str(), "aye") {
                Ok(Expression::Literal(Literal::Boolean(true)))
            } else if str_eq(node.text.as_str(), "nay") {
                Ok(Expression::Literal(Literal::Boolean(false)))
            } else {
                let mut msg = "Invalid boolean: ".to_owned();
                msg.append(node.text.as_str());
                Err(ValyrianError::ParseError(msg))
            }
        },
        NodeKind::CharLiteral => {
            let n = node.text.as_str().unicode_len();
            if n < 3 {
                Err(ValyrianError::ParseError("Invalid character literal".to_owned()))
            } else {
                Ok(Expression::Literal(Literal::Char(node.text.as_str().get_char(1))))
            }
        },
        NodeKind::FunctionCall => {
            if node.children.len() < 1 {
                return Err(missing_child_error());
            }
            match parse_filtered_exprs(&node.children, 1) {
                Ok(args) => Ok(
                    Expression::FunctionCall {
                        name: node.children[0].text.clone(),
                        arguments: args,
                    },
                ),
                Err(er) => Err(er),
            }
        },
        NodeKind::Identifier => Ok(Expression::Identifier(node.text.clone())),
        NodeKind::InputStatement => {
            if node.children.len() == 0 {
                Err(missing_child_error())
            } else {
                Ok(Expression::Input(node.children[0].text.clone()))
            }
        },
        _ => {
            let mut msg = "Unknown expression type: ".to_owned();
            msg.append(kind_label(&node.kind));
            Err(ValyrianError::ParseError(msg))
        },
    }
}

/// Folds the rest of a binary chain onto an already-lowered left operand.
fn parse_binary_chain(children: &Vec<ParseNode>, i: usize, acc: Expression) -> (r: Result<
    Expression,
    ValyrianError,
>)
    ensures
        expr_res_view(r) == lower_binary_chain_m(nodes_view(children@), i as nat, acc@),
    decreases nodes_view(children@), 0nat, children@.len() - i,
{
    proof {
        lemma_nodes_view_len(children@);
    }
    if i >= children.len() {
        return Ok(acc);
    }
    proof {
        lemma_nodes_view_index(children@, i as int);
    }
    let op = match BinaryOperator::from_str(children[i].text.as_str()) {
        Some(op) => op,
        None => {
            let mut msg = "Unknown binary operator: ".to_owned();
            msg.append(children[i].text.as_str());
            return Err(ValyrianError::ParseError(msg));
        },
    };
    if i + 1 >= children.len() {
        return Err(missing_child_error());
    }
    proof {
        lemma_nodes_view_index(children@, i + 1);
    }
    let right = match parse_expression(&children[i + 1]) {
        Ok(e) => e,
        Err(er) => {
            return Err(er);
        },
    };
    parse_binary_chain(
        children,
        i + 2,
        Expression::Binary { left: Box::new(acc), operator: op, right: Box::new(right) },
    )
}

/// Lowers the expression-category children, in order.
fn parse_filtered_exprs(children: &Vec<ParseNode>, i: usize) -> (r: Result<
    Vec<Expression>,
    ValyrianError,
>)
    ensures
        exprs_res_view(r) == lower_filtered_exprs_m(nodes_view(children@), i as nat),
    decreases nodes_view(children@), 0nat, children@.len() - i,
{
    proof {
        lemma_nodes_view_len(children@);
    }
    if i >= children.len() {
        proof {
            assert(exprs_view(Seq::<Expression>::empty()) =~= Seq::<ExprM>::empty());
        }
        return Ok(Vec::new());
    }
    proof {
        lemma_nodes_view_index(children@, i as int);
    }
    if children[i].kind == NodeKind::Expression {
        let e = match parse_expression(&children[i]) {
            Ok(e) => e,
            Err(er) => {
                return Err(er);
            },
        };
        let ghost ev = e@;
        let mut rest = match parse_filtered_exprs(children, i + 1) {
            Ok(v) => v,
            Err(er) => {
                return Err(er);
            },
        };
        let ghost restv = rest@;
        rest.insert(0, e);
        proof {
            assert(rest@ =~= seq![rest@[0]] + restv);
            lemma_exprs_view_cons(rest@[0], restv);
        }
        Ok(rest)
    } else {
        parse_filtered_exprs(children, i + 1)
    }
}

/// Collects the identifier-category children's texts: a parameter list.
fn parse_params(children: &Vec<ParseNode>) -> (r: Vec<String>)
    ensures
        params_view(r@) == params_of_m(nodes_view(children@)),
{
    let mut out: Vec<String> = Vec::new();
    let n = children.len();
    let mut i: usize = 0;
    proof {
        lemma_nodes_view_len(children@);
        assert(nodes_view(children@).skip(0) =~= nodes_view(children@));
        assert(params_view(out@) =~= Seq::<Seq<char>>::empty());
        assert(params_view(out@) + params_of_m(nodes_view(children@).skip(0)) =~= params_of_m(
            nodes_view(children@),
        ));
    }
    while i < n
        invariant
            0 <= i <= n,
            n == children@.len(),
            nodes_view(children@).len() == n,
            params_of_m(nodes_view(children@)) == params_view(out@) + params_of_m(
                nodes_view(children@).skip(i as int),
            ),
        decreases n - i,
    {
        proof {
            lemma_nodes_view_index(children@, i as int);
            assert(nodes_view(children@).skip(i as int)[0] == nodes_view(children@)[i as int]);
            assert(nodes_view(children@).skip(i as int).drop_first() =~= nodes_view(
                children@,
            ).skip(i + 1));
        }
        if children[i].kind == NodeKind::Identifier {
            let ghost outv = out@;
            out.push(children[i].text.clone());
            proof {
                assert(params_view(out@) =~= params_view(outv) + seq![
                    children@[i as int].text@,
                ]);
                assert(params_view(out@) + params_of_m(nodes_view(children@).skip(i + 1))
                    =~= params_view(outv) + (seq![children@[i as int].text@] + params_of_m(
                    nodes_view(children@).skip(i + 1),
                )));
            }
        }
        i = i + 1;
    }
    proof {
        assert(nodes_view(children@).skip(n as int) =~= Seq::<ParseNodeM>::empty());
        assert(params_view(out@) + Seq::<Seq<char>>::empty() =~= params_view(out@));
    }
    out
}

/// Lowers the statement-category children, in order.
fn parse_filtered_stmts(children: &Vec<ParseNode>, i: usize) -> (r: Result<
    Vec<Statement>,
    ValyrianError,
>)
    ensures
        stmts_res_view(r) == lower_filtered_stmts_m(nodes_view(children@), i as nat),
    decreases nodes_view(children@), 2nat, children@.len() - i,
{
    proof {
        lemma_nodes_view_len(children@);
    }
    if i >= children.len() {
        proof {
            assert(stmts_view(Seq::<Statement>::empty()) =~= Seq::<StmtM>::empty());
        }
        return Ok(Vec::new());
    }
    proof {
        lemma_nodes_view_index(children@, i as int);
    }
    if children[i].kind == NodeKind::Statement {
        let s = match parse_statement(&children[i]) {
            Ok(s) => s,
            Err(er) => {
                return Err(er);
            },
        };
        let mut rest = match parse_filtered_stmts(children, i + 1) {
            Ok(v) => v,
            Err(er) => {
                return Err(er);
            },
        };
        let ghost restv = rest@;
        rest.insert(0, s);
        proof {
            assert(rest@ =~= seq![rest@[0]] + restv);
            lemma_stmts_view_cons(rest@[0], restv);
        }
        Ok(rest)
    } else {
        parse_filtered_stmts(children, i + 1)
    }
}

/// Lowers a main block's children: each block-category child contributes
/// its statement-category children.
fn parse_main_block(children: &Vec<ParseNode>, i: usize) -> (r: Result<
    Vec<Statement>,
    ValyrianError,
>)
    ensures
        stmts_res_view(r) == lower_main_m(nodes_view(children@), i as nat),
    decreases nodes_view(children@), 3nat, children@.len() - i,
{
    proof {
        lemma_nodes_view_len(children@);
    }
    if i >= children.len() {
        proof {
            assert(stmts_view(Seq::<Statement>::empty()) =~= Seq::<StmtM>::empty());
        }
        return Ok(Vec::new());
    }
    proof {
        lemma_nodes_view_index(children@, i as int);
    }
    if children[i].kind == NodeKind::Block {
        let mut part = match parse_filtered_stmts(&children[i].children, 0) {
            Ok(v) => v,
            Err(er) => {
                return Err(er);
            },
        };
        let mut rest = match parse_main_block(children, i + 1) {
            Ok(v) => v,
            Err(er) => {
                return Err(er);
            },
        };
        let ghost partv = part@;
        let ghost restv = rest@;
        part.append(&mut rest);
        proof {
            assert(part@ =~= partv + restv);
            lemma_stmts_view_concat(partv, restv);
        }
        Ok(part)
    } else {
        parse_main_block(children, i + 1)
    }
}

/// Lowers a conditional's children after the condition, accumulating the
/// then-branch until the else-marker and the else-branch after it.
fn parse_cond_branches(children: &Vec<ParseNode>, i: usize, in_else: bool) -> (r: Result<
    (Vec<Statement>, Vec<Statement>),
    ValyrianError,
>)
    ensures
        (match r {
            Ok(v) => lower_cond_branches_m(nodes_view(children@), i as nat, in_else) == Ok::<
                _,
                ErrM,
            >((stmts_view(v.0@), stmts_view(v.1@))),
            Err(er) => lower_cond_branches_m(nodes_view(children@), i as nat, in_else) == Err::<
                (Seq<StmtM>, Seq<StmtM>),
                _,
            >(er@),
        }),
    decreases nodes_view(children@), 2nat, children@.len() - i,
{
    proof {
        lemma_nodes_view_len(children@);
    }
    if i >= children.len() {
        proof {
            assert(stmts_view(Seq::<Statement>::empty()) =~= Seq::<StmtM>::empty());
        }
        return Ok((Vec::new(), Vec::new()));
    }
    proof {
        lemma_nodes_view_index(children@, i as int);
    }
    if children[i].kind == NodeKind::Else {
        parse_cond_branches(children, i + 1, true)
    } else if children[i].kind == NodeKind::Statement {
        let s = match parse_statement(&children[i]) {
            Ok(s) => s,
            Err(er) => {
                return Err(er);
            },
        };
        let (mut thenb, mut elseb) = match parse_cond_branches(children, i + 1, in_else) {
            Ok(v) => v,
            Err(er) => {
                return Err(er);
            },
        };
        if in_else {
            let ghost ev = elseb@;
            elseb.insert(0, s);
            proof {
                assert(elseb@ =~= seq![elseb@[0]] + ev);
                lemma_stmts_view_cons(elseb@[0], ev);
            }
            Ok((thenb, elseb))
        } else {
            let ghost tv = thenb@;
            thenb.insert(0, s);
            proof {
                assert(thenb@ =~= seq![thenb@[0]] + tv);
                lemma_stmts_view_cons(thenb@[0], tv);
            }
            Ok((thenb, elseb))
        }
    } else {
        parse_cond_branches(children, i + 1, in_else)
    }
}

proof fn lemma_stmts_view_concat(a: Seq<Statement>, b: Seq<Statement>)
    ensures
        stmts_view(a + b) == stmts_view(a) + stmts_view(b),
    decreases a,
{
    if a.len() == 0 {
        assert(a + b =~= b);
        assert(stmts_view(a) =~= Seq::<StmtM>::empty());
        assert(stmts_view(a) + stmts_view(b) =~= stmts_view(b));
    } else {
        assert((a + b)[0] == a[0]);
        assert((a + b).drop_first() =~= a.drop_first() + b);
        lemma_stmts_view_concat(a.drop_first(), b);
        assert(stmts_view(a + b) =~= stmts_view(a) + stmts_view(b)) by {
            lemma_stmts_view_len(a);
            lemma_stmts_view_len(b);
            lemma_stmts_view_len(a + b);
            lemma_stmts_view_len(a.drop_first());
        }
    }
}

/// Lowers a statement-category parse-tree node, dispatching on the
/// syntactic category of its first child.
pub fn parse_statement(node: &ParseNode) -> (r: Result<Statement, ValyrianError>)
    ensures
        stmt_res_view(r) == lower_stmt_m(node@),
    decreases node@, 4nat, 0nat,
{
    proof {
        lemma_nodes_view_len(node.children@);
    }
    if node.children.len() == 0 {
        return Err(
            ValyrianError::ParseError("Empty statement found in the scroll".to_owned()),
        );
    }
    proof {
        lemma_nodes_view_index(node.children@, 0);
    }
    let inner = &node.children[0];
    let nc = inner.children.len();
    proof {
        lemma_nodes_view_len(inner.children@);
        if nc > 0 {
            lemma_nodes_view_index(inner.children@, 0);
        }
        if nc > 1 {
            lemma_nodes_view_index(inner.children@, 1);
        }
        if nc > 2 {
            lemma_nodes_view_index(inner.children@, 2);
        }
    }
    match inner.kind {
        NodeKind::MainBlock => {
            match parse_main_block(&inner.children, 0) {
                Ok(body) => Ok(Statement::MainBlock(body)),
                Err(er) => Err(er),
            }
        },
        NodeKind::VariableDeclaration => {
            if nc < 2 {
                return Err(missing_child_error());
            }
            if nc < 3 {
                return Err(
                    ValyrianError::ParseError(
                        "Missing expression in variable declaration".to_owned(),
                    ),
                );
            }
            let value = match parse_expression(&inner.children[2]) {
                Ok(e) => e,
                Err(er) => {
                    return Err(er);
                },
            };
            match DataType::from_str(inner.children[1].text.as_str()) {
                None => {
                    let mut msg = "Unknown type: ".to_owned();
                    msg.append(inner.children[1].text.as_str());
                    Err(ValyrianError::ParseError(msg))
                },
                Some(dt) => Ok(
                    Statement::VariableDeclaration {
                        name: inner.children[0].text.clone(),
                        data_type: dt,
                        value,
                    },
                ),
            }
        },
        NodeKind::FunctionDeclaration => {
            if nc < 2 {
                return Err(missing_child_error());
            }
            let parameters = parse_params(&inner.children[1].children);
            match parse_filtered_stmts(&inner.children, 2) {
                Ok(body) => Ok(
                    Statement::FunctionDeclaration {
                        name: inner.children[0].text.clone(),
                        parameters,
                        body,
                    },
                ),
                Err(er) => Err(er),
            }
        },
        NodeKind::FunctionCall => {
            if nc < 1 {
                return Err(missing_child_error());
            }
            match parse_filtered_exprs(&inner.children, 1) {
                Ok(args) => Ok(
                    Statement::FunctionCall {
                        name: inner.children[0].text.clone(),
                        arguments: args,
                    },
                ),
                Err(er) => Err(er),
            }
        },
        NodeKind::Assignment => {
            if nc < 2 {
                return Err(missing_child_error());
            }
            match parse_expression(&inner.children[1]) {
                Ok(v) => Ok(
                    Statement::Assignment { name: inner.children[0].text.clone(), value: v },
                ),
                Err(er) => Err(er),
            }
        },
        NodeKind::Conditional => {
            if nc < 1 {
                return Err(missing_child_error());
            }
            let condition = match parse_expression(&inner.children[0]) {
                Ok(e) => e,
                Err(er) => {
                    return Err(er);
                },
            };
            match parse_cond_branches(&inner.children, 1, false) {
                Ok(branches) => {
                    let (then_branch, else_branch) = branches;
                    Ok(
                        Statement::Conditional {
                            condition,
                            then_branch,
                            else_branch: if else_branch.len() == 0 {
                                None
                            } else {
                                Some(else_branch)
                            },
                        },
                    )
                },
                Err(er) => Err(er),
            }
        },
        NodeKind::ForLoop => {
            if nc < 1 {
                return Err(missing_child_error());
            }
            let count = match parse_i64(inner.children[0].text.as_str()) {
                Some(c) => c,
                None => {
                    return Err(ValyrianError::ParseError("Invalid loop count".to_owned()));
                },
            };
            match parse_filtered_stmts(&inner.children, 1) {
                Ok(body) => Ok(Statement::ForLoop { count, body }),
                Err(er) => Err(er),
            }
        },
        NodeKind::WhileLoop => {
            if nc < 1 {
                return Err(missing_child_error());
            }
            let condition = match parse_expression(&inner.children[0]) {
                Ok(e) => e,
                Err(er) => {
                    return Err(er);
                },
            };
            match parse_filtered_stmts(&inner.children, 1) {
                Ok(body) => Ok(Statement::WhileLoop { condition, body }),
                Err(er) => Err(er),
            }
        },
        NodeKind::SpeakStatement => {
            if nc == 0 {
                return Err(ValyrianError::ParseError("speak() is empty".to_owned()));
            }
            match parse_expression(&inner.children[0]) {
                Ok(e) => Ok(Statement::Speak(e)),
                Err(er) => Err(er),
            }
        },
        _ => {
            let mut msg = "Unknown statement type: ".to_owned();
            msg.append(kind_label(&inner.kind));
            Err(ValyrianError::ParseError(msg))
        },
    }
}

/// Lowers a whole parse tree into a program: the statement-category
/// children of a program-category root, in order.
pub fn parse_program(root: &ParseNode) -> (r: Result<Program, ValyrianError>)
    ensures
        prog_res_view(r) == lower_program_m(root@),
{
    if root.kind == NodeKind::Program {
        match parse_filtered_stmts(&root.children, 0) {
            Ok(statements) => Ok(Program { statements }),
            Err(er) => Err(er),
        }
    } else {
        proof {
            assert(stmts_view(Seq::<Statement>::empty()) =~= Seq::<StmtM>::empty());
        }
        Ok(Program { statements: Vec::new() })
    }
}

} // verus!
