//! The typed parse tree the lowering stage consumes. The concrete grammar
//! is an external collaborator: whatever produces the tree hands each node
//! over as a syntactic category, the matched source text, and the child
//! nodes, and this model is all the lowering stage ever reads.

use vstd::prelude::*;

verus! {

/// The syntactic category of a parse-tree node, named as the grammar's
/// rules are.
#[derive(Debug, Clone, Copy, PartialEq, Eq, Structural)]
pub enum NodeKind {
    Program,
    Statement,
    MainBlock,
    Block,
    VariableDeclaration,
    FunctionDeclaration,
    Parameters,
    FunctionCall,
    Assignment,
    Conditional,
    Else,
    ForLoop,
    WhileLoop,
    SpeakStatement,
    Expression,
    BinaryExpr,
    BinaryOp,
    UnaryExpr,
    UnaryOp,
    Primary,
    StringLiteral,
    IntegerLiteral,
    FloatLiteral,
    BooleanLiteral,
    CharLiteral,
    Identifier,
    InputStatement,
    Newline,
    Comment,
}

/// One node of the grammar-produced parse tree.
#[derive(Debug, PartialEq)]
pub struct ParseNode {
    pub kind: NodeKind,
    pub text: String,
    pub children: Vec<ParseNode>,
}

/// The ghost counterpart of a parse-tree node.
pub struct ParseNodeM {
    pub kind: NodeKind,
    pub text: Seq<char>,
    pub children: Seq<ParseNodeM>,
}

pub open spec fn node_view(n: ParseNode) -> ParseNodeM
    decreases n,
{
    ParseNodeM { kind: n.kind, text: n.text@, children: nodes_view(n.children@) }
}

pub open spec fn nodes_view(ns: Seq<ParseNode>) -> Seq<ParseNodeM>
    decreases ns,
{
    if ns.len() == 0 {
        Seq::empty()
    } else {
        seq![node_view(ns[0])] + nodes_view(ns.drop_first())
    }
}

impl View for ParseNode {
    type V = ParseNodeM;

    open spec fn view(&self) -> ParseNodeM {
        node_view(*self)
    }
}

pub proof fn lemma_nodes_view_len(ns: Seq<ParseNode>)
    ensures
        nodes_view(ns).len() == ns.len(),
    decreases ns,
{
    if ns.len() > 0 {
        lemma_nodes_view_len(ns.drop_first());
    }
}

pub proof fn lemma_nodes_view_index(ns: Seq<ParseNode>, i: int)
    requires
        0 <= i < ns.len(),
    ensures
        nodes_view(ns).len() == ns.len(),
        nodes_view(ns)[i] == node_view(ns[i]),
    decreases ns,
{
    lemma_nodes_view_len(ns);
    if i > 0 {
        lemma_nodes_view_index(ns.drop_first(), i - 1);
    }
}

/// The rule name of a syntactic category, as error messages report it.
pub open spec fn kind_label_m(k: NodeKind) -> Seq<char> {
    match k {
        NodeKind::Program => "program"@,
        NodeKind::Statement => "statement"@,
        NodeKind::MainBlock => "main_block"@,
        NodeKind::Block => "block"@,
        NodeKind::VariableDeclaration => "variable_declaration"@,
        NodeKind::FunctionDeclaration => "function_declaration"@,
        NodeKind::Parameters => "parameters"@,
        NodeKind::FunctionCall => "function_call"@,
        NodeKind::Assignment => "assignment"@,
        NodeKind::Conditional => "conditional"@,
        NodeKind::Else => "ELSE"@,
        NodeKind::ForLoop => "for_loop"@,
        NodeKind::WhileLoop => "while_loop"@,
        NodeKind::SpeakStatement => "speak_statement"@,
        NodeKind::Expression => "expression"@,
        NodeKind::BinaryExpr => "binary_expr"@,
        NodeKind::BinaryOp => "binary_op"@,
        NodeKind::UnaryExpr => "unary_expr"@,
        NodeKind::UnaryOp => "unary_op"@,
        NodeKind::Primary => "primary"@,
        NodeKind::StringLiteral => "string_literal"@,
        NodeKind::IntegerLiteral => "integer_literal"@,
        NodeKind::FloatLiteral => "float_literal"@,
        NodeKind::BooleanLiteral => "boolean_literal"@,
        NodeKind::CharLiteral => "char_literal"@,
        NodeKind::Identifier => "identifier"@,
        NodeKind::InputStatement => "input_statement"@,
        NodeKind::Newline => "NEWLINE"@,
        NodeKind::Comment => "COMMENT"@,
    }
}

pub fn kind_label(k: &NodeKind) -> (r: &'static str)
    ensures
        r@ == kind_label_m(*k),
{
    match k {
        NodeKind::Program => "program",
        NodeKind::Statement => "statement",
        NodeKind::MainBlock => "main_block",
        NodeKind::Block => "block",
        NodeKind::VariableDeclaration => "variable_declaration",
        NodeKind::FunctionDeclaration => "function_declaration",
        NodeKind::Parameters => "parameters",
        NodeKind::FunctionCall => "function_call",
        NodeKind::Assignment => "assignment",
        NodeKind::Conditional => "conditional",
        NodeKind::Else => "ELSE",
        NodeKind::ForLoop => "for_loop",
        NodeKind::WhileLoop => "while_loop",
        NodeKind::SpeakStatement => "speak_statement",
        NodeKind::Expression => "expression",
        NodeKind::BinaryExpr => "binary_expr",
        NodeKind::BinaryOp => "binary_op",
        NodeKind::UnaryExpr => "unary_expr",
        NodeKind::UnaryOp => "unary_op",
        NodeKind::Primary => "primary",
        NodeKind::StringLiteral => "string_literal",
        NodeKind::IntegerLiteral => "integer_literal",
        NodeKind::FloatLiteral => "float_literal",
        NodeKind::BooleanLiteral => "boolean_literal",
        NodeKind::CharLiteral => "char_literal",
        NodeKind::Identifier => "identifier",
        NodeKind::InputStatement => "input_statement",
        NodeKind::Newline => "NEWLINE",
        NodeKind::Comment => "COMMENT",
    }
}

} // verus!
