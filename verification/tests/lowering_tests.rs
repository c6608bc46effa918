use mid_valyrian::ast::{
    BinaryOperator, DataType, Expression, Literal, Statement, UnaryOperator,
};
use mid_valyrian::error::ValyrianError;
use mid_valyrian::parse_tree::{NodeKind, ParseNode};
use mid_valyrian::parser::{parse_expression, parse_program, parse_statement};
use mid_valyrian::run_code;

fn node(kind: NodeKind, text: &str, children: Vec<ParseNode>) -> ParseNode {
    ParseNode { kind, text: text.to_string(), children }
}

fn leaf(kind: NodeKind, text: &str) -> ParseNode {
    node(kind, text, vec![])
}

fn expr_of(inner: ParseNode) -> ParseNode {
    node(NodeKind::Expression, "", vec![inner])
}

fn stmt_of(inner: ParseNode) -> ParseNode {
    node(NodeKind::Statement, "", vec![inner])
}

#[test]
fn lowers_variable_declaration() {
    let tree = stmt_of(node(
        NodeKind::VariableDeclaration,
        "blade x = 5",
        vec![
            leaf(NodeKind::Identifier, "x"),
            leaf(NodeKind::Identifier, "blade"),
            expr_of(leaf(NodeKind::IntegerLiteral, "5")),
        ],
    ));
    let r = parse_statement(&tree).unwrap();
    assert_eq!(
        r,
        Statement::VariableDeclaration {
            name: "x".to_string(),
            data_type: DataType::Blade,
            value: Expression::Literal(Literal::Integer(5)),
        }
    );
}

#[test]
fn unknown_type_token_is_a_parse_error() {
    let tree = stmt_of(node(
        NodeKind::VariableDeclaration,
        "",
        vec![
            leaf(NodeKind::Identifier, "x"),
            leaf(NodeKind::Identifier, "dagger"),
            expr_of(leaf(NodeKind::IntegerLiteral, "5")),
        ],
    ));
    let r = parse_statement(&tree);
    assert!(matches!(r, Err(ValyrianError::ParseError(m)) if m == "Unknown type: dagger"));
}

#[test]
fn bad_initializer_is_reported_before_the_type_token() {
    // The initializer is lowered before the type token is resolved, so its
    // error wins even when the type is unknown too.
    let tree = stmt_of(node(
        NodeKind::VariableDeclaration,
        "",
        vec![
            leaf(NodeKind::Identifier, "x"),
            leaf(NodeKind::Identifier, "dagger"),
            leaf(NodeKind::IntegerLiteral, "5x"),
        ],
    ));
    let r = parse_statement(&tree);
    assert!(matches!(r, Err(ValyrianError::ParseError(m)) if m == "Invalid integer: 5x"));
}

#[test]
fn lowers_function_declaration_with_parameters_and_body() {
    let tree = stmt_of(node(
        NodeKind::FunctionDeclaration,
        "",
        vec![
            leaf(NodeKind::Identifier, "add"),
            node(
                NodeKind::Parameters,
                "",
                vec![
                    leaf(NodeKind::Identifier, "a"),
                    leaf(NodeKind::Newline, "\n"),
                    leaf(NodeKind::Identifier, "b"),
                ],
            ),
            stmt_of(node(
                NodeKind::SpeakStatement,
                "",
                vec![expr_of(leaf(NodeKind::Identifier, "a"))],
            )),
        ],
    ));
    let r = parse_statement(&tree).unwrap();
    assert_eq!(
        r,
        Statement::FunctionDeclaration {
            name: "add".to_string(),
            parameters: vec!["a".to_string(), "b".to_string()],
            body: vec![Statement::Speak(Expression::Identifier("a".to_string()))],
        }
    );
}

#[test]
fn lowers_binary_chain_left_associatively() {
    let tree = node(
        NodeKind::BinaryExpr,
        "",
        vec![
            leaf(NodeKind::IntegerLiteral, "1"),
            leaf(NodeKind::BinaryOp, "-"),
            leaf(NodeKind::IntegerLiteral, "2"),
            leaf(NodeKind::BinaryOp, "+"),
            leaf(NodeKind::IntegerLiteral, "3"),
        ],
    );
    let r = parse_expression(&tree).unwrap();
    assert_eq!(
        r,
        Expression::Binary {
            left: Box::new(Expression::Binary {
                left: Box::new(Expression::Literal(Literal::Integer(1))),
                operator: BinaryOperator::Subtract,
                right: Box::new(Expression::Literal(Literal::Integer(2))),
            }),
            operator: BinaryOperator::Add,
            right: Box::new(Expression::Literal(Literal::Integer(3))),
        }
    );
}

#[test]
fn unknown_binary_operator_is_a_parse_error() {
    let tree = node(
        NodeKind::BinaryExpr,
        "",
        vec![
            leaf(NodeKind::IntegerLiteral, "1"),
            leaf(NodeKind::BinaryOp, "%"),
            leaf(NodeKind::IntegerLiteral, "2"),
        ],
    );
    let r = parse_expression(&tree);
    assert!(matches!(r, Err(ValyrianError::ParseError(m)) if m == "Unknown binary operator: %"));
}

#[test]
fn unary_node_with_operator_lowers_to_unary() {
    let tree = node(
        NodeKind::UnaryExpr,
        "",
        vec![leaf(NodeKind::UnaryOp, "-"), leaf(NodeKind::IntegerLiteral, "4")],
    );
    let r = parse_expression(&tree).unwrap();
    assert_eq!(
        r,
        Expression::Unary {
            operator: UnaryOperator::Minus,
            operand: Box::new(Expression::Literal(Literal::Integer(4))),
        }
    );
}

#[test]
fn unary_node_without_operator_is_a_transparent_wrapper() {
    let tree = node(NodeKind::UnaryExpr, "", vec![leaf(NodeKind::BooleanLiteral, "aye")]);
    let r = parse_expression(&tree).unwrap();
    assert_eq!(r, Expression::Literal(Literal::Boolean(true)));
}

#[test]
fn unknown_unary_operator_is_a_parse_error() {
    let tree = node(
        NodeKind::UnaryExpr,
        "",
        vec![leaf(NodeKind::UnaryOp, "~"), leaf(NodeKind::IntegerLiteral, "4")],
    );
    let r = parse_expression(&tree);
    assert!(matches!(r, Err(ValyrianError::ParseError(m)) if m == "Unknown unary operator: ~"));
}

#[test]
fn string_literal_loses_its_quotes() {
    let r = parse_expression(&leaf(NodeKind::StringLiteral, "\"Valar morghulis!\"")).unwrap();
    assert_eq!(r, Expression::Literal(Literal::String("Valar morghulis!".to_string())));
}

#[test]
fn integer_literal_is_trimmed_then_parsed() {
    let r = parse_expression(&leaf(NodeKind::IntegerLiteral, "  42 ")).unwrap();
    assert_eq!(r, Expression::Literal(Literal::Integer(42)));
    let neg = parse_expression(&leaf(NodeKind::IntegerLiteral, "-7")).unwrap();
    assert_eq!(neg, Expression::Literal(Literal::Integer(-7)));
}

#[test]
fn integer_literal_out_of_range_is_a_parse_error() {
    let r = parse_expression(&leaf(NodeKind::IntegerLiteral, "9223372036854775808"));
    assert!(matches!(r, Err(ValyrianError::ParseError(_))));
    let min = parse_expression(&leaf(NodeKind::IntegerLiteral, "-9223372036854775808")).unwrap();
    assert_eq!(min, Expression::Literal(Literal::Integer(i64::MIN)));
}

#[test]
fn boolean_literal_recognizes_exactly_two_spellings() {
    let t = parse_expression(&leaf(NodeKind::BooleanLiteral, "aye")).unwrap();
    assert_eq!(t, Expression::Literal(Literal::Boolean(true)));
    let f = parse_expression(&leaf(NodeKind::BooleanLiteral, "nay")).unwrap();
    assert_eq!(f, Expression::Literal(Literal::Boolean(false)));
    let bad = parse_expression(&leaf(NodeKind::BooleanLiteral, "maybe"));
    assert!(matches!(bad, Err(ValyrianError::ParseError(m)) if m == "Invalid boolean: maybe"));
}

#[test]
fn char_literal_takes_the_interior_character() {
    let r = parse_expression(&leaf(NodeKind::CharLiteral, "'V'")).unwrap();
    assert_eq!(r, Expression::Literal(Literal::Char('V')));
    let short = parse_expression(&leaf(NodeKind::CharLiteral, "''"));
    assert!(
        matches!(short, Err(ValyrianError::ParseError(m)) if m == "Invalid character literal")
    );
}

#[test]
fn unknown_expression_category_names_the_category() {
    let r = parse_expression(&leaf(NodeKind::FloatLiteral, "1.5"));
    assert!(
        matches!(r, Err(ValyrianError::ParseError(m)) if m == "Unknown expression type: float_literal")
    );
}

#[test]
fn unknown_statement_category_names_the_category() {
    let tree = stmt_of(leaf(NodeKind::Identifier, "x"));
    let r = parse_statement(&tree);
    assert!(
        matches!(r, Err(ValyrianError::ParseError(m)) if m == "Unknown statement type: identifier")
    );
}

#[test]
fn empty_statement_is_a_parse_error() {
    let tree = node(NodeKind::Statement, "", vec![]);
    let r = parse_statement(&tree);
    assert!(
        matches!(r, Err(ValyrianError::ParseError(m)) if m == "Empty statement found in the scroll")
    );
}

#[test]
fn conditional_splits_branches_at_the_else_marker() {
    let tree = stmt_of(node(
        NodeKind::Conditional,
        "",
        vec![
            expr_of(leaf(NodeKind::BooleanLiteral, "aye")),
            stmt_of(node(
                NodeKind::SpeakStatement,
                "",
                vec![expr_of(leaf(NodeKind::StringLiteral, "\"then\""))],
            )),
            leaf(NodeKind::Else, "else"),
            stmt_of(node(
                NodeKind::SpeakStatement,
                "",
                vec![expr_of(leaf(NodeKind::StringLiteral, "\"else\""))],
            )),
        ],
    ));
    let r = parse_statement(&tree).unwrap();
    match r {
        Statement::Conditional { condition, then_branch, else_branch } => {
            assert_eq!(condition, Expression::Literal(Literal::Boolean(true)));
            assert_eq!(then_branch.len(), 1);
            assert_eq!(else_branch.map(|b| b.len()), Some(1));
        },
        other => panic!("unexpected lowering: {:?}", other),
    }
}

#[test]
fn conditional_without_else_statements_has_no_else_branch() {
    let tree = stmt_of(node(
        NodeKind::Conditional,
        "",
        vec![
            expr_of(leaf(NodeKind::BooleanLiteral, "nay")),
            stmt_of(node(
                NodeKind::SpeakStatement,
                "",
                vec![expr_of(leaf(NodeKind::StringLiteral, "\"then\""))],
            )),
        ],
    ));
    let r = parse_statement(&tree).unwrap();
    assert!(matches!(r, Statement::Conditional { else_branch: None, .. }));
}

#[test]
fn for_loop_count_must_lex_as_an_integer() {
    let good = stmt_of(node(
        NodeKind::ForLoop,
        "",
        vec![
            leaf(NodeKind::IntegerLiteral, "3"),
            stmt_of(node(
                NodeKind::SpeakStatement,
                "",
                vec![expr_of(leaf(NodeKind::StringLiteral, "\"hi\""))],
            )),
        ],
    ));
    let r = parse_statement(&good).unwrap();
    assert!(matches!(r, Statement::ForLoop { count: 3, .. }));

    let bad = stmt_of(node(
        NodeKind::ForLoop,
        "",
        vec![leaf(NodeKind::IntegerLiteral, "many")],
    ));
    let e = parse_statement(&bad);
    assert!(matches!(e, Err(ValyrianError::ParseError(m)) if m == "Invalid loop count"));
}

#[test]
fn lowers_while_loop() {
    let tree = stmt_of(node(
        NodeKind::WhileLoop,
        "",
        vec![
            expr_of(leaf(NodeKind::BooleanLiteral, "nay")),
            stmt_of(node(
                NodeKind::SpeakStatement,
                "",
                vec![expr_of(leaf(NodeKind::StringLiteral, "\"x\""))],
            )),
        ],
    ));
    let r = parse_statement(&tree).unwrap();
    match r {
        Statement::WhileLoop { condition, body } => {
            assert_eq!(condition, Expression::Literal(Literal::Boolean(false)));
            assert_eq!(body.len(), 1);
        },
        other => panic!("unexpected lowering: {:?}", other),
    }
}

#[test]
fn empty_speak_is_a_parse_error() {
    let tree = stmt_of(node(NodeKind::SpeakStatement, "", vec![]));
    let r = parse_statement(&tree);
    assert!(matches!(r, Err(ValyrianError::ParseError(m)) if m == "speak() is empty"));
}

#[test]
fn function_call_statement_collects_expression_arguments() {
    let tree = stmt_of(node(
        NodeKind::FunctionCall,
        "",
        vec![
            leaf(NodeKind::Identifier, "add"),
            expr_of(leaf(NodeKind::IntegerLiteral, "2")),
            expr_of(leaf(NodeKind::IntegerLiteral, "3")),
        ],
    ));
    let r = parse_statement(&tree).unwrap();
    match r {
        Statement::FunctionCall { name, arguments } => {
            assert_eq!(name, "add");
            assert_eq!(arguments.len(), 2);
        },
        other => panic!("unexpected lowering: {:?}", other),
    }
}

#[test]
fn main_block_collects_statements_from_blocks() {
    let tree = stmt_of(node(
        NodeKind::MainBlock,
        "",
        vec![
            leaf(NodeKind::Newline, "\n"),
            node(
                NodeKind::Block,
                "",
                vec![
                    leaf(NodeKind::Comment, "# greet"),
                    stmt_of(node(
                        NodeKind::SpeakStatement,
                        "",
                        vec![expr_of(leaf(NodeKind::StringLiteral, "\"hi\""))],
                    )),
                ],
            ),
        ],
    ));
    let r = parse_statement(&tree).unwrap();
    match r {
        Statement::MainBlock(body) => assert_eq!(body.len(), 1),
        other => panic!("unexpected lowering: {:?}", other),
    }
}

#[test]
fn data_type_tokens_resolve_to_the_six_names() {
    assert_eq!(DataType::from_str("scroll"), Some(DataType::Scroll));
    assert_eq!(DataType::from_str("blade"), Some(DataType::Blade));
    assert_eq!(DataType::from_str("wine"), Some(DataType::Wine));
    assert_eq!(DataType::from_str("vow"), Some(DataType::Vow));
    assert_eq!(DataType::from_str("sigil"), Some(DataType::Sigil));
    assert_eq!(DataType::from_str("void"), Some(DataType::Void));
    assert_eq!(DataType::from_str("dragon"), None);
}

#[test]
fn binary_operator_tokens_resolve_to_the_eight_operators() {
    assert_eq!(BinaryOperator::from_str("+"), Some(BinaryOperator::Add));
    assert_eq!(BinaryOperator::from_str("-"), Some(BinaryOperator::Subtract));
    assert_eq!(BinaryOperator::from_str("*"), Some(BinaryOperator::Multiply));
    assert_eq!(BinaryOperator::from_str("/"), Some(BinaryOperator::Divide));
    assert_eq!(BinaryOperator::from_str(">"), Some(BinaryOperator::Greater));
    assert_eq!(BinaryOperator::from_str("<"), Some(BinaryOperator::Less));
    assert_eq!(BinaryOperator::from_str("=="), Some(BinaryOperator::Equal));
    assert_eq!(BinaryOperator::from_str("!="), Some(BinaryOperator::NotEqual));
    assert_eq!(BinaryOperator::from_str("%"), None);
}

#[test]
fn run_code_runs_a_whole_tree() {
    // main { blade x = 5 ; speak(x + 3) }
    let program_tree = node(
        NodeKind::Program,
        "",
        vec![stmt_of(node(
            NodeKind::MainBlock,
            "",
            vec![node(
                NodeKind::Block,
                "",
                vec![
                    stmt_of(node(
                        NodeKind::VariableDeclaration,
                        "",
                        vec![
                            leaf(NodeKind::Identifier, "x"),
                            leaf(NodeKind::Identifier, "blade"),
                            expr_of(leaf(NodeKind::IntegerLiteral, "5")),
                        ],
                    )),
                    stmt_of(node(
                        NodeKind::SpeakStatement,
                        "",
                        vec![expr_of(node(
                            NodeKind::BinaryExpr,
                            "",
                            vec![
                                leaf(NodeKind::Identifier, "x"),
                                leaf(NodeKind::BinaryOp, "+"),
                                leaf(NodeKind::IntegerLiteral, "3"),
                            ],
                        ))],
                    )),
                ],
            )],
        ))],
    );
    let out = run_code(&program_tree, vec![], 1_000_000).unwrap();
    assert_eq!(out, "8\n");
}

#[test]
fn run_code_surfaces_hello_output() {
    let program_tree = node(
        NodeKind::Program,
        "",
        vec![stmt_of(node(
            NodeKind::SpeakStatement,
            "",
            vec![expr_of(leaf(NodeKind::StringLiteral, "\"Valar morghulis!\""))],
        ))],
    );
    let out = run_code(&program_tree, vec![], 1_000_000).unwrap();
    assert_eq!(out, "Valar morghulis!\n");
}

#[test]
fn run_code_surfaces_lowering_errors() {
    let program_tree = node(
        NodeKind::Program,
        "",
        vec![stmt_of(node(NodeKind::SpeakStatement, "", vec![]))],
    );
    let r = run_code(&program_tree, vec![], 1_000_000);
    assert!(matches!(r, Err(ValyrianError::ParseError(m)) if m == "speak() is empty"));
}

#[test]
fn non_program_root_lowers_to_the_empty_program() {
    let r = parse_program(&leaf(NodeKind::Comment, "# nothing")).unwrap();
    assert_eq!(r.statements.len(), 0);
}

#[test]
fn function_call_lowers_in_expression_position() {
    let tree = node(
        NodeKind::FunctionCall,
        "",
        vec![
            leaf(NodeKind::Identifier, "add"),
            expr_of(leaf(NodeKind::IntegerLiteral, "2")),
            expr_of(leaf(NodeKind::IntegerLiteral, "3")),
        ],
    );
    let r = parse_expression(&tree).unwrap();
    match r {
        Expression::FunctionCall { name, arguments } => {
            assert_eq!(name, "add");
            assert_eq!(arguments.len(), 2);
        },
        other => panic!("unexpected lowering: {:?}", other),
    }
}

#[test]
fn input_expression_lowers_with_its_context_name() {
    let tree = node(
        NodeKind::InputStatement,
        "hearme(words)",
        vec![leaf(NodeKind::Identifier, "words")],
    );
    let r = parse_expression(&tree).unwrap();
    assert_eq!(r, Expression::Input("words".to_string()));
}

#[test]
fn run_code_feeds_input_lines_to_input_expressions() {
    let program_tree = node(
        NodeKind::Program,
        "",
        vec![stmt_of(node(
            NodeKind::SpeakStatement,
            "",
            vec![expr_of(node(
                NodeKind::InputStatement,
                "hearme(words)",
                vec![leaf(NodeKind::Identifier, "words")],
            ))],
        ))],
    );
    let out = run_code(&program_tree, vec!["  dracarys  ".to_string()], 1_000_000).unwrap();
    assert_eq!(out, "Speak your words: dracarys\n");
}
