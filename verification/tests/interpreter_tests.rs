use mid_valyrian::ast::{
    BinaryOperator, DataType, Expression, Literal, Program, Statement, UnaryOperator,
};
use mid_valyrian::error::ValyrianError;
use mid_valyrian::interpreter::Interpreter;

const FUEL: u64 = 1_000_000;

fn int_lit(i: i64) -> Expression {
    Expression::Literal(Literal::Integer(i))
}

fn text(s: &str) -> Expression {
    Expression::Literal(Literal::String(s.to_string()))
}

fn ident(name: &str) -> Expression {
    Expression::Identifier(name.to_string())
}

fn binary(left: Expression, op: BinaryOperator, right: Expression) -> Expression {
    Expression::Binary { left: Box::new(left), operator: op, right: Box::new(right) }
}

fn declare(name: &str, value: Expression) -> Statement {
    Statement::VariableDeclaration {
        name: name.to_string(),
        data_type: DataType::Blade,
        value,
    }
}

fn speak(value: Expression) -> Statement {
    Statement::Speak(value)
}

fn run(statements: Vec<Statement>) -> (String, Result<(), ValyrianError>) {
    let program = Program { statements };
    let mut interp = Interpreter::new();
    let r = interp.interpret(&program, FUEL);
    (interp.output().clone(), r)
}

#[test]
fn declaration_then_speak_sum() {
    let (out, r) = run(vec![
        declare("x", int_lit(5)),
        speak(binary(ident("x"), BinaryOperator::Add, int_lit(3))),
    ]);
    assert!(r.is_ok());
    assert_eq!(out, "8\n");
}

#[test]
fn function_call_returns_sum_and_keeps_globals() {
    let add_fn = Statement::FunctionDeclaration {
        name: "add".to_string(),
        parameters: vec!["a".to_string(), "b".to_string()],
        body: vec![Statement::Return(Some(binary(
            ident("a"),
            BinaryOperator::Add,
            ident("b"),
        )))],
    };
    let call = Expression::FunctionCall {
        name: "add".to_string(),
        arguments: vec![int_lit(2), int_lit(3)],
    };
    let (out, r) = run(vec![
        add_fn,
        declare("a", int_lit(42)),
        speak(call),
        speak(ident("a")),
    ]);
    assert!(r.is_ok());
    assert_eq!(out, "5\n42\n");
}

#[test]
fn for_loop_runs_exactly_three_times() {
    let (out, r) = run(vec![Statement::ForLoop {
        count: 3,
        body: vec![speak(text("hi"))],
    }]);
    assert!(r.is_ok());
    assert_eq!(out, "hi\nhi\nhi\n");
}

#[test]
fn for_loop_zero_and_negative_counts_run_zero_times() {
    let (out, r) = run(vec![
        Statement::ForLoop { count: 0, body: vec![speak(text("a"))] },
        Statement::ForLoop { count: -4, body: vec![speak(text("b"))] },
    ]);
    assert!(r.is_ok());
    assert_eq!(out, "");
}

#[test]
fn while_loop_runs_body_exactly_three_times() {
    let (out, r) = run(vec![
        declare("x", int_lit(0)),
        Statement::WhileLoop {
            condition: binary(ident("x"), BinaryOperator::Less, int_lit(3)),
            body: vec![
                speak(text("loop")),
                Statement::Assignment {
                    name: "x".to_string(),
                    value: binary(ident("x"), BinaryOperator::Add, int_lit(1)),
                },
            ],
        },
    ]);
    assert!(r.is_ok());
    assert_eq!(out, "loop\nloop\nloop\n");
}

#[test]
fn division_by_integer_zero_fails_without_output() {
    let (out, r) = run(vec![speak(binary(int_lit(10), BinaryOperator::Divide, int_lit(0)))]);
    assert!(matches!(r, Err(ValyrianError::DivisionByZero)));
    assert_eq!(out, "");
}

#[test]
fn boolean_rendering_uses_the_fixed_tokens() {
    let (out, r) = run(vec![
        speak(Expression::Literal(Literal::Boolean(true))),
        speak(Expression::Literal(Literal::Boolean(false))),
    ]);
    assert!(r.is_ok());
    assert_eq!(out, "aye\nnay\n");
}

#[test]
fn assignment_to_undeclared_name_fails() {
    let (out, r) = run(vec![Statement::Assignment {
        name: "y".to_string(),
        value: text("anything"),
    }]);
    assert!(matches!(r, Err(ValyrianError::UndefinedVariable(n)) if n == "y"));
    assert_eq!(out, "");
}

#[test]
fn wrong_argument_count_fails_with_argument_mismatch() {
    let add_fn = Statement::FunctionDeclaration {
        name: "add".to_string(),
        parameters: vec!["a".to_string(), "b".to_string()],
        body: vec![Statement::Return(Some(binary(
            ident("a"),
            BinaryOperator::Add,
            ident("b"),
        )))],
    };
    let call = Statement::FunctionCall {
        name: "add".to_string(),
        arguments: vec![int_lit(2), int_lit(3), int_lit(4)],
    };
    let (_, r) = run(vec![add_fn, call]);
    assert!(matches!(r, Err(ValyrianError::ArgumentMismatch)));
}

#[test]
fn undeclared_function_fails() {
    let call = Statement::FunctionCall { name: "ghost_fn".to_string(), arguments: vec![] };
    let (_, r) = run(vec![call]);
    assert!(matches!(r, Err(ValyrianError::UndefinedFunction(n)) if n == "ghost_fn"));
}

#[test]
fn parameters_restored_but_other_globals_persist() {
    // f(a) shadows the global a and mutates the unrelated global g.
    let f = Statement::FunctionDeclaration {
        name: "f".to_string(),
        parameters: vec!["a".to_string()],
        body: vec![
            Statement::Assignment {
                name: "g".to_string(),
                value: binary(ident("a"), BinaryOperator::Add, int_lit(1)),
            },
            Statement::Return(Some(ident("a"))),
        ],
    };
    let (out, r) = run(vec![
        f,
        declare("a", int_lit(7)),
        declare("g", int_lit(0)),
        Statement::FunctionCall { name: "f".to_string(), arguments: vec![int_lit(10)] },
        speak(ident("a")),
        speak(ident("g")),
    ]);
    assert!(r.is_ok());
    assert_eq!(out, "7\n11\n");
}

#[test]
fn parameter_absent_before_call_is_absent_after() {
    let f = Statement::FunctionDeclaration {
        name: "f".to_string(),
        parameters: vec!["p".to_string()],
        body: vec![Statement::Return(Some(ident("p")))],
    };
    let (_, r) = run(vec![
        f,
        Statement::FunctionCall { name: "f".to_string(), arguments: vec![int_lit(1)] },
        speak(ident("p")),
    ]);
    assert!(matches!(r, Err(ValyrianError::UndefinedVariable(n)) if n == "p"));
}

#[test]
fn cross_kind_equality_is_always_unequal() {
    let (out, r) = run(vec![
        speak(binary(int_lit(5), BinaryOperator::Equal, text("5"))),
        speak(binary(int_lit(5), BinaryOperator::NotEqual, text("5"))),
        speak(binary(
            Expression::Literal(Literal::Boolean(true)),
            BinaryOperator::Equal,
            int_lit(1),
        )),
    ]);
    assert!(r.is_ok());
    assert_eq!(out, "nay\naye\nnay\n");
}

#[test]
fn same_kind_equality_compares_structurally() {
    let (out, r) = run(vec![
        speak(binary(text("ab"), BinaryOperator::Equal, text("ab"))),
        speak(binary(text("ab"), BinaryOperator::Equal, text("ac"))),
        speak(binary(int_lit(4), BinaryOperator::NotEqual, int_lit(4))),
    ]);
    assert!(r.is_ok());
    assert_eq!(out, "aye\nnay\nnay\n");
}

#[test]
fn interpretation_is_deterministic() {
    let statements = || {
        vec![
            declare("x", int_lit(1)),
            Statement::WhileLoop {
                condition: binary(ident("x"), BinaryOperator::Less, int_lit(5)),
                body: vec![
                    speak(ident("x")),
                    Statement::Assignment {
                        name: "x".to_string(),
                        value: binary(ident("x"), BinaryOperator::Multiply, int_lit(2)),
                    },
                ],
            },
        ]
    };
    let (out1, r1) = run(statements());
    let (out2, r2) = run(statements());
    assert!(r1.is_ok() && r2.is_ok());
    assert_eq!(out1, out2);
    assert_eq!(out1, "1\n2\n4\n");
}

#[test]
fn string_concatenation_and_comparisons() {
    let (out, r) = run(vec![
        speak(binary(text("Valar"), BinaryOperator::Add, text(" morghulis!"))),
        speak(binary(int_lit(3), BinaryOperator::Greater, int_lit(2))),
        speak(binary(int_lit(3), BinaryOperator::Less, int_lit(2))),
    ]);
    assert!(r.is_ok());
    assert_eq!(out, "Valar morghulis!\naye\nnay\n");
}

#[test]
fn invalid_operation_names_operator_and_kinds() {
    let (_, r) = run(vec![speak(binary(text("a"), BinaryOperator::Subtract, int_lit(1)))]);
    match r {
        Err(ValyrianError::InvalidOperation { op, left_type, right_type }) => {
            assert_eq!(op, "Subtract");
            assert_eq!(left_type, "string");
            assert_eq!(right_type, "integer");
        },
        other => panic!("unexpected result: {:?}", other),
    }
}

#[test]
fn division_checks_zero_before_operand_kinds() {
    // A zero right operand is refused even when the left operand is text ...
    let (_, r) = run(vec![speak(binary(text("a"), BinaryOperator::Divide, int_lit(0)))]);
    assert!(matches!(r, Err(ValyrianError::DivisionByZero)));
    // ... while a nonzero one makes text division an invalid operation.
    let (_, r2) = run(vec![speak(binary(text("a"), BinaryOperator::Divide, int_lit(1)))]);
    assert!(matches!(r2, Err(ValyrianError::InvalidOperation { .. })));
}

#[test]
fn non_boolean_condition_is_a_type_error() {
    let (_, r) = run(vec![Statement::Conditional {
        condition: int_lit(1),
        then_branch: vec![speak(text("x"))],
        else_branch: None,
    }]);
    match r {
        Err(ValyrianError::TypeError { expected, found }) => {
            assert_eq!(expected, "boolean");
            assert_eq!(found, "integer");
        },
        other => panic!("unexpected result: {:?}", other),
    }
}

#[test]
fn conditional_selects_else_branch() {
    let (out, r) = run(vec![Statement::Conditional {
        condition: Expression::Literal(Literal::Boolean(false)),
        then_branch: vec![speak(text("then"))],
        else_branch: Some(vec![speak(text("else"))]),
    }]);
    assert!(r.is_ok());
    assert_eq!(out, "else\n");
}

#[test]
fn unary_operators_negate_and_invert() {
    let (out, r) = run(vec![
        speak(Expression::Unary { operator: UnaryOperator::Minus, operand: Box::new(int_lit(9)) }),
        speak(Expression::Unary {
            operator: UnaryOperator::Not,
            operand: Box::new(Expression::Literal(Literal::Boolean(false))),
        }),
    ]);
    assert!(r.is_ok());
    assert_eq!(out, "-9\naye\n");
}

#[test]
fn unary_on_wrong_kind_is_a_parse_style_error() {
    let (_, r) = run(vec![speak(Expression::Unary {
        operator: UnaryOperator::Not,
        operand: Box::new(int_lit(1)),
    })]);
    assert!(matches!(r, Err(ValyrianError::ParseError(_))));
}

#[test]
fn arithmetic_wraps_on_overflow() {
    let (out, r) = run(vec![speak(binary(
        int_lit(i64::MAX),
        BinaryOperator::Add,
        int_lit(1),
    ))]);
    assert!(r.is_ok());
    assert_eq!(out, "-9223372036854775808\n");
}

#[test]
fn return_propagates_through_nested_blocks() {
    // The return inside the loop inside the conditional ends the call.
    let f = Statement::FunctionDeclaration {
        name: "find".to_string(),
        parameters: vec![],
        body: vec![Statement::Conditional {
            condition: Expression::Literal(Literal::Boolean(true)),
            then_branch: vec![Statement::ForLoop {
                count: 10,
                body: vec![Statement::Return(Some(int_lit(99)))],
            }],
            else_branch: None,
        }],
    };
    let (out, r) = run(vec![
        f,
        speak(Expression::FunctionCall { name: "find".to_string(), arguments: vec![] }),
    ]);
    assert!(r.is_ok());
    assert_eq!(out, "99\n");
}

#[test]
fn call_without_return_yields_void() {
    let f = Statement::FunctionDeclaration {
        name: "noop".to_string(),
        parameters: vec![],
        body: vec![],
    };
    let (out, r) = run(vec![
        f,
        speak(Expression::FunctionCall { name: "noop".to_string(), arguments: vec![] }),
    ]);
    assert!(r.is_ok());
    assert_eq!(out, "void\n");
}

#[test]
fn later_function_declaration_overwrites_earlier() {
    let f1 = Statement::FunctionDeclaration {
        name: "f".to_string(),
        parameters: vec![],
        body: vec![Statement::Return(Some(int_lit(1)))],
    };
    let f2 = Statement::FunctionDeclaration {
        name: "f".to_string(),
        parameters: vec![],
        body: vec![Statement::Return(Some(int_lit(2)))],
    };
    let (out, r) = run(vec![
        f1,
        f2,
        speak(Expression::FunctionCall { name: "f".to_string(), arguments: vec![] }),
    ]);
    assert!(r.is_ok());
    assert_eq!(out, "2\n");
}

#[test]
fn main_block_runs_and_return_ends_it_early() {
    let (out, r) = run(vec![
        Statement::MainBlock(vec![
            speak(text("one")),
            Statement::Return(None),
            speak(text("never")),
        ]),
        speak(text("after")),
    ]);
    assert!(r.is_ok());
    assert_eq!(out, "one\nafter\n");
}

#[test]
fn input_expression_prompts_and_trims() {
    let program = Program {
        statements: vec![speak(Expression::Input("words".to_string()))],
    };
    let mut interp = Interpreter::new();
    interp.set_input(vec!["  hi there  ".to_string()]);
    let r = interp.interpret(&program, FUEL);
    assert!(r.is_ok());
    assert_eq!(interp.output(), "Speak your words: hi there\n");
}

#[test]
fn input_expression_without_input_is_an_io_error() {
    let program = Program {
        statements: vec![speak(Expression::Input("words".to_string()))],
    };
    let mut interp = Interpreter::new();
    let r = interp.interpret(&program, FUEL);
    assert!(matches!(r, Err(ValyrianError::IoError(_))));
}

#[test]
fn character_values_render_as_themselves() {
    let (out, r) = run(vec![speak(Expression::Literal(Literal::Char('V')))]);
    assert!(r.is_ok());
    assert_eq!(out, "V\n");
}

#[test]
fn integer_division_truncates_toward_zero() {
    let (out, r) = run(vec![
        speak(binary(int_lit(7), BinaryOperator::Divide, int_lit(2))),
        speak(binary(int_lit(-7), BinaryOperator::Divide, int_lit(2))),
        speak(binary(int_lit(i64::MIN), BinaryOperator::Divide, int_lit(-1))),
    ]);
    assert!(r.is_ok());
    assert_eq!(out, "3\n-3\n-9223372036854775808\n");
}

#[test]
fn declared_type_tag_is_never_enforced() {
    // A declaration tagged as text may hold an integer: the tag is advisory.
    let (out, r) = run(vec![
        Statement::VariableDeclaration {
            name: "x".to_string(),
            data_type: DataType::Scroll,
            value: int_lit(12),
        },
        speak(ident("x")),
    ]);
    assert!(r.is_ok());
    assert_eq!(out, "12\n");
}

#[test]
fn value_constructors_report_errors_with_context() {
    let e = ValyrianError::type_error("boolean", "string");
    assert_eq!(
        e,
        ValyrianError::TypeError { expected: "boolean".to_string(), found: "string".to_string() }
    );
    let e2 = ValyrianError::invalid_operation("Add", "boolean", "char");
    assert_eq!(
        e2,
        ValyrianError::InvalidOperation {
            op: "Add".to_string(),
            left_type: "boolean".to_string(),
            right_type: "char".to_string(),
        }
    );
}

#[test]
fn exhausted_budget_is_a_runtime_error() {
    let program = Program {
        statements: vec![Statement::WhileLoop {
            condition: Expression::Literal(Literal::Boolean(true)),
            body: vec![],
        }],
    };
    let mut interp = Interpreter::new();
    let r = interp.interpret(&program, 100);
    assert!(matches!(r, Err(ValyrianError::RuntimeError(_))));
}

#[test]
fn arithmetic_chains_fold_left() {
    let (out, r) = run(vec![speak(binary(
        binary(int_lit(2), BinaryOperator::Subtract, int_lit(3)),
        BinaryOperator::Add,
        int_lit(4),
    ))]);
    assert!(r.is_ok());
    assert_eq!(out, "3\n");
}

#[test]
fn nested_call_arguments_evaluate_first() {
    let add_fn = Statement::FunctionDeclaration {
        name: "add".to_string(),
        parameters: vec!["a".to_string(), "b".to_string()],
        body: vec![Statement::Return(Some(binary(
            ident("a"),
            BinaryOperator::Add,
            ident("b"),
        )))],
    };
    let inner = Expression::FunctionCall {
        name: "add".to_string(),
        arguments: vec![int_lit(1), int_lit(2)],
    };
    let outer = Expression::FunctionCall {
        name: "add".to_string(),
        arguments: vec![inner, int_lit(3)],
    };
    let (out, r) = run(vec![add_fn, speak(outer)]);
    assert!(r.is_ok());
    assert_eq!(out, "6\n");
}

#[test]
fn non_boolean_while_condition_is_a_type_error() {
    let (_, r) = run(vec![Statement::WhileLoop {
        condition: text("forever"),
        body: vec![],
    }]);
    match r {
        Err(ValyrianError::TypeError { expected, found }) => {
            assert_eq!(expected, "boolean");
            assert_eq!(found, "string");
        },
        other => panic!("unexpected result: {:?}", other),
    }
}

#[test]
fn input_lines_are_consumed_in_order() {
    let program = Program {
        statements: vec![
            speak(Expression::Input("first".to_string())),
            speak(Expression::Input("second".to_string())),
        ],
    };
    let mut interp = Interpreter::new();
    interp.set_input(vec!["one".to_string(), "two".to_string()]);
    let r = interp.interpret(&program, FUEL);
    assert!(r.is_ok());
    assert_eq!(
        interp.output(),
        "Speak your words: one\nSpeak your words: two\n"
    );
}
