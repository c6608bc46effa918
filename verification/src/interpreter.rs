//! The tree-walking evaluator. Its behaviour is pinned, result and state
//! alike, to the ghost semantics of `semantics`: every public method's
//! contract says that what it did to the interpreter state and what it
//! returned are exactly what the semantics says.

use vstd::prelude::*;
use crate::ast::{
    BinaryOperator, UnaryOperator, Expression, Statement, Program, Value, ControlFlow,
    exprs_view, stmt_view, stmts_view, params_view, flow_view, lemma_exprs_view_index,
    lemma_exprs_view_len, lemma_stmts_view_index, lemma_stmts_view_len, lemma_stmts_view_take_step,
    ValueM, StmtM, FlowM, Literal,
};
use crate::env::{Env, FnTab};
use crate::error::{ValyrianError, ErrM};
use crate::semantics::{
    StateM, kind_name_m, op_name_m, unop_name_m, apply_binary_m, apply_unary_m, wrap_div_i64,
    eval_expr_m, bind_args_m, call_fn_m, exec_stmt_m, exec_stmts_m, run_for_m, run_toplevel_m,
    register_funcs_m, interp_m, snapshot_m, restore_m, eheight, eheight_seq, sheight,
    sheight_seq,
};
use crate::text::{render, trim};

verus! {

// ------------------------------------------------------------------
// Views of executable results onto the semantics' results.
// ------------------------------------------------------------------

pub open spec fn value_res_view(r: Result<Value, ValyrianError>) -> Result<ValueM, ErrM> {
    match r {
        Ok(v) => Ok(v@),
        Err(e) => Err(e@),
    }
}

pub open spec fn flow_res_view(r: Result<Option<ControlFlow>, ValyrianError>) -> Result<
    FlowM,
    ErrM,
> {
    match r {
        Ok(f) => Ok(flow_view(f)),
        Err(e) => Err(e@),
    }
}

pub open spec fn unit_res_view(r: Result<(), ValyrianError>) -> Result<(), ErrM> {
    match r {
        Ok(u) => Ok(()),
        Err(e) => Err(e@),
    }
}

// ------------------------------------------------------------------
// Height lemmas used by the termination measures.
// ------------------------------------------------------------------

proof fn lemma_sheight_seq_index(ss: Seq<StmtM>, i: int)
    requires
        0 <= i < ss.len(),
    ensures
        sheight(ss[i]) < sheight_seq(ss),
    decreases ss.len(),
{
    if i > 0 {
        lemma_sheight_seq_index(ss.drop_first(), i - 1);
    }
}

proof fn lemma_eheight_seq_index(es: Seq<crate::ast::ExprM>, i: int)
    requires
        0 <= i < es.len(),
    ensures
        eheight(es[i]) < eheight_seq(es),
    decreases es.len(),
{
    if i > 0 {
        lemma_eheight_seq_index(es.drop_first(), i - 1);
    }
}

// ------------------------------------------------------------------
// The function table built from a program.
// ------------------------------------------------------------------

/// The function table is faithful to the program: it registers exactly the
/// names the semantics registers, and each one points at the top-level
/// declaration whose parameters and body the semantics recorded for it.
pub open spec fn ftab_wf(tab: Map<Seq<char>, usize>, prog: Program) -> bool {
    let fns = register_funcs_m(prog@);
    &&& tab.dom() == fns.dom()
    &&& forall|k: Seq<char>|
        #[trigger] tab.contains_key(k) ==> 0 <= tab[k] < prog.statements@.len() && stmt_view(
            prog.statements@[tab[k] as int],
        ) == (StmtM::FnDecl { name: k, params: fns[k].0, body: fns[k].1 })
}

/// The single registration pass over the top-level statements: every
/// function declaration is collected, in order, duplicates overwriting.
pub fn register_funcs(program: &Program) -> (tab: FnTab)
    ensures
        ftab_wf(tab@, *program),
{
    let mut tab = FnTab::new();
    let n = program.statements.len();
    let mut i: usize = 0;
    proof {
        assert(program.statements@.take(0) =~= Seq::<Statement>::empty());
    }
    while i < n
        invariant
            0 <= i <= n,
            n == program.statements@.len(),
            tab@.dom() == register_funcs_m(stmts_view(program.statements@.take(i as int))).dom(),
            forall|k: Seq<char>|
                #[trigger] tab@.contains_key(k) ==> 0 <= tab@[k] < i && stmt_view(
                    program.statements@[tab@[k] as int],
                ) == (StmtM::FnDecl {
                    name: k,
                    params: register_funcs_m(
                        stmts_view(program.statements@.take(i as int)),
                    )[k].0,
                    body: register_funcs_m(stmts_view(program.statements@.take(i as int)))[k].1,
                }),
        decreases n - i,
    {
        let ghost pre = stmts_view(program.statements@.take(i as int));
        proof {
            lemma_stmts_view_take_step(program.statements@, i as int);
            assert(stmts_view(program.statements@.take(i + 1)).drop_last() =~= pre);
        }
        match &program.statements[i] {
            Statement::FunctionDeclaration { name, parameters, body } => {
                tab.insert(name.clone(), i);
                proof {
                    assert(tab@.dom() =~= register_funcs_m(
                        stmts_view(program.statements@.take(i + 1)),
                    ).dom());
                }
            },
            _ => {
                proof {
                    assert(register_funcs_m(stmts_view(program.statements@.take(i + 1)))
                        == register_funcs_m(pre));
                }
            },
        }
        i = i + 1;
    }
    proof {
        assert(program.statements@.take(n as int) =~= program.statements@);
    }
    tab
}

// ------------------------------------------------------------------
// Operator dispatch.
// ------------------------------------------------------------------

fn op_name(op: &BinaryOperator) -> (r: &'static str)
    ensures
        r@ == op_name_m(*op),
{
    match op {
        BinaryOperator::Add => "Add",
        BinaryOperator::Subtract => "Subtract",
        BinaryOperator::Multiply => "Multiply",
        BinaryOperator::Divide => "Divide",
        BinaryOperator::Greater => "Greater",
        BinaryOperator::Less => "Less",
        BinaryOperator::Equal => "Equal",
        BinaryOperator::NotEqual => "NotEqual",
    }
}

fn unop_name(op: &UnaryOperator) -> (r: &'static str)
    ensures
        r@ == unop_name_m(*op),
{
    match op {
        UnaryOperator::Minus => "Minus",
        UnaryOperator::Not => "Not",
    }
}

/// The runtime state of one interpretation run: the global variable table,
/// everything written so far, and the input lines not yet consumed.
pub struct Interpreter {
    variables: Env,
    output: String,
    input: Vec<String>,
}

impl Interpreter {
    /// The ghost state this interpreter is in.
    pub closed spec fn state_m(&self) -> StateM {
        StateM {
            vars: self.variables@,
            output: self.output@,
            input: self.input@.map_values(|l: String| l@),
        }
    }

    /// A fresh interpreter: no bindings, no output, no input.
    pub fn new() -> (r: Interpreter)
        ensures
            r.state_m() == (StateM {
                vars: Map::<Seq<char>, ValueM>::empty(),
                output: Seq::<char>::empty(),
                input: Seq::<Seq<char>>::empty(),
            }),
    {
        let r = Interpreter { variables: Env::new(), output: String::new(), input: Vec::new() };
        proof {
            assert(r.state_m().input =~= Seq::<Seq<char>>::empty());
        }
        r
    }

    /// Supplies the lines the input expression will consume, replacing any
    /// lines not yet consumed.
    pub fn set_input(&mut self, lines: Vec<String>)
        ensures
            final(self).state_m() == (StateM {
                input: lines@.map_values(|l: String| l@),
                ..old(self).state_m()
            }),
    {
        self.input = lines;
    }

    /// Everything the run has written so far, as one stream: each output
    /// statement contributes its rendering and a newline, each input
    /// expression its prompt.
    pub fn output(&self) -> (r: &String)
        ensures
            r@ == self.state_m().output,
    {
        &self.output
    }

    /// The name of a value's kind, as error messages report it.
    pub fn kind_name(&self, value: &Value) -> (r: String)
        ensures
            r@ == kind_name_m(value@),
    {
        match value {
            Value::Integer(_) => "integer".to_owned(),
            Value::String(_) => "string".to_owned(),
            Value::Boolean(_) => "boolean".to_owned(),
            Value::Char(_) => "char".to_owned(),
            Value::Void => "void".to_owned(),
        }
    }

    /// Binary operator dispatch on (operator, left kind, right kind), the
    /// arms in the order the semantics fixes: a zero right operand of a
    /// division is refused before the division, equality never fails, and
    /// every unlisted combination is an invalid operation.
    pub fn apply_binary_operator(&self, op: &BinaryOperator, left: &Value, right: &Value) -> (r:
        Result<Value, ValyrianError>)
        ensures
            value_res_view(r) == apply_binary_m(*op, left@, right@),
    {
        match (op, left, right) {
            (BinaryOperator::Add, Value::Integer(a), Value::Integer(b)) => Ok(
                Value::Integer(a.wrapping_add(*b)),
            ),
            (BinaryOperator::Add, Value::String(a), Value::String(b)) => Ok(
                Value::String(a.clone().concat(b.as_str())),
            ),
            (BinaryOperator::Subtract, Value::Integer(a), Value::Integer(b)) => Ok(
                Value::Integer(a.wrapping_sub(*b)),
            ),
            (BinaryOperator::Multiply, Value::Integer(a), Value::Integer(b)) => Ok(
                Value::Integer(a.wrapping_mul(*b)),
            ),
            (BinaryOperator::Divide, _, Value::Integer(b)) => {
                if *b == 0 {
                    Err(ValyrianError::DivisionByZero)
                } else {
                    match left {
                        Value::Integer(a) => {
                            let q: i64 = match a.checked_div(*b) {
                                Some(v) => v,
                                None => i64::MIN,
                            };
                            proof {
                                assert(q == wrap_div_i64(*a, *b));
                            }
                            Ok(Value::Integer(q))
                        },
                        _ => Err(
                            ValyrianError::invalid_operation(
                                op_name(op),
                                self.kind_name(left).as_str(),
                                self.kind_name(right).as_str(),
                            ),
                        ),
                    }
                }
            },
            (BinaryOperator::Greater, Value::Integer(a), Value::Integer(b)) => Ok(
                Value::Boolean(*a > *b),
            ),
            (BinaryOperator::Less, Value::Integer(a), Value::Integer(b)) => Ok(
                Value::Boolean(*a < *b),
            ),
            (BinaryOperator::Equal, _, _) => Ok(Value::Boolean(*left == *right)),
            (BinaryOperator::NotEqual, _, _) => Ok(Value::Boolean(!(*left == *right))),
            _ => Err(
                ValyrianError::invalid_operation(
                    op_name(op),
                    self.kind_name(left).as_str(),
                    self.kind_name(right).as_str(),
                ),
            ),
        }
    }

    /// Unary operator dispatch: numeric negation on an integer, logical
    /// negation on a boolean, anything else a parse-style error.
    pub fn apply_unary_operator(&self, op: &UnaryOperator, operand: &Value) -> (r: Result<
        Value,
        ValyrianError,
    >)
        ensures
            value_res_view(r) == apply_unary_m(*op, operand@),
    {
        match (op, operand) {
            (UnaryOperator::Minus, Value::Integer(a)) => Ok(
                Value::Integer((0 as i64).wrapping_sub(*a)),
            ),
            (UnaryOperator::Not, Value::Boolean(b)) => Ok(Value::Boolean(!*b)),
            _ => {
                let mut msg = "Invalid unary operation: ".to_owned();
                msg.append(unop_name(op));
                msg.append(" on ");
                msg.append(self.kind_name(operand).as_str());
                Err(ValyrianError::ParseError(msg))
            },
        }
    }

    /// Evaluates an expression, in and on the current state.
    pub fn evaluate_expression(
        &mut self,
        program: &Program,
        tab: &FnTab,
        expression: &Expression,
        fuel: u64,
    ) -> (r: Result<Value, ValyrianError>)
        requires
            ftab_wf(tab@, *program),
        ensures
            ({
                let (st2, res) = eval_expr_m(
                    fuel as nat,
                    register_funcs_m(program@),
                    old(self).state_m(),
                    expression@,
                );
                final(self).state_m() == st2 && value_res_view(r) == res
            }),
        decreases fuel, eheight(expression@), 0nat,
    {
        match expression {
            Expression::Literal(lit) => {
                let v = match lit {
                    Literal::String(s) => Value::String(s.clone()),
                    Literal::Integer(i) => Value::Integer(*i),
                    Literal::Boolean(b) => Value::Boolean(*b),
                    Literal::Char(c) => Value::Char(*c),
                };
                Ok(v)
            },
            Expression::Identifier(name) => {
                match self.variables.get(name.as_str()) {
                    Some(v) => Ok(v.clone()),
                    None => Err(ValyrianError::UndefinedVariable(name.clone())),
                }
            },
            Expression::Binary { left, operator, right } => {
                let lv = match self.evaluate_expression(program, tab, left, fuel) {
                    Ok(v) => v,
                    Err(e) => {
                        return Err(e);
                    },
                };
                let rv = match self.evaluate_expression(program, tab, right, fuel) {
                    Ok(v) => v,
                    Err(e) => {
                        return Err(e);
                    },
                };
                self.apply_binary_operator(operator, &lv, &rv)
            },
            Expression::Unary { operator, operand } => {
                let v = match self.evaluate_expression(program, tab, operand, fuel) {
                    Ok(v) => v,
                    Err(e) => {
                        return Err(e);
                    },
                };
                self.apply_unary_operator(operator, &v)
            },
            Expression::Input(_) => {
                self.output.append("Speak your words: ");
                if self.input.len() > 0 {
                    let ghost pre = self.input@.map_values(|l: String| l@);
                    let line = self.input.remove(0);
                    proof {
                        assert(self.input@.map_values(|l: String| l@) =~= pre.drop_first());
                    }
                    let trimmed = trim(line.as_str());
                    Ok(Value::String(trimmed))
                } else {
                    Err(ValyrianError::IoError("no line of input to read".to_owned()))
                }
            },
            Expression::FunctionCall { name, arguments } => {
                self.call_function(program, tab, name.as_str(), arguments, fuel)
            },
        }
    }

    /// Calls a declared function: exact argument count, dynamic-scope
    /// parameter binding in the one global table, and restoration of every
    /// parameter name after the body finishes.
    pub fn call_function(
        &mut self,
        program: &Program,
        tab: &FnTab,
        name: &str,
        arguments: &Vec<Expression>,
        fuel: u64,
    ) -> (r: Result<Value, ValyrianError>)
        requires
            ftab_wf(tab@, *program),
        ensures
            ({
                let (st2, res) = call_fn_m(
                    fuel as nat,
                    register_funcs_m(program@),
                    old(self).state_m(),
                    name@,
                    exprs_view(arguments@),
                );
                final(self).state_m() == st2 && value_res_view(r) == res
            }),
        decreases fuel, 2 + eheight_seq(exprs_view(arguments@)), 0nat,
    {
        let ghost fns = register_funcs_m(program@);
        let idx = match tab.get(name) {
            Some(i) => i,
            None => {
                proof {
                    assert(!fns.contains_key(name@));
                }
                return Err(ValyrianError::UndefinedFunction(name.to_owned()));
            },
        };
        let (parameters, body) = match &program.statements[idx] {
            Statement::FunctionDeclaration { name: _, parameters, body } => (parameters, body),
            _ => {
                proof {
                    lemma_stmt_view_variants(program.statements@[idx as int]);
                    assert(false);
                }
                return Err(ValyrianError::ArgumentMismatch);
            },
        };
        proof {
            assert(fns[name@].0 == params_view(parameters@));
            assert(fns[name@].1 == stmts_view(body@));
            lemma_exprs_view_len(arguments@);
        }
        if arguments.len() != parameters.len() {
            return Err(ValyrianError::ArgumentMismatch);
        }
        let ghost st0 = self.state_m();
        let ghost paramsv = params_view(parameters@);
        let ghost argsv = exprs_view(arguments@);
        let ghost snapv = snapshot_m(st0.vars, paramsv);

        // Snapshot the prior value (or absence) of every parameter name.
        let pn = parameters.len();
        let mut snapshot: Vec<(String, Option<Value>)> = Vec::new();
        let mut j: usize = 0;
        while j < pn
            invariant
                0 <= j <= pn,
                pn == parameters@.len(),
                *self == *old(self),
                snapshot@.len() == j,
                snapv == snapshot_m(self.state_m().vars, params_view(parameters@)),
                forall|k: int|
                    0 <= k < j ==> snap_entry_view(#[trigger] snapshot@[k]) == snapv[k],
            decreases pn - j,
        {
            let pname = parameters[j].clone();
            let prior = match self.variables.get(pname.as_str()) {
                Some(v) => Some(v.clone()),
                None => None,
            };
            snapshot.push((pname, prior));
            j = j + 1;
        }
        proof {
            assert(snapv.len() == pn);
        }

        // Bind each parameter to its evaluated argument, left to right.
        proof {
            assert(paramsv.skip(0) =~= paramsv);
            assert(argsv.skip(0) =~= argsv);
        }
        let an = arguments.len();
        let mut j: usize = 0;
        while j < an
            invariant
                0 <= j <= an,
                an == arguments@.len(),
                an == parameters@.len(),
                ftab_wf(tab@, *program),
                fns == register_funcs_m(program@),
                st0 == old(self).state_m(),
                fns.contains_key(name@),
                fns[name@].0 == paramsv,
                argsv == exprs_view(arguments@),
                paramsv == params_view(parameters@),
                argsv.len() == an,
                paramsv.len() == an,
                bind_args_m(fuel as nat, fns, st0, paramsv, argsv) == bind_args_m(
                    fuel as nat,
                    fns,
                    self.state_m(),
                    paramsv.skip(j as int),
                    argsv.skip(j as int),
                ),
            decreases an - j,
        {
            proof {
                lemma_exprs_view_index(arguments@, j as int);
                lemma_eheight_seq_index(argsv, j as int);
                assert(argsv.skip(j as int)[0] == argsv[j as int]);
                assert(paramsv.skip(j as int)[0] == paramsv[j as int]);
            }
            let v = match self.evaluate_expression(program, tab, &arguments[j], fuel) {
                Ok(v) => v,
                Err(e) => {
                    return Err(e);
                },
            };
            self.variables.insert(parameters[j].clone(), v);
            proof {
                assert(argsv.skip(j as int).drop_first() =~= argsv.skip(j + 1));
                assert(paramsv.skip(j as int).drop_first() =~= paramsv.skip(j + 1));
            }
            j = j + 1;
        }
        proof {
            assert(argsv.skip(an as int) =~= Seq::<crate::ast::ExprM>::empty());
            assert(bind_args_m(fuel as nat, fns, st0, paramsv, argsv) == (
                self.state_m(),
                Result::<(), ErrM>::Ok(()),
            ));
        }

        if fuel == 0 {
            return Err(ValyrianError::RuntimeError("execution budget exhausted".to_owned()));
        }

        // Execute the body; a return signal becomes the call's result.
        let flow = match self.execute_statements(program, tab, body, fuel - 1) {
            Ok(f) => f,
            Err(e) => {
                return Err(e);
            },
        };

        // Restore every parameter name to its snapshot.
        let ghost st2 = self.state_m();
        proof {
            assert(snapv.skip(0) =~= snapv);
        }
        let sn = snapshot.len();
        let mut j: usize = 0;
        while j < sn
            invariant
                0 <= j <= sn,
                sn == snapshot@.len(),
                sn == snapv.len(),
                forall|k: int|
                    0 <= k < sn ==> snap_entry_view(#[trigger] snapshot@[k]) == snapv[k],
                self.state_m().output == st2.output,
                self.state_m().input == st2.input,
                restore_m(st2.vars, snapv) == restore_m(self.state_m().vars, snapv.skip(j as int)),
            decreases sn - j,
        {
            proof {
                assert(snapv.skip(j as int)[0] == snapv[j as int]);
            }
            match &snapshot[j].1 {
                Some(v) => {
                    let nm = snapshot[j].0.clone();
                    let vv = v.clone();
                    self.variables.insert(nm, vv);
                },
                None => {
                    self.variables.remove(snapshot[j].0.as_str());
                },
            }
            proof {
                assert(snapv.skip(j as int).drop_first() =~= snapv.skip(j + 1));
            }
            j = j + 1;
        }
        proof {
            assert(snapv.skip(sn as int) =~= Seq::<(Seq<char>, Option<ValueM>)>::empty());
        }

        match flow {
            Some(ControlFlow::Return(v)) => Ok(v),
            None => Ok(Value::Void),
        }
    }

    /// Runs a statement list in order until a return signal or an error
    /// stops it.
    pub fn execute_statements(
        &mut self,
        program: &Program,
        tab: &FnTab,
        statements: &Vec<Statement>,
        fuel: u64,
    ) -> (r: Result<Option<ControlFlow>, ValyrianError>)
        requires
            ftab_wf(tab@, *program),
        ensures
            ({
                let (st2, res) = exec_stmts_m(
                    fuel as nat,
                    register_funcs_m(program@),
                    old(self).state_m(),
                    stmts_view(statements@),
                );
                final(self).state_m() == st2 && flow_res_view(r) == res
            }),
        decreases fuel, sheight_seq(stmts_view(statements@)), 0nat,
    {
        let ghost fns = register_funcs_m(program@);
        let ghost ssv = stmts_view(statements@);
        let ghost st0 = self.state_m();
        proof {
            lemma_stmts_view_len(statements@);
        }
        proof {
            assert(ssv.skip(0) =~= ssv);
        }
        let n = statements.len();
        let mut j: usize = 0;
        while j < n
            invariant
                0 <= j <= n,
                n == statements@.len(),
                n == ssv.len(),
                ftab_wf(tab@, *program),
                fns == register_funcs_m(program@),
                st0 == old(self).state_m(),
                ssv == stmts_view(statements@),
                exec_stmts_m(fuel as nat, fns, st0, ssv) == exec_stmts_m(
                    fuel as nat,
                    fns,
                    self.state_m(),
                    ssv.skip(j as int),
                ),
            decreases n - j,
        {
            proof {
                lemma_stmts_view_index(statements@, j as int);
                lemma_sheight_seq_index(ssv, j as int);
                assert(ssv.skip(j as int)[0] == ssv[j as int]);
            }
            let fr = match self.execute_statement(program, tab, &statements[j], fuel) {
                Ok(f) => f,
                Err(e) => {
                    return Err(e);
                },
            };
            match fr {
                Some(cf) => {
                    return Ok(Some(cf));
                },
                None => {},
            }
            proof {
                assert(ssv.skip(j as int).drop_first() =~= ssv.skip(j + 1));
            }
            j = j + 1;
        }
        proof {
            assert(ssv.skip(n as int) =~= Seq::<StmtM>::empty());
        }
        Ok(None)
    }

    /// A counted loop: the body runs exactly `count` times, zero times for
    /// a zero or negative count; a return signal aborts it immediately.
    pub fn run_for(
        &mut self,
        program: &Program,
        tab: &FnTab,
        count: i64,
        body: &Vec<Statement>,
        fuel: u64,
    ) -> (r: Result<Option<ControlFlow>, ValyrianError>)
        requires
            ftab_wf(tab@, *program),
        ensures
            ({
                let (st2, res) = run_for_m(
                    fuel as nat,
                    register_funcs_m(program@),
                    old(self).state_m(),
                    count,
                    stmts_view(body@),
                );
                final(self).state_m() == st2 && flow_res_view(r) == res
            }),
        decreases
            fuel,
            1 + sheight_seq(stmts_view(body@)),
            (if count >= 1 {
                count as nat
            } else {
                0nat
            }),
    {
        if count <= 0 {
            return Ok(None);
        }
        let fr = match self.execute_statements(program, tab, body, fuel) {
            Ok(f) => f,
            Err(e) => {
                return Err(e);
            },
        };
        match fr {
            Some(cf) => Ok(Some(cf)),
            None => self.run_for(program, tab, count - 1, body, fuel),
        }
    }

    /// Executes one statement: either no control-flow signal, or a return
    /// signal that must propagate unchanged through every nesting level.
    pub fn execute_statement(
        &mut self,
        program: &Program,
        tab: &FnTab,
        statement: &Statement,
        fuel: u64,
    ) -> (r: Result<Option<ControlFlow>, ValyrianError>)
        requires
            ftab_wf(tab@, *program),
        ensures
            ({
                let (st2, res) = exec_stmt_m(
                    fuel as nat,
                    register_funcs_m(program@),
                    old(self).state_m(),
                    statement@,
                );
                final(self).state_m() == st2 && flow_res_view(r) == res
            }),
        decreases fuel, sheight(statement@), 0nat,
    {
        match statement {
            Statement::Return(expr_opt) => {
                match expr_opt {
                    Some(expr) => {
                        let v = match self.evaluate_expression(program, tab, expr, fuel) {
                            Ok(v) => v,
                            Err(e) => {
                                return Err(e);
                            },
                        };
                        Ok(Some(ControlFlow::Return(v)))
                    },
                    None => Ok(Some(ControlFlow::Return(Value::Void))),
                }
            },
            Statement::VariableDeclaration { name, data_type: _, value } => {
                let v = match self.evaluate_expression(program, tab, value, fuel) {
                    Ok(v) => v,
                    Err(e) => {
                        return Err(e);
                    },
                };
                self.variables.insert(name.clone(), v);
                Ok(None)
            },
            Statement::Assignment { name, value } => {
                if !self.variables.contains(name.as_str()) {
                    return Err(ValyrianError::UndefinedVariable(name.clone()));
                }
                let v = match self.evaluate_expression(program, tab, value, fuel) {
                    Ok(v) => v,
                    Err(e) => {
                        return Err(e);
                    },
                };
                self.variables.insert(name.clone(), v);
                Ok(None)
            },
            Statement::FunctionCall { name, arguments } => {
                match self.call_function(program, tab, name.as_str(), arguments, fuel) {
                    Ok(_) => Ok(None),
                    Err(e) => Err(e),
                }
            },
            Statement::Conditional { condition, then_branch, else_branch } => {
                let cv = match self.evaluate_expression(program, tab, condition, fuel) {
                    Ok(v) => v,
                    Err(e) => {
                        return Err(e);
                    },
                };
                let should_execute = match cv {
                    Value::Boolean(b) => b,
                    _ => {
                        return Err(
                            ValyrianError::type_error("boolean", self.kind_name(&cv).as_str()),
                        );
                    },
                };
                if should_execute {
                    self.execute_statements(program, tab, then_branch, fuel)
                } else {
                    match else_branch {
                        Some(stmts) => self.execute_statements(program, tab, stmts, fuel),
                        None => Ok(None),
                    }
                }
            },
            Statement::ForLoop { count, body } => self.run_for(program, tab, *count, body, fuel),
            Statement::WhileLoop { condition, body } => {
                let cv = match self.evaluate_expression(program, tab, condition, fuel) {
                    Ok(v) => v,
                    Err(e) => {
                        return Err(e);
                    },
                };
                let should_continue = match cv {
                    Value::Boolean(b) => b,
                    _ => {
                        return Err(
                            ValyrianError::type_error("boolean", self.kind_name(&cv).as_str()),
                        );
                    },
                };
                if !should_continue {
                    return Ok(None);
                }
                let fr = match self.execute_statements(program, tab, body, fuel) {
                    Ok(f) => f,
                    Err(e) => {
                        return Err(e);
                    },
                };
                match fr {
                    Some(cf) => Ok(Some(cf)),
                    None => {
                        if fuel == 0 {
                            return Err(
                                ValyrianError::RuntimeError(
                                    "execution budget exhausted".to_owned(),
                                ),
                            );
                        }
                        self.execute_statement(program, tab, statement, fuel - 1)
                    },
                }
            },
            Statement::Speak(expression) => {
                let v = match self.evaluate_expression(program, tab, expression, fuel) {
                    Ok(v) => v,
                    Err(e) => {
                        return Err(e);
                    },
                };
                let text = render(&v);
                self.output.append(text.as_str());
                self.output.append("\n");
                proof {
                    reveal_strlit("\n");
                    assert("\n"@ =~= seq!['\n']);
                }
                Ok(None)
            },
            Statement::MainBlock(stmts) => self.execute_statements(program, tab, stmts, fuel),
            Statement::FunctionDeclaration { .. } => Ok(None),
        }
    }

    /// The second pass of interpretation, from the given index on: main
    /// blocks run their statements, a return signal reaching the top of one
    /// ends that block early; other statements execute directly, a return
    /// signal reaching the top of the list ends the run early; function
    /// declarations are skipped.
    fn run_toplevel(&mut self, program: &Program, tab: &FnTab, i: usize, fuel: u64) -> (r: Result<
        (),
        ValyrianError,
    >)
        requires
            ftab_wf(tab@, *program),
            i <= program.statements@.len(),
        ensures
            ({
                let (st2, res) = run_toplevel_m(
                    fuel as nat,
                    register_funcs_m(program@),
                    old(self).state_m(),
                    program@.skip(i as int),
                );
                final(self).state_m() == st2 && unit_res_view(r) == res
            }),
        decreases fuel, 1 + sheight_seq(program@.skip(i as int)), 0nat,
    {
        proof {
            lemma_stmts_view_len(program.statements@);
        }
        let n = program.statements.len();
        if i >= n {
            proof {
                assert(program@.skip(i as int) =~= Seq::<StmtM>::empty());
            }
            return Ok(());
        }
        proof {
            lemma_stmts_view_index(program.statements@, i as int);
            assert(program@.skip(i as int)[0] == program@[i as int]);
            assert(program@.skip(i as int).drop_first() =~= program@.skip(i + 1));
        }
        match &program.statements[i] {
            Statement::FunctionDeclaration { .. } => self.run_toplevel(program, tab, i + 1, fuel),
            Statement::MainBlock(stmts) => {
                match self.execute_statements(program, tab, stmts, fuel) {
                    Ok(_) => self.run_toplevel(program, tab, i + 1, fuel),
                    Err(e) => Err(e),
                }
            },
            _ => {
                proof {
                    lemma_stmt_view_variants(program.statements@[i as int]);
                }
                match self.execute_statement(program, tab, &program.statements[i], fuel) {
                    Ok(Some(_)) => Ok(()),
                    Ok(None) => self.run_toplevel(program, tab, i + 1, fuel),
                    Err(e) => Err(e),
                }
            },
        }
    }

    /// One whole interpretation run: register every top-level function
    /// declaration, then execute the top-level statements in source order,
    /// stopping at the first error.
    pub fn interpret(&mut self, program: &Program, fuel: u64) -> (r: Result<(), ValyrianError>)
        ensures
            ({
                let (st2, res) = interp_m(fuel as nat, program@, old(self).state_m());
                final(self).state_m() == st2 && unit_res_view(r) == res
            }),
    {
        let tab = register_funcs(program);
        proof {
            assert(program@.skip(0) =~= program@);
        }
        self.run_toplevel(program, &tab, 0, fuel)
    }
}

/// The ghost counterpart of one snapshot entry.
pub open spec fn snap_entry_view(e: (String, Option<Value>)) -> (Seq<char>, Option<ValueM>) {
    (
        e.0@,
        match e.1 {
            Some(v) => Some(v@),
            None => None,
        },
    )
}

proof fn lemma_stmt_view_variants(s: Statement)
    ensures
        (stmt_view(s) is FnDecl) <==> (s is FunctionDeclaration),
        (stmt_view(s) is Main) <==> (s is MainBlock),
{
    match s {
        Statement::VariableDeclaration { .. } => {},
        Statement::FunctionDeclaration { .. } => {},
        Statement::FunctionCall { .. } => {},
        Statement::Assignment { .. } => {},
        Statement::Conditional { .. } => {},
        Statement::ForLoop { .. } => {},
        Statement::WhileLoop { .. } => {},
        Statement::Return(_) => {},
        Statement::Speak(_) => {},
        Statement::MainBlock(_) => {},
    }
}

} // verus!
