//! The definitional semantics of the language, as ghost functions over the
//! ghost counterparts of the tree: what every statement and expression does
//! to the interpreter state, which value every operator yields, and which
//! error each malformed combination raises.
//!
//! Execution is given a budget (`fuel`): one unit is spent on each function
//! call and on each conditional-loop iteration, so that the semantics is a
//! total function. A run that exhausts the budget fails with a runtime
//! error; the executable evaluator spends its budget in exactly the same
//! places.

use vstd::prelude::*;
use crate::ast::{BinaryOperator, UnaryOperator, LitM, ExprM, StmtM, ValueM, FlowM};
use crate::error::ErrM;
use crate::text::{trim_m, render_m};
use vstd::wrapping::i64_specs;

verus! {

/// The mutable state of one interpretation run: the global variable table,
/// everything written so far, and the input lines not yet consumed.
pub struct StateM {
    pub vars: Map<Seq<char>, ValueM>,
    pub output: Seq<char>,
    pub input: Seq<Seq<char>>,
}

/// The function table: name to parameter names and body. Registered once
/// before execution; never changed by execution.
pub type FnsM = Map<Seq<char>, (Seq<Seq<char>>, Seq<StmtM>)>;

/// The name of a value's kind, as error messages report it.
pub open spec fn kind_name_m(v: ValueM) -> Seq<char> {
    match v {
        ValueM::Int(_) => "integer"@,
        ValueM::Str(_) => "string"@,
        ValueM::Bool(_) => "boolean"@,
        ValueM::Ch(_) => "char"@,
        ValueM::Void => "void"@,
    }
}

/// The name of a binary operator, as error messages report it.
pub open spec fn op_name_m(op: BinaryOperator) -> Seq<char> {
    match op {
        BinaryOperator::Add => "Add"@,
        BinaryOperator::Subtract => "Subtract"@,
        BinaryOperator::Multiply => "Multiply"@,
        BinaryOperator::Divide => "Divide"@,
        BinaryOperator::Greater => "Greater"@,
        BinaryOperator::Less => "Less"@,
        BinaryOperator::Equal => "Equal"@,
        BinaryOperator::NotEqual => "NotEqual"@,
    }
}

/// The name of a unary operator, as error messages report it.
pub open spec fn unop_name_m(op: UnaryOperator) -> Seq<char> {
    match op {
        UnaryOperator::Minus => "Minus"@,
        UnaryOperator::Not => "Not"@,
    }
}

/// The error raised when the execution budget runs out.
pub open spec fn budget_err() -> ErrM {
    ErrM::Runtime("execution budget exhausted"@)
}

/// The fixed prompt an input expression emits before reading.
pub open spec fn prompt_m() -> Seq<char> {
    "Speak your words: "@
}

/// The error raised when an input expression finds no line to read.
pub open spec fn input_err() -> ErrM {
    ErrM::Io("no line of input to read"@)
}

/// The value a literal evaluates to.
pub open spec fn lit_value_m(l: LitM) -> ValueM {
    match l {
        LitM::Str(s) => ValueM::Str(s),
        LitM::Int(i) => ValueM::Int(i),
        LitM::Bool(b) => ValueM::Bool(b),
        LitM::Ch(c) => ValueM::Ch(c),
    }
}

/// Truncating 64-bit division, with the one overflowing quotient wrapped.
pub open spec fn div_trunc_i64(a: i64, b: i64) -> int
    recommends
        b != 0,
{
    let x = a as int;
    let d = b as int;
    if x == 0 {
        0
    } else if x > 0 && d > 0 {
        x / d
    } else if x < 0 && d < 0 {
        (x * -1) / (d * -1)
    } else if x < 0 {
        ((x * -1) / d) * -1
    } else {
        (x / (d * -1)) * -1
    }
}

pub open spec fn wrap_div_i64(a: i64, b: i64) -> i64
    recommends
        b != 0,
{
    if div_trunc_i64(a, b) > i64::MAX {
        i64::MIN
    } else {
        div_trunc_i64(a, b) as i64
    }
}

/// Structural, kind-aware equality of two runtime values. Values of
/// different kinds are unequal, never an error.
pub open spec fn values_eq_m(l: ValueM, r: ValueM) -> bool {
    l == r
}

/// Binary operator dispatch on (operator, left kind, right kind).
/// Arithmetic wraps on 64-bit overflow; a zero right operand of a division
/// is refused before the division itself; equality is a catch-all that
/// never fails; every unlisted combination is an invalid operation.
pub open spec fn apply_binary_m(op: BinaryOperator, l: ValueM, r: ValueM) -> Result<
    ValueM,
    ErrM,
> {
    match (op, l, r) {
        (BinaryOperator::Add, ValueM::Int(a), ValueM::Int(b)) => Ok(
            ValueM::Int(i64_specs::wrapping_add(a, b)),
        ),
        (BinaryOperator::Add, ValueM::Str(a), ValueM::Str(b)) => Ok(ValueM::Str(a + b)),
        (BinaryOperator::Subtract, ValueM::Int(a), ValueM::Int(b)) => Ok(
            ValueM::Int(i64_specs::wrapping_sub(a, b)),
        ),
        (BinaryOperator::Multiply, ValueM::Int(a), ValueM::Int(b)) => Ok(
            ValueM::Int(i64_specs::wrapping_mul(a, b)),
        ),
        (BinaryOperator::Divide, _, ValueM::Int(b)) => if b == 0 {
            Err(ErrM::DivZero)
        } else {
            match l {
                ValueM::Int(a) => Ok(ValueM::Int(wrap_div_i64(a, b))),
                _ => Err(
                    ErrM::InvalidOp {
                        op: op_name_m(op),
                        left_type: kind_name_m(l),
                        right_type: kind_name_m(r),
                    },
                ),
            }
        },
        (BinaryOperator::Greater, ValueM::Int(a), ValueM::Int(b)) => Ok(ValueM::Bool(a > b)),
        (BinaryOperator::Less, ValueM::Int(a), ValueM::Int(b)) => Ok(ValueM::Bool(a < b)),
        (BinaryOperator::Equal, _, _) => Ok(ValueM::Bool(values_eq_m(l, r))),
        (BinaryOperator::NotEqual, _, _) => Ok(ValueM::Bool(!values_eq_m(l, r))),
        _ => Err(
            ErrM::InvalidOp {
                op: op_name_m(op),
                left_type: kind_name_m(l),
                right_type: kind_name_m(r),
            },
        ),
    }
}

/// Unary operator dispatch: numeric negation on an integer (wrapping on the
/// one overflowing operand), logical negation on a boolean; anything else
/// is a parse-style error describing the combination.
pub open spec fn apply_unary_m(op: UnaryOperator, v: ValueM) -> Result<ValueM, ErrM> {
    match (op, v) {
        (UnaryOperator::Minus, ValueM::Int(a)) => Ok(ValueM::Int(i64_specs::wrapping_sub(0, a))),
        (UnaryOperator::Not, ValueM::Bool(b)) => Ok(ValueM::Bool(!b)),
        _ => Err(
            ErrM::Parse(
                "Invalid unary operation: "@ + unop_name_m(op) + " on "@ + kind_name_m(v),
            ),
        ),
    }
}

// ------------------------------------------------------------------
// Structural heights, the second component of the termination measure.
// ------------------------------------------------------------------

pub open spec fn eheight(e: ExprM) -> nat
    decreases e,
{
    match e {
        ExprM::Lit(_) => 1,
        ExprM::Ident(_) => 1,
        ExprM::Input(_) => 1,
        ExprM::Unary { op, operand } => 1 + eheight(*operand),
        ExprM::Binary { left, op, right } => 1 + eheight(*left) + eheight(*right),
        ExprM::Call { name, args } => 3 + eheight_seq(args),
    }
}

pub open spec fn eheight_seq(es: Seq<ExprM>) -> nat
    decreases es,
{
    if es.len() == 0 {
        1
    } else {
        1 + eheight(es[0]) + eheight_seq(es.drop_first())
    }
}

pub open spec fn sheight(s: StmtM) -> nat
    decreases s,
{
    match s {
        StmtM::VarDecl { name, data_type, value } => 1 + eheight(value),
        StmtM::FnDecl { .. } => 1,
        StmtM::Call { name, args } => 3 + eheight_seq(args),
        StmtM::Assign { name, value } => 1 + eheight(value),
        StmtM::If { condition, then_branch, else_branch } => 1 + eheight(condition)
            + sheight_seq(then_branch) + (match else_branch {
            Some(b) => sheight_seq(b),
            None => 0,
        }),
        StmtM::For { count, body } => 2 + sheight_seq(body),
        StmtM::While { condition, body } => 1 + eheight(condition) + sheight_seq(body),
        StmtM::Ret(eo) => 1 + (match eo {
            Some(e) => eheight(e),
            None => 0,
        }),
        StmtM::Speak(e) => 1 + eheight(e),
        StmtM::Main(b) => 1 + sheight_seq(b),
    }
}

pub open spec fn sheight_seq(ss: Seq<StmtM>) -> nat
    decreases ss,
{
    if ss.len() == 0 {
        1
    } else {
        1 + sheight(ss[0]) + sheight_seq(ss.drop_first())
    }
}

// ------------------------------------------------------------------
// Evaluation.
// ------------------------------------------------------------------

/// What an expression evaluates to, and the state it leaves behind.
pub open spec fn eval_expr_m(fuel: nat, fns: FnsM, st: StateM, e: ExprM) -> (StateM, Result<
    ValueM,
    ErrM,
>)
    decreases fuel, eheight(e), 0nat,
{
    match e {
        ExprM::Lit(l) => (st, Ok(lit_value_m(l))),
        ExprM::Ident(name) => if st.vars.contains_key(name) {
            (st, Ok(st.vars[name]))
        } else {
            (st, Err(ErrM::UndefVar(name)))
        },
        ExprM::Binary { left, op, right } => {
            let (st1, lr) = eval_expr_m(fuel, fns, st, *left);
            match lr {
                Ok(lv) => {
                    let (st2, rr) = eval_expr_m(fuel, fns, st1, *right);
                    match rr {
                        Ok(rv) => (st2, apply_binary_m(op, lv, rv)),
                        Err(er) => (st2, Err(er)),
                    }
                },
                Err(er) => (st1, Err(er)),
            }
        },
        ExprM::Unary { op, operand } => {
            let (st1, vr) = eval_expr_m(fuel, fns, st, *operand);
            match vr {
                Ok(v) => (st1, apply_unary_m(op, v)),
                Err(er) => (st1, Err(er)),
            }
        },
        ExprM::Input(_) => {
            let st1 = StateM { output: st.output + prompt_m(), ..st };
            if st1.input.len() > 0 {
                (
                    StateM { input: st1.input.drop_first(), ..st1 },
                    Ok(ValueM::Str(trim_m(st1.input[0]))),
                )
            } else {
                (st1, Err(input_err()))
            }
        },
        ExprM::Call { name, args } => call_fn_m(fuel, fns, st, name, args),
    }
}

/// The snapshot a call takes before binding its parameters: each parameter
/// name with its prior value, or its prior absence.
pub open spec fn snapshot_m(
    vars: Map<Seq<char>, ValueM>,
    params: Seq<Seq<char>>,
) -> Seq<(Seq<char>, Option<ValueM>)> {
    params.map_values(
        |p: Seq<char>|
            (
                p,
                if vars.contains_key(p) {
                    Some(vars[p])
                } else {
                    None
                },
            ),
    )
}

/// Restores every snapshotted name to its prior value, or removes it if it
/// had none.
pub open spec fn restore_m(
    vars: Map<Seq<char>, ValueM>,
    snap: Seq<(Seq<char>, Option<ValueM>)>,
) -> Map<Seq<char>, ValueM>
    decreases snap.len(),
{
    if snap.len() == 0 {
        vars
    } else {
        let stepped = match snap[0].1 {
            Some(v) => vars.insert(snap[0].0, v),
            None => vars.remove(snap[0].0),
        };
        restore_m(stepped, snap.drop_first())
    }
}

/// Binds arguments to parameter names pairwise, left to right, evaluating
/// each argument in the state the previous binding left behind.
pub open spec fn bind_args_m(
    fuel: nat,
    fns: FnsM,
    st: StateM,
    params: Seq<Seq<char>>,
    args: Seq<ExprM>,
) -> (StateM, Result<(), ErrM>)
    recommends
        params.len() == args.len(),
    decreases fuel, 1 + eheight_seq(args), 0nat,
{
    if args.len() == 0 {
        (st, Ok(()))
    } else {
        let (st1, vr) = eval_expr_m(fuel, fns, st, args[0]);
        match vr {
            Err(er) => (st1, Err(er)),
            Ok(v) => bind_args_m(
                fuel,
                fns,
                StateM { vars: st1.vars.insert(params[0], v), ..st1 },
                params.drop_first(),
                args.drop_first(),
            ),
        }
    }
}

/// A function call: the argument count must equal the parameter count
/// exactly; parameters are bound in the one global table (dynamic-scope
/// shadowing); after the body finishes, normally or by a return, every
/// parameter is restored to its snapshot. A body that never returns yields
/// the void value. An error propagates without restoration.
pub open spec fn call_fn_m(
    fuel: nat,
    fns: FnsM,
    st: StateM,
    name: Seq<char>,
    args: Seq<ExprM>,
) -> (StateM, Result<ValueM, ErrM>)
    decreases fuel, 2 + eheight_seq(args), 0nat,
{
    if !fns.contains_key(name) {
        (st, Err(ErrM::UndefFn(name)))
    } else {
        let (params, body) = fns[name];
        if args.len() != params.len() {
            (st, Err(ErrM::ArgMismatch))
        } else {
            let snap = snapshot_m(st.vars, params);
            let (st1, br) = bind_args_m(fuel, fns, st, params, args);
            match br {
                Err(er) => (st1, Err(er)),
                Ok(u) => if fuel == 0 {
                    (st1, Err(budget_err()))
                } else {
                    let (st2, fr) = exec_stmts_m((fuel - 1) as nat, fns, st1, body);
                    match fr {
                        Err(er) => (st2, Err(er)),
                        Ok(flow) => {
                            let st3 = StateM { vars: restore_m(st2.vars, snap), ..st2 };
                            match flow {
                                FlowM::Ret(v) => (st3, Ok(v)),
                                FlowM::Norm => (st3, Ok(ValueM::Void)),
                            }
                        },
                    }
                },
            }
        }
    }
}

/// What one statement does to the state: no signal, a return signal
/// carrying a value, or the first error.
pub open spec fn exec_stmt_m(fuel: nat, fns: FnsM, st: StateM, s: StmtM) -> (StateM, Result<
    FlowM,
    ErrM,
>)
    decreases fuel, sheight(s), 0nat,
{
    match s {
        StmtM::Ret(eo) => match eo {
            Some(e) => {
                let (st1, vr) = eval_expr_m(fuel, fns, st, e);
                match vr {
                    Ok(v) => (st1, Ok(FlowM::Ret(v))),
                    Err(er) => (st1, Err(er)),
                }
            },
            None => (st, Ok(FlowM::Ret(ValueM::Void))),
        },
        StmtM::VarDecl { name, data_type, value } => {
            let (st1, vr) = eval_expr_m(fuel, fns, st, value);
            match vr {
                Ok(v) => (StateM { vars: st1.vars.insert(name, v), ..st1 }, Ok(FlowM::Norm)),
                Err(er) => (st1, Err(er)),
            }
        },
        StmtM::Assign { name, value } => if !st.vars.contains_key(name) {
            (st, Err(ErrM::UndefVar(name)))
        } else {
            let (st1, vr) = eval_expr_m(fuel, fns, st, value);
            match vr {
                Ok(v) => (StateM { vars: st1.vars.insert(name, v), ..st1 }, Ok(FlowM::Norm)),
                Err(er) => (st1, Err(er)),
            }
        },
        StmtM::Call { name, args } => {
            let (st1, vr) = call_fn_m(fuel, fns, st, name, args);
            match vr {
                Ok(v) => (st1, Ok(FlowM::Norm)),
                Err(er) => (st1, Err(er)),
            }
        },
        StmtM::If { condition, then_branch, else_branch } => {
            let (st1, cr) = eval_expr_m(fuel, fns, st, condition);
            match cr {
                Err(er) => (st1, Err(er)),
                Ok(cv) => match cv {
                    ValueM::Bool(b) => if b {
                        exec_stmts_m(fuel, fns, st1, then_branch)
                    } else {
                        match else_branch {
                            Some(eb) => exec_stmts_m(fuel, fns, st1, eb),
                            None => (st1, Ok(FlowM::Norm)),
                        }
                    },
                    _ => (
                        st1,
                        Err(ErrM::Type { expected: "boolean"@, found: kind_name_m(cv) }),
                    ),
                },
            }
        },
        StmtM::For { count, body } => run_for_m(fuel, fns, st, count, body),
        StmtM::While { condition, body } => {
            let (st1, cr) = eval_expr_m(fuel, fns, st, condition);
            match cr {
                Err(er) => (st1, Err(er)),
                Ok(cv) => match cv {
                    ValueM::Bool(b) => if !b {
                        (st1, Ok(FlowM::Norm))
                    } else {
                        let (st2, fr) = exec_stmts_m(fuel, fns, st1, body);
                        match fr {
                            Err(er) => (st2, Err(er)),
                            Ok(FlowM::Ret(v)) => (st2, Ok(FlowM::Ret(v))),
                            Ok(FlowM::Norm) => if fuel == 0 {
                                (st2, Err(budget_err()))
                            } else {
                                exec_stmt_m(
                                    (fuel - 1) as nat,
                                    fns,
                                    st2,
                                    StmtM::While { condition, body },
                                )
                            },
                        }
                    },
                    _ => (
                        st1,
                        Err(ErrM::Type { expected: "boolean"@, found: kind_name_m(cv) }),
                    ),
                },
            }
        },
        StmtM::Speak(e) => {
            let (st1, vr) = eval_expr_m(fuel, fns, st, e);
            match vr {
                Ok(v) => (
                    StateM { output: st1.output + render_m(v) + seq!['\n'], ..st1 },
                    Ok(FlowM::Norm),
                ),
                Err(er) => (st1, Err(er)),
            }
        },
        StmtM::Main(b) => exec_stmts_m(fuel, fns, st, b),
        StmtM::FnDecl { .. } => (st, Ok(FlowM::Norm)),
    }
}

/// Runs a statement list in order until a return signal or an error stops
/// it; the signal propagates unchanged through every nesting level.
pub open spec fn exec_stmts_m(fuel: nat, fns: FnsM, st: StateM, ss: Seq<StmtM>) -> (
    StateM,
    Result<FlowM, ErrM>,
)
    decreases fuel, sheight_seq(ss), 0nat,
{
    if ss.len() == 0 {
        (st, Ok(FlowM::Norm))
    } else {
        let (st1, fr) = exec_stmt_m(fuel, fns, st, ss[0]);
        match fr {
            Err(er) => (st1, Err(er)),
            Ok(FlowM::Ret(v)) => (st1, Ok(FlowM::Ret(v))),
            Ok(FlowM::Norm) => exec_stmts_m(fuel, fns, st1, ss.drop_first()),
        }
    }
}

/// A counted loop runs its body exactly `count` times (zero times for a
/// zero or negative count); a return inside the body aborts it immediately.
pub open spec fn run_for_m(fuel: nat, fns: FnsM, st: StateM, count: i64, body: Seq<StmtM>) -> (
    StateM,
    Result<FlowM, ErrM>,
)
    decreases
        fuel,
        1 + sheight_seq(body),
        (if count >= 1 {
            count as nat
        } else {
            0nat
        }),
{
    if count <= 0 {
        (st, Ok(FlowM::Norm))
    } else {
        let (st1, fr) = exec_stmts_m(fuel, fns, st, body);
        match fr {
            Err(er) => (st1, Err(er)),
            Ok(FlowM::Ret(v)) => (st1, Ok(FlowM::Ret(v))),
            Ok(FlowM::Norm) => run_for_m(fuel, fns, st1, (count - 1) as i64, body),
        }
    }
}

/// Collects every top-level function declaration, in source order; a later
/// declaration of the same name silently overwrites an earlier one.
pub open spec fn register_funcs_m(ss: Seq<StmtM>) -> FnsM
    decreases ss,
{
    if ss.len() == 0 {
        Map::empty()
    } else {
        let m = register_funcs_m(ss.drop_last());
        match ss.last() {
            StmtM::FnDecl { name, params, body } => m.insert(name, (params, body)),
            _ => m,
        }
    }
}

/// The second pass of interpretation, over the top-level statements in
/// source order: a main block runs its statements through the ordinary
/// executor, and a return signal reaching its top ends that block early
/// without error; function declarations are skipped; any other statement
/// executes directly, and a return signal reaching the top of the list
/// ends the run early without error.
pub open spec fn run_toplevel_m(fuel: nat, fns: FnsM, st: StateM, ss: Seq<StmtM>) -> (
    StateM,
    Result<(), ErrM>,
)
    decreases fuel, 1 + sheight_seq(ss), 0nat,
{
    if ss.len() == 0 {
        (st, Ok(()))
    } else {
        match ss[0] {
            StmtM::FnDecl { .. } => run_toplevel_m(fuel, fns, st, ss.drop_first()),
            StmtM::Main(b) => {
                let (st1, fr) = exec_stmts_m(fuel, fns, st, b);
                match fr {
                    Err(er) => (st1, Err(er)),
                    Ok(flow) => run_toplevel_m(fuel, fns, st1, ss.drop_first()),
                }
            },
            _ => {
                let (st1, fr) = exec_stmt_m(fuel, fns, st, ss[0]);
                match fr {
                    Err(er) => (st1, Err(er)),
                    Ok(FlowM::Ret(v)) => (st1, Ok(())),
                    Ok(FlowM::Norm) => run_toplevel_m(fuel, fns, st1, ss.drop_first()),
                }
            },
        }
    }
}

/// One whole interpretation run over a program: register every function
/// declaration, then execute the top-level statements in source order.
pub open spec fn interp_m(fuel: nat, prog: Seq<StmtM>, st: StateM) -> (StateM, Result<
    (),
    ErrM,
>) {
    run_toplevel_m(fuel, register_funcs_m(prog), st, prog)
}

} // verus!
