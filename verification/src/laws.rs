//! The laws of the evaluator, stated over the ghost semantics and proved
//! once and for all. The evaluator's own contracts pin it to that
//! semantics, so each law carries over to every run.

use vstd::prelude::*;
use crate::ast::{BinaryOperator, ExprM, StmtM, ValueM, FlowM};
use crate::error::ErrM;
use crate::semantics::{
    StateM, FnsM, apply_binary_m, exec_stmt_m, exec_stmts_m, call_fn_m, bind_args_m, interp_m,
    snapshot_m, restore_m,
};

verus! {

/// Whether two runtime values are of the same kind.
pub open spec fn same_kind_m(l: ValueM, r: ValueM) -> bool {
    match (l, r) {
        (ValueM::Str(_), ValueM::Str(_)) => true,
        (ValueM::Int(_), ValueM::Int(_)) => true,
        (ValueM::Bool(_), ValueM::Bool(_)) => true,
        (ValueM::Ch(_), ValueM::Ch(_)) => true,
        (ValueM::Void, ValueM::Void) => true,
        _ => false,
    }
}

/// Interpretation is deterministic: two runs of the same program from equal
/// states — the supplied input lines included — with the same budget leave
/// identical states, the output stream included, and identical results.
pub proof fn lemma_interpret_deterministic(
    fuel: nat,
    prog1: Seq<StmtM>,
    prog2: Seq<StmtM>,
    st1: StateM,
    st2: StateM,
)
    requires
        prog1 == prog2,
        st1 == st2,
    ensures
        interp_m(fuel, prog1, st1) == interp_m(fuel, prog2, st2),
{
}

/// Assigning to an undeclared name always fails with the undefined-variable
/// error naming it, whatever the assigned expression and whatever the kind
/// of its value, and leaves the state unchanged.
pub proof fn lemma_assign_undeclared(
    fuel: nat,
    fns: FnsM,
    st: StateM,
    name: Seq<char>,
    value: ExprM,
)
    requires
        !st.vars.contains_key(name),
    ensures
        exec_stmt_m(fuel, fns, st, StmtM::Assign { name, value }) == (
            st,
            Result::<FlowM, ErrM>::Err(ErrM::UndefVar(name)),
        ),
{
}

/// Calling a declared function with the wrong argument count always fails
/// with the argument-mismatch error, whatever the argument expressions
/// would evaluate to, and leaves the state unchanged.
pub proof fn lemma_call_arity_mismatch(
    fuel: nat,
    fns: FnsM,
    st: StateM,
    name: Seq<char>,
    args: Seq<ExprM>,
)
    requires
        fns.contains_key(name),
        args.len() != fns[name].0.len(),
    ensures
        call_fn_m(fuel, fns, st, name, args) == (
            st,
            Result::<ValueM, ErrM>::Err(ErrM::ArgMismatch),
        ),
{
}

/// What restoration does: every snapshotted parameter name is put back to
/// its pre-call value or absence; every other name keeps whatever the call
/// body left it with.
proof fn lemma_restore_agrees(
    v: Map<Seq<char>, ValueM>,
    vb: Map<Seq<char>, ValueM>,
    params: Seq<Seq<char>>,
)
    ensures
        forall|p: Seq<char>|
            params.contains(p) ==> {
                let restored = restore_m(v, snapshot_m(vb, params));
                restored.contains_key(p) == vb.contains_key(p) && (vb.contains_key(p)
                    ==> restored[p] == vb[p])
            },
        forall|q: Seq<char>|
            !params.contains(q) ==> {
                let restored = restore_m(v, snapshot_m(vb, params));
                restored.contains_key(q) == v.contains_key(q) && (v.contains_key(q)
                    ==> restored[q] == v[q])
            },
    decreases params.len(),
{
    if params.len() == 0 {
    } else {
        let snap = snapshot_m(vb, params);
        let stepped = match snap[0].1 {
            Some(val) => v.insert(snap[0].0, val),
            None => v.remove(snap[0].0),
        };
        assert(snap.drop_first() =~= snapshot_m(vb, params.drop_first()));
        lemma_restore_agrees(stepped, vb, params.drop_first());
        assert forall|p: Seq<char>| params.contains(p) implies {
            let restored = restore_m(v, snapshot_m(vb, params));
            restored.contains_key(p) == vb.contains_key(p) && (vb.contains_key(p) ==> restored[p]
                == vb[p])
        } by {
            if params.drop_first().contains(p) {
            } else {
                assert(p == params[0]) by {
                    let j = choose|j: int| 0 <= j < params.len() && params[j] == p;
                    if j != 0 {
                        assert(params.drop_first()[j - 1] == p);
                    }
                }
                assert(stepped.contains_key(p) == vb.contains_key(p) && (vb.contains_key(p)
                    ==> stepped[p] == vb[p]));
            }
        }
        assert forall|q: Seq<char>| !params.contains(q) implies {
            let restored = restore_m(v, snapshot_m(vb, params));
            restored.contains_key(q) == v.contains_key(q) && (v.contains_key(q) ==> restored[q]
                == v[q])
        } by {
            assert(q != params[0]);
            assert(!params.drop_first().contains(q)) by {
                if params.drop_first().contains(q) {
                    let j = choose|j: int|
                        0 <= j < params.drop_first().len() && params.drop_first()[j] == q;
                    assert(params[j + 1] == q);
                }
            }
        }
    }
}

/// After a function call returns (normally or by an explicit return), every
/// one of its parameter names is restored to its pre-call value or absence,
/// while every other name holds exactly what the body's execution left it
/// with: non-parameter mutations persist.
pub proof fn lemma_call_restores_parameters(
    fuel: nat,
    fns: FnsM,
    st: StateM,
    name: Seq<char>,
    args: Seq<ExprM>,
)
    requires
        fns.contains_key(name),
        args.len() == fns[name].0.len(),
        call_fn_m(fuel, fns, st, name, args).1 is Ok,
    ensures
        ({
            let params = fns[name].0;
            let bound = bind_args_m(fuel, fns, st, params, args).0;
            let after_body = exec_stmts_m((fuel - 1) as nat, fns, bound, fns[name].1).0;
            let result = call_fn_m(fuel, fns, st, name, args).0;
            &&& forall|p: Seq<char>|
                params.contains(p) ==> result.vars.contains_key(p) == st.vars.contains_key(p) && (
                st.vars.contains_key(p) ==> result.vars[p] == st.vars[p])
            &&& forall|q: Seq<char>|
                !params.contains(q) ==> result.vars.contains_key(q)
                    == after_body.vars.contains_key(q) && (after_body.vars.contains_key(q)
                    ==> result.vars[q] == after_body.vars[q])
            &&& result.output == after_body.output
            &&& result.input == after_body.input
        }),
{
    let params = fns[name].0;
    let (bound, br) = bind_args_m(fuel, fns, st, params, args);
    assert(br is Ok);
    assert(fuel != 0);
    lemma_restore_agrees(
        exec_stmts_m((fuel - 1) as nat, fns, bound, fns[name].1).0.vars,
        st.vars,
        params,
    );
}

/// A division whose right operand is the integer zero always fails with the
/// division-by-zero error, whatever the left operand.
pub proof fn lemma_division_by_zero(l: ValueM)
    ensures
        apply_binary_m(BinaryOperator::Divide, l, ValueM::Int(0)) == Result::<ValueM, ErrM>::Err(
            ErrM::DivZero,
        ),
{
}

/// Equality and inequality between any two values always evaluate, never
/// error; between values of different kinds they yield false and true.
pub proof fn lemma_cross_kind_equality(l: ValueM, r: ValueM)
    ensures
        apply_binary_m(BinaryOperator::Equal, l, r) == Result::<ValueM, ErrM>::Ok(
            ValueM::Bool(l == r),
        ),
        apply_binary_m(BinaryOperator::NotEqual, l, r) == Result::<ValueM, ErrM>::Ok(
            ValueM::Bool(!(l == r)),
        ),
        !same_kind_m(l, r) ==> apply_binary_m(BinaryOperator::Equal, l, r) == Result::<
            ValueM,
            ErrM,
        >::Ok(ValueM::Bool(false)),
        !same_kind_m(l, r) ==> apply_binary_m(BinaryOperator::NotEqual, l, r) == Result::<
            ValueM,
            ErrM,
        >::Ok(ValueM::Bool(true)),
{
}

} // verus!

