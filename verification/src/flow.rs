//! Laws of control flow, for compiled code and for statements run directly:
//! how a `finally` clause combines with the ending of its `try` statement,
//! how an abrupt statement ends its block, and where a method call leaves
//! its receiver.
use vstd::prelude::*;
use crate::value::{ValueModel, InstrModel};
use crate::ast::JsStatement;
use crate::numeric::ReplyModel;
use crate::machine::{WorldModel, CompletionModel};
use crate::vm::{vm_step_try, vm_run, vm_step_named_call, vm_call_method, pop_args, with_scope, StepModel};
use crate::methods::vm_call_global_method;
use crate::scope::{FrameModel, scope_binding, scope_get, scope_set, lemma_set_then_get, lemma_scope_resolve_bounds};
use crate::walk::{tw_try, tw_block_from, tw_exec, tw_eval};
use crate::ast::JsExpression;
use crate::compile::{is_and, is_or};
use crate::ops::truthy;

verus! {

/// In compiled code, a `finally` clause runs after the `try` and `catch`
/// clauses, in the state they left. When it completes normally, the `try`
/// statement goes on exactly as it would without the clause; when it ends by
/// `return` or `throw`, that ending replaces whatever the `try` and `catch`
/// clauses ended with.
pub proof fn law_finally_in_compiled_code(
    try_program: Seq<InstrModel>,
    catch_param: Option<Seq<char>>,
    catch_program: Option<Seq<InstrModel>>,
    finally_program: Seq<InstrModel>,
    ip: nat,
    this: Option<nat>,
    fuel: nat,
    stack: Seq<ValueModel>,
    last: ValueModel,
    w: WorldModel,
    tape: Seq<ReplyModel>,
)
    ensures
        ({
            let with = vm_step_try(try_program, catch_param, catch_program, Some(finally_program), ip, this, fuel, stack, last, w, tape);
            match vm_step_try(try_program, catch_param, catch_program, None, ip, this, fuel, stack, last, w, tape) {
                Err(h) => with == Err::<(WorldModel, StepModel), _>(h),
                Ok((w2, step)) => match vm_run(finally_program, this, fuel, w2, tape) {
                    Err(h) => with == Err::<(WorldModel, StepModel), _>(h),
                    Ok((w3, CompletionModel::Normal(_))) => with == Ok::<_, crate::machine::HaltModel>((w3, step)),
                    Ok((w3, ending)) => with == Ok::<_, crate::machine::HaltModel>((w3, StepModel::Done(ending))),
                },
            }
        }),
{
}

/// Run directly, a `finally` block runs after the `try` and `catch` blocks,
/// in the state they left. When it completes normally, the statement ends as
/// it would without the block; when it ends by `return` or `throw`, that
/// ending replaces whatever the `try` and `catch` blocks ended with.
pub proof fn law_finally_in_statements(
    try_block: Vec<JsStatement>,
    catch_param: Option<String>,
    catch_block: Option<Vec<JsStatement>>,
    finally_block: Vec<JsStatement>,
    this: Option<nat>,
    fuel: nat,
    w: WorldModel,
    tape: Seq<ReplyModel>,
)
    ensures
        ({
            let with = JsStatement::TryCatchFinally { try_block, catch_param, catch_block, finally_block: Some(finally_block) };
            let without = JsStatement::TryCatchFinally { try_block, catch_param, catch_block, finally_block: None };
            match tw_try(without, this, fuel, w, tape) {
                Err(h) => tw_try(with, this, fuel, w, tape) == Err::<(WorldModel, CompletionModel), _>(h),
                Ok((w2, ending)) => match tw_block_from(finally_block@, 0, ValueModel::Undefined, this, fuel, w2, tape) {
                    Err(h) => tw_try(with, this, fuel, w, tape) == Err::<(WorldModel, CompletionModel), _>(h),
                    Ok((w3, CompletionModel::Normal(_))) => tw_try(with, this, fuel, w, tape) == Ok::<_, crate::machine::HaltModel>((w3, ending)),
                    Ok((w3, f)) => tw_try(with, this, fuel, w, tape) == Ok::<_, crate::machine::HaltModel>((w3, f)),
                },
            }
        }),
{
}

/// A statement that ends by `return` or `throw` ends its block the same way:
/// the statements after it do not run, whatever they are.
pub proof fn law_abrupt_statement_ends_block(
    stmts: Seq<JsStatement>,
    k: nat,
    rest: Seq<JsStatement>,
    result: ValueModel,
    this: Option<nat>,
    fuel: nat,
    w: WorldModel,
    tape: Seq<ReplyModel>,
)
    requires
        k < stmts.len(),
        tw_exec(stmts[k as int], this, fuel, w, tape) matches Ok((_, c)) && !(c is Normal),
    ensures
        tw_block_from(stmts, k, result, this, fuel, w, tape) == tw_exec(stmts[k as int], this, fuel, w, tape),
        tw_block_from(stmts.take((k + 1) as int) + rest, k, result, this, fuel, w, tape) == tw_exec(stmts[k as int], this, fuel, w, tape),
{
    assert((stmts.take((k + 1) as int) + rest)[k as int] == stmts[k as int]);
}

/// A method call on a named object that is not one of the global objects
/// stores the receiver, as the method left it, back under the name: the next
/// lookup of the name gives the updated receiver, unless a `const`
/// declaration binds the name, which then keeps its value. The call's result
/// replaces the arguments on the stack.
#[verifier::spinoff_prover]
pub proof fn law_method_call_stores_receiver(
    object_name: Seq<char>,
    method: Seq<char>,
    n: nat,
    ip: nat,
    fuel: nat,
    stack: Seq<ValueModel>,
    last: ValueModel,
    w: WorldModel,
    tape: Seq<ReplyModel>,
    w1: WorldModel,
    w2: WorldModel,
    result: ValueModel,
    updated: ValueModel,
)
    requires
        vm_call_global_method(object_name, method, pop_args(stack, n).1, w, tape) == Ok::<_, crate::machine::HaltModel>((w1, None::<ValueModel>)),
        vm_call_method(
            match scope_get(w1.scope, object_name) {
                Some(v) => v,
                None => ValueModel::Undefined,
            },
            method,
            pop_args(stack, n).1,
            fuel,
            w1,
            tape,
        ) == Ok::<_, crate::machine::HaltModel>((w2, (result, updated))),
    ensures
        vm_step_named_call(object_name, method, n, ip, fuel, stack, last, w, tape) matches Ok((w3, StepModel::Next(ip3, s3, l3)))
            && ip3 == ip + 1 && s3 == pop_args(stack, n).0.push(result) && l3 == last
            && match scope_binding(w2.scope, object_name) {
                Some((v, false)) => scope_get(w3.scope, object_name) == Some(v),
                _ => scope_get(w3.scope, object_name) == Some(updated),
            },
{
    lemma_store_under_name(w2.scope, object_name, updated);
    let s1 = pop_args(stack, n).0;
    assert(vm_step_named_call(object_name, method, n, ip, fuel, stack, last, w, tape) == Ok::<_, crate::machine::HaltModel>((
        with_scope(w2, scope_set(w2.scope, object_name, updated).0),
        StepModel::Next(ip + 1, s1.push(result), last),
    )));
}

/// Assigning to a name: the next lookup gives the new value, unless a
/// `const` declaration binds the name, which then keeps its value.
proof fn lemma_store_under_name(scopes: Seq<FrameModel>, name: Seq<char>, value: ValueModel)
    ensures
        match scope_binding(scopes, name) {
            Some((v, false)) => scope_get(scope_set(scopes, name, value).0, name) == Some(v),
            _ => scope_get(scope_set(scopes, name, value).0, name) == Some(value),
        },
{
    lemma_set_then_get(scopes, name, value);
    lemma_scope_resolve_bounds(scopes, name);
}

/// `a && b` and `a || b` evaluate `b` only when they must. When the value
/// of `a` decides (falsy for `&&`, truthy for `||`), that value is the
/// result, in the state `a` left, and `b` does not run; otherwise the result
/// is what `b` gives, evaluated once, after `a`.
#[verifier::spinoff_prover]
pub proof fn law_short_circuit(left: JsExpression, op: String, right: JsExpression, this: Option<nat>, fuel: nat, w: WorldModel, tape: Seq<ReplyModel>)
    requires
        is_and(op@) || is_or(op@),
    ensures
        ({
            let e = JsExpression::LogicalOp(Box::new(left), op, Box::new(right));
            match tw_eval(left, this, fuel, w, tape) {
                Err(h) => tw_eval(e, this, fuel, w, tape) == Err::<(WorldModel, ValueModel), _>(h),
                Ok((w1, a)) => if (is_and(op@) && !truthy(a)) || (is_or(op@) && truthy(a)) {
                    tw_eval(e, this, fuel, w, tape) == Ok::<_, crate::machine::HaltModel>((w1, a))
                } else {
                    tw_eval(e, this, fuel, w, tape) == tw_eval(right, this, fuel, w1, tape)
                },
            }
        }),
{
    let e = JsExpression::LogicalOp(Box::new(left), op, Box::new(right));
    assert(tw_eval(e, this, fuel, w, tape) == match tw_eval(left, this, fuel, w, tape) {
        Err(h) => Err(h),
        Ok((w1, a)) => if is_and(op@) {
            if truthy(a) { tw_eval(right, this, fuel, w1, tape) } else { Ok((w1, a)) }
        } else if is_or(op@) {
            if truthy(a) { Ok((w1, a)) } else { tw_eval(right, this, fuel, w1, tape) }
        } else {
            Ok((w1, ValueModel::Undefined))
        },
    });
}

} // verus!
