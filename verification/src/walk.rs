//! Direct evaluation of statements and expressions, without compiling them.
//!
//! Functions are always run by the stack machine: a function value holds
//! compiled code. Each turn of a loop costs one step of the budget.
use vstd::prelude::*;
use crate::ast::{JsStatement, JsExpression};
use crate::value::{
    JsValue, JsDeclarationKind, ValueModel, values_model, clone_value, lemma_values_model_len,
    lemma_values_model_index,
};
use crate::scope::{scope_get, scope_set, scope_define};
use crate::numeric::{NumericReply, ReplyModel, replies_model};
use crate::machine::{Machine, Halt, HaltModel, WorldModel, Outcome, Completion, CompletionModel, agrees_value, agrees_completion};
use crate::ops::{truthy, property_value, vm_get_index, vm_set_property, vm_set_index, to_bool, get_property};
use crate::compile::{binary_operator, unary_operator, is_and, is_or, classify_binary, classify_unary};
use crate::builtins::{global_value, vm_call_global, global_property};
use crate::methods::vm_call_global_method;
use crate::vm::{
    this_value, this_index, with_scope, lemma_values_model_update, scope_truncate, object_from, vm_binary, vm_unary, vm_call_function,
    vm_call_method,
};
use crate::text::is_text2;

verus! {

// ---------------------------------------------------------------------------
// Expressions
// ---------------------------------------------------------------------------

/// The value of an expression.
pub open spec fn tw_eval(e: JsExpression, this: Option<nat>, fuel: nat, w: WorldModel, tape: Seq<ReplyModel>) -> Outcome<ValueModel>
    decreases e, 0int,
{
    match e {
        JsExpression::Literal(v) => Ok((w, v@)),
        JsExpression::Identifier(name) => Ok((w, match global_value(name@) {
            Some(g) => g,
            None => match scope_get(w.scope, name@) {
                Some(x) => x,
                None => ValueModel::Undefined,
            },
        })),
        JsExpression::This => Ok((w, this_value(w, this))),
        JsExpression::BinaryOp(l, op, r) => match tw_eval(*l, this, fuel, w, tape) {
            Err(h) => Err(h),
            Ok((w1, a)) => match tw_eval(*r, this, fuel, w1, tape) {
                Err(h) => Err(h),
                Ok((w2, b)) => vm_binary(binary_operator(op@), a, b, w2, tape),
            },
        },
        JsExpression::UnaryOp(op, x) => match tw_eval(*x, this, fuel, w, tape) {
            Err(h) => Err(h),
            Ok((w1, v)) => vm_unary(unary_operator(op@), v, w1, tape),
        },
        JsExpression::LogicalOp(l, op, r) => match tw_eval(*l, this, fuel, w, tape) {
            Err(h) => Err(h),
            Ok((w1, a)) => if is_and(op@) {
                if truthy(a) { tw_eval(*r, this, fuel, w1, tape) } else { Ok((w1, a)) }
            } else if is_or(op@) {
                if truthy(a) { Ok((w1, a)) } else { tw_eval(*r, this, fuel, w1, tape) }
            } else {
                Ok((w1, ValueModel::Undefined))
            },
        },
        JsExpression::Call(name, args) => match tw_args_from(args@, 0, Seq::empty(), this, fuel, w, tape) {
            Err(h) => Err(h),
            Ok((w1, vs)) => match vm_call_global(name@, vs, w1, tape) {
                Err(h) => Err(h),
                Ok((w2, Some(v))) => Ok((w2, v)),
                Ok((w2, None)) => match scope_get(w2.scope, name@) {
                    Some(ValueModel::Function(f)) => vm_call_function(f, vs, this, fuel, w2, tape),
                    _ => Ok((w2, ValueModel::Undefined)),
                },
            },
        },
        JsExpression::MemberAccess(obj, member) => match tw_eval(*obj, this, fuel, w, tape) {
            Err(h) => Err(h),
            Ok((w1, o)) => Ok((w1, property_value(o, member@))),
        },
        JsExpression::IndexAccess(obj, index) => match tw_eval(*obj, this, fuel, w, tape) {
            Err(h) => Err(h),
            Ok((w1, o)) => match tw_eval(*index, this, fuel, w1, tape) {
                Err(h) => Err(h),
                Ok((w2, i)) => vm_get_index(o, i, w2, tape),
            },
        },
        JsExpression::MethodCall { object, method, args } => match tw_eval(*object, this, fuel, w, tape) {
            Err(h) => Err(h),
            Ok((w1, o)) => match tw_args_from(args@, 0, Seq::empty(), this, fuel, w1, tape) {
                Err(h) => Err(h),
                Ok((w2, vs)) => {
                    let global = match *object {
                        JsExpression::Identifier(name) => vm_call_global_method(name@, method@, vs, w2, tape),
                        _ => Ok((w2, None)),
                    };
                    match global {
                        Err(h) => Err(h),
                        Ok((w3, Some(v))) => Ok((w3, v)),
                        Ok((w3, None)) => match vm_call_method(o, method@, vs, fuel, w3, tape) {
                            Err(h) => Err(h),
                            Ok((w4, (res, updated))) => match *object {
                                JsExpression::Identifier(name) => Ok((with_scope(w4, scope_set(w4.scope, name@, updated).0), res)),
                                _ => Ok((w4, res)),
                            },
                        },
                    }
                },
            },
        },
        JsExpression::ObjectLiteral(props) => match tw_props_from(props@, 0, Seq::empty(), this, fuel, w, tape) {
            Err(h) => Err(h),
            Ok((w1, vs)) => Ok((w1, ValueModel::Object(object_from(props@.map_values(|p: (String, JsExpression)| p.0@), vs)))),
        },
        JsExpression::ArrayLiteral(elems) => match tw_args_from(elems@, 0, Seq::empty(), this, fuel, w, tape) {
            Err(h) => Err(h),
            Ok((w1, vs)) => Ok((w1, ValueModel::Array(vs))),
        },
        JsExpression::Assignment(name, x) => match tw_eval(*x, this, fuel, w, tape) {
            Err(h) => Err(h),
            Ok((w1, v)) => Ok((with_scope(w1, scope_set(w1.scope, name@, v).0), v)),
        },
        JsExpression::MemberAssignment(target, member, x) => match tw_eval(*x, this, fuel, w, tape) {
            Err(h) => Err(h),
            Ok((w1, v)) => match *target {
                JsExpression::This => match tw_this_assign(member@, v, this, w1, tape) {
                    Err(h) => Err(h),
                    Ok((w2, _)) => Ok((w2, v)),
                },
                JsExpression::Identifier(name) => match tw_named_assign(name@, member@, v, w1, tape) {
                    Err(h) => Err(h),
                    Ok((w2, _)) => Ok((w2, v)),
                },
                _ => match tw_eval(*target, this, fuel, w1, tape) {
                    Err(h) => Err(h),
                    Ok((w2, t)) => match vm_set_property(t, member@, v, w2, tape) {
                        Err(h) => Err(h),
                        Ok((w3, _)) => Ok((w3, v)),
                    },
                },
            },
        },
        JsExpression::IndexAssignment(target, index, x) => match tw_eval(*x, this, fuel, w, tape) {
            Err(h) => Err(h),
            Ok((w1, v)) => match tw_eval(*index, this, fuel, w1, tape) {
                Err(h) => Err(h),
                Ok((w2, i)) => match *target {
                    JsExpression::Identifier(name) => match tw_named_index_assign(name@, i, v, w2, tape) {
                        Err(h) => Err(h),
                        Ok((w3, _)) => Ok((w3, v)),
                    },
                    _ => match tw_eval(*target, this, fuel, w2, tape) {
                        Err(h) => Err(h),
                        Ok((w3, t)) => match vm_set_index(t, i, v, w3, tape) {
                            Err(h) => Err(h),
                            Ok((w4, _)) => Ok((w4, v)),
                        },
                    },
                },
            },
        },
    }
}

/// The values of expressions from position `k` on, from left to right.
pub open spec fn tw_args_from(
    args: Seq<JsExpression>,
    k: nat,
    acc: Seq<ValueModel>,
    this: Option<nat>,
    fuel: nat,
    w: WorldModel,
    tape: Seq<ReplyModel>,
) -> Outcome<Seq<ValueModel>>
    decreases args, args.len() - k,
{
    if k >= args.len() {
        Ok((w, acc))
    } else {
        match tw_eval(args[k as int], this, fuel, w, tape) {
            Err(h) => Err(h),
            Ok((w1, v)) => tw_args_from(args, k + 1, acc.push(v), this, fuel, w1, tape),
        }
    }
}

/// The values of an object literal's properties from position `k` on.
pub open spec fn tw_props_from(
    props: Seq<(String, JsExpression)>,
    k: nat,
    acc: Seq<ValueModel>,
    this: Option<nat>,
    fuel: nat,
    w: WorldModel,
    tape: Seq<ReplyModel>,
) -> Outcome<Seq<ValueModel>>
    decreases props, props.len() - k,
{
    if k >= props.len() {
        Ok((w, acc))
    } else {
        match tw_eval(props[k as int].1, this, fuel, w, tape) {
            Err(h) => Err(h),
            Ok((w1, v)) => tw_props_from(props, k + 1, acc.push(v), this, fuel, w1, tape),
        }
    }
}

// ---------------------------------------------------------------------------
// Statements
// ---------------------------------------------------------------------------

/// `this.member = v`: the `this` cell is updated, when there is one.
pub open spec fn tw_this_assign(member: Seq<char>, v: ValueModel, this: Option<nat>, w: WorldModel, tape: Seq<ReplyModel>) -> Outcome<()> {
    match this {
        Some(i) => if i < w.this_cells.len() {
            match vm_set_property(w.this_cells[i as int], member, v, w, tape) {
                Err(h) => Err(h),
                Ok((w1, (obj, _))) => Ok((WorldModel { this_cells: w1.this_cells.update(i as int, obj), ..w1 }, ())),
            }
        } else {
            Ok((w, ()))
        },
        None => Ok((w, ())),
    }
}

/// `name[index] = v`: the value the name is bound to is updated and stored back.
pub open spec fn tw_named_index_assign(name: Seq<char>, index: ValueModel, v: ValueModel, w: WorldModel, tape: Seq<ReplyModel>) -> Outcome<()> {
    match scope_get(w.scope, name) {
        Some(obj) => match vm_set_index(obj, index, v, w, tape) {
            Err(h) => Err(h),
            Ok((w1, obj2)) => Ok((with_scope(w1, scope_set(w1.scope, name, obj2).0), ())),
        },
        None => Ok((w, ())),
    }
}

/// `target.member = v` once `v` is known: on `this`, on the object a name
/// is bound to (which is then assigned the changed object), or on a
/// computed value (the change is then lost).
pub open spec fn tw_member_assign(target: JsExpression, member: Seq<char>, v: ValueModel, this: Option<nat>, fuel: nat, w: WorldModel, tape: Seq<ReplyModel>) -> Outcome<()> {
    match target {
        JsExpression::This => tw_this_assign(member, v, this, w, tape),
        JsExpression::Identifier(name) => tw_named_assign(name@, member, v, w, tape),
        _ => match tw_eval(target, this, fuel, w, tape) {
            Err(h) => Err(h),
            Ok((w1, t)) => match vm_set_property(t, member, v, w1, tape) {
                Err(h) => Err(h),
                Ok((w2, _)) => Ok((w2, ())),
            },
        },
    }
}

/// Sets a property of the object bound to `name`, then assigns the changed object to `name`.
pub open spec fn tw_named_assign(name: Seq<char>, key: Seq<char>, v: ValueModel, w: WorldModel, tape: Seq<ReplyModel>) -> Outcome<()> {
    match scope_get(w.scope, name) {
        Some(obj) => match vm_set_property(obj, key, v, w, tape) {
            Err(h) => Err(h),
            Ok((w1, (obj2, _))) => Ok((with_scope(w1, scope_set(w1.scope, name, obj2).0), ())),
        },
        None => Ok((w, ())),
    }
}

/// `target[index] = v` once `v` and the index are known: an array is
/// written at the index, an object at the key the index names, on the value
/// a name is bound to (which is stored back) or on a computed value.
pub open spec fn tw_index_assign(target: JsExpression, index: ValueModel, v: ValueModel, this: Option<nat>, fuel: nat, w: WorldModel, tape: Seq<ReplyModel>) -> Outcome<()> {
    match target {
        JsExpression::Identifier(name) => tw_named_index_assign(name@, index, v, w, tape),
        _ => match tw_eval(target, this, fuel, w, tape) {
            Err(h) => Err(h),
            Ok((w1, t)) => match vm_set_index(t, index, v, w1, tape) {
                Err(h) => Err(h),
                Ok((w2, _)) => Ok((w2, ())),
            },
        },
    }
}

/// An expression's value as a normal completion.
pub open spec fn normal_of(out: Outcome<ValueModel>) -> Outcome<CompletionModel> {
    match out {
        Err(h) => Err(h),
        Ok((w, v)) => Ok((w, CompletionModel::Normal(v))),
    }
}

/// The completion of a statement.
pub open spec fn tw_exec(s: JsStatement, this: Option<nat>, fuel: nat, w: WorldModel, tape: Seq<ReplyModel>) -> Outcome<CompletionModel>
    decreases fuel, s, 2int,
{
    match s {
        JsStatement::Expression(e) => normal_of(tw_eval(e, this, fuel, w, tape)),
        JsStatement::Assignment(name, e) => match tw_eval(e, this, fuel, w, tape) {
            Err(h) => Err(h),
            Ok((w1, v)) => Ok((with_scope(w1, scope_set(w1.scope, name@, v).0), CompletionModel::Normal(v))),
        },
        JsStatement::Declaration { kind, name, expr } => match tw_eval(expr, this, fuel, w, tape) {
            Err(h) => Err(h),
            Ok((w1, v)) => Ok((with_scope(w1, scope_define(w1.scope, name@, v, kind)), CompletionModel::Normal(v))),
        },
        JsStatement::MemberAssignment(target, member, e) => match tw_eval(e, this, fuel, w, tape) {
            Err(h) => Err(h),
            Ok((w1, v)) => match tw_member_assign(target, member@, v, this, fuel, w1, tape) {
                Err(h) => Err(h),
                Ok((w2, _)) => Ok((w2, CompletionModel::Normal(v))),
            },
        },
        JsStatement::IndexAssignment(target, index, e) => match tw_eval(e, this, fuel, w, tape) {
            Err(h) => Err(h),
            Ok((w1, v)) => match tw_eval(index, this, fuel, w1, tape) {
                Err(h) => Err(h),
                Ok((w2, i)) => match tw_index_assign(target, i, v, this, fuel, w2, tape) {
                    Err(h) => Err(h),
                    Ok((w3, _)) => Ok((w3, CompletionModel::Normal(v))),
                },
            },
        },
        JsStatement::Return(opt) => match opt {
            Some(e) => match tw_eval(e, this, fuel, w, tape) {
                Err(h) => Err(h),
                Ok((w1, v)) => Ok((w1, CompletionModel::Return(v))),
            },
            None => Ok((w, CompletionModel::Return(ValueModel::Undefined))),
        },
        JsStatement::Throw(e) => match tw_eval(e, this, fuel, w, tape) {
            Err(h) => Err(h),
            Ok((w1, v)) => Ok((w1, CompletionModel::Throw(v))),
        },
        JsStatement::IfStatement(c, body, else_body) => match tw_eval(c, this, fuel, w, tape) {
            Err(h) => Err(h),
            Ok((w1, cv)) => if truthy(cv) {
                tw_block_from(body@, 0, ValueModel::Undefined, this, fuel, w1, tape)
            } else {
                match else_body {
                    Some(b) => tw_block_from(b@, 0, ValueModel::Undefined, this, fuel, w1, tape),
                    None => Ok((w1, CompletionModel::Normal(ValueModel::Undefined))),
                }
            },
        },
        JsStatement::WhileLoop(_, _) => tw_while(s, ValueModel::Undefined, this, fuel, w, tape),
        JsStatement::DoWhileLoop(_, _) => tw_do_while(s, ValueModel::Undefined, this, fuel, w, tape),
        JsStatement::ForLoop { init, .. } => match init {
            Some(st) => match tw_exec(*st, this, fuel, w, tape) {
                Err(h) => Err(h),
                Ok((w1, CompletionModel::Normal(_))) => tw_for(s, ValueModel::Undefined, this, fuel, w1, tape),
                Ok((w1, c)) => Ok((w1, c)),
            },
            None => tw_for(s, ValueModel::Undefined, this, fuel, w, tape),
        },
        JsStatement::TryCatchFinally { .. } => tw_try(s, this, fuel, w, tape),
    }
}

/// Statements from position `k` on: the block ends normally with the value
/// of its last statement (`result` so far), or with the first `return` or `throw`.
pub open spec fn tw_block_from(
    stmts: Seq<JsStatement>,
    k: nat,
    result: ValueModel,
    this: Option<nat>,
    fuel: nat,
    w: WorldModel,
    tape: Seq<ReplyModel>,
) -> Outcome<CompletionModel>
    decreases fuel, stmts, stmts.len() - k,
{
    if k >= stmts.len() {
        Ok((w, CompletionModel::Normal(result)))
    } else {
        match tw_exec(stmts[k as int], this, fuel, w, tape) {
            Err(h) => Err(h),
            Ok((w1, CompletionModel::Normal(v))) => tw_block_from(stmts, k + 1, v, this, fuel, w1, tape),
            Ok((w1, c)) => Ok((w1, c)),
        }
    }
}

/// The turns of a `while` loop, with the value of the last statement so far.
pub open spec fn tw_while(s: JsStatement, result: ValueModel, this: Option<nat>, fuel: nat, w: WorldModel, tape: Seq<ReplyModel>) -> Outcome<CompletionModel>
    decreases fuel, s, 1int,
{
    match s {
        JsStatement::WhileLoop(c, body) => if fuel == 0 {
            Err(HaltModel::OutOfFuel)
        } else {
            let f = (fuel - 1) as nat;
            match tw_eval(c, this, f, w, tape) {
                Err(h) => Err(h),
                Ok((w1, cv)) => if !truthy(cv) {
                    Ok((w1, CompletionModel::Normal(result)))
                } else {
                    match tw_block_from(body@, 0, result, this, f, w1, tape) {
                        Err(h) => Err(h),
                        Ok((w2, CompletionModel::Normal(r2))) => tw_while(s, r2, this, f, w2, tape),
                        Ok((w2, c2)) => Ok((w2, c2)),
                    }
                },
            }
        },
        _ => Ok((w, CompletionModel::Normal(result))),
    }
}

/// The turns of a `do`/`while` loop.
pub open spec fn tw_do_while(s: JsStatement, result: ValueModel, this: Option<nat>, fuel: nat, w: WorldModel, tape: Seq<ReplyModel>) -> Outcome<CompletionModel>
    decreases fuel, s, 1int,
{
    match s {
        JsStatement::DoWhileLoop(body, c) => if fuel == 0 {
            Err(HaltModel::OutOfFuel)
        } else {
            let f = (fuel - 1) as nat;
            match tw_block_from(body@, 0, result, this, f, w, tape) {
                Err(h) => Err(h),
                Ok((w1, CompletionModel::Normal(r2))) => match tw_eval(c, this, f, w1, tape) {
                    Err(h) => Err(h),
                    Ok((w2, cv)) => if truthy(cv) {
                        tw_do_while(s, r2, this, f, w2, tape)
                    } else {
                        Ok((w2, CompletionModel::Normal(r2)))
                    },
                },
                Ok((w1, c1)) => Ok((w1, c1)),
            }
        },
        _ => Ok((w, CompletionModel::Normal(result))),
    }
}

/// The turns of a `for` loop after its initialisation.
pub open spec fn tw_for(s: JsStatement, result: ValueModel, this: Option<nat>, fuel: nat, w: WorldModel, tape: Seq<ReplyModel>) -> Outcome<CompletionModel>
    decreases fuel, s, 1int,
{
    match s {
        JsStatement::ForLoop { init: _, condition, increment, body } => if fuel == 0 {
            Err(HaltModel::OutOfFuel)
        } else {
            let f = (fuel - 1) as nat;
            let test = match condition {
                Some(c) => match tw_eval(c, this, f, w, tape) {
                    Err(h) => Err(h),
                    Ok((w1, cv)) => Ok((w1, truthy(cv))),
                },
                None => Ok((w, true)),
            };
            match test {
                Err(h) => Err(h),
                Ok((w1, false)) => Ok((w1, CompletionModel::Normal(result))),
                Ok((w1, true)) => match tw_block_from(body@, 0, result, this, f, w1, tape) {
                    Err(h) => Err(h),
                    Ok((w2, CompletionModel::Normal(r2))) => match increment {
                        Some(st) => match tw_exec(*st, this, f, w2, tape) {
                            Err(h) => Err(h),
                            Ok((w3, CompletionModel::Normal(_))) => tw_for(s, r2, this, f, w3, tape),
                            Ok((w3, c3)) => Ok((w3, c3)),
                        },
                        None => tw_for(s, r2, this, f, w2, tape),
                    },
                    Ok((w2, c2)) => Ok((w2, c2)),
                },
            }
        },
        _ => Ok((w, CompletionModel::Normal(result))),
    }
}

/// `try`/`catch`/`finally`: the try block runs in the same frame, a throw
/// goes to the catch block in a new frame that binds the parameter, then
/// the finally block runs; when it ends by `return` or `throw`, that wins.
pub open spec fn tw_try(s: JsStatement, this: Option<nat>, fuel: nat, w: WorldModel, tape: Seq<ReplyModel>) -> Outcome<CompletionModel>
    decreases fuel, s, 1int,
{
    match s {
        JsStatement::TryCatchFinally { try_block, catch_param, catch_block, finally_block } =>
            match tw_block_from(try_block@, 0, ValueModel::Undefined, this, fuel, w, tape) {
                Err(h) => Err(h),
                Ok((w1, flow)) => {
                    let caught = match (flow, catch_block) {
                        (CompletionModel::Throw(thrown), Some(cb)) => {
                            let depth = w1.scope.len();
                            let s1 = w1.scope.push(Seq::empty());
                            let s2 = match catch_param {
                                Some(p) => scope_define(s1, p@, thrown, JsDeclarationKind::Let),
                                None => s1,
                            };
                            match tw_block_from(cb@, 0, ValueModel::Undefined, this, fuel, with_scope(w1, s2), tape) {
                                Err(h) => Err(h),
                                Ok((w2, c)) => Ok((with_scope(w2, scope_truncate(w2.scope, depth)), c)),
                            }
                        },
                        _ => Ok((w1, flow)),
                    };
                    match caught {
                        Err(h) => Err(h),
                        Ok((w2, flow2)) => match finally_block {
                            Some(fb) => match tw_block_from(fb@, 0, ValueModel::Undefined, this, fuel, w2, tape) {
                                Err(h) => Err(h),
                                Ok((w3, ff)) => Ok((w3, if ff is Normal { flow2 } else { ff })),
                            },
                            None => Ok((w2, flow2)),
                        },
                    }
                },
            },
        _ => Ok((w, CompletionModel::Normal(ValueModel::Undefined))),
    }
}

// ---------------------------------------------------------------------------
// Executable evaluator
// ---------------------------------------------------------------------------

impl Machine {
    /// The value of an expression; see `tw_eval`.
    pub fn eval_expr(&mut self, e: &JsExpression, this: Option<usize>, fuel: u64, tape: &Vec<NumericReply>) -> (r: Result<JsValue, Halt>)
        ensures
            agrees_value(tw_eval(*e, this_index(this), fuel as nat, old(self)@, replies_model(tape@)), r, final(self)@),
        decreases e,
    {
        match e {
            JsExpression::Literal(v) => Ok(clone_value(v)),
            JsExpression::Identifier(name) => match global_property(name) {
                Some(g) => Ok(g),
                None => match self.scope.get(name) {
                    Some(x) => Ok(x),
                    None => Ok(JsValue::Undefined),
                },
            },
            JsExpression::This => Ok(self.this_value(this)),
            JsExpression::BinaryOp(l, op, r) => {
                let a = self.eval_expr(l, this, fuel, tape)?;
                let b = self.eval_expr(r, this, fuel, tape)?;
                self.binary(classify_binary(op), &a, &b, tape)
            },
            JsExpression::UnaryOp(op, x) => {
                let v = self.eval_expr(x, this, fuel, tape)?;
                self.unary(classify_unary(op), &v, tape)
            },
            JsExpression::LogicalOp(l, op, r) => {
                let a = self.eval_expr(l, this, fuel, tape)?;
                if is_text2(op.as_str(), '&', '&') {
                    if to_bool(&a) {
                        self.eval_expr(r, this, fuel, tape)
                    } else {
                        Ok(a)
                    }
                } else if is_text2(op.as_str(), '|', '|') {
                    if to_bool(&a) {
                        Ok(a)
                    } else {
                        self.eval_expr(r, this, fuel, tape)
                    }
                } else {
                    Ok(JsValue::Undefined)
                }
            },
            JsExpression::Call(name, args) => {
                let vs = self.eval_arguments(args, this, fuel, tape)?;
                match self.call_global(name, &vs, tape)? {
                    Some(v) => Ok(v),
                    None => match self.scope.get(name) {
                        Some(JsValue::Function(f)) => self.call_function(&f, &vs, this, fuel, tape),
                        _ => Ok(JsValue::Undefined),
                    },
                }
            },
            JsExpression::MemberAccess(obj, member) => {
                let o = self.eval_expr(obj, this, fuel, tape)?;
                Ok(get_property(&o, member))
            },
            JsExpression::IndexAccess(obj, index) => {
                let o = self.eval_expr(obj, this, fuel, tape)?;
                let i = self.eval_expr(index, this, fuel, tape)?;
                self.get_index(&o, &i, tape)
            },
            JsExpression::MethodCall { object, method, args } => {
                let o = self.eval_expr(object, this, fuel, tape)?;
                let vs = self.eval_arguments(args, this, fuel, tape)?;
                let global = match &**object {
                    JsExpression::Identifier(name) => self.call_global_method(name, method, &vs, tape)?,
                    _ => None,
                };
                match global {
                    Some(v) => Ok(v),
                    None => {
                        let (res, updated) = self.call_method(o, method, &vs, fuel, tape)?;
                        match &**object {
                            JsExpression::Identifier(name) => {
                                let _ = self.scope.set(name, updated);
                            },
                            _ => {},
                        }
                        Ok(res)
                    },
                }
            },
            JsExpression::ObjectLiteral(props) => {
                let vs = self.eval_property_values(props, this, fuel, tape)?;
                let mut keys: Vec<String> = Vec::new();
                let mut i: usize = 0;
                while i < props.len()
                    invariant
                        i <= props@.len(),
                        keys@.len() == i,
                        forall|j: int| 0 <= j < i ==> (#[trigger] keys@[j])@ == props@[j].0@,
                    decreases props@.len() - i,
                {
                    keys.push(props[i].0.clone());
                    i += 1;
                }
                assert(crate::value::strings_model(keys@) =~= props@.map_values(|p: (String, JsExpression)| p.0@));
                Ok(JsValue::Object(crate::vm::build_object(&keys, &vs)))
            },
            JsExpression::ArrayLiteral(elems) => {
                let vs = self.eval_arguments(elems, this, fuel, tape)?;
                Ok(JsValue::Array(vs))
            },
            JsExpression::Assignment(name, x) => {
                let v = self.eval_expr(x, this, fuel, tape)?;
                let _ = self.scope.set(name, clone_value(&v));
                Ok(v)
            },
            JsExpression::MemberAssignment(target, member, x) => {
                let v = self.eval_expr(x, this, fuel, tape)?;
                match &**target {
                    JsExpression::This => self.this_member_assign(member, &v, this, tape)?,
                    JsExpression::Identifier(name) => self.named_assign(name, member, &v, tape)?,
                    _ => {
                        let t = self.eval_expr(target, this, fuel, tape)?;
                        let _ = self.set_property(t, member, clone_value(&v), tape)?;
                    },
                }
                Ok(v)
            },
            JsExpression::IndexAssignment(target, index, x) => {
                let v = self.eval_expr(x, this, fuel, tape)?;
                let i = self.eval_expr(index, this, fuel, tape)?;
                match &**target {
                    JsExpression::Identifier(name) => self.named_index_assign(name, &i, &v, tape)?,
                    _ => {
                        let t = self.eval_expr(target, this, fuel, tape)?;
                        let _ = self.set_index(t, &i, clone_value(&v), tape)?;
                    },
                }
                Ok(v)
            },
        }
    }

    /// The values of expressions, from left to right.
    fn eval_arguments(&mut self, args: &Vec<JsExpression>, this: Option<usize>, fuel: u64, tape: &Vec<NumericReply>) -> (r: Result<Vec<JsValue>, Halt>)
        ensures
            match tw_args_from(args@, 0, Seq::empty(), this_index(this), fuel as nat, old(self)@, replies_model(tape@)) {
                Ok((w2, vs)) => r matches Ok(x) && values_model(x@) == vs && final(self)@ == w2,
                Err(h) => r matches Err(e) && e@ == h,
            },
        decreases args,
    {
        let ghost tm = replies_model(tape@);
        let mut out: Vec<JsValue> = Vec::new();
        let mut i: usize = 0;
        assert(values_model(out@) =~= Seq::<ValueModel>::empty());
        while i < args.len()
            invariant
                i <= args@.len(),
                tm == replies_model(tape@),
                tw_args_from(args@, 0, Seq::empty(), this_index(this), fuel as nat, old(self)@, tm)
                    == tw_args_from(args@, i as nat, values_model(out@), this_index(this), fuel as nat, self@, tm),
            decreases args@.len() - i,
        {
            proof { assert(decreases_to!(*args => args[i as int])); }
            let v = self.eval_expr(&args[i], this, fuel, tape)?;
            proof { crate::value::lemma_values_model_push(out@, v); }
            out.push(v);
            i += 1;
        }
        Ok(out)
    }

    /// The values of an object literal's properties, from left to right.
    fn eval_property_values(&mut self, props: &Vec<(String, JsExpression)>, this: Option<usize>, fuel: u64, tape: &Vec<NumericReply>) -> (r: Result<Vec<JsValue>, Halt>)
        ensures
            match tw_props_from(props@, 0, Seq::empty(), this_index(this), fuel as nat, old(self)@, replies_model(tape@)) {
                Ok((w2, vs)) => r matches Ok(x) && values_model(x@) == vs && values_model(x@).len() == props@.len() && final(self)@ == w2,
                Err(h) => r matches Err(e) && e@ == h,
            },
        decreases props,
    {
        let ghost tm = replies_model(tape@);
        let mut out: Vec<JsValue> = Vec::new();
        let mut i: usize = 0;
        assert(values_model(out@) =~= Seq::<ValueModel>::empty());
        while i < props.len()
            invariant
                i <= props@.len(),
                tm == replies_model(tape@),
                values_model(out@).len() == i,
                tw_props_from(props@, 0, Seq::empty(), this_index(this), fuel as nat, old(self)@, tm)
                    == tw_props_from(props@, i as nat, values_model(out@), this_index(this), fuel as nat, self@, tm),
            decreases props@.len() - i,
        {
            proof {
                assert(decreases_to!(*props => props[i as int]));
                assert(decreases_to!(props[i as int] => props[i as int].1));
            }
            let v = self.eval_expr(&props[i].1, this, fuel, tape)?;
            proof { crate::value::lemma_values_model_push(out@, v); }
            out.push(v);
            i += 1;
        }
        Ok(out)
    }

    /// Sets a property of the object bound to `name`, then assigns the changed object.
    fn named_assign(&mut self, name: &String, key: &String, v: &JsValue, tape: &Vec<NumericReply>) -> (r: Result<(), Halt>)
        ensures
            match tw_named_assign(name@, key@, v@, old(self)@, replies_model(tape@)) {
                Ok((w2, _)) => r is Ok && final(self)@ == w2,
                Err(h) => r matches Err(e) && e@ == h,
            },
    {
        match self.scope.get(name) {
            Some(obj) => {
                let (obj2, _) = self.set_property(obj, key, clone_value(v), tape)?;
                let _ = self.scope.set(name, obj2);
                Ok(())
            },
            None => Ok(()),
        }
    }

    /// `this.member = v`; see `tw_this_assign`.
    fn this_member_assign(&mut self, member: &String, v: &JsValue, this: Option<usize>, tape: &Vec<NumericReply>) -> (r: Result<(), Halt>)
        ensures
            match tw_this_assign(member@, v@, this_index(this), old(self)@, replies_model(tape@)) {
                Ok((w2, _)) => r is Ok && final(self)@ == w2,
                Err(h) => r matches Err(e) && e@ == h,
            },
    {
        proof { lemma_values_model_len(self.this_cells@); }
        match this {
            Some(i) => if i < self.this_cells.len() {
                proof { lemma_values_model_index(self.this_cells@, i as int); }
                let cell = clone_value(&self.this_cells[i]);
                let (obj, _) = self.set_property(cell, member, clone_value(v), tape)?;
                proof {
                    crate::ops::lemma_set_property_frame(old(self)@.this_cells[i as int], member@, v@, old(self)@, replies_model(tape@));
                    lemma_values_model_len(self.this_cells@);
                    lemma_values_model_update(self.this_cells@, i as int, obj);
                }
                self.this_cells.set(i, obj);
                Ok(())
            } else {
                Ok(())
            },
            None => Ok(()),
        }
    }

    /// `name[index] = v`; see `tw_named_index_assign`.
    fn named_index_assign(&mut self, name: &String, index: &JsValue, v: &JsValue, tape: &Vec<NumericReply>) -> (r: Result<(), Halt>)
        ensures
            match tw_named_index_assign(name@, index@, v@, old(self)@, replies_model(tape@)) {
                Ok((w2, _)) => r is Ok && final(self)@ == w2,
                Err(h) => r matches Err(e) && e@ == h,
            },
    {
        match self.scope.get(name) {
            Some(obj) => {
                let obj2 = self.set_index(obj, index, clone_value(v), tape)?;
                let _ = self.scope.set(name, obj2);
                Ok(())
            },
            None => Ok(()),
        }
    }

    /// `target.member = v`; see `tw_member_assign`.
    fn member_assign(&mut self, target: &JsExpression, member: &String, v: &JsValue, this: Option<usize>, fuel: u64, tape: &Vec<NumericReply>) -> (r: Result<(), Halt>)
        ensures
            match tw_member_assign(*target, member@, v@, this_index(this), fuel as nat, old(self)@, replies_model(tape@)) {
                Ok((w2, _)) => r is Ok && final(self)@ == w2,
                Err(h) => r matches Err(e) && e@ == h,
            },
    {
        match target {
            JsExpression::This => self.this_member_assign(member, v, this, tape),
            JsExpression::Identifier(name) => self.named_assign(name, member, v, tape),
            _ => {
                let t = self.eval_expr(target, this, fuel, tape)?;
                let _ = self.set_property(t, member, clone_value(v), tape)?;
                Ok(())
            },
        }
    }

    /// `target[index] = v`; see `tw_index_assign`.
    fn index_assign(&mut self, target: &JsExpression, index: &JsValue, v: &JsValue, this: Option<usize>, fuel: u64, tape: &Vec<NumericReply>) -> (r: Result<(), Halt>)
        ensures
            match tw_index_assign(*target, index@, v@, this_index(this), fuel as nat, old(self)@, replies_model(tape@)) {
                Ok((w2, _)) => r is Ok && final(self)@ == w2,
                Err(h) => r matches Err(e) && e@ == h,
            },
    {
        match target {
            JsExpression::Identifier(name) => self.named_index_assign(name, index, v, tape),
            _ => {
                let t = self.eval_expr(target, this, fuel, tape)?;
                let _ = self.set_index(t, index, clone_value(v), tape)?;
                Ok(())
            },
        }
    }

    /// The completion of a statement; see `tw_exec`.
    pub fn exec_stmt(&mut self, s: &JsStatement, this: Option<usize>, fuel: u64, tape: &Vec<NumericReply>) -> (r: Result<Completion, Halt>)
        ensures
            agrees_completion(tw_exec(*s, this_index(this), fuel as nat, old(self)@, replies_model(tape@)), r, final(self)@),
        decreases fuel, s, 2int,
    {
        match s {
            JsStatement::Expression(e) => {
                let v = self.eval_expr(e, this, fuel, tape)?;
                Ok(Completion::Normal(v))
            },
            JsStatement::Assignment(name, e) => {
                let v = self.eval_expr(e, this, fuel, tape)?;
                let _ = self.scope.set(name, clone_value(&v));
                Ok(Completion::Normal(v))
            },
            JsStatement::Declaration { kind, name, expr } => {
                let v = self.eval_expr(expr, this, fuel, tape)?;
                self.scope.define(name.clone(), clone_value(&v), *kind);
                Ok(Completion::Normal(v))
            },
            JsStatement::MemberAssignment(target, member, e) => {
                let v = self.eval_expr(e, this, fuel, tape)?;
                self.member_assign(target, member, &v, this, fuel, tape)?;
                Ok(Completion::Normal(v))
            },
            JsStatement::IndexAssignment(target, index, e) => {
                let v = self.eval_expr(e, this, fuel, tape)?;
                let i = self.eval_expr(index, this, fuel, tape)?;
                self.index_assign(target, &i, &v, this, fuel, tape)?;
                Ok(Completion::Normal(v))
            },
            JsStatement::Return(opt) => match opt {
                Some(e) => {
                    let v = self.eval_expr(e, this, fuel, tape)?;
                    Ok(Completion::Return(v))
                },
                None => Ok(Completion::Return(JsValue::Undefined)),
            },
            JsStatement::Throw(e) => {
                let v = self.eval_expr(e, this, fuel, tape)?;
                Ok(Completion::Throw(v))
            },
            JsStatement::IfStatement(c, body, else_body) => {
                let cv = self.eval_expr(c, this, fuel, tape)?;
                if to_bool(&cv) {
                    self.exec_block(body, JsValue::Undefined, this, fuel, tape)
                } else {
                    match else_body {
                        Some(b) => {
                            proof { assert(decreases_to!(*s => b)); }
                            self.exec_block(b, JsValue::Undefined, this, fuel, tape)
                        },
                        None => Ok(Completion::Normal(JsValue::Undefined)),
                    }
                }
            },
            JsStatement::WhileLoop(_, _) => self.exec_while(s, this, fuel, tape),
            JsStatement::DoWhileLoop(_, _) => self.exec_do_while(s, this, fuel, tape),
            JsStatement::ForLoop { init, .. } => match init {
                Some(st) => {
                    proof { assert(decreases_to!(*s => **st)); }
                    match self.exec_stmt(st, this, fuel, tape)? {
                        Completion::Normal(_) => self.exec_for(s, JsValue::Undefined, this, fuel, tape),
                        c => Ok(c),
                    }
                },
                None => self.exec_for(s, JsValue::Undefined, this, fuel, tape),
            },
            JsStatement::TryCatchFinally { .. } => self.exec_try(s, this, fuel, tape),
        }
    }

    /// Statements in order, carrying the value of the last one; see `tw_block_from`.
    fn exec_block(&mut self, stmts: &Vec<JsStatement>, result: JsValue, this: Option<usize>, fuel: u64, tape: &Vec<NumericReply>) -> (r: Result<Completion, Halt>)
        ensures
            agrees_completion(tw_block_from(stmts@, 0, result@, this_index(this), fuel as nat, old(self)@, replies_model(tape@)), r, final(self)@),
        decreases fuel, stmts, 0int,
    {
        let ghost tm = replies_model(tape@);
        let ghost r0 = result@;
        let mut result = result;
        let mut i: usize = 0;
        while i < stmts.len()
            invariant
                i <= stmts@.len(),
                tm == replies_model(tape@),
                tw_block_from(stmts@, 0, r0, this_index(this), fuel as nat, old(self)@, tm)
                    == tw_block_from(stmts@, i as nat, result@, this_index(this), fuel as nat, self@, tm),
            decreases stmts@.len() - i,
        {
            proof { assert(decreases_to!(*stmts => stmts[i as int])); }
            match self.exec_stmt(&stmts[i], this, fuel, tape)? {
                Completion::Normal(v) => {
                    result = v;
                },
                c => {
                    return Ok(c);
                },
            }
            i += 1;
        }
        Ok(Completion::Normal(result))
    }

    /// A `while` loop; see `tw_while`.
    #[verifier::loop_isolation(false)]
    fn exec_while(&mut self, s: &JsStatement, this: Option<usize>, fuel: u64, tape: &Vec<NumericReply>) -> (r: Result<Completion, Halt>)
        requires
            *s is WhileLoop,
        ensures
            agrees_completion(tw_while(*s, ValueModel::Undefined, this_index(this), fuel as nat, old(self)@, replies_model(tape@)), r, final(self)@),
        decreases fuel, s, 1int,
    {
        let ghost tm = replies_model(tape@);
        match s {
            JsStatement::WhileLoop(c, body) => {
                let mut result = JsValue::Undefined;
                let mut f: u64 = fuel;
                loop
                    invariant
                        f <= fuel,
                        tm == replies_model(tape@),
                        *s is WhileLoop,
                        tw_while(*s, ValueModel::Undefined, this_index(this), fuel as nat, old(self)@, tm)
                            == tw_while(*s, result@, this_index(this), f as nat, self@, tm),
                    decreases f,
                {
                    if f == 0 {
                        return Err(Halt::OutOfFuel);
                    }
                    f = f - 1;
                    let cv = self.eval_expr(c, this, f, tape)?;
                    if !to_bool(&cv) {
                        return Ok(Completion::Normal(result));
                    }
                    match self.exec_block(body, result, this, f, tape)? {
                        Completion::Normal(v) => {
                            result = v;
                        },
                        other => {
                            return Ok(other);
                        },
                    }
                }
            },
            _ => Ok(Completion::Normal(JsValue::Undefined)),
        }
    }

    /// A `do`/`while` loop; see `tw_do_while`.
    #[verifier::loop_isolation(false)]
    fn exec_do_while(&mut self, s: &JsStatement, this: Option<usize>, fuel: u64, tape: &Vec<NumericReply>) -> (r: Result<Completion, Halt>)
        requires
            *s is DoWhileLoop,
        ensures
            agrees_completion(tw_do_while(*s, ValueModel::Undefined, this_index(this), fuel as nat, old(self)@, replies_model(tape@)), r, final(self)@),
        decreases fuel, s, 1int,
    {
        let ghost tm = replies_model(tape@);
        match s {
            JsStatement::DoWhileLoop(body, c) => {
                let mut result = JsValue::Undefined;
                let mut f: u64 = fuel;
                loop
                    invariant
                        f <= fuel,
                        tm == replies_model(tape@),
                        *s is DoWhileLoop,
                        tw_do_while(*s, ValueModel::Undefined, this_index(this), fuel as nat, old(self)@, tm)
                            == tw_do_while(*s, result@, this_index(this), f as nat, self@, tm),
                    decreases f,
                {
                    if f == 0 {
                        return Err(Halt::OutOfFuel);
                    }
                    f = f - 1;
                    match self.exec_block(body, result, this, f, tape)? {
                        Completion::Normal(v) => {
                            result = v;
                        },
                        other => {
                            return Ok(other);
                        },
                    }
                    let cv = self.eval_expr(c, this, f, tape)?;
                    if !to_bool(&cv) {
                        return Ok(Completion::Normal(result));
                    }
                }
            },
            _ => Ok(Completion::Normal(JsValue::Undefined)),
        }
    }

    /// The turns of a `for` loop after its initialisation; see `tw_for`.
    #[verifier::loop_isolation(false)]
    fn exec_for(&mut self, s: &JsStatement, result: JsValue, this: Option<usize>, fuel: u64, tape: &Vec<NumericReply>) -> (r: Result<Completion, Halt>)
        requires
            *s is ForLoop,
        ensures
            agrees_completion(tw_for(*s, result@, this_index(this), fuel as nat, old(self)@, replies_model(tape@)), r, final(self)@),
        decreases fuel, s, 1int,
    {
        let ghost tm = replies_model(tape@);
        let ghost r0 = result@;
        match s {
            JsStatement::ForLoop { init: _, condition, increment, body } => {
                let mut result = result;
                let mut f: u64 = fuel;
                loop
                    invariant
                        f <= fuel,
                        tm == replies_model(tape@),
                        *s is ForLoop,
                        tw_for(*s, r0, this_index(this), fuel as nat, old(self)@, tm)
                            == tw_for(*s, result@, this_index(this), f as nat, self@, tm),
                    decreases f,
                {
                    if f == 0 {
                        return Err(Halt::OutOfFuel);
                    }
                    f = f - 1;
                    let go = match condition {
                        Some(c) => {
                            let cv = self.eval_expr(c, this, f, tape)?;
                            to_bool(&cv)
                        },
                        None => true,
                    };
                    if !go {
                        return Ok(Completion::Normal(result));
                    }
                    match self.exec_block(body, result, this, f, tape)? {
                        Completion::Normal(v) => {
                            result = v;
                        },
                        other => {
                            return Ok(other);
                        },
                    }
                    match increment {
                        Some(st) => {
                            match self.exec_stmt(st, this, f, tape)? {
                                Completion::Normal(_) => {},
                                other => {
                                    return Ok(other);
                                },
                            }
                        },
                        None => {},
                    }
                }
            },
            _ => Ok(Completion::Normal(result)),
        }
    }

    /// A `try` statement; see `tw_try`.
    fn exec_try(&mut self, s: &JsStatement, this: Option<usize>, fuel: u64, tape: &Vec<NumericReply>) -> (r: Result<Completion, Halt>)
        requires
            *s is TryCatchFinally,
        ensures
            agrees_completion(tw_try(*s, this_index(this), fuel as nat, old(self)@, replies_model(tape@)), r, final(self)@),
        decreases fuel, s, 1int,
    {
        match s {
            JsStatement::TryCatchFinally { try_block, catch_param, catch_block, finally_block } => {
                let flow = self.exec_block(try_block, JsValue::Undefined, this, fuel, tape)?;
                let flow2 = match catch_block {
                    Some(cb) => match flow {
                        Completion::Throw(thrown) => {
                            proof { assert(decreases_to!(*s => *cb)); }
                            let depth = self.scope.depth();
                            self.scope.push_frame();
                            match catch_param {
                                Some(p) => self.scope.define(p.clone(), thrown, JsDeclarationKind::Let),
                                None => {},
                            }
                            let c = self.exec_block(cb, JsValue::Undefined, this, fuel, tape)?;
                            self.scope.truncate(depth);
                            c
                        },
                        other => other,
                    },
                    None => flow,
                };
                match finally_block {
                    Some(fb) => {
                        proof { assert(decreases_to!(*s => *fb)); }
                        let ff = self.exec_block(fb, JsValue::Undefined, this, fuel, tape)?;
                        match ff {
                            Completion::Normal(_) => Ok(flow2),
                            other => Ok(other),
                        }
                    },
                    None => Ok(flow2),
                }
            },
            _ => Ok(Completion::Normal(JsValue::Undefined)),
        }
    }
}

} // verus!
