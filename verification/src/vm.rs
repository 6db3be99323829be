//! The stack machine that runs compiled code.
//!
//! A run is given a budget of steps (`fuel`): every instruction costs one
//! step, and the code that an instruction runs in its turn (a called
//! function, a callback, a `try` block) gets what is left at that level.
//! A run that uses its budget up halts with `OutOfFuel`; the embedder may
//! run it again with a larger budget.
use vstd::prelude::*;
use crate::number::JsNumber;
use crate::value::{
    JsValue, JsFunction, JsDeclarationKind, BinaryOperator, UnaryOperator, Instruction, BytecodeProgram,
    ValueModel, FunctionModel, InstrModel, values_model, props_model, strings_model, instrs_model, instr_model,
    opt_program_model, opt_string_model, clone_value, clone_values, lemma_values_model_len, lemma_values_model_index,
    lemma_values_model_push, lemma_instrs_model_index, lemma_instrs_model_len,
};
use crate::number::NumberOrder;
use crate::props::entry_insert;
use crate::scope::{FrameModel, scope_get, scope_set, scope_define};
use crate::numeric::{NumericRequest, NumericReply, RequestModel, ReplyModel, ArithmeticOp, replies_model};
use crate::machine::{
    Machine, Halt, HaltModel, WorldModel, Outcome, Completion, CompletionModel, ask_number, agrees_value,
    agrees_completion,
};
use crate::convert::{vm_to_number, vm_primitive_string, vm_join_primitive, lemma_values_model_take};
use crate::ops::{
    truthy, values_strictly_equal, property_value, vm_equals, vm_compare, vm_add, vm_arithmetic, vm_get_index,
    vm_set_property, vm_set_index, to_bool, strict_equals, get_property,
};
use crate::builtins::{global_value, vm_call_global, global_property};
use crate::methods::vm_call_global_method;
use crate::text::text;

verus! {

// ---------------------------------------------------------------------------
// The model of a run
// ---------------------------------------------------------------------------

/// What one instruction leads to: the next position with the new operand
/// stack and last value, or the end of the code with a completion.
pub enum StepModel {
    Next(nat, Seq<ValueModel>, ValueModel),
    Done(CompletionModel),
}

/// Pops the top of the operand stack; `undefined` when it is empty.
pub open spec fn pop_value(s: Seq<ValueModel>) -> (Seq<ValueModel>, ValueModel) {
    if s.len() > 0 {
        (s.drop_last(), s.last())
    } else {
        (s, ValueModel::Undefined)
    }
}

/// Pops `n` arguments, the last argument on top. When the stack holds fewer,
/// the missing first arguments are `undefined`.
pub open spec fn pop_args(s: Seq<ValueModel>, n: nat) -> (Seq<ValueModel>, Seq<ValueModel>) {
    if n <= s.len() {
        (s.take(s.len() - n), s.skip(s.len() - n))
    } else {
        (Seq::empty(), Seq::new((n - s.len()) as nat, |i: int| ValueModel::Undefined) + s)
    }
}

/// The top of the operand stack, `undefined` when it is empty.
pub open spec fn top_value(s: Seq<ValueModel>) -> ValueModel {
    if s.len() > 0 {
        s.last()
    } else {
        ValueModel::Undefined
    }
}

/// The value `this` refers to: the cell with that index, or `undefined`.
pub open spec fn this_value(w: WorldModel, this: Option<nat>) -> ValueModel {
    match this {
        Some(i) => if i < w.this_cells.len() {
            w.this_cells[i as int]
        } else {
            ValueModel::Undefined
        },
        None => ValueModel::Undefined,
    }
}

/// The model of an optional cell index.
pub open spec fn this_index(this: Option<usize>) -> Option<nat> {
    match this {
        Some(i) => Some(i as nat),
        None => None,
    }
}

pub open spec fn with_scope(w: WorldModel, s: Seq<FrameModel>) -> WorldModel {
    WorldModel { scope: s, ..w }
}

/// Closes frames until `d` remain.
pub open spec fn scope_truncate(s: Seq<FrameModel>, d: nat) -> Seq<FrameModel> {
    if s.len() > d {
        s.take(d as int)
    } else {
        s
    }
}

/// Drops the `this` cells from index `d` on.
pub open spec fn cells_truncate(s: Seq<ValueModel>, d: nat) -> Seq<ValueModel> {
    if s.len() > d {
        s.take(d as int)
    } else {
        s
    }
}

/// Binds each parameter, in order, in the innermost frame: to its argument,
/// or to `undefined` when there is none.
pub open spec fn bind_params(scope: Seq<FrameModel>, params: Seq<Seq<char>>, args: Seq<ValueModel>) -> Seq<FrameModel>
    decreases params.len(),
{
    if params.len() == 0 {
        scope
    } else {
        let s = bind_params(scope, params.drop_last(), args);
        let v = if params.len() - 1 < args.len() { args[params.len() - 1] } else { ValueModel::Undefined };
        scope_define(s, params.last(), v, JsDeclarationKind::Let)
    }
}

/// The properties of an object literal: each key stored with its value, in order.
pub open spec fn object_from(keys: Seq<Seq<char>>, values: Seq<ValueModel>) -> Seq<(Seq<char>, ValueModel)>
    decreases keys.len(),
{
    if keys.len() == 0 {
        Seq::empty()
    } else {
        entry_insert(object_from(keys.drop_last(), values), keys.last(), values[keys.len() - 1])
    }
}

pub open spec fn bool_of(out: Outcome<bool>, negate: bool) -> Outcome<ValueModel> {
    match out {
        Err(h) => Err(h),
        Ok((w, b)) => Ok((w, ValueModel::Boolean(if negate { !b } else { b }))),
    }
}

pub open spec fn order_test(out: Outcome<Option<NumberOrder>>, accept: spec_fn(NumberOrder) -> bool) -> Outcome<ValueModel> {
    match out {
        Err(h) => Err(h),
        Ok((w, o)) => Ok((w, ValueModel::Boolean(match o {
            Some(x) => accept(x),
            None => false,
        }))),
    }
}

/// A binary operator applied to two values.
pub open spec fn vm_binary(op: BinaryOperator, a: ValueModel, b: ValueModel, w: WorldModel, tape: Seq<ReplyModel>) -> Outcome<ValueModel> {
    match op {
        BinaryOperator::Add => vm_add(a, b, w, tape),
        BinaryOperator::Subtract => vm_arithmetic(ArithmeticOp::Subtract, a, b, w, tape),
        BinaryOperator::Multiply => vm_arithmetic(ArithmeticOp::Multiply, a, b, w, tape),
        BinaryOperator::Divide => vm_arithmetic(ArithmeticOp::Divide, a, b, w, tape),
        BinaryOperator::Remainder => vm_arithmetic(ArithmeticOp::Remainder, a, b, w, tape),
        BinaryOperator::Equal => bool_of(vm_equals(a, b, w, tape), false),
        BinaryOperator::NotEqual => bool_of(vm_equals(a, b, w, tape), true),
        BinaryOperator::StrictEqual => Ok((w, ValueModel::Boolean(values_strictly_equal(a, b)))),
        BinaryOperator::StrictNotEqual => Ok((w, ValueModel::Boolean(!values_strictly_equal(a, b)))),
        BinaryOperator::LessThan => order_test(vm_compare(a, b, w, tape), |o: NumberOrder| o == NumberOrder::Less),
        BinaryOperator::GreaterThan => order_test(vm_compare(a, b, w, tape), |o: NumberOrder| o == NumberOrder::Greater),
        BinaryOperator::LessThanOrEqual => order_test(vm_compare(a, b, w, tape), |o: NumberOrder| o != NumberOrder::Greater),
        BinaryOperator::GreaterThanOrEqual => order_test(vm_compare(a, b, w, tape), |o: NumberOrder| o != NumberOrder::Less),
        BinaryOperator::Unsupported => Ok((w, ValueModel::Undefined)),
    }
}

/// A unary operator applied to a value.
pub open spec fn vm_unary(op: UnaryOperator, v: ValueModel, w: WorldModel, tape: Seq<ReplyModel>) -> Outcome<ValueModel> {
    match op {
        UnaryOperator::Negate => match vm_to_number(v, w, tape) {
            Err(h) => Err(h),
            Ok((w1, n)) => Ok((w1, ValueModel::Number(JsNumber { bits: n.bits ^ crate::number::SIGN_MASK }))),
        },
        UnaryOperator::Not => Ok((w, ValueModel::Boolean(!truthy(v)))),
        UnaryOperator::Unsupported => Ok((w, ValueModel::Undefined)),
    }
}

/// Continues after an instruction that pushed `v`.
pub open spec fn push_next(out: Outcome<ValueModel>, ip: nat, s: Seq<ValueModel>, last: ValueModel) -> Outcome<StepModel> {
    match out {
        Err(h) => Err(h),
        Ok((w, v)) => Ok((w, StepModel::Next(ip + 1, s.push(v), last))),
    }
}

/// The instructions that neither call code nor end it early.
pub open spec fn vm_step_data(instr: InstrModel, ip: nat, this: Option<nat>, stack: Seq<ValueModel>, last: ValueModel, w: WorldModel, tape: Seq<ReplyModel>) -> Outcome<StepModel> {
    let next = ip + 1;
    match instr {
        InstrModel::PushLiteral(v) => Ok((w, StepModel::Next(next, stack.push(v), last))),
        InstrModel::PushUndefined => Ok((w, StepModel::Next(next, stack.push(ValueModel::Undefined), last))),
        InstrModel::LoadIdentifier(name) => {
            let v = match global_value(name) {
                Some(g) => g,
                None => match scope_get(w.scope, name) {
                    Some(x) => x,
                    None => ValueModel::Undefined,
                },
            };
            Ok((w, StepModel::Next(next, stack.push(v), last)))
        },
        InstrModel::LoadThis => Ok((w, StepModel::Next(next, stack.push(this_value(w, this)), last))),
        InstrModel::StoreIdentifier(name) => {
            let (s1, v) = pop_value(stack);
            Ok((with_scope(w, scope_set(w.scope, name, v).0), StepModel::Next(next, s1, last)))
        },
        InstrModel::Declare { kind, name } => {
            let (s1, v) = pop_value(stack);
            Ok((with_scope(w, scope_define(w.scope, name, v, kind)), StepModel::Next(next, s1, last)))
        },
        InstrModel::Dup => Ok((w, StepModel::Next(next, if stack.len() > 0 { stack.push(stack.last()) } else { stack }, last))),
        InstrModel::Pop => Ok((w, StepModel::Next(next, pop_value(stack).0, last))),
        InstrModel::SetLast => Ok((w, StepModel::Next(next, stack, top_value(stack)))),
        InstrModel::BinaryOp(op) => {
            let (s1, right) = pop_value(stack);
            let (s2, left) = pop_value(s1);
            push_next(vm_binary(op, left, right, w, tape), ip, s2, last)
        },
        InstrModel::UnaryOp(op) => {
            let (s1, v) = pop_value(stack);
            push_next(vm_unary(op, v, w, tape), ip, s1, last)
        },
        InstrModel::LogicalAnd(target) => Ok((w, StepModel::Next(if truthy(top_value(stack)) { next } else { target }, stack, last))),
        InstrModel::LogicalOr(target) => Ok((w, StepModel::Next(if truthy(top_value(stack)) { target } else { next }, stack, last))),
        InstrModel::MemberAccess(member) => {
            let (s1, obj) = pop_value(stack);
            Ok((w, StepModel::Next(next, s1.push(property_value(obj, member)), last)))
        },
        InstrModel::IndexAccess => {
            let (s1, index) = pop_value(stack);
            let (s2, obj) = pop_value(s1);
            push_next(vm_get_index(obj, index, w, tape), ip, s2, last)
        },
        InstrModel::AssignThisMember(member) => {
            let (s1, v) = pop_value(stack);
            match this {
                Some(i) => if i < w.this_cells.len() {
                    match vm_set_property(w.this_cells[i as int], member, v, w, tape) {
                        Err(h) => Err(h),
                        Ok((w1, (obj, _))) => Ok((
                            WorldModel { this_cells: w1.this_cells.update(i as int, obj), ..w1 },
                            StepModel::Next(next, s1.push(v), last),
                        )),
                    }
                } else {
                    Ok((w, StepModel::Next(next, s1.push(v), last)))
                },
                None => Ok((w, StepModel::Next(next, s1.push(v), last))),
            }
        },
        InstrModel::AssignNamedMember { object_name, member } => {
            let (s1, v) = pop_value(stack);
            match scope_get(w.scope, object_name) {
                Some(obj) => match vm_set_property(obj, member, v, w, tape) {
                    Err(h) => Err(h),
                    Ok((w1, (obj2, _))) => Ok((
                        with_scope(w1, scope_set(w1.scope, object_name, obj2).0),
                        StepModel::Next(next, s1.push(v), last),
                    )),
                },
                None => Ok((w, StepModel::Next(next, s1.push(v), last))),
            }
        },
        InstrModel::AssignComputedMember(member) => {
            let (s1, v) = pop_value(stack);
            let (s2, target) = pop_value(s1);
            match vm_set_property(target, member, v, w, tape) {
                Err(h) => Err(h),
                Ok((w1, _)) => Ok((w1, StepModel::Next(next, s2.push(v), last))),
            }
        },
        InstrModel::AssignNamedIndex(name) => {
            let (s1, v) = pop_value(stack);
            let (s2, index) = pop_value(s1);
            match scope_get(w.scope, name) {
                Some(obj) => match vm_set_index(obj, index, v, w, tape) {
                    Err(h) => Err(h),
                    Ok((w1, obj2)) => Ok((
                        with_scope(w1, scope_set(w1.scope, name, obj2).0),
                        StepModel::Next(next, s2.push(v), last),
                    )),
                },
                None => Ok((w, StepModel::Next(next, s2.push(v), last))),
            }
        },
        InstrModel::AssignComputedIndex => {
            let (s1, obj) = pop_value(stack);
            let (s2, v) = pop_value(s1);
            let (s3, index) = pop_value(s2);
            match vm_set_index(obj, index, v, w, tape) {
                Err(h) => Err(h),
                Ok((w1, _)) => Ok((w1, StepModel::Next(next, s3.push(v), last))),
            }
        },
        InstrModel::JumpIfFalse(target) => {
            let (s1, c) = pop_value(stack);
            Ok((w, StepModel::Next(if truthy(c) { next } else { target }, s1, last)))
        },
        InstrModel::Jump(target) => Ok((w, StepModel::Next(target, stack, last))),
        InstrModel::Throw => Ok((w, StepModel::Done(CompletionModel::Throw(pop_value(stack).1)))),
        InstrModel::Return => Ok((w, StepModel::Done(CompletionModel::Return(
            if stack.len() > 0 { stack.last() } else { last },
        )))),
        InstrModel::MakeArray(n) => {
            let (s1, items) = pop_args(stack, n);
            Ok((w, StepModel::Next(next, s1.push(ValueModel::Array(items)), last)))
        },
        InstrModel::MakeObject(keys) => {
            let (s1, values) = pop_args(stack, keys.len());
            Ok((w, StepModel::Next(next, s1.push(ValueModel::Object(object_from(keys, values))), last)))
        },
        _ => Ok((w, StepModel::Next(next, stack, last))),
    }
}

/// Runs code from its start with an empty operand stack.
pub open spec fn vm_run(code: Seq<InstrModel>, this: Option<nat>, fuel: nat, w: WorldModel, tape: Seq<ReplyModel>) -> Outcome<CompletionModel>
    decreases fuel, 1nat, 0int,
{
    vm_loop(code, this, fuel, 0, Seq::empty(), ValueModel::Undefined, w, tape)
}

/// Runs code from position `ip`: the code ends normally with the last value
/// when `ip` leaves it, each instruction costs one step of `fuel`.
pub open spec fn vm_loop(
    code: Seq<InstrModel>,
    this: Option<nat>,
    fuel: nat,
    ip: nat,
    stack: Seq<ValueModel>,
    last: ValueModel,
    w: WorldModel,
    tape: Seq<ReplyModel>,
) -> Outcome<CompletionModel>
    decreases fuel, 0nat, 0int,
{
    if ip >= code.len() {
        Ok((w, CompletionModel::Normal(last)))
    } else if fuel == 0 {
        Err(HaltModel::OutOfFuel)
    } else {
        match vm_step(code[ip as int], ip, this, (fuel - 1) as nat, stack, last, w, tape) {
            Err(h) => Err(h),
            Ok((w1, StepModel::Done(c))) => Ok((w1, c)),
            Ok((w1, StepModel::Next(ip2, s2, l2))) => vm_loop(code, this, (fuel - 1) as nat, ip2, s2, l2, w1, tape),
        }
    }
}

/// Calls a function: a new frame binds the parameters (those without an
/// argument to `undefined`), the body runs with the given `this`, the frame
/// is closed again, and the call gives the returned or thrown value, or
/// `undefined` when the body runs to its end.
pub open spec fn vm_call_function(f: FunctionModel, args: Seq<ValueModel>, this: Option<nat>, fuel: nat, w: WorldModel, tape: Seq<ReplyModel>) -> Outcome<ValueModel>
    decreases fuel, 2nat, 0int,
{
    let depth = w.scope.len();
    let w1 = with_scope(w, bind_params(w.scope.push(Seq::empty()), f.parameters, args));
    match vm_run(f.code, this, fuel, w1, tape) {
        Err(h) => Err(h),
        Ok((w2, c)) => Ok((with_scope(w2, scope_truncate(w2.scope, depth)), c.call_result())),
    }
}

/// The `catch` clause: a thrown value runs the catch code in a new frame
/// that binds the parameter; other completions, and a throw without a catch
/// clause, pass through.
pub open spec fn vm_catch(
    flow: CompletionModel,
    param: Option<Seq<char>>,
    catch_program: Option<Seq<InstrModel>>,
    this: Option<nat>,
    fuel: nat,
    w: WorldModel,
    tape: Seq<ReplyModel>,
) -> Outcome<CompletionModel>
    decreases fuel, 2nat, 0int,
{
    match (flow, catch_program) {
        (CompletionModel::Throw(thrown), Some(cp)) => {
            let depth = w.scope.len();
            let s1 = w.scope.push(Seq::empty());
            let s2 = match param {
                Some(p) => scope_define(s1, p, thrown, JsDeclarationKind::Let),
                None => s1,
            };
            match vm_run(cp, this, fuel, with_scope(w, s2), tape) {
                Err(h) => Err(h),
                Ok((w2, c)) => Ok((with_scope(w2, scope_truncate(w2.scope, depth)), c)),
            }
        },
        _ => Ok((w, flow)),
    }
}

/// `arr.map(cb)` from position `k` on.
pub open spec fn vm_map_from(cb: FunctionModel, arr: Seq<ValueModel>, k: nat, acc: Seq<ValueModel>, fuel: nat, w: WorldModel, tape: Seq<ReplyModel>) -> Outcome<Seq<ValueModel>>
    decreases fuel, 3nat, arr.len() - k,
{
    if k >= arr.len() {
        Ok((w, acc))
    } else {
        match ask_number(w, tape, RequestModel::FromCount(k)) {
            Err(h) => Err(h),
            Ok((w1, index)) => match vm_call_function(cb, seq![arr[k as int], ValueModel::Number(index), ValueModel::Array(arr)], None, fuel, w1, tape) {
                Err(h) => Err(h),
                Ok((w2, v)) => vm_map_from(cb, arr, k + 1, acc.push(v), fuel, w2, tape),
            },
        }
    }
}

/// `arr.filter(cb)` from position `k` on.
pub open spec fn vm_filter_from(cb: FunctionModel, arr: Seq<ValueModel>, k: nat, acc: Seq<ValueModel>, fuel: nat, w: WorldModel, tape: Seq<ReplyModel>) -> Outcome<Seq<ValueModel>>
    decreases fuel, 3nat, arr.len() - k,
{
    if k >= arr.len() {
        Ok((w, acc))
    } else {
        match ask_number(w, tape, RequestModel::FromCount(k)) {
            Err(h) => Err(h),
            Ok((w1, index)) => match vm_call_function(cb, seq![arr[k as int], ValueModel::Number(index), ValueModel::Array(arr)], None, fuel, w1, tape) {
                Err(h) => Err(h),
                Ok((w2, v)) => vm_filter_from(cb, arr, k + 1, if truthy(v) { acc.push(arr[k as int]) } else { acc }, fuel, w2, tape),
            },
        }
    }
}

/// `arr.forEach(cb)` from position `k` on.
pub open spec fn vm_for_each_from(cb: FunctionModel, arr: Seq<ValueModel>, k: nat, fuel: nat, w: WorldModel, tape: Seq<ReplyModel>) -> Outcome<()>
    decreases fuel, 3nat, arr.len() - k,
{
    if k >= arr.len() {
        Ok((w, ()))
    } else {
        match ask_number(w, tape, RequestModel::FromCount(k)) {
            Err(h) => Err(h),
            Ok((w1, index)) => match vm_call_function(cb, seq![arr[k as int], ValueModel::Number(index), ValueModel::Array(arr)], None, fuel, w1, tape) {
                Err(h) => Err(h),
                Ok((w2, _)) => vm_for_each_from(cb, arr, k + 1, fuel, w2, tape),
            },
        }
    }
}

/// `arr.reduce(cb, ...)` from position `k` on, with the accumulator so far.
pub open spec fn vm_reduce_from(cb: FunctionModel, arr: Seq<ValueModel>, k: nat, acc: ValueModel, fuel: nat, w: WorldModel, tape: Seq<ReplyModel>) -> Outcome<ValueModel>
    decreases fuel, 3nat, arr.len() - k,
{
    if k >= arr.len() {
        Ok((w, acc))
    } else {
        match ask_number(w, tape, RequestModel::FromCount(k)) {
            Err(h) => Err(h),
            Ok((w1, index)) => match vm_call_function(cb, seq![acc, arr[k as int], ValueModel::Number(index), ValueModel::Array(arr)], None, fuel, w1, tape) {
                Err(h) => Err(h),
                Ok((w2, v)) => vm_reduce_from(cb, arr, k + 1, v, fuel, w2, tape),
            },
        }
    }
}

/// Whether some element is strictly equal to `needle`.
pub open spec fn includes_value(arr: Seq<ValueModel>, needle: ValueModel) -> bool {
    exists|i: int| 0 <= i < arr.len() && values_strictly_equal(#[trigger] arr[i], needle)
}

/// A method called on a value. It gives the result and the receiver as the
/// method left it: `push` and `pop` change an array, a method of an object
/// runs with `this` bound to a copy of the object that it may change.
/// Anything else gives `undefined` and leaves the receiver as it was.
pub open spec fn vm_call_method(receiver: ValueModel, method: Seq<char>, args: Seq<ValueModel>, fuel: nat, w: WorldModel, tape: Seq<ReplyModel>) -> Outcome<(ValueModel, ValueModel)>
    decreases fuel, 4nat, 0int,
{
    let none = Ok((w, (ValueModel::Undefined, receiver)));
    match receiver {
        ValueModel::Array(arr) => {
            let callback = if args.len() > 0 {
                match args[0] {
                    ValueModel::Function(f) => Some(f),
                    _ => None,
                }
            } else {
                None
            };
            if method == "push"@ {
                if args.len() > 0 {
                    let a2 = arr.push(args[0]);
                    match ask_number(w, tape, RequestModel::FromCount(a2.len())) {
                        Err(h) => Err(h),
                        Ok((w1, n)) => Ok((w1, (ValueModel::Number(n), ValueModel::Array(a2)))),
                    }
                } else {
                    none
                }
            } else if method == "pop"@ {
                Ok((w, (top_value(arr), ValueModel::Array(pop_value(arr).0))))
            } else if method == "map"@ {
                match callback {
                    Some(cb) => match vm_map_from(cb, arr, 0, Seq::empty(), fuel, w, tape) {
                        Err(h) => Err(h),
                        Ok((w1, m)) => Ok((w1, (ValueModel::Array(m), receiver))),
                    },
                    None => none,
                }
            } else if method == "filter"@ {
                match callback {
                    Some(cb) => match vm_filter_from(cb, arr, 0, Seq::empty(), fuel, w, tape) {
                        Err(h) => Err(h),
                        Ok((w1, m)) => Ok((w1, (ValueModel::Array(m), receiver))),
                    },
                    None => none,
                }
            } else if method == "forEach"@ {
                match callback {
                    Some(cb) => match vm_for_each_from(cb, arr, 0, fuel, w, tape) {
                        Err(h) => Err(h),
                        Ok((w1, _)) => Ok((w1, (ValueModel::Undefined, receiver))),
                    },
                    None => none,
                }
            } else if method == "reduce"@ {
                match callback {
                    Some(cb) => {
                        let start = if args.len() > 1 {
                            Some((0nat, args[1]))
                        } else if arr.len() > 0 {
                            Some((1nat, arr[0]))
                        } else {
                            None
                        };
                        match start {
                            Some((k, acc)) => match vm_reduce_from(cb, arr, k, acc, fuel, w, tape) {
                                Err(h) => Err(h),
                                Ok((w1, v)) => Ok((w1, (v, receiver))),
                            },
                            None => none,
                        }
                    },
                    None => none,
                }
            } else if method == "includes"@ {
                let needle = if args.len() > 0 { args[0] } else { ValueModel::Undefined };
                Ok((w, (ValueModel::Boolean(includes_value(arr, needle)), receiver)))
            } else if method == "join"@ {
                let sep = if args.len() > 0 {
                    vm_primitive_string(args[0], w, tape)
                } else {
                    Ok((w, ","@))
                };
                match sep {
                    Err(h) => Err(h),
                    Ok((w1, s)) => match vm_join_primitive(arr, s, w1, tape) {
                        Err(h) => Err(h),
                        Ok((w2, t)) => Ok((w2, (ValueModel::String(t), receiver))),
                    },
                }
            } else {
                none
            }
        },
        ValueModel::Object(_) => match property_value(receiver, method) {
            ValueModel::Function(f) => {
                let d = w.this_cells.len();
                let w1 = WorldModel { this_cells: w.this_cells.push(receiver), ..w };
                match vm_call_function(f, args, Some(d), fuel, w1, tape) {
                    Err(h) => Err(h),
                    Ok((w2, v)) => {
                        let updated = if d < w2.this_cells.len() { w2.this_cells[d as int] } else { ValueModel::Undefined };
                        Ok((WorldModel { this_cells: cells_truncate(w2.this_cells, d), ..w2 }, (v, updated)))
                    },
                }
            },
            _ => none,
        },
        _ => none,
    }
}

/// `Call`: a global constructor by name, else a function bound to the name
/// (with the caller's `this`), else `undefined`.
pub open spec fn vm_step_call(name: Seq<char>, n: nat, ip: nat, this: Option<nat>, fuel: nat, stack: Seq<ValueModel>, last: ValueModel, w: WorldModel, tape: Seq<ReplyModel>) -> Outcome<StepModel>
    decreases fuel, 5nat, 0int,
{
    let (s1, args) = pop_args(stack, n);
    match vm_call_global(name, args, w, tape) {
        Err(h) => Err(h),
        Ok((w1, Some(v))) => Ok((w1, StepModel::Next(ip + 1, s1.push(v), last))),
        Ok((w1, None)) => match scope_get(w1.scope, name) {
            Some(ValueModel::Function(f)) => push_next(vm_call_function(f, args, this, fuel, w1, tape), ip, s1, last),
            _ => Ok((w1, StepModel::Next(ip + 1, s1.push(ValueModel::Undefined), last))),
        },
    }
}

/// `MethodCall`: a method of a computed receiver; the changed receiver is dropped.
pub open spec fn vm_step_method_call(method: Seq<char>, n: nat, ip: nat, fuel: nat, stack: Seq<ValueModel>, last: ValueModel, w: WorldModel, tape: Seq<ReplyModel>) -> Outcome<StepModel>
    decreases fuel, 5nat, 0int,
{
    let (s1, obj) = pop_value(stack);
    let (s2, args) = pop_args(s1, n);
    match vm_call_method(obj, method, args, fuel, w, tape) {
        Err(h) => Err(h),
        Ok((w1, (r, _))) => Ok((w1, StepModel::Next(ip + 1, s2.push(r), last))),
    }
}

/// `MethodCallNamed`: a method of a global object, else a method of the
/// value bound to the name, which is then assigned the changed receiver.
pub open spec fn vm_step_named_call(object_name: Seq<char>, method: Seq<char>, n: nat, ip: nat, fuel: nat, stack: Seq<ValueModel>, last: ValueModel, w: WorldModel, tape: Seq<ReplyModel>) -> Outcome<StepModel>
    decreases fuel, 5nat, 0int,
{
    let (s1, args) = pop_args(stack, n);
    match vm_call_global_method(object_name, method, args, w, tape) {
        Err(h) => Err(h),
        Ok((w1, Some(v))) => Ok((w1, StepModel::Next(ip + 1, s1.push(v), last))),
        Ok((w1, None)) => {
            let obj = match scope_get(w1.scope, object_name) {
                Some(v) => v,
                None => ValueModel::Undefined,
            };
            match vm_call_method(obj, method, args, fuel, w1, tape) {
                Err(h) => Err(h),
                Ok((w2, (r, updated))) => Ok((
                    with_scope(w2, scope_set(w2.scope, object_name, updated).0),
                    StepModel::Next(ip + 1, s1.push(r), last),
                )),
            }
        },
    }
}

/// Where a `try` statement leads once its flow is settled.
pub open spec fn after_try(flow: CompletionModel, ip: nat, stack: Seq<ValueModel>, last: ValueModel) -> StepModel {
    match flow {
        CompletionModel::Normal(v) => StepModel::Next(ip + 1, stack.push(v), last),
        _ => StepModel::Done(flow),
    }
}

/// `try`/`catch`/`finally`: the try code runs in the same frame, a throw
/// goes to the catch clause, and then the finally code runs; when the
/// finally code ends by `return` or `throw`, that ending wins.
pub open spec fn vm_step_try(
    try_program: Seq<InstrModel>,
    catch_param: Option<Seq<char>>,
    catch_program: Option<Seq<InstrModel>>,
    finally_program: Option<Seq<InstrModel>>,
    ip: nat,
    this: Option<nat>,
    fuel: nat,
    stack: Seq<ValueModel>,
    last: ValueModel,
    w: WorldModel,
    tape: Seq<ReplyModel>,
) -> Outcome<StepModel>
    decreases fuel, 5nat, 0int,
{
    match vm_run(try_program, this, fuel, w, tape) {
        Err(h) => Err(h),
        Ok((w1, flow)) => match vm_catch(flow, catch_param, catch_program, this, fuel, w1, tape) {
            Err(h) => Err(h),
            Ok((w2, flow2)) => match finally_program {
                Some(fp) => match vm_run(fp, this, fuel, w2, tape) {
                    Err(h) => Err(h),
                    Ok((w3, ff)) => Ok((w3, if ff is Normal { after_try(flow2, ip, stack, last) } else { StepModel::Done(ff) })),
                },
                None => Ok((w2, after_try(flow2, ip, stack, last))),
            },
        },
    }
}

/// One instruction at position `ip`.
pub open spec fn vm_step(instr: InstrModel, ip: nat, this: Option<nat>, fuel: nat, stack: Seq<ValueModel>, last: ValueModel, w: WorldModel, tape: Seq<ReplyModel>) -> Outcome<StepModel>
    decreases fuel, 6nat, 0int,
{
    match instr {
        InstrModel::Call(name, n) => vm_step_call(name, n, ip, this, fuel, stack, last, w, tape),
        InstrModel::MethodCall { method, arg_count } => vm_step_method_call(method, arg_count, ip, fuel, stack, last, w, tape),
        InstrModel::MethodCallNamed { object_name, method, arg_count } =>
            vm_step_named_call(object_name, method, arg_count, ip, fuel, stack, last, w, tape),
        InstrModel::TryCatchFinally { try_program, catch_param, catch_program, finally_program } =>
            vm_step_try(try_program, catch_param, catch_program, finally_program, ip, this, fuel, stack, last, w, tape),
        _ => vm_step_data(instr, ip, this, stack, last, w, tape),
    }
}

// ---------------------------------------------------------------------------
// Executable machine
// ---------------------------------------------------------------------------

/// Where an instruction leads: the next position, or the end of the code.
#[derive(Debug)]
pub enum Control {
    Next(usize),
    Done(Completion),
}

/// An executable step agrees with a modelled one.
pub open spec fn agrees_step(out: Outcome<StepModel>, r: Result<Control, Halt>, stack: Seq<ValueModel>, last: ValueModel, w: WorldModel) -> bool {
    match out {
        Ok((w2, StepModel::Next(ip2, s2, l2))) => r matches Ok(Control::Next(x)) && x as nat == ip2 && stack == s2 && last == l2 && w == w2,
        Ok((w2, StepModel::Done(c))) => r matches Ok(Control::Done(x)) && x@ == c && w == w2,
        Err(h) => r matches Err(e) && e@ == h,
    }
}

pub proof fn lemma_values_model_add(a: Seq<JsValue>, b: Seq<JsValue>)
    ensures
        values_model(a + b) == values_model(a) + values_model(b),
    decreases b.len(),
{
    if b.len() == 0 {
        assert(a + b =~= a);
        assert(values_model(a) + values_model(b) =~= values_model(a));
    } else {
        lemma_values_model_add(a, b.drop_last());
        assert((a + b).drop_last() =~= a + b.drop_last());
        assert((a + b).last() == b.last());
        assert(values_model(a) + values_model(b.drop_last()).push(b.last()@)
            =~= (values_model(a) + values_model(b.drop_last())).push(b.last()@));
    }
}

pub proof fn lemma_values_model_update(s: Seq<JsValue>, i: int, x: JsValue)
    requires
        0 <= i < s.len(),
    ensures
        values_model(s.update(i, x)) == values_model(s).update(i, x@),
{
    lemma_values_model_len(s);
    lemma_values_model_len(s.update(i, x));
    assert forall|k: int| 0 <= k < s.len() implies values_model(s.update(i, x))[k] == values_model(s).update(i, x@)[k] by {
        lemma_values_model_index(s.update(i, x), k);
        lemma_values_model_index(s, k);
    }
    assert(values_model(s.update(i, x)) =~= values_model(s).update(i, x@));
}

fn push_value(stack: &mut Vec<JsValue>, v: JsValue)
    ensures
        values_model(final(stack)@) == values_model(old(stack)@).push(v@),
{
    proof { lemma_values_model_push(stack@, v); }
    stack.push(v);
}

/// Pops the top of the operand stack, `undefined` when it is empty.
fn pop_top(stack: &mut Vec<JsValue>) -> (v: JsValue)
    ensures
        (values_model(final(stack)@), v@) == pop_value(values_model(old(stack)@)),
{
    proof { lemma_values_model_len(old(stack)@); }
    match stack.pop() {
        Some(v) => {
            proof {
                assert(old(stack)@.subrange(0, old(stack)@.len() - 1) =~= old(stack)@.drop_last());
                assert(values_model(old(stack)@).drop_last() =~= values_model(old(stack)@.drop_last()));
            }
            v
        },
        None => JsValue::Undefined,
    }
}

/// Pops `n` arguments, the last one on top.
fn take_args(stack: &mut Vec<JsValue>, n: usize) -> (args: Vec<JsValue>)
    ensures
        (values_model(final(stack)@), values_model(args@)) == pop_args(values_model(old(stack)@), n as nat),
        values_model(args@).len() == n,
{
    let len = stack.len();
    proof { lemma_values_model_len(stack@); }
    if n <= len {
        let ghost s0 = stack@;
        let args = stack.split_off(len - n);
        proof {
            let k = len - n;
            assert(stack@ =~= s0.take(k as int));
            assert(args@ =~= s0.skip(k as int));
            lemma_values_model_take(s0, k as int);
            lemma_values_model_add(s0.take(k as int), s0.skip(k as int));
            assert(s0.take(k as int) + s0.skip(k as int) =~= s0);
            lemma_values_model_len(s0.take(k as int));
            lemma_values_model_len(s0.skip(k as int));
            assert(values_model(s0).skip(k as int) =~= values_model(s0.skip(k as int)));
        }
        args
    } else {
        let mut args: Vec<JsValue> = Vec::new();
        let mut k: usize = 0;
        assert(values_model(args@) =~= Seq::new(0, |i: int| ValueModel::Undefined));
        while k < n - len
            invariant
                n > len,
                len == stack@.len(),
                stack@ == old(stack)@,
                k <= n - len,
                values_model(args@) =~= Seq::new(k as nat, |i: int| ValueModel::Undefined),
            decreases n - len - k,
        {
            proof { lemma_values_model_push(args@, JsValue::Undefined); }
            args.push(JsValue::Undefined);
            k += 1;
        }
        proof { lemma_values_model_add(args@, stack@); }
        args.append(stack);
        proof {
            assert(values_model(stack@) =~= Seq::<ValueModel>::empty());
            lemma_values_model_len(old(stack)@);
        }
        args
    }
}

/// The properties of an object literal.
pub(crate) fn build_object(keys: &Vec<String>, values: &Vec<JsValue>) -> (p: Vec<(String, JsValue)>)
    requires
        values_model(values@).len() == keys@.len(),
    ensures
        props_model(p@) == object_from(strings_model(keys@), values_model(values@)),
{
    let ghost km = strings_model(keys@);
    let ghost vm = values_model(values@);
    proof { lemma_values_model_len(values@); }
    let mut p: Vec<(String, JsValue)> = Vec::new();
    let mut i: usize = 0;
    assert(props_model(p@) =~= Seq::<(Seq<char>, ValueModel)>::empty());
    assert(km.take(0) =~= Seq::<Seq<char>>::empty());
    while i < keys.len()
        invariant
            i <= keys@.len(),
            km == strings_model(keys@),
            vm == values_model(values@),
            vm.len() == keys@.len(),
            values@.len() == keys@.len(),
            props_model(p@) == object_from(km.take(i as int), vm),
        decreases keys@.len() - i,
    {
        proof {
            lemma_values_model_index(values@, i as int);
            assert(km.take(i + 1).drop_last() =~= km.take(i as int));
            assert(km.take(i + 1).last() == keys@[i as int]@);
        }
        crate::ops::props_insert(&mut p, keys[i].clone(), clone_value(&values[i]));
        i += 1;
    }
    assert(km.take(keys@.len() as int) =~= km);
    p
}

impl Machine {
    /// A binary operator applied to two values.
    pub(crate) fn binary(&mut self, op: BinaryOperator, a: &JsValue, b: &JsValue, tape: &Vec<NumericReply>) -> (r: Result<JsValue, Halt>)
        ensures
            agrees_value(vm_binary(op, a@, b@, old(self)@, replies_model(tape@)), r, final(self)@),
    {
        match op {
            BinaryOperator::Add => self.add(a, b, tape),
            BinaryOperator::Subtract => self.arithmetic(ArithmeticOp::Subtract, a, b, tape),
            BinaryOperator::Multiply => self.arithmetic(ArithmeticOp::Multiply, a, b, tape),
            BinaryOperator::Divide => self.arithmetic(ArithmeticOp::Divide, a, b, tape),
            BinaryOperator::Remainder => self.arithmetic(ArithmeticOp::Remainder, a, b, tape),
            BinaryOperator::Equal => {
                let e = self.equals(a, b, tape)?;
                Ok(JsValue::Boolean(e))
            },
            BinaryOperator::NotEqual => {
                let e = self.equals(a, b, tape)?;
                Ok(JsValue::Boolean(!e))
            },
            BinaryOperator::StrictEqual => Ok(JsValue::Boolean(strict_equals(a, b))),
            BinaryOperator::StrictNotEqual => Ok(JsValue::Boolean(!strict_equals(a, b))),
            BinaryOperator::LessThan => {
                let o = self.compare(a, b, tape)?;
                Ok(JsValue::Boolean(match o {
                    Some(NumberOrder::Less) => true,
                    _ => false,
                }))
            },
            BinaryOperator::GreaterThan => {
                let o = self.compare(a, b, tape)?;
                Ok(JsValue::Boolean(match o {
                    Some(NumberOrder::Greater) => true,
                    _ => false,
                }))
            },
            BinaryOperator::LessThanOrEqual => {
                let o = self.compare(a, b, tape)?;
                Ok(JsValue::Boolean(match o {
                    Some(NumberOrder::Less) => true,
                    Some(NumberOrder::Equal) => true,
                    _ => false,
                }))
            },
            BinaryOperator::GreaterThanOrEqual => {
                let o = self.compare(a, b, tape)?;
                Ok(JsValue::Boolean(match o {
                    Some(NumberOrder::Greater) => true,
                    Some(NumberOrder::Equal) => true,
                    _ => false,
                }))
            },
            BinaryOperator::Unsupported => Ok(JsValue::Undefined),
        }
    }

    /// A unary operator applied to a value.
    pub(crate) fn unary(&mut self, op: UnaryOperator, v: &JsValue, tape: &Vec<NumericReply>) -> (r: Result<JsValue, Halt>)
        ensures
            agrees_value(vm_unary(op, v@, old(self)@, replies_model(tape@)), r, final(self)@),
    {
        match op {
            UnaryOperator::Negate => {
                let n = self.to_number(v, tape)?;
                Ok(JsValue::Number(n.negate()))
            },
            UnaryOperator::Not => Ok(JsValue::Boolean(!to_bool(v))),
            UnaryOperator::Unsupported => Ok(JsValue::Undefined),
        }
    }

    /// The value `this` refers to.
    pub(crate) fn this_value(&self, this: Option<usize>) -> (v: JsValue)
        ensures
            v@ == this_value(self@, this_index(this)),
    {
        proof { lemma_values_model_len(self.this_cells@); }
        match this {
            Some(i) => if i < self.this_cells.len() {
                proof { lemma_values_model_index(self.this_cells@, i as int); }
                clone_value(&self.this_cells[i])
            } else {
                JsValue::Undefined
            },
            None => JsValue::Undefined,
        }
    }

    /// `this.member = value`.
    fn assign_this_member(&mut self, this: Option<usize>, member: &String, v: &JsValue, tape: &Vec<NumericReply>) -> (r: Result<(), Halt>)
        ensures
            match this_index(this) {
                Some(i) => if i < old(self)@.this_cells.len() {
                    match vm_set_property(old(self)@.this_cells[i as int], member@, v@, old(self)@, replies_model(tape@)) {
                        Err(h) => r matches Err(e) && e@ == h,
                        Ok((w1, (obj, _))) => r is Ok && final(self)@ == (WorldModel { this_cells: w1.this_cells.update(i as int, obj), ..w1 }),
                    }
                } else {
                    r is Ok && final(self)@ == old(self)@
                },
                None => r is Ok && final(self)@ == old(self)@,
            },
    {
        proof { lemma_values_model_len(self.this_cells@); }
        match this {
            Some(i) => if i < self.this_cells.len() {
                proof { lemma_values_model_index(self.this_cells@, i as int); }
                let cell = clone_value(&self.this_cells[i]);
                let (obj, _) = self.set_property(cell, member, clone_value(v), tape)?;
                proof {
                    crate::ops::lemma_set_property_frame(old(self)@.this_cells[i as int], member@, v@, old(self)@, replies_model(tape@));
                    lemma_values_model_len(self.this_cells@);
                }
                proof { lemma_values_model_update(self.this_cells@, i as int, obj); }
                self.this_cells.set(i, obj);
                Ok(())
            } else {
                Ok(())
            },
            None => Ok(()),
        }
    }

    /// Instructions on the operand stack, the scope and the position.
    fn step_stack(
        &mut self,
        instr: &Instruction,
        ip: usize,
        this: Option<usize>,
        stack: &mut Vec<JsValue>,
        last: &mut JsValue,
        tape: &Vec<NumericReply>,
    ) -> (r: Result<Control, Halt>)
        requires
            ip < usize::MAX,
            instr is PushLiteral || instr is PushUndefined || instr is LoadIdentifier || instr is LoadThis || instr is StoreIdentifier || instr is Declare || instr is Dup || instr is Pop || instr is SetLast || instr is LogicalAnd || instr is LogicalOr || instr is JumpIfFalse || instr is Jump || instr is Throw || instr is Return || instr is MakeArray || instr is MakeObject,
        ensures
            agrees_step(
                vm_step_data(instr_model(*instr), ip as nat, this_index(this), values_model(old(stack)@), old(last)@, old(self)@, replies_model(tape@)),
                r,
                values_model(final(stack)@),
                final(last)@,
                final(self)@,
            ),
    {
        let next = ip + 1;
        proof { lemma_values_model_len(stack@); }
        match instr {
            Instruction::PushLiteral(v) => {
                push_value(stack, clone_value(v));
                Ok(Control::Next(next))
            },
            Instruction::PushUndefined => {
                push_value(stack, JsValue::Undefined);
                Ok(Control::Next(next))
            },
            Instruction::LoadIdentifier(name) => {
                let v = match global_property(name) {
                    Some(g) => g,
                    None => match self.scope.get(name) {
                        Some(x) => x,
                        None => JsValue::Undefined,
                    },
                };
                push_value(stack, v);
                Ok(Control::Next(next))
            },
            Instruction::LoadThis => {
                let v = self.this_value(this);
                push_value(stack, v);
                Ok(Control::Next(next))
            },
            Instruction::StoreIdentifier(name) => {
                let v = pop_top(stack);
                let _ = self.scope.set(name, v);
                Ok(Control::Next(next))
            },
            Instruction::Declare { kind, name } => {
                let v = pop_top(stack);
                self.scope.define(name.clone(), v, *kind);
                Ok(Control::Next(next))
            },
            Instruction::Dup => {
                if stack.len() > 0 {
                    proof { lemma_values_model_index(stack@, stack@.len() - 1); }
                    let top = clone_value(&stack[stack.len() - 1]);
                    push_value(stack, top);
                }
                Ok(Control::Next(next))
            },
            Instruction::Pop => {
                let _ = pop_top(stack);
                Ok(Control::Next(next))
            },
            Instruction::SetLast => {
                if stack.len() > 0 {
                    proof { lemma_values_model_index(stack@, stack@.len() - 1); }
                    *last = clone_value(&stack[stack.len() - 1]);
                } else {
                    *last = JsValue::Undefined;
                }
                Ok(Control::Next(next))
            },
            Instruction::LogicalAnd(target) => {
                let t = if stack.len() > 0 {
                    proof { lemma_values_model_index(stack@, stack@.len() - 1); }
                    to_bool(&stack[stack.len() - 1])
                } else {
                    false
                };
                Ok(Control::Next(if t { next } else { *target }))
            },
            Instruction::LogicalOr(target) => {
                let t = if stack.len() > 0 {
                    proof { lemma_values_model_index(stack@, stack@.len() - 1); }
                    to_bool(&stack[stack.len() - 1])
                } else {
                    false
                };
                Ok(Control::Next(if t { *target } else { next }))
            },
            Instruction::JumpIfFalse(target) => {
                let c = pop_top(stack);
                Ok(Control::Next(if to_bool(&c) { next } else { *target }))
            },
            Instruction::Jump(target) => Ok(Control::Next(*target)),
            Instruction::Throw => Ok(Control::Done(Completion::Throw(pop_top(stack)))),
            Instruction::Return => {
                if stack.len() > 0 {
                    Ok(Control::Done(Completion::Return(pop_top(stack))))
                } else {
                    Ok(Control::Done(Completion::Return(clone_value(last))))
                }
            },
            Instruction::MakeArray(n) => {
                let items = take_args(stack, *n);
                push_value(stack, JsValue::Array(items));
                Ok(Control::Next(next))
            },
            Instruction::MakeObject(keys) => {
                let values = take_args(stack, keys.len());
                let p = build_object(keys, &values);
                push_value(stack, JsValue::Object(p));
                Ok(Control::Next(next))
            },
            _ => Ok(Control::Next(next)),
        }
    }

    /// Operators and property reads.
    fn step_compute(
        &mut self,
        instr: &Instruction,
        ip: usize,
        this: Option<usize>,
        stack: &mut Vec<JsValue>,
        last: &mut JsValue,
        tape: &Vec<NumericReply>,
    ) -> (r: Result<Control, Halt>)
        requires
            ip < usize::MAX,
            instr is BinaryOp || instr is UnaryOp || instr is MemberAccess || instr is IndexAccess,
        ensures
            agrees_step(
                vm_step_data(instr_model(*instr), ip as nat, this_index(this), values_model(old(stack)@), old(last)@, old(self)@, replies_model(tape@)),
                r,
                values_model(final(stack)@),
                final(last)@,
                final(self)@,
            ),
    {
        let next = ip + 1;
        proof { lemma_values_model_len(stack@); }
        match instr {
            Instruction::BinaryOp(op) => {
                let right = pop_top(stack);
                let left = pop_top(stack);
                let v = self.binary(*op, &left, &right, tape)?;
                push_value(stack, v);
                Ok(Control::Next(next))
            },
            Instruction::UnaryOp(op) => {
                let x = pop_top(stack);
                let v = self.unary(*op, &x, tape)?;
                push_value(stack, v);
                Ok(Control::Next(next))
            },
            Instruction::MemberAccess(member) => {
                let obj = pop_top(stack);
                push_value(stack, get_property(&obj, member));
                Ok(Control::Next(next))
            },
            Instruction::IndexAccess => {
                let index = pop_top(stack);
                let obj = pop_top(stack);
                let v = self.get_index(&obj, &index, tape)?;
                push_value(stack, v);
                Ok(Control::Next(next))
            },
            _ => Ok(Control::Next(next)),
        }
    }

    /// Property and index writes.
    fn step_assign(
        &mut self,
        instr: &Instruction,
        ip: usize,
        this: Option<usize>,
        stack: &mut Vec<JsValue>,
        last: &mut JsValue,
        tape: &Vec<NumericReply>,
    ) -> (r: Result<Control, Halt>)
        requires
            ip < usize::MAX,
            instr is AssignThisMember || instr is AssignNamedMember || instr is AssignComputedMember || instr is AssignNamedIndex || instr is AssignComputedIndex,
        ensures
            agrees_step(
                vm_step_data(instr_model(*instr), ip as nat, this_index(this), values_model(old(stack)@), old(last)@, old(self)@, replies_model(tape@)),
                r,
                values_model(final(stack)@),
                final(last)@,
                final(self)@,
            ),
    {
        let next = ip + 1;
        proof { lemma_values_model_len(stack@); }
        match instr {
            Instruction::AssignThisMember(member) => {
                let v = pop_top(stack);
                self.assign_this_member(this, member, &v, tape)?;
                push_value(stack, v);
                Ok(Control::Next(next))
            },
            Instruction::AssignNamedMember { object_name, member } => {
                let v = pop_top(stack);
                match self.scope.get(object_name) {
                    Some(obj) => {
                        let (obj2, _) = self.set_property(obj, member, clone_value(&v), tape)?;
                        let _ = self.scope.set(object_name, obj2);
                    },
                    None => {},
                }
                push_value(stack, v);
                Ok(Control::Next(next))
            },
            Instruction::AssignComputedMember(member) => {
                let v = pop_top(stack);
                let target = pop_top(stack);
                let _ = self.set_property(target, member, clone_value(&v), tape)?;
                push_value(stack, v);
                Ok(Control::Next(next))
            },
            Instruction::AssignNamedIndex(name) => {
                let v = pop_top(stack);
                let index = pop_top(stack);
                match self.scope.get(name) {
                    Some(obj) => {
                        let obj2 = self.set_index(obj, &index, clone_value(&v), tape)?;
                        let _ = self.scope.set(name, obj2);
                    },
                    None => {},
                }
                push_value(stack, v);
                Ok(Control::Next(next))
            },
            Instruction::AssignComputedIndex => {
                let obj = pop_top(stack);
                let v = pop_top(stack);
                let index = pop_top(stack);
                let _ = self.set_index(obj, &index, clone_value(&v), tape)?;
                push_value(stack, v);
                Ok(Control::Next(next))
            },
            _ => Ok(Control::Next(next)),
        }
    }

    /// The instructions that neither call code nor end a call early.
    fn step_data(
        &mut self,
        instr: &Instruction,
        ip: usize,
        this: Option<usize>,
        stack: &mut Vec<JsValue>,
        last: &mut JsValue,
        tape: &Vec<NumericReply>,
    ) -> (r: Result<Control, Halt>)
        requires
            ip < usize::MAX,
        ensures
            agrees_step(
                vm_step_data(instr_model(*instr), ip as nat, this_index(this), values_model(old(stack)@), old(last)@, old(self)@, replies_model(tape@)),
                r,
                values_model(final(stack)@),
                final(last)@,
                final(self)@,
            ),
    {
        match instr {
            Instruction::BinaryOp(_) | Instruction::UnaryOp(_) | Instruction::MemberAccess(_) | Instruction::IndexAccess =>
                self.step_compute(instr, ip, this, stack, last, tape),
            Instruction::AssignThisMember(_) | Instruction::AssignNamedMember { .. } | Instruction::AssignComputedMember(_)
            | Instruction::AssignNamedIndex(_) | Instruction::AssignComputedIndex => self.step_assign(instr, ip, this, stack, last, tape),
            Instruction::Call(..) | Instruction::MethodCall { .. } | Instruction::MethodCallNamed { .. }
            | Instruction::TryCatchFinally { .. } => Ok(Control::Next(ip + 1)),
            _ => self.step_stack(instr, ip, this, stack, last, tape),
        }
    }
}

fn three_values(a: JsValue, b: JsValue, c: JsValue) -> (r: Vec<JsValue>)
    ensures
        values_model(r@) == seq![a@, b@, c@],
{
    let mut v: Vec<JsValue> = Vec::new();
    assert(values_model(v@) =~= Seq::<ValueModel>::empty());
    push_value(&mut v, a);
    push_value(&mut v, b);
    push_value(&mut v, c);
    assert(values_model(v@) =~= seq![a@, b@, c@]);
    v
}

fn four_values(a: JsValue, b: JsValue, c: JsValue, d: JsValue) -> (r: Vec<JsValue>)
    ensures
        values_model(r@) == seq![a@, b@, c@, d@],
{
    let mut v: Vec<JsValue> = Vec::new();
    assert(values_model(v@) =~= Seq::<ValueModel>::empty());
    push_value(&mut v, a);
    push_value(&mut v, b);
    push_value(&mut v, c);
    push_value(&mut v, d);
    assert(values_model(v@) =~= seq![a@, b@, c@, d@]);
    v
}

/// Whether some element is strictly equal to `needle`.
fn includes(arr: &Vec<JsValue>, needle: &JsValue) -> (r: bool)
    ensures
        r == includes_value(values_model(arr@), needle@),
{
    let ghost am = values_model(arr@);
    proof { lemma_values_model_len(arr@); }
    let mut k: usize = 0;
    while k < arr.len()
        invariant
            k <= arr@.len(),
            am == values_model(arr@),
            am.len() == arr@.len(),
            forall|j: int| 0 <= j < k ==> !values_strictly_equal(#[trigger] am[j], needle@),
        decreases arr@.len() - k,
    {
        proof { lemma_values_model_index(arr@, k as int); }
        if strict_equals(&arr[k], needle) {
            assert(values_strictly_equal(am[k as int], needle@));
            return true;
        }
        k += 1;
    }
    false
}

impl Machine {
    /// Runs code from its start with an empty operand stack.
    pub fn run_code(&mut self, code: &Vec<Instruction>, this: Option<usize>, fuel: u64, tape: &Vec<NumericReply>) -> (r: Result<Completion, Halt>)
        ensures
            agrees_completion(vm_run(instrs_model(code@), this_index(this), fuel as nat, old(self)@, replies_model(tape@)), r, final(self)@),
        decreases fuel, 1nat, 0int,
    {
        let ghost cm = instrs_model(code@);
        let ghost tm = replies_model(tape@);
        let ghost ti = this_index(this);
        proof { lemma_instrs_model_len(code@); }
        let mut ip: usize = 0;
        let mut stack: Vec<JsValue> = Vec::new();
        let mut last = JsValue::Undefined;
        let mut f: u64 = fuel;
        assert(values_model(stack@) =~= Seq::<ValueModel>::empty());
        loop
            invariant
                f <= fuel,
                cm == instrs_model(code@),
                cm.len() == code@.len(),
                tm == replies_model(tape@),
                ti == this_index(this),
                vm_run(cm, ti, fuel as nat, old(self)@, tm) == vm_loop(cm, ti, f as nat, ip as nat, values_model(stack@), last@, self@, tm),
            decreases f,
        {
            if ip >= code.len() {
                return Ok(Completion::Normal(last));
            }
            if f == 0 {
                return Err(Halt::OutOfFuel);
            }
            f = f - 1;
            proof { lemma_instrs_model_index(code@, ip as int); }
            match self.step(&code[ip], ip, this, f, &mut stack, &mut last, tape) {
                Err(e) => {
                    return Err(e);
                },
                Ok(Control::Done(c)) => {
                    return Ok(c);
                },
                Ok(Control::Next(next)) => {
                    ip = next;
                },
            }
        }
    }

    /// Binds each parameter that has an argument in the innermost frame.
    fn bind_arguments(&mut self, params: &Vec<String>, args: &Vec<JsValue>)
        ensures
            final(self)@ == with_scope(old(self)@, bind_params(old(self)@.scope, strings_model(params@), values_model(args@))),
    {
        let ghost pm = strings_model(params@);
        let ghost am = values_model(args@);
        proof { lemma_values_model_len(args@); }
        let mut i: usize = 0;
        assert(pm.take(0) =~= Seq::<Seq<char>>::empty());
        while i < params.len()
            invariant
                i <= params@.len(),
                pm == strings_model(params@),
                am == values_model(args@),
                am.len() == args@.len(),
                self@ == with_scope(old(self)@, bind_params(old(self)@.scope, pm.take(i as int), am)),
            decreases params@.len() - i,
        {
            proof {
                assert(pm.take(i + 1).drop_last() =~= pm.take(i as int));
                assert(pm.take(i + 1).last() == params@[i as int]@);
            }
            if i < args.len() {
                proof { lemma_values_model_index(args@, i as int); }
                self.scope.define(params[i].clone(), clone_value(&args[i]), JsDeclarationKind::Let);
            } else {
                self.scope.define(params[i].clone(), JsValue::Undefined, JsDeclarationKind::Let);
            }
            i += 1;
        }
        assert(pm.take(params@.len() as int) =~= pm);
    }

    /// Calls a function; see `vm_call_function`.
    pub fn call_function(&mut self, f: &JsFunction, args: &Vec<JsValue>, this: Option<usize>, fuel: u64, tape: &Vec<NumericReply>) -> (r: Result<JsValue, Halt>)
        ensures
            agrees_value(vm_call_function(f@, values_model(args@), this_index(this), fuel as nat, old(self)@, replies_model(tape@)), r, final(self)@),
        decreases fuel, 2nat, 0int,
    {
        let depth = self.scope.depth();
        self.scope.push_frame();
        self.bind_arguments(&f.parameters, args);
        let c = self.run_code(&f.bytecode.instructions, this, fuel, tape)?;
        self.scope.truncate(depth);
        Ok(c.into_call_result())
    }

    /// The `catch` clause of a `try` statement; see `vm_catch`.
    fn catch_clause(
        &mut self,
        flow: Completion,
        param: &Option<String>,
        catch_program: &Option<BytecodeProgram>,
        this: Option<usize>,
        fuel: u64,
        tape: &Vec<NumericReply>,
    ) -> (r: Result<Completion, Halt>)
        ensures
            agrees_completion(
                vm_catch(flow@, opt_string_model(*param), opt_program_model(*catch_program), this_index(this), fuel as nat, old(self)@, replies_model(tape@)),
                r,
                final(self)@,
            ),
        decreases fuel, 2nat, 0int,
    {
        match catch_program {
            Some(cp) => match flow {
                Completion::Throw(thrown) => {
                    let depth = self.scope.depth();
                    self.scope.push_frame();
                    match param {
                        Some(p) => self.scope.define(p.clone(), thrown, JsDeclarationKind::Let),
                        None => {},
                    }
                    let c = self.run_code(&cp.instructions, this, fuel, tape)?;
                    self.scope.truncate(depth);
                    Ok(c)
                },
                other => Ok(other),
            },
            None => Ok(flow),
        }
    }

    /// `arr.map(cb)`.
    fn map_array(&mut self, cb: &JsFunction, arr: &Vec<JsValue>, fuel: u64, tape: &Vec<NumericReply>) -> (r: Result<Vec<JsValue>, Halt>)
        ensures
            match vm_map_from(cb@, values_model(arr@), 0, Seq::empty(), fuel as nat, old(self)@, replies_model(tape@)) {
                Ok((w2, m)) => r matches Ok(x) && values_model(x@) == m && final(self)@ == w2,
                Err(h) => r matches Err(e) && e@ == h,
            },
        decreases fuel, 3nat, 0int,
    {
        let ghost am = values_model(arr@);
        let ghost tm = replies_model(tape@);
        proof { lemma_values_model_len(arr@); }
        let mut acc: Vec<JsValue> = Vec::new();
        let mut k: usize = 0;
        assert(values_model(acc@) =~= Seq::<ValueModel>::empty());
        while k < arr.len()
            invariant
                k <= arr@.len(),
                am == values_model(arr@),
                am.len() == arr@.len(),
                tm == replies_model(tape@),
                vm_map_from(cb@, am, 0, Seq::empty(), fuel as nat, old(self)@, tm)
                    == vm_map_from(cb@, am, k as nat, values_model(acc@), fuel as nat, self@, tm),
            decreases arr@.len() - k,
        {
            proof { lemma_values_model_index(arr@, k as int); }
            let index = self.ask_number(tape, NumericRequest::FromCount(k))?;
            let call_args = three_values(clone_value(&arr[k]), JsValue::Number(index), JsValue::Array(clone_values(arr)));
            let v = self.call_function(cb, &call_args, None, fuel, tape)?;
            push_value(&mut acc, v);
            k += 1;
        }
        Ok(acc)
    }

    /// `arr.filter(cb)`.
    fn filter_array(&mut self, cb: &JsFunction, arr: &Vec<JsValue>, fuel: u64, tape: &Vec<NumericReply>) -> (r: Result<Vec<JsValue>, Halt>)
        ensures
            match vm_filter_from(cb@, values_model(arr@), 0, Seq::empty(), fuel as nat, old(self)@, replies_model(tape@)) {
                Ok((w2, m)) => r matches Ok(x) && values_model(x@) == m && final(self)@ == w2,
                Err(h) => r matches Err(e) && e@ == h,
            },
        decreases fuel, 3nat, 0int,
    {
        let ghost am = values_model(arr@);
        let ghost tm = replies_model(tape@);
        proof { lemma_values_model_len(arr@); }
        let mut acc: Vec<JsValue> = Vec::new();
        let mut k: usize = 0;
        assert(values_model(acc@) =~= Seq::<ValueModel>::empty());
        while k < arr.len()
            invariant
                k <= arr@.len(),
                am == values_model(arr@),
                am.len() == arr@.len(),
                tm == replies_model(tape@),
                vm_filter_from(cb@, am, 0, Seq::empty(), fuel as nat, old(self)@, tm)
                    == vm_filter_from(cb@, am, k as nat, values_model(acc@), fuel as nat, self@, tm),
            decreases arr@.len() - k,
        {
            proof { lemma_values_model_index(arr@, k as int); }
            let index = self.ask_number(tape, NumericRequest::FromCount(k))?;
            let call_args = three_values(clone_value(&arr[k]), JsValue::Number(index), JsValue::Array(clone_values(arr)));
            let v = self.call_function(cb, &call_args, None, fuel, tape)?;
            if to_bool(&v) {
                push_value(&mut acc, clone_value(&arr[k]));
            }
            k += 1;
        }
        Ok(acc)
    }

    /// `arr.forEach(cb)`.
    fn for_each_array(&mut self, cb: &JsFunction, arr: &Vec<JsValue>, fuel: u64, tape: &Vec<NumericReply>) -> (r: Result<(), Halt>)
        ensures
            match vm_for_each_from(cb@, values_model(arr@), 0, fuel as nat, old(self)@, replies_model(tape@)) {
                Ok((w2, _)) => r is Ok && final(self)@ == w2,
                Err(h) => r matches Err(e) && e@ == h,
            },
        decreases fuel, 3nat, 0int,
    {
        let ghost am = values_model(arr@);
        let ghost tm = replies_model(tape@);
        proof { lemma_values_model_len(arr@); }
        let mut k: usize = 0;
        while k < arr.len()
            invariant
                k <= arr@.len(),
                am == values_model(arr@),
                am.len() == arr@.len(),
                tm == replies_model(tape@),
                vm_for_each_from(cb@, am, 0, fuel as nat, old(self)@, tm) == vm_for_each_from(cb@, am, k as nat, fuel as nat, self@, tm),
            decreases arr@.len() - k,
        {
            proof { lemma_values_model_index(arr@, k as int); }
            let index = self.ask_number(tape, NumericRequest::FromCount(k))?;
            let call_args = three_values(clone_value(&arr[k]), JsValue::Number(index), JsValue::Array(clone_values(arr)));
            let _ = self.call_function(cb, &call_args, None, fuel, tape)?;
            k += 1;
        }
        Ok(())
    }

    /// `arr.reduce(cb, ...)` from position `start` with the accumulator `init`.
    fn reduce_array(&mut self, cb: &JsFunction, arr: &Vec<JsValue>, start: usize, init: JsValue, fuel: u64, tape: &Vec<NumericReply>) -> (r: Result<JsValue, Halt>)
        ensures
            agrees_value(vm_reduce_from(cb@, values_model(arr@), start as nat, init@, fuel as nat, old(self)@, replies_model(tape@)), r, final(self)@),
        decreases fuel, 3nat, 0int,
    {
        let ghost am = values_model(arr@);
        let ghost tm = replies_model(tape@);
        proof { lemma_values_model_len(arr@); }
        let mut acc = init;
        let mut k: usize = start;
        while k < arr.len()
            invariant
                am == values_model(arr@),
                am.len() == arr@.len(),
                tm == replies_model(tape@),
                vm_reduce_from(cb@, am, start as nat, init@, fuel as nat, old(self)@, tm)
                    == vm_reduce_from(cb@, am, k as nat, acc@, fuel as nat, self@, tm),
            decreases arr@.len() - k,
        {
            proof { lemma_values_model_index(arr@, k as int); }
            let index = self.ask_number(tape, NumericRequest::FromCount(k))?;
            let call_args = four_values(acc, clone_value(&arr[k]), JsValue::Number(index), JsValue::Array(clone_values(arr)));
            acc = self.call_function(cb, &call_args, None, fuel, tape)?;
            k += 1;
        }
        Ok(acc)
    }

    /// A method of an array; see `vm_call_method`.
    fn array_method(&mut self, arr: Vec<JsValue>, method: &String, args: &Vec<JsValue>, fuel: u64, tape: &Vec<NumericReply>) -> (r: Result<(JsValue, JsValue), Halt>)
        ensures
            match vm_call_method(ValueModel::Array(values_model(arr@)), method@, values_model(args@), fuel as nat, old(self)@, replies_model(tape@)) {
                Ok((w2, (a, b))) => r matches Ok((x, y)) && x@ == a && y@ == b && final(self)@ == w2,
                Err(h) => r matches Err(e) && e@ == h,
            },
        decreases fuel, 4nat, 0int,
    {
        proof {
            lemma_values_model_len(args@);
            lemma_values_model_len(arr@);
        }
        let callback: Option<&JsFunction> = if args.len() > 0 {
            proof { lemma_values_model_index(args@, 0); }
            match &args[0] {
                JsValue::Function(f) => Some(f),
                _ => None,
            }
        } else {
            None
        };
        if *method == text("push") {
            if args.len() > 0 {
                proof { lemma_values_model_index(args@, 0); }
                let mut a2 = arr;
                push_value(&mut a2, clone_value(&args[0]));
                proof { lemma_values_model_len(a2@); }
                let n = self.ask_number(tape, NumericRequest::FromCount(a2.len()))?;
                Ok((JsValue::Number(n), JsValue::Array(a2)))
            } else {
                Ok((JsValue::Undefined, JsValue::Array(arr)))
            }
        } else if *method == text("pop") {
            let mut a2 = arr;
            let top = pop_top(&mut a2);
            Ok((top, JsValue::Array(a2)))
        } else if *method == text("map") {
            match callback {
                Some(cb) => {
                    let m = self.map_array(cb, &arr, fuel, tape)?;
                    Ok((JsValue::Array(m), JsValue::Array(arr)))
                },
                None => Ok((JsValue::Undefined, JsValue::Array(arr))),
            }
        } else if *method == text("filter") {
            match callback {
                Some(cb) => {
                    let m = self.filter_array(cb, &arr, fuel, tape)?;
                    Ok((JsValue::Array(m), JsValue::Array(arr)))
                },
                None => Ok((JsValue::Undefined, JsValue::Array(arr))),
            }
        } else if *method == text("forEach") {
            match callback {
                Some(cb) => {
                    self.for_each_array(cb, &arr, fuel, tape)?;
                    Ok((JsValue::Undefined, JsValue::Array(arr)))
                },
                None => Ok((JsValue::Undefined, JsValue::Array(arr))),
            }
        } else if *method == text("reduce") {
            match callback {
                Some(cb) => {
                    if args.len() > 1 {
                        proof { lemma_values_model_index(args@, 1); }
                        let v = self.reduce_array(cb, &arr, 0, clone_value(&args[1]), fuel, tape)?;
                        Ok((v, JsValue::Array(arr)))
                    } else if arr.len() > 0 {
                        proof { lemma_values_model_index(arr@, 0); }
                        let first = clone_value(&arr[0]);
                        let v = self.reduce_array(cb, &arr, 1, first, fuel, tape)?;
                        Ok((v, JsValue::Array(arr)))
                    } else {
                        Ok((JsValue::Undefined, JsValue::Array(arr)))
                    }
                },
                None => Ok((JsValue::Undefined, JsValue::Array(arr))),
            }
        } else if *method == text("includes") {
            let found = if args.len() > 0 {
                proof { lemma_values_model_index(args@, 0); }
                includes(&arr, &args[0])
            } else {
                includes(&arr, &JsValue::Undefined)
            };
            Ok((JsValue::Boolean(found), JsValue::Array(arr)))
        } else if *method == text("join") {
            let sep = if args.len() > 0 {
                proof { lemma_values_model_index(args@, 0); }
                self.primitive_string(&args[0], tape)?
            } else {
                text(",")
            };
            let t = self.join_primitive(&arr, sep.as_str(), tape)?;
            Ok((JsValue::String(t), JsValue::Array(arr)))
        } else {
            Ok((JsValue::Undefined, JsValue::Array(arr)))
        }
    }

    /// A method called on a value; see `vm_call_method`.
    pub fn call_method(&mut self, receiver: JsValue, method: &String, args: &Vec<JsValue>, fuel: u64, tape: &Vec<NumericReply>) -> (r: Result<(JsValue, JsValue), Halt>)
        ensures
            match vm_call_method(receiver@, method@, values_model(args@), fuel as nat, old(self)@, replies_model(tape@)) {
                Ok((w2, (a, b))) => r matches Ok((x, y)) && x@ == a && y@ == b && final(self)@ == w2,
                Err(h) => r matches Err(e) && e@ == h,
            },
        decreases fuel, 4nat, 1int,
    {
        match receiver {
            JsValue::Array(arr) => self.array_method(arr, method, args, fuel, tape),
            JsValue::Object(p) => {
                let obj = JsValue::Object(p);
                let prop = get_property(&obj, method);
                match prop {
                    JsValue::Function(f) => {
                        proof { lemma_values_model_len(self.this_cells@); }
                        let d = self.this_cells.len();
                        push_value(&mut self.this_cells, obj);
                        let v = self.call_function(&f, args, Some(d), fuel, tape)?;
                        proof { lemma_values_model_len(self.this_cells@); }
                        let updated = if d < self.this_cells.len() {
                            proof { lemma_values_model_index(self.this_cells@, d as int); }
                            clone_value(&self.this_cells[d])
                        } else {
                            JsValue::Undefined
                        };
                        proof {
                            if d <= self.this_cells@.len() {
                                lemma_values_model_take(self.this_cells@, d as int);
                                assert(self.this_cells@.subrange(0, d as int) =~= self.this_cells@.take(d as int));
                                assert(values_model(self.this_cells@).take(self.this_cells@.len() as int) =~= values_model(self.this_cells@));
                            }
                        }
                        self.this_cells.truncate(d);
                        Ok((v, updated))
                    },
                    _ => Ok((JsValue::Undefined, obj)),
                }
            },
            other => Ok((JsValue::Undefined, other)),
        }
    }

    /// `Call`; see `vm_step_call`.
    fn step_call(
        &mut self,
        name: &String,
        n: usize,
        ip: usize,
        this: Option<usize>,
        fuel: u64,
        stack: &mut Vec<JsValue>,
        last: &mut JsValue,
        tape: &Vec<NumericReply>,
    ) -> (r: Result<Control, Halt>)
        requires
            ip < usize::MAX,
        ensures
            agrees_step(
                vm_step_call(name@, n as nat, ip as nat, this_index(this), fuel as nat, values_model(old(stack)@), old(last)@, old(self)@, replies_model(tape@)),
                r,
                values_model(final(stack)@),
                final(last)@,
                final(self)@,
            ),
        decreases fuel, 5nat, 0int,
    {
        let args = take_args(stack, n);
        match self.call_global(name, &args, tape)? {
            Some(v) => {
                push_value(stack, v);
                Ok(Control::Next(ip + 1))
            },
            None => match self.scope.get(name) {
                Some(JsValue::Function(f)) => {
                    let v = self.call_function(&f, &args, this, fuel, tape)?;
                    push_value(stack, v);
                    Ok(Control::Next(ip + 1))
                },
                _ => {
                    push_value(stack, JsValue::Undefined);
                    Ok(Control::Next(ip + 1))
                },
            },
        }
    }

    /// `MethodCall`; see `vm_step_method_call`.
    fn step_method_call(
        &mut self,
        method: &String,
        n: usize,
        ip: usize,
        fuel: u64,
        stack: &mut Vec<JsValue>,
        last: &mut JsValue,
        tape: &Vec<NumericReply>,
    ) -> (r: Result<Control, Halt>)
        requires
            ip < usize::MAX,
        ensures
            agrees_step(
                vm_step_method_call(method@, n as nat, ip as nat, fuel as nat, values_model(old(stack)@), old(last)@, old(self)@, replies_model(tape@)),
                r,
                values_model(final(stack)@),
                final(last)@,
                final(self)@,
            ),
        decreases fuel, 5nat, 0int,
    {
        let obj = pop_top(stack);
        let args = take_args(stack, n);
        let (res, _) = self.call_method(obj, method, &args, fuel, tape)?;
        push_value(stack, res);
        Ok(Control::Next(ip + 1))
    }

    /// `MethodCallNamed`; see `vm_step_named_call`.
    fn step_named_call(
        &mut self,
        object_name: &String,
        method: &String,
        n: usize,
        ip: usize,
        fuel: u64,
        stack: &mut Vec<JsValue>,
        last: &mut JsValue,
        tape: &Vec<NumericReply>,
    ) -> (r: Result<Control, Halt>)
        requires
            ip < usize::MAX,
        ensures
            agrees_step(
                vm_step_named_call(object_name@, method@, n as nat, ip as nat, fuel as nat, values_model(old(stack)@), old(last)@, old(self)@, replies_model(tape@)),
                r,
                values_model(final(stack)@),
                final(last)@,
                final(self)@,
            ),
        decreases fuel, 5nat, 0int,
    {
        let args = take_args(stack, n);
        match self.call_global_method(object_name, method, &args, tape)? {
            Some(v) => {
                push_value(stack, v);
                Ok(Control::Next(ip + 1))
            },
            None => {
                let obj = match self.scope.get(object_name) {
                    Some(v) => v,
                    None => JsValue::Undefined,
                };
                let (res, updated) = self.call_method(obj, method, &args, fuel, tape)?;
                let _ = self.scope.set(object_name, updated);
                push_value(stack, res);
                Ok(Control::Next(ip + 1))
            },
        }
    }

    /// `TryCatchFinally`; see `vm_step_try`.
    fn step_try(
        &mut self,
        try_program: &BytecodeProgram,
        catch_param: &Option<String>,
        catch_program: &Option<BytecodeProgram>,
        finally_program: &Option<BytecodeProgram>,
        ip: usize,
        this: Option<usize>,
        fuel: u64,
        stack: &mut Vec<JsValue>,
        last: &mut JsValue,
        tape: &Vec<NumericReply>,
    ) -> (r: Result<Control, Halt>)
        requires
            ip < usize::MAX,
        ensures
            agrees_step(
                vm_step_try(
                    try_program@,
                    opt_string_model(*catch_param),
                    opt_program_model(*catch_program),
                    opt_program_model(*finally_program),
                    ip as nat,
                    this_index(this),
                    fuel as nat,
                    values_model(old(stack)@),
                    old(last)@,
                    old(self)@,
                    replies_model(tape@),
                ),
                r,
                values_model(final(stack)@),
                final(last)@,
                final(self)@,
            ),
        decreases fuel, 5nat, 0int,
    {
        let flow = self.run_code(&try_program.instructions, this, fuel, tape)?;
        let flow2 = self.catch_clause(flow, catch_param, catch_program, this, fuel, tape)?;
        match finally_program {
            Some(fp) => {
                let ff = self.run_code(&fp.instructions, this, fuel, tape)?;
                match ff {
                    Completion::Normal(_) => {},
                    other => {
                        return Ok(Control::Done(other));
                    },
                }
            },
            None => {},
        }
        match flow2 {
            Completion::Normal(v) => {
                push_value(stack, v);
                Ok(Control::Next(ip + 1))
            },
            other => Ok(Control::Done(other)),
        }
    }

    /// One instruction; see `vm_step`.
    fn step(
        &mut self,
        instr: &Instruction,
        ip: usize,
        this: Option<usize>,
        fuel: u64,
        stack: &mut Vec<JsValue>,
        last: &mut JsValue,
        tape: &Vec<NumericReply>,
    ) -> (r: Result<Control, Halt>)
        requires
            ip < usize::MAX,
        ensures
            agrees_step(
                vm_step(instr_model(*instr), ip as nat, this_index(this), fuel as nat, values_model(old(stack)@), old(last)@, old(self)@, replies_model(tape@)),
                r,
                values_model(final(stack)@),
                final(last)@,
                final(self)@,
            ),
        decreases fuel, 6nat, 0int,
    {
        match instr {
            Instruction::Call(name, n) => self.step_call(name, *n, ip, this, fuel, stack, last, tape),
            Instruction::MethodCall { method, arg_count } => self.step_method_call(method, *arg_count, ip, fuel, stack, last, tape),
            Instruction::MethodCallNamed { object_name, method, arg_count } =>
                self.step_named_call(object_name, method, *arg_count, ip, fuel, stack, last, tape),
            Instruction::TryCatchFinally { try_program, catch_param, catch_program, finally_program } =>
                self.step_try(try_program, catch_param, catch_program, finally_program, ip, this, fuel, stack, last, tape),
            _ => self.step_data(instr, ip, this, stack, last, tape),
        }
    }
}

} // verus!
