//! Compiled code and direct evaluation agree on straight-line code: a block
//! of statements that neither branch, loop, call nor short-circuit ends the
//! same way, in the same state, whether its compiled code runs on the machine
//! (with enough steps) or its statements are run one after another.
//!
//! Beyond that fragment the two part ways by design: a call spends a step of
//! the machine's budget before the callee runs, `&&` and `||` leave the left
//! value twice on the operand stack when they stop early, and the compiled
//! assignments to an index or a computed member evaluate their parts in
//! another order than the statements run directly.
use vstd::prelude::*;
use crate::value::{ValueModel, InstrModel};
use crate::ast::{JsStatement, JsExpression};
use crate::numeric::ReplyModel;
use crate::machine::{WorldModel, CompletionModel, Outcome};
use crate::vm::{vm_loop, vm_run, vm_step, vm_step_data, StepModel};
use crate::compile::{compile_expr, compile_args, compile_stmt, compile_block};
use crate::walk::{tw_eval, tw_exec, tw_block_from, tw_args_from};

verus! {

/// An expression built from literals, names, `this`, arithmetic and
/// comparison operators, unary operators, member and index reads, array
/// literals, and assignments to names.
pub open spec fn straight_expr(e: JsExpression) -> bool
    decreases e,
{
    match e {
        JsExpression::Literal(_) => true,
        JsExpression::Identifier(_) => true,
        JsExpression::This => true,
        JsExpression::BinaryOp(l, _, r) => straight_expr(*l) && straight_expr(*r),
        JsExpression::UnaryOp(_, x) => straight_expr(*x),
        JsExpression::MemberAccess(o, _) => straight_expr(*o),
        JsExpression::IndexAccess(o, i) => straight_expr(*o) && straight_expr(*i),
        JsExpression::Assignment(_, x) => straight_expr(*x),
        JsExpression::ArrayLiteral(elems) => forall|i: int| 0 <= i < elems@.len() ==> straight_expr(#[trigger] elems@[i]),
        _ => false,
    }
}

/// An expression statement, an assignment to a name or to a member of
/// `this` or of a named object, a declaration, a `return` or a `throw`, over
/// a straight expression.
pub open spec fn straight_stmt(s: JsStatement) -> bool {
    match s {
        JsStatement::Expression(e) => straight_expr(e),
        JsStatement::Assignment(_, e) => straight_expr(e),
        JsStatement::Declaration { expr, .. } => straight_expr(expr),
        JsStatement::MemberAssignment(target, _, e) => (target is This || target is Identifier) && straight_expr(e),
        JsStatement::Return(Some(e)) => straight_expr(e),
        JsStatement::Return(None) => true,
        JsStatement::Throw(e) => straight_expr(e),
        _ => false,
    }
}

/// `c` stands in `code` from position `base` on.
pub open spec fn code_at(code: Seq<InstrModel>, base: int, c: Seq<InstrModel>) -> bool {
    &&& 0 <= base
    &&& base + c.len() <= code.len()
    &&& code.subrange(base, base + c.len()) == c
}

/// The run goes on at `ip` with `v` pushed, when an evaluation gave `v`.
pub open spec fn then_run(
    out: Outcome<ValueModel>,
    code: Seq<InstrModel>,
    this: Option<nat>,
    fuel: nat,
    ip: nat,
    stack: Seq<ValueModel>,
    last: ValueModel,
    tape: Seq<ReplyModel>,
) -> Outcome<CompletionModel> {
    match out {
        Err(h) => Err(h),
        Ok((w1, v)) => vm_loop(code, this, fuel, ip, stack.push(v), last, w1, tape),
    }
}

proof fn lemma_code_at_split(code: Seq<InstrModel>, base: int, a: Seq<InstrModel>, b: Seq<InstrModel>)
    requires
        code_at(code, base, a + b),
    ensures
        code_at(code, base, a),
        code_at(code, base + a.len(), b),
{
    assert(code.subrange(base, base + a.len()) =~= (a + b).subrange(0, a.len() as int));
    assert((a + b).subrange(0, a.len() as int) =~= a);
    assert(code.subrange(base + a.len(), base + a.len() + b.len()) =~= (a + b).subrange(a.len() as int, (a + b).len() as int));
    assert((a + b).subrange(a.len() as int, (a + b).len() as int) =~= b);
}

proof fn lemma_code_at_one(code: Seq<InstrModel>, base: int, i: InstrModel)
    requires
        code_at(code, base, seq![i]),
    ensures
        base < code.len(),
        code[base] == i,
{
    assert(code.subrange(base, base + 1)[0] == i);
}

/// One instruction that neither calls nor runs other code.
proof fn lemma_data_step(
    code: Seq<InstrModel>,
    this: Option<nat>,
    fuel: nat,
    ip: nat,
    stack: Seq<ValueModel>,
    last: ValueModel,
    w: WorldModel,
    tape: Seq<ReplyModel>,
)
    requires
        ip < code.len(),
        fuel > 0,
        !(code[ip as int] is Call),
        !(code[ip as int] is MethodCall),
        !(code[ip as int] is MethodCallNamed),
        !(code[ip as int] is TryCatchFinally),
    ensures
        vm_loop(code, this, fuel, ip, stack, last, w, tape) == match vm_step_data(code[ip as int], ip, this, stack, last, w, tape) {
            Err(h) => Err(h),
            Ok((w1, StepModel::Done(c))) => Ok((w1, c)),
            Ok((w1, StepModel::Next(ip2, s2, l2))) => vm_loop(code, this, (fuel - 1) as nat, ip2, s2, l2, w1, tape),
        },
{
    assert(vm_step(code[ip as int], ip, this, (fuel - 1) as nat, stack, last, w, tape)
        == vm_step_data(code[ip as int], ip, this, stack, last, w, tape));
}


/// The compiled code of a straight expression, run from its start, pushes
/// the value that evaluating the expression gives, in the state that
/// evaluation leaves, taking one step per instruction.
#[verifier::spinoff_prover]
#[verifier::rlimit(40)]
proof fn lemma_expr_agrees(
    e: JsExpression,
    code: Seq<InstrModel>,
    base: nat,
    this: Option<nat>,
    fuel: nat,
    eval_fuel: nat,
    stack: Seq<ValueModel>,
    last: ValueModel,
    w: WorldModel,
    tape: Seq<ReplyModel>,
)
    requires
        straight_expr(e),
        code_at(code, base as int, compile_expr(e, base as int)),
        fuel >= compile_expr(e, base as int).len(),
    ensures
        vm_loop(code, this, fuel, base, stack, last, w, tape) == then_run(
            tw_eval(e, this, eval_fuel, w, tape),
            code,
            this,
            (fuel - compile_expr(e, base as int).len()) as nat,
            base + compile_expr(e, base as int).len(),
            stack,
            last,
            tape,
        ),
    decreases e, 1nat,
{
    match e {
        JsExpression::BinaryOp(..) => lemma_binary_agrees(e, code, base, this, fuel, eval_fuel, stack, last, w, tape),
        JsExpression::UnaryOp(..) => lemma_unary_agrees(e, code, base, this, fuel, eval_fuel, stack, last, w, tape),
        JsExpression::MemberAccess(..) => lemma_member_agrees(e, code, base, this, fuel, eval_fuel, stack, last, w, tape),
        JsExpression::IndexAccess(..) => lemma_index_agrees(e, code, base, this, fuel, eval_fuel, stack, last, w, tape),
        JsExpression::Assignment(..) => lemma_assign_agrees(e, code, base, this, fuel, eval_fuel, stack, last, w, tape),
        JsExpression::ArrayLiteral(..) => lemma_array_agrees(e, code, base, this, fuel, eval_fuel, stack, last, w, tape),
        _ => lemma_leaf_agrees(e, code, base, this, fuel, eval_fuel, stack, last, w, tape),
    }
}

/// A literal, a name or `this`: one instruction.
#[verifier::spinoff_prover]
#[verifier::rlimit(40)]
proof fn lemma_leaf_agrees(
    e: JsExpression,
    code: Seq<InstrModel>,
    base: nat,
    this: Option<nat>,
    fuel: nat,
    eval_fuel: nat,
    stack: Seq<ValueModel>,
    last: ValueModel,
    w: WorldModel,
    tape: Seq<ReplyModel>,
)
    requires
        straight_expr(e),
        e is Literal || e is Identifier || e is This,
        code_at(code, base as int, compile_expr(e, base as int)),
        fuel >= compile_expr(e, base as int).len(),
    ensures
        vm_loop(code, this, fuel, base, stack, last, w, tape) == then_run(
            tw_eval(e, this, eval_fuel, w, tape),
            code,
            this,
            (fuel - compile_expr(e, base as int).len()) as nat,
            base + compile_expr(e, base as int).len(),
            stack,
            last,
            tape,
        ),
{
    match e {
        JsExpression::Literal(v) => {
            lemma_code_at_one(code, base as int, InstrModel::PushLiteral(v@));
            lemma_data_step(code, this, fuel, base, stack, last, w, tape);
        },
        JsExpression::Identifier(n) => {
            lemma_code_at_one(code, base as int, InstrModel::LoadIdentifier(n@));
            lemma_data_step(code, this, fuel, base, stack, last, w, tape);
        },
        JsExpression::This => {
            lemma_code_at_one(code, base as int, InstrModel::LoadThis);
            lemma_data_step(code, this, fuel, base, stack, last, w, tape);
        },
        _ => {},
    }
}

/// A binary operator: both operands, then the operator.
#[verifier::spinoff_prover]
#[verifier::rlimit(40)]
proof fn lemma_binary_agrees(
    e: JsExpression,
    code: Seq<InstrModel>,
    base: nat,
    this: Option<nat>,
    fuel: nat,
    eval_fuel: nat,
    stack: Seq<ValueModel>,
    last: ValueModel,
    w: WorldModel,
    tape: Seq<ReplyModel>,
)
    requires
        straight_expr(e),
        e is BinaryOp,
        code_at(code, base as int, compile_expr(e, base as int)),
        fuel >= compile_expr(e, base as int).len(),
    ensures
        vm_loop(code, this, fuel, base, stack, last, w, tape) == then_run(
            tw_eval(e, this, eval_fuel, w, tape),
            code,
            this,
            (fuel - compile_expr(e, base as int).len()) as nat,
            base + compile_expr(e, base as int).len(),
            stack,
            last,
            tape,
        ),
    decreases e, 0nat,
{
    match e {
        JsExpression::BinaryOp(l, op, r) => {
            let cl = compile_expr(*l, base as int);
            let cr = compile_expr(*r, (base + cl.len()) as int);
            let tail = seq![InstrModel::BinaryOp(crate::compile::binary_operator(op@))];
            lemma_code_at_split(code, base as int, cl + cr, tail);
            lemma_code_at_split(code, base as int, cl, cr);
            lemma_code_at_one(code, (base + cl.len() + cr.len()) as int, tail[0]);
            lemma_expr_agrees(*l, code, base, this, fuel, eval_fuel, stack, last, w, tape);
            match tw_eval(*l, this, eval_fuel, w, tape) {
                Err(_) => {},
                Ok((w1, a)) => {
                    let f1 = (fuel - cl.len()) as nat;
                    lemma_expr_agrees(*r, code, base + cl.len(), this, f1, eval_fuel, stack.push(a), last, w1, tape);
                    match tw_eval(*r, this, eval_fuel, w1, tape) {
                        Err(_) => {},
                        Ok((w2, b)) => {
                            let ip = base + cl.len() + cr.len();
                            assert(stack.push(a).push(b).drop_last() =~= stack.push(a));
                            assert(stack.push(a).drop_last() =~= stack);
                            lemma_data_step(code, this, (f1 - cr.len()) as nat, ip, stack.push(a).push(b), last, w2, tape);
                        },
                    }
                },
            }
        },
        _ => {},
    }
}

/// A unary operator: the operand, then the operator.
#[verifier::spinoff_prover]
#[verifier::rlimit(40)]
proof fn lemma_unary_agrees(
    e: JsExpression,
    code: Seq<InstrModel>,
    base: nat,
    this: Option<nat>,
    fuel: nat,
    eval_fuel: nat,
    stack: Seq<ValueModel>,
    last: ValueModel,
    w: WorldModel,
    tape: Seq<ReplyModel>,
)
    requires
        straight_expr(e),
        e is UnaryOp,
        code_at(code, base as int, compile_expr(e, base as int)),
        fuel >= compile_expr(e, base as int).len(),
    ensures
        vm_loop(code, this, fuel, base, stack, last, w, tape) == then_run(
            tw_eval(e, this, eval_fuel, w, tape),
            code,
            this,
            (fuel - compile_expr(e, base as int).len()) as nat,
            base + compile_expr(e, base as int).len(),
            stack,
            last,
            tape,
        ),
    decreases e, 0nat,
{
    match e {
        JsExpression::UnaryOp(op, x) => {
            let cx = compile_expr(*x, base as int);
            let tail = seq![InstrModel::UnaryOp(crate::compile::unary_operator(op@))];
            lemma_code_at_split(code, base as int, cx, tail);
            lemma_code_at_one(code, (base + cx.len()) as int, tail[0]);
            lemma_expr_agrees(*x, code, base, this, fuel, eval_fuel, stack, last, w, tape);
            match tw_eval(*x, this, eval_fuel, w, tape) {
                Err(_) => {},
                Ok((w1, v)) => {
                    assert(stack.push(v).drop_last() =~= stack);
                    lemma_data_step(code, this, (fuel - cx.len()) as nat, base + cx.len(), stack.push(v), last, w1, tape);
                },
            }
        },
        _ => {},
    }
}

/// A member read: the object, then the read.
#[verifier::spinoff_prover]
#[verifier::rlimit(40)]
proof fn lemma_member_agrees(
    e: JsExpression,
    code: Seq<InstrModel>,
    base: nat,
    this: Option<nat>,
    fuel: nat,
    eval_fuel: nat,
    stack: Seq<ValueModel>,
    last: ValueModel,
    w: WorldModel,
    tape: Seq<ReplyModel>,
)
    requires
        straight_expr(e),
        e is MemberAccess,
        code_at(code, base as int, compile_expr(e, base as int)),
        fuel >= compile_expr(e, base as int).len(),
    ensures
        vm_loop(code, this, fuel, base, stack, last, w, tape) == then_run(
            tw_eval(e, this, eval_fuel, w, tape),
            code,
            this,
            (fuel - compile_expr(e, base as int).len()) as nat,
            base + compile_expr(e, base as int).len(),
            stack,
            last,
            tape,
        ),
    decreases e, 0nat,
{
    match e {
        JsExpression::MemberAccess(o, m) => {
            let co = compile_expr(*o, base as int);
            let tail = seq![InstrModel::MemberAccess(m@)];
            lemma_code_at_split(code, base as int, co, tail);
            lemma_code_at_one(code, (base + co.len()) as int, tail[0]);
            lemma_expr_agrees(*o, code, base, this, fuel, eval_fuel, stack, last, w, tape);
            match tw_eval(*o, this, eval_fuel, w, tape) {
                Err(_) => {},
                Ok((w1, v)) => {
                    assert(stack.push(v).drop_last() =~= stack);
                    lemma_data_step(code, this, (fuel - co.len()) as nat, base + co.len(), stack.push(v), last, w1, tape);
                },
            }
        },
        _ => {},
    }
}

/// An index read: the object, the index, then the read.
#[verifier::spinoff_prover]
#[verifier::rlimit(40)]
proof fn lemma_index_agrees(
    e: JsExpression,
    code: Seq<InstrModel>,
    base: nat,
    this: Option<nat>,
    fuel: nat,
    eval_fuel: nat,
    stack: Seq<ValueModel>,
    last: ValueModel,
    w: WorldModel,
    tape: Seq<ReplyModel>,
)
    requires
        straight_expr(e),
        e is IndexAccess,
        code_at(code, base as int, compile_expr(e, base as int)),
        fuel >= compile_expr(e, base as int).len(),
    ensures
        vm_loop(code, this, fuel, base, stack, last, w, tape) == then_run(
            tw_eval(e, this, eval_fuel, w, tape),
            code,
            this,
            (fuel - compile_expr(e, base as int).len()) as nat,
            base + compile_expr(e, base as int).len(),
            stack,
            last,
            tape,
        ),
    decreases e, 0nat,
{
    match e {
        JsExpression::IndexAccess(o, i) => {
            let co = compile_expr(*o, base as int);
            let ci = compile_expr(*i, (base + co.len()) as int);
            let tail = seq![InstrModel::IndexAccess];
            lemma_code_at_split(code, base as int, co + ci, tail);
            lemma_code_at_split(code, base as int, co, ci);
            lemma_code_at_one(code, (base + co.len() + ci.len()) as int, tail[0]);
            lemma_expr_agrees(*o, code, base, this, fuel, eval_fuel, stack, last, w, tape);
            match tw_eval(*o, this, eval_fuel, w, tape) {
                Err(_) => {},
                Ok((w1, a)) => {
                    let f1 = (fuel - co.len()) as nat;
                    lemma_expr_agrees(*i, code, base + co.len(), this, f1, eval_fuel, stack.push(a), last, w1, tape);
                    match tw_eval(*i, this, eval_fuel, w1, tape) {
                        Err(_) => {},
                        Ok((w2, b)) => {
                            let ip = base + co.len() + ci.len();
                            assert(stack.push(a).push(b).drop_last() =~= stack.push(a));
                            assert(stack.push(a).drop_last() =~= stack);
                            lemma_data_step(code, this, (f1 - ci.len()) as nat, ip, stack.push(a).push(b), last, w2, tape);
                        },
                    }
                },
            }
        },
        _ => {},
    }
}

/// An array literal: the elements from first to last, then the array.
#[verifier::spinoff_prover]
#[verifier::rlimit(40)]
proof fn lemma_array_agrees(
    e: JsExpression,
    code: Seq<InstrModel>,
    base: nat,
    this: Option<nat>,
    fuel: nat,
    eval_fuel: nat,
    stack: Seq<ValueModel>,
    last: ValueModel,
    w: WorldModel,
    tape: Seq<ReplyModel>,
)
    requires
        straight_expr(e),
        e is ArrayLiteral,
        code_at(code, base as int, compile_expr(e, base as int)),
        fuel >= compile_expr(e, base as int).len(),
    ensures
        vm_loop(code, this, fuel, base, stack, last, w, tape) == then_run(
            tw_eval(e, this, eval_fuel, w, tape),
            code,
            this,
            (fuel - compile_expr(e, base as int).len()) as nat,
            base + compile_expr(e, base as int).len(),
            stack,
            last,
            tape,
        ),
    decreases e, 0nat,
{
    match e {
        JsExpression::ArrayLiteral(elems) => {
            let args = elems@;
            let ca = compile_args(args, base as int);
            let tail = seq![InstrModel::MakeArray(args.len())];
            lemma_code_at_split(code, base as int, ca, tail);
            lemma_code_at_one(code, (base + ca.len()) as int, tail[0]);
            assert(args.take(0) =~= Seq::<JsExpression>::empty());
            assert(stack + Seq::<ValueModel>::empty() =~= stack);
            lemma_args_agree(args, 0, code, base, this, fuel, eval_fuel, stack, Seq::empty(), last, w, tape);
            match tw_args_from(args, 0, Seq::empty(), this, eval_fuel, w, tape) {
                Err(_) => {},
                Ok((w1, vs)) => {
                    let f1 = (fuel - ca.len()) as nat;
                    lemma_data_step(code, this, f1, base + ca.len(), stack + vs, last, w1, tape);
                    assert((stack + vs).take((stack + vs).len() - vs.len()) =~= stack);
                    assert((stack + vs).skip((stack + vs).len() - vs.len()) =~= vs);
                },
            }
        },
        _ => {},
    }
}

/// The arguments from the `k`-th on: their code, run from where it stands,
/// pushes their values from first to last.
#[verifier::spinoff_prover]
#[verifier::rlimit(40)]
proof fn lemma_args_agree(
    args: Seq<JsExpression>,
    k: nat,
    code: Seq<InstrModel>,
    base: nat,
    this: Option<nat>,
    fuel: nat,
    eval_fuel: nat,
    stack: Seq<ValueModel>,
    acc: Seq<ValueModel>,
    last: ValueModel,
    w: WorldModel,
    tape: Seq<ReplyModel>,
)
    requires
        k <= args.len(),
        forall|i: int| 0 <= i < args.len() ==> straight_expr(#[trigger] args[i]),
        code_at(code, base as int, compile_args(args, base as int)),
        fuel + compile_args(args.take(k as int), base as int).len() >= compile_args(args, base as int).len(),
    ensures
        vm_loop(code, this, fuel, base + compile_args(args.take(k as int), base as int).len(), stack + acc, last, w, tape)
            == match tw_args_from(args, k, acc, this, eval_fuel, w, tape) {
                Err(h) => Err(h),
                Ok((w1, vs)) => vm_loop(
                    code,
                    this,
                    (fuel + compile_args(args.take(k as int), base as int).len() - compile_args(args, base as int).len()) as nat,
                    base + compile_args(args, base as int).len(),
                    stack + vs,
                    last,
                    w1,
                    tape,
                ),
            },
        match tw_args_from(args, k, acc, this, eval_fuel, w, tape) {
            Err(_) => true,
            Ok((_, vs)) => vs.len() == acc.len() + args.len() - k,
        },
    decreases args, args.len() - k,
{
    let head = compile_args(args.take(k as int), base as int);
    lemma_args_prefix(args, k as int, base as int);
    if k == args.len() {
        assert(args.take(k as int) =~= args);
    } else {
        let x = args[k as int];
        let cx = compile_expr(x, (base + head.len()) as int);
        assert(args.take((k + 1) as int).drop_last() =~= args.take(k as int));
        assert(args.take((k + 1) as int).last() == x);
        assert(compile_args(args.take((k + 1) as int), base as int) == head + cx);
        lemma_args_prefix(args, (k + 1) as int, base as int);
        lemma_code_at_prefix(code, base as int, compile_args(args, base as int), head + cx);
        lemma_code_at_split(code, base as int, head, cx);
        assert(straight_expr(x));
        lemma_expr_agrees(x, code, (base + head.len()) as nat, this, fuel, eval_fuel, stack + acc, last, w, tape);
        match tw_eval(x, this, eval_fuel, w, tape) {
            Err(_) => {},
            Ok((w1, v)) => {
                assert((stack + acc).push(v) =~= stack + acc.push(v));
                lemma_args_agree(args, k + 1, code, base, this, (fuel - cx.len()) as nat, eval_fuel, stack, acc.push(v), last, w1, tape);
            },
        }
    }
}

proof fn lemma_code_at_prefix(code: Seq<InstrModel>, base: int, c: Seq<InstrModel>, p: Seq<InstrModel>)
    requires
        code_at(code, base, c),
        p.len() <= c.len(),
        c.subrange(0, p.len() as int) == p,
    ensures
        code_at(code, base, p),
{
    assert(code.subrange(base, base + p.len()) =~= c.subrange(0, p.len() as int));
}

/// The code of the first `j` arguments begins the code of all of them.
proof fn lemma_args_prefix(args: Seq<JsExpression>, j: int, base: int)
    requires
        0 <= j <= args.len(),
    ensures
        compile_args(args.take(j), base).len() <= compile_args(args, base).len(),
        compile_args(args, base).subrange(0, compile_args(args.take(j), base).len() as int) == compile_args(args.take(j), base),
    decreases args.len(),
{
    let c = compile_args(args, base);
    if j == args.len() {
        assert(args.take(j) =~= args);
        assert(c.subrange(0, c.len() as int) =~= c);
    } else {
        let d = args.drop_last();
        lemma_args_prefix(d, j, base);
        assert(d.take(j) =~= args.take(j));
        let c0 = compile_args(d, base);
        let p = compile_args(args.take(j), base);
        assert(c == c0 + compile_expr(args.last(), base + c0.len()));
        assert(c.subrange(0, p.len() as int) =~= c0.subrange(0, p.len() as int));
    }
}

/// An assignment to a name: the value, kept on the stack, then the store.
#[verifier::spinoff_prover]
#[verifier::rlimit(40)]
proof fn lemma_assign_agrees(
    e: JsExpression,
    code: Seq<InstrModel>,
    base: nat,
    this: Option<nat>,
    fuel: nat,
    eval_fuel: nat,
    stack: Seq<ValueModel>,
    last: ValueModel,
    w: WorldModel,
    tape: Seq<ReplyModel>,
)
    requires
        straight_expr(e),
        e is Assignment,
        code_at(code, base as int, compile_expr(e, base as int)),
        fuel >= compile_expr(e, base as int).len(),
    ensures
        vm_loop(code, this, fuel, base, stack, last, w, tape) == then_run(
            tw_eval(e, this, eval_fuel, w, tape),
            code,
            this,
            (fuel - compile_expr(e, base as int).len()) as nat,
            base + compile_expr(e, base as int).len(),
            stack,
            last,
            tape,
        ),
    decreases e, 0nat,
{
    match e {
        JsExpression::Assignment(n, x) => {
            let cx = compile_expr(*x, base as int);
            let dup = seq![InstrModel::Dup];
            let store = seq![InstrModel::StoreIdentifier(n@)];
            assert(seq![InstrModel::Dup, InstrModel::StoreIdentifier(n@)] =~= dup + store);
            lemma_code_at_split(code, base as int, cx, dup + store);
            lemma_code_at_split(code, (base + cx.len()) as int, dup, store);
            lemma_code_at_one(code, (base + cx.len()) as int, InstrModel::Dup);
            lemma_code_at_one(code, (base + cx.len() + 1) as int, InstrModel::StoreIdentifier(n@));
            lemma_expr_agrees(*x, code, base, this, fuel, eval_fuel, stack, last, w, tape);
            match tw_eval(*x, this, eval_fuel, w, tape) {
                Err(_) => {},
                Ok((w1, v)) => {
                    let f1 = (fuel - cx.len()) as nat;
                    let ip = base + cx.len();
                    lemma_data_step(code, this, f1, ip, stack.push(v), last, w1, tape);
                    assert(stack.push(v).push(v).drop_last() =~= stack.push(v));
                    lemma_data_step(code, this, (f1 - 1) as nat, ip + 1, stack.push(v).push(v), last, w1, tape);
                },
            }
        },
        _ => {},
    }
}


/// The run goes on after a statement that completed normally with `v`, and
/// ends with any other completion.
pub open spec fn then_next(
    out: Outcome<CompletionModel>,
    code: Seq<InstrModel>,
    this: Option<nat>,
    fuel: nat,
    ip: nat,
    stack: Seq<ValueModel>,
    tape: Seq<ReplyModel>,
) -> Outcome<CompletionModel> {
    match out {
        Err(h) => Err(h),
        Ok((w1, CompletionModel::Normal(v))) => vm_loop(code, this, fuel, ip, stack, v, w1, tape),
        Ok((w1, c)) => Ok((w1, c)),
    }
}

/// The compiled code of a straight statement, run from its start, leaves the
/// operand stack as it found it and the statement's value as the last value,
/// or ends the run as the statement ends it.
proof fn lemma_stmt_agrees(
    s: JsStatement,
    code: Seq<InstrModel>,
    base: nat,
    this: Option<nat>,
    fuel: nat,
    eval_fuel: nat,
    stack: Seq<ValueModel>,
    last: ValueModel,
    w: WorldModel,
    tape: Seq<ReplyModel>,
)
    requires
        straight_stmt(s),
        code_at(code, base as int, compile_stmt(s, base as int)),
        fuel >= compile_stmt(s, base as int).len(),
    ensures
        vm_loop(code, this, fuel, base, stack, last, w, tape) == then_next(
            tw_exec(s, this, eval_fuel, w, tape),
            code,
            this,
            (fuel - compile_stmt(s, base as int).len()) as nat,
            base + compile_stmt(s, base as int).len(),
            stack,
            tape,
        ),
{
    match s {
        JsStatement::Expression(_) => lemma_expr_stmt_agrees(s, code, base, this, fuel, eval_fuel, stack, last, w, tape),
        JsStatement::Assignment(..) => lemma_assign_stmt_agrees(s, code, base, this, fuel, eval_fuel, stack, last, w, tape),
        JsStatement::Declaration { .. } => lemma_decl_stmt_agrees(s, code, base, this, fuel, eval_fuel, stack, last, w, tape),
        JsStatement::MemberAssignment(..) => lemma_member_stmt_agrees(s, code, base, this, fuel, eval_fuel, stack, last, w, tape),
        JsStatement::Return(None) => lemma_return_none_agrees(s, code, base, this, fuel, eval_fuel, stack, last, w, tape),
        JsStatement::Return(Some(_)) => lemma_return_agrees(s, code, base, this, fuel, eval_fuel, stack, last, w, tape),
        JsStatement::Throw(_) => lemma_throw_agrees(s, code, base, this, fuel, eval_fuel, stack, last, w, tape),
        _ => {},
    }
}

/// An expression statement.
#[verifier::spinoff_prover]
#[verifier::rlimit(40)]
proof fn lemma_expr_stmt_agrees(
    s: JsStatement,
    code: Seq<InstrModel>,
    base: nat,
    this: Option<nat>,
    fuel: nat,
    eval_fuel: nat,
    stack: Seq<ValueModel>,
    last: ValueModel,
    w: WorldModel,
    tape: Seq<ReplyModel>,
)
    requires
        straight_stmt(s),
        s is Expression,
        code_at(code, base as int, compile_stmt(s, base as int)),
        fuel >= compile_stmt(s, base as int).len(),
    ensures
        vm_loop(code, this, fuel, base, stack, last, w, tape) == then_next(
            tw_exec(s, this, eval_fuel, w, tape),
            code,
            this,
            (fuel - compile_stmt(s, base as int).len()) as nat,
            base + compile_stmt(s, base as int).len(),
            stack,
            tape,
        ),
{
    match s {
        JsStatement::Expression(e) => {
            let ce = compile_expr(e, base as int);
            let t1 = seq![InstrModel::SetLast];
            let t2 = seq![InstrModel::Pop];
            assert(seq![InstrModel::SetLast, InstrModel::Pop] =~= t1 + t2);
            lemma_code_at_split(code, base as int, ce, t1 + t2);
            lemma_code_at_split(code, (base + ce.len()) as int, t1, t2);
            lemma_code_at_one(code, (base + ce.len()) as int, InstrModel::SetLast);
            lemma_code_at_one(code, (base + ce.len() + 1) as int, InstrModel::Pop);
            lemma_expr_agrees(e, code, base, this, fuel, eval_fuel, stack, last, w, tape);
            match tw_eval(e, this, eval_fuel, w, tape) {
                Err(_) => {},
                Ok((w1, v)) => {
                    let f1 = (fuel - ce.len()) as nat;
                    let ip = base + ce.len();
                    lemma_data_step(code, this, f1, ip, stack.push(v), last, w1, tape);
                    assert(stack.push(v).drop_last() =~= stack);
                    lemma_data_step(code, this, (f1 - 1) as nat, ip + 1, stack.push(v), v, w1, tape);
                },
            }
        },
        _ => {},
    }
}

/// An assignment statement.
#[verifier::spinoff_prover]
#[verifier::rlimit(40)]
proof fn lemma_assign_stmt_agrees(
    s: JsStatement,
    code: Seq<InstrModel>,
    base: nat,
    this: Option<nat>,
    fuel: nat,
    eval_fuel: nat,
    stack: Seq<ValueModel>,
    last: ValueModel,
    w: WorldModel,
    tape: Seq<ReplyModel>,
)
    requires
        straight_stmt(s),
        s is Assignment,
        code_at(code, base as int, compile_stmt(s, base as int)),
        fuel >= compile_stmt(s, base as int).len(),
    ensures
        vm_loop(code, this, fuel, base, stack, last, w, tape) == then_next(
            tw_exec(s, this, eval_fuel, w, tape),
            code,
            this,
            (fuel - compile_stmt(s, base as int).len()) as nat,
            base + compile_stmt(s, base as int).len(),
            stack,
            tape,
        ),
{
    match s {
        JsStatement::Assignment(n, e) => {
            let ce = compile_expr(e, base as int);
            let ts = seq![InstrModel::Dup, InstrModel::StoreIdentifier(n@), InstrModel::SetLast, InstrModel::Pop];
            lemma_code_at_split(code, base as int, ce, ts);
            assert(ts =~= seq![InstrModel::Dup] + seq![InstrModel::StoreIdentifier(n@), InstrModel::SetLast, InstrModel::Pop]);
            assert(seq![InstrModel::StoreIdentifier(n@), InstrModel::SetLast, InstrModel::Pop]
                =~= seq![InstrModel::StoreIdentifier(n@)] + seq![InstrModel::SetLast, InstrModel::Pop]);
            assert(seq![InstrModel::SetLast, InstrModel::Pop] =~= seq![InstrModel::SetLast] + seq![InstrModel::Pop]);
            let ip = base + ce.len();
            lemma_code_at_split(code, ip as int, seq![InstrModel::Dup], seq![InstrModel::StoreIdentifier(n@), InstrModel::SetLast, InstrModel::Pop]);
            lemma_code_at_split(code, (ip + 1) as int, seq![InstrModel::StoreIdentifier(n@)], seq![InstrModel::SetLast, InstrModel::Pop]);
            lemma_code_at_split(code, (ip + 2) as int, seq![InstrModel::SetLast], seq![InstrModel::Pop]);
            lemma_code_at_one(code, ip as int, InstrModel::Dup);
            lemma_code_at_one(code, (ip + 1) as int, InstrModel::StoreIdentifier(n@));
            lemma_code_at_one(code, (ip + 2) as int, InstrModel::SetLast);
            lemma_code_at_one(code, (ip + 3) as int, InstrModel::Pop);
            lemma_expr_agrees(e, code, base, this, fuel, eval_fuel, stack, last, w, tape);
            match tw_eval(e, this, eval_fuel, w, tape) {
                Err(_) => {},
                Ok((w1, v)) => {
                    let f1 = (fuel - ce.len()) as nat;
                    let w2 = crate::vm::with_scope(w1, crate::scope::scope_set(w1.scope, n@, v).0);
                    assert(stack.push(v).push(v).drop_last() =~= stack.push(v));
                    assert(stack.push(v).drop_last() =~= stack);
                    lemma_data_step(code, this, f1, ip, stack.push(v), last, w1, tape);
                    lemma_data_step(code, this, (f1 - 1) as nat, ip + 1, stack.push(v).push(v), last, w1, tape);
                    lemma_data_step(code, this, (f1 - 2) as nat, ip + 2, stack.push(v), last, w2, tape);
                    lemma_data_step(code, this, (f1 - 3) as nat, ip + 3, stack.push(v), v, w2, tape);
                },
            }
        },
        _ => {},
    }
}

/// A declaration.
#[verifier::spinoff_prover]
#[verifier::rlimit(40)]
proof fn lemma_decl_stmt_agrees(
    s: JsStatement,
    code: Seq<InstrModel>,
    base: nat,
    this: Option<nat>,
    fuel: nat,
    eval_fuel: nat,
    stack: Seq<ValueModel>,
    last: ValueModel,
    w: WorldModel,
    tape: Seq<ReplyModel>,
)
    requires
        straight_stmt(s),
        s is Declaration,
        code_at(code, base as int, compile_stmt(s, base as int)),
        fuel >= compile_stmt(s, base as int).len(),
    ensures
        vm_loop(code, this, fuel, base, stack, last, w, tape) == then_next(
            tw_exec(s, this, eval_fuel, w, tape),
            code,
            this,
            (fuel - compile_stmt(s, base as int).len()) as nat,
            base + compile_stmt(s, base as int).len(),
            stack,
            tape,
        ),
{
    match s {
        JsStatement::Declaration { kind, name, expr } => {
            let ce = compile_expr(expr, base as int);
            let d = InstrModel::Declare { kind, name: name@ };
            let ts = seq![InstrModel::Dup, d, InstrModel::SetLast, InstrModel::Pop];
            lemma_code_at_split(code, base as int, ce, ts);
            assert(ts =~= seq![InstrModel::Dup] + seq![d, InstrModel::SetLast, InstrModel::Pop]);
            assert(seq![d, InstrModel::SetLast, InstrModel::Pop] =~= seq![d] + seq![InstrModel::SetLast, InstrModel::Pop]);
            assert(seq![InstrModel::SetLast, InstrModel::Pop] =~= seq![InstrModel::SetLast] + seq![InstrModel::Pop]);
            let ip = base + ce.len();
            lemma_code_at_split(code, ip as int, seq![InstrModel::Dup], seq![d, InstrModel::SetLast, InstrModel::Pop]);
            lemma_code_at_split(code, (ip + 1) as int, seq![d], seq![InstrModel::SetLast, InstrModel::Pop]);
            lemma_code_at_split(code, (ip + 2) as int, seq![InstrModel::SetLast], seq![InstrModel::Pop]);
            lemma_code_at_one(code, ip as int, InstrModel::Dup);
            lemma_code_at_one(code, (ip + 1) as int, d);
            lemma_code_at_one(code, (ip + 2) as int, InstrModel::SetLast);
            lemma_code_at_one(code, (ip + 3) as int, InstrModel::Pop);
            lemma_expr_agrees(expr, code, base, this, fuel, eval_fuel, stack, last, w, tape);
            match tw_eval(expr, this, eval_fuel, w, tape) {
                Err(_) => {},
                Ok((w1, v)) => {
                    let f1 = (fuel - ce.len()) as nat;
                    let w2 = crate::vm::with_scope(w1, crate::scope::scope_define(w1.scope, name@, v, kind));
                    assert(stack.push(v).push(v).drop_last() =~= stack.push(v));
                    assert(stack.push(v).drop_last() =~= stack);
                    lemma_data_step(code, this, f1, ip, stack.push(v), last, w1, tape);
                    lemma_data_step(code, this, (f1 - 1) as nat, ip + 1, stack.push(v).push(v), last, w1, tape);
                    lemma_data_step(code, this, (f1 - 2) as nat, ip + 2, stack.push(v), last, w2, tape);
                    lemma_data_step(code, this, (f1 - 3) as nat, ip + 3, stack.push(v), v, w2, tape);
                },
            }
        },
        _ => {},
    }
}

/// A `return` without a value.
#[verifier::spinoff_prover]
#[verifier::rlimit(40)]
proof fn lemma_return_none_agrees(
    s: JsStatement,
    code: Seq<InstrModel>,
    base: nat,
    this: Option<nat>,
    fuel: nat,
    eval_fuel: nat,
    stack: Seq<ValueModel>,
    last: ValueModel,
    w: WorldModel,
    tape: Seq<ReplyModel>,
)
    requires
        straight_stmt(s),
        s == JsStatement::Return(None),
        code_at(code, base as int, compile_stmt(s, base as int)),
        fuel >= compile_stmt(s, base as int).len(),
    ensures
        vm_loop(code, this, fuel, base, stack, last, w, tape) == then_next(
            tw_exec(s, this, eval_fuel, w, tape),
            code,
            this,
            (fuel - compile_stmt(s, base as int).len()) as nat,
            base + compile_stmt(s, base as int).len(),
            stack,
            tape,
        ),
{
    match s {
        JsStatement::Return(None) => {
            let ts = seq![InstrModel::PushUndefined, InstrModel::Return];
            assert(ts =~= seq![InstrModel::PushUndefined] + seq![InstrModel::Return]);
            lemma_code_at_split(code, base as int, seq![InstrModel::PushUndefined], seq![InstrModel::Return]);
            lemma_code_at_one(code, base as int, InstrModel::PushUndefined);
            lemma_code_at_one(code, (base + 1) as int, InstrModel::Return);
            lemma_data_step(code, this, fuel, base, stack, last, w, tape);
            lemma_data_step(code, this, (fuel - 1) as nat, base + 1, stack.push(ValueModel::Undefined), last, w, tape);
        },
        _ => {},
    }
}

/// A `return` with a value.
#[verifier::spinoff_prover]
#[verifier::rlimit(40)]
proof fn lemma_return_agrees(
    s: JsStatement,
    code: Seq<InstrModel>,
    base: nat,
    this: Option<nat>,
    fuel: nat,
    eval_fuel: nat,
    stack: Seq<ValueModel>,
    last: ValueModel,
    w: WorldModel,
    tape: Seq<ReplyModel>,
)
    requires
        straight_stmt(s),
        s matches JsStatement::Return(Some(_)),
        code_at(code, base as int, compile_stmt(s, base as int)),
        fuel >= compile_stmt(s, base as int).len(),
    ensures
        vm_loop(code, this, fuel, base, stack, last, w, tape) == then_next(
            tw_exec(s, this, eval_fuel, w, tape),
            code,
            this,
            (fuel - compile_stmt(s, base as int).len()) as nat,
            base + compile_stmt(s, base as int).len(),
            stack,
            tape,
        ),
{
    match s {
        JsStatement::Return(Some(e)) => {
            let ce = compile_expr(e, base as int);
            lemma_code_at_split(code, base as int, ce, seq![InstrModel::Return]);
            lemma_code_at_one(code, (base + ce.len()) as int, InstrModel::Return);
            lemma_expr_agrees(e, code, base, this, fuel, eval_fuel, stack, last, w, tape);
            match tw_eval(e, this, eval_fuel, w, tape) {
                Err(_) => {},
                Ok((w1, v)) => {
                    lemma_data_step(code, this, (fuel - ce.len()) as nat, base + ce.len(), stack.push(v), last, w1, tape);
                },
            }
        },
        _ => {},
    }
}

/// An assignment to a member of `this` or of a named object.
#[verifier::spinoff_prover]
#[verifier::rlimit(80)]
proof fn lemma_member_stmt_agrees(
    s: JsStatement,
    code: Seq<InstrModel>,
    base: nat,
    this: Option<nat>,
    fuel: nat,
    eval_fuel: nat,
    stack: Seq<ValueModel>,
    last: ValueModel,
    w: WorldModel,
    tape: Seq<ReplyModel>,
)
    requires
        straight_stmt(s),
        s is MemberAssignment,
        code_at(code, base as int, compile_stmt(s, base as int)),
        fuel >= compile_stmt(s, base as int).len(),
    ensures
        vm_loop(code, this, fuel, base, stack, last, w, tape) == then_next(
            tw_exec(s, this, eval_fuel, w, tape),
            code,
            this,
            (fuel - compile_stmt(s, base as int).len()) as nat,
            base + compile_stmt(s, base as int).len(),
            stack,
            tape,
        ),
{
    match s {
        JsStatement::MemberAssignment(target, m, e) => {
            let ce = compile_expr(e, base as int);
            let a = match target {
                JsExpression::This => InstrModel::AssignThisMember(m@),
                _ => InstrModel::AssignNamedMember { object_name: target->Identifier_0@, member: m@ },
            };
            let t = seq![InstrModel::SetLast, InstrModel::Pop];
            assert(compile_stmt(s, base as int) == ce + seq![a] + t);
            lemma_code_at_split(code, base as int, ce + seq![a], t);
            lemma_code_at_split(code, base as int, ce, seq![a]);
            assert(t =~= seq![InstrModel::SetLast] + seq![InstrModel::Pop]);
            let ip = base + ce.len();
            lemma_code_at_split(code, (ip + 1) as int, seq![InstrModel::SetLast], seq![InstrModel::Pop]);
            lemma_code_at_one(code, ip as int, a);
            lemma_code_at_one(code, (ip + 1) as int, InstrModel::SetLast);
            lemma_code_at_one(code, (ip + 2) as int, InstrModel::Pop);
            lemma_expr_agrees(e, code, base, this, fuel, eval_fuel, stack, last, w, tape);
            match tw_eval(e, this, eval_fuel, w, tape) {
                Err(_) => {},
                Ok((w1, v)) => {
                    let f1 = (fuel - ce.len()) as nat;
                    assert(stack.push(v).drop_last() =~= stack);
                    lemma_data_step(code, this, f1, ip, stack.push(v), last, w1, tape);
                    match crate::walk::tw_member_assign(target, m@, v, this, eval_fuel, w1, tape) {
                        Err(_) => {},
                        Ok((w2, _)) => {
                            lemma_data_step(code, this, (f1 - 1) as nat, ip + 1, stack.push(v), last, w2, tape);
                            lemma_data_step(code, this, (f1 - 2) as nat, ip + 2, stack.push(v), v, w2, tape);
                        },
                    }
                },
            }
        },
        _ => {},
    }
}

/// A `throw`.
#[verifier::spinoff_prover]
#[verifier::rlimit(40)]
proof fn lemma_throw_agrees(
    s: JsStatement,
    code: Seq<InstrModel>,
    base: nat,
    this: Option<nat>,
    fuel: nat,
    eval_fuel: nat,
    stack: Seq<ValueModel>,
    last: ValueModel,
    w: WorldModel,
    tape: Seq<ReplyModel>,
)
    requires
        straight_stmt(s),
        s is Throw,
        code_at(code, base as int, compile_stmt(s, base as int)),
        fuel >= compile_stmt(s, base as int).len(),
    ensures
        vm_loop(code, this, fuel, base, stack, last, w, tape) == then_next(
            tw_exec(s, this, eval_fuel, w, tape),
            code,
            this,
            (fuel - compile_stmt(s, base as int).len()) as nat,
            base + compile_stmt(s, base as int).len(),
            stack,
            tape,
        ),
{
    match s {
        JsStatement::Throw(e) => {
            let ce = compile_expr(e, base as int);
            lemma_code_at_split(code, base as int, ce, seq![InstrModel::Throw]);
            lemma_code_at_one(code, (base + ce.len()) as int, InstrModel::Throw);
            lemma_expr_agrees(e, code, base, this, fuel, eval_fuel, stack, last, w, tape);
            match tw_eval(e, this, eval_fuel, w, tape) {
                Err(_) => {},
                Ok((w1, v)) => {
                    assert(stack.push(v).drop_last() =~= stack);
                    lemma_data_step(code, this, (fuel - ce.len()) as nat, base + ce.len(), stack.push(v), last, w1, tape);
                },
            }
        },
        _ => {},
    }
}


/// Every statement of the block is straight.
pub open spec fn straight_block(stmts: Seq<JsStatement>) -> bool {
    forall|i: int| 0 <= i < stmts.len() ==> straight_stmt(#[trigger] stmts[i])
}

proof fn lemma_code_at_extend(a: Seq<InstrModel>, b: Seq<InstrModel>, base: int, p: Seq<InstrModel>)
    requires
        code_at(a, base, p),
    ensures
        code_at(a + b, base, p),
{
    assert((a + b).subrange(base, base + p.len()) =~= a.subrange(base, base + p.len()));
}

/// The code of the first `j` statements of a block begins its code.
proof fn lemma_block_prefix(stmts: Seq<JsStatement>, j: int)
    requires
        0 <= j <= stmts.len(),
    ensures
        code_at(compile_block(stmts, 0), 0, compile_block(stmts.take(j), 0)),
    decreases stmts.len(),
{
    let code = compile_block(stmts, 0);
    if j == stmts.len() {
        assert(stmts.take(j) =~= stmts);
        assert(code.subrange(0, code.len() as int) =~= code);
    } else {
        let d = stmts.drop_last();
        lemma_block_prefix(d, j);
        assert(d.take(j) =~= stmts.take(j));
        let c0 = compile_block(d, 0);
        lemma_code_at_extend(c0, compile_stmt(stmts.last(), c0.len() as int), 0, compile_block(stmts.take(j), 0));
    }
}

/// From the code of statement `k` on, the compiled block runs as the
/// statements from `k` on.
#[verifier::spinoff_prover]
#[verifier::rlimit(40)]
proof fn lemma_block_from_agrees(
    stmts: Seq<JsStatement>,
    k: nat,
    this: Option<nat>,
    fuel: nat,
    eval_fuel: nat,
    last: ValueModel,
    w: WorldModel,
    tape: Seq<ReplyModel>,
)
    requires
        straight_block(stmts),
        k <= stmts.len(),
        fuel + compile_block(stmts.take(k as int), 0).len() >= compile_block(stmts, 0).len(),
    ensures
        vm_loop(compile_block(stmts, 0), this, fuel, compile_block(stmts.take(k as int), 0).len(), Seq::empty(), last, w, tape)
            == tw_block_from(stmts, k, last, this, eval_fuel, w, tape),
    decreases stmts.len() - k,
{
    let code = compile_block(stmts, 0);
    let head = compile_block(stmts.take(k as int), 0);
    let off = head.len();
    lemma_block_prefix(stmts, k as int);
    if k == stmts.len() {
        assert(stmts.take(k as int) =~= stmts);
    } else {
        let st = stmts[k as int];
        let cs = compile_stmt(st, off as int);
        assert(stmts.take((k + 1) as int).drop_last() =~= stmts.take(k as int));
        assert(stmts.take((k + 1) as int).last() == st);
        assert(compile_block(stmts.take((k + 1) as int), 0) == head + cs);
        lemma_block_prefix(stmts, (k + 1) as int);
        lemma_code_at_split(code, 0, head, cs);
        assert(straight_stmt(st));
        lemma_stmt_agrees(st, code, off, this, fuel, eval_fuel, Seq::empty(), last, w, tape);
        match tw_exec(st, this, eval_fuel, w, tape) {
            Ok((w1, CompletionModel::Normal(v))) => {
                lemma_block_from_agrees(stmts, k + 1, this, (fuel - cs.len()) as nat, eval_fuel, v, w1, tape);
            },
            _ => {},
        }
    }
}

/// Straight-line code runs alike compiled and directly. For a block of
/// expression statements, assignments to names, declarations, `return` and
/// `throw` statements over straight expressions, running the block's
/// compiled code with at least as many steps as it has instructions ends
/// exactly as running its statements one after another does: with the same
/// completion and world, or with the same halt.
pub proof fn law_straight_code_runs_alike(
    stmts: Seq<JsStatement>,
    this: Option<nat>,
    fuel: nat,
    eval_fuel: nat,
    w: WorldModel,
    tape: Seq<ReplyModel>,
)
    requires
        straight_block(stmts),
        fuel >= compile_block(stmts, 0).len(),
    ensures
        vm_run(compile_block(stmts, 0), this, fuel, w, tape)
            == tw_block_from(stmts, 0, ValueModel::Undefined, this, eval_fuel, w, tape),
{
    assert(stmts.take(0) =~= Seq::<JsStatement>::empty());
    lemma_block_from_agrees(stmts, 0, this, fuel, eval_fuel, ValueModel::Undefined, w, tape);
}

} // verus!
