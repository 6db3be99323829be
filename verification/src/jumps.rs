//! Where compiled jumps lead: every jump that the compiler writes for a
//! statement, an expression or a block lands inside the code written for it
//! or just after its end. (The bodies of `try` statements are separate
//! programs, compiled from position 0, and the same holds of each of them.)
use vstd::prelude::*;
use crate::ast::{JsStatement, JsExpression};
use crate::value::InstrModel;
use crate::compile::{compile_expr, compile_args, compile_prop_values, compile_stmt, compile_block};

verus! {

/// A jump of `i`, if it is one, lands in `[lo, hi]`.
pub open spec fn jump_in(i: InstrModel, lo: int, hi: int) -> bool {
    match i {
        InstrModel::Jump(t) => lo <= t <= hi,
        InstrModel::JumpIfFalse(t) => lo <= t <= hi,
        InstrModel::LogicalAnd(t) => lo <= t <= hi,
        InstrModel::LogicalOr(t) => lo <= t <= hi,
        _ => true,
    }
}

/// Every jump in `code` lands in `[lo, hi]`.
pub open spec fn jumps_within(code: Seq<InstrModel>, lo: int, hi: int) -> bool {
    forall|k: int| 0 <= k < code.len() ==> jump_in(#[trigger] code[k], lo, hi)
}

proof fn lemma_concat(a: Seq<InstrModel>, b: Seq<InstrModel>, lo: int, hi: int)
    requires
        jumps_within(a, lo, hi),
        jumps_within(b, lo, hi),
    ensures
        jumps_within(a + b, lo, hi),
{
    assert forall|k: int| 0 <= k < (a + b).len() implies jump_in(#[trigger] (a + b)[k], lo, hi) by {
        if k < a.len() {
            assert((a + b)[k] == a[k]);
        } else {
            assert((a + b)[k] == b[k - a.len()]);
        }
    }
}

proof fn lemma_expr(e: JsExpression, base: int, lo: int, hi: int)
    requires
        0 <= lo <= base,
        base + compile_expr(e, base).len() <= hi,
    ensures
        jumps_within(compile_expr(e, base), lo, hi),
    decreases e, 0nat,
{
    let code = compile_expr(e, base);
    match e {
        JsExpression::BinaryOp(l, op, r) => {
            let cl = compile_expr(*l, base);
            lemma_expr(*l, base, lo, hi);
            lemma_expr(*r, base + cl.len(), lo, hi);
            let cr = compile_expr(*r, base + cl.len());
            lemma_concat(cl, cr, lo, hi);
            lemma_concat(cl + cr, seq![code.last()], lo, hi);
            assert(code =~= cl + cr + seq![code.last()]);
        },
        JsExpression::UnaryOp(op, x) => {
            lemma_expr(*x, base, lo, hi);
            let cx = compile_expr(*x, base);
            lemma_concat(cx, seq![code.last()], lo, hi);
            assert(code =~= cx + seq![code.last()]);
        },
        JsExpression::LogicalOp(l, op, r) => {
            if crate::compile::is_and(op@) || crate::compile::is_or(op@) {
                let cl = compile_expr(*l, base);
                lemma_expr(*l, base, lo, hi);
                lemma_expr(*r, base + cl.len() + 3, lo, hi);
                let cr = compile_expr(*r, base + cl.len() + 3);
                let mid = seq![code[cl.len() as int], code[(cl.len() + 1) as int], code[(cl.len() + 2) as int]];
                assert(code =~= cl + mid + cr);
                lemma_concat(cl, mid, lo, hi);
                lemma_concat(cl + mid, cr, lo, hi);
            }
        },
        JsExpression::Call(n, args) => {
            lemma_args(args@, base, lo, hi);
            let ca = compile_args(args@, base);
            lemma_concat(ca, seq![code.last()], lo, hi);
            assert(code =~= ca + seq![code.last()]);
        },
        JsExpression::MemberAccess(o, m) => {
            lemma_expr(*o, base, lo, hi);
            let co = compile_expr(*o, base);
            lemma_concat(co, seq![code.last()], lo, hi);
            assert(code =~= co + seq![code.last()]);
        },
        JsExpression::IndexAccess(o, i) => {
            let co = compile_expr(*o, base);
            lemma_expr(*o, base, lo, hi);
            lemma_expr(*i, base + co.len(), lo, hi);
            let ci = compile_expr(*i, base + co.len());
            lemma_concat(co, ci, lo, hi);
            lemma_concat(co + ci, seq![code.last()], lo, hi);
            assert(code =~= co + ci + seq![code.last()]);
        },
        JsExpression::MethodCall { object, method, args } => {
            lemma_args(args@, base, lo, hi);
            let ca = compile_args(args@, base);
            match *object {
                JsExpression::Identifier(_) => {
                    lemma_concat(ca, seq![code.last()], lo, hi);
                    assert(code =~= ca + seq![code.last()]);
                },
                _ => {
                    lemma_expr(*object, base + ca.len(), lo, hi);
                    let co = compile_expr(*object, base + ca.len());
                    lemma_concat(ca, co, lo, hi);
                    lemma_concat(ca + co, seq![code.last()], lo, hi);
                    assert(code =~= ca + co + seq![code.last()]);
                },
            }
        },
        JsExpression::ObjectLiteral(props) => {
            lemma_props(props@, base, lo, hi);
            let cp = compile_prop_values(props@, base);
            lemma_concat(cp, seq![code.last()], lo, hi);
            assert(code =~= cp + seq![code.last()]);
        },
        JsExpression::ArrayLiteral(elems) => {
            lemma_args(elems@, base, lo, hi);
            let ca = compile_args(elems@, base);
            lemma_concat(ca, seq![code.last()], lo, hi);
            assert(code =~= ca + seq![code.last()]);
        },
        JsExpression::Assignment(n, x) => {
            lemma_expr(*x, base, lo, hi);
            let cx = compile_expr(*x, base);
            let tail = seq![code[cx.len() as int], code[(cx.len() + 1) as int]];
            lemma_concat(cx, tail, lo, hi);
            assert(code =~= cx + tail);
        },
        JsExpression::MemberAssignment(target, m, x) => {
            match *target {
                JsExpression::This => {
                    lemma_expr(*x, base, lo, hi);
                    let cx = compile_expr(*x, base);
                    lemma_concat(cx, seq![code.last()], lo, hi);
                    assert(code =~= cx + seq![code.last()]);
                },
                JsExpression::Identifier(_) => {
                    lemma_expr(*x, base, lo, hi);
                    let cx = compile_expr(*x, base);
                    lemma_concat(cx, seq![code.last()], lo, hi);
                    assert(code =~= cx + seq![code.last()]);
                },
                _ => {
                    let ct = compile_expr(*target, base);
                    lemma_expr(*target, base, lo, hi);
                    lemma_expr(*x, base + ct.len(), lo, hi);
                    let cx = compile_expr(*x, base + ct.len());
                    lemma_concat(ct, cx, lo, hi);
                    lemma_concat(ct + cx, seq![code.last()], lo, hi);
                    assert(code =~= ct + cx + seq![code.last()]);
                },
            }
        },
        JsExpression::IndexAssignment(target, index, x) => {
            let ci = compile_expr(*index, base);
            lemma_expr(*index, base, lo, hi);
            let ce = compile_expr(*x, base + ci.len());
            lemma_expr(*x, base + ci.len(), lo, hi);
            lemma_concat(ci, ce, lo, hi);
            match *target {
                JsExpression::Identifier(_) => {
                    lemma_concat(ci + ce, seq![code.last()], lo, hi);
                    assert(code =~= ci + ce + seq![code.last()]);
                },
                _ => {
                    let ct = compile_expr(*target, base + ci.len() + ce.len());
                    lemma_expr(*target, base + ci.len() + ce.len(), lo, hi);
                    lemma_concat(ci + ce, ct, lo, hi);
                    lemma_concat(ci + ce + ct, seq![code.last()], lo, hi);
                    assert(code =~= ci + ce + ct + seq![code.last()]);
                },
            }
        },
        _ => {},
    }
}

proof fn lemma_args(args: Seq<JsExpression>, base: int, lo: int, hi: int)
    requires
        0 <= lo <= base,
        base + compile_args(args, base).len() <= hi,
    ensures
        jumps_within(compile_args(args, base), lo, hi),
    decreases args, 1nat,
{
    if args.len() > 0 {
        let c0 = compile_args(args.drop_last(), base);
        lemma_args(args.drop_last(), base, lo, hi);
        lemma_expr(args.last(), base + c0.len(), lo, hi);
        lemma_concat(c0, compile_expr(args.last(), base + c0.len()), lo, hi);
    }
}

proof fn lemma_props(props: Seq<(String, JsExpression)>, base: int, lo: int, hi: int)
    requires
        0 <= lo <= base,
        base + compile_prop_values(props, base).len() <= hi,
    ensures
        jumps_within(compile_prop_values(props, base), lo, hi),
    decreases props, 1nat,
{
    if props.len() > 0 {
        let c0 = compile_prop_values(props.drop_last(), base);
        lemma_props(props.drop_last(), base, lo, hi);
        assert(decreases_to!(props => props.last()));
        lemma_expr(props.last().1, base + c0.len(), lo, hi);
        lemma_concat(c0, compile_expr(props.last().1, base + c0.len()), lo, hi);
    }
}

proof fn lemma_stmt(st: JsStatement, base: int, lo: int, hi: int)
    requires
        0 <= lo <= base,
        base + compile_stmt(st, base).len() <= hi,
    ensures
        jumps_within(compile_stmt(st, base), lo, hi),
    decreases st, 1nat,
{
    match st {
        JsStatement::IfStatement(..) => lemma_stmt_if(st, base, lo, hi),
        JsStatement::WhileLoop(..) => lemma_stmt_while(st, base, lo, hi),
        JsStatement::DoWhileLoop(..) => lemma_stmt_do(st, base, lo, hi),
        JsStatement::ForLoop { .. } => lemma_stmt_for(st, base, lo, hi),
        JsStatement::MemberAssignment(..) => lemma_stmt_member(st, base, lo, hi),
        JsStatement::IndexAssignment(..) => lemma_stmt_index(st, base, lo, hi),
        JsStatement::TryCatchFinally { .. } => {},
        _ => lemma_stmt_simple(st, base, lo, hi),
    }
}

proof fn lemma_stmt_simple(st: JsStatement, base: int, lo: int, hi: int)
    requires
        st is Expression || st is Assignment || st is Declaration || st is Return || st is Throw,
        0 <= lo <= base,
        base + compile_stmt(st, base).len() <= hi,
    ensures
        jumps_within(compile_stmt(st, base), lo, hi),
    decreases st, 0nat,
{
    let code = compile_stmt(st, base);
    match st {
        JsStatement::Expression(e) => {
            lemma_expr(e, base, lo, hi);
            let ce = compile_expr(e, base);
            let t = seq![InstrModel::SetLast, InstrModel::Pop];
            assert(code =~= ce + t);
            lemma_concat(ce, t, lo, hi);
        },
        JsStatement::Assignment(n, e) => {
            lemma_expr(e, base, lo, hi);
            let ce = compile_expr(e, base);
            let t = seq![InstrModel::Dup, InstrModel::StoreIdentifier(n@), InstrModel::SetLast, InstrModel::Pop];
            assert(code =~= ce + t);
            lemma_concat(ce, t, lo, hi);
        },
        JsStatement::Declaration { kind, name, expr } => {
            lemma_expr(expr, base, lo, hi);
            let ce = compile_expr(expr, base);
            let t = seq![InstrModel::Dup, InstrModel::Declare { kind, name: name@ }, InstrModel::SetLast, InstrModel::Pop];
            assert(code =~= ce + t);
            lemma_concat(ce, t, lo, hi);
        },
        JsStatement::Return(opt) => match opt {
            Some(e) => {
                lemma_expr(e, base, lo, hi);
                let ce = compile_expr(e, base);
                let t = seq![InstrModel::Return];
                assert(code =~= ce + t);
                lemma_concat(ce, t, lo, hi);
            },
            None => {},
        },
        JsStatement::Throw(e) => {
            lemma_expr(e, base, lo, hi);
            let ce = compile_expr(e, base);
            let t = seq![InstrModel::Throw];
            assert(code =~= ce + t);
            lemma_concat(ce, t, lo, hi);
        },
        _ => {},
    }
}

proof fn lemma_stmt_member(st: JsStatement, base: int, lo: int, hi: int)
    requires
        st is MemberAssignment,
        0 <= lo <= base,
        base + compile_stmt(st, base).len() <= hi,
    ensures
        jumps_within(compile_stmt(st, base), lo, hi),
    decreases st, 0nat,
{
    let code = compile_stmt(st, base);
    match st {
        JsStatement::MemberAssignment(target, m, e) => {
            let t = seq![InstrModel::SetLast, InstrModel::Pop];
            match target {
                JsExpression::This => {
                    lemma_expr(e, base, lo, hi);
                    let ce = compile_expr(e, base);
                    let b = ce + seq![InstrModel::AssignThisMember(m@)];
                    lemma_concat(ce, seq![InstrModel::AssignThisMember(m@)], lo, hi);
                    assert(code =~= b + t);
                    lemma_concat(b, t, lo, hi);
                },
                JsExpression::Identifier(n) => {
                    lemma_expr(e, base, lo, hi);
                    let ce = compile_expr(e, base);
                    let one = seq![InstrModel::AssignNamedMember { object_name: n@, member: m@ }];
                    let b = ce + one;
                    lemma_concat(ce, one, lo, hi);
                    assert(code =~= b + t);
                    lemma_concat(b, t, lo, hi);
                },
                _ => {
                    let ct = compile_expr(target, base);
                    lemma_expr(target, base, lo, hi);
                    let ce = compile_expr(e, base + ct.len());
                    lemma_expr(e, base + ct.len(), lo, hi);
                    let one = seq![InstrModel::AssignComputedMember(m@)];
                    let b = ct + ce + one;
                    lemma_concat(ct, ce, lo, hi);
                    lemma_concat(ct + ce, one, lo, hi);
                    assert(code =~= b + t);
                    lemma_concat(b, t, lo, hi);
                },
            }
        },
        _ => {},
    }
}

proof fn lemma_stmt_index(st: JsStatement, base: int, lo: int, hi: int)
    requires
        st is IndexAssignment,
        0 <= lo <= base,
        base + compile_stmt(st, base).len() <= hi,
    ensures
        jumps_within(compile_stmt(st, base), lo, hi),
    decreases st, 0nat,
{
    let code = compile_stmt(st, base);
    match st {
        JsStatement::IndexAssignment(target, index, e) => {
            let ci = compile_expr(index, base);
            lemma_expr(index, base, lo, hi);
            let ce = compile_expr(e, base + ci.len());
            lemma_expr(e, base + ci.len(), lo, hi);
            lemma_concat(ci, ce, lo, hi);
            let t = seq![InstrModel::SetLast, InstrModel::Pop];
            match target {
                JsExpression::Identifier(n) => {
                    let one = seq![InstrModel::AssignNamedIndex(n@)];
                    lemma_concat(ci + ce, one, lo, hi);
                    assert(code =~= ci + ce + one + t);
                    lemma_concat(ci + ce + one, t, lo, hi);
                },
                _ => {
                    let ct = compile_expr(target, base + ci.len() + ce.len());
                    lemma_expr(target, base + ci.len() + ce.len(), lo, hi);
                    let one = seq![InstrModel::AssignComputedIndex];
                    lemma_concat(ci + ce, ct, lo, hi);
                    lemma_concat(ci + ce + ct, one, lo, hi);
                    assert(code =~= ci + ce + ct + one + t);
                    lemma_concat(ci + ce + ct + one, t, lo, hi);
                },
            }
        },
        _ => {},
    }
}

proof fn lemma_stmt_if(st: JsStatement, base: int, lo: int, hi: int)
    requires
        st is IfStatement,
        0 <= lo <= base,
        base + compile_stmt(st, base).len() <= hi,
    ensures
        jumps_within(compile_stmt(st, base), lo, hi),
    decreases st, 0nat,
{
    let code = compile_stmt(st, base);
    match st {
        JsStatement::IfStatement(c, body, else_body) => {
            let cc = compile_expr(c, base);
            lemma_expr(c, base, lo, hi);
            let cb = compile_block(body@, base + cc.len() + 1);
            lemma_block(body@, base + cc.len() + 1, lo, hi);
            match else_body {
                Some(eb) => {
                    let else_start = base + cc.len() + 1 + cb.len() + 1;
                    let ce = compile_block(eb@, else_start);
                    lemma_block(eb@, else_start, lo, hi);
                    let j1 = seq![InstrModel::JumpIfFalse(else_start as nat)];
                    let j2 = seq![InstrModel::Jump((else_start + ce.len()) as nat)];
                    assert(code =~= cc + j1 + cb + j2 + ce);
                    lemma_concat(cc, j1, lo, hi);
                    lemma_concat(cc + j1, cb, lo, hi);
                    lemma_concat(cc + j1 + cb, j2, lo, hi);
                    lemma_concat(cc + j1 + cb + j2, ce, lo, hi);
                },
                None => {
                    let j1 = seq![InstrModel::JumpIfFalse((base + cc.len() + 1 + cb.len()) as nat)];
                    assert(code =~= cc + j1 + cb);
                    lemma_concat(cc, j1, lo, hi);
                    lemma_concat(cc + j1, cb, lo, hi);
                },
            }
        },
        _ => {},
    }
}

proof fn lemma_stmt_while(st: JsStatement, base: int, lo: int, hi: int)
    requires
        st is WhileLoop,
        0 <= lo <= base,
        base + compile_stmt(st, base).len() <= hi,
    ensures
        jumps_within(compile_stmt(st, base), lo, hi),
    decreases st, 0nat,
{
    let code = compile_stmt(st, base);
    match st {
        JsStatement::WhileLoop(c, body) => {
            let cc = compile_expr(c, base);
            lemma_expr(c, base, lo, hi);
            let cb = compile_block(body@, base + cc.len() + 1);
            lemma_block(body@, base + cc.len() + 1, lo, hi);
            let j1 = seq![InstrModel::JumpIfFalse((base + cc.len() + 1 + cb.len() + 1) as nat)];
            let j2 = seq![InstrModel::Jump(base as nat)];
            assert(code =~= cc + j1 + cb + j2);
            lemma_concat(cc, j1, lo, hi);
            lemma_concat(cc + j1, cb, lo, hi);
            lemma_concat(cc + j1 + cb, j2, lo, hi);
        },
        _ => {},
    }
}

proof fn lemma_stmt_do(st: JsStatement, base: int, lo: int, hi: int)
    requires
        st is DoWhileLoop,
        0 <= lo <= base,
        base + compile_stmt(st, base).len() <= hi,
    ensures
        jumps_within(compile_stmt(st, base), lo, hi),
    decreases st, 0nat,
{
    let code = compile_stmt(st, base);
    match st {
        JsStatement::DoWhileLoop(body, c) => {
            let cb = compile_block(body@, base);
            lemma_block(body@, base, lo, hi);
            let cc = compile_expr(c, base + cb.len());
            lemma_expr(c, base + cb.len(), lo, hi);
            let t = seq![InstrModel::JumpIfFalse((base + cb.len() + cc.len() + 2) as nat), InstrModel::Jump(base as nat)];
            assert(code =~= cb + cc + t);
            lemma_concat(cb, cc, lo, hi);
            lemma_concat(cb + cc, t, lo, hi);
        },
        _ => {},
    }
}

proof fn lemma_stmt_for(st: JsStatement, base: int, lo: int, hi: int)
    requires
        st is ForLoop,
        0 <= lo <= base,
        base + compile_stmt(st, base).len() <= hi,
    ensures
        jumps_within(compile_stmt(st, base), lo, hi),
    decreases st, 0nat,
{
    let code = compile_stmt(st, base);
    match st {
        JsStatement::ForLoop { init, condition, increment, body } => {
            let ci = match init {
                Some(s0) => compile_stmt(*s0, base),
                None => Seq::empty(),
            };
            match init {
                Some(s0) => lemma_stmt(*s0, base, lo, hi),
                None => {},
            }
            let start = base + ci.len();
            let cc = match condition {
                Some(c) => compile_expr(c, start),
                None => seq![InstrModel::PushLiteral(crate::value::ValueModel::Boolean(true))],
            };
            match condition {
                Some(c) => lemma_expr(c, start, lo, hi),
                None => {},
            }
            let cb = compile_block(body@, start + cc.len() + 1);
            lemma_block(body@, start + cc.len() + 1, lo, hi);
            let cinc = match increment {
                Some(s1) => compile_stmt(*s1, start + cc.len() + 1 + cb.len()),
                None => Seq::empty(),
            };
            match increment {
                Some(s1) => lemma_stmt(*s1, start + cc.len() + 1 + cb.len(), lo, hi),
                None => {},
            }
            let j1 = seq![InstrModel::JumpIfFalse((start + cc.len() + 1 + cb.len() + cinc.len() + 1) as nat)];
            let j2 = seq![InstrModel::Jump(start as nat)];
            assert(code =~= ci + cc + j1 + cb + cinc + j2);
            lemma_concat(ci, cc, lo, hi);
            lemma_concat(ci + cc, j1, lo, hi);
            lemma_concat(ci + cc + j1, cb, lo, hi);
            lemma_concat(ci + cc + j1 + cb, cinc, lo, hi);
            lemma_concat(ci + cc + j1 + cb + cinc, j2, lo, hi);
        },
        _ => {},
    }
}

proof fn lemma_block(stmts: Seq<JsStatement>, base: int, lo: int, hi: int)
    requires
        0 <= lo <= base,
        base + compile_block(stmts, base).len() <= hi,
    ensures
        jumps_within(compile_block(stmts, base), lo, hi),
    decreases stmts, 2nat,
{
    if stmts.len() > 0 {
        let c0 = compile_block(stmts.drop_last(), base);
        lemma_block(stmts.drop_last(), base, lo, hi);
        lemma_stmt(stmts.last(), base + c0.len(), lo, hi);
        lemma_concat(c0, compile_stmt(stmts.last(), base + c0.len()), lo, hi);
    }
}

/// The code compiled for a statement whose code starts at `base` only jumps
/// to positions inside that code or to the position just after it.
pub proof fn law_statement_jumps_stay_in_its_code(st: JsStatement, base: int)
    requires
        0 <= base,
    ensures
        jumps_within(compile_stmt(st, base), base, base + compile_stmt(st, base).len()),
{
    lemma_stmt(st, base, base, base + compile_stmt(st, base).len());
}

/// The code compiled for an expression whose code starts at `base` only
/// jumps to positions inside that code or to the position just after it.
pub proof fn law_expression_jumps_stay_in_its_code(e: JsExpression, base: int)
    requires
        0 <= base,
    ensures
        jumps_within(compile_expr(e, base), base, base + compile_expr(e, base).len()),
{
    lemma_expr(e, base, base, base + compile_expr(e, base).len());
}

/// A compiled program (a block compiled from position 0) only jumps to its
/// own positions or to its end.
pub proof fn law_program_jumps_stay_in_its_code(stmts: Seq<JsStatement>)
    ensures
        jumps_within(compile_block(stmts, 0), 0, compile_block(stmts, 0).len() as int),
{
    lemma_block(stmts, 0, 0, compile_block(stmts, 0).len() as int);
}

} // verus!
