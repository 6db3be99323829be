//! The compiler from statements to stack-machine code.
//!
//! `compile_stmt` and `compile_expr` say, for each construct, which
//! instructions it becomes when its code starts at index `base` of the
//! program (jump targets are absolute). The executable compiler appends
//! exactly that code.
use vstd::prelude::*;
use crate::ast::{JsStatement, JsExpression};
use crate::value::{
    JsValue, Instruction, InstrModel, BinaryOperator, UnaryOperator, BytecodeProgram, ValueModel, instrs_model,
    clone_value, lemma_instrs_model_push, lemma_instrs_model_len, lemma_instrs_model_index, strings_model,
};
use crate::text::{is_text1, is_text2, is_text3};

verus! {

/// The operator that an operator string names.
pub open spec fn binary_operator(op: Seq<char>) -> BinaryOperator {
    if op == seq!['+'] {
        BinaryOperator::Add
    } else if op == seq!['-'] {
        BinaryOperator::Subtract
    } else if op == seq!['*'] {
        BinaryOperator::Multiply
    } else if op == seq!['/'] {
        BinaryOperator::Divide
    } else if op == seq!['%'] {
        BinaryOperator::Remainder
    } else if op == seq!['=', '='] {
        BinaryOperator::Equal
    } else if op == seq!['!', '='] {
        BinaryOperator::NotEqual
    } else if op == seq!['=', '=', '='] {
        BinaryOperator::StrictEqual
    } else if op == seq!['!', '=', '='] {
        BinaryOperator::StrictNotEqual
    } else if op == seq!['<'] {
        BinaryOperator::LessThan
    } else if op == seq!['>'] {
        BinaryOperator::GreaterThan
    } else if op == seq!['<', '='] {
        BinaryOperator::LessThanOrEqual
    } else if op == seq!['>', '='] {
        BinaryOperator::GreaterThanOrEqual
    } else {
        BinaryOperator::Unsupported
    }
}

/// The unary operator that an operator string names.
pub open spec fn unary_operator(op: Seq<char>) -> UnaryOperator {
    if op == seq!['-'] {
        UnaryOperator::Negate
    } else if op == seq!['!'] {
        UnaryOperator::Not
    } else {
        UnaryOperator::Unsupported
    }
}

pub open spec fn is_and(op: Seq<char>) -> bool {
    op == seq!['&', '&']
}

pub open spec fn is_or(op: Seq<char>) -> bool {
    op == seq!['|', '|']
}

/// The code of an expression whose code starts at `base`.
pub open spec fn compile_expr(e: JsExpression, base: int) -> Seq<InstrModel>
    decreases e, 0nat,
{
    match e {
        JsExpression::Literal(v) => seq![InstrModel::PushLiteral(v@)],
        JsExpression::Identifier(n) => seq![InstrModel::LoadIdentifier(n@)],
        JsExpression::This => seq![InstrModel::LoadThis],
        JsExpression::BinaryOp(l, op, r) => {
            let cl = compile_expr(*l, base);
            let cr = compile_expr(*r, base + cl.len());
            cl + cr + seq![InstrModel::BinaryOp(binary_operator(op@))]
        },
        JsExpression::UnaryOp(op, x) => {
            compile_expr(*x, base) + seq![InstrModel::UnaryOp(unary_operator(op@))]
        },
        JsExpression::LogicalOp(l, op, r) => {
            if is_and(op@) || is_or(op@) {
                let cl = compile_expr(*l, base);
                let cr = compile_expr(*r, base + cl.len() + 3);
                let end = (base + cl.len() + 3 + cr.len()) as nat;
                let jump = if is_and(op@) { InstrModel::LogicalAnd(end) } else { InstrModel::LogicalOr(end) };
                cl + seq![InstrModel::Dup, jump, InstrModel::Pop] + cr
            } else {
                seq![InstrModel::PushUndefined]
            }
        },
        JsExpression::Call(n, args) => {
            compile_args(args@, base) + seq![InstrModel::Call(n@, args@.len())]
        },
        JsExpression::MemberAccess(o, m) => compile_expr(*o, base) + seq![InstrModel::MemberAccess(m@)],
        JsExpression::IndexAccess(o, i) => {
            let co = compile_expr(*o, base);
            co + compile_expr(*i, base + co.len()) + seq![InstrModel::IndexAccess]
        },
        JsExpression::MethodCall { object, method, args } => {
            let ca = compile_args(args@, base);
            match *object {
                JsExpression::Identifier(n) => ca + seq![InstrModel::MethodCallNamed {
                    object_name: n@,
                    method: method@,
                    arg_count: args@.len(),
                }],
                _ => ca + compile_expr(*object, base + ca.len()) + seq![InstrModel::MethodCall {
                    method: method@,
                    arg_count: args@.len(),
                }],
            }
        },
        JsExpression::ObjectLiteral(props) => {
            compile_prop_values(props@, base) + seq![InstrModel::MakeObject(prop_keys(props@))]
        },
        JsExpression::ArrayLiteral(elems) => {
            compile_args(elems@, base) + seq![InstrModel::MakeArray(elems@.len())]
        },
        JsExpression::Assignment(n, e) => compile_expr(*e, base) + seq![InstrModel::Dup, InstrModel::StoreIdentifier(n@)],
        JsExpression::MemberAssignment(target, m, e) => match *target {
            JsExpression::This => compile_expr(*e, base) + seq![InstrModel::AssignThisMember(m@)],
            JsExpression::Identifier(n) => compile_expr(*e, base) + seq![InstrModel::AssignNamedMember {
                object_name: n@,
                member: m@,
            }],
            _ => {
                let ct = compile_expr(*target, base);
                ct + compile_expr(*e, base + ct.len()) + seq![InstrModel::AssignComputedMember(m@)]
            },
        },
        JsExpression::IndexAssignment(target, index, e) => {
            let ci = compile_expr(*index, base);
            let ce = compile_expr(*e, base + ci.len());
            let tail = match *target {
                JsExpression::Identifier(n) => seq![InstrModel::AssignNamedIndex(n@)],
                _ => compile_expr(*target, base + ci.len() + ce.len()) + seq![InstrModel::AssignComputedIndex],
            };
            ci + ce + tail
        },
    }
}

/// The code of a list of expressions, each leaving its value on the stack.
pub open spec fn compile_args(args: Seq<JsExpression>, base: int) -> Seq<InstrModel>
    decreases args, 1nat,
{
    if args.len() == 0 {
        Seq::empty()
    } else {
        let c0 = compile_args(args.drop_last(), base);
        c0 + compile_expr(args.last(), base + c0.len())
    }
}

/// The code of the values of an object literal.
pub open spec fn compile_prop_values(props: Seq<(String, JsExpression)>, base: int) -> Seq<InstrModel>
    decreases props, 1nat,
{
    if props.len() == 0 {
        Seq::empty()
    } else {
        let c0 = compile_prop_values(props.drop_last(), base);
        c0 + compile_expr(props.last().1, base + c0.len())
    }
}

pub open spec fn prop_keys(props: Seq<(String, JsExpression)>) -> Seq<Seq<char>> {
    props.map_values(|p: (String, JsExpression)| p.0@)
}

/// The code of a statement whose code starts at `base`.
pub open spec fn compile_stmt(s: JsStatement, base: int) -> Seq<InstrModel>
    decreases s, 0nat,
{
    match s {
        JsStatement::Expression(e) => compile_expr(e, base) + seq![InstrModel::SetLast, InstrModel::Pop],
        JsStatement::Assignment(n, e) => compile_expr(e, base) + seq![
            InstrModel::Dup,
            InstrModel::StoreIdentifier(n@),
            InstrModel::SetLast,
            InstrModel::Pop,
        ],
        JsStatement::Declaration { kind, name, expr } => compile_expr(expr, base) + seq![
            InstrModel::Dup,
            InstrModel::Declare { kind, name: name@ },
            InstrModel::SetLast,
            InstrModel::Pop,
        ],
        JsStatement::MemberAssignment(target, m, e) => {
            let body = match target {
                JsExpression::This => compile_expr(e, base) + seq![InstrModel::AssignThisMember(m@)],
                JsExpression::Identifier(n) => compile_expr(e, base) + seq![InstrModel::AssignNamedMember {
                    object_name: n@,
                    member: m@,
                }],
                _ => {
                    let ct = compile_expr(target, base);
                    ct + compile_expr(e, base + ct.len()) + seq![InstrModel::AssignComputedMember(m@)]
                },
            };
            body + seq![InstrModel::SetLast, InstrModel::Pop]
        },
        JsStatement::IndexAssignment(target, index, e) => {
            let ci = compile_expr(index, base);
            let ce = compile_expr(e, base + ci.len());
            let tail = match target {
                JsExpression::Identifier(n) => seq![InstrModel::AssignNamedIndex(n@)],
                _ => compile_expr(target, base + ci.len() + ce.len()) + seq![InstrModel::AssignComputedIndex],
            };
            ci + ce + tail + seq![InstrModel::SetLast, InstrModel::Pop]
        },
        JsStatement::Return(opt) => match opt {
            Some(e) => compile_expr(e, base) + seq![InstrModel::Return],
            None => seq![InstrModel::PushUndefined, InstrModel::Return],
        },
        JsStatement::Throw(e) => compile_expr(e, base) + seq![InstrModel::Throw],
        JsStatement::IfStatement(c, body, else_body) => {
            let cc = compile_expr(c, base);
            let cb = compile_block(body@, base + cc.len() + 1);
            match else_body {
                Some(eb) => {
                    let else_start = base + cc.len() + 1 + cb.len() + 1;
                    let ce = compile_block(eb@, else_start);
                    cc + seq![InstrModel::JumpIfFalse(else_start as nat)] + cb
                        + seq![InstrModel::Jump((else_start + ce.len()) as nat)] + ce
                },
                None => cc + seq![InstrModel::JumpIfFalse((base + cc.len() + 1 + cb.len()) as nat)] + cb,
            }
        },
        JsStatement::WhileLoop(c, body) => {
            let cc = compile_expr(c, base);
            let cb = compile_block(body@, base + cc.len() + 1);
            cc + seq![InstrModel::JumpIfFalse((base + cc.len() + 1 + cb.len() + 1) as nat)] + cb
                + seq![InstrModel::Jump(base as nat)]
        },
        JsStatement::DoWhileLoop(body, c) => {
            let cb = compile_block(body@, base);
            let cc = compile_expr(c, base + cb.len());
            cb + cc + seq![
                InstrModel::JumpIfFalse((base + cb.len() + cc.len() + 2) as nat),
                InstrModel::Jump(base as nat),
            ]
        },
        JsStatement::ForLoop { init, condition, increment, body } => {
            let ci = match init {
                Some(st) => compile_stmt(*st, base),
                None => Seq::empty(),
            };
            let start = base + ci.len();
            let cc = match condition {
                Some(c) => compile_expr(c, start),
                None => seq![InstrModel::PushLiteral(ValueModel::Boolean(true))],
            };
            let cb = compile_block(body@, start + cc.len() + 1);
            let cinc = match increment {
                Some(st) => compile_stmt(*st, start + cc.len() + 1 + cb.len()),
                None => Seq::empty(),
            };
            ci + cc + seq![InstrModel::JumpIfFalse((start + cc.len() + 1 + cb.len() + cinc.len() + 1) as nat)]
                + cb + cinc + seq![InstrModel::Jump(start as nat)]
        },
        JsStatement::TryCatchFinally { try_block, catch_param, catch_block, finally_block } => seq![
            InstrModel::TryCatchFinally {
                try_program: compile_block(try_block@, 0),
                catch_param: match catch_param {
                    Some(p) => Some(p@),
                    None => None,
                },
                catch_program: match catch_block {
                    Some(b) => Some(compile_block(b@, 0)),
                    None => None,
                },
                finally_program: match finally_block {
                    Some(b) => Some(compile_block(b@, 0)),
                    None => None,
                },
            },
            InstrModel::SetLast,
            InstrModel::Pop,
        ],
    }
}

/// The code of a list of statements whose code starts at `base`.
pub open spec fn compile_block(stmts: Seq<JsStatement>, base: int) -> Seq<InstrModel>
    decreases stmts, 1nat,
{
    if stmts.len() == 0 {
        Seq::empty()
    } else {
        let c0 = compile_block(stmts.drop_last(), base);
        c0 + compile_stmt(stmts.last(), base + c0.len())
    }
}

// ---------------------------------------------------------------------------
// The executable compiler
// ---------------------------------------------------------------------------

/// Recognises a binary operator string.
pub fn classify_binary(op: &String) -> (r: BinaryOperator)
    ensures
        r == binary_operator(op@),
{
    let s = op.as_str();
    if is_text1(s, '+') {
        BinaryOperator::Add
    } else if is_text1(s, '-') {
        BinaryOperator::Subtract
    } else if is_text1(s, '*') {
        BinaryOperator::Multiply
    } else if is_text1(s, '/') {
        BinaryOperator::Divide
    } else if is_text1(s, '%') {
        BinaryOperator::Remainder
    } else if is_text2(s, '=', '=') {
        BinaryOperator::Equal
    } else if is_text2(s, '!', '=') {
        BinaryOperator::NotEqual
    } else if is_text3(s, '=', '=', '=') {
        BinaryOperator::StrictEqual
    } else if is_text3(s, '!', '=', '=') {
        BinaryOperator::StrictNotEqual
    } else if is_text1(s, '<') {
        BinaryOperator::LessThan
    } else if is_text1(s, '>') {
        BinaryOperator::GreaterThan
    } else if is_text2(s, '<', '=') {
        BinaryOperator::LessThanOrEqual
    } else if is_text2(s, '>', '=') {
        BinaryOperator::GreaterThanOrEqual
    } else {
        BinaryOperator::Unsupported
    }
}

/// Recognises a unary operator string.
pub fn classify_unary(op: &String) -> (r: UnaryOperator)
    ensures
        r == unary_operator(op@),
{
    let s = op.as_str();
    if is_text1(s, '-') {
        UnaryOperator::Negate
    } else if is_text1(s, '!') {
        UnaryOperator::Not
    } else {
        UnaryOperator::Unsupported
    }
}

fn emit(out: &mut Vec<Instruction>, i: Instruction)
    ensures
        instrs_model(final(out)@) == instrs_model(old(out)@).push(i@),
        final(out)@.len() == old(out)@.len() + 1,
{
    proof { lemma_instrs_model_push(out@, i); }
    out.push(i);
}

fn patch(out: &mut Vec<Instruction>, idx: usize, i: Instruction)
    requires
        idx < old(out)@.len(),
    ensures
        instrs_model(final(out)@) == instrs_model(old(out)@).update(idx as int, i@),
        final(out)@.len() == old(out)@.len(),
{
    let ghost before = out@;
    out.set(idx, i);
    proof {
        lemma_instrs_model_len(before);
        lemma_instrs_model_len(out@);
        assert forall|k: int| 0 <= k < out@.len() implies instrs_model(out@)[k]
            == instrs_model(before).update(idx as int, i@)[k] by {
            lemma_instrs_model_index(out@, k);
            lemma_instrs_model_index(before, k);
        }
        assert(instrs_model(out@) =~= instrs_model(before).update(idx as int, i@));
    }
}

/// Compiles an expression, appending its code.
#[verifier::spinoff_prover]
pub fn compile_expression(e: &JsExpression, out: &mut Vec<Instruction>)
    ensures
        instrs_model(final(out)@) == instrs_model(old(out)@) + compile_expr(*e, old(out)@.len() as int),
        final(out)@.len() == old(out)@.len() + compile_expr(*e, old(out)@.len() as int).len(),
    decreases e, 1nat,
{
    let ghost start = instrs_model(out@);
    let ghost base = out@.len() as int;
    match e {
        JsExpression::Literal(v) => {
            emit(out, Instruction::PushLiteral(clone_value(v)));
        },
        JsExpression::Identifier(n) => {
            emit(out, Instruction::LoadIdentifier(n.clone()));
        },
        JsExpression::This => {
            emit(out, Instruction::LoadThis);
        },
        JsExpression::BinaryOp(l, op, r) => {
            compile_expression(l, out);
            compile_expression(r, out);
            emit(out, Instruction::BinaryOp(classify_binary(op)));
            assert(instrs_model(out@) =~= start + compile_expr(*e, base));
        },
        JsExpression::UnaryOp(op, x) => {
            compile_expression(x, out);
            emit(out, Instruction::UnaryOp(classify_unary(op)));
        },
        JsExpression::LogicalOp(l, op, r) => {
            let is_and = is_text2(op.as_str(), '&', '&');
            let is_or = is_text2(op.as_str(), '|', '|');
            if is_and || is_or {
                compile_expression(l, out);
                emit(out, Instruction::Dup);
                let jump_idx = out.len();
                emit(out, Instruction::LogicalAnd(usize::MAX));
                emit(out, Instruction::Pop);
                compile_expression(r, out);
                let end = out.len();
                proof {
                    lemma_instrs_model_len(out@);
                }
                if is_and {
                    patch(out, jump_idx, Instruction::LogicalAnd(end));
                } else {
                    patch(out, jump_idx, Instruction::LogicalOr(end));
                }
                assert(instrs_model(out@) =~= start + compile_expr(*e, base));
            } else {
                emit(out, Instruction::PushUndefined);
            }
        },
        JsExpression::Call(n, args) => {
            compile_arguments(args, out);
            emit(out, Instruction::Call(n.clone(), args.len()));
        },
        JsExpression::MemberAccess(o, m) => {
            compile_expression(o, out);
            emit(out, Instruction::MemberAccess(m.clone()));
        },
        JsExpression::IndexAccess(o, i) => {
            compile_expression(o, out);
            compile_expression(i, out);
            emit(out, Instruction::IndexAccess);
            assert(instrs_model(out@) =~= start + compile_expr(*e, base));
        },
        JsExpression::MethodCall { object, method, args } => {
            compile_arguments(args, out);
            match &**object {
                JsExpression::Identifier(n) => {
                    emit(out, Instruction::MethodCallNamed {
                        object_name: n.clone(),
                        method: method.clone(),
                        arg_count: args.len(),
                    });
                },
                _ => {
                    compile_expression(object, out);
                    emit(out, Instruction::MethodCall { method: method.clone(), arg_count: args.len() });
                },
            }
            assert(instrs_model(out@) =~= start + compile_expr(*e, base));
        },
        JsExpression::ObjectLiteral(props) => {
            compile_property_values(props, out);
            let mut keys: Vec<String> = Vec::new();
            let mut i: usize = 0;
            while i < props.len()
                invariant
                    i <= props@.len(),
                    keys@.len() == i,
                    forall|j: int| 0 <= j < i ==> (#[trigger] keys@[j])@ == props@[j].0@,
                decreases props@.len() - i,
            {
                keys.push(props[i].0.clone());
                i += 1;
            }
            assert(strings_model(keys@) =~= prop_keys(props@));
            emit(out, Instruction::MakeObject(keys));
        },
        JsExpression::ArrayLiteral(elems) => {
            compile_arguments(elems, out);
            emit(out, Instruction::MakeArray(elems.len()));
        },
        JsExpression::Assignment(..) | JsExpression::MemberAssignment(..) | JsExpression::IndexAssignment(..) => {
            compile_assignment(e, out);
        },
    }
    assert(instrs_model(out@) =~= start + compile_expr(*e, base));
    proof { lemma_instrs_model_len(out@); lemma_instrs_model_len(old(out)@); }
}

/// Compiles an assignment used as an expression; see `compile_expr`.
fn compile_assignment(e: &JsExpression, out: &mut Vec<Instruction>)
    requires
        e is Assignment || e is MemberAssignment || e is IndexAssignment,
    ensures
        instrs_model(final(out)@) == instrs_model(old(out)@) + compile_expr(*e, old(out)@.len() as int),
        final(out)@.len() == old(out)@.len() + compile_expr(*e, old(out)@.len() as int).len(),
    decreases e, 0nat,
{
    let ghost start = instrs_model(out@);
    let ghost base = out@.len() as int;
    match e {
        JsExpression::Assignment(n, x) => {
            compile_expression(x, out);
            emit(out, Instruction::Dup);
            emit(out, Instruction::StoreIdentifier(n.clone()));
        },
        JsExpression::MemberAssignment(target, m, x) => {
            match &**target {
                JsExpression::This => {
                    compile_expression(x, out);
                    emit(out, Instruction::AssignThisMember(m.clone()));
                },
                JsExpression::Identifier(n) => {
                    compile_expression(x, out);
                    emit(out, Instruction::AssignNamedMember { object_name: n.clone(), member: m.clone() });
                },
                _ => {
                    compile_expression(target, out);
                    compile_expression(x, out);
                    emit(out, Instruction::AssignComputedMember(m.clone()));
                },
            }
        },
        JsExpression::IndexAssignment(target, index, x) => {
            compile_expression(index, out);
            compile_expression(x, out);
            match &**target {
                JsExpression::Identifier(n) => {
                    emit(out, Instruction::AssignNamedIndex(n.clone()));
                },
                _ => {
                    compile_expression(target, out);
                    emit(out, Instruction::AssignComputedIndex);
                },
            }
        },
        _ => {},
    }
    assert(instrs_model(out@) =~= start + compile_expr(*e, base));
    proof { lemma_instrs_model_len(out@); lemma_instrs_model_len(old(out)@); }
}

/// Compiles a list of expressions, appending their code in order.
pub fn compile_arguments(args: &Vec<JsExpression>, out: &mut Vec<Instruction>)
    ensures
        instrs_model(final(out)@) == instrs_model(old(out)@) + compile_args(args@, old(out)@.len() as int),
        final(out)@.len() == old(out)@.len() + compile_args(args@, old(out)@.len() as int).len(),
    decreases args, 1nat,
{
    let ghost start = instrs_model(out@);
    let ghost base = out@.len() as int;
    let mut i: usize = 0;
    while i < args.len()
        invariant
            i <= args@.len(),
            base == old(out)@.len(),
            start == instrs_model(old(out)@),
            instrs_model(out@) == start + compile_args(args@.take(i as int), base),
            out@.len() == base + compile_args(args@.take(i as int), base).len(),
        decreases args@.len() - i,
    {
        proof {
            assert(decreases_to!(*args => args[i as int]));
            assert(args@.take(i + 1).drop_last() =~= args@.take(i as int));
            assert(args@.take(i + 1).last() == args@[i as int]);
        }
        compile_expression(&args[i], out);
        i += 1;
    }
    assert(args@.take(args@.len() as int) =~= args@);
}

/// Compiles the values of an object literal, appending their code in order.
pub fn compile_property_values(props: &Vec<(String, JsExpression)>, out: &mut Vec<Instruction>)
    ensures
        instrs_model(final(out)@) == instrs_model(old(out)@) + compile_prop_values(props@, old(out)@.len() as int),
        final(out)@.len() == old(out)@.len() + compile_prop_values(props@, old(out)@.len() as int).len(),
    decreases props, 1nat,
{
    let ghost start = instrs_model(out@);
    let ghost base = out@.len() as int;
    let mut i: usize = 0;
    while i < props.len()
        invariant
            i <= props@.len(),
            base == old(out)@.len(),
            start == instrs_model(old(out)@),
            instrs_model(out@) == start + compile_prop_values(props@.take(i as int), base),
            out@.len() == base + compile_prop_values(props@.take(i as int), base).len(),
        decreases props@.len() - i,
    {
        proof {
            assert(decreases_to!(*props => props[i as int]));
            assert(decreases_to!(props[i as int] => props[i as int].1));
            assert(props@.take(i + 1).drop_last() =~= props@.take(i as int));
            assert(props@.take(i + 1).last() == props@[i as int]);
        }
        compile_expression(&props[i].1, out);
        i += 1;
    }
    assert(props@.take(props@.len() as int) =~= props@);
}

} // verus!

verus! {

/// Compiles a list of statements into a program of its own.
pub fn compile_program(stmts: &Vec<JsStatement>) -> (p: BytecodeProgram)
    ensures
        p@ == compile_block(stmts@, 0),
    decreases stmts, 1nat,
{
    let mut out: Vec<Instruction> = Vec::new();
    compile_statements(stmts, &mut out);
    assert(instrs_model(Seq::<Instruction>::empty()) =~= Seq::<InstrModel>::empty());
    assert(instrs_model(out@) =~= compile_block(stmts@, 0));
    BytecodeProgram { instructions: out }
}

/// Compiles a list of statements, appending their code in order.
pub fn compile_statements(stmts: &Vec<JsStatement>, out: &mut Vec<Instruction>)
    ensures
        instrs_model(final(out)@) == instrs_model(old(out)@) + compile_block(stmts@, old(out)@.len() as int),
        final(out)@.len() == old(out)@.len() + compile_block(stmts@, old(out)@.len() as int).len(),
    decreases stmts, 0nat,
{
    let ghost start = instrs_model(out@);
    let ghost base = out@.len() as int;
    let mut i: usize = 0;
    while i < stmts.len()
        invariant
            i <= stmts@.len(),
            base == old(out)@.len(),
            start == instrs_model(old(out)@),
            instrs_model(out@) == start + compile_block(stmts@.take(i as int), base),
            out@.len() == base + compile_block(stmts@.take(i as int), base).len(),
        decreases stmts@.len() - i,
    {
        proof {
            assert(decreases_to!(*stmts => stmts[i as int]));
            assert(stmts@.take(i + 1).drop_last() =~= stmts@.take(i as int));
            assert(stmts@.take(i + 1).last() == stmts@[i as int]);
        }
        compile_statement(&stmts[i], out);
        i += 1;
    }
    assert(stmts@.take(stmts@.len() as int) =~= stmts@);
}

fn compile_optional_block(b: &Option<Vec<JsStatement>>) -> (r: Option<BytecodeProgram>)
    ensures
        match *b {
            Some(stmts) => r matches Some(p) && p@ == compile_block(stmts@, 0),
            None => r is None,
        },
    decreases b, 1nat,
{
    match b {
        Some(stmts) => {
            proof { assert(decreases_to!(*b => b->Some_0)); }
            Some(compile_program(stmts))
        },
        None => None,
    }
}

/// Compiles an `if` statement, patching its forward jumps once their targets are known.
fn compile_if(s: &JsStatement, out: &mut Vec<Instruction>)
    requires
        *s is IfStatement,
    ensures
        instrs_model(final(out)@) == instrs_model(old(out)@) + compile_stmt(*s, old(out)@.len() as int),
    decreases s, 1nat,
{
    let ghost start = instrs_model(out@);
    let ghost base = out@.len() as int;
    proof { lemma_instrs_model_len(out@); }
    match s {
        JsStatement::IfStatement(c, body, else_body) => {
            proof {
                assert(decreases_to!(*s => s->IfStatement_1));
                assert(decreases_to!(*s => s->IfStatement_2));
            }
            compile_expression(c, out);
            let jf = out.len();
            emit(out, Instruction::JumpIfFalse(usize::MAX));
            compile_statements(body, out);
            match else_body {
                Some(eb) => {
                    let je = out.len();
                    emit(out, Instruction::Jump(usize::MAX));
                    let else_start = out.len();
                    patch(out, jf, Instruction::JumpIfFalse(else_start));
                    proof { assert(decreases_to!(s->IfStatement_2 => s->IfStatement_2->Some_0)); }
                    compile_statements(eb, out);
                    let end = out.len();
                    patch(out, je, Instruction::Jump(end));
                },
                None => {
                    let end = out.len();
                    patch(out, jf, Instruction::JumpIfFalse(end));
                },
            }
            assert(instrs_model(out@) =~= start + compile_stmt(*s, base));
        },
        _ => {},
    }
}

/// Compiles a `while` or `do ... while` loop.
fn compile_while(s: &JsStatement, out: &mut Vec<Instruction>)
    requires
        *s is WhileLoop || *s is DoWhileLoop,
    ensures
        instrs_model(final(out)@) == instrs_model(old(out)@) + compile_stmt(*s, old(out)@.len() as int),
    decreases s, 1nat,
{
    let ghost start = instrs_model(out@);
    let ghost base = out@.len() as int;
    proof { lemma_instrs_model_len(out@); }
    match s {
        JsStatement::WhileLoop(c, body) => {
            proof { assert(decreases_to!(*s => s->WhileLoop_1)); }
            let loop_start = out.len();
            compile_expression(c, out);
            let jf = out.len();
            emit(out, Instruction::JumpIfFalse(usize::MAX));
            compile_statements(body, out);
            emit(out, Instruction::Jump(loop_start));
            let end = out.len();
            patch(out, jf, Instruction::JumpIfFalse(end));
            assert(instrs_model(out@) =~= start + compile_stmt(*s, base));
        },
        JsStatement::DoWhileLoop(body, c) => {
            proof { assert(decreases_to!(*s => s->DoWhileLoop_0)); }
            let loop_start = out.len();
            compile_statements(body, out);
            compile_expression(c, out);
            let jf = out.len();
            emit(out, Instruction::JumpIfFalse(usize::MAX));
            emit(out, Instruction::Jump(loop_start));
            let end = out.len();
            patch(out, jf, Instruction::JumpIfFalse(end));
            assert(instrs_model(out@) =~= start + compile_stmt(*s, base));
        },
        _ => {},
    }
}

/// Compiles a `for` loop.
fn compile_for(s: &JsStatement, out: &mut Vec<Instruction>)
    requires
        *s is ForLoop,
    ensures
        instrs_model(final(out)@) == instrs_model(old(out)@) + compile_stmt(*s, old(out)@.len() as int),
    decreases s, 1nat,
{
    let ghost start = instrs_model(out@);
    let ghost base = out@.len() as int;
    proof { lemma_instrs_model_len(out@); }
    match s {
        JsStatement::ForLoop { init, condition, increment, body } => {
            proof {
                assert(decreases_to!(*s => s->body));
            }
            match init {
                Some(st) => {
                    proof {
                        assert(decreases_to!(*s => s->init));
                        assert(decreases_to!(s->init => s->init->Some_0));
                    }
                    compile_statement(st, out);
                },
                None => {},
            }
            let loop_start = out.len();
            match condition {
                Some(c) => {
                    compile_expression(c, out);
                },
                None => {
                    emit(out, Instruction::PushLiteral(JsValue::Boolean(true)));
                },
            }
            let jf = out.len();
            emit(out, Instruction::JumpIfFalse(usize::MAX));
            compile_statements(body, out);
            match increment {
                Some(st) => {
                    proof {
                        assert(decreases_to!(*s => s->increment));
                        assert(decreases_to!(s->increment => s->increment->Some_0));
                    }
                    compile_statement(st, out);
                },
                None => {},
            }
            emit(out, Instruction::Jump(loop_start));
            let end = out.len();
            patch(out, jf, Instruction::JumpIfFalse(end));
            assert(instrs_model(out@) =~= start + compile_stmt(*s, base));
        },
        _ => {},
    }
}

/// Compiles a `try` statement: its blocks become programs of their own.
fn compile_try(s: &JsStatement, out: &mut Vec<Instruction>)
    requires
        *s is TryCatchFinally,
    ensures
        instrs_model(final(out)@) == instrs_model(old(out)@) + compile_stmt(*s, old(out)@.len() as int),
    decreases s, 1nat,
{
    let ghost start = instrs_model(out@);
    let ghost base = out@.len() as int;
    match s {
        JsStatement::TryCatchFinally { try_block, catch_param, catch_block, finally_block } => {
            proof {
                assert(decreases_to!(*s => s->try_block));
                assert(decreases_to!(*s => s->catch_block));
                assert(decreases_to!(*s => s->finally_block));
            }
            let try_program = compile_program(try_block);
            let catch_program = compile_optional_block(catch_block);
            let finally_program = compile_optional_block(finally_block);
            let catch_param = match catch_param {
                Some(p) => Some(p.clone()),
                None => None,
            };
            emit(out, Instruction::TryCatchFinally { try_program, catch_param, catch_program, finally_program });
            emit(out, Instruction::SetLast);
            emit(out, Instruction::Pop);
            assert(instrs_model(out@) =~= start + compile_stmt(*s, base));
        },
        _ => {},
    }
}

/// Compiles a statement, appending its code.
pub fn compile_statement(s: &JsStatement, out: &mut Vec<Instruction>)
    ensures
        instrs_model(final(out)@) == instrs_model(old(out)@) + compile_stmt(*s, old(out)@.len() as int),
        final(out)@.len() == old(out)@.len() + compile_stmt(*s, old(out)@.len() as int).len(),
    decreases s, 2nat,
{
    let ghost start = instrs_model(out@);
    let ghost base = out@.len() as int;
    proof { lemma_instrs_model_len(out@); }
    match s {
        JsStatement::Expression(e) => {
            compile_expression(e, out);
            emit(out, Instruction::SetLast);
            emit(out, Instruction::Pop);
            assert(instrs_model(out@) =~= start + compile_stmt(*s, base));
        },
        JsStatement::Assignment(n, e) => {
            compile_expression(e, out);
            emit(out, Instruction::Dup);
            emit(out, Instruction::StoreIdentifier(n.clone()));
            emit(out, Instruction::SetLast);
            emit(out, Instruction::Pop);
            assert(instrs_model(out@) =~= start + compile_stmt(*s, base));
        },
        JsStatement::Declaration { kind, name, expr } => {
            compile_expression(expr, out);
            emit(out, Instruction::Dup);
            emit(out, Instruction::Declare { kind: *kind, name: name.clone() });
            emit(out, Instruction::SetLast);
            emit(out, Instruction::Pop);
            assert(instrs_model(out@) =~= start + compile_stmt(*s, base));
        },
        JsStatement::MemberAssignment(target, m, e) => {
            match target {
                JsExpression::This => {
                    compile_expression(e, out);
                    emit(out, Instruction::AssignThisMember(m.clone()));
                },
                JsExpression::Identifier(n) => {
                    compile_expression(e, out);
                    emit(out, Instruction::AssignNamedMember { object_name: n.clone(), member: m.clone() });
                },
                _ => {
                    compile_expression(target, out);
                    compile_expression(e, out);
                    emit(out, Instruction::AssignComputedMember(m.clone()));
                },
            }
            emit(out, Instruction::SetLast);
            emit(out, Instruction::Pop);
            assert(instrs_model(out@) =~= start + compile_stmt(*s, base));
        },
        JsStatement::IndexAssignment(target, index, e) => {
            compile_expression(index, out);
            compile_expression(e, out);
            match target {
                JsExpression::Identifier(n) => {
                    emit(out, Instruction::AssignNamedIndex(n.clone()));
                },
                _ => {
                    compile_expression(target, out);
                    emit(out, Instruction::AssignComputedIndex);
                },
            }
            emit(out, Instruction::SetLast);
            emit(out, Instruction::Pop);
            assert(instrs_model(out@) =~= start + compile_stmt(*s, base));
        },
        JsStatement::Return(opt) => {
            match opt {
                Some(e) => {
                    compile_expression(e, out);
                },
                None => {
                    emit(out, Instruction::PushUndefined);
                },
            }
            emit(out, Instruction::Return);
            assert(instrs_model(out@) =~= start + compile_stmt(*s, base));
        },
        JsStatement::Throw(e) => {
            compile_expression(e, out);
            emit(out, Instruction::Throw);
            assert(instrs_model(out@) =~= start + compile_stmt(*s, base));
        },
        JsStatement::IfStatement(..) => {
            compile_if(s, out);
        },
        JsStatement::WhileLoop(..) => {
            compile_while(s, out);
        },
        JsStatement::DoWhileLoop(..) => {
            compile_while(s, out);
        },
        JsStatement::ForLoop { .. } => {
            compile_for(s, out);
        },
        JsStatement::TryCatchFinally { .. } => {
            compile_try(s, out);
        },
    }
    proof {
        lemma_instrs_model_len(out@);
        lemma_instrs_model_len(old(out)@);
    }
}

} // verus!
