//! Emission: from the intermediate form to the statements and expressions
//! that the runtime compiles.
//!
//! `emits_stmt` and `emits_expr` say when a runtime statement or expression
//! is the emitted form of a lowered one: the same construct with the same
//! names and operator texts, parts emitted in turn. A function literal
//! becomes a compiled function whose code is that of its emitted body;
//! array and object literals keep their parts as expressions.
use vstd::prelude::*;
use crate::ast::{JsStatement, JsExpression};
use crate::value::{JsValue, JsFunction, JsDeclarationKind, FunctionModel, strings_model};
use crate::compile::compile_block;
use crate::ir::{
    IrExpression, IrStatement, IrValue, IrFunction, IrDeclarationKind, IrExprModel, IrValueModel, IrFnModel,
    IrStmtModel, ir_expr_model, ir_exprs_model, ir_props_model, ir_value_model, ir_fn_model, ir_stmt_model,
    ir_stmts_model, ir_opt_stmts_model, lemma_ir_exprs_model_push, lemma_ir_props_model_push,
    lemma_ir_stmts_model_push,
};
use crate::syntax::{clone_names, names_model};

verus! {

/// The runtime's declaration kind for a lowered one.
pub open spec fn decl_kind(k: IrDeclarationKind) -> JsDeclarationKind {
    match k {
        IrDeclarationKind::Let => JsDeclarationKind::Let,
        IrDeclarationKind::Const => JsDeclarationKind::Const,
    }
}

/// `a` is the emitted form of the lowered expression `m`.
pub open spec fn emits_expr(m: IrExprModel, a: JsExpression) -> bool
    decreases m, 0nat,
{
    match m {
        IrExprModel::Literal(v) => emits_literal(v, a),
        IrExprModel::Identifier(n) => a matches JsExpression::Identifier(x) && x@ == n,
        IrExprModel::This => a is This,
        IrExprModel::BinaryOp(l, op, r) => a matches JsExpression::BinaryOp(al, aop, ar)
            && emits_expr(*l, *al) && aop@ == op && emits_expr(*r, *ar),
        IrExprModel::UnaryOp(op, x) => a matches JsExpression::UnaryOp(aop, ax) && aop@ == op && emits_expr(*x, *ax),
        IrExprModel::LogicalOp(l, op, r) => a matches JsExpression::LogicalOp(al, aop, ar)
            && emits_expr(*l, *al) && aop@ == op && emits_expr(*r, *ar),
        IrExprModel::Call(n, args) => a matches JsExpression::Call(an, aargs) && an@ == n && emits_exprs(args, aargs@),
        IrExprModel::MemberAccess(o, p) => a matches JsExpression::MemberAccess(ao, ap) && emits_expr(*o, *ao) && ap@ == p,
        IrExprModel::IndexAccess(o, i) => a matches JsExpression::IndexAccess(ao, ai) && emits_expr(*o, *ao) && emits_expr(*i, *ai),
        IrExprModel::MethodCall(o, p, args) => a matches JsExpression::MethodCall { object, method, args: aargs }
            && emits_expr(*o, *object) && method@ == p && emits_exprs(args, aargs@),
        IrExprModel::Assignment(n, x) => a matches JsExpression::Assignment(an, ax) && an@ == n && emits_expr(*x, *ax),
        IrExprModel::MemberAssignment(o, p, x) => a matches JsExpression::MemberAssignment(ao, ap, ax)
            && emits_expr(*o, *ao) && ap@ == p && emits_expr(*x, *ax),
        IrExprModel::IndexAssignment(o, i, x) => a matches JsExpression::IndexAssignment(ao, ai, ax)
            && emits_expr(*o, *ao) && emits_expr(*i, *ai) && emits_expr(*x, *ax),
    }
}

/// `a` is the emitted form of the lowered literal `v`.
pub open spec fn emits_literal(v: IrValueModel, a: JsExpression) -> bool
    decreases v, 0nat,
{
    match v {
        IrValueModel::Number(n) => a == JsExpression::Literal(JsValue::Number(n)),
        IrValueModel::String(s) => a matches JsExpression::Literal(JsValue::String(x)) && x@ == s,
        IrValueModel::Boolean(b) => a == JsExpression::Literal(JsValue::Boolean(b)),
        IrValueModel::Null => a == JsExpression::Literal(JsValue::Null),
        IrValueModel::Undefined => a == JsExpression::Literal(JsValue::Undefined),
        IrValueModel::Object(props) => a matches JsExpression::ObjectLiteral(ps) && emits_props(props, ps@),
        IrValueModel::Array(items) => a matches JsExpression::ArrayLiteral(xs) && emits_exprs(items, xs@),
        IrValueModel::Function(f) => a matches JsExpression::Literal(JsValue::Function(g)) && emits_function(f, g),
    }
}

/// `g` is the compiled form of the lowered function `f`: its parameters, and
/// the code of an emitted form of its body. The name is not kept.
pub open spec fn emits_function(f: IrFnModel, g: JsFunction) -> bool
    decreases f, 0nat,
{
    exists|b: Seq<JsStatement>|
        emits_stmts(f.body, b) && g@ == (FunctionModel { parameters: f.parameters, code: #[trigger] compile_block(b, 0) })
}

pub open spec fn emits_exprs(ms: Seq<IrExprModel>, xs: Seq<JsExpression>) -> bool
    decreases ms, 1nat,
{
    if ms.len() == 0 {
        xs.len() == 0
    } else {
        xs.len() == ms.len() && emits_exprs(ms.drop_last(), xs.drop_last()) && emits_expr(ms.last(), xs.last())
    }
}

pub open spec fn emits_props(ms: Seq<(Seq<char>, IrExprModel)>, xs: Seq<(String, JsExpression)>) -> bool
    decreases ms, 1nat,
{
    if ms.len() == 0 {
        xs.len() == 0
    } else {
        proof { assert(decreases_to!(ms => ms.last())); }
        xs.len() == ms.len() && emits_props(ms.drop_last(), xs.drop_last()) && xs.last().0@ == ms.last().0
            && emits_expr(ms.last().1, xs.last().1)
    }
}

/// `a` is the emitted form of the lowered statement `m`.
pub open spec fn emits_stmt(m: IrStmtModel, a: JsStatement) -> bool
    decreases m, 0nat,
{
    match m {
        IrStmtModel::Expression(x) => a matches JsStatement::Expression(ax) && emits_expr(x, ax),
        IrStmtModel::Assignment(n, x) => a matches JsStatement::Assignment(an, ax) && an@ == n && emits_expr(x, ax),
        IrStmtModel::Declaration(k, n, x) => a matches JsStatement::Declaration { kind, name, expr }
            && kind == decl_kind(k) && name@ == n && emits_expr(x, expr),
        IrStmtModel::MemberAssignment(o, p, v) => a matches JsStatement::MemberAssignment(ao, ap, av)
            && emits_expr(o, ao) && ap@ == p && emits_expr(v, av),
        IrStmtModel::IndexAssignment(o, i, v) => a matches JsStatement::IndexAssignment(ao, ai, av)
            && emits_expr(o, ao) && emits_expr(i, ai) && emits_expr(v, av),
        IrStmtModel::Return(o) => a matches JsStatement::Return(ao) && emits_opt_expr(o, ao),
        IrStmtModel::IfStatement(c, b, e) => a matches JsStatement::IfStatement(ac, ab, ae)
            && emits_expr(c, ac) && emits_stmts(b, ab@) && emits_opt_stmts(e, ae),
        IrStmtModel::WhileLoop(c, b) => a matches JsStatement::WhileLoop(ac, ab) && emits_expr(c, ac) && emits_stmts(b, ab@),
        IrStmtModel::DoWhileLoop(b, c) => a matches JsStatement::DoWhileLoop(ab, ac) && emits_stmts(b, ab@) && emits_expr(c, ac),
        IrStmtModel::ForLoop(init, cond, incr, body) => a matches JsStatement::ForLoop { init: ai, condition: ac, increment: an, body: ab }
            && emits_opt_stmt(init, ai) && emits_opt_expr(cond, ac) && emits_opt_stmt(incr, an) && emits_stmts(body, ab@),
        IrStmtModel::TryCatchFinally(t, p, c, f) => a matches JsStatement::TryCatchFinally { try_block, catch_param, catch_block, finally_block }
            && emits_stmts(t, try_block@) && (match catch_param {
                Some(x) => p == Some(x@),
                None => p is None,
            }) && emits_opt_stmts(c, catch_block) && emits_opt_stmts(f, finally_block),
        IrStmtModel::Throw(x) => a matches JsStatement::Throw(ax) && emits_expr(x, ax),
    }
}

pub open spec fn emits_opt_expr(m: Option<IrExprModel>, a: Option<JsExpression>) -> bool
    decreases m, 0nat,
{
    match m {
        Some(x) => a matches Some(y) && emits_expr(x, y),
        None => a is None,
    }
}

pub open spec fn emits_opt_stmt(m: Option<Box<IrStmtModel>>, a: Option<Box<JsStatement>>) -> bool
    decreases m, 0nat,
{
    match m {
        Some(x) => a matches Some(y) && emits_stmt(*x, *y),
        None => a is None,
    }
}

pub open spec fn emits_opt_stmts(m: Option<Seq<IrStmtModel>>, a: Option<Vec<JsStatement>>) -> bool
    decreases m, 0nat,
{
    match m {
        Some(x) => a matches Some(y) && emits_stmts(x, y@),
        None => a is None,
    }
}

pub open spec fn emits_stmts(ms: Seq<IrStmtModel>, xs: Seq<JsStatement>) -> bool
    decreases ms, 1nat,
{
    if ms.len() == 0 {
        xs.len() == 0
    } else {
        xs.len() == ms.len() && emits_stmts(ms.drop_last(), xs.drop_last()) && emits_stmt(ms.last(), xs.last())
    }
}

proof fn lemma_emits_function_intro(f: IrFnModel, g: JsFunction, b: Seq<JsStatement>)
    requires
        emits_stmts(f.body, b),
        g@ == (FunctionModel { parameters: f.parameters, code: compile_block(b, 0) }),
    ensures
        emits_function(f, g),
{
}

pub proof fn lemma_emits_exprs_push(ms: Seq<IrExprModel>, xs: Seq<JsExpression>, m: IrExprModel, x: JsExpression)
    requires
        emits_exprs(ms, xs),
        emits_expr(m, x),
    ensures
        emits_exprs(ms.push(m), xs.push(x)),
{
    assert(ms.push(m).drop_last() =~= ms);
    assert(xs.push(x).drop_last() =~= xs);
    if ms.len() == 0 {
        assert(xs.len() == 0);
    }
}

pub proof fn lemma_emits_props_push(ms: Seq<(Seq<char>, IrExprModel)>, xs: Seq<(String, JsExpression)>, m: (Seq<char>, IrExprModel), x: (String, JsExpression))
    requires
        emits_props(ms, xs),
        x.0@ == m.0,
        emits_expr(m.1, x.1),
    ensures
        emits_props(ms.push(m), xs.push(x)),
{
    assert(ms.push(m).drop_last() =~= ms);
    assert(xs.push(x).drop_last() =~= xs);
    if ms.len() == 0 {
        assert(xs.len() == 0);
    }
}

pub proof fn lemma_emits_stmts_push(ms: Seq<IrStmtModel>, xs: Seq<JsStatement>, m: IrStmtModel, x: JsStatement)
    requires
        emits_stmts(ms, xs),
        emits_stmt(m, x),
    ensures
        emits_stmts(ms.push(m), xs.push(x)),
{
    assert(ms.push(m).drop_last() =~= ms);
    assert(xs.push(x).drop_last() =~= xs);
    if ms.len() == 0 {
        assert(xs.len() == 0);
    }
}

// ---------------------------------------------------------------------------
// The executable emitter
// ---------------------------------------------------------------------------

fn runtime_kind(k: IrDeclarationKind) -> (r: JsDeclarationKind)
    ensures
        r == decl_kind(k),
{
    match k {
        IrDeclarationKind::Let => JsDeclarationKind::Let,
        IrDeclarationKind::Const => JsDeclarationKind::Const,
    }
}

/// Emits an expression; see `emits_expr`.
#[verifier::spinoff_prover]
pub fn emit_ir_expression_to_runtime(e: &IrExpression) -> (a: JsExpression)
    ensures
        emits_expr(ir_expr_model(*e), a),
    decreases e, 0nat,
{
    match e {
        IrExpression::Literal(v) => {
            let a = emit_literal(v);
            assert(ir_expr_model(*e) == IrExprModel::Literal(ir_value_model(*v)));
            a
        },
        IrExpression::Identifier(n) => JsExpression::Identifier(n.clone()),
        IrExpression::This => JsExpression::This,
        IrExpression::BinaryOp(l, op, r) => {
            let a = emit_ir_expression_to_runtime(l);
            let b = emit_ir_expression_to_runtime(r);
            JsExpression::BinaryOp(Box::new(a), op.clone(), Box::new(b))
        },
        IrExpression::UnaryOp(op, x) => {
            let a = emit_ir_expression_to_runtime(x);
            JsExpression::UnaryOp(op.clone(), Box::new(a))
        },
        IrExpression::LogicalOp(l, op, r) => {
            let a = emit_ir_expression_to_runtime(l);
            let b = emit_ir_expression_to_runtime(r);
            JsExpression::LogicalOp(Box::new(a), op.clone(), Box::new(b))
        },
        IrExpression::Call(n, args) => JsExpression::Call(n.clone(), emit_expressions(args)),
        IrExpression::MemberAccess(o, m) => JsExpression::MemberAccess(Box::new(emit_ir_expression_to_runtime(o)), m.clone()),
        IrExpression::IndexAccess(o, i) => {
            let a = emit_ir_expression_to_runtime(o);
            let b = emit_ir_expression_to_runtime(i);
            JsExpression::IndexAccess(Box::new(a), Box::new(b))
        },
        IrExpression::MethodCall { object, method, args } => {
            let a = emit_ir_expression_to_runtime(object);
            JsExpression::MethodCall { object: Box::new(a), method: method.clone(), args: emit_expressions(args) }
        },
        IrExpression::Assignment(n, x) => JsExpression::Assignment(n.clone(), Box::new(emit_ir_expression_to_runtime(x))),
        IrExpression::MemberAssignment(o, m, x) => {
            let a = emit_ir_expression_to_runtime(o);
            let b = emit_ir_expression_to_runtime(x);
            JsExpression::MemberAssignment(Box::new(a), m.clone(), Box::new(b))
        },
        IrExpression::IndexAssignment(o, i, x) => {
            let a = emit_ir_expression_to_runtime(o);
            let b = emit_ir_expression_to_runtime(i);
            let c = emit_ir_expression_to_runtime(x);
            JsExpression::IndexAssignment(Box::new(a), Box::new(b), Box::new(c))
        },
    }
}

#[verifier::spinoff_prover]
fn emit_literal(v: &IrValue) -> (a: JsExpression)
    ensures
        emits_literal(ir_value_model(*v), a),
    decreases v, 0nat,
{
    match v {
        IrValue::Number(n) => JsExpression::Literal(JsValue::Number(*n)),
        IrValue::String(s) => JsExpression::Literal(JsValue::String(s.clone())),
        IrValue::Boolean(b) => JsExpression::Literal(JsValue::Boolean(*b)),
        IrValue::Null => JsExpression::Literal(JsValue::Null),
        IrValue::Undefined => JsExpression::Literal(JsValue::Undefined),
        IrValue::Object(props) => JsExpression::ObjectLiteral(emit_properties(props)),
        IrValue::Array(items) => JsExpression::ArrayLiteral(emit_expressions(items)),
        IrValue::Function(f) => JsExpression::Literal(JsValue::Function(emit_function(f))),
    }
}

#[verifier::spinoff_prover]
fn emit_function(f: &IrFunction) -> (g: JsFunction)
    ensures
        emits_function(ir_fn_model(*f), g),
    decreases f, 0nat,
{
    proof { assert(decreases_to!(*f => f.body)); }
    let body = emit_statements(&f.body);
    let ghost b = body@;
    let parameters = clone_names(&f.parameters);
    proof {
        assert(strings_model(parameters@) =~= names_model(parameters@));
        assert(strings_model(f.parameters@) =~= names_model(f.parameters@));
    }
    let ghost ps = parameters@;
    let g = JsFunction::new(parameters, body, f.name.clone());
    proof {
        assert(strings_model(ps) == strings_model(f.parameters@));
        assert(ir_fn_model(*f).parameters == strings_model(f.parameters@));
        assert(ir_fn_model(*f).body == ir_stmts_model(f.body@));
        assert(emits_stmts(ir_fn_model(*f).body, b));
        assert(g@ == (FunctionModel { parameters: ir_fn_model(*f).parameters, code: compile_block(b, 0) }));
        lemma_emits_function_intro(ir_fn_model(*f), g, b);
    }
    g
}

#[verifier::spinoff_prover]
fn emit_expressions(s: &Vec<IrExpression>) -> (r: Vec<JsExpression>)
    ensures
        emits_exprs(ir_exprs_model(s@), r@),
    decreases s, 1nat,
{
    let mut out: Vec<JsExpression> = Vec::new();
    let mut i: usize = 0;
    assert(ir_exprs_model(s@.take(0)) =~= Seq::<IrExprModel>::empty());
    while i < s.len()
        invariant
            i <= s@.len(),
            emits_exprs(ir_exprs_model(s@.take(i as int)), out@),
        decreases s@.len() - i,
    {
        proof {
            assert(decreases_to!(*s => s[i as int]));
            lemma_ir_exprs_model_push(s@.take(i as int), s@[i as int]);
            assert(s@.take(i + 1) =~= s@.take(i as int).push(s@[i as int]));
        }
        let x = emit_ir_expression_to_runtime(&s[i]);
        proof { lemma_emits_exprs_push(ir_exprs_model(s@.take(i as int)), out@, ir_expr_model(s@[i as int]), x); }
        out.push(x);
        i += 1;
    }
    assert(s@.take(s@.len() as int) =~= s@);
    out
}

#[verifier::spinoff_prover]
fn emit_properties(s: &Vec<(String, IrExpression)>) -> (r: Vec<(String, JsExpression)>)
    ensures
        emits_props(ir_props_model(s@), r@),
    decreases s, 1nat,
{
    let mut out: Vec<(String, JsExpression)> = Vec::new();
    let mut i: usize = 0;
    assert(ir_props_model(s@.take(0)) =~= Seq::<(Seq<char>, IrExprModel)>::empty());
    while i < s.len()
        invariant
            i <= s@.len(),
            emits_props(ir_props_model(s@.take(i as int)), out@),
        decreases s@.len() - i,
    {
        proof {
            assert(decreases_to!(*s => s[i as int]));
            assert(decreases_to!(s[i as int] => s[i as int].1));
            lemma_ir_props_model_push(s@.take(i as int), s@[i as int]);
            assert(s@.take(i + 1) =~= s@.take(i as int).push(s@[i as int]));
        }
        let x = (s[i].0.clone(), emit_ir_expression_to_runtime(&s[i].1));
        proof {
            lemma_emits_props_push(ir_props_model(s@.take(i as int)), out@, (s@[i as int].0@, ir_expr_model(s@[i as int].1)), x);
        }
        out.push(x);
        i += 1;
    }
    assert(s@.take(s@.len() as int) =~= s@);
    out
}

#[verifier::spinoff_prover]
fn emit_statements(s: &Vec<IrStatement>) -> (r: Vec<JsStatement>)
    ensures
        emits_stmts(ir_stmts_model(s@), r@),
    decreases s, 1nat,
{
    let mut out: Vec<JsStatement> = Vec::new();
    let mut i: usize = 0;
    assert(ir_stmts_model(s@.take(0)) =~= Seq::<IrStmtModel>::empty());
    while i < s.len()
        invariant
            i <= s@.len(),
            emits_stmts(ir_stmts_model(s@.take(i as int)), out@),
        decreases s@.len() - i,
    {
        proof {
            assert(decreases_to!(*s => s[i as int]));
            lemma_ir_stmts_model_push(s@.take(i as int), s@[i as int]);
            assert(s@.take(i + 1) =~= s@.take(i as int).push(s@[i as int]));
        }
        let x = emit_ir_statement_to_runtime(&s[i]);
        proof { lemma_emits_stmts_push(ir_stmts_model(s@.take(i as int)), out@, ir_stmt_model(s@[i as int]), x); }
        out.push(x);
        i += 1;
    }
    assert(s@.take(s@.len() as int) =~= s@);
    out
}

#[verifier::spinoff_prover]
fn emit_opt_statements(o: &Option<Vec<IrStatement>>) -> (r: Option<Vec<JsStatement>>)
    ensures
        emits_opt_stmts(ir_opt_stmts_model(*o), r),
    decreases o, 1nat,
{
    match o {
        Some(v) => {
            let r = emit_statements(v);
            assert(ir_opt_stmts_model(*o) == Some(ir_stmts_model(v@)));
            Some(r)
        },
        None => None,
    }
}

/// Emits a statement; see `emits_stmt`.
#[verifier::spinoff_prover]
pub fn emit_ir_statement_to_runtime(st: &IrStatement) -> (a: JsStatement)
    ensures
        emits_stmt(ir_stmt_model(*st), a),
    decreases st, 0nat,
{
    match st {
        IrStatement::Expression(x) => JsStatement::Expression(emit_ir_expression_to_runtime(x)),
        IrStatement::Assignment(n, x) => JsStatement::Assignment(n.clone(), emit_ir_expression_to_runtime(x)),
        IrStatement::Declaration { kind, name, expr } => JsStatement::Declaration {
            kind: runtime_kind(*kind),
            name: name.clone(),
            expr: emit_ir_expression_to_runtime(expr),
        },
        IrStatement::MemberAssignment(o, m, v) => {
            let a = emit_ir_expression_to_runtime(o);
            let b = emit_ir_expression_to_runtime(v);
            JsStatement::MemberAssignment(a, m.clone(), b)
        },
        IrStatement::IndexAssignment(o, i, v) => {
            let a = emit_ir_expression_to_runtime(o);
            let b = emit_ir_expression_to_runtime(i);
            let c = emit_ir_expression_to_runtime(v);
            JsStatement::IndexAssignment(a, b, c)
        },
        IrStatement::Return(o) => match o {
            Some(x) => JsStatement::Return(Some(emit_ir_expression_to_runtime(x))),
            None => JsStatement::Return(None),
        },
        IrStatement::IfStatement(c, b, e) => {
            let ac = emit_ir_expression_to_runtime(c);
            let ab = emit_statements(b);
            let ae = emit_opt_statements(e);
            JsStatement::IfStatement(ac, ab, ae)
        },
        IrStatement::WhileLoop(c, b) => {
            let ac = emit_ir_expression_to_runtime(c);
            let ab = emit_statements(b);
            JsStatement::WhileLoop(ac, ab)
        },
        IrStatement::DoWhileLoop(b, c) => {
            let ab = emit_statements(b);
            let ac = emit_ir_expression_to_runtime(c);
            JsStatement::DoWhileLoop(ab, ac)
        },
        IrStatement::ForLoop { init, condition, increment, body } => {
            let ai = match init {
                Some(x) => Some(Box::new(emit_ir_statement_to_runtime(x))),
                None => None,
            };
            let ac = match condition {
                Some(x) => Some(emit_ir_expression_to_runtime(x)),
                None => None,
            };
            let an = match increment {
                Some(x) => Some(Box::new(emit_ir_statement_to_runtime(x))),
                None => None,
            };
            let ab = emit_statements(body);
            JsStatement::ForLoop { init: ai, condition: ac, increment: an, body: ab }
        },
        IrStatement::TryCatchFinally { try_block, catch_param, catch_block, finally_block } => {
            let t = emit_statements(try_block);
            let p = match catch_param {
                Some(n) => Some(n.clone()),
                None => None,
            };
            let c = emit_opt_statements(catch_block);
            let f = emit_opt_statements(finally_block);
            JsStatement::TryCatchFinally { try_block: t, catch_param: p, catch_block: c, finally_block: f }
        },
        IrStatement::Throw(x) => JsStatement::Throw(emit_ir_expression_to_runtime(x)),
    }
}

} // verus!
