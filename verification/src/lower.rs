//! Lowering: from the syntax tree to the intermediate form.
//!
//! Operators become their source text, array and object literals become
//! literal values that keep the expressions of their parts, a function
//! declaration becomes a `let` of a function literal, and an assignment that
//! stands as a statement (or as the increment of a `for` loop) becomes an
//! assignment statement; one inside a larger expression stays an expression.
use vstd::prelude::*;
use crate::syntax::{
    JsExpression, JsStatement, JsLiteral, JsBinaryOp, JsUnaryOp, JsLogicalOp, JsFunctionDecl, JsProperty, JsBlock,
    ExprModel, LitModel, FnModel, StmtModel, expr_model, exprs_model, properties_model, lit_model, fn_model,
    stmt_model, stmts_model, names_model, opt_block_model, lemma_exprs_model_push, lemma_properties_model_push,
    lemma_stmts_model_push, clone_names,
};
use crate::ir::{
    IrExpression, IrStatement, IrValue, IrFunction, IrDeclarationKind, IrExprModel, IrValueModel, IrFnModel,
    IrStmtModel, ir_expr_model, ir_exprs_model, ir_props_model, ir_value_model, ir_fn_model, ir_stmt_model,
    ir_stmts_model, ir_opt_stmts_model, lemma_ir_exprs_model_push, lemma_ir_props_model_push,
    lemma_ir_stmts_model_push,
};
use crate::value::strings_model;
use crate::text::text;

verus! {

// ---------------------------------------------------------------------------
// Operators
// ---------------------------------------------------------------------------

/// The source text of a binary operator.
pub open spec fn binary_op_text(op: JsBinaryOp) -> Seq<char> {
    match op {
        JsBinaryOp::Add => seq!['+'],
        JsBinaryOp::Subtract => seq!['-'],
        JsBinaryOp::Multiply => seq!['*'],
        JsBinaryOp::Divide => seq!['/'],
        JsBinaryOp::Remainder => seq!['%'],
        JsBinaryOp::Equal => seq!['=', '='],
        JsBinaryOp::NotEqual => seq!['!', '='],
        JsBinaryOp::StrictEqual => seq!['=', '=', '='],
        JsBinaryOp::StrictNotEqual => seq!['!', '=', '='],
        JsBinaryOp::LessThan => seq!['<'],
        JsBinaryOp::GreaterThan => seq!['>'],
        JsBinaryOp::LessThanOrEqual => seq!['<', '='],
        JsBinaryOp::GreaterThanOrEqual => seq!['>', '='],
    }
}

/// The source text of a unary operator.
pub open spec fn unary_op_text(op: JsUnaryOp) -> Seq<char> {
    match op {
        JsUnaryOp::Negate => seq!['-'],
        JsUnaryOp::Not => seq!['!'],
    }
}

/// The source text of a logical operator.
pub open spec fn logical_op_text(op: JsLogicalOp) -> Seq<char> {
    match op {
        JsLogicalOp::And => seq!['&', '&'],
        JsLogicalOp::Or => seq!['|', '|'],
    }
}

// ---------------------------------------------------------------------------
// The lowering, as a definition
// ---------------------------------------------------------------------------

/// The lowered form of an expression.
pub open spec fn lower_expr(e: ExprModel) -> IrExprModel
    decreases e, 0nat,
{
    match e {
        ExprModel::Literal(l) => IrExprModel::Literal(lower_literal(l)),
        ExprModel::Identifier(n) => IrExprModel::Identifier(n),
        ExprModel::This => IrExprModel::This,
        ExprModel::BinaryOp(l, op, r) => IrExprModel::BinaryOp(Box::new(lower_expr(*l)), binary_op_text(op), Box::new(lower_expr(*r))),
        ExprModel::UnaryOp(op, x) => IrExprModel::UnaryOp(unary_op_text(op), Box::new(lower_expr(*x))),
        ExprModel::LogicalOp(l, op, r) => IrExprModel::LogicalOp(Box::new(lower_expr(*l)), logical_op_text(op), Box::new(lower_expr(*r))),
        ExprModel::Assignment(n, v) => IrExprModel::Assignment(n, Box::new(lower_expr(*v))),
        ExprModel::MemberAssignment(o, m, v) => IrExprModel::MemberAssignment(Box::new(lower_expr(*o)), m, Box::new(lower_expr(*v))),
        ExprModel::IndexAssignment(o, i, v) => IrExprModel::IndexAssignment(
            Box::new(lower_expr(*o)),
            Box::new(lower_expr(*i)),
            Box::new(lower_expr(*v)),
        ),
        ExprModel::Call(n, args) => IrExprModel::Call(n, lower_exprs(args)),
        ExprModel::Array(items) => IrExprModel::Literal(IrValueModel::Array(lower_exprs(items))),
        ExprModel::Object(props) => IrExprModel::Literal(IrValueModel::Object(lower_props(props))),
        ExprModel::MemberAccess(o, m) => IrExprModel::MemberAccess(Box::new(lower_expr(*o)), m),
        ExprModel::IndexAccess(o, i) => IrExprModel::IndexAccess(Box::new(lower_expr(*o)), Box::new(lower_expr(*i))),
        ExprModel::MethodCall(o, m, args) => IrExprModel::MethodCall(Box::new(lower_expr(*o)), m, lower_exprs(args)),
    }
}

/// The lowered forms of expressions, in order.
pub open spec fn lower_exprs(s: Seq<ExprModel>) -> Seq<IrExprModel>
    decreases s, 1nat,
{
    if s.len() == 0 {
        Seq::empty()
    } else {
        lower_exprs(s.drop_last()).push(lower_expr(s.last()))
    }
}

/// The lowered properties of an object literal, in order.
pub open spec fn lower_props(s: Seq<(Seq<char>, ExprModel)>) -> Seq<(Seq<char>, IrExprModel)>
    decreases s, 1nat,
{
    if s.len() == 0 {
        Seq::empty()
    } else {
        proof { assert(decreases_to!(s => s.last())); }
        lower_props(s.drop_last()).push((s.last().0, lower_expr(s.last().1)))
    }
}

/// The lowered form of a literal; a function literal without a name is
/// named `anonymous`.
pub open spec fn lower_literal(l: LitModel) -> IrValueModel
    decreases l, 0nat,
{
    match l {
        LitModel::Number(n) => IrValueModel::Number(n),
        LitModel::String(s) => IrValueModel::String(s),
        LitModel::Boolean(b) => IrValueModel::Boolean(b),
        LitModel::Null => IrValueModel::Null,
        LitModel::Undefined => IrValueModel::Undefined,
        LitModel::Function(f) => IrValueModel::Function(lower_function(
            f,
            match f.name {
                Some(n) => n,
                None => "anonymous"@,
            },
        )),
    }
}

/// A function lowered under the given name.
pub open spec fn lower_function(f: FnModel, name: Seq<char>) -> IrFnModel
    decreases f, 0nat,
{
    IrFnModel { parameters: f.params, body: lower_stmts(f.body), name }
}

/// An expression that stands as a statement, or as the increment of a `for`
/// loop: an assignment becomes an assignment statement.
pub open spec fn lower_expression_statement(x: ExprModel) -> IrStmtModel
    decreases x, 1nat,
{
    match x {
        ExprModel::Assignment(n, v) => IrStmtModel::Assignment(n, lower_expr(*v)),
        ExprModel::MemberAssignment(o, m, v) => IrStmtModel::MemberAssignment(lower_expr(*o), m, lower_expr(*v)),
        ExprModel::IndexAssignment(o, i, v) => IrStmtModel::IndexAssignment(lower_expr(*o), lower_expr(*i), lower_expr(*v)),
        _ => IrStmtModel::Expression(lower_expr(x)),
    }
}

pub open spec fn lower_opt_block(b: Option<Seq<StmtModel>>) -> Option<Seq<IrStmtModel>>
    decreases b, 0nat,
{
    match b {
        Some(s) => Some(lower_stmts(s)),
        None => None,
    }
}

/// The lowered form of a statement.
pub open spec fn lower_stmt(s: StmtModel) -> IrStmtModel
    decreases s, 0nat,
{
    match s {
        StmtModel::LetDecl(n, x) => IrStmtModel::Declaration(IrDeclarationKind::Let, n, lower_expr(x)),
        StmtModel::ConstDecl(n, x) => IrStmtModel::Declaration(IrDeclarationKind::Const, n, lower_expr(x)),
        StmtModel::IfStatement(c, b, e) => IrStmtModel::IfStatement(lower_expr(c), lower_stmts(b), lower_opt_block(e)),
        StmtModel::TryCatchFinally(t, p, c, f) => IrStmtModel::TryCatchFinally(
            lower_stmts(t),
            p,
            lower_opt_block(c),
            lower_opt_block(f),
        ),
        StmtModel::Throw(x) => IrStmtModel::Throw(lower_expr(x)),
        StmtModel::FunctionDecl(f) => match f.name {
            Some(n) => IrStmtModel::Declaration(
                IrDeclarationKind::Let,
                n,
                IrExprModel::Literal(IrValueModel::Function(lower_function(f, n))),
            ),
            None => IrStmtModel::Expression(IrExprModel::Literal(IrValueModel::Undefined)),
        },
        StmtModel::ForLoop(init, cond, incr, body) => IrStmtModel::ForLoop(
            match init {
                Some(i) => Some(Box::new(lower_stmt(*i))),
                None => None,
            },
            match cond {
                Some(c) => Some(lower_expr(c)),
                None => None,
            },
            match incr {
                Some(x) => Some(Box::new(lower_expression_statement(*x))),
                None => None,
            },
            lower_stmts(body),
        ),
        StmtModel::WhileLoop(c, b) => IrStmtModel::WhileLoop(lower_expr(c), lower_stmts(b)),
        StmtModel::DoWhileLoop(b, c) => IrStmtModel::DoWhileLoop(lower_stmts(b), lower_expr(c)),
        StmtModel::Expression(x) => lower_expression_statement(x),
        StmtModel::Return(o) => IrStmtModel::Return(match o {
            Some(x) => Some(lower_expr(x)),
            None => None,
        }),
    }
}

/// The lowered forms of statements, in order.
pub open spec fn lower_stmts(s: Seq<StmtModel>) -> Seq<IrStmtModel>
    decreases s, 1nat,
{
    if s.len() == 0 {
        Seq::empty()
    } else {
        lower_stmts(s.drop_last()).push(lower_stmt(s.last()))
    }
}

pub proof fn lemma_lower_exprs_push(s: Seq<ExprModel>, x: ExprModel)
    ensures
        lower_exprs(s.push(x)) == lower_exprs(s).push(lower_expr(x)),
{
    assert(s.push(x).drop_last() =~= s);
}

pub proof fn lemma_lower_props_push(s: Seq<(Seq<char>, ExprModel)>, x: (Seq<char>, ExprModel))
    ensures
        lower_props(s.push(x)) == lower_props(s).push((x.0, lower_expr(x.1))),
{
    assert(s.push(x).drop_last() =~= s);
}

pub proof fn lemma_lower_stmts_push(s: Seq<StmtModel>, x: StmtModel)
    ensures
        lower_stmts(s.push(x)) == lower_stmts(s).push(lower_stmt(x)),
{
    assert(s.push(x).drop_last() =~= s);
}

// ---------------------------------------------------------------------------
// The executable lowering
// ---------------------------------------------------------------------------

fn binary_op_string(op: JsBinaryOp) -> (r: String)
    ensures
        r@ == binary_op_text(op),
{
    match op {
        JsBinaryOp::Add => {
            proof { reveal_strlit("+"); }
            text("+")
        },
        JsBinaryOp::Subtract => {
            proof { reveal_strlit("-"); }
            text("-")
        },
        JsBinaryOp::Multiply => {
            proof { reveal_strlit("*"); }
            text("*")
        },
        JsBinaryOp::Divide => {
            proof { reveal_strlit("/"); }
            text("/")
        },
        JsBinaryOp::Remainder => {
            proof { reveal_strlit("%"); }
            text("%")
        },
        JsBinaryOp::Equal => {
            proof { reveal_strlit("=="); }
            text("==")
        },
        JsBinaryOp::NotEqual => {
            proof { reveal_strlit("!="); }
            text("!=")
        },
        JsBinaryOp::StrictEqual => {
            proof { reveal_strlit("==="); }
            text("===")
        },
        JsBinaryOp::StrictNotEqual => {
            proof { reveal_strlit("!=="); }
            text("!==")
        },
        JsBinaryOp::LessThan => {
            proof { reveal_strlit("<"); }
            text("<")
        },
        JsBinaryOp::GreaterThan => {
            proof { reveal_strlit(">"); }
            text(">")
        },
        JsBinaryOp::LessThanOrEqual => {
            proof { reveal_strlit("<="); }
            text("<=")
        },
        JsBinaryOp::GreaterThanOrEqual => {
            proof { reveal_strlit(">="); }
            text(">=")
        },
    }
}

fn unary_op_string(op: JsUnaryOp) -> (r: String)
    ensures
        r@ == unary_op_text(op),
{
    match op {
        JsUnaryOp::Negate => {
            proof { reveal_strlit("-"); }
            text("-")
        },
        JsUnaryOp::Not => {
            proof { reveal_strlit("!"); }
            text("!")
        },
    }
}

fn logical_op_string(op: JsLogicalOp) -> (r: String)
    ensures
        r@ == logical_op_text(op),
{
    match op {
        JsLogicalOp::And => {
            proof { reveal_strlit("&&"); }
            text("&&")
        },
        JsLogicalOp::Or => {
            proof { reveal_strlit("||"); }
            text("||")
        },
    }
}

/// Lowers an expression; see `lower_expr`.
#[verifier::spinoff_prover]
pub fn lower_expression_to_ir(expr: &JsExpression) -> (r: IrExpression)
    ensures
        ir_expr_model(r) == lower_expr(expr_model(*expr)),
    decreases expr, 0nat,
{
    match expr {
        JsExpression::Literal(l) => {
            let v = lower_literal_value(l);
            let r = IrExpression::Literal(v);
            assert(ir_expr_model(r) == IrExprModel::Literal(ir_value_model(v)));
            r
        },
        JsExpression::Identifier(n) => IrExpression::Identifier(n.clone()),
        JsExpression::This => IrExpression::This,
        JsExpression::BinaryOp(l, op, r) => {
            let a = lower_expression_to_ir(l);
            let b = lower_expression_to_ir(r);
            IrExpression::BinaryOp(Box::new(a), binary_op_string(*op), Box::new(b))
        },
        JsExpression::UnaryOp(op, x) => {
            let a = lower_expression_to_ir(x);
            IrExpression::UnaryOp(unary_op_string(*op), Box::new(a))
        },
        JsExpression::LogicalOp(l, op, r) => {
            let a = lower_expression_to_ir(l);
            let b = lower_expression_to_ir(r);
            IrExpression::LogicalOp(Box::new(a), logical_op_string(*op), Box::new(b))
        },
        JsExpression::Assignment(n, v) => IrExpression::Assignment(n.clone(), Box::new(lower_expression_to_ir(v))),
        JsExpression::MemberAssignment(o, m, v) => {
            let a = lower_expression_to_ir(o);
            let b = lower_expression_to_ir(v);
            IrExpression::MemberAssignment(Box::new(a), m.clone(), Box::new(b))
        },
        JsExpression::IndexAssignment(o, i, v) => {
            let a = lower_expression_to_ir(o);
            let b = lower_expression_to_ir(i);
            let c = lower_expression_to_ir(v);
            IrExpression::IndexAssignment(Box::new(a), Box::new(b), Box::new(c))
        },
        JsExpression::Call(n, args) => IrExpression::Call(n.clone(), lower_expressions(args)),
        JsExpression::Array(items) => {
            let v = IrValue::Array(lower_expressions(items));
            assert(ir_value_model(v) == IrValueModel::Array(ir_exprs_model(v->Array_0@)));
            IrExpression::Literal(v)
        },
        JsExpression::Object(o) => {
            proof { assert(decreases_to!(*expr => o.properties)); }
            let v = IrValue::Object(lower_properties(&o.properties));
            assert(ir_value_model(v) == IrValueModel::Object(ir_props_model(v->Object_0@)));
            IrExpression::Literal(v)
        },
        JsExpression::MemberAccess(o, m) => IrExpression::MemberAccess(Box::new(lower_expression_to_ir(o)), m.clone()),
        JsExpression::IndexAccess(o, i) => {
            let a = lower_expression_to_ir(o);
            let b = lower_expression_to_ir(i);
            IrExpression::IndexAccess(Box::new(a), Box::new(b))
        },
        JsExpression::MethodCall { object, method, args } => {
            let a = lower_expression_to_ir(object);
            IrExpression::MethodCall { object: Box::new(a), method: method.clone(), args: lower_expressions(args) }
        },
    }
}

#[verifier::spinoff_prover]
fn lower_literal_value(l: &JsLiteral) -> (r: IrValue)
    ensures
        ir_value_model(r) == lower_literal(lit_model(*l)),
    decreases l, 0nat,
{
    match l {
        JsLiteral::Number(n) => IrValue::Number(*n),
        JsLiteral::String(s) => IrValue::String(s.clone()),
        JsLiteral::Boolean(b) => IrValue::Boolean(*b),
        JsLiteral::Null => IrValue::Null,
        JsLiteral::Undefined => IrValue::Undefined,
        JsLiteral::Function(f) => {
            let name = match &f.name {
                Some(n) => n.clone(),
                None => text("anonymous"),
            };
            let g = lower_function_decl(f, name);
            let r = IrValue::Function(g);
            assert(ir_value_model(r) == IrValueModel::Function(ir_fn_model(g)));
            r
        },
    }
}

#[verifier::spinoff_prover]
fn lower_function_decl(f: &JsFunctionDecl, name: String) -> (r: IrFunction)
    ensures
        ir_fn_model(r) == lower_function(fn_model(*f), name@),
    decreases f, 0nat,
{
    proof { assert(decreases_to!(*f => f.body.statements)); }
    let parameters = clone_names(&f.params);
    let body = lower_statements(&f.body.statements);
    proof {
        assert(strings_model(parameters@) =~= names_model(parameters@));
    }
    IrFunction { parameters, body, name }
}

#[verifier::spinoff_prover]
fn lower_expressions(s: &Vec<JsExpression>) -> (r: Vec<IrExpression>)
    ensures
        ir_exprs_model(r@) == lower_exprs(exprs_model(s@)),
    decreases s, 1nat,
{
    let mut out: Vec<IrExpression> = Vec::new();
    let mut i: usize = 0;
    assert(ir_exprs_model(out@) =~= lower_exprs(exprs_model(s@.take(0))));
    while i < s.len()
        invariant
            i <= s@.len(),
            ir_exprs_model(out@) == lower_exprs(exprs_model(s@.take(i as int))),
        decreases s@.len() - i,
    {
        proof {
            assert(decreases_to!(*s => s[i as int]));
            assert(s@.take(i + 1).drop_last() =~= s@.take(i as int));
            lemma_exprs_model_push(s@.take(i as int), s@[i as int]);
            assert(s@.take(i + 1) =~= s@.take(i as int).push(s@[i as int]));
            lemma_lower_exprs_push(exprs_model(s@.take(i as int)), expr_model(s@[i as int]));
        }
        let x = lower_expression_to_ir(&s[i]);
        proof { lemma_ir_exprs_model_push(out@, x); }
        out.push(x);
        i += 1;
    }
    assert(s@.take(s@.len() as int) =~= s@);
    out
}

#[verifier::spinoff_prover]
fn lower_properties(s: &Vec<JsProperty>) -> (r: Vec<(String, IrExpression)>)
    ensures
        ir_props_model(r@) == lower_props(properties_model(s@)),
    decreases s, 1nat,
{
    let mut out: Vec<(String, IrExpression)> = Vec::new();
    let mut i: usize = 0;
    assert(ir_props_model(out@) =~= lower_props(properties_model(s@.take(0))));
    while i < s.len()
        invariant
            i <= s@.len(),
            ir_props_model(out@) == lower_props(properties_model(s@.take(i as int))),
        decreases s@.len() - i,
    {
        proof {
            assert(decreases_to!(*s => s[i as int]));
            assert(decreases_to!(s[i as int] => s[i as int].value));
            assert(s@.take(i + 1).drop_last() =~= s@.take(i as int));
            lemma_properties_model_push(s@.take(i as int), s@[i as int]);
            assert(s@.take(i + 1) =~= s@.take(i as int).push(s@[i as int]));
            lemma_lower_props_push(properties_model(s@.take(i as int)), (s@[i as int].key@, expr_model(s@[i as int].value)));
        }
        let x = (s[i].key.clone(), lower_expression_to_ir(&s[i].value));
        proof { lemma_ir_props_model_push(out@, x); }
        out.push(x);
        i += 1;
    }
    assert(s@.take(s@.len() as int) =~= s@);
    out
}

#[verifier::spinoff_prover]
fn lower_statements(s: &Vec<JsStatement>) -> (r: Vec<IrStatement>)
    ensures
        ir_stmts_model(r@) == lower_stmts(stmts_model(s@)),
    decreases s, 1nat,
{
    let mut out: Vec<IrStatement> = Vec::new();
    let mut i: usize = 0;
    assert(ir_stmts_model(out@) =~= lower_stmts(stmts_model(s@.take(0))));
    while i < s.len()
        invariant
            i <= s@.len(),
            ir_stmts_model(out@) == lower_stmts(stmts_model(s@.take(i as int))),
        decreases s@.len() - i,
    {
        proof {
            assert(decreases_to!(*s => s[i as int]));
            assert(s@.take(i + 1).drop_last() =~= s@.take(i as int));
            lemma_stmts_model_push(s@.take(i as int), s@[i as int]);
            assert(s@.take(i + 1) =~= s@.take(i as int).push(s@[i as int]));
            lemma_lower_stmts_push(stmts_model(s@.take(i as int)), stmt_model(s@[i as int]));
        }
        let x = lower_statement_to_ir(&s[i]);
        proof { lemma_ir_stmts_model_push(out@, x); }
        out.push(x);
        i += 1;
    }
    assert(s@.take(s@.len() as int) =~= s@);
    out
}

#[verifier::spinoff_prover]
fn lower_block_opt(b: &Option<JsBlock>) -> (r: Option<Vec<IrStatement>>)
    ensures
        ir_opt_stmts_model(r) == lower_opt_block(opt_block_model(*b)),
    decreases b, 1nat,
{
    match b {
        Some(x) => {
            proof { assert(decreases_to!(*b => x.statements)); }
            let v = lower_statements(&x.statements);
            assert(ir_opt_stmts_model(Some(v)) == Some(ir_stmts_model(v@)));
            Some(v)
        },
        None => None,
    }
}

#[verifier::spinoff_prover]
fn lower_expression_statement_ir(x: &JsExpression) -> (r: IrStatement)
    ensures
        ir_stmt_model(r) == lower_expression_statement(expr_model(*x)),
    decreases x, 1nat,
{
    match x {
        JsExpression::Assignment(n, v) => IrStatement::Assignment(n.clone(), lower_expression_to_ir(v)),
        JsExpression::MemberAssignment(o, m, v) => {
            let a = lower_expression_to_ir(o);
            let b = lower_expression_to_ir(v);
            IrStatement::MemberAssignment(a, m.clone(), b)
        },
        JsExpression::IndexAssignment(o, i, v) => {
            let a = lower_expression_to_ir(o);
            let b = lower_expression_to_ir(i);
            let c = lower_expression_to_ir(v);
            IrStatement::IndexAssignment(a, b, c)
        },
        _ => IrStatement::Expression(lower_expression_to_ir(x)),
    }
}

/// Lowers a statement; see `lower_stmt`.
#[verifier::spinoff_prover]
pub fn lower_statement_to_ir(stmt: &JsStatement) -> (r: IrStatement)
    ensures
        ir_stmt_model(r) == lower_stmt(stmt_model(*stmt)),
    decreases stmt, 0nat,
{
    match stmt {
        JsStatement::Expression(x) => lower_expression_statement_ir(x),
        JsStatement::LetDecl(n, x) => {
            IrStatement::Declaration { kind: IrDeclarationKind::Let, name: n.clone(), expr: lower_expression_to_ir(x) }
        },
        JsStatement::ConstDecl(n, x) => {
            IrStatement::Declaration { kind: IrDeclarationKind::Const, name: n.clone(), expr: lower_expression_to_ir(x) }
        },
        JsStatement::FunctionDecl(f) => match &f.name {
            Some(n) => {
                let g = lower_function_decl(f, n.clone());
                let v = IrValue::Function(g);
                assert(ir_value_model(v) == IrValueModel::Function(ir_fn_model(g)));
                let e = IrExpression::Literal(v);
                assert(ir_expr_model(e) == IrExprModel::Literal(ir_value_model(v)));
                IrStatement::Declaration { kind: IrDeclarationKind::Let, name: n.clone(), expr: e }
            },
            None => {
                let e = IrExpression::Literal(IrValue::Undefined);
                assert(ir_value_model(IrValue::Undefined) == IrValueModel::Undefined);
                assert(ir_expr_model(e) == IrExprModel::Literal(IrValueModel::Undefined));
                IrStatement::Expression(e)
            },
        },
        JsStatement::Return(o) => match o {
            Some(x) => IrStatement::Return(Some(lower_expression_to_ir(x))),
            None => IrStatement::Return(None),
        },
        JsStatement::IfStatement(c, b, e) => {
            let cond = lower_expression_to_ir(c);
            proof { assert(decreases_to!(*stmt => b.statements)); }
            let body = lower_statements(&b.statements);
            let alt = lower_block_opt(e);
            IrStatement::IfStatement(cond, body, alt)
        },
        JsStatement::WhileLoop(w) => {
            let cond = lower_expression_to_ir(&w.condition);
            proof { assert(decreases_to!(*stmt => w.body.statements)); }
            let body = lower_statements(&w.body.statements);
            IrStatement::WhileLoop(cond, body)
        },
        JsStatement::DoWhileLoop(d) => {
            proof { assert(decreases_to!(*stmt => d.body.statements)); }
            let body = lower_statements(&d.body.statements);
            let cond = lower_expression_to_ir(&d.condition);
            IrStatement::DoWhileLoop(body, cond)
        },
        JsStatement::ForLoop(f) => lower_for_loop(f),
        JsStatement::TryCatchFinally { try_block, catch_param, catch_block, finally_block } => {
            proof { assert(decreases_to!(*stmt => try_block.statements)); }
            let t = lower_statements(&try_block.statements);
            let p = match catch_param {
                Some(n) => Some(n.clone()),
                None => None,
            };
            let c = lower_block_opt(catch_block);
            let f = lower_block_opt(finally_block);
            IrStatement::TryCatchFinally { try_block: t, catch_param: p, catch_block: c, finally_block: f }
        },
        JsStatement::Throw(x) => IrStatement::Throw(lower_expression_to_ir(x)),
    }
}

#[verifier::spinoff_prover]
fn lower_for_loop(f: &crate::syntax::JsForLoop) -> (r: IrStatement)
    ensures
        ir_stmt_model(r) == lower_stmt(stmt_model(JsStatement::ForLoop(*f))),
    decreases f, 0nat,
{
    let init = match &f.init {
        Some(i) => Some(Box::new(lower_statement_to_ir(i))),
        None => None,
    };
    let condition = match &f.condition {
        Some(c) => Some(lower_expression_to_ir(c)),
        None => None,
    };
    let increment = match &f.increment {
        Some(x) => Some(Box::new(lower_expression_statement_ir(x))),
        None => None,
    };
    proof { assert(decreases_to!(*f => f.body.statements)); }
    let body = lower_statements(&f.body.statements);
    IrStatement::ForLoop { init, condition, increment, body }
}

} // verus!
