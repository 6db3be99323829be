//! The syntax tree of a script as the parser reads it: JavaScript
//! statements and expressions with their operators, before lowering.
use vstd::prelude::*;
use crate::number::JsNumber;

verus! {

/// A whole script: its statements in order.
#[derive(Debug)]
pub struct JsScript {
    pub statements: Vec<JsStatement>,
}

/// A statement as written.
#[derive(Debug)]
pub enum JsStatement {
    LetDecl(String, JsExpression),
    ConstDecl(String, JsExpression),
    IfStatement(JsExpression, JsBlock, Option<JsBlock>),
    TryCatchFinally {
        try_block: JsBlock,
        catch_param: Option<String>,
        catch_block: Option<JsBlock>,
        finally_block: Option<JsBlock>,
    },
    Throw(JsExpression),
    FunctionDecl(JsFunctionDecl),
    ForLoop(JsForLoop),
    WhileLoop(JsWhileLoop),
    DoWhileLoop(JsDoWhileLoop),
    Expression(JsExpression),
    Return(Option<JsExpression>),
}

/// An expression as written. Assignments are expressions here; `x++` and
/// `x += e` are already written out as assignments.
#[derive(Debug)]
pub enum JsExpression {
    Literal(JsLiteral),
    Identifier(String),
    This,
    BinaryOp(Box<JsExpression>, JsBinaryOp, Box<JsExpression>),
    UnaryOp(JsUnaryOp, Box<JsExpression>),
    LogicalOp(Box<JsExpression>, JsLogicalOp, Box<JsExpression>),
    Assignment(String, Box<JsExpression>),
    MemberAssignment(Box<JsExpression>, String, Box<JsExpression>),
    IndexAssignment(Box<JsExpression>, Box<JsExpression>, Box<JsExpression>),
    Call(String, Vec<JsExpression>),
    Array(Vec<JsExpression>),
    Object(JsObject),
    MemberAccess(Box<JsExpression>, String),
    IndexAccess(Box<JsExpression>, Box<JsExpression>),
    MethodCall { object: Box<JsExpression>, method: String, args: Vec<JsExpression> },
}

/// An object literal: its properties in order.
#[derive(Debug)]
pub struct JsObject {
    pub properties: Vec<JsProperty>,
}

/// One property of an object literal.
#[derive(Debug)]
pub struct JsProperty {
    pub key: String,
    pub value: JsExpression,
}

#[derive(Clone, Copy, Debug, PartialEq, Eq, Structural)]
pub enum JsBinaryOp {
    Add,
    Subtract,
    Multiply,
    Divide,
    Remainder,
    Equal,
    NotEqual,
    StrictEqual,
    StrictNotEqual,
    LessThan,
    GreaterThan,
    LessThanOrEqual,
    GreaterThanOrEqual,
}

#[derive(Clone, Copy, Debug, PartialEq, Eq, Structural)]
pub enum JsUnaryOp {
    Negate,
    Not,
}

#[derive(Clone, Copy, Debug, PartialEq, Eq, Structural)]
pub enum JsLogicalOp {
    And,
    Or,
}

/// A literal.
#[derive(Debug)]
pub enum JsLiteral {
    Number(JsNumber),
    String(String),
    Boolean(bool),
    Null,
    Undefined,
    Function(JsFunctionDecl),
}

/// A braced list of statements.
#[derive(Debug)]
pub struct JsBlock {
    pub statements: Vec<JsStatement>,
}

/// `function name(params) { body }`; the name is optional.
#[derive(Debug)]
pub struct JsFunctionDecl {
    pub name: Option<String>,
    pub params: Vec<String>,
    pub body: JsBlock,
}

#[derive(Debug)]
pub struct JsWhileLoop {
    pub condition: JsExpression,
    pub body: JsBlock,
}

#[derive(Debug)]
pub struct JsDoWhileLoop {
    pub body: JsBlock,
    pub condition: JsExpression,
}

#[derive(Debug)]
pub struct JsForLoop {
    pub init: Option<Box<JsStatement>>,
    pub condition: Option<JsExpression>,
    pub increment: Option<Box<JsExpression>>,
    pub body: JsBlock,
}

// ---------------------------------------------------------------------------
// Models
// ---------------------------------------------------------------------------

/// The model of an expression.
pub enum ExprModel {
    Literal(LitModel),
    Identifier(Seq<char>),
    This,
    BinaryOp(Box<ExprModel>, JsBinaryOp, Box<ExprModel>),
    UnaryOp(JsUnaryOp, Box<ExprModel>),
    LogicalOp(Box<ExprModel>, JsLogicalOp, Box<ExprModel>),
    Assignment(Seq<char>, Box<ExprModel>),
    MemberAssignment(Box<ExprModel>, Seq<char>, Box<ExprModel>),
    IndexAssignment(Box<ExprModel>, Box<ExprModel>, Box<ExprModel>),
    Call(Seq<char>, Seq<ExprModel>),
    Array(Seq<ExprModel>),
    Object(Seq<(Seq<char>, ExprModel)>),
    MemberAccess(Box<ExprModel>, Seq<char>),
    IndexAccess(Box<ExprModel>, Box<ExprModel>),
    MethodCall(Box<ExprModel>, Seq<char>, Seq<ExprModel>),
}

/// The model of a literal.
pub enum LitModel {
    Number(JsNumber),
    String(Seq<char>),
    Boolean(bool),
    Null,
    Undefined,
    Function(FnModel),
}

/// The model of a function literal or declaration.
pub struct FnModel {
    pub name: Option<Seq<char>>,
    pub params: Seq<Seq<char>>,
    pub body: Seq<StmtModel>,
}

/// The model of a statement; blocks are their statements.
pub enum StmtModel {
    LetDecl(Seq<char>, ExprModel),
    ConstDecl(Seq<char>, ExprModel),
    IfStatement(ExprModel, Seq<StmtModel>, Option<Seq<StmtModel>>),
    TryCatchFinally(Seq<StmtModel>, Option<Seq<char>>, Option<Seq<StmtModel>>, Option<Seq<StmtModel>>),
    Throw(ExprModel),
    FunctionDecl(FnModel),
    ForLoop(Option<Box<StmtModel>>, Option<ExprModel>, Option<Box<ExprModel>>, Seq<StmtModel>),
    WhileLoop(ExprModel, Seq<StmtModel>),
    DoWhileLoop(Seq<StmtModel>, ExprModel),
    Expression(ExprModel),
    Return(Option<ExprModel>),
}

pub open spec fn names_model(s: Seq<String>) -> Seq<Seq<char>> {
    s.map_values(|x: String| x@)
}

pub open spec fn expr_model(e: JsExpression) -> ExprModel
    decreases e, 0nat,
{
    match e {
        JsExpression::Literal(l) => ExprModel::Literal(lit_model(l)),
        JsExpression::Identifier(n) => ExprModel::Identifier(n@),
        JsExpression::This => ExprModel::This,
        JsExpression::BinaryOp(l, op, r) => ExprModel::BinaryOp(Box::new(expr_model(*l)), op, Box::new(expr_model(*r))),
        JsExpression::UnaryOp(op, x) => ExprModel::UnaryOp(op, Box::new(expr_model(*x))),
        JsExpression::LogicalOp(l, op, r) => ExprModel::LogicalOp(Box::new(expr_model(*l)), op, Box::new(expr_model(*r))),
        JsExpression::Assignment(n, v) => ExprModel::Assignment(n@, Box::new(expr_model(*v))),
        JsExpression::MemberAssignment(o, m, v) => ExprModel::MemberAssignment(Box::new(expr_model(*o)), m@, Box::new(expr_model(*v))),
        JsExpression::IndexAssignment(o, i, v) => ExprModel::IndexAssignment(
            Box::new(expr_model(*o)),
            Box::new(expr_model(*i)),
            Box::new(expr_model(*v)),
        ),
        JsExpression::Call(n, args) => ExprModel::Call(n@, exprs_model(args@)),
        JsExpression::Array(items) => ExprModel::Array(exprs_model(items@)),
        JsExpression::Object(o) => ExprModel::Object(properties_model(o.properties@)),
        JsExpression::MemberAccess(o, m) => ExprModel::MemberAccess(Box::new(expr_model(*o)), m@),
        JsExpression::IndexAccess(o, i) => ExprModel::IndexAccess(Box::new(expr_model(*o)), Box::new(expr_model(*i))),
        JsExpression::MethodCall { object, method, args } => ExprModel::MethodCall(Box::new(expr_model(*object)), method@, exprs_model(args@)),
    }
}

pub open spec fn exprs_model(s: Seq<JsExpression>) -> Seq<ExprModel>
    decreases s, 1nat,
{
    if s.len() == 0 {
        Seq::empty()
    } else {
        exprs_model(s.drop_last()).push(expr_model(s.last()))
    }
}

pub open spec fn properties_model(s: Seq<JsProperty>) -> Seq<(Seq<char>, ExprModel)>
    decreases s, 1nat,
{
    if s.len() == 0 {
        Seq::empty()
    } else {
        properties_model(s.drop_last()).push((s.last().key@, expr_model(s.last().value)))
    }
}

pub open spec fn lit_model(l: JsLiteral) -> LitModel
    decreases l, 0nat,
{
    match l {
        JsLiteral::Number(n) => LitModel::Number(n),
        JsLiteral::String(s) => LitModel::String(s@),
        JsLiteral::Boolean(b) => LitModel::Boolean(b),
        JsLiteral::Null => LitModel::Null,
        JsLiteral::Undefined => LitModel::Undefined,
        JsLiteral::Function(f) => LitModel::Function(fn_model(f)),
    }
}

pub open spec fn fn_model(f: JsFunctionDecl) -> FnModel
    decreases f, 0nat,
{
    FnModel {
        name: match f.name {
            Some(n) => Some(n@),
            None => None,
        },
        params: names_model(f.params@),
        body: stmts_model(f.body.statements@),
    }
}

pub open spec fn opt_block_model(b: Option<JsBlock>) -> Option<Seq<StmtModel>>
    decreases b, 0nat,
{
    match b {
        Some(x) => Some(stmts_model(x.statements@)),
        None => None,
    }
}

pub open spec fn stmt_model(s: JsStatement) -> StmtModel
    decreases s, 0nat,
{
    match s {
        JsStatement::LetDecl(n, e) => StmtModel::LetDecl(n@, expr_model(e)),
        JsStatement::ConstDecl(n, e) => StmtModel::ConstDecl(n@, expr_model(e)),
        JsStatement::IfStatement(c, b, e) => StmtModel::IfStatement(expr_model(c), stmts_model(b.statements@), opt_block_model(e)),
        JsStatement::TryCatchFinally { try_block, catch_param, catch_block, finally_block } => StmtModel::TryCatchFinally(
            stmts_model(try_block.statements@),
            match catch_param {
                Some(p) => Some(p@),
                None => None,
            },
            opt_block_model(catch_block),
            opt_block_model(finally_block),
        ),
        JsStatement::Throw(e) => StmtModel::Throw(expr_model(e)),
        JsStatement::FunctionDecl(f) => StmtModel::FunctionDecl(fn_model(f)),
        JsStatement::ForLoop(f) => StmtModel::ForLoop(
            match f.init {
                Some(i) => Some(Box::new(stmt_model(*i))),
                None => None,
            },
            match f.condition {
                Some(c) => Some(expr_model(c)),
                None => None,
            },
            match f.increment {
                Some(i) => Some(Box::new(expr_model(*i))),
                None => None,
            },
            stmts_model(f.body.statements@),
        ),
        JsStatement::WhileLoop(w) => StmtModel::WhileLoop(expr_model(w.condition), stmts_model(w.body.statements@)),
        JsStatement::DoWhileLoop(d) => StmtModel::DoWhileLoop(stmts_model(d.body.statements@), expr_model(d.condition)),
        JsStatement::Expression(e) => StmtModel::Expression(expr_model(e)),
        JsStatement::Return(e) => StmtModel::Return(match e {
            Some(x) => Some(expr_model(x)),
            None => None,
        }),
    }
}

pub open spec fn stmts_model(s: Seq<JsStatement>) -> Seq<StmtModel>
    decreases s, 1nat,
{
    if s.len() == 0 {
        Seq::empty()
    } else {
        stmts_model(s.drop_last()).push(stmt_model(s.last()))
    }
}

pub proof fn lemma_exprs_model_push(s: Seq<JsExpression>, x: JsExpression)
    ensures
        exprs_model(s.push(x)) == exprs_model(s).push(expr_model(x)),
{
    assert(s.push(x).drop_last() =~= s);
}

pub proof fn lemma_properties_model_push(s: Seq<JsProperty>, x: JsProperty)
    ensures
        properties_model(s.push(x)) == properties_model(s).push((x.key@, expr_model(x.value))),
{
    assert(s.push(x).drop_last() =~= s);
}

pub proof fn lemma_stmts_model_push(s: Seq<JsStatement>, x: JsStatement)
    ensures
        stmts_model(s.push(x)) == stmts_model(s).push(stmt_model(x)),
{
    assert(s.push(x).drop_last() =~= s);
}

// ---------------------------------------------------------------------------
// Copies
// ---------------------------------------------------------------------------

pub fn clone_names(s: &Vec<String>) -> (r: Vec<String>)
    ensures
        names_model(r@) == names_model(s@),
{
    let mut out: Vec<String> = Vec::new();
    let mut i: usize = 0;
    while i < s.len()
        invariant
            i <= s@.len(),
            out@.len() == i,
            forall|k: int| 0 <= k < i ==> (#[trigger] out@[k])@ == s@[k]@,
        decreases s@.len() - i,
    {
        out.push(s[i].clone());
        i += 1;
    }
    assert(names_model(out@) =~= names_model(s@));
    out
}

pub fn clone_expr(e: &JsExpression) -> (r: JsExpression)
    ensures
        expr_model(r) == expr_model(*e),
    decreases e,
{
    match e {
        JsExpression::Literal(l) => JsExpression::Literal(clone_lit(l)),
        JsExpression::Identifier(n) => JsExpression::Identifier(n.clone()),
        JsExpression::This => JsExpression::This,
        JsExpression::BinaryOp(l, op, r) => JsExpression::BinaryOp(Box::new(clone_expr(l)), *op, Box::new(clone_expr(r))),
        JsExpression::UnaryOp(op, x) => JsExpression::UnaryOp(*op, Box::new(clone_expr(x))),
        JsExpression::LogicalOp(l, op, r) => JsExpression::LogicalOp(Box::new(clone_expr(l)), *op, Box::new(clone_expr(r))),
        JsExpression::Assignment(n, v) => JsExpression::Assignment(n.clone(), Box::new(clone_expr(v))),
        JsExpression::MemberAssignment(o, m, v) => JsExpression::MemberAssignment(Box::new(clone_expr(o)), m.clone(), Box::new(clone_expr(v))),
        JsExpression::IndexAssignment(o, i, v) => JsExpression::IndexAssignment(
            Box::new(clone_expr(o)),
            Box::new(clone_expr(i)),
            Box::new(clone_expr(v)),
        ),
        JsExpression::Call(n, args) => JsExpression::Call(n.clone(), clone_exprs(args)),
        JsExpression::Array(items) => JsExpression::Array(clone_exprs(items)),
        JsExpression::Object(o) => {
            proof { assert(decreases_to!(*e => o.properties)); }
            JsExpression::Object(JsObject { properties: clone_properties(&o.properties) })
        },
        JsExpression::MemberAccess(o, m) => JsExpression::MemberAccess(Box::new(clone_expr(o)), m.clone()),
        JsExpression::IndexAccess(o, i) => JsExpression::IndexAccess(Box::new(clone_expr(o)), Box::new(clone_expr(i))),
        JsExpression::MethodCall { object, method, args } => JsExpression::MethodCall {
            object: Box::new(clone_expr(object)),
            method: method.clone(),
            args: clone_exprs(args),
        },
    }
}

pub fn clone_exprs(s: &Vec<JsExpression>) -> (r: Vec<JsExpression>)
    ensures
        exprs_model(r@) == exprs_model(s@),
    decreases s,
{
    let mut out: Vec<JsExpression> = Vec::new();
    let mut i: usize = 0;
    assert(exprs_model(s@.take(0)) =~= exprs_model(out@));
    while i < s.len()
        invariant
            i <= s@.len(),
            exprs_model(out@) == exprs_model(s@.take(i as int)),
        decreases s@.len() - i,
    {
        proof {
            assert(decreases_to!(*s => s[i as int]));
            assert(s@.take(i + 1).drop_last() =~= s@.take(i as int));
        }
        let x = clone_expr(&s[i]);
        proof { lemma_exprs_model_push(out@, x); }
        out.push(x);
        i += 1;
    }
    assert(s@.take(s@.len() as int) =~= s@);
    out
}

pub fn clone_properties(s: &Vec<JsProperty>) -> (r: Vec<JsProperty>)
    ensures
        properties_model(r@) == properties_model(s@),
    decreases s,
{
    let mut out: Vec<JsProperty> = Vec::new();
    let mut i: usize = 0;
    assert(properties_model(s@.take(0)) =~= properties_model(out@));
    while i < s.len()
        invariant
            i <= s@.len(),
            properties_model(out@) == properties_model(s@.take(i as int)),
        decreases s@.len() - i,
    {
        proof {
            assert(decreases_to!(*s => s[i as int]));
            assert(decreases_to!(s[i as int] => s[i as int].value));
            assert(s@.take(i + 1).drop_last() =~= s@.take(i as int));
        }
        let x = JsProperty { key: s[i].key.clone(), value: clone_expr(&s[i].value) };
        proof { lemma_properties_model_push(out@, x); }
        out.push(x);
        i += 1;
    }
    assert(s@.take(s@.len() as int) =~= s@);
    out
}

pub fn clone_lit(l: &JsLiteral) -> (r: JsLiteral)
    ensures
        lit_model(r) == lit_model(*l),
    decreases l,
{
    match l {
        JsLiteral::Number(n) => JsLiteral::Number(*n),
        JsLiteral::String(s) => JsLiteral::String(s.clone()),
        JsLiteral::Boolean(b) => JsLiteral::Boolean(*b),
        JsLiteral::Null => JsLiteral::Null,
        JsLiteral::Undefined => JsLiteral::Undefined,
        JsLiteral::Function(f) => JsLiteral::Function(clone_fn(f)),
    }
}

pub fn clone_fn(f: &JsFunctionDecl) -> (r: JsFunctionDecl)
    ensures
        fn_model(r) == fn_model(*f),
    decreases f,
{
    proof { assert(decreases_to!(*f => f.body.statements)); }
    JsFunctionDecl {
        name: match &f.name {
            Some(n) => Some(n.clone()),
            None => None,
        },
        params: clone_names(&f.params),
        body: JsBlock { statements: clone_stmts(&f.body.statements) },
    }
}

pub fn clone_stmts(s: &Vec<JsStatement>) -> (r: Vec<JsStatement>)
    ensures
        stmts_model(r@) == stmts_model(s@),
    decreases s,
{
    let mut out: Vec<JsStatement> = Vec::new();
    let mut i: usize = 0;
    assert(stmts_model(s@.take(0)) =~= stmts_model(out@));
    while i < s.len()
        invariant
            i <= s@.len(),
            stmts_model(out@) == stmts_model(s@.take(i as int)),
        decreases s@.len() - i,
    {
        proof {
            assert(decreases_to!(*s => s[i as int]));
            assert(s@.take(i + 1).drop_last() =~= s@.take(i as int));
        }
        let x = clone_stmt(&s[i]);
        proof { lemma_stmts_model_push(out@, x); }
        out.push(x);
        i += 1;
    }
    assert(s@.take(s@.len() as int) =~= s@);
    out
}

fn clone_opt_block(b: &Option<JsBlock>) -> (r: Option<JsBlock>)
    ensures
        opt_block_model(r) == opt_block_model(*b),
    decreases b,
{
    match b {
        Some(x) => {
            proof { assert(decreases_to!(*b => x.statements)); }
            Some(JsBlock { statements: clone_stmts(&x.statements) })
        },
        None => None,
    }
}

pub fn clone_stmt(s: &JsStatement) -> (r: JsStatement)
    ensures
        stmt_model(r) == stmt_model(*s),
    decreases s,
{
    match s {
        JsStatement::LetDecl(n, e) => JsStatement::LetDecl(n.clone(), clone_expr(e)),
        JsStatement::ConstDecl(n, e) => JsStatement::ConstDecl(n.clone(), clone_expr(e)),
        JsStatement::IfStatement(c, b, e) => {
            proof { assert(decreases_to!(*s => b.statements)); }
            JsStatement::IfStatement(clone_expr(c), JsBlock { statements: clone_stmts(&b.statements) }, clone_opt_block(e))
        },
        JsStatement::TryCatchFinally { try_block, catch_param, catch_block, finally_block } => {
            proof { assert(decreases_to!(*s => try_block.statements)); }
            JsStatement::TryCatchFinally {
                try_block: JsBlock { statements: clone_stmts(&try_block.statements) },
                catch_param: match catch_param {
                    Some(p) => Some(p.clone()),
                    None => None,
                },
                catch_block: clone_opt_block(catch_block),
                finally_block: clone_opt_block(finally_block),
            }
        },
        JsStatement::Throw(e) => JsStatement::Throw(clone_expr(e)),
        JsStatement::FunctionDecl(f) => JsStatement::FunctionDecl(clone_fn(f)),
        JsStatement::ForLoop(f) => {
            proof { assert(decreases_to!(*s => f.body.statements)); }
            JsStatement::ForLoop(JsForLoop {
                init: match &f.init {
                    Some(i) => Some(Box::new(clone_stmt(i))),
                    None => None,
                },
                condition: match &f.condition {
                    Some(c) => Some(clone_expr(c)),
                    None => None,
                },
                increment: match &f.increment {
                    Some(i) => Some(Box::new(clone_expr(i))),
                    None => None,
                },
                body: JsBlock { statements: clone_stmts(&f.body.statements) },
            })
        },
        JsStatement::WhileLoop(w) => {
            proof { assert(decreases_to!(*s => w.body.statements)); }
            JsStatement::WhileLoop(JsWhileLoop {
                condition: clone_expr(&w.condition),
                body: JsBlock { statements: clone_stmts(&w.body.statements) },
            })
        },
        JsStatement::DoWhileLoop(d) => {
            proof { assert(decreases_to!(*s => d.body.statements)); }
            JsStatement::DoWhileLoop(JsDoWhileLoop {
                body: JsBlock { statements: clone_stmts(&d.body.statements) },
                condition: clone_expr(&d.condition),
            })
        },
        JsStatement::Expression(e) => JsStatement::Expression(clone_expr(e)),
        JsStatement::Return(e) => JsStatement::Return(match e {
            Some(x) => Some(clone_expr(x)),
            None => None,
        }),
    }
}

} // verus!
