//! The intermediate form between the syntax tree and the runtime's
//! statements: an assignment that stands as a statement is a statement,
//! operators are named by their source text, and literals hold values.
use vstd::prelude::*;
use crate::number::JsNumber;
use crate::value::strings_model;

verus! {

#[derive(Clone, Copy, Debug, PartialEq, Eq, Structural)]
pub enum IrDeclarationKind {
    Let,
    Const,
}

#[derive(Debug)]
pub enum IrStatement {
    Expression(IrExpression),
    Assignment(String, IrExpression),
    Declaration { kind: IrDeclarationKind, name: String, expr: IrExpression },
    MemberAssignment(IrExpression, String, IrExpression),
    IndexAssignment(IrExpression, IrExpression, IrExpression),
    Return(Option<IrExpression>),
    IfStatement(IrExpression, Vec<IrStatement>, Option<Vec<IrStatement>>),
    WhileLoop(IrExpression, Vec<IrStatement>),
    DoWhileLoop(Vec<IrStatement>, IrExpression),
    ForLoop {
        init: Option<Box<IrStatement>>,
        condition: Option<IrExpression>,
        increment: Option<Box<IrStatement>>,
        body: Vec<IrStatement>,
    },
    TryCatchFinally {
        try_block: Vec<IrStatement>,
        catch_param: Option<String>,
        catch_block: Option<Vec<IrStatement>>,
        finally_block: Option<Vec<IrStatement>>,
    },
    Throw(IrExpression),
}

#[derive(Debug)]
pub enum IrExpression {
    Literal(IrValue),
    Identifier(String),
    This,
    BinaryOp(Box<IrExpression>, String, Box<IrExpression>),
    UnaryOp(String, Box<IrExpression>),
    LogicalOp(Box<IrExpression>, String, Box<IrExpression>),
    Call(String, Vec<IrExpression>),
    MemberAccess(Box<IrExpression>, String),
    IndexAccess(Box<IrExpression>, Box<IrExpression>),
    MethodCall { object: Box<IrExpression>, method: String, args: Vec<IrExpression> },
    Assignment(String, Box<IrExpression>),
    MemberAssignment(Box<IrExpression>, String, Box<IrExpression>),
    IndexAssignment(Box<IrExpression>, Box<IrExpression>, Box<IrExpression>),
}

/// A function literal.
#[derive(Debug)]
pub struct IrFunction {
    pub parameters: Vec<String>,
    pub body: Vec<IrStatement>,
    pub name: String,
}

/// A literal value. Object and array literals keep the expressions of their
/// parts, which are evaluated where the literal is.
#[derive(Debug)]
pub enum IrValue {
    Number(JsNumber),
    String(String),
    Boolean(bool),
    Null,
    Undefined,
    Object(Vec<(String, IrExpression)>),
    Array(Vec<IrExpression>),
    Function(IrFunction),
}

// ---------------------------------------------------------------------------
// Models
// ---------------------------------------------------------------------------

/// The model of an expression of the intermediate form.
pub enum IrExprModel {
    Literal(IrValueModel),
    Identifier(Seq<char>),
    This,
    BinaryOp(Box<IrExprModel>, Seq<char>, Box<IrExprModel>),
    UnaryOp(Seq<char>, Box<IrExprModel>),
    LogicalOp(Box<IrExprModel>, Seq<char>, Box<IrExprModel>),
    Call(Seq<char>, Seq<IrExprModel>),
    MemberAccess(Box<IrExprModel>, Seq<char>),
    IndexAccess(Box<IrExprModel>, Box<IrExprModel>),
    MethodCall(Box<IrExprModel>, Seq<char>, Seq<IrExprModel>),
    Assignment(Seq<char>, Box<IrExprModel>),
    MemberAssignment(Box<IrExprModel>, Seq<char>, Box<IrExprModel>),
    IndexAssignment(Box<IrExprModel>, Box<IrExprModel>, Box<IrExprModel>),
}

/// The model of a literal value of the intermediate form.
pub enum IrValueModel {
    Number(JsNumber),
    String(Seq<char>),
    Boolean(bool),
    Null,
    Undefined,
    Object(Seq<(Seq<char>, IrExprModel)>),
    Array(Seq<IrExprModel>),
    Function(IrFnModel),
}

/// The model of a function literal of the intermediate form.
pub struct IrFnModel {
    pub parameters: Seq<Seq<char>>,
    pub body: Seq<IrStmtModel>,
    pub name: Seq<char>,
}

/// The model of a statement of the intermediate form.
pub enum IrStmtModel {
    Expression(IrExprModel),
    Assignment(Seq<char>, IrExprModel),
    Declaration(IrDeclarationKind, Seq<char>, IrExprModel),
    MemberAssignment(IrExprModel, Seq<char>, IrExprModel),
    IndexAssignment(IrExprModel, IrExprModel, IrExprModel),
    Return(Option<IrExprModel>),
    IfStatement(IrExprModel, Seq<IrStmtModel>, Option<Seq<IrStmtModel>>),
    WhileLoop(IrExprModel, Seq<IrStmtModel>),
    DoWhileLoop(Seq<IrStmtModel>, IrExprModel),
    ForLoop(Option<Box<IrStmtModel>>, Option<IrExprModel>, Option<Box<IrStmtModel>>, Seq<IrStmtModel>),
    TryCatchFinally(Seq<IrStmtModel>, Option<Seq<char>>, Option<Seq<IrStmtModel>>, Option<Seq<IrStmtModel>>),
    Throw(IrExprModel),
}

pub open spec fn ir_expr_model(e: IrExpression) -> IrExprModel
    decreases e, 0nat,
{
    match e {
        IrExpression::Literal(v) => IrExprModel::Literal(ir_value_model(v)),
        IrExpression::Identifier(n) => IrExprModel::Identifier(n@),
        IrExpression::This => IrExprModel::This,
        IrExpression::BinaryOp(l, op, r) => IrExprModel::BinaryOp(Box::new(ir_expr_model(*l)), op@, Box::new(ir_expr_model(*r))),
        IrExpression::UnaryOp(op, x) => IrExprModel::UnaryOp(op@, Box::new(ir_expr_model(*x))),
        IrExpression::LogicalOp(l, op, r) => IrExprModel::LogicalOp(Box::new(ir_expr_model(*l)), op@, Box::new(ir_expr_model(*r))),
        IrExpression::Call(n, args) => IrExprModel::Call(n@, ir_exprs_model(args@)),
        IrExpression::MemberAccess(o, m) => IrExprModel::MemberAccess(Box::new(ir_expr_model(*o)), m@),
        IrExpression::IndexAccess(o, i) => IrExprModel::IndexAccess(Box::new(ir_expr_model(*o)), Box::new(ir_expr_model(*i))),
        IrExpression::MethodCall { object, method, args } => IrExprModel::MethodCall(
            Box::new(ir_expr_model(*object)),
            method@,
            ir_exprs_model(args@),
        ),
        IrExpression::Assignment(n, v) => IrExprModel::Assignment(n@, Box::new(ir_expr_model(*v))),
        IrExpression::MemberAssignment(o, m, v) => IrExprModel::MemberAssignment(Box::new(ir_expr_model(*o)), m@, Box::new(ir_expr_model(*v))),
        IrExpression::IndexAssignment(o, i, v) => IrExprModel::IndexAssignment(
            Box::new(ir_expr_model(*o)),
            Box::new(ir_expr_model(*i)),
            Box::new(ir_expr_model(*v)),
        ),
    }
}

pub open spec fn ir_exprs_model(s: Seq<IrExpression>) -> Seq<IrExprModel>
    decreases s, 1nat,
{
    if s.len() == 0 {
        Seq::empty()
    } else {
        ir_exprs_model(s.drop_last()).push(ir_expr_model(s.last()))
    }
}

pub open spec fn ir_props_model(s: Seq<(String, IrExpression)>) -> Seq<(Seq<char>, IrExprModel)>
    decreases s, 1nat,
{
    if s.len() == 0 {
        Seq::empty()
    } else {
        ir_props_model(s.drop_last()).push((s.last().0@, ir_expr_model(s.last().1)))
    }
}

pub open spec fn ir_value_model(v: IrValue) -> IrValueModel
    decreases v, 0nat,
{
    match v {
        IrValue::Number(n) => IrValueModel::Number(n),
        IrValue::String(s) => IrValueModel::String(s@),
        IrValue::Boolean(b) => IrValueModel::Boolean(b),
        IrValue::Null => IrValueModel::Null,
        IrValue::Undefined => IrValueModel::Undefined,
        IrValue::Object(props) => IrValueModel::Object(ir_props_model(props@)),
        IrValue::Array(items) => IrValueModel::Array(ir_exprs_model(items@)),
        IrValue::Function(f) => IrValueModel::Function(ir_fn_model(f)),
    }
}

pub open spec fn ir_fn_model(f: IrFunction) -> IrFnModel
    decreases f, 0nat,
{
    IrFnModel { parameters: strings_model(f.parameters@), body: ir_stmts_model(f.body@), name: f.name@ }
}

pub open spec fn ir_opt_stmts_model(o: Option<Vec<IrStatement>>) -> Option<Seq<IrStmtModel>>
    decreases o, 0nat,
{
    match o {
        Some(b) => Some(ir_stmts_model(b@)),
        None => None,
    }
}

pub open spec fn ir_stmt_model(s: IrStatement) -> IrStmtModel
    decreases s, 0nat,
{
    match s {
        IrStatement::Expression(x) => IrStmtModel::Expression(ir_expr_model(x)),
        IrStatement::Assignment(n, x) => IrStmtModel::Assignment(n@, ir_expr_model(x)),
        IrStatement::Declaration { kind, name, expr } => IrStmtModel::Declaration(kind, name@, ir_expr_model(expr)),
        IrStatement::MemberAssignment(o, m, v) => IrStmtModel::MemberAssignment(ir_expr_model(o), m@, ir_expr_model(v)),
        IrStatement::IndexAssignment(o, i, v) => IrStmtModel::IndexAssignment(ir_expr_model(o), ir_expr_model(i), ir_expr_model(v)),
        IrStatement::Return(x) => IrStmtModel::Return(match x {
            Some(e) => Some(ir_expr_model(e)),
            None => None,
        }),
        IrStatement::IfStatement(c, b, e) => IrStmtModel::IfStatement(ir_expr_model(c), ir_stmts_model(b@), ir_opt_stmts_model(e)),
        IrStatement::WhileLoop(c, b) => IrStmtModel::WhileLoop(ir_expr_model(c), ir_stmts_model(b@)),
        IrStatement::DoWhileLoop(b, c) => IrStmtModel::DoWhileLoop(ir_stmts_model(b@), ir_expr_model(c)),
        IrStatement::ForLoop { init, condition, increment, body } => IrStmtModel::ForLoop(
            match init {
                Some(i) => Some(Box::new(ir_stmt_model(*i))),
                None => None,
            },
            match condition {
                Some(c) => Some(ir_expr_model(c)),
                None => None,
            },
            match increment {
                Some(i) => Some(Box::new(ir_stmt_model(*i))),
                None => None,
            },
            ir_stmts_model(body@),
        ),
        IrStatement::TryCatchFinally { try_block, catch_param, catch_block, finally_block } => IrStmtModel::TryCatchFinally(
            ir_stmts_model(try_block@),
            match catch_param {
                Some(p) => Some(p@),
                None => None,
            },
            ir_opt_stmts_model(catch_block),
            ir_opt_stmts_model(finally_block),
        ),
        IrStatement::Throw(x) => IrStmtModel::Throw(ir_expr_model(x)),
    }
}

pub open spec fn ir_stmts_model(s: Seq<IrStatement>) -> Seq<IrStmtModel>
    decreases s, 1nat,
{
    if s.len() == 0 {
        Seq::empty()
    } else {
        ir_stmts_model(s.drop_last()).push(ir_stmt_model(s.last()))
    }
}

pub proof fn lemma_ir_exprs_model_push(s: Seq<IrExpression>, x: IrExpression)
    ensures
        ir_exprs_model(s.push(x)) == ir_exprs_model(s).push(ir_expr_model(x)),
{
    assert(s.push(x).drop_last() =~= s);
}

pub proof fn lemma_ir_props_model_push(s: Seq<(String, IrExpression)>, x: (String, IrExpression))
    ensures
        ir_props_model(s.push(x)) == ir_props_model(s).push((x.0@, ir_expr_model(x.1))),
{
    assert(s.push(x).drop_last() =~= s);
}

pub proof fn lemma_ir_stmts_model_push(s: Seq<IrStatement>, x: IrStatement)
    ensures
        ir_stmts_model(s.push(x)) == ir_stmts_model(s).push(ir_stmt_model(x)),
{
    assert(s.push(x).drop_last() =~= s);
}

} // verus!
