//! The statements and expressions that the runtime compiles.
use vstd::prelude::*;
use crate::value::{JsValue, JsDeclarationKind};

verus! {

/// A statement.
#[derive(Debug)]
pub enum JsStatement {
    Expression(JsExpression),
    Assignment(String, JsExpression),
    Declaration { kind: JsDeclarationKind, name: String, expr: JsExpression },
    MemberAssignment(JsExpression, String, JsExpression),
    IndexAssignment(JsExpression, JsExpression, JsExpression),
    Return(Option<JsExpression>),
    IfStatement(JsExpression, Vec<JsStatement>, Option<Vec<JsStatement>>),
    WhileLoop(JsExpression, Vec<JsStatement>),
    DoWhileLoop(Vec<JsStatement>, JsExpression),
    ForLoop {
        init: Option<Box<JsStatement>>,
        condition: Option<JsExpression>,
        increment: Option<Box<JsStatement>>,
        body: Vec<JsStatement>,
    },
    TryCatchFinally {
        try_block: Vec<JsStatement>,
        catch_param: Option<String>,
        catch_block: Option<Vec<JsStatement>>,
        finally_block: Option<Vec<JsStatement>>,
    },
    Throw(JsExpression),
}

/// An expression. Operators are given by their source text.
#[derive(Debug)]
pub enum JsExpression {
    Literal(JsValue),
    Identifier(String),
    This,
    BinaryOp(Box<JsExpression>, String, Box<JsExpression>),
    UnaryOp(String, Box<JsExpression>),
    LogicalOp(Box<JsExpression>, String, Box<JsExpression>),
    Call(String, Vec<JsExpression>),
    MemberAccess(Box<JsExpression>, String),
    IndexAccess(Box<JsExpression>, Box<JsExpression>),
    MethodCall { object: Box<JsExpression>, method: String, args: Vec<JsExpression> },
    ObjectLiteral(Vec<(String, JsExpression)>),
    ArrayLiteral(Vec<JsExpression>),
    /// `name = value`, whose value is the value assigned.
    Assignment(String, Box<JsExpression>),
    /// `target.member = value`, whose value is the value assigned.
    MemberAssignment(Box<JsExpression>, String, Box<JsExpression>),
    /// `target[index] = value`, whose value is the value assigned.
    IndexAssignment(Box<JsExpression>, Box<JsExpression>, Box<JsExpression>),
}

} // verus!
