//! The grammar of scripts, as a definition of what a recursive-descent read
//! of the tokens gives, with the usual precedence (assignment, `||`, `&&`,
//! comparison, additive, multiplicative, unary, postfix, primary).
//!
//! Each `p_*` function reads the tokens in `[pos, end)` and gives the tree it
//! read and the position after it. A read always moves forward; the checks of
//! that in the definitions keep them total and never fail on real reads.
use vstd::prelude::*;
use crate::number::{JsNumber, ONE_BITS};
use crate::lexer::{TokenModel, Delim, SyntaxError, Expectation};
use crate::syntax::{JsBinaryOp, JsUnaryOp, JsLogicalOp, ExprModel, LitModel, FnModel, StmtModel};

verus! {

// ---------------------------------------------------------------------------
// Reading single tokens
// ---------------------------------------------------------------------------

/// The words that cannot name a variable, a member or a parameter.
#[verifier::opaque]
pub open spec fn is_keyword(s: Seq<char>) -> bool {
    s == "_"@ || s == "as"@ || s == "async"@ || s == "await"@ || s == "break"@ || s == "const"@ || s == "continue"@
        || s == "crate"@ || s == "dyn"@ || s == "else"@ || s == "enum"@ || s == "extern"@ || s == "false"@
        || s == "fn"@ || s == "for"@ || s == "if"@ || s == "impl"@ || s == "in"@ || s == "let"@ || s == "loop"@
        || s == "match"@ || s == "mod"@ || s == "move"@ || s == "mut"@ || s == "pub"@ || s == "ref"@
        || s == "return"@ || s == "self"@ || s == "Self"@ || s == "static"@ || s == "struct"@ || s == "super"@
        || s == "trait"@ || s == "true"@ || s == "type"@ || s == "unsafe"@ || s == "use"@ || s == "where"@
        || s == "while"@ || s == "abstract"@ || s == "become"@ || s == "box"@ || s == "do"@ || s == "final"@
        || s == "macro"@ || s == "override"@ || s == "priv"@ || s == "typeof"@ || s == "unsized"@
        || s == "virtual"@ || s == "yield"@ || s == "try"@
}

/// The punctuation character `c` at `i`.
pub open spec fn punct_at(t: Seq<TokenModel>, i: nat, end: nat, c: char) -> bool {
    &&& i < end
    &&& t[i as int] is Punct
    &&& t[i as int]->Punct_0 == c
}

/// The two-character operator `c1 c2` at `i`: the first joined to the second.
pub open spec fn punct2_at(t: Seq<TokenModel>, i: nat, end: nat, c1: char, c2: char) -> bool {
    &&& i + 1 < end
    &&& t[i as int] is Punct
    &&& t[i as int]->Punct_0 == c1
    &&& t[i as int]->Punct_1
    &&& punct_at(t, i + 1, end, c2)
}

/// The word `w` at `i`.
pub open spec fn word_at(t: Seq<TokenModel>, i: nat, end: nat, w: Seq<char>) -> bool {
    &&& i < end
    &&& t[i as int] is Ident
    &&& t[i as int]->Ident_0 == w
}

/// The name at `i`: an identifier that is not a keyword.
pub open spec fn name_at(t: Seq<TokenModel>, i: nat, end: nat) -> Option<Seq<char>> {
    if i < end && t[i as int] is Ident && !is_keyword(t[i as int]->Ident_0) {
        Some(t[i as int]->Ident_0)
    } else {
        None
    }
}

/// The index of the closing token of the group that `d` opens at `i`.
pub open spec fn group_at(t: Seq<TokenModel>, i: nat, end: nat, d: Delim) -> Option<nat> {
    if i < end && t[i as int] is Open && t[i as int]->Open_0 == d && i < t[i as int]->Open_1 && t[i as int]->Open_1 < end {
        Some(t[i as int]->Open_1)
    } else {
        None
    }
}

/// A later position that is still in range.
pub open spec fn moved(p: nat, pos: nat, end: nat) -> bool {
    pos < p && p <= end
}

pub open spec fn at_or_after(p: nat, pos: nat, end: nat) -> bool {
    pos <= p && p <= end
}

pub open spec fn stuck(pos: nat) -> SyntaxError {
    SyntaxError::UnexpectedToken(pos as usize)
}

pub open spec fn one() -> ExprModel {
    ExprModel::Literal(LitModel::Number(JsNumber { bits: ONE_BITS }))
}

// ---------------------------------------------------------------------------
// Expressions
// ---------------------------------------------------------------------------

/// An expression that fills `[pos, end)` exactly.
#[verifier::opaque]
pub open spec fn p_expr_full(t: Seq<TokenModel>, pos: nat, end: nat) -> Result<ExprModel, SyntaxError>
    decreases end - pos, 31nat,
{
    match p_assign(t, pos, end) {
        Err(e) => Err(e),
        Ok((x, p)) => if p == end { Ok(x) } else { Err(stuck(p)) },
    }
}

/// Comma-separated expressions filling `[pos, end)`, after those read so far;
/// a trailing comma is allowed.
#[verifier::opaque]
pub open spec fn p_list_from(t: Seq<TokenModel>, acc: Seq<ExprModel>, pos: nat, end: nat) -> Result<Seq<ExprModel>, SyntaxError>
    decreases end - pos, 31nat,
{
    if pos >= end {
        Ok(acc)
    } else {
        match p_assign(t, pos, end) {
            Err(e) => Err(e),
            Ok((x, p)) => if !at_or_after(p, pos, end) {
                Err(stuck(pos))
            } else if p == end {
                Ok(acc.push(x))
            } else if punct_at(t, p, end, ',') {
                p_list_from(t, acc.push(x), p + 1, end)
            } else {
                Err(SyntaxError::ExpectedToken(p as usize, Expectation::Comma))
            },
        }
    }
}

/// The properties of an object literal filling `[pos, end)`.
#[verifier::opaque]
pub open spec fn p_props_from(t: Seq<TokenModel>, acc: Seq<(Seq<char>, ExprModel)>, pos: nat, end: nat) -> Result<Seq<(Seq<char>, ExprModel)>, SyntaxError>
    decreases end - pos, 31nat,
{
    if pos >= end {
        Ok(acc)
    } else {
        let entry = if t[pos as int] is Str {
            if punct_at(t, pos + 1, end, ':') {
                match p_assign(t, pos + 2, end) {
                    Err(e) => Err(e),
                    Ok((x, p)) => Ok((t[pos as int]->Str_0, x, p)),
                }
            } else {
                Err(SyntaxError::PropertyNeedsValue((pos + 1) as usize))
            }
        } else {
            match name_at(t, pos, end) {
                Some(k) => if punct_at(t, pos + 1, end, ':') {
                    match p_assign(t, pos + 2, end) {
                        Err(e) => Err(e),
                        Ok((x, p)) => Ok((k, x, p)),
                    }
                } else {
                    Ok((k, ExprModel::Identifier(k), pos + 1))
                },
                None => Err(SyntaxError::ExpectedPropertyKey(pos as usize)),
            }
        };
        match entry {
            Err(e) => Err(e),
            Ok((k, x, p)) => if !moved(p, pos, end) {
                Err(stuck(pos))
            } else if p == end {
                Ok(acc.push((k, x)))
            } else if punct_at(t, p, end, ',') {
                p_props_from(t, acc.push((k, x)), p + 1, end)
            } else {
                Err(SyntaxError::ExpectedToken(p as usize, Expectation::Comma))
            },
        }
    }
}

/// The names of a parameter list filling `[pos, end)`.
#[verifier::opaque]
pub open spec fn p_params_from(t: Seq<TokenModel>, acc: Seq<Seq<char>>, pos: nat, end: nat) -> Result<Seq<Seq<char>>, SyntaxError>
    decreases end - pos,
{
    if pos >= end {
        Ok(acc)
    } else {
        match name_at(t, pos, end) {
            None => Err(SyntaxError::ExpectedIdentifier(pos as usize)),
            Some(n) => if pos + 1 == end {
                Ok(acc.push(n))
            } else if punct_at(t, pos + 1, end, ',') {
                p_params_from(t, acc.push(n), pos + 2, end)
            } else {
                Err(SyntaxError::ExpectedToken((pos + 1) as usize, Expectation::Comma))
            },
        }
    }
}

/// `function name(params) { body }` at `pos`, the name optional.
#[verifier::opaque]
pub open spec fn p_function(t: Seq<TokenModel>, pos: nat, end: nat) -> Result<(FnModel, nat), SyntaxError>
    decreases end - pos, 15nat,
{
    let name = name_at(t, pos + 1, end);
    let q = if name is Some { pos + 2 } else { pos + 1 };
    match group_at(t, q, end, Delim::Paren) {
        None => Err(SyntaxError::ExpectedToken(q as usize, Expectation::Parenthesis)),
        Some(c) => match p_params_from(t, Seq::empty(), q + 1, c) {
            Err(e) => Err(e),
            Ok(params) => match p_block(t, c + 1, end) {
                Err(e) => Err(e),
                Ok((body, p)) => Ok((FnModel { name, params, body }, p)),
            },
        },
    }
}

/// A primary expression at `pos`.
#[verifier::opaque]
pub open spec fn p_primary(t: Seq<TokenModel>, pos: nat, end: nat) -> Result<(ExprModel, nat), SyntaxError>
    decreases end - pos, 16nat,
{
    if pos >= end {
        Err(SyntaxError::ExpectedExpression(pos as usize))
    } else if group_at(t, pos, end, Delim::Paren) is Some {
        let c = group_at(t, pos, end, Delim::Paren).unwrap();
        match p_expr_full(t, pos + 1, c) {
            Err(e) => Err(e),
            Ok(x) => Ok((x, c + 1)),
        }
    } else if word_at(t, pos, end, "this"@) {
        Ok((ExprModel::This, pos + 1))
    } else if word_at(t, pos, end, "function"@) {
        match p_function(t, pos, end) {
            Err(e) => Err(e),
            Ok((f, p)) => Ok((ExprModel::Literal(LitModel::Function(f)), p)),
        }
    } else if group_at(t, pos, end, Delim::Bracket) is Some {
        let c = group_at(t, pos, end, Delim::Bracket).unwrap();
        match p_list_from(t, Seq::empty(), pos + 1, c) {
            Err(e) => Err(e),
            Ok(items) => Ok((ExprModel::Array(items), c + 1)),
        }
    } else if group_at(t, pos, end, Delim::Brace) is Some {
        let c = group_at(t, pos, end, Delim::Brace).unwrap();
        match p_props_from(t, Seq::empty(), pos + 1, c) {
            Err(e) => Err(e),
            Ok(props) => Ok((ExprModel::Object(props), c + 1)),
        }
    } else {
        p_atom(t, pos, end)
    }
}

/// A literal, a name, or a call of a named function at `pos < end`.
#[verifier::opaque]
pub open spec fn p_atom(t: Seq<TokenModel>, pos: nat, end: nat) -> Result<(ExprModel, nat), SyntaxError>
    decreases end - pos, 15nat,
{
    if t[pos as int] is Str {
        Ok((ExprModel::Literal(LitModel::String(t[pos as int]->Str_0)), pos + 1))
    } else if t[pos as int] is Num {
        Ok((ExprModel::Literal(LitModel::Number(t[pos as int]->Num_0)), pos + 1))
    } else if word_at(t, pos, end, "true"@) {
        Ok((ExprModel::Literal(LitModel::Boolean(true)), pos + 1))
    } else if word_at(t, pos, end, "false"@) {
        Ok((ExprModel::Literal(LitModel::Boolean(false)), pos + 1))
    } else if name_at(t, pos, end) is Some {
        let n = name_at(t, pos, end).unwrap();
        if group_at(t, pos + 1, end, Delim::Paren) is Some {
            let c = group_at(t, pos + 1, end, Delim::Paren).unwrap();
            match p_list_from(t, Seq::empty(), pos + 2, c) {
                Err(e) => Err(e),
                Ok(args) => Ok((ExprModel::Call(n, args), c + 1)),
            }
        } else if n == "null"@ {
            Ok((ExprModel::Literal(LitModel::Null), pos + 1))
        } else if n == "undefined"@ {
            Ok((ExprModel::Literal(LitModel::Undefined), pos + 1))
        } else {
            Ok((ExprModel::Identifier(n), pos + 1))
        }
    } else {
        Err(SyntaxError::ExpectedExpression(pos as usize))
    }
}

/// `x++` or `x--` written out as an assignment to `x`.
pub open spec fn update_of(x: ExprModel, op: JsBinaryOp) -> Option<ExprModel> {
    match x {
        ExprModel::Identifier(n) => Some(ExprModel::Assignment(
            n,
            Box::new(ExprModel::BinaryOp(Box::new(ExprModel::Identifier(n)), op, Box::new(one()))),
        )),
        ExprModel::MemberAccess(o, m) => Some(ExprModel::MemberAssignment(
            o,
            m,
            Box::new(ExprModel::BinaryOp(Box::new(ExprModel::MemberAccess(o, m)), op, Box::new(one()))),
        )),
        ExprModel::IndexAccess(o, i) => Some(ExprModel::IndexAssignment(
            o,
            i,
            Box::new(ExprModel::BinaryOp(Box::new(ExprModel::IndexAccess(o, i)), op, Box::new(one()))),
        )),
        _ => None,
    }
}

/// Whether a postfix operator (`.`, `[`, `++`, `--`) stands at `pos`.
pub open spec fn postfix_at(t: Seq<TokenModel>, pos: nat, end: nat) -> bool {
    ||| punct_at(t, pos, end, '.')
    ||| group_at(t, pos, end, Delim::Bracket) is Some
    ||| (punct_at(t, pos, end, '+') && punct_at(t, pos + 1, end, '+'))
    ||| (punct_at(t, pos, end, '-') && punct_at(t, pos + 1, end, '-'))
}

/// One postfix operator applied to `x`, where `postfix_at` holds.
#[verifier::opaque]
pub open spec fn p_postfix_step(t: Seq<TokenModel>, x: ExprModel, pos: nat, end: nat) -> Result<(ExprModel, nat), SyntaxError>
    decreases end - pos, 16nat,
{
    if punct_at(t, pos, end, '.') {
        match name_at(t, pos + 1, end) {
            None => Err(SyntaxError::ExpectedIdentifier((pos + 1) as usize)),
            Some(m) => if group_at(t, pos + 2, end, Delim::Paren) is Some {
                let c = group_at(t, pos + 2, end, Delim::Paren).unwrap();
                match p_list_from(t, Seq::empty(), pos + 3, c) {
                    Err(e) => Err(e),
                    Ok(args) => Ok((ExprModel::MethodCall(Box::new(x), m, args), c + 1)),
                }
            } else {
                Ok((ExprModel::MemberAccess(Box::new(x), m), pos + 2))
            },
        }
    } else if group_at(t, pos, end, Delim::Bracket) is Some {
        let c = group_at(t, pos, end, Delim::Bracket).unwrap();
        match p_expr_full(t, pos + 1, c) {
            Err(e) => Err(e),
            Ok(i) => Ok((ExprModel::IndexAccess(Box::new(x), Box::new(i)), c + 1)),
        }
    } else {
        let op = if punct_at(t, pos, end, '+') { JsBinaryOp::Add } else { JsBinaryOp::Subtract };
        match update_of(x, op) {
            Some(u) => Ok((u, pos + 2)),
            None => Err(SyntaxError::InvalidUpdateTarget((pos + 2) as usize)),
        }
    }
}

/// Member access, method calls, indexing and `++`/`--` after `x`, from `pos`.
#[verifier::opaque]
pub open spec fn p_postfix_rest(t: Seq<TokenModel>, x: ExprModel, pos: nat, end: nat) -> Result<(ExprModel, nat), SyntaxError>
    decreases end - pos, 17nat,
{
    if postfix_at(t, pos, end) {
        match p_postfix_step(t, x, pos, end) {
            Err(e) => Err(e),
            Ok((y, p)) => if moved(p, pos, end) { p_postfix_rest(t, y, p, end) } else { Err(stuck(pos)) },
        }
    } else {
        Ok((x, pos))
    }
}

#[verifier::opaque]
pub open spec fn p_postfix(t: Seq<TokenModel>, pos: nat, end: nat) -> Result<(ExprModel, nat), SyntaxError>
    decreases end - pos, 18nat,
{
    match p_primary(t, pos, end) {
        Err(e) => Err(e),
        Ok((x, p)) => if at_or_after(p, pos, end) { p_postfix_rest(t, x, p, end) } else { Err(stuck(pos)) },
    }
}

#[verifier::opaque]
pub open spec fn p_unary(t: Seq<TokenModel>, pos: nat, end: nat) -> Result<(ExprModel, nat), SyntaxError>
    decreases end - pos, 19nat,
{
    if punct_at(t, pos, end, '-') || punct_at(t, pos, end, '!') {
        let op = if punct_at(t, pos, end, '-') { JsUnaryOp::Negate } else { JsUnaryOp::Not };
        match p_unary(t, pos + 1, end) {
            Err(e) => Err(e),
            Ok((x, p)) => Ok((ExprModel::UnaryOp(op, Box::new(x)), p)),
        }
    } else {
        p_postfix(t, pos, end)
    }
}

/// The multiplicative operator at `pos`, unless it is a compound assignment.
pub open spec fn mul_op_at(t: Seq<TokenModel>, pos: nat, end: nat) -> Option<JsBinaryOp> {
    if punct_at(t, pos, end, '*') && !punct2_at(t, pos, end, '*', '=') {
        Some(JsBinaryOp::Multiply)
    } else if punct_at(t, pos, end, '/') && !punct2_at(t, pos, end, '/', '=') {
        Some(JsBinaryOp::Divide)
    } else if punct_at(t, pos, end, '%') && !punct2_at(t, pos, end, '%', '=') {
        Some(JsBinaryOp::Remainder)
    } else {
        None
    }
}

#[verifier::opaque]
pub open spec fn p_mul_rest(t: Seq<TokenModel>, x: ExprModel, pos: nat, end: nat) -> Result<(ExprModel, nat), SyntaxError>
    decreases end - pos, 20nat,
{
    match mul_op_at(t, pos, end) {
        None => Ok((x, pos)),
        Some(op) => match p_unary(t, pos + 1, end) {
            Err(e) => Err(e),
            Ok((r, p)) => if moved(p, pos, end) {
                p_mul_rest(t, ExprModel::BinaryOp(Box::new(x), op, Box::new(r)), p, end)
            } else {
                Err(stuck(pos))
            },
        },
    }
}

#[verifier::opaque]
pub open spec fn p_mul(t: Seq<TokenModel>, pos: nat, end: nat) -> Result<(ExprModel, nat), SyntaxError>
    decreases end - pos, 21nat,
{
    match p_unary(t, pos, end) {
        Err(e) => Err(e),
        Ok((x, p)) => if at_or_after(p, pos, end) { p_mul_rest(t, x, p, end) } else { Err(stuck(pos)) },
    }
}

/// The additive operator at `pos`, unless it is a compound assignment.
pub open spec fn add_op_at(t: Seq<TokenModel>, pos: nat, end: nat) -> Option<JsBinaryOp> {
    if punct_at(t, pos, end, '+') && !punct2_at(t, pos, end, '+', '=') {
        Some(JsBinaryOp::Add)
    } else if punct_at(t, pos, end, '-') && !punct2_at(t, pos, end, '-', '=') {
        Some(JsBinaryOp::Subtract)
    } else {
        None
    }
}

#[verifier::opaque]
pub open spec fn p_add_rest(t: Seq<TokenModel>, x: ExprModel, pos: nat, end: nat) -> Result<(ExprModel, nat), SyntaxError>
    decreases end - pos, 22nat,
{
    match add_op_at(t, pos, end) {
        None => Ok((x, pos)),
        Some(op) => match p_mul(t, pos + 1, end) {
            Err(e) => Err(e),
            Ok((r, p)) => if moved(p, pos, end) {
                p_add_rest(t, ExprModel::BinaryOp(Box::new(x), op, Box::new(r)), p, end)
            } else {
                Err(stuck(pos))
            },
        },
    }
}

#[verifier::opaque]
pub open spec fn p_add(t: Seq<TokenModel>, pos: nat, end: nat) -> Result<(ExprModel, nat), SyntaxError>
    decreases end - pos, 23nat,
{
    match p_mul(t, pos, end) {
        Err(e) => Err(e),
        Ok((x, p)) => if at_or_after(p, pos, end) { p_add_rest(t, x, p, end) } else { Err(stuck(pos)) },
    }
}

/// The comparison operator at `pos` and its length in tokens.
pub open spec fn relation_op_at(t: Seq<TokenModel>, pos: nat, end: nat) -> Option<(JsBinaryOp, nat)> {
    if punct2_at(t, pos, end, '=', '=') {
        if punct_at(t, pos + 2, end, '=') { Some((JsBinaryOp::StrictEqual, 3)) } else { Some((JsBinaryOp::Equal, 2)) }
    } else if punct2_at(t, pos, end, '!', '=') {
        if punct_at(t, pos + 2, end, '=') { Some((JsBinaryOp::StrictNotEqual, 3)) } else { Some((JsBinaryOp::NotEqual, 2)) }
    } else if punct2_at(t, pos, end, '<', '=') {
        Some((JsBinaryOp::LessThanOrEqual, 2))
    } else if punct2_at(t, pos, end, '>', '=') {
        Some((JsBinaryOp::GreaterThanOrEqual, 2))
    } else if punct_at(t, pos, end, '<') {
        Some((JsBinaryOp::LessThan, 1))
    } else if punct_at(t, pos, end, '>') {
        Some((JsBinaryOp::GreaterThan, 1))
    } else {
        None
    }
}

#[verifier::opaque]
pub open spec fn p_relation_rest(t: Seq<TokenModel>, x: ExprModel, pos: nat, end: nat) -> Result<(ExprModel, nat), SyntaxError>
    decreases end - pos, 24nat,
{
    match relation_op_at(t, pos, end) {
        None => Ok((x, pos)),
        Some((op, k)) => match p_add(t, pos + k, end) {
            Err(e) => Err(e),
            Ok((r, p)) => if moved(p, pos, end) {
                p_relation_rest(t, ExprModel::BinaryOp(Box::new(x), op, Box::new(r)), p, end)
            } else {
                Err(stuck(pos))
            },
        },
    }
}

#[verifier::opaque]
pub open spec fn p_relation(t: Seq<TokenModel>, pos: nat, end: nat) -> Result<(ExprModel, nat), SyntaxError>
    decreases end - pos, 25nat,
{
    match p_add(t, pos, end) {
        Err(e) => Err(e),
        Ok((x, p)) => if at_or_after(p, pos, end) { p_relation_rest(t, x, p, end) } else { Err(stuck(pos)) },
    }
}

#[verifier::opaque]
pub open spec fn p_and_rest(t: Seq<TokenModel>, x: ExprModel, pos: nat, end: nat) -> Result<(ExprModel, nat), SyntaxError>
    decreases end - pos, 26nat,
{
    if punct2_at(t, pos, end, '&', '&') {
        match p_relation(t, pos + 2, end) {
            Err(e) => Err(e),
            Ok((r, p)) => if moved(p, pos, end) {
                p_and_rest(t, ExprModel::LogicalOp(Box::new(x), JsLogicalOp::And, Box::new(r)), p, end)
            } else {
                Err(stuck(pos))
            },
        }
    } else {
        Ok((x, pos))
    }
}

#[verifier::opaque]
pub open spec fn p_and(t: Seq<TokenModel>, pos: nat, end: nat) -> Result<(ExprModel, nat), SyntaxError>
    decreases end - pos, 27nat,
{
    match p_relation(t, pos, end) {
        Err(e) => Err(e),
        Ok((x, p)) => if at_or_after(p, pos, end) { p_and_rest(t, x, p, end) } else { Err(stuck(pos)) },
    }
}

#[verifier::opaque]
pub open spec fn p_or_rest(t: Seq<TokenModel>, x: ExprModel, pos: nat, end: nat) -> Result<(ExprModel, nat), SyntaxError>
    decreases end - pos, 28nat,
{
    if punct2_at(t, pos, end, '|', '|') {
        match p_and(t, pos + 2, end) {
            Err(e) => Err(e),
            Ok((r, p)) => if moved(p, pos, end) {
                p_or_rest(t, ExprModel::LogicalOp(Box::new(x), JsLogicalOp::Or, Box::new(r)), p, end)
            } else {
                Err(stuck(pos))
            },
        }
    } else {
        Ok((x, pos))
    }
}

#[verifier::opaque]
pub open spec fn p_or(t: Seq<TokenModel>, pos: nat, end: nat) -> Result<(ExprModel, nat), SyntaxError>
    decreases end - pos, 29nat,
{
    match p_and(t, pos, end) {
        Err(e) => Err(e),
        Ok((x, p)) => if at_or_after(p, pos, end) { p_or_rest(t, x, p, end) } else { Err(stuck(pos)) },
    }
}

/// The compound assignment operator at `pos`.
pub open spec fn compound_op_at(t: Seq<TokenModel>, pos: nat, end: nat) -> Option<JsBinaryOp> {
    if punct2_at(t, pos, end, '+', '=') {
        Some(JsBinaryOp::Add)
    } else if punct2_at(t, pos, end, '-', '=') {
        Some(JsBinaryOp::Subtract)
    } else if punct2_at(t, pos, end, '*', '=') {
        Some(JsBinaryOp::Multiply)
    } else if punct2_at(t, pos, end, '/', '=') {
        Some(JsBinaryOp::Divide)
    } else if punct2_at(t, pos, end, '%', '=') {
        Some(JsBinaryOp::Remainder)
    } else {
        None
    }
}

/// An assignment of `value` to `target`; a target that cannot be assigned
/// stays as it is and the value is dropped.
pub open spec fn assign_to(target: ExprModel, value: ExprModel) -> ExprModel {
    match target {
        ExprModel::Identifier(n) => ExprModel::Assignment(n, Box::new(value)),
        ExprModel::MemberAccess(o, m) => ExprModel::MemberAssignment(o, m, Box::new(value)),
        ExprModel::IndexAccess(o, i) => ExprModel::IndexAssignment(o, i, Box::new(value)),
        _ => target,
    }
}

/// An expression at `pos`: assignments bind loosest and to the right.
#[verifier::opaque]
pub open spec fn p_assign(t: Seq<TokenModel>, pos: nat, end: nat) -> Result<(ExprModel, nat), SyntaxError>
    decreases end - pos, 30nat,
{
    match p_or(t, pos, end) {
        Err(e) => Err(e),
        Ok((x, p)) => if !at_or_after(p, pos, end) {
            Err(stuck(pos))
        } else if punct_at(t, p, end, '=') && !punct2_at(t, p, end, '=', '=') {
            match p_assign(t, p + 1, end) {
                Err(e) => Err(e),
                Ok((v, q)) => Ok((assign_to(x, v), q)),
            }
        } else if compound_op_at(t, p, end) is Some {
            let op = compound_op_at(t, p, end).unwrap();
            match p_assign(t, p + 2, end) {
                Err(e) => Err(e),
                Ok((v, q)) => Ok((assign_to(x, ExprModel::BinaryOp(Box::new(x), op, Box::new(v))), q)),
            }
        } else {
            Ok((x, p))
        }
    }
}

// ---------------------------------------------------------------------------
// Statements
// ---------------------------------------------------------------------------

/// `{ statements }` at `pos`.
#[verifier::opaque]
pub open spec fn p_block(t: Seq<TokenModel>, pos: nat, end: nat) -> Result<(Seq<StmtModel>, nat), SyntaxError>
    decreases end - pos, 42nat,
{
    match group_at(t, pos, end, Delim::Brace) {
        None => Err(SyntaxError::ExpectedToken(pos as usize, Expectation::Brace)),
        Some(c) => match p_stmts_from(t, Seq::empty(), pos + 1, c) {
            Err(e) => Err(e),
            Ok(s) => Ok((s, c + 1)),
        },
    }
}

/// Statements filling `[pos, end)`, after those read so far.
#[verifier::opaque]
pub open spec fn p_stmts_from(t: Seq<TokenModel>, acc: Seq<StmtModel>, pos: nat, end: nat) -> Result<Seq<StmtModel>, SyntaxError>
    decreases end - pos, 41nat,
{
    if pos >= end {
        Ok(acc)
    } else {
        match p_stmt(t, pos, end) {
            Err(e) => Err(e),
            Ok((s, p)) => if moved(p, pos, end) { p_stmts_from(t, acc.push(s), p, end) } else { Err(stuck(pos)) },
        }
    }
}

/// `;` at `p` after a statement.
pub open spec fn semi(t: Seq<TokenModel>, s: StmtModel, p: nat, end: nat) -> Result<(StmtModel, nat), SyntaxError> {
    if punct_at(t, p, end, ';') {
        Ok((s, p + 1))
    } else {
        Err(SyntaxError::ExpectedToken(p as usize, Expectation::Semicolon))
    }
}

/// `( expression )` at `pos`: the expression and the position after the group.
#[verifier::opaque]
pub open spec fn p_condition(t: Seq<TokenModel>, pos: nat, end: nat) -> Result<(ExprModel, nat), SyntaxError>
    decreases end - pos, 39nat,
{
    match group_at(t, pos, end, Delim::Paren) {
        None => Err(SyntaxError::ExpectedToken(pos as usize, Expectation::Parenthesis)),
        Some(c) => match p_expr_full(t, pos + 1, c) {
            Err(e) => Err(e),
            Ok(x) => Ok((x, c + 1)),
        },
    }
}

/// `let`/`const` at `pos`.
#[verifier::opaque]
pub open spec fn p_declaration(t: Seq<TokenModel>, pos: nat, end: nat, is_const: bool) -> Result<(StmtModel, nat), SyntaxError>
    decreases end - pos, 39nat,
{
    match name_at(t, pos + 1, end) {
        None => Err(SyntaxError::ExpectedIdentifier((pos + 1) as usize)),
        Some(n) => if !punct_at(t, pos + 2, end, '=') {
            Err(SyntaxError::ExpectedToken((pos + 2) as usize, Expectation::Assign))
        } else {
            match p_assign(t, pos + 3, end) {
                Err(e) => Err(e),
                Ok((x, p)) => semi(t, if is_const { StmtModel::ConstDecl(n, x) } else { StmtModel::LetDecl(n, x) }, p, end),
            }
        },
    }
}

/// The `catch` clause at `p1`, if one stands there: its parameter, its body
/// and the position after it.
#[verifier::opaque]
pub open spec fn p_catch(t: Seq<TokenModel>, p1: nat, end: nat) -> Result<(Option<Seq<char>>, Option<Seq<StmtModel>>, nat), SyntaxError>
    decreases end - p1, 39nat,
{
    if word_at(t, p1, end, "catch"@) {
        let param = match group_at(t, p1 + 1, end, Delim::Paren) {
            Some(c) => if c == p1 + 2 {
                Ok((None, c + 1))
            } else {
                match name_at(t, p1 + 2, end) {
                    None => Err(SyntaxError::ExpectedIdentifier((p1 + 2) as usize)),
                    Some(n) => if c == p1 + 3 { Ok((Some(n), c + 1)) } else { Err(stuck(p1 + 3)) },
                }
            },
            None => Ok((None, p1 + 1)),
        };
        match param {
            Err(e) => Err(e),
            Ok((name, q)) => if moved(q, p1, end) {
                match p_block(t, q, end) {
                    Err(e) => Err(e),
                    Ok((b, p2)) => Ok((name, Some(b), p2)),
                }
            } else {
                Err(stuck(p1))
            },
        }
    } else {
        Ok((None, None, p1))
    }
}

/// The `finally` clause at `p2`, if one stands there.
#[verifier::opaque]
pub open spec fn p_finally(t: Seq<TokenModel>, p2: nat, end: nat) -> Result<(Option<Seq<StmtModel>>, nat), SyntaxError>
    decreases end - p2, 39nat,
{
    if word_at(t, p2, end, "finally"@) {
        match p_block(t, p2 + 1, end) {
            Err(e) => Err(e),
            Ok((b, p3)) => Ok((Some(b), p3)),
        }
    } else {
        Ok((None, p2))
    }
}

/// `try` at `pos`, with a `catch` clause, a `finally` clause or both.
#[verifier::opaque]
pub open spec fn p_try(t: Seq<TokenModel>, pos: nat, end: nat) -> Result<(StmtModel, nat), SyntaxError>
    decreases end - pos, 39nat,
{
    if pos >= end {
        Err(stuck(pos))
    } else {
        match p_block(t, pos + 1, end) {
            Err(e) => Err(e),
            Ok((body, p1)) => if !moved(p1, pos, end) {
                Err(stuck(pos))
            } else {
                match p_catch(t, p1, end) {
                    Err(e) => Err(e),
                    Ok((name, cb, p2)) => if !at_or_after(p2, p1, end) {
                        Err(stuck(p1))
                    } else {
                        match p_finally(t, p2, end) {
                            Err(e) => Err(e),
                            Ok((fb, p3)) => if cb is None && fb is None {
                                Err(SyntaxError::TryNeedsHandler(p3 as usize))
                            } else {
                                Ok((StmtModel::TryCatchFinally(body, name, cb, fb), p3))
                            },
                        }
                    },
                }
            },
        }
    }
}

/// `for ( init ; condition ; increment ) { body }` at `pos`.
#[verifier::opaque]
pub open spec fn p_for(t: Seq<TokenModel>, pos: nat, end: nat) -> Result<(StmtModel, nat), SyntaxError>
    decreases end - pos, 39nat,
{
    match group_at(t, pos + 1, end, Delim::Paren) {
        None => Err(SyntaxError::ExpectedToken((pos + 1) as usize, Expectation::Parenthesis)),
        Some(c) => {
            let q = pos + 2;
            let init = if punct_at(t, q, c, ';') {
                Ok((None, q))
            } else {
                match p_stmt(t, q, c) {
                    Err(e) => Err(e),
                    Ok((s, p)) => Ok((Some(s), p)),
                }
            };
            match init {
                Err(e) => Err(e),
                Ok((init, q1)) => if !at_or_after(q1, q, c) {
                    Err(stuck(q))
                } else {
                    let sep = if !punct_at(t, q1, c, ';') {
                        if init matches Some(StmtModel::Expression(_)) {
                            Err(SyntaxError::ExpectedToken(q1 as usize, Expectation::Semicolon))
                        } else {
                            Ok(q1)
                        }
                    } else {
                        Ok(q1 + 1)
                    };
                    match sep {
                        Err(e) => Err(e),
                        Ok(q2) => {
                            let cond = if punct_at(t, q2, c, ';') {
                                Ok((None, q2))
                            } else {
                                match p_assign(t, q2, c) {
                                    Err(e) => Err(e),
                                    Ok((x, p)) => Ok((Some(x), p)),
                                }
                            };
                            match cond {
                                Err(e) => Err(e),
                                Ok((cond, q3)) => if !at_or_after(q3, q2, c) {
                                    Err(stuck(q2))
                                } else if !punct_at(t, q3, c, ';') {
                                    Err(SyntaxError::ExpectedToken(q3 as usize, Expectation::Semicolon))
                                } else {
                                    let incr = if q3 + 1 >= c {
                                        Ok((None, c))
                                    } else {
                                        match p_assign(t, q3 + 1, c) {
                                            Err(e) => Err(e),
                                            Ok((x, p)) => Ok((Some(x), p)),
                                        }
                                    };
                                    match incr {
                                        Err(e) => Err(e),
                                        Ok((incr, q5)) => if q5 != c {
                                            Err(stuck(q5))
                                        } else {
                                            match p_block(t, c + 1, end) {
                                                Err(e) => Err(e),
                                                Ok((body, p)) => Ok((StmtModel::ForLoop(
                                                    match init {
                                                        Some(s) => Some(Box::new(s)),
                                                        None => None,
                                                    },
                                                    cond,
                                                    match incr {
                                                        Some(x) => Some(Box::new(x)),
                                                        None => None,
                                                    },
                                                    body,
                                                ), p)),
                                            }
                                        },
                                    }
                                },
                            }
                        },
                    }
                },
            }
        },
    }
}

/// `if ( condition ) { body }` at `pos`, with an optional `else` block or
/// `else if`.
#[verifier::opaque]
pub open spec fn p_if(t: Seq<TokenModel>, pos: nat, end: nat) -> Result<(StmtModel, nat), SyntaxError>
    decreases end - pos, 39nat,
{
    if pos >= end {
        Err(stuck(pos))
    } else {
        match p_condition(t, pos + 1, end) {
            Err(e) => Err(e),
            Ok((c, p1)) => if !moved(p1, pos, end) {
                Err(stuck(pos))
            } else {
                match p_block(t, p1, end) {
                    Err(e) => Err(e),
                    Ok((body, p2)) => if !at_or_after(p2, p1, end) {
                        Err(stuck(p1))
                    } else if word_at(t, p2, end, "else"@) {
                        if word_at(t, p2 + 1, end, "if"@) {
                            match p_stmt(t, p2 + 1, end) {
                                Err(e) => Err(e),
                                Ok((s, p3)) => Ok((StmtModel::IfStatement(c, body, Some(seq![s])), p3)),
                            }
                        } else {
                            match p_block(t, p2 + 1, end) {
                                Err(e) => Err(e),
                                Ok((b, p3)) => Ok((StmtModel::IfStatement(c, body, Some(b)), p3)),
                            }
                        }
                    } else {
                        Ok((StmtModel::IfStatement(c, body, None), p2))
                    },
                }
            },
        }
    }
}

/// `while ( condition ) { body }` at `pos`.
#[verifier::opaque]
pub open spec fn p_while(t: Seq<TokenModel>, pos: nat, end: nat) -> Result<(StmtModel, nat), SyntaxError>
    decreases end - pos, 39nat,
{
    if pos >= end {
        Err(stuck(pos))
    } else {
        match p_condition(t, pos + 1, end) {
            Err(e) => Err(e),
            Ok((c, p1)) => if !moved(p1, pos, end) {
                Err(stuck(pos))
            } else {
                match p_block(t, p1, end) {
                    Err(e) => Err(e),
                    Ok((body, p2)) => Ok((StmtModel::WhileLoop(c, body), p2)),
                }
            },
        }
    }
}

/// `do { body } while ( condition );` at `pos`.
#[verifier::opaque]
pub open spec fn p_do(t: Seq<TokenModel>, pos: nat, end: nat) -> Result<(StmtModel, nat), SyntaxError>
    decreases end - pos, 39nat,
{
    if pos >= end {
        Err(stuck(pos))
    } else {
        match p_block(t, pos + 1, end) {
            Err(e) => Err(e),
            Ok((body, p1)) => if !at_or_after(p1, pos, end) {
                Err(stuck(pos))
            } else if !word_at(t, p1, end, "while"@) {
                Err(SyntaxError::ExpectedToken(p1 as usize, Expectation::While))
            } else {
                match p_condition(t, p1 + 1, end) {
                    Err(e) => Err(e),
                    Ok((c, p2)) => semi(t, StmtModel::DoWhileLoop(body, c), p2, end),
                }
            },
        }
    }
}

/// `return;` or `return value;` at `pos`.
#[verifier::opaque]
pub open spec fn p_return(t: Seq<TokenModel>, pos: nat, end: nat) -> Result<(StmtModel, nat), SyntaxError>
    decreases end - pos, 39nat,
{
    if pos >= end {
        Err(stuck(pos))
    } else if punct_at(t, pos + 1, end, ';') {
        Ok((StmtModel::Return(None), pos + 2))
    } else {
        match p_assign(t, pos + 1, end) {
            Err(e) => Err(e),
            Ok((x, p)) => semi(t, StmtModel::Return(Some(x)), p, end),
        }
    }
}

/// A statement at `pos`.
#[verifier::opaque]
pub open spec fn p_stmt(t: Seq<TokenModel>, pos: nat, end: nat) -> Result<(StmtModel, nat), SyntaxError>
    decreases end - pos, 40nat,
{
    if word_at(t, pos, end, "let"@) {
        p_declaration(t, pos, end, false)
    } else if word_at(t, pos, end, "const"@) || word_at(t, pos, end, "_const"@) {
        p_declaration(t, pos, end, true)
    } else if word_at(t, pos, end, "if"@) {
        p_if(t, pos, end)
    } else if word_at(t, pos, end, "try"@) {
        p_try(t, pos, end)
    } else if word_at(t, pos, end, "throw"@) {
        match p_assign(t, pos + 1, end) {
            Err(e) => Err(e),
            Ok((x, p)) => semi(t, StmtModel::Throw(x), p, end),
        }
    } else if word_at(t, pos, end, "function"@) {
        match p_function(t, pos, end) {
            Err(e) => Err(e),
            Ok((f, p)) => Ok((StmtModel::FunctionDecl(f), p)),
        }
    } else if word_at(t, pos, end, "for"@) {
        p_for(t, pos, end)
    } else if word_at(t, pos, end, "while"@) {
        p_while(t, pos, end)
    } else if word_at(t, pos, end, "do"@) {
        p_do(t, pos, end)
    } else if word_at(t, pos, end, "return"@) {
        p_return(t, pos, end)
    } else {
        match p_assign(t, pos, end) {
            Err(e) => Err(e),
            Ok((x, p)) => semi(t, StmtModel::Expression(x), p, end),
        }
    }
}

/// A whole script.
pub open spec fn p_script(t: Seq<TokenModel>) -> Result<Seq<StmtModel>, SyntaxError> {
    p_stmts_from(t, Seq::empty(), 0, t.len())
}

} // verus!
