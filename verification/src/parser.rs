//! The parser: from tokens to the syntax tree of a script, by recursive
//! descent. Each `parse_*` function gives exactly what the `p_*` definition of
//! the grammar with the same name gives, as a tree, a position or an error.
use vstd::prelude::*;
use crate::number::{JsNumber, ONE_BITS};
use crate::lexer::{Token, Delim, SyntaxError, Expectation, tokens_model};
use crate::syntax::{
    JsExpression, JsStatement, JsLiteral, JsBinaryOp, JsUnaryOp, JsLogicalOp, JsBlock, JsFunctionDecl, JsWhileLoop,
    JsDoWhileLoop, JsForLoop, JsObject, JsProperty, JsScript, ExprModel, LitModel, StmtModel, expr_model, lit_model,
    exprs_model, properties_model, stmt_model, stmts_model, fn_model, names_model, opt_block_model,
    lemma_exprs_model_push, lemma_properties_model_push, lemma_stmts_model_push,
};
use crate::grammar::{
    is_keyword, punct_at, punct2_at, word_at, name_at, group_at, one, p_expr_full,
    p_list_from, p_props_from, p_params_from, p_function, p_primary, p_atom, update_of, postfix_at, p_postfix_step,
    p_postfix_rest, p_postfix, p_unary, mul_op_at, p_mul_rest, p_mul, add_op_at, p_add_rest, p_add, relation_op_at,
    p_relation_rest, p_relation, p_and_rest, p_and, p_or_rest, p_or, compound_op_at, assign_to, p_assign, p_block,
    p_stmts_from, semi, p_condition, p_declaration, p_catch, p_finally, p_try, p_for, p_if, p_while, p_do, p_return,
    p_stmt, p_script,
};

verus! {

pub open spec fn agrees_expr(out: Result<(ExprModel, nat), SyntaxError>, r: Result<(JsExpression, usize), SyntaxError>) -> bool {
    match out {
        Ok((m, p)) => r matches Ok((x, q)) && expr_model(x) == m && q as nat == p,
        Err(e) => r matches Err(x) && x == e,
    }
}

pub open spec fn agrees_stmt(out: Result<(StmtModel, nat), SyntaxError>, r: Result<(JsStatement, usize), SyntaxError>) -> bool {
    match out {
        Ok((m, p)) => r matches Ok((x, q)) && stmt_model(x) == m && q as nat == p,
        Err(e) => r matches Err(x) && x == e,
    }
}

pub open spec fn agrees_block(out: Result<(Seq<StmtModel>, nat), SyntaxError>, r: Result<(Vec<JsStatement>, usize), SyntaxError>) -> bool {
    match out {
        Ok((m, p)) => r matches Ok((x, q)) && stmts_model(x@) == m && q as nat == p,
        Err(e) => r matches Err(x) && x == e,
    }
}

/// Whether two texts are the same.
pub fn same_text(a: &str, b: &str) -> (r: bool)
    ensures
        r == (a@ == b@),
{
    let n = a.unicode_len();
    if n != b.unicode_len() {
        return false;
    }
    let mut i: usize = 0;
    while i < n
        invariant
            n == a@.len(),
            n == b@.len(),
            i <= n,
            forall|k: int| 0 <= k < i ==> a@[k] == b@[k],
        decreases n - i,
    {
        if a.get_char(i) != b.get_char(i) {
            return false;
        }
        i += 1;
    }
    assert(a@ =~= b@);
    true
}

fn keyword(s: &str) -> (r: bool)
    ensures
        r == is_keyword(s@),
{
    reveal(is_keyword);
    same_text(s, "_") || same_text(s, "as") || same_text(s, "async") || same_text(s, "await") || same_text(s, "break")
        || same_text(s, "const") || same_text(s, "continue") || same_text(s, "crate") || same_text(s, "dyn")
        || same_text(s, "else") || same_text(s, "enum") || same_text(s, "extern") || same_text(s, "false")
        || same_text(s, "fn") || same_text(s, "for") || same_text(s, "if") || same_text(s, "impl") || same_text(s, "in")
        || same_text(s, "let") || same_text(s, "loop") || same_text(s, "match") || same_text(s, "mod")
        || same_text(s, "move") || same_text(s, "mut") || same_text(s, "pub") || same_text(s, "ref")
        || same_text(s, "return") || same_text(s, "self") || same_text(s, "Self") || same_text(s, "static")
        || same_text(s, "struct") || same_text(s, "super") || same_text(s, "trait") || same_text(s, "true")
        || same_text(s, "type") || same_text(s, "unsafe") || same_text(s, "use") || same_text(s, "where")
        || same_text(s, "while") || same_text(s, "abstract") || same_text(s, "become") || same_text(s, "box")
        || same_text(s, "do") || same_text(s, "final") || same_text(s, "macro") || same_text(s, "override")
        || same_text(s, "priv") || same_text(s, "typeof") || same_text(s, "unsized") || same_text(s, "virtual")
        || same_text(s, "yield") || same_text(s, "try")
}

fn token_text(toks: &Vec<Token>, i: usize) -> (r: Option<String>)
    requires
        i < toks@.len(),
    ensures
        r is Some == tokens_model(toks@)[i as int] is Str,
        r is Some ==> r.unwrap()@ == tokens_model(toks@)[i as int]->Str_0,
{
    reveal(tokens_model);
    match &toks[i] {
        Token::Str(s) => Some(s.clone()),
        _ => None,
    }
}

fn token_number(toks: &Vec<Token>, i: usize) -> (r: Option<JsNumber>)
    requires
        i < toks@.len(),
    ensures
        r is Some == tokens_model(toks@)[i as int] is Num,
        r is Some ==> r.unwrap() == tokens_model(toks@)[i as int]->Num_0,
{
    reveal(tokens_model);
    match &toks[i] {
        Token::Num(n) => Some(*n),
        _ => None,
    }
}

fn is_punct(toks: &Vec<Token>, i: usize, end: usize, c: char) -> (r: bool)
    requires
        end <= toks@.len(),
    ensures
        r == punct_at(tokens_model(toks@), i as nat, end as nat, c),
{
    reveal(tokens_model);
    if i < end {
        match &toks[i] {
            Token::Punct(x, _) => *x == c,
            _ => false,
        }
    } else {
        false
    }
}

fn is_punct2(toks: &Vec<Token>, i: usize, end: usize, c1: char, c2: char) -> (r: bool)
    requires
        end <= toks@.len(),
    ensures
        r == punct2_at(tokens_model(toks@), i as nat, end as nat, c1, c2),
{
    reveal(tokens_model);
    if i < end && i + 1 < end {
        match &toks[i] {
            Token::Punct(x, j) => *x == c1 && *j && is_punct(toks, i + 1, end, c2),
            _ => false,
        }
    } else {
        false
    }
}

fn is_word(toks: &Vec<Token>, i: usize, end: usize, w: &str) -> (r: bool)
    requires
        end <= toks@.len(),
    ensures
        r == word_at(tokens_model(toks@), i as nat, end as nat, w@),
{
    reveal(tokens_model);
    if i < end {
        match &toks[i] {
            Token::Ident(s) => same_text(s.as_str(), w),
            _ => false,
        }
    } else {
        false
    }
}

fn name_of(toks: &Vec<Token>, i: usize, end: usize) -> (r: Option<String>)
    requires
        end <= toks@.len(),
    ensures
        match name_at(tokens_model(toks@), i as nat, end as nat) {
            Some(n) => r matches Some(x) && x@ == n,
            None => r is None,
        },
{
    reveal(tokens_model);
    if i < end {
        match &toks[i] {
            Token::Ident(s) => if keyword(s.as_str()) { None } else { Some(s.clone()) },
            _ => None,
        }
    } else {
        None
    }
}

fn group_of(toks: &Vec<Token>, i: usize, end: usize, d: Delim) -> (r: Option<usize>)
    requires
        end <= toks@.len(),
    ensures
        match group_at(tokens_model(toks@), i as nat, end as nat, d) {
            Some(c) => r matches Some(x) && x as nat == c && i < x < end,
            None => r is None,
        },
{
    reveal(tokens_model);
    if i < end {
        match &toks[i] {
            Token::Open(x, c) => if *x == d && i < *c && *c < end { Some(*c) } else { None },
            _ => None,
        }
    } else {
        None
    }
}

fn number_one() -> (r: JsExpression)
    ensures
        expr_model(r) == one(),
{
    let n = JsNumber::one();
    assert(n == JsNumber { bits: ONE_BITS });
    let r = JsExpression::Literal(JsLiteral::Number(n));
    assert(lit_model(JsLiteral::Number(n)) == LitModel::Number(n));
    r
}

fn update_expr(x: JsExpression, op: JsBinaryOp) -> (r: Option<JsExpression>)
    ensures
        match update_of(expr_model(x), op) {
            Some(m) => r matches Some(u) && expr_model(u) == m,
            None => r is None,
        },
{
    match x {
        JsExpression::Identifier(n) => {
            let n2 = n.clone();
            let one_x = number_one();
            let read = JsExpression::Identifier(n);
            let sum = JsExpression::BinaryOp(Box::new(read), op, Box::new(one_x));
            assert(expr_model(sum) == ExprModel::BinaryOp(Box::new(ExprModel::Identifier(n2@)), op, Box::new(one())));
            let r = JsExpression::Assignment(n2, Box::new(sum));
            assert(expr_model(r) == ExprModel::Assignment(n2@, Box::new(expr_model(sum))));
            Some(r)
        },
        JsExpression::MemberAccess(o, m) => {
            let o2 = crate::syntax::clone_expr(&o);
            let m2 = m.clone();
            let one_x = number_one();
            let read = JsExpression::MemberAccess(Box::new(o2), m);
            assert(expr_model(read) == ExprModel::MemberAccess(Box::new(expr_model(*o)), m2@));
            let sum = JsExpression::BinaryOp(Box::new(read), op, Box::new(one_x));
            assert(expr_model(sum) == ExprModel::BinaryOp(Box::new(expr_model(read)), op, Box::new(one())));
            let r = JsExpression::MemberAssignment(o, m2, Box::new(sum));
            Some(r)
        },
        JsExpression::IndexAccess(o, i) => {
            let o2 = crate::syntax::clone_expr(&o);
            let i2 = crate::syntax::clone_expr(&i);
            let one_x = number_one();
            let read = JsExpression::IndexAccess(Box::new(o2), Box::new(i2));
            assert(expr_model(read) == ExprModel::IndexAccess(Box::new(expr_model(*o)), Box::new(expr_model(*i))));
            let sum = JsExpression::BinaryOp(Box::new(read), op, Box::new(one_x));
            assert(expr_model(sum) == ExprModel::BinaryOp(Box::new(expr_model(read)), op, Box::new(one())));
            let r = JsExpression::IndexAssignment(o, i, Box::new(sum));
            Some(r)
        },
        _ => None,
    }
}

fn assign_expr(target: JsExpression, value: JsExpression) -> (r: JsExpression)
    ensures
        expr_model(r) == assign_to(expr_model(target), expr_model(value)),
{
    match target {
        JsExpression::Identifier(n) => JsExpression::Assignment(n, Box::new(value)),
        JsExpression::MemberAccess(o, m) => JsExpression::MemberAssignment(o, m, Box::new(value)),
        JsExpression::IndexAccess(o, i) => JsExpression::IndexAssignment(o, i, Box::new(value)),
        other => other,
    }
}

fn mul_op(toks: &Vec<Token>, pos: usize, end: usize) -> (r: Option<JsBinaryOp>)
    requires
        end <= toks@.len(),
    ensures
        r == mul_op_at(tokens_model(toks@), pos as nat, end as nat),
{
    if is_punct(toks, pos, end, '*') && !is_punct2(toks, pos, end, '*', '=') {
        Some(JsBinaryOp::Multiply)
    } else if is_punct(toks, pos, end, '/') && !is_punct2(toks, pos, end, '/', '=') {
        Some(JsBinaryOp::Divide)
    } else if is_punct(toks, pos, end, '%') && !is_punct2(toks, pos, end, '%', '=') {
        Some(JsBinaryOp::Remainder)
    } else {
        None
    }
}

fn add_op(toks: &Vec<Token>, pos: usize, end: usize) -> (r: Option<JsBinaryOp>)
    requires
        end <= toks@.len(),
    ensures
        r == add_op_at(tokens_model(toks@), pos as nat, end as nat),
{
    if is_punct(toks, pos, end, '+') && !is_punct2(toks, pos, end, '+', '=') {
        Some(JsBinaryOp::Add)
    } else if is_punct(toks, pos, end, '-') && !is_punct2(toks, pos, end, '-', '=') {
        Some(JsBinaryOp::Subtract)
    } else {
        None
    }
}

fn relation_op(toks: &Vec<Token>, pos: usize, end: usize) -> (r: Option<(JsBinaryOp, usize)>)
    requires
        end <= toks@.len(),
    ensures
        r is Some == relation_op_at(tokens_model(toks@), pos as nat, end as nat) is Some,
        r is Some ==> relation_op_at(tokens_model(toks@), pos as nat, end as nat) == Some((r.unwrap().0, r.unwrap().1 as nat)),
        r is Some ==> 1 <= r.unwrap().1 && pos + r.unwrap().1 <= end,
{
    if is_punct2(toks, pos, end, '=', '=') {
        if is_punct(toks, pos + 2, end, '=') { Some((JsBinaryOp::StrictEqual, 3)) } else { Some((JsBinaryOp::Equal, 2)) }
    } else if is_punct2(toks, pos, end, '!', '=') {
        if is_punct(toks, pos + 2, end, '=') { Some((JsBinaryOp::StrictNotEqual, 3)) } else { Some((JsBinaryOp::NotEqual, 2)) }
    } else if is_punct2(toks, pos, end, '<', '=') {
        Some((JsBinaryOp::LessThanOrEqual, 2))
    } else if is_punct2(toks, pos, end, '>', '=') {
        Some((JsBinaryOp::GreaterThanOrEqual, 2))
    } else if is_punct(toks, pos, end, '<') {
        Some((JsBinaryOp::LessThan, 1))
    } else if is_punct(toks, pos, end, '>') {
        Some((JsBinaryOp::GreaterThan, 1))
    } else {
        None
    }
}

fn compound_op(toks: &Vec<Token>, pos: usize, end: usize) -> (r: Option<JsBinaryOp>)
    requires
        end <= toks@.len(),
    ensures
        r == compound_op_at(tokens_model(toks@), pos as nat, end as nat),
{
    if is_punct2(toks, pos, end, '+', '=') {
        Some(JsBinaryOp::Add)
    } else if is_punct2(toks, pos, end, '-', '=') {
        Some(JsBinaryOp::Subtract)
    } else if is_punct2(toks, pos, end, '*', '=') {
        Some(JsBinaryOp::Multiply)
    } else if is_punct2(toks, pos, end, '/', '=') {
        Some(JsBinaryOp::Divide)
    } else if is_punct2(toks, pos, end, '%', '=') {
        Some(JsBinaryOp::Remainder)
    } else {
        None
    }
}

#[verifier::spinoff_prover]
fn parse_expr_full(toks: &Vec<Token>, pos: usize, end: usize) -> (r: Result<JsExpression, SyntaxError>)
    requires
        pos <= end <= toks@.len(),
    ensures
        match p_expr_full(tokens_model(toks@), pos as nat, end as nat) {
            Ok(m) => r matches Ok(x) && expr_model(x) == m,
            Err(e) => r matches Err(x) && x == e,
        },
    decreases end - pos, 31nat,
{
    reveal(p_expr_full);
    let (x, p) = parse_assign(toks, pos, end)?;
    if p == end {
        Ok(x)
    } else {
        Err(SyntaxError::UnexpectedToken(p))
    }
}

#[verifier::spinoff_prover]
fn parse_list(toks: &Vec<Token>, pos: usize, end: usize) -> (r: Result<Vec<JsExpression>, SyntaxError>)
    requires
        pos <= end <= toks@.len(),
    ensures
        match p_list_from(tokens_model(toks@), Seq::empty(), pos as nat, end as nat) {
            Ok(m) => r matches Ok(x) && exprs_model(x@) == m,
            Err(e) => r matches Err(x) && x == e,
        },
    decreases end - pos, 31nat,
{
    reveal(p_list_from);
    let ghost t = tokens_model(toks@);
    let mut acc: Vec<JsExpression> = Vec::new();
    let mut p = pos;
    assert(exprs_model(acc@) =~= Seq::<ExprModel>::empty());
    loop
        invariant
            pos <= p <= end,
            end <= toks@.len(),
            t == tokens_model(toks@),
            p_list_from(t, Seq::empty(), pos as nat, end as nat) == p_list_from(t, exprs_model(acc@), p as nat, end as nat),
        decreases end - p,
    {
        reveal(p_list_from);
        if p >= end {
            return Ok(acc);
        }
        let (x, q) = parse_assign(toks, p, end)?;
        if !(p <= q && q <= end) {
            return Err(SyntaxError::UnexpectedToken(p));
        }
        proof { lemma_exprs_model_push(acc@, x); }
        if q == end {
            acc.push(x);
            return Ok(acc);
        }
        if is_punct(toks, q, end, ',') {
            acc.push(x);
            p = q + 1;
        } else {
            return Err(SyntaxError::ExpectedToken(q, Expectation::Comma));
        }
    }
}

#[verifier::spinoff_prover]
fn parse_props(toks: &Vec<Token>, pos: usize, end: usize) -> (r: Result<Vec<JsProperty>, SyntaxError>)
    requires
        pos <= end <= toks@.len(),
    ensures
        match p_props_from(tokens_model(toks@), Seq::empty(), pos as nat, end as nat) {
            Ok(m) => r matches Ok(x) && properties_model(x@) == m,
            Err(e) => r matches Err(x) && x == e,
        },
    decreases end - pos, 31nat,
{
    reveal(p_props_from);
    let ghost t = tokens_model(toks@);
    let mut acc: Vec<JsProperty> = Vec::new();
    let mut p = pos;
    assert(properties_model(acc@) =~= Seq::<(Seq<char>, ExprModel)>::empty());
    loop
        invariant
            pos <= p <= end,
            end <= toks@.len(),
            t == tokens_model(toks@),
            p_props_from(t, Seq::empty(), pos as nat, end as nat) == p_props_from(t, properties_model(acc@), p as nat, end as nat),
        decreases end - p,
    {
        reveal(p_props_from);
        if p >= end {
            return Ok(acc);
        }
        let (key, value, q) = match token_text(toks, p) {
            Some(k) => {
                if is_punct(toks, p + 1, end, ':') {
                    let (x, q) = parse_assign(toks, p + 2, end)?;
                    (k, x, q)
                } else {
                    return Err(SyntaxError::PropertyNeedsValue(p + 1));
                }
            },
            None => match name_of(toks, p, end) {
                Some(k) => {
                    if is_punct(toks, p + 1, end, ':') {
                        let (x, q) = parse_assign(toks, p + 2, end)?;
                        (k, x, q)
                    } else {
                        let k2 = k.clone();
                        (k, JsExpression::Identifier(k2), p + 1)
                    }
                },
                None => {
                    return Err(SyntaxError::ExpectedPropertyKey(p));
                },
            },
        };
        if !(p < q && q <= end) {
            return Err(SyntaxError::UnexpectedToken(p));
        }
        let prop = JsProperty { key, value };
        proof { lemma_properties_model_push(acc@, prop); }
        if q == end {
            acc.push(prop);
            return Ok(acc);
        }
        if is_punct(toks, q, end, ',') {
            acc.push(prop);
            p = q + 1;
        } else {
            return Err(SyntaxError::ExpectedToken(q, Expectation::Comma));
        }
    }
}

#[verifier::spinoff_prover]
fn parse_params(toks: &Vec<Token>, pos: usize, end: usize) -> (r: Result<Vec<String>, SyntaxError>)
    requires
        pos <= end <= toks@.len(),
    ensures
        match p_params_from(tokens_model(toks@), Seq::empty(), pos as nat, end as nat) {
            Ok(m) => r matches Ok(x) && names_model(x@) == m,
            Err(e) => r matches Err(x) && x == e,
        },
{
    reveal(p_params_from);
    let ghost t = tokens_model(toks@);
    let mut acc: Vec<String> = Vec::new();
    let mut p = pos;
    assert(names_model(acc@) =~= Seq::<Seq<char>>::empty());
    loop
        invariant
            pos <= p <= end,
            end <= toks@.len(),
            t == tokens_model(toks@),
            p_params_from(t, Seq::empty(), pos as nat, end as nat) == p_params_from(t, names_model(acc@), p as nat, end as nat),
        decreases end - p,
    {
        reveal(p_params_from);
        if p >= end {
            return Ok(acc);
        }
        match name_of(toks, p, end) {
            None => {
                return Err(SyntaxError::ExpectedIdentifier(p));
            },
            Some(n) => {
                let ghost before = acc@;
                acc.push(n);
                assert(names_model(acc@) =~= names_model(before).push(n@));
                if p + 1 == end {
                    return Ok(acc);
                }
                if is_punct(toks, p + 1, end, ',') {
                    p = p + 2;
                } else {
                    return Err(SyntaxError::ExpectedToken(p + 1, Expectation::Comma));
                }
            },
        }
    }
}

#[verifier::spinoff_prover]
fn parse_function(toks: &Vec<Token>, pos: usize, end: usize) -> (r: Result<(JsFunctionDecl, usize), SyntaxError>)
    requires
        pos < end <= toks@.len(),
    ensures
        match p_function(tokens_model(toks@), pos as nat, end as nat) {
            Ok((m, p)) => r matches Ok((x, q)) && fn_model(x) == m && q as nat == p,
            Err(e) => r matches Err(x) && x == e,
        },
    decreases end - pos, 15nat,
{
    reveal(p_function);
    let name = name_of(toks, pos + 1, end);
    let q = if name.is_some() { pos + 2 } else { pos + 1 };
    match group_of(toks, q, end, Delim::Paren) {
        None => Err(SyntaxError::ExpectedToken(q, Expectation::Parenthesis)),
        Some(c) => {
            let params = parse_params(toks, q + 1, c)?;
            let (body, p) = parse_block(toks, c + 1, end)?;
            Ok((JsFunctionDecl { name, params, body: JsBlock { statements: body } }, p))
        },
    }
}

#[verifier::spinoff_prover]
fn parse_primary(toks: &Vec<Token>, pos: usize, end: usize) -> (r: Result<(JsExpression, usize), SyntaxError>)
    requires
        pos <= end <= toks@.len(),
    ensures
        agrees_expr(p_primary(tokens_model(toks@), pos as nat, end as nat), r),
    decreases end - pos, 16nat,
{
    reveal(p_primary);
    if pos >= end {
        return Err(SyntaxError::ExpectedExpression(pos));
    }
    match group_of(toks, pos, end, Delim::Paren) {
        Some(c) => {
            let x = parse_expr_full(toks, pos + 1, c)?;
            return Ok((x, c + 1));
        },
        None => {},
    }
    if is_word(toks, pos, end, "this") {
        return Ok((JsExpression::This, pos + 1));
    }
    if is_word(toks, pos, end, "function") {
        let (f, p) = parse_function(toks, pos, end)?;
        assert(lit_model(JsLiteral::Function(f)) == LitModel::Function(fn_model(f)));
        return Ok((JsExpression::Literal(JsLiteral::Function(f)), p));
    }
    match group_of(toks, pos, end, Delim::Bracket) {
        Some(c) => {
            let items = parse_list(toks, pos + 1, c)?;
            return Ok((JsExpression::Array(items), c + 1));
        },
        None => {},
    }
    match group_of(toks, pos, end, Delim::Brace) {
        Some(c) => {
            let props = parse_props(toks, pos + 1, c)?;
            return Ok((JsExpression::Object(JsObject { properties: props }), c + 1));
        },
        None => {},
    }
    parse_atom(toks, pos, end)
}

#[verifier::spinoff_prover]
fn parse_atom(toks: &Vec<Token>, pos: usize, end: usize) -> (r: Result<(JsExpression, usize), SyntaxError>)
    requires
        pos < end <= toks@.len(),
    ensures
        agrees_expr(p_atom(tokens_model(toks@), pos as nat, end as nat), r),
    decreases end - pos, 15nat,
{
    reveal(p_atom);
    match token_text(toks, pos) {
        Some(s) => {
            assert(lit_model(JsLiteral::String(s)) == LitModel::String(s@));
            return Ok((JsExpression::Literal(JsLiteral::String(s)), pos + 1));
        },
        None => {},
    }
    match token_number(toks, pos) {
        Some(n) => {
            assert(lit_model(JsLiteral::Number(n)) == LitModel::Number(n));
            return Ok((JsExpression::Literal(JsLiteral::Number(n)), pos + 1));
        },
        None => {},
    }
    if is_word(toks, pos, end, "true") {
        assert(lit_model(JsLiteral::Boolean(true)) == LitModel::Boolean(true));
        return Ok((JsExpression::Literal(JsLiteral::Boolean(true)), pos + 1));
    }
    if is_word(toks, pos, end, "false") {
        assert(lit_model(JsLiteral::Boolean(false)) == LitModel::Boolean(false));
        return Ok((JsExpression::Literal(JsLiteral::Boolean(false)), pos + 1));
    }
    match name_of(toks, pos, end) {
        Some(n) => {
            match group_of(toks, pos + 1, end, Delim::Paren) {
                Some(c) => {
                    let args = parse_list(toks, pos + 2, c)?;
                    return Ok((JsExpression::Call(n, args), c + 1));
                },
                None => {},
            }
            if same_text(n.as_str(), "null") {
                assert(lit_model(JsLiteral::Null) == LitModel::Null);
                Ok((JsExpression::Literal(JsLiteral::Null), pos + 1))
            } else if same_text(n.as_str(), "undefined") {
                assert(lit_model(JsLiteral::Undefined) == LitModel::Undefined);
                Ok((JsExpression::Literal(JsLiteral::Undefined), pos + 1))
            } else {
                Ok((JsExpression::Identifier(n), pos + 1))
            }
        },
        None => Err(SyntaxError::ExpectedExpression(pos)),
    }
}

#[verifier::spinoff_prover]
fn parse_postfix(toks: &Vec<Token>, pos: usize, end: usize) -> (r: Result<(JsExpression, usize), SyntaxError>)
    requires
        pos <= end <= toks@.len(),
    ensures
        agrees_expr(p_postfix(tokens_model(toks@), pos as nat, end as nat), r),
    decreases end - pos, 18nat,
{
    reveal(p_postfix);
    reveal(p_postfix_rest);
    let ghost t = tokens_model(toks@);
    let (x0, p0) = parse_primary(toks, pos, end)?;
    if !(pos <= p0 && p0 <= end) {
        return Err(SyntaxError::UnexpectedToken(pos));
    }
    let mut x = x0;
    let mut p = p0;
    loop
        invariant
            pos <= p <= end,
            end <= toks@.len(),
            t == tokens_model(toks@),
            p_postfix(t, pos as nat, end as nat) == p_postfix_rest(t, expr_model(x), p as nat, end as nat),
        decreases end - p,
    {
        reveal(p_postfix);
        reveal(p_postfix_rest);
        if !postfix_here(toks, p, end) {
            return Ok((x, p));
        }
        let (y, q) = postfix_step(toks, x, p, end)?;
        if !(p < q && q <= end) {
            return Err(SyntaxError::UnexpectedToken(p));
        }
        x = y;
        p = q;
    }
}

#[verifier::spinoff_prover]
fn postfix_here(toks: &Vec<Token>, p: usize, end: usize) -> (r: bool)
    requires
        end <= toks@.len(),
    ensures
        r == postfix_at(tokens_model(toks@), p as nat, end as nat),
{
    is_punct(toks, p, end, '.') || group_of(toks, p, end, Delim::Bracket).is_some()
        || (is_punct(toks, p, end, '+') && is_punct(toks, p + 1, end, '+'))
        || (is_punct(toks, p, end, '-') && is_punct(toks, p + 1, end, '-'))
}

#[verifier::spinoff_prover]
fn postfix_step(toks: &Vec<Token>, x: JsExpression, p: usize, end: usize) -> (r: Result<(JsExpression, usize), SyntaxError>)
    requires
        p <= end <= toks@.len(),
        postfix_at(tokens_model(toks@), p as nat, end as nat),
    ensures
        agrees_expr(p_postfix_step(tokens_model(toks@), expr_model(x), p as nat, end as nat), r),
    decreases end - p, 16nat,
{
    reveal(p_postfix_step);
    if is_punct(toks, p, end, '.') {
        match name_of(toks, p + 1, end) {
            None => Err(SyntaxError::ExpectedIdentifier(p + 1)),
            Some(m) => match group_of(toks, p + 2, end, Delim::Paren) {
                Some(c) => {
                    let args = parse_list(toks, p + 3, c)?;
                    Ok((JsExpression::MethodCall { object: Box::new(x), method: m, args }, c + 1))
                },
                None => Ok((JsExpression::MemberAccess(Box::new(x), m), p + 2)),
            },
        }
    } else {
        match group_of(toks, p, end, Delim::Bracket) {
            Some(c) => {
                let i = parse_expr_full(toks, p + 1, c)?;
                Ok((JsExpression::IndexAccess(Box::new(x), Box::new(i)), c + 1))
            },
            None => {
                let op = if is_punct(toks, p, end, '+') { JsBinaryOp::Add } else { JsBinaryOp::Subtract };
                match update_expr(x, op) {
                    Some(u) => Ok((u, p + 2)),
                    None => Err(SyntaxError::InvalidUpdateTarget(p + 2)),
                }
            },
        }
    }
}

#[verifier::spinoff_prover]
fn parse_unary(toks: &Vec<Token>, pos: usize, end: usize) -> (r: Result<(JsExpression, usize), SyntaxError>)
    requires
        pos <= end <= toks@.len(),
    ensures
        agrees_expr(p_unary(tokens_model(toks@), pos as nat, end as nat), r),
    decreases end - pos, 19nat,
{
    reveal(p_unary);
    if is_punct(toks, pos, end, '-') || is_punct(toks, pos, end, '!') {
        let op = if is_punct(toks, pos, end, '-') { JsUnaryOp::Negate } else { JsUnaryOp::Not };
        let (x, p) = parse_unary(toks, pos + 1, end)?;
        Ok((JsExpression::UnaryOp(op, Box::new(x)), p))
    } else {
        parse_postfix(toks, pos, end)
    }
}

#[verifier::spinoff_prover]
fn parse_mul(toks: &Vec<Token>, pos: usize, end: usize) -> (r: Result<(JsExpression, usize), SyntaxError>)
    requires
        pos <= end <= toks@.len(),
    ensures
        agrees_expr(p_mul(tokens_model(toks@), pos as nat, end as nat), r),
    decreases end - pos, 21nat,
{
    reveal(p_mul);
    reveal(p_mul_rest);
    let ghost t = tokens_model(toks@);
    let (x0, p0) = parse_unary(toks, pos, end)?;
    if !(pos <= p0 && p0 <= end) {
        return Err(SyntaxError::UnexpectedToken(pos));
    }
    let mut x = x0;
    let mut p = p0;
    loop
        invariant
            pos <= p <= end,
            end <= toks@.len(),
            t == tokens_model(toks@),
            p_mul(t, pos as nat, end as nat) == p_mul_rest(t, expr_model(x), p as nat, end as nat),
        decreases end - p,
    {
        reveal(p_mul);
        reveal(p_mul_rest);
        match mul_op(toks, p, end) {
            None => {
                return Ok((x, p));
            },
            Some(op) => {
                let (r, q) = parse_unary(toks, p + 1, end)?;
                if !(p < q && q <= end) {
                    return Err(SyntaxError::UnexpectedToken(p));
                }
                x = JsExpression::BinaryOp(Box::new(x), op, Box::new(r));
                p = q;
            },
        }
    }
}

#[verifier::spinoff_prover]
fn parse_add(toks: &Vec<Token>, pos: usize, end: usize) -> (r: Result<(JsExpression, usize), SyntaxError>)
    requires
        pos <= end <= toks@.len(),
    ensures
        agrees_expr(p_add(tokens_model(toks@), pos as nat, end as nat), r),
    decreases end - pos, 23nat,
{
    reveal(p_add);
    reveal(p_add_rest);
    let ghost t = tokens_model(toks@);
    let (x0, p0) = parse_mul(toks, pos, end)?;
    if !(pos <= p0 && p0 <= end) {
        return Err(SyntaxError::UnexpectedToken(pos));
    }
    let mut x = x0;
    let mut p = p0;
    loop
        invariant
            pos <= p <= end,
            end <= toks@.len(),
            t == tokens_model(toks@),
            p_add(t, pos as nat, end as nat) == p_add_rest(t, expr_model(x), p as nat, end as nat),
        decreases end - p,
    {
        reveal(p_add);
        reveal(p_add_rest);
        match add_op(toks, p, end) {
            None => {
                return Ok((x, p));
            },
            Some(op) => {
                let (r, q) = parse_mul(toks, p + 1, end)?;
                if !(p < q && q <= end) {
                    return Err(SyntaxError::UnexpectedToken(p));
                }
                x = JsExpression::BinaryOp(Box::new(x), op, Box::new(r));
                p = q;
            },
        }
    }
}

#[verifier::spinoff_prover]
fn parse_relation(toks: &Vec<Token>, pos: usize, end: usize) -> (r: Result<(JsExpression, usize), SyntaxError>)
    requires
        pos <= end <= toks@.len(),
    ensures
        agrees_expr(p_relation(tokens_model(toks@), pos as nat, end as nat), r),
    decreases end - pos, 25nat,
{
    reveal(p_relation);
    reveal(p_relation_rest);
    let ghost t = tokens_model(toks@);
    let (x0, p0) = parse_add(toks, pos, end)?;
    if !(pos <= p0 && p0 <= end) {
        return Err(SyntaxError::UnexpectedToken(pos));
    }
    let mut x = x0;
    let mut p = p0;
    loop
        invariant
            pos <= p <= end,
            end <= toks@.len(),
            t == tokens_model(toks@),
            p_relation(t, pos as nat, end as nat) == p_relation_rest(t, expr_model(x), p as nat, end as nat),
        decreases end - p,
    {
        reveal(p_relation);
        reveal(p_relation_rest);
        match relation_op(toks, p, end) {
            None => {
                return Ok((x, p));
            },
            Some((op, k)) => {
                let (r, q) = parse_add(toks, p + k, end)?;
                if !(p < q && q <= end) {
                    return Err(SyntaxError::UnexpectedToken(p));
                }
                x = JsExpression::BinaryOp(Box::new(x), op, Box::new(r));
                p = q;
            },
        }
    }
}

#[verifier::spinoff_prover]
fn parse_and(toks: &Vec<Token>, pos: usize, end: usize) -> (r: Result<(JsExpression, usize), SyntaxError>)
    requires
        pos <= end <= toks@.len(),
    ensures
        agrees_expr(p_and(tokens_model(toks@), pos as nat, end as nat), r),
    decreases end - pos, 27nat,
{
    reveal(p_and);
    reveal(p_and_rest);
    let ghost t = tokens_model(toks@);
    let (x0, p0) = parse_relation(toks, pos, end)?;
    if !(pos <= p0 && p0 <= end) {
        return Err(SyntaxError::UnexpectedToken(pos));
    }
    let mut x = x0;
    let mut p = p0;
    loop
        invariant
            pos <= p <= end,
            end <= toks@.len(),
            t == tokens_model(toks@),
            p_and(t, pos as nat, end as nat) == p_and_rest(t, expr_model(x), p as nat, end as nat),
        decreases end - p,
    {
        reveal(p_and);
        reveal(p_and_rest);
        if is_punct2(toks, p, end, '&', '&') {
            let (r, q) = parse_relation(toks, p + 2, end)?;
            if !(p < q && q <= end) {
                return Err(SyntaxError::UnexpectedToken(p));
            }
            x = JsExpression::LogicalOp(Box::new(x), JsLogicalOp::And, Box::new(r));
            p = q;
        } else {
            return Ok((x, p));
        }
    }
}

#[verifier::spinoff_prover]
fn parse_or(toks: &Vec<Token>, pos: usize, end: usize) -> (r: Result<(JsExpression, usize), SyntaxError>)
    requires
        pos <= end <= toks@.len(),
    ensures
        agrees_expr(p_or(tokens_model(toks@), pos as nat, end as nat), r),
    decreases end - pos, 29nat,
{
    reveal(p_or);
    reveal(p_or_rest);
    let ghost t = tokens_model(toks@);
    let (x0, p0) = parse_and(toks, pos, end)?;
    if !(pos <= p0 && p0 <= end) {
        return Err(SyntaxError::UnexpectedToken(pos));
    }
    let mut x = x0;
    let mut p = p0;
    loop
        invariant
            pos <= p <= end,
            end <= toks@.len(),
            t == tokens_model(toks@),
            p_or(t, pos as nat, end as nat) == p_or_rest(t, expr_model(x), p as nat, end as nat),
        decreases end - p,
    {
        reveal(p_or);
        reveal(p_or_rest);
        if is_punct2(toks, p, end, '|', '|') {
            let (r, q) = parse_and(toks, p + 2, end)?;
            if !(p < q && q <= end) {
                return Err(SyntaxError::UnexpectedToken(p));
            }
            x = JsExpression::LogicalOp(Box::new(x), JsLogicalOp::Or, Box::new(r));
            p = q;
        } else {
            return Ok((x, p));
        }
    }
}

/// An expression; see `p_assign`.
#[verifier::spinoff_prover]
pub fn parse_assign(toks: &Vec<Token>, pos: usize, end: usize) -> (r: Result<(JsExpression, usize), SyntaxError>)
    requires
        pos <= end <= toks@.len(),
    ensures
        agrees_expr(p_assign(tokens_model(toks@), pos as nat, end as nat), r),
    decreases end - pos, 30nat,
{
    reveal(p_assign);
    let (x, p) = parse_or(toks, pos, end)?;
    if !(pos <= p && p <= end) {
        return Err(SyntaxError::UnexpectedToken(pos));
    }
    if is_punct(toks, p, end, '=') && !is_punct2(toks, p, end, '=', '=') {
        let (v, q) = parse_assign(toks, p + 1, end)?;
        Ok((assign_expr(x, v), q))
    } else {
        match compound_op(toks, p, end) {
            Some(op) => {
                let (v, q) = parse_assign(toks, p + 2, end)?;
                let x2 = crate::syntax::clone_expr(&x);
                Ok((assign_expr(x, JsExpression::BinaryOp(Box::new(x2), op, Box::new(v))), q))
            },
            None => Ok((x, p)),
        }
    }
}

fn one_statement(x: JsStatement) -> (r: Vec<JsStatement>)
    ensures
        stmts_model(r@) == seq![stmt_model(x)],
{
    let mut v: Vec<JsStatement> = Vec::new();
    proof { lemma_stmts_model_push(v@, x); }
    v.push(x);
    assert(stmts_model(Seq::<JsStatement>::empty()) =~= Seq::<StmtModel>::empty());
    assert(stmts_model(v@) =~= seq![stmt_model(x)]);
    v
}

#[verifier::spinoff_prover]
fn parse_block(toks: &Vec<Token>, pos: usize, end: usize) -> (r: Result<(Vec<JsStatement>, usize), SyntaxError>)
    requires
        pos <= end <= toks@.len(),
    ensures
        agrees_block(p_block(tokens_model(toks@), pos as nat, end as nat), r),
    decreases end - pos, 42nat,
{
    reveal(p_block);
    match group_of(toks, pos, end, Delim::Brace) {
        None => Err(SyntaxError::ExpectedToken(pos, Expectation::Brace)),
        Some(c) => {
            let stmts = parse_stmts(toks, pos + 1, c)?;
            Ok((stmts, c + 1))
        },
    }
}

#[verifier::spinoff_prover]
fn parse_stmts(toks: &Vec<Token>, pos: usize, end: usize) -> (r: Result<Vec<JsStatement>, SyntaxError>)
    requires
        pos <= end <= toks@.len(),
    ensures
        match p_stmts_from(tokens_model(toks@), Seq::empty(), pos as nat, end as nat) {
            Ok(m) => r matches Ok(x) && stmts_model(x@) == m,
            Err(e) => r matches Err(x) && x == e,
        },
    decreases end - pos, 41nat,
{
    reveal(p_stmts_from);
    let ghost t = tokens_model(toks@);
    let mut acc: Vec<JsStatement> = Vec::new();
    let mut p = pos;
    assert(stmts_model(acc@) =~= Seq::<StmtModel>::empty());
    loop
        invariant
            pos <= p <= end,
            end <= toks@.len(),
            t == tokens_model(toks@),
            p_stmts_from(t, Seq::empty(), pos as nat, end as nat) == p_stmts_from(t, stmts_model(acc@), p as nat, end as nat),
        decreases end - p,
    {
        reveal(p_stmts_from);
        if p >= end {
            return Ok(acc);
        }
        let (x, q) = parse_stmt(toks, p, end)?;
        if !(p < q && q <= end) {
            return Err(SyntaxError::UnexpectedToken(p));
        }
        proof { lemma_stmts_model_push(acc@, x); }
        acc.push(x);
        p = q;
    }
}

fn expect_semi(toks: &Vec<Token>, x: JsStatement, p: usize, end: usize) -> (r: Result<(JsStatement, usize), SyntaxError>)
    requires
        end <= toks@.len(),
    ensures
        agrees_stmt(semi(tokens_model(toks@), stmt_model(x), p as nat, end as nat), r),
{
    if is_punct(toks, p, end, ';') {
        Ok((x, p + 1))
    } else {
        Err(SyntaxError::ExpectedToken(p, Expectation::Semicolon))
    }
}

#[verifier::spinoff_prover]
fn parse_condition(toks: &Vec<Token>, pos: usize, end: usize) -> (r: Result<(JsExpression, usize), SyntaxError>)
    requires
        pos <= end <= toks@.len(),
    ensures
        agrees_expr(p_condition(tokens_model(toks@), pos as nat, end as nat), r),
    decreases end - pos, 39nat,
{
    reveal(p_condition);
    match group_of(toks, pos, end, Delim::Paren) {
        None => Err(SyntaxError::ExpectedToken(pos, Expectation::Parenthesis)),
        Some(c) => {
            let x = parse_expr_full(toks, pos + 1, c)?;
            Ok((x, c + 1))
        },
    }
}

#[verifier::spinoff_prover]
fn parse_declaration(toks: &Vec<Token>, pos: usize, end: usize, is_const: bool) -> (r: Result<(JsStatement, usize), SyntaxError>)
    requires
        pos < end <= toks@.len(),
    ensures
        agrees_stmt(p_declaration(tokens_model(toks@), pos as nat, end as nat, is_const), r),
    decreases end - pos, 39nat,
{
    reveal(p_declaration);
    match name_of(toks, pos + 1, end) {
        None => Err(SyntaxError::ExpectedIdentifier(pos + 1)),
        Some(n) => {
            if !is_punct(toks, pos + 2, end, '=') {
                return Err(SyntaxError::ExpectedToken(pos + 2, Expectation::Assign));
            }
            let (x, p) = parse_assign(toks, pos + 3, end)?;
            let st = if is_const { JsStatement::ConstDecl(n, x) } else { JsStatement::LetDecl(n, x) };
            expect_semi(toks, st, p, end)
        },
    }
}

#[verifier::spinoff_prover]
fn parse_catch(toks: &Vec<Token>, p1: usize, end: usize) -> (r: Result<(Option<String>, Option<JsBlock>, usize), SyntaxError>)
    requires
        p1 <= end <= toks@.len(),
    ensures
        match p_catch(tokens_model(toks@), p1 as nat, end as nat) {
            Ok((n, cb, p2)) => r matches Ok((xn, xcb, q)) && (match xn {
                Some(s) => n == Some(s@),
                None => n is None,
            }) && opt_block_model(xcb) == cb && q as nat == p2,
            Err(e) => r matches Err(x) && x == e,
        },
    decreases end - p1, 39nat,
{
    reveal(p_catch);
    if !is_word(toks, p1, end, "catch") {
        return Ok((None, None, p1));
    }
    let (name, q): (Option<String>, usize) = match group_of(toks, p1 + 1, end, Delim::Paren) {
        Some(c) => {
            if c == p1 + 2 {
                (None, c + 1)
            } else {
                match name_of(toks, p1 + 2, end) {
                    None => {
                        return Err(SyntaxError::ExpectedIdentifier(p1 + 2));
                    },
                    Some(n) => {
                        if c == p1 + 3 {
                            (Some(n), c + 1)
                        } else {
                            return Err(SyntaxError::UnexpectedToken(p1 + 3));
                        }
                    },
                }
            }
        },
        None => (None, p1 + 1),
    };
    if !(p1 < q && q <= end) {
        return Err(SyntaxError::UnexpectedToken(p1));
    }
    let (b, p2) = parse_block(toks, q, end)?;
    Ok((name, Some(JsBlock { statements: b }), p2))
}

#[verifier::spinoff_prover]
fn parse_finally(toks: &Vec<Token>, p2: usize, end: usize) -> (r: Result<(Option<JsBlock>, usize), SyntaxError>)
    requires
        p2 <= end <= toks@.len(),
    ensures
        match p_finally(tokens_model(toks@), p2 as nat, end as nat) {
            Ok((fb, p3)) => r matches Ok((x, q)) && opt_block_model(x) == fb && q as nat == p3,
            Err(e) => r matches Err(x) && x == e,
        },
    decreases end - p2, 39nat,
{
    reveal(p_finally);
    if is_word(toks, p2, end, "finally") {
        let (b, p3) = parse_block(toks, p2 + 1, end)?;
        Ok((Some(JsBlock { statements: b }), p3))
    } else {
        Ok((None, p2))
    }
}

#[verifier::spinoff_prover]
fn parse_try(toks: &Vec<Token>, pos: usize, end: usize) -> (r: Result<(JsStatement, usize), SyntaxError>)
    requires
        pos < end <= toks@.len(),
    ensures
        agrees_stmt(p_try(tokens_model(toks@), pos as nat, end as nat), r),
    decreases end - pos, 39nat,
{
    reveal(p_try);
    let (body, p1) = parse_block(toks, pos + 1, end)?;
    if !(pos < p1 && p1 <= end) {
        return Err(SyntaxError::UnexpectedToken(pos));
    }
    let (name, cb, p2) = parse_catch(toks, p1, end)?;
    if !(p1 <= p2 && p2 <= end) {
        return Err(SyntaxError::UnexpectedToken(p1));
    }
    let (fb, p3) = parse_finally(toks, p2, end)?;
    if cb.is_none() && fb.is_none() {
        return Err(SyntaxError::TryNeedsHandler(p3));
    }
    let st = JsStatement::TryCatchFinally { try_block: JsBlock { statements: body }, catch_param: name, catch_block: cb, finally_block: fb };
    Ok((st, p3))
}

#[verifier::spinoff_prover]
fn parse_for(toks: &Vec<Token>, pos: usize, end: usize) -> (r: Result<(JsStatement, usize), SyntaxError>)
    requires
        pos < end <= toks@.len(),
    ensures
        agrees_stmt(p_for(tokens_model(toks@), pos as nat, end as nat), r),
    decreases end - pos, 39nat,
{
    reveal(p_for);
    let c = match group_of(toks, pos + 1, end, Delim::Paren) {
        None => {
            return Err(SyntaxError::ExpectedToken(pos + 1, Expectation::Parenthesis));
        },
        Some(c) => c,
    };
    let q = pos + 2;
    let (init, q1): (Option<JsStatement>, usize) = if is_punct(toks, q, c, ';') {
        (None, q)
    } else {
        let (st, p) = parse_stmt(toks, q, c)?;
        (Some(st), p)
    };
    if !(q <= q1 && q1 <= c) {
        return Err(SyntaxError::UnexpectedToken(q));
    }
    let q2 = if !is_punct(toks, q1, c, ';') {
        match &init {
            Some(JsStatement::Expression(_)) => {
                return Err(SyntaxError::ExpectedToken(q1, Expectation::Semicolon));
            },
            _ => q1,
        }
    } else {
        q1 + 1
    };
    let (cond, q3): (Option<JsExpression>, usize) = if is_punct(toks, q2, c, ';') {
        (None, q2)
    } else {
        let (x, p) = parse_assign(toks, q2, c)?;
        (Some(x), p)
    };
    if !(q2 <= q3 && q3 <= c) {
        return Err(SyntaxError::UnexpectedToken(q2));
    }
    if !is_punct(toks, q3, c, ';') {
        return Err(SyntaxError::ExpectedToken(q3, Expectation::Semicolon));
    }
    let (incr, q5): (Option<JsExpression>, usize) = if q3 + 1 >= c {
        (None, c)
    } else {
        let (x, p) = parse_assign(toks, q3 + 1, c)?;
        (Some(x), p)
    };
    if q5 != c {
        return Err(SyntaxError::UnexpectedToken(q5));
    }
    let (body, p) = parse_block(toks, c + 1, end)?;
    Ok((
        JsStatement::ForLoop(JsForLoop {
            init: match init {
                Some(s) => Some(Box::new(s)),
                None => None,
            },
            condition: cond,
            increment: match incr {
                Some(x) => Some(Box::new(x)),
                None => None,
            },
            body: JsBlock { statements: body },
        }),
        p,
    ))
}

#[verifier::spinoff_prover]
fn parse_if(toks: &Vec<Token>, pos: usize, end: usize) -> (r: Result<(JsStatement, usize), SyntaxError>)
    requires
        pos < end <= toks@.len(),
    ensures
        agrees_stmt(p_if(tokens_model(toks@), pos as nat, end as nat), r),
    decreases end - pos, 39nat,
{
    reveal(p_if);
    let (c, p1) = parse_condition(toks, pos + 1, end)?;
    if !(pos < p1 && p1 <= end) {
        return Err(SyntaxError::UnexpectedToken(pos));
    }
    let (body, p2) = parse_block(toks, p1, end)?;
    if !(p1 <= p2 && p2 <= end) {
        return Err(SyntaxError::UnexpectedToken(p1));
    }
    if !is_word(toks, p2, end, "else") {
        assert(opt_block_model(None) == None::<Seq<StmtModel>>);
        return Ok((JsStatement::IfStatement(c, JsBlock { statements: body }, None), p2));
    }
    if is_word(toks, p2 + 1, end, "if") {
        let (st, p3) = parse_stmt(toks, p2 + 1, end)?;
        let alt = JsBlock { statements: one_statement(st) };
        assert(opt_block_model(Some(alt)) == Some(stmts_model(alt.statements@)));
        Ok((JsStatement::IfStatement(c, JsBlock { statements: body }, Some(alt)), p3))
    } else {
        let (b, p3) = parse_block(toks, p2 + 1, end)?;
        let alt = JsBlock { statements: b };
        assert(opt_block_model(Some(alt)) == Some(stmts_model(alt.statements@)));
        Ok((JsStatement::IfStatement(c, JsBlock { statements: body }, Some(alt)), p3))
    }
}

#[verifier::spinoff_prover]
fn parse_while(toks: &Vec<Token>, pos: usize, end: usize) -> (r: Result<(JsStatement, usize), SyntaxError>)
    requires
        pos < end <= toks@.len(),
    ensures
        agrees_stmt(p_while(tokens_model(toks@), pos as nat, end as nat), r),
    decreases end - pos, 39nat,
{
    reveal(p_while);
    let (c, p1) = parse_condition(toks, pos + 1, end)?;
    if !(pos < p1 && p1 <= end) {
        return Err(SyntaxError::UnexpectedToken(pos));
    }
    let (body, p2) = parse_block(toks, p1, end)?;
    Ok((JsStatement::WhileLoop(JsWhileLoop { condition: c, body: JsBlock { statements: body } }), p2))
}

#[verifier::spinoff_prover]
fn parse_do(toks: &Vec<Token>, pos: usize, end: usize) -> (r: Result<(JsStatement, usize), SyntaxError>)
    requires
        pos < end <= toks@.len(),
    ensures
        agrees_stmt(p_do(tokens_model(toks@), pos as nat, end as nat), r),
    decreases end - pos, 39nat,
{
    reveal(p_do);
    let (body, p1) = parse_block(toks, pos + 1, end)?;
    if !(pos <= p1 && p1 <= end) {
        return Err(SyntaxError::UnexpectedToken(pos));
    }
    if !is_word(toks, p1, end, "while") {
        return Err(SyntaxError::ExpectedToken(p1, Expectation::While));
    }
    let (c, p2) = parse_condition(toks, p1 + 1, end)?;
    expect_semi(toks, JsStatement::DoWhileLoop(JsDoWhileLoop { body: JsBlock { statements: body }, condition: c }), p2, end)
}

#[verifier::spinoff_prover]
fn parse_return(toks: &Vec<Token>, pos: usize, end: usize) -> (r: Result<(JsStatement, usize), SyntaxError>)
    requires
        pos < end <= toks@.len(),
    ensures
        agrees_stmt(p_return(tokens_model(toks@), pos as nat, end as nat), r),
    decreases end - pos, 39nat,
{
    reveal(p_return);
    if is_punct(toks, pos + 1, end, ';') {
        Ok((JsStatement::Return(None), pos + 2))
    } else {
        let (x, p) = parse_assign(toks, pos + 1, end)?;
        expect_semi(toks, JsStatement::Return(Some(x)), p, end)
    }
}

/// A statement; see `p_stmt`.
#[verifier::spinoff_prover]
pub fn parse_stmt(toks: &Vec<Token>, pos: usize, end: usize) -> (r: Result<(JsStatement, usize), SyntaxError>)
    requires
        pos <= end <= toks@.len(),
    ensures
        agrees_stmt(p_stmt(tokens_model(toks@), pos as nat, end as nat), r),
    decreases end - pos, 40nat,
{
    reveal(p_stmt);
    if is_word(toks, pos, end, "let") {
        parse_declaration(toks, pos, end, false)
    } else if is_word(toks, pos, end, "const") || is_word(toks, pos, end, "_const") {
        parse_declaration(toks, pos, end, true)
    } else if is_word(toks, pos, end, "if") {
        parse_if(toks, pos, end)
    } else if is_word(toks, pos, end, "try") {
        parse_try(toks, pos, end)
    } else if is_word(toks, pos, end, "throw") {
        let (x, p) = parse_assign(toks, pos + 1, end)?;
        expect_semi(toks, JsStatement::Throw(x), p, end)
    } else if is_word(toks, pos, end, "function") {
        let (f, p) = parse_function(toks, pos, end)?;
        Ok((JsStatement::FunctionDecl(f), p))
    } else if is_word(toks, pos, end, "for") {
        parse_for(toks, pos, end)
    } else if is_word(toks, pos, end, "while") {
        parse_while(toks, pos, end)
    } else if is_word(toks, pos, end, "do") {
        parse_do(toks, pos, end)
    } else if is_word(toks, pos, end, "return") {
        parse_return(toks, pos, end)
    } else {
        let (x, p) = parse_assign(toks, pos, end)?;
        expect_semi(toks, JsStatement::Expression(x), p, end)
    }
}

/// A whole script; see `p_script`.
#[verifier::spinoff_prover]
pub fn parse_script(toks: &Vec<Token>) -> (r: Result<JsScript, SyntaxError>)
    ensures
        match p_script(tokens_model(toks@)) {
            Ok(m) => r matches Ok(x) && stmts_model(x.statements@) == m,
            Err(e) => r matches Err(x) && x == e,
        },
{
    reveal(tokens_model);
    let statements = parse_stmts(toks, 0, toks.len())?;
    Ok(JsScript { statements })
}

} // verus!
