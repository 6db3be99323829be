use js_runtime::ast::{JsExpression, JsStatement};
use js_runtime::machine::{Halt, Machine};
use js_runtime::number::JsNumber;
use js_runtime::numeric::{ArithmeticOp, NumericReply, NumericRequest, RoundingOp};
use js_runtime::program::{JsExecutionContext, JsProgram, RunOutcome};
use js_runtime::scope::JsScope;
use js_runtime::value::{JsDeclarationKind, JsErrorKind, JsFunction, JsValue};

// ---------------------------------------------------------------------------
// The embedder's side: doubles computed with the floating-point unit
// ---------------------------------------------------------------------------

fn num(x: f64) -> JsValue {
    JsValue::Number(JsNumber::from_bits(x.to_bits()))
}

fn text(s: &str) -> JsValue {
    JsValue::String(s.to_string())
}

fn as_f64(v: &JsValue) -> Option<f64> {
    match v {
        JsValue::Number(n) => Some(f64::from_bits(n.bits)),
        _ => None,
    }
}

fn is_num(v: &JsValue, x: f64) -> bool {
    matches!(as_f64(v), Some(n) if (n - x).abs() < f64::EPSILON)
}

fn is_text(v: &JsValue, s: &str) -> bool {
    matches!(v, JsValue::String(t) if t == s)
}


/// JavaScript's `Math.max` of two doubles.
fn js_max(a: f64, b: f64) -> f64 {
    if a.is_nan() || b.is_nan() {
        f64::NAN
    } else if a == 0.0 && b == 0.0 {
        if a.is_sign_negative() && b.is_sign_negative() { -0.0 } else { 0.0 }
    } else {
        a.max(b)
    }
}

/// JavaScript's `Math.min` of two doubles.
fn js_min(a: f64, b: f64) -> f64 {
    if a.is_nan() || b.is_nan() {
        f64::NAN
    } else if a == 0.0 && b == 0.0 {
        if a.is_sign_negative() || b.is_sign_negative() { -0.0 } else { 0.0 }
    } else {
        a.min(b)
    }
}

/// JavaScript's `Math.round`: ties go toward `+∞`.
fn js_round(x: f64) -> f64 {
    if !x.is_finite() || x == 0.0 {
        return x;
    }
    let r = x.round();
    let r = if r - x == -0.5 { r + 1.0 } else { r };
    if r == 0.0 && x < 0.0 { -0.0 } else { r }
}

fn answer(req: &NumericRequest) -> NumericReply {
    let f = |n: &JsNumber| f64::from_bits(n.bits);
    let number = |x: f64| NumericReply::Number(JsNumber::from_bits(x.to_bits()));
    match req {
        NumericRequest::Parse(s) => match s.parse::<f64>() {
            Ok(x) => number(x),
            Err(_) => NumericReply::NotANumber,
        },
        NumericRequest::Format(n) => NumericReply::Text(f(n).to_string()),
        NumericRequest::PropertyKey(n) => {
            let x = f(n);
            NumericReply::Text(if x.fract() == 0.0 { format!("{}", x as i64) } else { x.to_string() })
        }
        NumericRequest::Arithmetic(op, a, b) => {
            let (a, b) = (f(a), f(b));
            number(match op {
                ArithmeticOp::Add => a + b,
                ArithmeticOp::Subtract => a - b,
                ArithmeticOp::Multiply => a * b,
                ArithmeticOp::Divide => a / b,
                ArithmeticOp::Remainder => a % b,
                ArithmeticOp::Power => a.powf(b),
                ArithmeticOp::Max => js_max(a, b),
                ArithmeticOp::Min => js_min(a, b),
            })
        }
        NumericRequest::Rounding(op, n) => number(match op {
            RoundingOp::Floor => f(n).floor(),
            RoundingOp::Ceil => f(n).ceil(),
            RoundingOp::Round => js_round(f(n)),
        }),
        NumericRequest::FromCount(k) => number(*k as f64),
        NumericRequest::ToIndex(n) => NumericReply::Index(f(n) as isize),
    }
}

/// Runs until the run completes, answering each request and raising the budget as needed.
fn drive<F: FnMut(&Vec<NumericReply>, u64) -> Result<RunOutcome, Halt>>(mut run: F) -> RunOutcome {
    let mut tape = Vec::new();
    let mut fuel = 64u64;
    loop {
        match run(&tape, fuel) {
            Ok(outcome) => return outcome,
            Err(Halt::NeedReply(req)) => tape.push(answer(&req)),
            Err(Halt::OutOfFuel) => fuel *= 4,
            Err(other) => panic!("the run stopped: {:?}", other),
        }
    }
}

fn root_context() -> JsExecutionContext {
    JsExecutionContext { scope: JsScope::new_root(), this_context: None }
}

fn run_program(program: &JsProgram, context: &mut JsExecutionContext) -> RunOutcome {
    drive(|tape, fuel| program.execute(context, tape, fuel))
}

fn execute(program: &JsProgram, context: &JsExecutionContext) -> JsValue {
    let mut ctx = JsExecutionContext { scope: context.scope.duplicate(), this_context: None };
    run_program(program, &mut ctx).value
}

fn evaluate(expr: &JsExpression, context: &mut JsExecutionContext) -> JsValue {
    drive(|tape, fuel| expr.evaluate(context, tape, fuel)).value
}

fn lit(v: JsValue) -> JsExpression {
    JsExpression::Literal(v)
}

fn ident(name: &str) -> JsExpression {
    JsExpression::Identifier(name.to_string())
}

fn bin(l: JsExpression, op: &str, r: JsExpression) -> JsExpression {
    JsExpression::BinaryOp(Box::new(l), op.to_string(), Box::new(r))
}

fn call(name: &str, args: Vec<JsExpression>) -> JsExpression {
    JsExpression::Call(name.to_string(), args)
}

fn method(object: JsExpression, name: &str, args: Vec<JsExpression>) -> JsExpression {
    JsExpression::MethodCall { object: Box::new(object), method: name.to_string(), args }
}

fn member(object: JsExpression, name: &str) -> JsExpression {
    JsExpression::MemberAccess(Box::new(object), name.to_string())
}

fn let_(name: &str, expr: JsExpression) -> JsStatement {
    JsStatement::Declaration { kind: JsDeclarationKind::Let, name: name.to_string(), expr }
}

fn func(params: &[&str], body: Vec<JsStatement>) -> JsExpression {
    lit(JsValue::Function(JsFunction::new(params.iter().map(|p| p.to_string()).collect(), body, String::new())))
}

fn ret(expr: JsExpression) -> JsStatement {
    JsStatement::Return(Some(expr))
}

fn key(s: &str) -> String {
    s.to_string()
}

// ---------------------------------------------------------------------------
// The runtime's own tests
// ---------------------------------------------------------------------------

#[test]
fn lib_return_short_circuits_function_body() {
    let func = JsFunction::new(
        vec![],
        vec![
            JsStatement::Return(Some(JsExpression::Literal(num(1.0)))),
            JsStatement::Return(Some(JsExpression::Literal(num(2.0)))),
        ],
        "f".to_string(),
    );
    let mut context = root_context();
    let result = drive(|tape, fuel| func.execute(&vec![], &mut context, tape, fuel)).value;
    assert!(is_num(&result, 1.0));
}

#[test]
fn subtraction_operator_works() {
    let mut context = root_context();
    let expr = JsExpression::BinaryOp(
        Box::new(JsExpression::Literal(num(10.0))),
        "-".to_string(),
        Box::new(JsExpression::Literal(num(3.0))),
    );
    let result = evaluate(&expr, &mut context);
    assert!(is_num(&result, 7.0));
}

#[test]
fn relational_nan_follows_js_behavior() {
    let nan = JsValue::Undefined;
    let one = num(1.0);
    let mut machine = Machine::new(JsScope::new_root(), None);
    let no_replies = Vec::new();
    assert!(matches!(
        nan.less_than_or_equal(&one, &mut machine, &no_replies),
        Ok(JsValue::Boolean(false))
    ));
    assert!(matches!(
        nan.greater_than_or_equal(&one, &mut machine, &no_replies),
        Ok(JsValue::Boolean(false))
    ));
}

#[test]
fn program_executes_statements() {
    let context = root_context();
    let program = JsProgram::new(vec![
        JsStatement::Declaration {
            kind: JsDeclarationKind::Let,
            name: "x".to_string(),
            expr: JsExpression::Literal(num(2.0)),
        },
        JsStatement::Expression(JsExpression::BinaryOp(
            Box::new(JsExpression::Identifier("x".to_string())),
            "+".to_string(),
            Box::new(JsExpression::Literal(num(3.0))),
        )),
    ]);
    let out = execute(&program, &context);
    assert!(is_num(&out, 5.0));
}

#[test]
fn child_scope_reads_parent_and_writes_existing_binding() {
    let mut root = JsScope::new_root();
    root.define("x".to_string(), num(1.0), JsDeclarationKind::Let);
    let mut child = JsScope::new_child(root);

    assert!(matches!(child.get(&key("x")), Some(v) if is_num(&v, 1.0)));
    child.set(&key("x"), num(7.0));
    let root = child.parent().unwrap();
    assert!(matches!(root.get(&key("x")), Some(v) if is_num(&v, 7.0)));
}

#[test]
fn const_binding_is_not_mutated_by_assignment() {
    let mut root = JsScope::new_root();
    root.define("x".to_string(), num(1.0), JsDeclarationKind::Const);
    let updated = root.set(&key("x"), num(2.0));
    assert!(!updated);
    assert!(matches!(root.get(&key("x")), Some(v) if is_num(&v, 1.0)));
}

#[test]
fn throw_without_catch_surfaces_value() {
    let context = root_context();
    let program = JsProgram::new(vec![JsStatement::Throw(JsExpression::Literal(JsValue::String(
        "boom".to_string(),
    )))]);
    let out = execute(&program, &context);
    assert!(matches!(out, JsValue::String(s) if s == "boom"));
}

#[test]
fn try_catch_binds_exception_value() {
    let context = root_context();
    let program = JsProgram::new(vec![JsStatement::TryCatchFinally {
        try_block: vec![JsStatement::Throw(JsExpression::Literal(num(7.0)))],
        catch_param: Some("e".to_string()),
        catch_block: Some(vec![JsStatement::Expression(JsExpression::Identifier("e".to_string()))]),
        finally_block: None,
    }]);
    let out = execute(&program, &context);
    assert!(is_num(&out, 7.0));
}

#[test]
fn finally_runs_and_overrides_with_return() {
    let context = root_context();
    let program = JsProgram::new(vec![JsStatement::TryCatchFinally {
        try_block: vec![JsStatement::Throw(JsExpression::Literal(JsValue::String("err".to_string())))],
        catch_param: Some("e".to_string()),
        catch_block: Some(vec![JsStatement::Expression(JsExpression::Identifier("e".to_string()))]),
        finally_block: Some(vec![JsStatement::Return(Some(JsExpression::Literal(num(99.0))))]),
    }]);
    let out = execute(&program, &context);
    assert!(is_num(&out, 99.0));
}

#[test]
fn error_constructor_sets_name_and_message() {
    let mut context = root_context();
    let value = evaluate(
        &JsExpression::Call("Error".to_string(), vec![JsExpression::Literal(JsValue::String("boom".to_string()))]),
        &mut context,
    );
    assert!(matches!(value.get_property(&key("name")), JsValue::String(s) if s == "Error"));
    assert!(matches!(value.get_property(&key("message")), JsValue::String(s) if s == "boom"));
}

#[test]
fn type_error_constructor_sets_name() {
    let mut context = root_context();
    let value = evaluate(
        &JsExpression::Call(
            "TypeError".to_string(),
            vec![JsExpression::Literal(JsValue::String("bad call".to_string()))],
        ),
        &mut context,
    );
    assert!(matches!(value.get_property(&key("name")), JsValue::String(s) if s == "TypeError"));
}

#[test]
fn throw_error_is_catchable_with_message() {
    let context = root_context();
    let program = JsProgram::new(vec![JsStatement::TryCatchFinally {
        try_block: vec![JsStatement::Throw(JsExpression::Call(
            "Error".to_string(),
            vec![JsExpression::Literal(JsValue::String("kaboom".to_string()))],
        ))],
        catch_param: Some("e".to_string()),
        catch_block: Some(vec![JsStatement::Expression(JsExpression::MemberAccess(
            Box::new(JsExpression::Identifier("e".to_string())),
            "message".to_string(),
        ))]),
        finally_block: None,
    }]);
    let out = execute(&program, &context);
    assert!(matches!(out, JsValue::String(s) if s == "kaboom"));
}

// ---------------------------------------------------------------------------
// Control flow
// ---------------------------------------------------------------------------

#[test]
fn control_flow_return_short_circuits_function_body() {
    let context = root_context();
    let program = JsProgram::new(vec![JsStatement::TryCatchFinally {
        try_block: vec![JsStatement::Return(Some(JsExpression::Literal(num(1.0))))],
        catch_param: None,
        catch_block: None,
        finally_block: Some(vec![JsStatement::Expression(JsExpression::Literal(num(2.0)))]),
    }]);
    let result = execute(&program, &context);
    assert!(is_num(&result, 1.0));
}

#[test]
fn if_else_selects_expected_branch() {
    let context = root_context();
    let program = JsProgram::new(vec![JsStatement::IfStatement(
        JsExpression::Literal(JsValue::Boolean(false)),
        vec![JsStatement::Expression(JsExpression::Literal(num(1.0)))],
        Some(vec![JsStatement::Expression(JsExpression::Literal(num(2.0)))]),
    )]);
    let result = execute(&program, &context);
    assert!(is_num(&result, 2.0));
}

#[test]
fn for_loop_updates_existing_binding() {
    let context = root_context();
    let program = JsProgram::new(vec![
        JsStatement::Declaration {
            kind: JsDeclarationKind::Let,
            name: "x".to_string(),
            expr: JsExpression::Literal(num(0.0)),
        },
        JsStatement::ForLoop {
            init: Some(Box::new(JsStatement::Declaration {
                kind: JsDeclarationKind::Let,
                name: "i".to_string(),
                expr: JsExpression::Literal(num(0.0)),
            })),
            condition: Some(JsExpression::BinaryOp(
                Box::new(JsExpression::Identifier("i".to_string())),
                "<".to_string(),
                Box::new(JsExpression::Literal(num(3.0))),
            )),
            increment: Some(Box::new(JsStatement::Assignment(
                "i".to_string(),
                JsExpression::BinaryOp(
                    Box::new(JsExpression::Identifier("i".to_string())),
                    "+".to_string(),
                    Box::new(JsExpression::Literal(num(1.0))),
                ),
            ))),
            body: vec![JsStatement::Assignment(
                "x".to_string(),
                JsExpression::BinaryOp(
                    Box::new(JsExpression::Identifier("x".to_string())),
                    "+".to_string(),
                    Box::new(JsExpression::Literal(num(2.0))),
                ),
            )],
        },
        JsStatement::Expression(JsExpression::Identifier("x".to_string())),
    ]);
    let result = execute(&program, &context);
    assert!(is_num(&result, 6.0));
}

#[test]
fn member_and_index_assignments_update_values() {
    let context = root_context();
    let program = JsProgram::new(vec![
        JsStatement::Declaration {
            kind: JsDeclarationKind::Let,
            name: "obj".to_string(),
            expr: JsExpression::ObjectLiteral(vec![("count".to_string(), JsExpression::Literal(num(1.0)))]),
        },
        JsStatement::MemberAssignment(
            JsExpression::Identifier("obj".to_string()),
            "count".to_string(),
            JsExpression::BinaryOp(
                Box::new(JsExpression::MemberAccess(
                    Box::new(JsExpression::Identifier("obj".to_string())),
                    "count".to_string(),
                )),
                "+".to_string(),
                Box::new(JsExpression::Literal(num(2.0))),
            ),
        ),
        JsStatement::Declaration {
            kind: JsDeclarationKind::Let,
            name: "arr".to_string(),
            expr: JsExpression::ArrayLiteral(vec![JsExpression::Literal(num(3.0))]),
        },
        JsStatement::IndexAssignment(
            JsExpression::Identifier("arr".to_string()),
            JsExpression::Literal(num(0.0)),
            JsExpression::BinaryOp(
                Box::new(JsExpression::IndexAccess(
                    Box::new(JsExpression::Identifier("arr".to_string())),
                    Box::new(JsExpression::Literal(num(0.0))),
                )),
                "+".to_string(),
                Box::new(JsExpression::Literal(num(4.0))),
            ),
        ),
        JsStatement::Expression(JsExpression::BinaryOp(
            Box::new(JsExpression::MemberAccess(
                Box::new(JsExpression::Identifier("obj".to_string())),
                "count".to_string(),
            )),
            "+".to_string(),
            Box::new(JsExpression::IndexAccess(
                Box::new(JsExpression::Identifier("arr".to_string())),
                Box::new(JsExpression::Literal(num(0.0))),
            )),
        )),
    ]);
    let result = execute(&program, &context);
    assert!(is_num(&result, 10.0));
}

// ---------------------------------------------------------------------------
// Exceptions
// ---------------------------------------------------------------------------

#[test]
fn error_constructor_returns_error_object() {
    let context = root_context();
    let program = JsProgram::new(vec![JsStatement::Expression(JsExpression::Call(
        "Error".to_string(),
        vec![JsExpression::Literal(JsValue::String("boom".to_string()))],
    ))]);
    let result = execute(&program, &context);
    assert!(matches!(result.get_property(&key("name")), JsValue::String(name) if name == "Error"));
    assert!(matches!(result.get_property(&key("message")), JsValue::String(message) if message == "boom"));
}

#[test]
fn catch_without_binding_handles_exception() {
    let context = root_context();
    let program = JsProgram::new(vec![JsStatement::TryCatchFinally {
        try_block: vec![JsStatement::Throw(JsExpression::Call(
            "TypeError".to_string(),
            vec![JsExpression::Literal(JsValue::String("bad".to_string()))],
        ))],
        catch_param: None,
        catch_block: Some(vec![JsStatement::Expression(JsExpression::Literal(JsValue::String(
            "handled".to_string(),
        )))]),
        finally_block: None,
    }]);
    let result = execute(&program, &context);
    assert!(matches!(result, JsValue::String(value) if value == "handled"));
}

#[test]
fn catch_binding_can_read_error_message() {
    let context = root_context();
    let program = JsProgram::new(vec![JsStatement::TryCatchFinally {
        try_block: vec![JsStatement::Throw(JsExpression::Call(
            "Error".to_string(),
            vec![JsExpression::Literal(JsValue::String("kaboom".to_string()))],
        ))],
        catch_param: Some("e".to_string()),
        catch_block: Some(vec![JsStatement::Expression(JsExpression::MemberAccess(
            Box::new(JsExpression::Identifier("e".to_string())),
            "message".to_string(),
        ))]),
        finally_block: None,
    }]);
    let result = execute(&program, &context);
    assert!(matches!(result, JsValue::String(message) if message == "kaboom"));
}

#[test]
fn finally_preserves_rethrow_when_it_completes_normally() {
    let context = root_context();
    let program = JsProgram::new(vec![JsStatement::TryCatchFinally {
        try_block: vec![JsStatement::Throw(JsExpression::Literal(JsValue::String("original".to_string())))],
        catch_param: Some("e".to_string()),
        catch_block: Some(vec![JsStatement::Throw(JsExpression::Identifier("e".to_string()))]),
        finally_block: Some(vec![JsStatement::Expression(JsExpression::Literal(JsValue::String(
            "cleanup".to_string(),
        )))]),
    }]);
    let result = execute(&program, &context);
    assert!(matches!(result, JsValue::String(value) if value == "original"));
}

#[test]
fn finally_throw_overrides_prior_return() {
    let context = root_context();
    let program = JsProgram::new(vec![JsStatement::TryCatchFinally {
        try_block: vec![JsStatement::Return(Some(JsExpression::Literal(num(1.0))))],
        catch_param: None,
        catch_block: None,
        finally_block: Some(vec![JsStatement::Throw(JsExpression::Literal(JsValue::String(
            "finally".to_string(),
        )))]),
    }]);
    let result = execute(&program, &context);
    assert!(matches!(result, JsValue::String(value) if value == "finally"));
}

// ---------------------------------------------------------------------------
// Direct execution, calls and equality
// ---------------------------------------------------------------------------

fn run_statement(st: &JsStatement, context: &mut JsExecutionContext) -> RunOutcome {
    drive(|tape, fuel| st.execute(context, tape, fuel))
}

#[test]
fn direct_index_assignment_updates_an_array() {
    let mut context = root_context();
    run_statement(&let_("arr", JsExpression::ArrayLiteral(vec![lit(num(3.0))])), &mut context);
    let st = JsStatement::IndexAssignment(ident("arr"), lit(num(0.0)), lit(num(7.0)));
    let out = run_statement(&st, &mut context);
    assert!(is_num(&out.value, 7.0));
    let arr = evaluate(&ident("arr"), &mut context);
    match arr {
        JsValue::Array(items) => {
            assert_eq!(items.len(), 1);
            assert!(is_num(&items[0], 7.0));
        }
        other => panic!("not an array: {:?}", other),
    }
}

#[test]
fn a_missing_argument_is_undefined() {
    let mut context = root_context();
    run_statement(&let_("x", lit(num(5.0))), &mut context);
    let f = JsFunction::new(vec!["x".to_string()], vec![ret(ident("x"))], "f".to_string());
    let out = drive(|tape, fuel| f.execute(&Vec::new(), &mut context, tape, fuel));
    assert!(matches!(out.value, JsValue::Undefined));
    assert!(is_num(&evaluate(&ident("x"), &mut context), 5.0));
}

#[test]
fn a_call_without_return_gives_undefined() {
    let mut context = root_context();
    let f = JsFunction::new(vec!["x".to_string()], vec![JsStatement::Expression(ident("x"))], "f".to_string());
    let out = drive(|tape, fuel| f.execute(&vec![num(21.0)], &mut context, tape, fuel));
    assert!(matches!(out.value, JsValue::Undefined));
}

#[test]
fn null_equals_only_null_and_undefined() {
    let mut context = root_context();
    let eq = |a: JsValue, b: JsValue, context: &mut JsExecutionContext| evaluate(&bin(lit(a), "==", lit(b)), context);
    assert!(matches!(eq(JsValue::Boolean(false), JsValue::Null, &mut context), JsValue::Boolean(false)));
    assert!(matches!(eq(JsValue::Null, JsValue::Boolean(false), &mut context), JsValue::Boolean(false)));
    assert!(matches!(eq(num(0.0), JsValue::Undefined, &mut context), JsValue::Boolean(false)));
    assert!(matches!(eq(JsValue::Null, JsValue::Undefined, &mut context), JsValue::Boolean(true)));
    assert!(matches!(eq(JsValue::Boolean(true), num(1.0), &mut context), JsValue::Boolean(true)));
}

#[test]
fn straight_code_runs_alike_compiled_and_directly() {
    let stmts = || {
        vec![
            let_("x", bin(lit(num(2.0)), "+", lit(num(3.0)))),
            JsStatement::Assignment("x".to_string(), bin(ident("x"), "*", lit(num(2.0)))),
            let_("a", JsExpression::ArrayLiteral(vec![ident("x"), lit(num(1.0))])),
            JsStatement::Expression(bin(
                JsExpression::IndexAccess(Box::new(ident("a")), Box::new(lit(num(0.0)))),
                "-",
                JsExpression::IndexAccess(Box::new(ident("a")), Box::new(lit(num(1.0)))),
            )),
        ]
    };
    let mut compiled = root_context();
    let compiled_value = run_program(&JsProgram::new(stmts()), &mut compiled).value;

    let mut direct = root_context();
    let mut direct_value = JsValue::Undefined;
    for s in stmts() {
        direct_value = drive(|tape, fuel| s.execute(&mut direct, tape, fuel)).value;
    }
    assert!(is_num(&compiled_value, 9.0));
    assert!(is_num(&direct_value, 9.0));
    let x = "x".to_string();
    assert!(is_num(&compiled.scope.get(&x).unwrap(), 10.0));
    assert!(is_num(&direct.scope.get(&x).unwrap(), 10.0));
}
