use js_runtime::lexer::{Delim, Expectation, SyntaxError, Token};
use js_runtime::machine::{Halt, Machine};
use js_runtime::number::JsNumber;
use js_runtime::numeric::{ArithmeticOp, NumericReply, NumericRequest, RoundingOp};
use js_runtime::parser::parse_script;
use js_runtime::program::RunOutcome;
use js_runtime::scope::JsScope;
use js_runtime::script::{compile_script, js};
use js_runtime::syntax::{JsBinaryOp, JsExpression, JsLiteral, JsStatement};
use js_runtime::value::JsValue;

// ---------------------------------------------------------------------------
// The embedder's side: doubles computed with the floating-point unit
// ---------------------------------------------------------------------------


/// JavaScript's `Math.max` of two doubles.
fn js_max(a: f64, b: f64) -> f64 {
    if a.is_nan() || b.is_nan() {
        f64::NAN
    } else if a == 0.0 && b == 0.0 {
        if a.is_sign_negative() && b.is_sign_negative() { -0.0 } else { 0.0 }
    } else {
        a.max(b)
    }
}

/// JavaScript's `Math.min` of two doubles.
fn js_min(a: f64, b: f64) -> f64 {
    if a.is_nan() || b.is_nan() {
        f64::NAN
    } else if a == 0.0 && b == 0.0 {
        if a.is_sign_negative() || b.is_sign_negative() { -0.0 } else { 0.0 }
    } else {
        a.min(b)
    }
}

/// JavaScript's `Math.round`: ties go toward `+∞`.
fn js_round(x: f64) -> f64 {
    if !x.is_finite() || x == 0.0 {
        return x;
    }
    let r = x.round();
    let r = if r - x == -0.5 { r + 1.0 } else { r };
    if r == 0.0 && x < 0.0 { -0.0 } else { r }
}

fn answer(req: &NumericRequest) -> NumericReply {
    let f = |n: &JsNumber| f64::from_bits(n.bits);
    let number = |x: f64| NumericReply::Number(JsNumber::from_bits(x.to_bits()));
    match req {
        NumericRequest::Parse(s) => match s.parse::<f64>() {
            Ok(x) => number(x),
            Err(_) => NumericReply::NotANumber,
        },
        NumericRequest::Format(n) => NumericReply::Text(f(n).to_string()),
        NumericRequest::PropertyKey(n) => {
            let x = f(n);
            NumericReply::Text(if x.fract() == 0.0 { format!("{}", x as i64) } else { x.to_string() })
        }
        NumericRequest::Arithmetic(op, a, b) => {
            let (a, b) = (f(a), f(b));
            number(match op {
                ArithmeticOp::Add => a + b,
                ArithmeticOp::Subtract => a - b,
                ArithmeticOp::Multiply => a * b,
                ArithmeticOp::Divide => a / b,
                ArithmeticOp::Remainder => a % b,
                ArithmeticOp::Power => a.powf(b),
                ArithmeticOp::Max => js_max(a, b),
                ArithmeticOp::Min => js_min(a, b),
            })
        }
        NumericRequest::Rounding(op, n) => number(match op {
            RoundingOp::Floor => f(n).floor(),
            RoundingOp::Ceil => f(n).ceil(),
            RoundingOp::Round => js_round(f(n)),
        }),
        NumericRequest::FromCount(k) => number(*k as f64),
        NumericRequest::ToIndex(n) => NumericReply::Index(f(n) as isize),
    }
}

/// Reads and runs a script, answering each request and raising the budget as needed.
fn run(source: &str) -> Result<RunOutcome, SyntaxError> {
    let mut tape = Vec::new();
    let mut fuel = 256u64;
    loop {
        match js(source, &tape, fuel) {
            Ok(result) => return result,
            Err(Halt::NeedReply(req)) => tape.push(answer(&req)),
            Err(Halt::OutOfFuel) => fuel *= 4,
            Err(other) => panic!("the run stopped: {:?}", other),
        }
    }
}

fn printed(source: &str) -> Vec<String> {
    run(source).expect("the script should read").printed
}

fn syntax_error(source: &str) -> SyntaxError {
    match run(source) {
        Err(e) => e,
        Ok(_) => panic!("the script should not read"),
    }
}

fn tokens(source: &str) -> Result<Vec<Token>, SyntaxError> {
    let mut tape = Vec::new();
    loop {
        let mut m = Machine::new(JsScope::new_root(), None);
        match m.tokenize(source, &tape) {
            Ok(result) => return result,
            Err(Halt::NeedReply(req)) => tape.push(answer(&req)),
            Err(other) => panic!("reading stopped: {:?}", other),
        }
    }
}

fn num_bits(x: f64) -> JsNumber {
    JsNumber::from_bits(x.to_bits())
}

// ---------------------------------------------------------------------------
// Reading
// ---------------------------------------------------------------------------

#[test]
fn lexer_groups_and_joined_punctuation() {
    let toks = tokens("a += (b);").unwrap();
    assert_eq!(toks.len(), 7);
    assert!(matches!(&toks[0], Token::Ident(s) if s == "a"));
    assert!(matches!(&toks[1], Token::Punct('+', true)));
    assert!(matches!(&toks[2], Token::Punct('=', false)));
    assert!(matches!(&toks[3], Token::Open(Delim::Paren, 5)));
    assert!(matches!(&toks[4], Token::Ident(s) if s == "b"));
    assert!(matches!(&toks[5], Token::Close(Delim::Paren)));
    assert!(matches!(&toks[6], Token::Punct(';', false)));
}

#[test]
fn lexer_reads_strings_numbers_and_comments() {
    let toks = tokens("// note\n\"a\\nb\" 4.5 /* x */ z").unwrap();
    assert_eq!(toks.len(), 3);
    assert!(matches!(&toks[0], Token::Str(s) if s == "a\nb"));
    assert!(matches!(&toks[1], Token::Num(n) if *n == num_bits(4.5)));
    assert!(matches!(&toks[2], Token::Ident(s) if s == "z"));
}

#[test]
fn lexer_errors() {
    assert!(matches!(tokens("\"open"), Err(SyntaxError::UnterminatedString(0))));
    assert!(matches!(tokens("(a"), Err(SyntaxError::UnbalancedDelimiter(_))));
    assert!(matches!(tokens("a ) b"), Err(SyntaxError::UnbalancedDelimiter(2))));
    assert!(matches!(tokens("/* never closed"), Err(SyntaxError::UnterminatedComment(0))));
    assert!(matches!(tokens("a ` b"), Err(SyntaxError::UnexpectedCharacter(2))));
}

#[test]
fn parser_precedence_and_updates() {
    let toks = tokens("x = 1 + 2 * 3; i++;").unwrap();
    let script = parse_script(&toks).unwrap();
    assert_eq!(script.statements.len(), 2);
    match &script.statements[0] {
        JsStatement::Expression(JsExpression::Assignment(n, v)) => {
            assert_eq!(n, "x");
            match v.as_ref() {
                JsExpression::BinaryOp(l, JsBinaryOp::Add, r) => {
                    assert!(matches!(l.as_ref(), JsExpression::Literal(JsLiteral::Number(_))));
                    assert!(matches!(r.as_ref(), JsExpression::BinaryOp(_, JsBinaryOp::Multiply, _)));
                }
                other => panic!("unexpected tree: {:?}", other),
            }
        }
        other => panic!("unexpected statement: {:?}", other),
    }
    match &script.statements[1] {
        JsStatement::Expression(JsExpression::Assignment(n, v)) => {
            assert_eq!(n, "i");
            assert!(matches!(v.as_ref(), JsExpression::BinaryOp(_, JsBinaryOp::Add, _)));
        }
        other => panic!("unexpected statement: {:?}", other),
    }
}

#[test]
fn syntax_errors_are_reported() {
    assert!(matches!(syntax_error("let x = 1"), SyntaxError::ExpectedToken(_, Expectation::Semicolon)));
    assert!(matches!(syntax_error("try { x; }"), SyntaxError::TryNeedsHandler(_)));
    assert!(matches!(syntax_error("5++;"), SyntaxError::InvalidUpdateTarget(_)));
    assert!(matches!(syntax_error("let = 3;"), SyntaxError::ExpectedIdentifier(1)));
    assert!(matches!(syntax_error("let x = ;"), SyntaxError::ExpectedExpression(3)));
    assert!(matches!(syntax_error("let o = { \"k\" };"), SyntaxError::PropertyNeedsValue(_)));
}

#[test]
fn compile_script_counts_the_replies_it_used() {
    let mut tape = Vec::new();
    loop {
        match compile_script("let a = 1; let b = 2.5;", &tape) {
            Ok(Ok((_, used))) => {
                assert_eq!(used, 2);
                break;
            }
            Ok(Err(e)) => panic!("unexpected syntax error: {:?}", e),
            Err(Halt::NeedReply(req)) => tape.push(answer(&req)),
            Err(other) => panic!("reading stopped: {:?}", other),
        }
    }
}

#[test]
fn reading_a_number_literal_asks_for_it() {
    match js("let a = 12;", &Vec::new(), 100) {
        Err(Halt::NeedReply(NumericRequest::Parse(s))) => assert_eq!(s, "12"),
        other => panic!("unexpected result: {:?}", other.is_ok()),
    }
}

#[test]
fn a_wrong_reply_kind_is_refused() {
    let tape = vec![NumericReply::Text("no".to_string())];
    assert!(matches!(js("let a = 12;", &tape, 100), Err(Halt::UnexpectedReply)));
}

// ---------------------------------------------------------------------------
// Running
// ---------------------------------------------------------------------------

#[test]
fn functions_and_strings() {
    let out = printed(
        "function greet(x) { console.log(x); }
         function world() { return \"Hello\"; }
         let h = world();
         greet(h + \" World\");
         function add3(a, b, c) { return a + b + c; }
         console.log(\"Number: \" + add3(12, 11, 10));",
    );
    assert_eq!(out, vec!["Hello World".to_string(), "Number: 33".to_string()]);
}

#[test]
fn division_remainder_and_compound_assignment() {
    let out = printed(
        "let number = 33;
         console.log(number / 3, number % 5);
         number += 7; number -= 5; number *= 2; number /= 7; number %= 5; number++; number--;
         console.log(number);",
    );
    assert_eq!(out, vec!["11 3".to_string(), "0".to_string()]);
}

#[test]
fn control_flow() {
    let out = printed(
        "if (1 > 2) { console.log(\"no\"); } else if (2 > 1) { console.log(\"else-if\"); } else { console.log(\"no\"); }
         for (let i = 0; i < 3; i++) { console.log(i); }
         let j = 0; while (j < 2) { j = j + 1; }
         let k = 0; do { k = k + 1; } while (k < 0);
         console.log(j, k);",
    );
    assert_eq!(out, vec!["else-if", "0", "1", "2", "2 1"]);
}

#[test]
fn arrays_and_callbacks() {
    let out = printed(
        "let numbers = [1, 2, 3, 4];
         let doubled = numbers.map(function(x) { return x * 2; });
         let big = numbers.filter(function(x) { return x > 2; });
         let sum = numbers.reduce(function(t, x) { return t + x; }, 0);
         console.log(doubled.join(\",\"), big.join(\",\"), sum, numbers.includes(3));
         let a = [1];
         a.push(4);
         a[0] += 9;
         console.log(a.pop(), a[0]);",
    );
    assert_eq!(out, vec!["2,4,6,8 3,4 10 true", "4 10"]);
}

#[test]
fn objects_and_this() {
    let out = printed(
        "let person = {
             name: \"John\",
             age: 0,
             setAge: function(x) { this.age = x; },
             info: function() { console.log(this.name + \" \" + this.age); }
         };
         person.setAge(21);
         person.info();
         let name = \"Jane\";
         let copied = { name, \"profile-id\": \"user-31\" };
         console.log(copied.name, copied[\"profile-id\"]);",
    );
    assert_eq!(out, vec!["John 21", "Jane user-31"]);
}

#[test]
fn a_method_call_cannot_update_a_constant_object() {
    let out = printed(
        "const person = { age: 0, setAge: function(x) { this.age = x; } };
         person.setAge(21);
         console.log(person.age);",
    );
    assert_eq!(out, vec!["0"]);
}

#[test]
fn exceptions_and_finally() {
    let out = printed(
        "try { throw Error(\"boom\"); } catch (e) { console.log(\"caught\"); } finally { console.log(\"finally\"); }
         try { throw 1; } catch { console.log(\"no binding\"); }",
    );
    assert_eq!(out, vec!["caught", "finally", "no binding"]);
}

#[test]
fn builtins_from_scripts() {
    let out = printed(
        "console.log(Math.max(1, 9, 3), Math.floor(4.8), Math.pow(2, 3));
         console.log(String(123), Number(\"42\"), Boolean(\"\"));
         let o = Object.assign({ first: \"Jane\" }, { last: \"Doe\" });
         console.log(Object.keys(o).join(\",\"), JSON.stringify({ ok: true, count: 2 }));",
    );
    assert_eq!(out, vec!["9 4 8", "123 42 false", "first,last {\"ok\":true,\"count\":2}"]);
}

#[test]
fn an_assignment_inside_an_expression_gives_the_assigned_value() {
    let out = printed(
        "let a = 1; let b = (a = 5); console.log(a, b);
         let c = 0; let d = 0; c = d = 7; console.log(c, d);
         let o = { n: 1 }; let arr = [0]; let e = (o.n = 4) + (arr[0] = 2); console.log(o.n, arr[0], e);",
    );
    assert_eq!(out, vec!["5 5", "7 7", "4 2 6"]);
}

#[test]
fn script_value_is_the_last_expression() {
    let outcome = run("let a = 2; a + 3;").unwrap();
    assert!(matches!(outcome.value, JsValue::Number(n) if n == num_bits(5.0)));
}

#[test]
fn a_script_that_runs_out_of_steps_halts() {
    let mut tape = Vec::new();
    loop {
        match js("let i = 0; while (true) { i = i + 1; }", &tape, 500) {
            Err(Halt::NeedReply(req)) => tape.push(answer(&req)),
            Err(Halt::OutOfFuel) => break,
            _ => panic!("the loop should not end"),
        }
    }
}

#[test]
fn a_constant_keeps_its_value() {
    let out = printed("const c = 1; c = 2; console.log(c);");
    assert_eq!(out, vec!["1"]);
}

#[test]
fn a_function_updates_an_enclosing_binding() {
    let out = printed(
        "let count = 0;
         function inc() { count = count + 1; }
         inc(); inc();
         console.log(count);",
    );
    assert_eq!(out, vec!["2"]);
}

#[test]
fn an_inner_declaration_shadows_an_outer_one() {
    let out = printed(
        "let x = 1;
         function f() { let x = 5; return x; }
         console.log(f(), x);",
    );
    assert_eq!(out, vec!["5 1"]);
}

#[test]
fn statements_after_a_return_do_not_run() {
    let out = printed(
        "function f() { console.log(\"before\"); return 1; console.log(\"after\"); }
         console.log(f());",
    );
    assert_eq!(out, vec!["before", "1"]);
}

#[test]
fn a_finally_that_returns_replaces_a_throw() {
    let out = printed(
        "function f() { try { throw \"x\"; } finally { return \"finally wins\"; } }
         console.log(f());
         function g() { try { return \"try\"; } finally { console.log(\"cleanup\"); } }
         console.log(g());",
    );
    assert_eq!(out, vec!["finally wins", "cleanup", "try"]);
}

#[test]
fn more_reading_errors() {
    assert!(matches!(tokens("\"a\\qb\""), Err(SyntaxError::UnknownEscape(2))));
    assert!(matches!(tokens("let n = 12abc;"), Err(SyntaxError::MalformedNumber(8))));
    assert!(matches!(syntax_error("let o = { 5: 1 };"), SyntaxError::ExpectedPropertyKey(4)));
    assert!(matches!(syntax_error("let a = (1 2);"), SyntaxError::UnexpectedToken(_)));
}

#[test]
fn a_function_prints_as_displayed() {
    let out = printed("function f(x, y) { return x; } console.log(f);");
    assert_eq!(out, vec!["function(x, y) {...}"]);
}

#[test]
fn json_parse_gives_back_what_stringify_wrote() {
    let out = printed(
        "let a = JSON.parse(JSON.stringify([null, 1, \"t\\\"x\", [true, false]]));
         console.log(a[0], a[1], a[2], a[3][1]);
         let o = JSON.parse(JSON.stringify({ k: 2, n: { m: \"v\" } }));
         console.log(o.k, o.n.m);
         console.log(JSON.parse(\"\\\"\"), JSON.parse(\"[1,]\"), JSON.parse(\" { } \").x);",
    );
    assert_eq!(out, vec!["null 1 t\"x false", "2 v", "undefined undefined undefined"]);
}

#[test]
fn json_round_trip_keeps_quotes_and_backslashes() {
    let out = printed(
        "let s = \"q\\\"b\\\\e\";
         let t = JSON.parse(JSON.stringify(s));
         let a = JSON.parse(JSON.stringify([s, [null], true]));
         let o = JSON.parse(JSON.stringify({ k: s, n: { m: [false] } }));
         console.log(t === s, a[0] === s, a[1][0], a[2], o.k === s, o.n.m[0]);",
    );
    assert_eq!(out, vec!["true true null true true false"]);
}

#[test]
fn math_follows_javascript() {
    let out = printed("console.log(Math.round(-2.5), Math.round(2.5), Math.max(0 / 0, 1), Math.min(1, 0 / 0));");
    assert_eq!(out, vec!["-2 3 NaN NaN"]);
}

#[test]
fn member_increments_in_for_loops_are_kept() {
    let out = printed(
        "let o = { n: 0 };
         for (let i = 0; i < 3; o.n++) { i = i + 1; }
         let a = [0];
         for (let j = 0; j < 2; a[0] += 5) { j = j + 1; }
         console.log(o.n, a[0]);",
    );
    assert_eq!(out, vec!["3 10"]);
}

#[test]
fn a_method_without_return_gives_undefined() {
    let out = printed(
        "let p = { age: 0, setAge: function(x) { this.age = x; } };
         let r = p.setAge(21);
         console.log(r, p.age);
         function two(a, b) { return b; }
         console.log(two(1));",
    );
    assert_eq!(out, vec!["undefined 21", "undefined"]);
}

#[test]
fn syntax_errors_carry_their_message() {
    assert_eq!(syntax_error("try { x; }").message(), "try requires catch and/or finally");
    assert_eq!(syntax_error("5++;").message(), "invalid update target");
    assert_eq!(syntax_error("let x = ;").message(), "expected expression");
    assert_eq!(syntax_error("let x = ;").position(), 3);
    assert_eq!(syntax_error("let o = { \"k\" };").message(), "quoted object property keys require a value");
    assert_eq!(syntax_error("let o = { 5: 1 };").message(), "expected object property key");
    assert_eq!(syntax_error("let x = 1").message(), "expected `;`");
}
