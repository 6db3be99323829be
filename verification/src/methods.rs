//! The methods of the global objects: `console.log`, `Math`, `JSON`, `Object`.
use vstd::prelude::*;
use crate::number::{JsNumber, NAN_BITS, NEG_INFINITY_BITS, INFINITY_BITS, MAGNITUDE_MASK};
use crate::value::{
    JsValue, ValueModel, values_model, props_model, clone_value, lemma_values_model_len, lemma_values_model_index,
    lemma_values_model_push, lemma_props_model_len, lemma_props_model_index,
};
use crate::props::entry_insert;
use crate::numeric::{NumericRequest, NumericReply, RequestModel, ReplyModel, ArithmeticOp, RoundingOp, replies_model};
use crate::machine::{Machine, Halt, HaltModel, WorldModel, Outcome, ask_number, agrees_text, agrees_number};
use crate::convert::{
    vm_to_number, vm_console_string, error_kind_name, lemma_values_model_take, lemma_values_model_take_last,
};
use crate::ops::props_insert;
use crate::text::text;
use crate::json::{vm_stringify, vm_parse_json};

verus! {

// ---------------------------------------------------------------------------
// console.log
// ---------------------------------------------------------------------------

/// The console texts of the arguments joined by single spaces, from left to right.
pub open spec fn vm_console_line(a: Seq<ValueModel>, w: WorldModel, tape: Seq<ReplyModel>) -> Outcome<Seq<char>>
    decreases a.len(),
{
    if a.len() == 0 {
        Ok((w, Seq::empty()))
    } else {
        match vm_console_line(a.drop_last(), w, tape) {
            Err(h) => Err(h),
            Ok((w1, s0)) => match vm_console_string(a.last(), w1, tape) {
                Err(h) => Err(h),
                Ok((w2, x)) => Ok((w2, if a.len() == 1 { x } else { s0 + " "@ + x })),
            },
        }
    }
}

/// Once a prefix of the arguments halts, the whole line halts the same way.
pub proof fn lemma_console_line_halts(a: Seq<ValueModel>, k: int, w: WorldModel, tape: Seq<ReplyModel>)
    requires
        0 <= k <= a.len(),
        vm_console_line(a.take(k), w, tape) is Err,
    ensures
        vm_console_line(a, w, tape) == vm_console_line(a.take(k), w, tape),
    decreases a.len() - k,
{
    if k < a.len() {
        assert(a.take(k + 1).drop_last() =~= a.take(k));
        lemma_console_line_halts(a, k + 1, w, tape);
    } else {
        assert(a.take(k) =~= a);
    }
}

// ---------------------------------------------------------------------------
// Math
// ---------------------------------------------------------------------------

/// The first argument as a number, NaN when there is none.
pub open spec fn vm_arg_number(args: Seq<ValueModel>, i: int, w: WorldModel, tape: Seq<ReplyModel>) -> Outcome<JsNumber> {
    if 0 <= i < args.len() {
        vm_to_number(args[i], w, tape)
    } else {
        Ok((w, JsNumber { bits: NAN_BITS }))
    }
}

/// The arguments converted to numbers one by one and folded with `op`,
/// starting from `init`.
pub open spec fn vm_fold_numbers(a: Seq<ValueModel>, op: ArithmeticOp, init: JsNumber, w: WorldModel, tape: Seq<ReplyModel>) -> Outcome<JsNumber>
    decreases a.len(),
{
    if a.len() == 0 {
        Ok((w, init))
    } else {
        match vm_fold_numbers(a.drop_last(), op, init, w, tape) {
            Err(h) => Err(h),
            Ok((w1, acc)) => match vm_to_number(a.last(), w1, tape) {
                Err(h) => Err(h),
                Ok((w2, x)) => ask_number(w2, tape, RequestModel::Arithmetic(op, acc, x)),
            },
        }
    }
}

pub proof fn lemma_fold_numbers_halts(a: Seq<ValueModel>, k: int, op: ArithmeticOp, init: JsNumber, w: WorldModel, tape: Seq<ReplyModel>)
    requires
        0 <= k <= a.len(),
        vm_fold_numbers(a.take(k), op, init, w, tape) is Err,
    ensures
        vm_fold_numbers(a, op, init, w, tape) == vm_fold_numbers(a.take(k), op, init, w, tape),
    decreases a.len() - k,
{
    if k < a.len() {
        assert(a.take(k + 1).drop_last() =~= a.take(k));
        lemma_fold_numbers_halts(a, k + 1, op, init, w, tape);
    } else {
        assert(a.take(k) =~= a);
    }
}

/// A `Math` method, or `None` when `Math` has no method of that name.
pub open spec fn vm_math(method: Seq<char>, args: Seq<ValueModel>, w: WorldModel, tape: Seq<ReplyModel>) -> Outcome<Option<ValueModel>> {
    if method == "abs"@ {
        match vm_arg_number(args, 0, w, tape) {
            Err(h) => Err(h),
            Ok((w1, n)) => Ok((w1, Some(ValueModel::Number(JsNumber { bits: n.bits & MAGNITUDE_MASK })))),
        }
    } else if method == "floor"@ || method == "ceil"@ || method == "round"@ {
        let op = if method == "floor"@ {
            RoundingOp::Floor
        } else if method == "ceil"@ {
            RoundingOp::Ceil
        } else {
            RoundingOp::Round
        };
        match vm_arg_number(args, 0, w, tape) {
            Err(h) => Err(h),
            Ok((w1, n)) => match ask_number(w1, tape, RequestModel::Rounding(op, n)) {
                Err(h) => Err(h),
                Ok((w2, m)) => Ok((w2, Some(ValueModel::Number(m)))),
            },
        }
    } else if method == "max"@ {
        match vm_fold_numbers(args, ArithmeticOp::Max, JsNumber { bits: NEG_INFINITY_BITS }, w, tape) {
            Err(h) => Err(h),
            Ok((w1, n)) => Ok((w1, Some(ValueModel::Number(n)))),
        }
    } else if method == "min"@ {
        match vm_fold_numbers(args, ArithmeticOp::Min, JsNumber { bits: INFINITY_BITS }, w, tape) {
            Err(h) => Err(h),
            Ok((w1, n)) => Ok((w1, Some(ValueModel::Number(n)))),
        }
    } else if method == "pow"@ {
        match vm_arg_number(args, 0, w, tape) {
            Err(h) => Err(h),
            Ok((w1, b)) => match vm_arg_number(args, 1, w1, tape) {
                Err(h) => Err(h),
                Ok((w2, e)) => match ask_number(w2, tape, RequestModel::Arithmetic(ArithmeticOp::Power, b, e)) {
                    Err(h) => Err(h),
                    Ok((w3, r)) => Ok((w3, Some(ValueModel::Number(r)))),
                },
            },
        }
    } else {
        Ok((w, None))
    }
}

// ---------------------------------------------------------------------------
// Object
// ---------------------------------------------------------------------------

pub open spec fn string_values(keys: Seq<Seq<char>>) -> Seq<ValueModel> {
    keys.map_values(|k: Seq<char>| ValueModel::String(k))
}

pub open spec fn entry_values(p: Seq<(Seq<char>, ValueModel)>) -> Seq<ValueModel> {
    p.map_values(|e: (Seq<char>, ValueModel)| e.1)
}

pub open spec fn entry_keys(p: Seq<(Seq<char>, ValueModel)>) -> Seq<Seq<char>> {
    p.map_values(|e: (Seq<char>, ValueModel)| e.0)
}

/// `Object.keys`: the keys of an object; an error's `name`, `message` and
/// property keys; nothing for other values.
pub open spec fn object_keys_model(v: ValueModel) -> Seq<ValueModel> {
    match v {
        ValueModel::Object(p) => string_values(entry_keys(p)),
        ValueModel::Error(e) => seq![ValueModel::String("name"@), ValueModel::String("message"@)]
            + string_values(entry_keys(e.properties)),
        _ => Seq::empty(),
    }
}

/// `Object.values`: the values of an object; an error's name, message and
/// property values; nothing for other values.
pub open spec fn object_values_model(v: ValueModel) -> Seq<ValueModel> {
    match v {
        ValueModel::Object(p) => entry_values(p),
        ValueModel::Error(e) => seq![ValueModel::String(error_kind_name(e.kind)), ValueModel::String(e.message)]
            + entry_values(e.properties),
        _ => Seq::empty(),
    }
}

/// Every entry of `src` stored into `target`, in order.
pub open spec fn insert_all(target: Seq<(Seq<char>, ValueModel)>, src: Seq<(Seq<char>, ValueModel)>) -> Seq<(Seq<char>, ValueModel)>
    decreases src.len(),
{
    if src.len() == 0 {
        target
    } else {
        let t = insert_all(target, src.drop_last());
        entry_insert(t, src.last().0, src.last().1)
    }
}

/// The properties of every object among `sources` stored into `target`, in order.
pub open spec fn assign_sources(target: Seq<(Seq<char>, ValueModel)>, sources: Seq<ValueModel>) -> Seq<(Seq<char>, ValueModel)>
    decreases sources.len(),
{
    if sources.len() == 0 {
        target
    } else {
        let t = assign_sources(target, sources.drop_last());
        match sources.last() {
            ValueModel::Object(p) => insert_all(t, p),
            _ => t,
        }
    }
}

/// `Object.assign`: a new object with the properties of the first argument
/// (when it is an object) and then those of every later object argument.
pub open spec fn object_assign_model(args: Seq<ValueModel>) -> ValueModel {
    let target = if args.len() > 0 {
        match args[0] {
            ValueModel::Object(p) => p,
            _ => Seq::empty(),
        }
    } else {
        Seq::empty()
    };
    ValueModel::Object(if args.len() > 0 { assign_sources(target, args.drop_first()) } else { target })
}

pub open spec fn first_or_undefined(args: Seq<ValueModel>) -> ValueModel {
    if args.len() > 0 {
        args[0]
    } else {
        ValueModel::Undefined
    }
}

/// An `Object` method, or `None` when `Object` has no method of that name.
pub open spec fn object_method(method: Seq<char>, args: Seq<ValueModel>) -> Option<ValueModel> {
    if method == "keys"@ {
        Some(ValueModel::Array(object_keys_model(first_or_undefined(args))))
    } else if method == "values"@ {
        Some(ValueModel::Array(object_values_model(first_or_undefined(args))))
    } else if method == "assign"@ {
        Some(object_assign_model(args))
    } else {
        None
    }
}

// ---------------------------------------------------------------------------
// JSON and the dispatch on global objects
// ---------------------------------------------------------------------------

/// A `JSON` method: `stringify` gives the JSON text of its first argument
/// (`"undefined"` without one), `parse` reads a string argument (`undefined`
/// for anything else). `None` for other names.
pub open spec fn vm_json(method: Seq<char>, args: Seq<ValueModel>, w: WorldModel, tape: Seq<ReplyModel>) -> Outcome<Option<ValueModel>> {
    if method == "stringify"@ {
        if args.len() > 0 {
            match vm_stringify(args[0], w, tape) {
                Err(h) => Err(h),
                Ok((w1, s)) => Ok((w1, Some(ValueModel::String(s)))),
            }
        } else {
            Ok((w, Some(ValueModel::String("undefined"@))))
        }
    } else if method == "parse"@ {
        if args.len() > 0 && args[0] is String {
            match vm_parse_json(args[0]->String_0, w, tape) {
                Err(h) => Err(h),
                Ok((w1, v)) => Ok((w1, Some(v))),
            }
        } else {
            Ok((w, Some(ValueModel::Undefined)))
        }
    } else {
        Ok((w, None))
    }
}

/// A method of a global object called by the object's name: `console.log`
/// prints its arguments and gives `undefined`; `Math`, `JSON` and `Object`
/// have their methods. `None` when the name and method are not one of these.
pub open spec fn vm_call_global_method(
    object: Seq<char>,
    method: Seq<char>,
    args: Seq<ValueModel>,
    w: WorldModel,
    tape: Seq<ReplyModel>,
) -> Outcome<Option<ValueModel>> {
    if object == "console"@ {
        if method == "log"@ {
            match vm_console_line(args, w, tape) {
                Err(h) => Err(h),
                Ok((w1, line)) => Ok((WorldModel { output: w1.output.push(line), ..w1 }, Some(ValueModel::Undefined))),
            }
        } else {
            Ok((w, None))
        }
    } else if object == "Math"@ {
        vm_math(method, args, w, tape)
    } else if object == "JSON"@ {
        vm_json(method, args, w, tape)
    } else if object == "Object"@ {
        Ok((w, object_method(method, args)))
    } else {
        Ok((w, None))
    }
}

/// An outcome with an optional value agrees with an executable result.
pub open spec fn agrees_option(out: Outcome<Option<ValueModel>>, r: Result<Option<JsValue>, Halt>, w: WorldModel) -> bool {
    match out {
        Ok((w2, Some(v))) => r matches Ok(Some(x)) && x@ == v && w == w2,
        Ok((w2, None)) => r matches Ok(None) && w == w2,
        Err(h) => r matches Err(e) && e@ == h,
    }
}

// ---------------------------------------------------------------------------
// Executable methods
// ---------------------------------------------------------------------------

fn string_value_list(keys: &Vec<(String, JsValue)>, prefix: Vec<JsValue>) -> (r: Vec<JsValue>)
    ensures
        values_model(r@) == values_model(prefix@) + string_values(entry_keys(props_model(keys@))),
{
    let mut out = prefix;
    let ghost start = values_model(out@);
    let mut i: usize = 0;
    proof { lemma_props_model_len(keys@); }
    while i < keys.len()
        invariant
            i <= keys@.len(),
            props_model(keys@).len() == keys@.len(),
            values_model(out@) == start + string_values(entry_keys(props_model(keys@))).take(i as int),
        decreases keys@.len() - i,
    {
        let k = JsValue::String(keys[i].0.clone());
        proof {
            lemma_values_model_push(out@, k);
            lemma_props_model_index(keys@, i as int);
        }
        out.push(k);
        i += 1;
        assert(values_model(out@) =~= start + string_values(entry_keys(props_model(keys@))).take(i as int));
    }
    assert(string_values(entry_keys(props_model(keys@))).take(keys@.len() as int)
        =~= string_values(entry_keys(props_model(keys@))));
    out
}

fn value_list(entries: &Vec<(String, JsValue)>, prefix: Vec<JsValue>) -> (r: Vec<JsValue>)
    ensures
        values_model(r@) == values_model(prefix@) + entry_values(props_model(entries@)),
{
    let mut out = prefix;
    let ghost start = values_model(out@);
    let mut i: usize = 0;
    proof { lemma_props_model_len(entries@); }
    while i < entries.len()
        invariant
            i <= entries@.len(),
            props_model(entries@).len() == entries@.len(),
            values_model(out@) == start + entry_values(props_model(entries@)).take(i as int),
        decreases entries@.len() - i,
    {
        let v = clone_value(&entries[i].1);
        proof {
            lemma_values_model_push(out@, v);
            lemma_props_model_index(entries@, i as int);
        }
        out.push(v);
        i += 1;
        assert(values_model(out@) =~= start + entry_values(props_model(entries@)).take(i as int));
    }
    assert(entry_values(props_model(entries@)).take(entries@.len() as int) =~= entry_values(props_model(entries@)));
    out
}

fn two_strings(a: String, b: String) -> (r: Vec<JsValue>)
    ensures
        values_model(r@) == seq![ValueModel::String(a@), ValueModel::String(b@)],
{
    let mut v: Vec<JsValue> = Vec::new();
    let x = JsValue::String(a);
    let y = JsValue::String(b);
    proof { lemma_values_model_push(v@, x); }
    v.push(x);
    proof { lemma_values_model_push(v@, y); }
    v.push(y);
    assert(values_model(Seq::<JsValue>::empty()) =~= Seq::<ValueModel>::empty());
    assert(values_model(v@) =~= seq![ValueModel::String(a@), ValueModel::String(b@)]);
    v
}

/// `Object.keys` of a value.
pub fn object_keys(v: &JsValue) -> (r: Vec<JsValue>)
    ensures
        values_model(r@) == object_keys_model(v@),
{
    match v {
        JsValue::Object(p) => {
            let r = string_value_list(p, Vec::new());
            assert(values_model(Seq::<JsValue>::empty()) =~= Seq::<ValueModel>::empty());
            assert(values_model(r@) =~= object_keys_model(v@));
            r
        },
        JsValue::Error(e) => string_value_list(&e.properties, two_strings(text("name"), text("message"))),
        _ => {
            let r: Vec<JsValue> = Vec::new();
            assert(values_model(r@) =~= Seq::<ValueModel>::empty());
            r
        },
    }
}

/// `Object.values` of a value.
pub fn object_values(v: &JsValue) -> (r: Vec<JsValue>)
    ensures
        values_model(r@) == object_values_model(v@),
{
    match v {
        JsValue::Object(p) => {
            let r = value_list(p, Vec::new());
            assert(values_model(Seq::<JsValue>::empty()) =~= Seq::<ValueModel>::empty());
            assert(values_model(r@) =~= object_values_model(v@));
            r
        },
        JsValue::Error(e) => value_list(&e.properties, two_strings(text(e.kind.as_str()), e.message.clone())),
        _ => {
            let r: Vec<JsValue> = Vec::new();
            assert(values_model(r@) =~= Seq::<ValueModel>::empty());
            r
        },
    }
}

fn insert_all_entries(target: &mut Vec<(String, JsValue)>, src: &Vec<(String, JsValue)>)
    ensures
        props_model(final(target)@) == insert_all(props_model(old(target)@), props_model(src@)),
{
    let mut i: usize = 0;
    proof { lemma_props_model_len(src@); }
    assert(props_model(src@).take(0) =~= Seq::<(Seq<char>, ValueModel)>::empty());
    while i < src.len()
        invariant
            i <= src@.len(),
            props_model(src@).len() == src@.len(),
            props_model(target@) == insert_all(props_model(old(target)@), props_model(src@).take(i as int)),
        decreases src@.len() - i,
    {
        proof {
            lemma_props_model_index(src@, i as int);
            assert(props_model(src@).take(i + 1).drop_last() =~= props_model(src@).take(i as int));
        }
        props_insert(target, src[i].0.clone(), clone_value(&src[i].1));
        i += 1;
    }
    assert(props_model(src@).take(src@.len() as int) =~= props_model(src@));
}

/// `Object.assign` of the arguments.
pub fn object_assign(args: &Vec<JsValue>) -> (r: JsValue)
    ensures
        r@ == object_assign_model(values_model(args@)),
{
    let ghost am = values_model(args@);
    proof { lemma_values_model_len(args@); }
    let mut target: Vec<(String, JsValue)> = Vec::new();
    assert(props_model(target@) =~= Seq::<(Seq<char>, ValueModel)>::empty());
    if args.len() == 0 {
        return JsValue::Object(target);
    }
    proof { lemma_values_model_index(args@, 0); }
    match &args[0] {
        JsValue::Object(p) => {
            target = crate::value::clone_props(p);
        },
        _ => {},
    }
    let ghost t0 = props_model(target@);
    let mut i: usize = 1;
    assert(am.drop_first().take(0) =~= Seq::<ValueModel>::empty());
    while i < args.len()
        invariant
            1 <= i <= args@.len(),
            am == values_model(args@),
            am.len() == args@.len(),
            props_model(target@) == assign_sources(t0, am.drop_first().take(i - 1)),
        decreases args@.len() - i,
    {
        proof {
            lemma_values_model_index(args@, i as int);
            assert(am.drop_first().take(i as int).drop_last() =~= am.drop_first().take(i - 1));
            assert(am.drop_first().take(i as int).last() == am[i as int]);
        }
        match &args[i] {
            JsValue::Object(p) => {
                insert_all_entries(&mut target, p);
            },
            _ => {},
        }
        i += 1;
    }
    assert(am.drop_first().take(args@.len() - 1) =~= am.drop_first());
    JsValue::Object(target)
}

impl Machine {
    /// The console texts of the arguments joined by spaces.
    pub(crate) fn console_line(&mut self, a: &Vec<JsValue>, tape: &Vec<NumericReply>) -> (r: Result<String, Halt>)
        ensures
            agrees_text(vm_console_line(values_model(a@), old(self)@, replies_model(tape@)), r, final(self)@),
    {
        let ghost tm = replies_model(tape@);
        let mut acc = String::new();
        let mut i: usize = 0;
        assert(values_model(a@.take(0)) =~= Seq::<ValueModel>::empty());
        while i < a.len()
            invariant
                i <= a@.len(),
                tm == replies_model(tape@),
                vm_console_line(values_model(a@.take(i as int)), old(self)@, tm) == Ok::<(WorldModel, Seq<char>), HaltModel>((self@, acc@)),
            decreases a@.len() - i,
        {
            proof { lemma_values_model_take_last(a@, i as int); }
            let x = match self.console_string(&a[i], tape) {
                Ok(x) => x,
                Err(e) => {
                    proof {
                        lemma_values_model_len(a@);
                        lemma_values_model_take(a@, i + 1);
                        lemma_values_model_take(a@, a@.len() as int);
                        assert(a@.take(a@.len() as int) =~= a@);
                        lemma_console_line_halts(values_model(a@), i + 1, old(self)@, tm);
                    }
                    return Err(e);
                },
            };
            if i == 0 {
                acc = x;
            } else {
                acc.append(" ");
                acc.append(x.as_str());
            }
            i += 1;
        }
        assert(a@.take(a@.len() as int) =~= a@);
        Ok(acc)
    }

    /// The argument at `i` as a number, NaN when there is none.
    fn arg_number(&mut self, args: &Vec<JsValue>, i: usize, tape: &Vec<NumericReply>) -> (r: Result<JsNumber, Halt>)
        ensures
            agrees_number(vm_arg_number(values_model(args@), i as int, old(self)@, replies_model(tape@)), r, final(self)@),
    {
        proof { lemma_values_model_len(args@); }
        if i < args.len() {
            proof { lemma_values_model_index(args@, i as int); }
            self.to_number(&args[i], tape)
        } else {
            Ok(JsNumber::nan())
        }
    }

    /// The arguments as numbers folded with `op` from `init`.
    fn fold_numbers(&mut self, a: &Vec<JsValue>, op: ArithmeticOp, init: JsNumber, tape: &Vec<NumericReply>) -> (r: Result<JsNumber, Halt>)
        ensures
            agrees_number(vm_fold_numbers(values_model(a@), op, init, old(self)@, replies_model(tape@)), r, final(self)@),
    {
        let ghost tm = replies_model(tape@);
        let mut acc = init;
        let mut i: usize = 0;
        assert(values_model(a@.take(0)) =~= Seq::<ValueModel>::empty());
        while i < a.len()
            invariant
                i <= a@.len(),
                tm == replies_model(tape@),
                vm_fold_numbers(values_model(a@.take(i as int)), op, init, old(self)@, tm) == Ok::<(WorldModel, JsNumber), HaltModel>((self@, acc)),
            decreases a@.len() - i,
        {
            proof { lemma_values_model_take_last(a@, i as int); }
            let step = match self.to_number(&a[i], tape) {
                Ok(x) => self.ask_number(tape, NumericRequest::Arithmetic(op, acc, x)),
                Err(e) => Err(e),
            };
            match step {
                Ok(n) => { acc = n; },
                Err(e) => {
                    proof {
                        lemma_values_model_len(a@);
                        lemma_values_model_take(a@, i + 1);
                        lemma_values_model_take(a@, a@.len() as int);
                        assert(a@.take(a@.len() as int) =~= a@);
                        lemma_fold_numbers_halts(values_model(a@), i + 1, op, init, old(self)@, tm);
                    }
                    return Err(e);
                },
            }
            i += 1;
        }
        assert(a@.take(a@.len() as int) =~= a@);
        Ok(acc)
    }

    /// A `Math` method by name.
    fn math(&mut self, method: &String, args: &Vec<JsValue>, tape: &Vec<NumericReply>) -> (r: Result<Option<JsValue>, Halt>)
        ensures
            agrees_option(vm_math(method@, values_model(args@), old(self)@, replies_model(tape@)), r, final(self)@),
    {
        if *method == text("abs") {
            let n = self.arg_number(args, 0, tape)?;
            Ok(Some(JsValue::Number(n.abs())))
        } else if *method == text("floor") || *method == text("ceil") || *method == text("round") {
            let op = if *method == text("floor") {
                RoundingOp::Floor
            } else if *method == text("ceil") {
                RoundingOp::Ceil
            } else {
                RoundingOp::Round
            };
            let n = self.arg_number(args, 0, tape)?;
            let m = self.ask_number(tape, NumericRequest::Rounding(op, n))?;
            Ok(Some(JsValue::Number(m)))
        } else if *method == text("max") {
            let n = self.fold_numbers(args, ArithmeticOp::Max, JsNumber::from_bits(NEG_INFINITY_BITS), tape)?;
            Ok(Some(JsValue::Number(n)))
        } else if *method == text("min") {
            let n = self.fold_numbers(args, ArithmeticOp::Min, JsNumber::from_bits(INFINITY_BITS), tape)?;
            Ok(Some(JsValue::Number(n)))
        } else if *method == text("pow") {
            let b = self.arg_number(args, 0, tape)?;
            let e = self.arg_number(args, 1, tape)?;
            let p = self.ask_number(tape, NumericRequest::Arithmetic(ArithmeticOp::Power, b, e))?;
            Ok(Some(JsValue::Number(p)))
        } else {
            Ok(None)
        }
    }

    /// A `JSON` method by name.
    fn json(&mut self, method: &String, args: &Vec<JsValue>, tape: &Vec<NumericReply>) -> (r: Result<Option<JsValue>, Halt>)
        ensures
            agrees_option(vm_json(method@, values_model(args@), old(self)@, replies_model(tape@)), r, final(self)@),
    {
        proof { lemma_values_model_len(args@); }
        if *method == text("stringify") {
            if args.len() > 0 {
                proof { lemma_values_model_index(args@, 0); }
                let s = self.stringify(&args[0], tape)?;
                Ok(Some(JsValue::String(s)))
            } else {
                Ok(Some(JsValue::String(text("undefined"))))
            }
        } else if *method == text("parse") {
            if args.len() > 0 {
                proof { lemma_values_model_index(args@, 0); }
                match &args[0] {
                    JsValue::String(s) => {
                        let v = self.parse_json(s, tape)?;
                        Ok(Some(v))
                    },
                    _ => Ok(Some(JsValue::Undefined)),
                }
            } else {
                Ok(Some(JsValue::Undefined))
            }
        } else {
            Ok(None)
        }
    }

    /// A method of a global object, called by the object's name.
    pub fn call_global_method(&mut self, object: &String, method: &String, args: &Vec<JsValue>, tape: &Vec<NumericReply>) -> (r: Result<Option<JsValue>, Halt>)
        ensures
            agrees_option(vm_call_global_method(object@, method@, values_model(args@), old(self)@, replies_model(tape@)), r, final(self)@),
    {
        if *object == text("console") {
            if *method == text("log") {
                let line = self.console_line(args, tape)?;
                self.print(line);
                Ok(Some(JsValue::Undefined))
            } else {
                Ok(None)
            }
        } else if *object == text("Math") {
            self.math(method, args, tape)
        } else if *object == text("JSON") {
            self.json(method, args, tape)
        } else if *object == text("Object") {
            proof { lemma_values_model_len(args@); }
            if *method == text("keys") {
                let v = if args.len() > 0 {
                    proof { lemma_values_model_index(args@, 0); }
                    object_keys(&args[0])
                } else {
                    object_keys(&JsValue::Undefined)
                };
                Ok(Some(JsValue::Array(v)))
            } else if *method == text("values") {
                let v = if args.len() > 0 {
                    proof { lemma_values_model_index(args@, 0); }
                    object_values(&args[0])
                } else {
                    object_values(&JsValue::Undefined)
                };
                Ok(Some(JsValue::Array(v)))
            } else if *method == text("assign") {
                Ok(Some(object_assign(args)))
            } else {
                Ok(None)
            }
        } else {
            Ok(None)
        }
    }
}

} // verus!
