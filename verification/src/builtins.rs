//! The global objects: `console`, `Math`, `JSON`, `Object` and the
//! constructors `Error`, `TypeError`, `String`, `Number`, `Boolean`.
use vstd::prelude::*;
use crate::number::JsNumber;
use crate::value::{
    JsValue, JsFunction, BytecodeProgram, JsErrorKind, ValueModel, FunctionModel, InstrModel, values_model,
    props_model, strings_model, instrs_model, lemma_values_model_len, lemma_values_model_index,
    lemma_props_model_push,
};
use crate::props::entry_insert;
use crate::numeric::{NumericReply, ReplyModel, replies_model};
use crate::machine::{Machine, Halt, WorldModel, Outcome, agrees_text, agrees_number};
use crate::convert::{vm_to_number, vm_primitive_string};
use crate::ops::{truthy, to_bool, new_error_model, new_error, props_insert};
use crate::text::text;

verus! {

// ---------------------------------------------------------------------------
// Global values
// ---------------------------------------------------------------------------

/// A function value with the given parameter names and an empty body.
pub open spec fn native_function(params: Seq<Seq<char>>) -> ValueModel {
    ValueModel::Function(FunctionModel { parameters: params, code: Seq::empty() })
}

/// An object whose properties are the given methods, each an empty function.
pub open spec fn method_table(names: Seq<Seq<char>>) -> ValueModel
    decreases names.len(),
{
    if names.len() == 0 {
        ValueModel::Object(Seq::empty())
    } else {
        match method_table(names.drop_last()) {
            ValueModel::Object(p) => ValueModel::Object(entry_insert(p, names.last(), native_function(Seq::empty()))),
            other => other,
        }
    }
}

pub open spec fn math_methods() -> Seq<Seq<char>> {
    seq!["abs"@, "floor"@, "ceil"@, "round"@, "max"@, "min"@, "pow"@]
}

pub open spec fn json_methods() -> Seq<Seq<char>> {
    seq!["stringify"@, "parse"@]
}

pub open spec fn object_methods() -> Seq<Seq<char>> {
    seq!["keys"@, "values"@, "assign"@]
}

/// The value a global name stands for; these names shadow variables.
pub open spec fn global_value(name: Seq<char>) -> Option<ValueModel> {
    if name == "console"@ {
        Some(ValueModel::Object(seq![("log"@, native_function(seq!["values"@]))]))
    } else if name == "Error"@ || name == "TypeError"@ {
        Some(native_function(seq!["message"@]))
    } else if name == "String"@ || name == "Number"@ || name == "Boolean"@ {
        Some(native_function(seq!["value"@]))
    } else if name == "Math"@ {
        Some(method_table(math_methods()))
    } else if name == "JSON"@ {
        Some(method_table(json_methods()))
    } else if name == "Object"@ {
        Some(method_table(object_methods()))
    } else {
        None
    }
}

// ---------------------------------------------------------------------------
// Global functions
// ---------------------------------------------------------------------------

/// The text of the first argument, or the empty text.
pub open spec fn vm_first_text(args: Seq<ValueModel>, w: WorldModel, tape: Seq<ReplyModel>) -> Outcome<Seq<char>> {
    if args.len() > 0 {
        vm_primitive_string(args[0], w, tape)
    } else {
        Ok((w, Seq::empty()))
    }
}

/// The first argument as a number, or `default` when there is none.
pub open spec fn vm_first_number(args: Seq<ValueModel>, default: JsNumber, w: WorldModel, tape: Seq<ReplyModel>) -> Outcome<JsNumber> {
    if args.len() > 0 {
        vm_to_number(args[0], w, tape)
    } else {
        Ok((w, default))
    }
}

/// A call of a global constructor by name: `Error` and `TypeError` make
/// error objects, `String`, `Number` and `Boolean` convert their argument.
/// `None` for the other names.
pub open spec fn vm_call_global(name: Seq<char>, args: Seq<ValueModel>, w: WorldModel, tape: Seq<ReplyModel>) -> Outcome<Option<ValueModel>> {
    if name == "Error"@ || name == "TypeError"@ {
        match vm_first_text(args, w, tape) {
            Err(h) => Err(h),
            Ok((w1, m)) => Ok((w1, Some(new_error_model(
                if name == "Error"@ { JsErrorKind::Error } else { JsErrorKind::TypeError },
                m,
            )))),
        }
    } else if name == "String"@ {
        match vm_first_text(args, w, tape) {
            Err(h) => Err(h),
            Ok((w1, m)) => Ok((w1, Some(ValueModel::String(m)))),
        }
    } else if name == "Number"@ {
        match vm_first_number(args, JsNumber { bits: 0 }, w, tape) {
            Err(h) => Err(h),
            Ok((w1, n)) => Ok((w1, Some(ValueModel::Number(n)))),
        }
    } else if name == "Boolean"@ {
        Ok((w, Some(ValueModel::Boolean(args.len() > 0 && truthy(args[0])))))
    } else {
        Ok((w, None))
    }
}

// ---------------------------------------------------------------------------
// Executable globals
// ---------------------------------------------------------------------------

fn native(params: Vec<String>) -> (v: JsValue)
    ensures
        v@ == native_function(strings_model(params@)),
{
    let v = JsValue::Function(JsFunction { parameters: params, bytecode: BytecodeProgram { instructions: Vec::new() } });
    assert(instrs_model(Seq::<crate::value::Instruction>::empty()) =~= Seq::<InstrModel>::empty());
    v
}

fn one_name(s: &str) -> (v: Vec<String>)
    ensures
        strings_model(v@) == seq![s@],
{
    let mut v: Vec<String> = Vec::new();
    v.push(text(s));
    assert(strings_model(v@) =~= seq![s@]);
    v
}

fn method_object(names: &Vec<&str>) -> (v: JsValue)
    ensures
        v@ == method_table(names@.map_values(|s: &str| s@)),
{
    let ghost ns = names@.map_values(|s: &str| s@);
    let mut props: Vec<(String, JsValue)> = Vec::new();
    let mut i: usize = 0;
    assert(ns.take(0) =~= Seq::<Seq<char>>::empty());
    assert(props_model(props@) =~= Seq::<(Seq<char>, ValueModel)>::empty());
    while i < names.len()
        invariant
            i <= names@.len(),
            ns == names@.map_values(|s: &str| s@),
            method_table(ns.take(i as int)) == ValueModel::Object(props_model(props@)),
        decreases names@.len() - i,
    {
        proof {
            assert(ns.take(i + 1).drop_last() =~= ns.take(i as int));
            assert(ns.take(i + 1).last() == names@[i as int]@);
        }
        let f = native(Vec::new());
        assert(strings_model(Seq::<String>::empty()) =~= Seq::<Seq<char>>::empty());
        props_insert(&mut props, text(names[i]), f);
        i += 1;
    }
    assert(ns.take(names@.len() as int) =~= ns);
    JsValue::Object(props)
}

/// The value a global name stands for.
pub fn global_property(name: &String) -> (r: Option<JsValue>)
    ensures
        match global_value(name@) {
            Some(v) => r matches Some(x) && x@ == v,
            None => r is None,
        },
{
    if *name == text("console") {
        let mut props: Vec<(String, JsValue)> = Vec::new();
        let f = native(one_name("values"));
        let key = text("log");
        proof { lemma_props_model_push(props@, (key, f)); }
        props.push((key, f));
        assert(props_model(props@) =~= seq![("log"@, native_function(seq!["values"@]))]);
        Some(JsValue::Object(props))
    } else if *name == text("Error") || *name == text("TypeError") {
        Some(native(one_name("message")))
    } else if *name == text("String") || *name == text("Number") || *name == text("Boolean") {
        Some(native(one_name("value")))
    } else if *name == text("Math") {
        let names = vec!["abs", "floor", "ceil", "round", "max", "min", "pow"];
        assert(names@.map_values(|s: &str| s@) =~= math_methods());
        Some(method_object(&names))
    } else if *name == text("JSON") {
        let names = vec!["stringify", "parse"];
        assert(names@.map_values(|s: &str| s@) =~= json_methods());
        Some(method_object(&names))
    } else if *name == text("Object") {
        let names = vec!["keys", "values", "assign"];
        assert(names@.map_values(|s: &str| s@) =~= object_methods());
        Some(method_object(&names))
    } else {
        None
    }
}

impl Machine {
    fn first_text(&mut self, args: &Vec<JsValue>, tape: &Vec<NumericReply>) -> (r: Result<String, Halt>)
        ensures
            agrees_text(vm_first_text(values_model(args@), old(self)@, replies_model(tape@)), r, final(self)@),
    {
        proof { lemma_values_model_len(args@); }
        if args.len() > 0 {
            proof { lemma_values_model_index(args@, 0); }
            self.primitive_string(&args[0], tape)
        } else {
            Ok(String::new())
        }
    }

    fn first_number(&mut self, args: &Vec<JsValue>, default: JsNumber, tape: &Vec<NumericReply>) -> (r: Result<JsNumber, Halt>)
        ensures
            agrees_number(vm_first_number(values_model(args@), default, old(self)@, replies_model(tape@)), r, final(self)@),
    {
        proof { lemma_values_model_len(args@); }
        if args.len() > 0 {
            proof { lemma_values_model_index(args@, 0); }
            self.to_number(&args[0], tape)
        } else {
            Ok(default)
        }
    }

    /// A call of a global constructor by name.
    pub fn call_global(&mut self, name: &String, args: &Vec<JsValue>, tape: &Vec<NumericReply>) -> (r: Result<Option<JsValue>, Halt>)
        ensures
            match vm_call_global(name@, values_model(args@), old(self)@, replies_model(tape@)) {
                Ok((w2, Some(v))) => r matches Ok(Some(x)) && x@ == v && final(self)@ == w2,
                Ok((w2, None)) => r matches Ok(None) && final(self)@ == w2,
                Err(h) => r matches Err(e) && e@ == h,
            },
    {
        proof { lemma_values_model_len(args@); }
        if *name == text("Error") || *name == text("TypeError") {
            let m = self.first_text(args, tape)?;
            let kind = if *name == text("Error") { JsErrorKind::Error } else { JsErrorKind::TypeError };
            Ok(Some(new_error(kind, m)))
        } else if *name == text("String") {
            let m = self.first_text(args, tape)?;
            Ok(Some(JsValue::String(m)))
        } else if *name == text("Number") {
            let n = self.first_number(args, JsNumber::zero(), tape)?;
            Ok(Some(JsValue::Number(n)))
        } else if *name == text("Boolean") {
            if args.len() > 0 {
                proof { lemma_values_model_index(args@, 0); }
                Ok(Some(JsValue::Boolean(to_bool(&args[0]))))
            } else {
                Ok(Some(JsValue::Boolean(false)))
            }
        } else {
            Ok(None)
        }
    }
}

} // verus!
