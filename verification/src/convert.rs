//! Conversions of values to numbers and to text.
use vstd::prelude::*;
use crate::number::{JsNumber, NAN_BITS, ONE_BITS};
use crate::value::{JsValue, JsErrorKind, ValueModel, values_model, strings_model};
use crate::numeric::{NumericRequest, NumericReply, RequestModel, ReplyModel, replies_model};
use crate::machine::{
    Machine, Halt, HaltModel, WorldModel, Outcome, ask, ask_text, agrees_number, agrees_text,
};
use crate::text::text;

verus! {

/// The name of an error kind.
pub open spec fn error_kind_name(kind: JsErrorKind) -> Seq<char> {
    match kind {
        JsErrorKind::Error => "Error"@,
        JsErrorKind::TypeError => "TypeError"@,
    }
}

impl JsErrorKind {
    /// The constructor name of the error kind, as `name` reports it.
    pub fn as_str(&self) -> (s: &'static str)
        ensures
            s@ == error_kind_name(*self),
    {
        match self {
            JsErrorKind::Error => "Error",
            JsErrorKind::TypeError => "TypeError",
        }
    }
}

/// How an error object reads as text: its kind, then `: ` and the message
/// when there is one.
pub open spec fn error_text(kind: JsErrorKind, message: Seq<char>) -> Seq<char> {
    if message.len() == 0 {
        error_kind_name(kind)
    } else {
        error_kind_name(kind) + ": "@ + message
    }
}

/// Texts joined by a separator.
pub open spec fn join_texts(parts: Seq<Seq<char>>, sep: Seq<char>) -> Seq<char>
    decreases parts.len(),
{
    if parts.len() == 0 {
        Seq::empty()
    } else if parts.len() == 1 {
        parts[0]
    } else {
        join_texts(parts.drop_last(), sep) + sep + parts.last()
    }
}

pub open spec fn bool_text(b: bool) -> Seq<char> {
    if b {
        "true"@
    } else {
        "false"@
    }
}

/// `to_number`: numbers are themselves, strings are parsed (NaN when they
/// do not parse), `true` is 1, `false` and `null` are 0, the rest is NaN.
pub open spec fn vm_to_number(v: ValueModel, w: WorldModel, tape: Seq<ReplyModel>) -> Outcome<JsNumber> {
    match v {
        ValueModel::Number(n) => Ok((w, n)),
        ValueModel::String(s) => match ask(w, tape, RequestModel::Parse(s)) {
            Ok((w2, ReplyModel::Number(n))) => Ok((w2, n)),
            Ok((w2, ReplyModel::NotANumber)) => Ok((w2, JsNumber { bits: NAN_BITS })),
            Ok(_) => Err(HaltModel::UnexpectedReply),
            Err(h) => Err(h),
        },
        ValueModel::Boolean(b) => Ok((w, JsNumber { bits: if b { ONE_BITS } else { 0 } })),
        ValueModel::Null => Ok((w, JsNumber { bits: 0 })),
        _ => Ok((w, JsNumber { bits: NAN_BITS })),
    }
}

/// `to_primitive_string`: the text a value has in string concatenation.
pub open spec fn vm_primitive_string(v: ValueModel, w: WorldModel, tape: Seq<ReplyModel>) -> Outcome<Seq<char>>
    decreases v, 0nat,
{
    match v {
        ValueModel::String(s) => Ok((w, s)),
        ValueModel::Number(n) => ask_text(w, tape, RequestModel::Format(n)),
        ValueModel::Boolean(b) => Ok((w, bool_text(b))),
        ValueModel::Null => Ok((w, "null"@)),
        ValueModel::Undefined => Ok((w, "undefined"@)),
        ValueModel::Array(a) => vm_join_primitive(a, ","@, w, tape),
        ValueModel::Object(_) => Ok((w, "[object Object]"@)),
        ValueModel::Function(f) => Ok((w, "function("@ + join_texts(f.parameters, ", "@) + ") { [native code] }"@)),
        ValueModel::Error(e) => Ok((w, error_text(e.kind, e.message))),
    }
}

/// The primitive texts of values, joined by a separator, from left to right.
pub open spec fn vm_join_primitive(a: Seq<ValueModel>, sep: Seq<char>, w: WorldModel, tape: Seq<ReplyModel>) -> Outcome<Seq<char>>
    decreases a, 1nat,
{
    if a.len() == 0 {
        Ok((w, Seq::empty()))
    } else {
        match vm_join_primitive(a.drop_last(), sep, w, tape) {
            Err(h) => Err(h),
            Ok((w1, s0)) => match vm_primitive_string(a.last(), w1, tape) {
                Err(h) => Err(h),
                Ok((w2, x)) => Ok((w2, if a.len() == 1 { x } else { s0 + sep + x })),
            },
        }
    }
}

/// The text a value shows when displayed inside a collection: strings are quoted.
pub open spec fn vm_display_string(v: ValueModel, w: WorldModel, tape: Seq<ReplyModel>) -> Outcome<Seq<char>>
    decreases v, 0nat,
{
    match v {
        ValueModel::String(s) => Ok((w, "\""@ + s + "\""@)),
        ValueModel::Number(n) => ask_text(w, tape, RequestModel::Format(n)),
        ValueModel::Boolean(b) => Ok((w, bool_text(b))),
        ValueModel::Null => Ok((w, "null"@)),
        ValueModel::Undefined => Ok((w, "undefined"@)),
        ValueModel::Array(a) => match vm_join_display(a, w, tape) {
            Err(h) => Err(h),
            Ok((w2, s)) => Ok((w2, "["@ + s + "]"@)),
        },
        ValueModel::Object(_) => Ok((w, "[object Object]"@)),
        ValueModel::Function(f) => Ok((w, "function("@ + join_texts(f.parameters, ", "@) + ") {...}"@)),
        ValueModel::Error(e) => Ok((w, error_text(e.kind, e.message))),
    }
}

/// The displayed texts of values, joined by `, `, from left to right.
pub open spec fn vm_join_display(a: Seq<ValueModel>, w: WorldModel, tape: Seq<ReplyModel>) -> Outcome<Seq<char>>
    decreases a, 1nat,
{
    if a.len() == 0 {
        Ok((w, Seq::empty()))
    } else {
        match vm_join_display(a.drop_last(), w, tape) {
            Err(h) => Err(h),
            Ok((w1, s0)) => match vm_display_string(a.last(), w1, tape) {
                Err(h) => Err(h),
                Ok((w2, x)) => Ok((w2, if a.len() == 1 { x } else { s0 + ", "@ + x })),
            },
        }
    }
}

/// The text `console.log` prints for a value: strings unquoted, every other
/// value as displayed.
pub open spec fn vm_console_string(v: ValueModel, w: WorldModel, tape: Seq<ReplyModel>) -> Outcome<Seq<char>> {
    match v {
        ValueModel::String(s) => Ok((w, s)),
        _ => vm_display_string(v, w, tape),
    }
}

/// The property key a value names when it is used as an index.
pub open spec fn vm_property_key(v: ValueModel, w: WorldModel, tape: Seq<ReplyModel>) -> Outcome<Seq<char>> {
    match v {
        ValueModel::String(s) => Ok((w, s)),
        ValueModel::Number(n) => ask_text(w, tape, RequestModel::PropertyKey(n)),
        ValueModel::Boolean(b) => Ok((w, bool_text(b))),
        ValueModel::Null => Ok((w, "null"@)),
        ValueModel::Undefined => Ok((w, "undefined"@)),
        _ => vm_primitive_string(v, w, tape),
    }
}

/// Two states that differ at most in the position in the list of replies.
pub open spec fn same_but_replies(w: WorldModel, w2: WorldModel) -> bool {
    w2 == (WorldModel { next_reply: w2.next_reply, ..w })
}

/// Converting a value to a text only consumes replies.
pub proof fn lemma_primitive_string_frame(v: ValueModel, w: WorldModel, tape: Seq<ReplyModel>)
    ensures
        vm_primitive_string(v, w, tape) matches Ok((w2, _)) ==> same_but_replies(w, w2),
    decreases v, 0nat,
{
    match v {
        ValueModel::Array(a) => {
            assert(decreases_to!(v => a));
            lemma_join_primitive_frame(a, ","@, w, tape);
        },
        _ => {},
    }
}

/// Joining texts of values only consumes replies.
pub proof fn lemma_join_primitive_frame(a: Seq<ValueModel>, sep: Seq<char>, w: WorldModel, tape: Seq<ReplyModel>)
    ensures
        vm_join_primitive(a, sep, w, tape) matches Ok((w2, _)) ==> same_but_replies(w, w2),
    decreases a, 1nat,
{
    if a.len() > 0 {
        lemma_join_primitive_frame(a.drop_last(), sep, w, tape);
        match vm_join_primitive(a.drop_last(), sep, w, tape) {
            Ok((w1, _)) => {
                assert(decreases_to!(a => a[a.len() - 1]));
                lemma_primitive_string_frame(a.last(), w1, tape);
            },
            _ => {},
        }
    }
}

pub proof fn lemma_values_model_take_last(s: Seq<JsValue>, i: int)
    requires
        0 <= i < s.len(),
    ensures
        values_model(s.take(i + 1)).drop_last() == values_model(s.take(i)),
        values_model(s.take(i + 1)).last() == s[i]@,
        values_model(s.take(i + 1)).len() == i + 1,
{
    assert(s.take(i + 1).drop_last() =~= s.take(i));
    crate::value::lemma_values_model_len(s.take(i + 1));
}

pub proof fn lemma_values_model_take(s: Seq<JsValue>, i: int)
    requires
        0 <= i <= s.len(),
    ensures
        values_model(s.take(i)) == values_model(s).take(i),
{
    crate::value::lemma_values_model_len(s);
    crate::value::lemma_values_model_len(s.take(i));
    assert forall|k: int| 0 <= k < i implies values_model(s.take(i))[k] == values_model(s).take(i)[k] by {
        crate::value::lemma_values_model_index(s.take(i), k);
        crate::value::lemma_values_model_index(s, k);
    }
    assert(values_model(s.take(i)) =~= values_model(s).take(i));
}

/// Once a prefix of the values halts, the whole join halts the same way.
pub proof fn lemma_join_primitive_halts(a: Seq<ValueModel>, k: int, sep: Seq<char>, w: WorldModel, tape: Seq<ReplyModel>)
    requires
        0 <= k <= a.len(),
        vm_join_primitive(a.take(k), sep, w, tape) is Err,
    ensures
        vm_join_primitive(a, sep, w, tape) == vm_join_primitive(a.take(k), sep, w, tape),
    decreases a.len() - k,
{
    if k < a.len() {
        assert(a.take(k + 1).drop_last() =~= a.take(k));
        lemma_join_primitive_halts(a, k + 1, sep, w, tape);
    } else {
        assert(a.take(k) =~= a);
    }
}

/// Once a prefix of the values halts, the whole join halts the same way.
pub proof fn lemma_join_display_halts(a: Seq<ValueModel>, k: int, w: WorldModel, tape: Seq<ReplyModel>)
    requires
        0 <= k <= a.len(),
        vm_join_display(a.take(k), w, tape) is Err,
    ensures
        vm_join_display(a, w, tape) == vm_join_display(a.take(k), w, tape),
    decreases a.len() - k,
{
    if k < a.len() {
        assert(a.take(k + 1).drop_last() =~= a.take(k));
        lemma_join_display_halts(a, k + 1, w, tape);
    } else {
        assert(a.take(k) =~= a);
    }
}

/// Texts joined by a separator.
pub fn join_strings(parts: &Vec<String>, sep: &str) -> (r: String)
    ensures
        r@ == join_texts(strings_model(parts@), sep@),
{
    let mut acc = String::new();
    let mut i: usize = 0;
    while i < parts.len()
        invariant
            i <= parts@.len(),
            acc@ == join_texts(strings_model(parts@).take(i as int), sep@),
        decreases parts@.len() - i,
    {
        proof {
            let m = strings_model(parts@);
            assert(m.take(i + 1).drop_last() =~= m.take(i as int));
            if i == 0 {
                assert(m.take(i + 1)[0] == parts@[0]@);
            }
        }
        if i == 0 {
            acc = parts[0].clone();
        } else {
            acc.append(sep);
            acc.append(parts[i].as_str());
        }
        i += 1;
    }
    assert(strings_model(parts@).take(parts@.len() as int) =~= strings_model(parts@));
    acc
}

pub fn error_message_text(kind: JsErrorKind, message: &String) -> (r: String)
    ensures
        r@ == error_text(kind, message@),
{
    let mut s = text(kind.as_str());
    if message.as_str().unicode_len() > 0 {
        s.append(": ");
        s.append(message.as_str());
    }
    s
}

impl Machine {
    /// `to_number`.
    pub fn to_number(&mut self, v: &JsValue, tape: &Vec<NumericReply>) -> (r: Result<JsNumber, Halt>)
        ensures
            agrees_number(vm_to_number(v@, old(self)@, replies_model(tape@)), r, final(self)@),
    {
        match v {
            JsValue::Number(n) => Ok(*n),
            JsValue::String(s) => match self.ask(tape, NumericRequest::Parse(s.clone()))? {
                NumericReply::Number(n) => Ok(n),
                NumericReply::NotANumber => Ok(JsNumber::nan()),
                _ => Err(Halt::UnexpectedReply),
            },
            JsValue::Boolean(b) => Ok(if *b { JsNumber::one() } else { JsNumber::zero() }),
            JsValue::Null => Ok(JsNumber::zero()),
            _ => Ok(JsNumber::nan()),
        }
    }

    /// `to_primitive_string`.
    pub fn primitive_string(&mut self, v: &JsValue, tape: &Vec<NumericReply>) -> (r: Result<String, Halt>)
        ensures
            agrees_text(vm_primitive_string(v@, old(self)@, replies_model(tape@)), r, final(self)@),
        decreases v, 0nat,
    {
        match v {
            JsValue::String(s) => Ok(s.clone()),
            JsValue::Number(n) => self.ask_text(tape, NumericRequest::Format(*n)),
            JsValue::Boolean(b) => Ok(if *b { text("true") } else { text("false") }),
            JsValue::Null => Ok(text("null")),
            JsValue::Undefined => Ok(text("undefined")),
            JsValue::Array(a) => {
                proof { assert(decreases_to!(*v => v->Array_0)); }
                self.join_primitive(a, ",", tape)
            },
            JsValue::Object(_) => Ok(text("[object Object]")),
            JsValue::Function(f) => {
                let mut s = text("function(");
                let params = join_strings(&f.parameters, ", ");
                s.append(params.as_str());
                s.append(") { [native code] }");
                Ok(s)
            },
            JsValue::Error(e) => Ok(error_message_text(e.kind, &e.message)),
        }
    }

    /// The primitive texts of values joined by `sep`.
    pub fn join_primitive(&mut self, a: &Vec<JsValue>, sep: &str, tape: &Vec<NumericReply>) -> (r: Result<String, Halt>)
        ensures
            agrees_text(vm_join_primitive(values_model(a@), sep@, old(self)@, replies_model(tape@)), r, final(self)@),
        decreases a, 1nat,
    {
        let ghost tm = replies_model(tape@);
        let mut acc = String::new();
        let mut i: usize = 0;
        assert(values_model(a@.take(0)) =~= Seq::<ValueModel>::empty());
        while i < a.len()
            invariant
                i <= a@.len(),
                tm == replies_model(tape@),
                vm_join_primitive(values_model(a@.take(i as int)), sep@, old(self)@, tm) == Ok::<(WorldModel, Seq<char>), HaltModel>((self@, acc@)),
            decreases a@.len() - i,
        {
            proof {
                assert(decreases_to!(*a => a[i as int]));
                lemma_values_model_take_last(a@, i as int);
            }
            let x = match self.primitive_string(&a[i], tape) {
                Ok(x) => x,
                Err(e) => {
                    proof {
                        crate::value::lemma_values_model_len(a@);
                        lemma_values_model_take(a@, i + 1);
                        lemma_values_model_take(a@, a@.len() as int);
                        assert(a@.take(a@.len() as int) =~= a@);
                        lemma_join_primitive_halts(values_model(a@), i + 1, sep@, old(self)@, tm);
                    }
                    return Err(e);
                },
            };
            if i == 0 {
                acc = x;
            } else {
                acc.append(sep);
                acc.append(x.as_str());
            }
            i += 1;
        }
        assert(a@.take(a@.len() as int) =~= a@);
        Ok(acc)
    }

    /// The text a value shows inside a displayed collection.
    pub fn display_string(&mut self, v: &JsValue, tape: &Vec<NumericReply>) -> (r: Result<String, Halt>)
        ensures
            agrees_text(vm_display_string(v@, old(self)@, replies_model(tape@)), r, final(self)@),
        decreases v, 0nat,
    {
        match v {
            JsValue::String(s) => {
                let mut t = text("\"");
                t.append(s.as_str());
                t.append("\"");
                Ok(t)
            },
            JsValue::Number(n) => self.ask_text(tape, NumericRequest::Format(*n)),
            JsValue::Boolean(b) => Ok(if *b { text("true") } else { text("false") }),
            JsValue::Null => Ok(text("null")),
            JsValue::Undefined => Ok(text("undefined")),
            JsValue::Array(a) => {
                proof { assert(decreases_to!(*v => v->Array_0)); }
                let inner = self.join_display(a, tape)?;
                let mut t = text("[");
                t.append(inner.as_str());
                t.append("]");
                Ok(t)
            },
            JsValue::Object(_) => Ok(text("[object Object]")),
            JsValue::Function(f) => {
                let mut s = text("function(");
                let params = join_strings(&f.parameters, ", ");
                s.append(params.as_str());
                s.append(") {...}");
                Ok(s)
            },
            JsValue::Error(e) => Ok(error_message_text(e.kind, &e.message)),
        }
    }

    /// The displayed texts of values joined by `, `.
    pub fn join_display(&mut self, a: &Vec<JsValue>, tape: &Vec<NumericReply>) -> (r: Result<String, Halt>)
        ensures
            agrees_text(vm_join_display(values_model(a@), old(self)@, replies_model(tape@)), r, final(self)@),
        decreases a, 1nat,
    {
        let ghost tm = replies_model(tape@);
        let mut acc = String::new();
        let mut i: usize = 0;
        assert(values_model(a@.take(0)) =~= Seq::<ValueModel>::empty());
        while i < a.len()
            invariant
                i <= a@.len(),
                tm == replies_model(tape@),
                vm_join_display(values_model(a@.take(i as int)), old(self)@, tm) == Ok::<(WorldModel, Seq<char>), HaltModel>((self@, acc@)),
            decreases a@.len() - i,
        {
            proof {
                assert(decreases_to!(*a => a[i as int]));
                lemma_values_model_take_last(a@, i as int);
            }
            let x = match self.display_string(&a[i], tape) {
                Ok(x) => x,
                Err(e) => {
                    proof {
                        crate::value::lemma_values_model_len(a@);
                        lemma_values_model_take(a@, i + 1);
                        lemma_values_model_take(a@, a@.len() as int);
                        assert(a@.take(a@.len() as int) =~= a@);
                        lemma_join_display_halts(values_model(a@), i + 1, old(self)@, tm);
                    }
                    return Err(e);
                },
            };
            if i == 0 {
                acc = x;
            } else {
                acc.append(", ");
                acc.append(x.as_str());
            }
            i += 1;
        }
        assert(a@.take(a@.len() as int) =~= a@);
        Ok(acc)
    }

    /// The text `console.log` prints for a value.
    pub fn console_string(&mut self, v: &JsValue, tape: &Vec<NumericReply>) -> (r: Result<String, Halt>)
        ensures
            agrees_text(vm_console_string(v@, old(self)@, replies_model(tape@)), r, final(self)@),
    {
        match v {
            JsValue::String(s) => Ok(s.clone()),
            _ => self.display_string(v, tape),
        }
    }

    /// The property key a value names.
    pub fn property_key(&mut self, v: &JsValue, tape: &Vec<NumericReply>) -> (r: Result<String, Halt>)
        ensures
            agrees_text(vm_property_key(v@, old(self)@, replies_model(tape@)), r, final(self)@),
    {
        match v {
            JsValue::String(s) => Ok(s.clone()),
            JsValue::Number(n) => self.ask_text(tape, NumericRequest::PropertyKey(*n)),
            JsValue::Boolean(b) => Ok(if *b { text("true") } else { text("false") }),
            JsValue::Null => Ok(text("null")),
            JsValue::Undefined => Ok(text("undefined")),
            _ => self.primitive_string(v, tape),
        }
    }
}

} // verus!
