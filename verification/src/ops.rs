//! The operations of the language on values: truthiness, the equalities,
//! the orderings, the arithmetic operators and property access.
use vstd::prelude::*;
use crate::number::NumberOrder;
use crate::value::{
    JsValue, JsError, JsErrorKind, ValueModel, ErrorModel, values_model, props_model, clone_value,
    lemma_values_model_len, lemma_values_model_index, lemma_props_model_len, lemma_props_model_index,
};
use crate::props::{keys_of, string_keys, entry_lookup, entry_insert, find_key, lemma_key_index};
use crate::numeric::{NumericRequest, NumericReply, RequestModel, ReplyModel, ArithmeticOp, replies_model};
use crate::machine::{
    Machine, Halt, HaltModel, WorldModel, Outcome, ask, ask_number, agrees_value, agrees_bool, agrees_int,
};
use crate::convert::{vm_to_number, vm_primitive_string, vm_property_key, error_kind_name, same_but_replies, lemma_primitive_string_frame};
use crate::text::text;

verus! {

// ---------------------------------------------------------------------------
// Pure operations
// ---------------------------------------------------------------------------

/// JavaScript truthiness.
pub open spec fn truthy(v: ValueModel) -> bool {
    match v {
        ValueModel::Boolean(b) => b,
        ValueModel::Number(n) => n.spec_truthy(),
        ValueModel::String(s) => s.len() > 0,
        ValueModel::Null => false,
        ValueModel::Undefined => false,
        _ => true,
    }
}

/// `===`: same type and same primitive value; objects, arrays, functions
/// and errors are never strictly equal.
pub open spec fn values_strictly_equal(a: ValueModel, b: ValueModel) -> bool {
    match (a, b) {
        (ValueModel::Number(x), ValueModel::Number(y)) => x.spec_equals(y),
        (ValueModel::String(x), ValueModel::String(y)) => x == y,
        (ValueModel::Boolean(x), ValueModel::Boolean(y)) => x == y,
        (ValueModel::Null, ValueModel::Null) => true,
        (ValueModel::Undefined, ValueModel::Undefined) => true,
        _ => false,
    }
}

/// Reading a property: objects look the key up, errors answer `name`,
/// `message` and `stack` from their fields, everything else has none.
pub open spec fn property_value(v: ValueModel, key: Seq<char>) -> ValueModel {
    match v {
        ValueModel::Object(p) => match entry_lookup(p, key) {
            Some(x) => x,
            None => ValueModel::Undefined,
        },
        ValueModel::Error(e) => {
            if key == "name"@ {
                ValueModel::String(error_kind_name(e.kind))
            } else if key == "message"@ {
                ValueModel::String(e.message)
            } else if key == "stack"@ {
                match e.stack {
                    Some(s) => ValueModel::String(s),
                    None => ValueModel::Undefined,
                }
            } else {
                match entry_lookup(e.properties, key) {
                    Some(x) => x,
                    None => ValueModel::Undefined,
                }
            }
        },
        _ => ValueModel::Undefined,
    }
}

/// Lexicographic order of texts, by character code.
pub open spec fn text_ordering(a: Seq<char>, b: Seq<char>) -> NumberOrder
    decreases a.len(),
{
    if a.len() == 0 && b.len() == 0 {
        NumberOrder::Equal
    } else if a.len() == 0 {
        NumberOrder::Less
    } else if b.len() == 0 {
        NumberOrder::Greater
    } else if (a[0] as u32) < (b[0] as u32) {
        NumberOrder::Less
    } else if (a[0] as u32) > (b[0] as u32) {
        NumberOrder::Greater
    } else {
        text_ordering(a.drop_first(), b.drop_first())
    }
}

/// A fresh error object with the given kind and message.
pub open spec fn new_error_model(kind: JsErrorKind, message: Seq<char>) -> ValueModel {
    ValueModel::Error(ErrorModel {
        kind,
        message,
        stack: None,
        properties: Seq::empty(),
    })
}

// ---------------------------------------------------------------------------
// Operations that may need numeric services
// ---------------------------------------------------------------------------

/// `==`: strict equality for values of one type; `null` and `undefined`
/// equal each other and nothing else; numeric comparison when a number meets
/// a string or a boolean meets anything else.
pub open spec fn vm_equals(a: ValueModel, b: ValueModel, w: WorldModel, tape: Seq<ReplyModel>) -> Outcome<bool> {
    match (a, b) {
        (ValueModel::Number(x), ValueModel::Number(y)) => Ok((w, x.spec_equals(y))),
        (ValueModel::String(x), ValueModel::String(y)) => Ok((w, x == y)),
        (ValueModel::Boolean(x), ValueModel::Boolean(y)) => Ok((w, x == y)),
        (ValueModel::Undefined, ValueModel::Undefined) => Ok((w, true)),
        (ValueModel::Null, ValueModel::Null) => Ok((w, true)),
        (ValueModel::Null, ValueModel::Undefined) => Ok((w, true)),
        (ValueModel::Undefined, ValueModel::Null) => Ok((w, true)),
        (ValueModel::Null, _) => Ok((w, false)),
        (ValueModel::Undefined, _) => Ok((w, false)),
        (_, ValueModel::Null) => Ok((w, false)),
        (_, ValueModel::Undefined) => Ok((w, false)),
        (ValueModel::Number(_), ValueModel::String(_)) => vm_numbers_equal(a, b, w, tape),
        (ValueModel::String(_), ValueModel::Number(_)) => vm_numbers_equal(a, b, w, tape),
        (ValueModel::Boolean(_), _) => vm_numbers_equal(a, b, w, tape),
        (_, ValueModel::Boolean(_)) => vm_numbers_equal(a, b, w, tape),
        _ => Ok((w, false)),
    }
}

/// Both sides converted to numbers, then compared with `==` on doubles.
pub open spec fn vm_numbers_equal(a: ValueModel, b: ValueModel, w: WorldModel, tape: Seq<ReplyModel>) -> Outcome<bool> {
    match vm_to_number(a, w, tape) {
        Err(h) => Err(h),
        Ok((w1, x)) => match vm_to_number(b, w1, tape) {
            Err(h) => Err(h),
            Ok((w2, y)) => Ok((w2, x.spec_equals(y))),
        },
    }
}

/// The ordering behind `<`, `>`, `<=`, `>=`: texts compare as texts,
/// anything else as numbers, and NaN is unordered.
pub open spec fn vm_compare(a: ValueModel, b: ValueModel, w: WorldModel, tape: Seq<ReplyModel>) -> Outcome<Option<NumberOrder>> {
    match (a, b) {
        (ValueModel::String(x), ValueModel::String(y)) => Ok((w, Some(text_ordering(x, y)))),
        _ => match vm_to_number(a, w, tape) {
            Err(h) => Err(h),
            Ok((w1, x)) => match vm_to_number(b, w1, tape) {
                Err(h) => Err(h),
                Ok((w2, y)) => Ok((w2, x.spec_compare(y))),
            },
        },
    }
}

/// `+`: concatenation when either side is a string, else numeric addition.
pub open spec fn vm_add(a: ValueModel, b: ValueModel, w: WorldModel, tape: Seq<ReplyModel>) -> Outcome<ValueModel> {
    if a is String || b is String {
        match vm_primitive_string(a, w, tape) {
            Err(h) => Err(h),
            Ok((w1, x)) => match vm_primitive_string(b, w1, tape) {
                Err(h) => Err(h),
                Ok((w2, y)) => Ok((w2, ValueModel::String(x + y))),
            },
        }
    } else {
        vm_arithmetic(ArithmeticOp::Add, a, b, w, tape)
    }
}

/// A binary arithmetic operator: both sides converted to numbers, then computed.
pub open spec fn vm_arithmetic(op: ArithmeticOp, a: ValueModel, b: ValueModel, w: WorldModel, tape: Seq<ReplyModel>) -> Outcome<ValueModel> {
    match vm_to_number(a, w, tape) {
        Err(h) => Err(h),
        Ok((w1, x)) => match vm_to_number(b, w1, tape) {
            Err(h) => Err(h),
            Ok((w2, y)) => match ask_number(w2, tape, RequestModel::Arithmetic(op, x, y)) {
                Err(h) => Err(h),
                Ok((w3, z)) => Ok((w3, ValueModel::Number(z))),
            },
        },
    }
}

/// A number used as an array index: converted to a number, then truncated.
pub open spec fn vm_to_index(v: ValueModel, w: WorldModel, tape: Seq<ReplyModel>) -> Outcome<int> {
    match vm_to_number(v, w, tape) {
        Err(h) => Err(h),
        Ok((w1, n)) => match ask(w1, tape, RequestModel::ToIndex(n)) {
            Ok((w2, ReplyModel::Index(i))) => Ok((w2, i)),
            Ok(_) => Err(HaltModel::UnexpectedReply),
            Err(h) => Err(h),
        },
    }
}

/// `obj[index]`: arrays by position, objects and errors by property key.
pub open spec fn vm_get_index(obj: ValueModel, index: ValueModel, w: WorldModel, tape: Seq<ReplyModel>) -> Outcome<ValueModel> {
    match obj {
        ValueModel::Array(a) => match vm_to_index(index, w, tape) {
            Err(h) => Err(h),
            Ok((w1, i)) => Ok((w1, if 0 <= i < a.len() { a[i] } else { ValueModel::Undefined })),
        },
        ValueModel::Object(_) => match vm_property_key(index, w, tape) {
            Err(h) => Err(h),
            Ok((w1, k)) => Ok((w1, property_value(obj, k))),
        },
        ValueModel::Error(_) => match vm_property_key(index, w, tape) {
            Err(h) => Err(h),
            Ok((w1, k)) => Ok((w1, property_value(obj, k))),
        },
        _ => Ok((w, ValueModel::Undefined)),
    }
}

/// Writing a property. Objects store the value under the key. An error
/// takes a string `name` as its kind (`TypeError` or else `Error`), and the
/// text of the value as its `message` or `stack`; other keys are stored
/// among its properties. Other values are left as they are. The second
/// component is what the write evaluates to: the value, or `undefined`
/// when the target holds no properties.
pub open spec fn vm_set_property(obj: ValueModel, key: Seq<char>, value: ValueModel, w: WorldModel, tape: Seq<ReplyModel>) -> Outcome<(ValueModel, ValueModel)> {
    match obj {
        ValueModel::Object(p) => Ok((w, (ValueModel::Object(entry_insert(p, key, value)), value))),
        ValueModel::Error(e) => {
            if key == "name"@ {
                match value {
                    ValueModel::String(n) => Ok((w, (ValueModel::Error(ErrorModel {
                        kind: if n == "TypeError"@ { JsErrorKind::TypeError } else { JsErrorKind::Error },
                        ..e
                    }), value))),
                    _ => Ok((w, (ValueModel::Error(ErrorModel { properties: entry_insert(e.properties, key, value), ..e }), value))),
                }
            } else if key == "message"@ {
                match vm_primitive_string(value, w, tape) {
                    Err(h) => Err(h),
                    Ok((w1, m)) => Ok((w1, (ValueModel::Error(ErrorModel { message: m, ..e }), value))),
                }
            } else if key == "stack"@ {
                match vm_primitive_string(value, w, tape) {
                    Err(h) => Err(h),
                    Ok((w1, m)) => Ok((w1, (ValueModel::Error(ErrorModel { stack: Some(m), ..e }), value))),
                }
            } else {
                Ok((w, (ValueModel::Error(ErrorModel { properties: entry_insert(e.properties, key, value), ..e }), value)))
            }
        },
        _ => Ok((w, (obj, ValueModel::Undefined))),
    }
}

/// `obj[index] = value`: an array replaces the element at the index or
/// appends when the index is its length (other indices change nothing);
/// objects and errors store the value under the property key.
pub open spec fn vm_set_index(obj: ValueModel, index: ValueModel, value: ValueModel, w: WorldModel, tape: Seq<ReplyModel>) -> Outcome<ValueModel> {
    match obj {
        ValueModel::Array(a) => match vm_to_index(index, w, tape) {
            Err(h) => Err(h),
            Ok((w1, i)) => Ok((w1, ValueModel::Array(
                if 0 <= i < a.len() {
                    a.update(i, value)
                } else if i == a.len() {
                    a.push(value)
                } else {
                    a
                },
            ))),
        },
        ValueModel::Object(p) => match vm_property_key(index, w, tape) {
            Err(h) => Err(h),
            Ok((w1, k)) => Ok((w1, ValueModel::Object(entry_insert(p, k, value)))),
        },
        ValueModel::Error(e) => match vm_property_key(index, w, tape) {
            Err(h) => Err(h),
            Ok((w1, k)) => Ok((w1, ValueModel::Error(ErrorModel { properties: entry_insert(e.properties, k, value), ..e }))),
        },
        _ => Ok((w, obj)),
    }
}

/// Writing a property only consumes replies.
pub proof fn lemma_set_property_frame(obj: ValueModel, key: Seq<char>, value: ValueModel, w: WorldModel, tape: Seq<ReplyModel>)
    ensures
        vm_set_property(obj, key, value, w, tape) matches Ok((w2, _)) ==> same_but_replies(w, w2),
{
    lemma_primitive_string_frame(value, w, tape);
}

// ---------------------------------------------------------------------------
// Executable operations
// ---------------------------------------------------------------------------

pub proof fn lemma_props_keys(p: Seq<(String, JsValue)>)
    ensures
        keys_of(props_model(p)) == string_keys(p),
{
    lemma_props_model_len(p);
    assert forall|i: int| 0 <= i < p.len() implies keys_of(props_model(p))[i] == string_keys(p)[i] by {
        lemma_props_model_index(p, i);
    }
    assert(keys_of(props_model(p)) =~= string_keys(p));
}

/// Looks a key up among properties.
pub fn props_get(p: &Vec<(String, JsValue)>, key: &String) -> (r: Option<JsValue>)
    ensures
        match entry_lookup(props_model(p@), key@) {
            Some(v) => r matches Some(x) && x@ == v,
            None => r is None,
        },
{
    proof { lemma_props_keys(p@); lemma_key_index(string_keys(p@), key@); }
    match find_key(p, key) {
        Some(i) => {
            proof { lemma_props_model_index(p@, i as int); }
            Some(clone_value(&p[i].1))
        },
        None => None,
    }
}

/// Stores a value under a key among properties.
pub fn props_insert(p: &mut Vec<(String, JsValue)>, key: String, value: JsValue)
    ensures
        props_model(final(p)@) == entry_insert(props_model(old(p)@), key@, value@),
{
    let ghost before = p@;
    proof { lemma_props_keys(p@); lemma_key_index(string_keys(p@), key@); lemma_props_model_len(p@); }
    let ghost km = key@;
    let ghost vm = value@;
    match find_key(p, &key) {
        Some(i) => {
            p.set(i, (key, value));
            proof {
                lemma_props_model_len(p@);
                assert forall|k: int| 0 <= k < p@.len() implies props_model(p@)[k]
                    == entry_insert(props_model(before), km, vm)[k] by {
                    lemma_props_model_index(p@, k);
                    lemma_props_model_index(before, k);
                }
                assert(props_model(p@) =~= entry_insert(props_model(before), km, vm));
            }
        },
        None => {
            proof { crate::value::lemma_props_model_push(p@, (key, value)); }
            p.push((key, value));
        },
    }
}

/// JavaScript truthiness.
pub fn to_bool(v: &JsValue) -> (b: bool)
    ensures
        b == truthy(v@),
{
    match v {
        JsValue::Boolean(b) => *b,
        JsValue::Number(n) => n.to_bool(),
        JsValue::String(s) => s.as_str().unicode_len() > 0,
        JsValue::Null => false,
        JsValue::Undefined => false,
        _ => true,
    }
}

/// `===`.
pub fn strict_equals(a: &JsValue, b: &JsValue) -> (r: bool)
    ensures
        r == values_strictly_equal(a@, b@),
{
    match (a, b) {
        (JsValue::Number(x), JsValue::Number(y)) => x.equals(*y),
        (JsValue::String(x), JsValue::String(y)) => *x == *y,
        (JsValue::Boolean(x), JsValue::Boolean(y)) => *x == *y,
        (JsValue::Null, JsValue::Null) => true,
        (JsValue::Undefined, JsValue::Undefined) => true,
        _ => false,
    }
}

/// Reading a property.
pub fn get_property(v: &JsValue, key: &String) -> (r: JsValue)
    ensures
        r@ == property_value(v@, key@),
{
    match v {
        JsValue::Object(p) => match props_get(p, key) {
            Some(x) => x,
            None => JsValue::Undefined,
        },
        JsValue::Error(e) => {
            if *key == text("name") {
                JsValue::String(text(e.kind.as_str()))
            } else if *key == text("message") {
                JsValue::String(e.message.clone())
            } else if *key == text("stack") {
                match &e.stack {
                    Some(s) => JsValue::String(s.clone()),
                    None => JsValue::Undefined,
                }
            } else {
                match props_get(&e.properties, key) {
                    Some(x) => x,
                    None => JsValue::Undefined,
                }
            }
        },
        _ => JsValue::Undefined,
    }
}

/// Lexicographic order of texts.
pub fn text_order(a: &str, b: &str) -> (r: NumberOrder)
    ensures
        r == text_ordering(a@, b@),
{
    let n = a.unicode_len();
    let m = b.unicode_len();
    let mut i: usize = 0;
    assert(a@.skip(0) =~= a@);
    assert(b@.skip(0) =~= b@);
    while i < n && i < m
        invariant
            n == a@.len(),
            m == b@.len(),
            i <= n,
            i <= m,
            text_ordering(a@, b@) == text_ordering(a@.skip(i as int), b@.skip(i as int)),
        decreases n - i,
    {
        let x = a.get_char(i);
        let y = b.get_char(i);
        proof {
            assert(a@.skip(i as int)[0] == x);
            assert(b@.skip(i as int)[0] == y);
            assert(a@.skip(i as int).drop_first() =~= a@.skip(i + 1));
            assert(b@.skip(i as int).drop_first() =~= b@.skip(i + 1));
        }
        if (x as u32) < (y as u32) {
            return NumberOrder::Less;
        }
        if (x as u32) > (y as u32) {
            return NumberOrder::Greater;
        }
        i += 1;
    }
    if i == n && i == m {
        NumberOrder::Equal
    } else if i == n {
        NumberOrder::Less
    } else {
        NumberOrder::Greater
    }
}

/// A fresh error object.
pub fn new_error(kind: JsErrorKind, message: String) -> (v: JsValue)
    ensures
        v@ == new_error_model(kind, message@),
{
    let v = JsValue::Error(JsError { kind, message, stack: None, properties: Vec::new() });
    assert(props_model(Seq::<(String, JsValue)>::empty()) =~= Seq::<(Seq<char>, ValueModel)>::empty());
    v
}

impl Machine {
    /// `==`.
    pub fn equals(&mut self, a: &JsValue, b: &JsValue, tape: &Vec<NumericReply>) -> (r: Result<bool, Halt>)
        ensures
            agrees_bool(vm_equals(a@, b@, old(self)@, replies_model(tape@)), r, final(self)@),
    {
        match (a, b) {
            (JsValue::Number(x), JsValue::Number(y)) => Ok(x.equals(*y)),
            (JsValue::String(x), JsValue::String(y)) => Ok(*x == *y),
            (JsValue::Boolean(x), JsValue::Boolean(y)) => Ok(*x == *y),
            (JsValue::Undefined, JsValue::Undefined) => Ok(true),
            (JsValue::Null, JsValue::Null) => Ok(true),
            (JsValue::Null, JsValue::Undefined) => Ok(true),
            (JsValue::Undefined, JsValue::Null) => Ok(true),
            (JsValue::Null, _) => Ok(false),
            (JsValue::Undefined, _) => Ok(false),
            (_, JsValue::Null) => Ok(false),
            (_, JsValue::Undefined) => Ok(false),
            (JsValue::Number(_), JsValue::String(_)) => self.numbers_equal(a, b, tape),
            (JsValue::String(_), JsValue::Number(_)) => self.numbers_equal(a, b, tape),
            (JsValue::Boolean(_), _) => self.numbers_equal(a, b, tape),
            (_, JsValue::Boolean(_)) => self.numbers_equal(a, b, tape),
            _ => Ok(false),
        }
    }

    fn numbers_equal(&mut self, a: &JsValue, b: &JsValue, tape: &Vec<NumericReply>) -> (r: Result<bool, Halt>)
        ensures
            agrees_bool(vm_numbers_equal(a@, b@, old(self)@, replies_model(tape@)), r, final(self)@),
    {
        let x = self.to_number(a, tape)?;
        let y = self.to_number(b, tape)?;
        Ok(x.equals(y))
    }

    /// The ordering behind the relational operators.
    pub fn compare(&mut self, a: &JsValue, b: &JsValue, tape: &Vec<NumericReply>) -> (r: Result<Option<NumberOrder>, Halt>)
        ensures
            match vm_compare(a@, b@, old(self)@, replies_model(tape@)) {
                Ok((w2, v)) => r == Ok::<Option<NumberOrder>, Halt>(v) && final(self)@ == w2,
                Err(h) => r matches Err(e) && e@ == h,
            },
    {
        match (a, b) {
            (JsValue::String(x), JsValue::String(y)) => Ok(Some(text_order(x.as_str(), y.as_str()))),
            _ => {
                let x = self.to_number(a, tape)?;
                let y = self.to_number(b, tape)?;
                Ok(x.compare(y))
            },
        }
    }

    /// `+`.
    pub fn add(&mut self, a: &JsValue, b: &JsValue, tape: &Vec<NumericReply>) -> (r: Result<JsValue, Halt>)
        ensures
            agrees_value(vm_add(a@, b@, old(self)@, replies_model(tape@)), r, final(self)@),
    {
        let a_text = match a { JsValue::String(_) => true, _ => false };
        let b_text = match b { JsValue::String(_) => true, _ => false };
        if a_text || b_text {
            let mut x = self.primitive_string(a, tape)?;
            let y = self.primitive_string(b, tape)?;
            x.append(y.as_str());
            Ok(JsValue::String(x))
        } else {
            self.arithmetic(ArithmeticOp::Add, a, b, tape)
        }
    }

    /// A binary arithmetic operator.
    pub fn arithmetic(&mut self, op: ArithmeticOp, a: &JsValue, b: &JsValue, tape: &Vec<NumericReply>) -> (r: Result<JsValue, Halt>)
        ensures
            agrees_value(vm_arithmetic(op, a@, b@, old(self)@, replies_model(tape@)), r, final(self)@),
    {
        let x = self.to_number(a, tape)?;
        let y = self.to_number(b, tape)?;
        let z = self.ask_number(tape, NumericRequest::Arithmetic(op, x, y))?;
        Ok(JsValue::Number(z))
    }

    /// A value used as an array index.
    pub fn to_index(&mut self, v: &JsValue, tape: &Vec<NumericReply>) -> (r: Result<isize, Halt>)
        ensures
            agrees_int(vm_to_index(v@, old(self)@, replies_model(tape@)), r, final(self)@),
    {
        let n = self.to_number(v, tape)?;
        match self.ask(tape, NumericRequest::ToIndex(n))? {
            NumericReply::Index(i) => Ok(i),
            _ => Err(Halt::UnexpectedReply),
        }
    }

    /// `obj[index]`.
    pub fn get_index(&mut self, obj: &JsValue, index: &JsValue, tape: &Vec<NumericReply>) -> (r: Result<JsValue, Halt>)
        ensures
            agrees_value(vm_get_index(obj@, index@, old(self)@, replies_model(tape@)), r, final(self)@),
    {
        match obj {
            JsValue::Array(a) => {
                let i = self.to_index(index, tape)?;
                proof { lemma_values_model_len(a@); }
                if 0 <= i && (i as usize) < a.len() {
                    proof { lemma_values_model_index(a@, i as int); }
                    Ok(clone_value(&a[i as usize]))
                } else {
                    Ok(JsValue::Undefined)
                }
            },
            JsValue::Object(_) => {
                let k = self.property_key(index, tape)?;
                Ok(get_property(obj, &k))
            },
            JsValue::Error(_) => {
                let k = self.property_key(index, tape)?;
                Ok(get_property(obj, &k))
            },
            _ => Ok(JsValue::Undefined),
        }
    }

    /// Writing a property; gives the updated target and what the write evaluates to.
    pub fn set_property(&mut self, obj: JsValue, key: &String, value: JsValue, tape: &Vec<NumericReply>) -> (r: Result<(JsValue, JsValue), Halt>)
        ensures
            match vm_set_property(obj@, key@, value@, old(self)@, replies_model(tape@)) {
                Ok((w2, (o, v))) => r matches Ok((x, y)) && x@ == o && y@ == v && final(self)@ == w2,
                Err(h) => r matches Err(e) && e@ == h,
            },
    {
        match obj {
            JsValue::Object(p) => {
                let mut p = p;
                let result = clone_value(&value);
                props_insert(&mut p, key.clone(), value);
                Ok((JsValue::Object(p), result))
            },
            JsValue::Error(e) => {
                let mut e = e;
                let result = clone_value(&value);
                if *key == text("name") {
                    match &value {
                        JsValue::String(n) => {
                            e.kind = if *n == text("TypeError") { JsErrorKind::TypeError } else { JsErrorKind::Error };
                        },
                        _ => {
                            props_insert(&mut e.properties, key.clone(), value);
                        },
                    }
                } else if *key == text("message") {
                    e.message = self.primitive_string(&value, tape)?;
                } else if *key == text("stack") {
                    e.stack = Some(self.primitive_string(&value, tape)?);
                } else {
                    props_insert(&mut e.properties, key.clone(), value);
                }
                Ok((JsValue::Error(e), result))
            },
            _ => Ok((obj, JsValue::Undefined)),
        }
    }

    /// `obj[index] = value`; gives the updated target.
    pub fn set_index(&mut self, obj: JsValue, index: &JsValue, value: JsValue, tape: &Vec<NumericReply>) -> (r: Result<JsValue, Halt>)
        ensures
            agrees_value(vm_set_index(obj@, index@, value@, old(self)@, replies_model(tape@)), r, final(self)@),
    {
        match obj {
            JsValue::Array(a) => {
                let mut a = a;
                let i = self.to_index(index, tape)?;
                let ghost before = a@;
                let ghost vm = value@;
                proof { lemma_values_model_len(a@); }
                if 0 <= i && (i as usize) < a.len() {
                    a.set(i as usize, value);
                    proof {
                        lemma_values_model_len(a@);
                        assert forall|k: int| 0 <= k < a@.len() implies values_model(a@)[k]
                            == values_model(before).update(i as int, vm)[k] by {
                            lemma_values_model_index(a@, k);
                            lemma_values_model_index(before, k);
                        }
                        assert(values_model(a@) =~= values_model(before).update(i as int, vm));
                    }
                } else if 0 <= i && (i as usize) == a.len() {
                    proof { crate::value::lemma_values_model_push(a@, value); }
                    a.push(value);
                }
                Ok(JsValue::Array(a))
            },
            JsValue::Object(p) => {
                let mut p = p;
                let k = self.property_key(index, tape)?;
                props_insert(&mut p, k, value);
                Ok(JsValue::Object(p))
            },
            JsValue::Error(e) => {
                let mut e = e;
                let k = self.property_key(index, tape)?;
                props_insert(&mut e.properties, k, value);
                Ok(JsValue::Error(e))
            },
            _ => Ok(obj),
        }
    }
}

} // verus!
