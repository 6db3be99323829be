//! The operations of a value, as its methods. Those that may need a numeric
//! service take the machine state and the list of replies.
use vstd::prelude::*;
use crate::number::JsNumber;
use crate::value::{JsValue, JsFunction, JsErrorKind, ValueModel, values_model, clone_value};
use crate::numeric::{NumericRequest, NumericReply, RequestModel, ReplyModel, ArithmeticOp, replies_model};
use crate::machine::{Machine, Halt, WorldModel, Outcome, ask_number, agrees_value, agrees_text, agrees_number};
use crate::value::BinaryOperator;
use crate::convert::{vm_to_number, vm_primitive_string, vm_console_string, vm_property_key};
use crate::ops::{
    truthy, values_strictly_equal, property_value, new_error_model, vm_add, vm_arithmetic, vm_get_index,
    vm_set_property, vm_set_index,
};
use crate::vm::{vm_binary, vm_call_method, top_value, pop_value};
use crate::methods::vm_console_line;

verus! {

/// `push` on a value: an array gets the value appended and gives its new
/// length; anything else is left as it is and gives `undefined`.
pub open spec fn vm_push(v: ValueModel, x: ValueModel, w: WorldModel, tape: Seq<ReplyModel>) -> Outcome<(ValueModel, ValueModel)> {
    match v {
        ValueModel::Array(a) => match ask_number(w, tape, RequestModel::FromCount(a.len() + 1)) {
            Err(h) => Err(h),
            Ok((w1, n)) => Ok((w1, (ValueModel::Array(a.push(x)), ValueModel::Number(n)))),
        },
        _ => Ok((w, (v, ValueModel::Undefined))),
    }
}

impl JsValue {
    /// A fresh error object.
    pub fn new_error(kind: JsErrorKind, message: String) -> (v: JsValue)
        ensures
            v@ == new_error_model(kind, message@),
    {
        crate::ops::new_error(kind, message)
    }

    /// A fresh `TypeError` object.
    pub fn new_type_error(message: String) -> (v: JsValue)
        ensures
            v@ == new_error_model(JsErrorKind::TypeError, message@),
    {
        crate::ops::new_error(JsErrorKind::TypeError, message)
    }

    /// The text the value has in string concatenation.
    pub fn to_primitive_string(&self, m: &mut Machine, tape: &Vec<NumericReply>) -> (r: Result<String, Halt>)
        ensures
            agrees_text(vm_primitive_string(self@, old(m)@, replies_model(tape@)), r, final(m)@),
    {
        m.primitive_string(self, tape)
    }

    /// The text `console.log` prints for the value.
    pub fn to_console_string(&self, m: &mut Machine, tape: &Vec<NumericReply>) -> (r: Result<String, Halt>)
        ensures
            agrees_text(vm_console_string(self@, old(m)@, replies_model(tape@)), r, final(m)@),
    {
        m.console_string(self, tape)
    }

    /// `self + other`.
    pub fn add(&self, other: &JsValue, m: &mut Machine, tape: &Vec<NumericReply>) -> (r: Result<JsValue, Halt>)
        ensures
            agrees_value(vm_add(self@, other@, old(m)@, replies_model(tape@)), r, final(m)@),
    {
        m.add(self, other, tape)
    }

    /// `self - other`.
    pub fn subtract(&self, other: &JsValue, m: &mut Machine, tape: &Vec<NumericReply>) -> (r: Result<JsValue, Halt>)
        ensures
            agrees_value(vm_arithmetic(ArithmeticOp::Subtract, self@, other@, old(m)@, replies_model(tape@)), r, final(m)@),
    {
        m.arithmetic(ArithmeticOp::Subtract, self, other, tape)
    }

    /// Appends to an array and gives its new length; see `vm_push`.
    pub fn push(&mut self, value: JsValue, m: &mut Machine, tape: &Vec<NumericReply>) -> (r: Result<JsValue, Halt>)
        requires
            *old(self) is Array ==> old(self)->Array_0@.len() < usize::MAX,
        ensures
            match vm_push(old(self)@, value@, old(m)@, replies_model(tape@)) {
                Ok((w2, (v2, res))) => r matches Ok(x) && x@ == res && final(self)@ == v2 && final(m)@ == w2,
                Err(h) => r matches Err(e) && e@ == h,
            },
    {
        match self {
            JsValue::Array(a) => {
                proof { crate::value::lemma_values_model_len(a@); }
                let n = m.ask_number(tape, NumericRequest::FromCount(a.len() + 1))?;
                proof { crate::value::lemma_values_model_push(a@, value); }
                a.push(value);
                Ok(JsValue::Number(n))
            },
            _ => Ok(JsValue::Undefined),
        }
    }

    /// Removes and gives the last element of an array; `undefined` for an
    /// empty array or another value, which stay as they are.
    pub fn pop(&mut self) -> (r: JsValue)
        ensures
            match old(self)@ {
                ValueModel::Array(a) => r@ == top_value(a) && final(self)@ == ValueModel::Array(pop_value(a).0),
                _ => r@ == ValueModel::Undefined && final(self)@ == old(self)@,
            },
    {
        match self {
            JsValue::Array(a) => {
                proof { crate::value::lemma_values_model_len(a@); }
                match a.pop() {
                    Some(v) => {
                        proof {
                            assert(old(self)@ == ValueModel::Array(values_model(old(self)->Array_0@)));
                            assert(values_model(old(self)->Array_0@).drop_last() =~= values_model(old(self)->Array_0@.drop_last()));
                            assert(old(self)->Array_0@.subrange(0, old(self)->Array_0@.len() - 1) =~= old(self)->Array_0@.drop_last());
                        }
                        v
                    },
                    None => JsValue::Undefined,
                }
            },
            _ => JsValue::Undefined,
        }
    }

    /// `self == other`.
    pub fn equals(&self, other: &JsValue, m: &mut Machine, tape: &Vec<NumericReply>) -> (r: Result<JsValue, Halt>)
        ensures
            agrees_value(vm_binary(BinaryOperator::Equal, self@, other@, old(m)@, replies_model(tape@)), r, final(m)@),
    {
        let e = m.equals(self, other, tape)?;
        Ok(JsValue::Boolean(e))
    }

    /// `self != other`.
    pub fn not_equals(&self, other: &JsValue, m: &mut Machine, tape: &Vec<NumericReply>) -> (r: Result<JsValue, Halt>)
        ensures
            agrees_value(vm_binary(BinaryOperator::NotEqual, self@, other@, old(m)@, replies_model(tape@)), r, final(m)@),
    {
        let e = m.equals(self, other, tape)?;
        Ok(JsValue::Boolean(!e))
    }

    /// `self === other`.
    pub fn strict_equals(&self, other: &JsValue) -> (r: JsValue)
        ensures
            r@ == ValueModel::Boolean(values_strictly_equal(self@, other@)),
    {
        JsValue::Boolean(crate::ops::strict_equals(self, other))
    }

    /// `self !== other`.
    pub fn strict_not_equals(&self, other: &JsValue) -> (r: JsValue)
        ensures
            r@ == ValueModel::Boolean(!values_strictly_equal(self@, other@)),
    {
        JsValue::Boolean(!crate::ops::strict_equals(self, other))
    }

    /// `self < other`.
    pub fn less_than(&self, other: &JsValue, m: &mut Machine, tape: &Vec<NumericReply>) -> (r: Result<JsValue, Halt>)
        ensures
            agrees_value(vm_binary(BinaryOperator::LessThan, self@, other@, old(m)@, replies_model(tape@)), r, final(m)@),
    {
        m.binary(BinaryOperator::LessThan, self, other, tape)
    }

    /// `self > other`.
    pub fn greater_than(&self, other: &JsValue, m: &mut Machine, tape: &Vec<NumericReply>) -> (r: Result<JsValue, Halt>)
        ensures
            agrees_value(vm_binary(BinaryOperator::GreaterThan, self@, other@, old(m)@, replies_model(tape@)), r, final(m)@),
    {
        m.binary(BinaryOperator::GreaterThan, self, other, tape)
    }

    /// `self <= other`.
    pub fn less_than_or_equal(&self, other: &JsValue, m: &mut Machine, tape: &Vec<NumericReply>) -> (r: Result<JsValue, Halt>)
        ensures
            agrees_value(vm_binary(BinaryOperator::LessThanOrEqual, self@, other@, old(m)@, replies_model(tape@)), r, final(m)@),
    {
        m.binary(BinaryOperator::LessThanOrEqual, self, other, tape)
    }

    /// `self >= other`.
    pub fn greater_than_or_equal(&self, other: &JsValue, m: &mut Machine, tape: &Vec<NumericReply>) -> (r: Result<JsValue, Halt>)
        ensures
            agrees_value(vm_binary(BinaryOperator::GreaterThanOrEqual, self@, other@, old(m)@, replies_model(tape@)), r, final(m)@),
    {
        m.binary(BinaryOperator::GreaterThanOrEqual, self, other, tape)
    }

    /// JavaScript truthiness.
    pub fn to_bool(&self) -> (b: bool)
        ensures
            b == truthy(self@),
    {
        crate::ops::to_bool(self)
    }

    /// The value as a number.
    pub fn to_number(&self, m: &mut Machine, tape: &Vec<NumericReply>) -> (r: Result<JsNumber, Halt>)
        ensures
            agrees_number(vm_to_number(self@, old(m)@, replies_model(tape@)), r, final(m)@),
    {
        m.to_number(self, tape)
    }

    /// Writes a property and gives what the write evaluates to; see `vm_set_property`.
    pub fn set_property(&mut self, key: &String, value: JsValue, m: &mut Machine, tape: &Vec<NumericReply>) -> (r: Result<JsValue, Halt>)
        ensures
            match vm_set_property(old(self)@, key@, value@, old(m)@, replies_model(tape@)) {
                Ok((w2, (obj, res))) => r matches Ok(x) && x@ == res && final(self)@ == obj && final(m)@ == w2,
                Err(h) => r matches Err(e) && e@ == h,
            },
    {
        let target = clone_value(self);
        let (obj, res) = m.set_property(target, key, value, tape)?;
        *self = obj;
        Ok(res)
    }

    /// Reads a property.
    pub fn get_property(&self, key: &String) -> (r: JsValue)
        ensures
            r@ == property_value(self@, key@),
    {
        crate::ops::get_property(self, key)
    }

    /// The property key the value names.
    pub fn to_property_key(&self, m: &mut Machine, tape: &Vec<NumericReply>) -> (r: Result<String, Halt>)
        ensures
            agrees_text(vm_property_key(self@, old(m)@, replies_model(tape@)), r, final(m)@),
    {
        m.property_key(self, tape)
    }

    /// `self[index]`.
    pub fn get_index(&self, index: &JsValue, m: &mut Machine, tape: &Vec<NumericReply>) -> (r: Result<JsValue, Halt>)
        ensures
            agrees_value(vm_get_index(self@, index@, old(m)@, replies_model(tape@)), r, final(m)@),
    {
        m.get_index(self, index, tape)
    }

    /// `self[index] = value`; see `vm_set_index`.
    pub fn set_index(&mut self, index: &JsValue, value: JsValue, m: &mut Machine, tape: &Vec<NumericReply>) -> (r: Result<(), Halt>)
        ensures
            match vm_set_index(old(self)@, index@, value@, old(m)@, replies_model(tape@)) {
                Ok((w2, obj)) => r is Ok && final(self)@ == obj && final(m)@ == w2,
                Err(h) => r matches Err(e) && e@ == h,
            },
    {
        let target = clone_value(self);
        let obj = m.set_index(target, index, value, tape)?;
        *self = obj;
        Ok(())
    }

    /// The function a value holds, if it is one.
    pub fn as_function(&self) -> (r: Option<&JsFunction>)
        ensures
            match self@ {
                ValueModel::Function(f) => r matches Some(g) && g@ == f,
                _ => r is None,
            },
    {
        match self {
            JsValue::Function(f) => Some(f),
            _ => None,
        }
    }

    /// Calls a method on the value; gives the result and the receiver as the
    /// method left it. See `vm_call_method`.
    pub fn execute_method(&self, method: &String, args: Vec<JsValue>, m: &mut Machine, tape: &Vec<NumericReply>, fuel: u64) -> (r: Result<(JsValue, JsValue), Halt>)
        ensures
            match vm_call_method(self@, method@, values_model(args@), fuel as nat, old(m)@, replies_model(tape@)) {
                Ok((w2, (a, b))) => r matches Ok((x, y)) && x@ == a && y@ == b && final(m)@ == w2,
                Err(h) => r matches Err(e) && e@ == h,
            },
    {
        m.call_method(clone_value(self), method, &args, fuel, tape)
    }
}

/// `console.log`: records the console texts of the values, joined by spaces, as one printed line.
pub fn console_log(values: Vec<JsValue>, m: &mut Machine, tape: &Vec<NumericReply>) -> (r: Result<(), Halt>)
    ensures
        match vm_console_line(values_model(values@), old(m)@, replies_model(tape@)) {
            Ok((w2, line)) => r is Ok && final(m)@ == (WorldModel { output: w2.output.push(line), ..w2 }),
            Err(h) => r matches Err(e) && e@ == h,
        },
{
    let line = m.console_line(&values, tape)?;
    m.print(line);
    Ok(())
}

} // verus!
