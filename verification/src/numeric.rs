//! The numeric services that the embedder performs for the machine.
//!
//! Arithmetic on doubles and their decimal forms cannot be computed by the
//! library itself. When the machine needs one, it stops with a request;
//! the embedder computes the answer with its floating-point unit, appends
//! the reply to the list of replies, and runs the machine again. The
//! machine is deterministic, so a run with the first `k` replies repeats
//! the first `k` requests and continues from there.
use vstd::prelude::*;
use crate::number::JsNumber;

verus! {

/// A binary operation on doubles.
#[derive(Clone, Copy, Debug, PartialEq, Eq, Structural)]
pub enum ArithmeticOp {
    /// `a + b`
    Add,
    /// `a - b`
    Subtract,
    /// `a * b`
    Multiply,
    /// `a / b`
    Divide,
    /// `a % b`
    Remainder,
    /// `a.powf(b)`
    Power,
    /// The larger of `a` and `b` as JavaScript's `Math.max` takes it: NaN
    /// when either is NaN, and `+0` rather than `-0` when they are zeros.
    Max,
    /// The smaller of `a` and `b` as JavaScript's `Math.min` takes it: NaN
    /// when either is NaN, and `-0` rather than `+0` when they are zeros.
    Min,
}

/// A rounding of a double.
#[derive(Clone, Copy, Debug, PartialEq, Eq, Structural)]
pub enum RoundingOp {
    /// `n.floor()`
    Floor,
    /// `n.ceil()`
    Ceil,
    /// The integer nearest `n` as JavaScript's `Math.round` takes it: a tie
    /// goes toward `+∞` (`-2.5` gives `-2`), and NaN, infinities and zeros
    /// are given back unchanged.
    Round,
}

/// What the machine asks of the embedder. The comment on each variant says
/// what the reply holds, in terms of Rust's `f64`.
#[derive(Debug)]
pub enum NumericRequest {
    /// `Number(bits of s.parse::<f64>())`, or `NotANumber` when the text does not parse.
    Parse(String),
    /// `Text(n.to_string())`.
    Format(JsNumber),
    /// `Text(format!("{}", n as i64))` when `n.fract() == 0.0`, else `Text(n.to_string())`.
    PropertyKey(JsNumber),
    /// `Number(bits of a op b)`.
    Arithmetic(ArithmeticOp, JsNumber, JsNumber),
    /// `Number(bits of op(n))`.
    Rounding(RoundingOp, JsNumber),
    /// `Number(bits of n as f64)`.
    FromCount(usize),
    /// `Index(n as isize)`.
    ToIndex(JsNumber),
}

/// The embedder's answer to a request.
#[derive(Debug)]
pub enum NumericReply {
    Number(JsNumber),
    Text(String),
    Index(isize),
    NotANumber,
}

/// The model of a request.
pub enum RequestModel {
    Parse(Seq<char>),
    Format(JsNumber),
    PropertyKey(JsNumber),
    Arithmetic(ArithmeticOp, JsNumber, JsNumber),
    Rounding(RoundingOp, JsNumber),
    FromCount(nat),
    ToIndex(JsNumber),
}

/// The model of a reply.
pub enum ReplyModel {
    Number(JsNumber),
    Text(Seq<char>),
    Index(int),
    NotANumber,
}

impl View for NumericRequest {
    type V = RequestModel;

    open spec fn view(&self) -> RequestModel {
        match self {
            NumericRequest::Parse(s) => RequestModel::Parse(s@),
            NumericRequest::Format(n) => RequestModel::Format(*n),
            NumericRequest::PropertyKey(n) => RequestModel::PropertyKey(*n),
            NumericRequest::Arithmetic(op, a, b) => RequestModel::Arithmetic(*op, *a, *b),
            NumericRequest::Rounding(op, n) => RequestModel::Rounding(*op, *n),
            NumericRequest::FromCount(n) => RequestModel::FromCount(*n as nat),
            NumericRequest::ToIndex(n) => RequestModel::ToIndex(*n),
        }
    }
}

impl View for NumericReply {
    type V = ReplyModel;

    open spec fn view(&self) -> ReplyModel {
        match self {
            NumericReply::Number(n) => ReplyModel::Number(*n),
            NumericReply::Text(s) => ReplyModel::Text(s@),
            NumericReply::Index(i) => ReplyModel::Index(*i as int),
            NumericReply::NotANumber => ReplyModel::NotANumber,
        }
    }
}

/// The models of a list of replies.
pub open spec fn replies_model(s: Seq<NumericReply>) -> Seq<ReplyModel> {
    s.map_values(|r: NumericReply| r@)
}

} // verus!
