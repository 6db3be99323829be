//! The state that a run of the machine threads through: the scope chain,
//! the cells that `this` refers to, the position in the list of replies and
//! the lines that `console.log` printed.
use vstd::prelude::*;
use crate::number::JsNumber;
use crate::value::{JsValue, ValueModel, values_model, strings_model, lemma_values_model_push};
use crate::scope::{JsScope, FrameModel};
use crate::numeric::{NumericRequest, NumericReply, RequestModel, ReplyModel, replies_model};

verus! {

/// Why a run stopped before the program ended.
#[derive(Debug)]
pub enum Halt {
    /// The run needs the embedder's answer to this request.
    NeedReply(NumericRequest),
    /// A reply of the wrong kind was given for a request.
    UnexpectedReply,
    /// The run used up the steps it was given.
    OutOfFuel,
}

/// The model of a halt.
pub enum HaltModel {
    NeedReply(RequestModel),
    UnexpectedReply,
    OutOfFuel,
}

impl View for Halt {
    type V = HaltModel;

    open spec fn view(&self) -> HaltModel {
        match self {
            Halt::NeedReply(r) => HaltModel::NeedReply(r@),
            Halt::UnexpectedReply => HaltModel::UnexpectedReply,
            Halt::OutOfFuel => HaltModel::OutOfFuel,
        }
    }
}

/// How a piece of code ended: normally with its last value, by `return`, or by `throw`.
#[derive(Debug)]
pub enum Completion {
    Normal(JsValue),
    Return(JsValue),
    Throw(JsValue),
}

/// The model of a completion.
pub enum CompletionModel {
    Normal(ValueModel),
    Return(ValueModel),
    Throw(ValueModel),
}

impl View for Completion {
    type V = CompletionModel;

    open spec fn view(&self) -> CompletionModel {
        match self {
            Completion::Normal(v) => CompletionModel::Normal(v@),
            Completion::Return(v) => CompletionModel::Return(v@),
            Completion::Throw(v) => CompletionModel::Throw(v@),
        }
    }
}

impl CompletionModel {
    /// The value a completion carries, whatever its kind.
    pub open spec fn value(self) -> ValueModel {
        match self {
            CompletionModel::Normal(v) => v,
            CompletionModel::Return(v) => v,
            CompletionModel::Throw(v) => v,
        }
    }
}

impl CompletionModel {
    /// The value a function call gives for the way its body ended: the
    /// returned or thrown value, and `undefined` when the body ran to its end.
    pub open spec fn call_result(self) -> ValueModel {
        match self {
            CompletionModel::Normal(_) => ValueModel::Undefined,
            CompletionModel::Return(v) => v,
            CompletionModel::Throw(v) => v,
        }
    }
}

impl Completion {
    /// The value a function call gives; see `CompletionModel::call_result`.
    pub fn into_call_result(self) -> (v: JsValue)
        ensures
            v@ == self@.call_result(),
    {
        match self {
            Completion::Normal(_) => JsValue::Undefined,
            Completion::Return(v) => v,
            Completion::Throw(v) => v,
        }
    }

    /// The value a completion carries, whatever its kind.
    pub fn into_value(self) -> (v: JsValue)
        ensures
            v@ == self@.value(),
    {
        match self {
            Completion::Normal(v) => v,
            Completion::Return(v) => v,
            Completion::Throw(v) => v,
        }
    }
}

/// The state of a run.
#[derive(Debug)]
pub struct Machine {
    pub scope: JsScope,
    pub this_cells: Vec<JsValue>,
    pub next_reply: usize,
    pub output: Vec<String>,
}

/// The model of the state of a run.
pub struct WorldModel {
    pub scope: Seq<FrameModel>,
    pub this_cells: Seq<ValueModel>,
    pub next_reply: nat,
    pub output: Seq<Seq<char>>,
}

impl View for Machine {
    type V = WorldModel;

    open spec fn view(&self) -> WorldModel {
        WorldModel {
            scope: self.scope@,
            this_cells: values_model(self.this_cells@),
            next_reply: self.next_reply as nat,
            output: strings_model(self.output@),
        }
    }
}

/// What a step of a run gives: the new state and a result, or a halt.
pub type Outcome<X> = Result<(WorldModel, X), HaltModel>;

/// Takes the next reply, or halts asking for it.
pub open spec fn ask(w: WorldModel, tape: Seq<ReplyModel>, req: RequestModel) -> Outcome<ReplyModel> {
    if w.next_reply < tape.len() {
        Ok((WorldModel { next_reply: w.next_reply + 1, ..w }, tape[w.next_reply as int]))
    } else {
        Err(HaltModel::NeedReply(req))
    }
}

/// Asks for a number.
pub open spec fn ask_number(w: WorldModel, tape: Seq<ReplyModel>, req: RequestModel) -> Outcome<JsNumber> {
    match ask(w, tape, req) {
        Ok((w2, ReplyModel::Number(n))) => Ok((w2, n)),
        Ok(_) => Err(HaltModel::UnexpectedReply),
        Err(h) => Err(h),
    }
}

/// Asks for a text.
pub open spec fn ask_text(w: WorldModel, tape: Seq<ReplyModel>, req: RequestModel) -> Outcome<Seq<char>> {
    match ask(w, tape, req) {
        Ok((w2, ReplyModel::Text(s))) => Ok((w2, s)),
        Ok(_) => Err(HaltModel::UnexpectedReply),
        Err(h) => Err(h),
    }
}

/// An executable result agrees with a modelled outcome.
pub open spec fn agrees_value(out: Outcome<ValueModel>, r: Result<JsValue, Halt>, w: WorldModel) -> bool {
    match out {
        Ok((w2, v)) => r matches Ok(x) && x@ == v && w == w2,
        Err(h) => r matches Err(e) && e@ == h,
    }
}

pub open spec fn agrees_number(out: Outcome<JsNumber>, r: Result<JsNumber, Halt>, w: WorldModel) -> bool {
    match out {
        Ok((w2, v)) => r matches Ok(x) && x == v && w == w2,
        Err(h) => r matches Err(e) && e@ == h,
    }
}

pub open spec fn agrees_text(out: Outcome<Seq<char>>, r: Result<String, Halt>, w: WorldModel) -> bool {
    match out {
        Ok((w2, v)) => r matches Ok(x) && x@ == v && w == w2,
        Err(h) => r matches Err(e) && e@ == h,
    }
}

pub open spec fn agrees_bool(out: Outcome<bool>, r: Result<bool, Halt>, w: WorldModel) -> bool {
    match out {
        Ok((w2, v)) => r matches Ok(x) && x == v && w == w2,
        Err(h) => r matches Err(e) && e@ == h,
    }
}

pub open spec fn agrees_int(out: Outcome<int>, r: Result<isize, Halt>, w: WorldModel) -> bool {
    match out {
        Ok((w2, v)) => r matches Ok(x) && x as int == v && w == w2,
        Err(h) => r matches Err(e) && e@ == h,
    }
}

pub open spec fn agrees_unit(out: Outcome<()>, r: Result<(), Halt>, w: WorldModel) -> bool {
    match out {
        Ok((w2, _)) => r is Ok && w == w2,
        Err(h) => r matches Err(e) && e@ == h,
    }
}

pub open spec fn agrees_completion(out: Outcome<CompletionModel>, r: Result<Completion, Halt>, w: WorldModel) -> bool {
    match out {
        Ok((w2, v)) => r matches Ok(x) && x@ == v && w == w2,
        Err(h) => r matches Err(e) && e@ == h,
    }
}

pub fn clone_reply(r: &NumericReply) -> (c: NumericReply)
    ensures
        c@ == r@,
{
    match r {
        NumericReply::Number(n) => NumericReply::Number(*n),
        NumericReply::Text(s) => NumericReply::Text(s.clone()),
        NumericReply::Index(i) => NumericReply::Index(*i),
        NumericReply::NotANumber => NumericReply::NotANumber,
    }
}

impl Machine {
    /// A state with the given scope chain and `this` value.
    pub fn new(scope: JsScope, this_value: Option<JsValue>) -> (m: Machine)
        ensures
            m@.scope == scope@,
            m@.this_cells == (match this_value {
                Some(v) => seq![v@],
                None => Seq::<ValueModel>::empty(),
            }),
            m@.next_reply == 0,
            m@.output == Seq::<Seq<char>>::empty(),
    {
        let mut cells: Vec<JsValue> = Vec::new();
        match this_value {
            Some(v) => {
                proof { lemma_values_model_push(cells@, v); }
                cells.push(v);
                assert(values_model(Seq::<JsValue>::empty()) =~= Seq::<ValueModel>::empty());
                assert(values_model(cells@) =~= seq![v@]);
            },
            None => {
                assert(values_model(cells@) =~= Seq::<ValueModel>::empty());
            },
        }
        let m = Machine { scope, this_cells: cells, next_reply: 0, output: Vec::new() };
        assert(m@.output =~= Seq::<Seq<char>>::empty());
        m
    }

    /// Takes the next reply, or halts asking for it.
    pub fn ask(&mut self, tape: &Vec<NumericReply>, req: NumericRequest) -> (r: Result<NumericReply, Halt>)
        ensures
            match ask(old(self)@, replies_model(tape@), req@) {
                Ok((w2, rep)) => r matches Ok(x) && x@ == rep && final(self)@ == w2,
                Err(h) => r matches Err(e) && e@ == h,
            },
    {
        if self.next_reply < tape.len() {
            let rep = clone_reply(&tape[self.next_reply]);
            self.next_reply = self.next_reply + 1;
            Ok(rep)
        } else {
            Err(Halt::NeedReply(req))
        }
    }

    /// Asks for a number.
    pub fn ask_number(&mut self, tape: &Vec<NumericReply>, req: NumericRequest) -> (r: Result<JsNumber, Halt>)
        ensures
            agrees_number(ask_number(old(self)@, replies_model(tape@), req@), r, final(self)@),
    {
        match self.ask(tape, req)? {
            NumericReply::Number(n) => Ok(n),
            _ => Err(Halt::UnexpectedReply),
        }
    }

    /// Asks for a text.
    pub fn ask_text(&mut self, tape: &Vec<NumericReply>, req: NumericRequest) -> (r: Result<String, Halt>)
        ensures
            agrees_text(ask_text(old(self)@, replies_model(tape@), req@), r, final(self)@),
    {
        match self.ask(tape, req)? {
            NumericReply::Text(s) => Ok(s),
            _ => Err(Halt::UnexpectedReply),
        }
    }

    /// Records a line printed by `console.log`.
    pub fn print(&mut self, line: String)
        ensures
            final(self)@ == (WorldModel { output: old(self)@.output.push(line@), ..old(self)@ }),
    {
        self.output.push(line);
        assert(self@.output =~= old(self)@.output.push(line@));
    }
}

} // verus!
