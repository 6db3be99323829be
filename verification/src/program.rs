//! Programs and functions, run against an execution context.
use vstd::prelude::*;
use crate::value::{
    JsValue, JsFunction, BytecodeProgram, ValueModel, FunctionModel, InstrModel, values_model, strings_model,
    clone_value, lemma_values_model_len, lemma_values_model_index,
};
use crate::ast::{JsStatement, JsExpression};
use crate::scope::{JsScope, FrameModel};
use crate::numeric::{NumericReply, ReplyModel, replies_model};
use crate::machine::{Machine, Halt, WorldModel, Outcome};
use crate::compile::{compile_block, compile_program};
use crate::vm::{vm_run, vm_call_function};
use crate::walk::{tw_eval, tw_exec};

verus! {

/// The scope chain and the `this` value that code runs against.
#[derive(Debug)]
pub struct JsExecutionContext {
    pub scope: JsScope,
    pub this_context: Option<JsValue>,
}

/// What a completed run gives: its value and the lines that `console.log` printed.
#[derive(Debug)]
pub struct RunOutcome {
    pub value: JsValue,
    pub printed: Vec<String>,
}

/// A compiled program.
#[derive(Debug)]
pub struct JsProgram {
    bytecode: BytecodeProgram,
}

impl View for JsProgram {
    type V = Seq<InstrModel>;

    closed spec fn view(&self) -> Seq<InstrModel> {
        self.bytecode@
    }
}

pub open spec fn opt_value_model(v: Option<JsValue>) -> Option<ValueModel> {
    match v {
        Some(x) => Some(x@),
        None => None,
    }
}

/// The state a run starts in: the context's scope, `this` in the first cell.
pub open spec fn initial_world(scope: Seq<FrameModel>, this: Option<ValueModel>) -> WorldModel {
    WorldModel {
        scope,
        this_cells: match this {
            Some(v) => seq![v],
            None => Seq::empty(),
        },
        next_reply: 0,
        output: Seq::empty(),
    }
}

pub open spec fn initial_this(this: Option<ValueModel>) -> Option<nat> {
    match this {
        Some(_) => Some(0nat),
        None => None,
    }
}

/// The `this` value after a run: the first cell as the run left it.
pub open spec fn final_this(this: Option<ValueModel>, w: WorldModel) -> Option<ValueModel> {
    match this {
        Some(_) => Some(if w.this_cells.len() > 0 { w.this_cells[0] } else { ValueModel::Undefined }),
        None => None,
    }
}

/// A program run against a context; its value is the value the code ended with.
pub open spec fn program_run(code: Seq<InstrModel>, scope: Seq<FrameModel>, this: Option<ValueModel>, fuel: nat, tape: Seq<ReplyModel>) -> Outcome<ValueModel> {
    match vm_run(code, initial_this(this), fuel, initial_world(scope, this), tape) {
        Err(h) => Err(h),
        Ok((w, c)) => Ok((w, c.value())),
    }
}

/// A function called against a context.
pub open spec fn function_run(f: FunctionModel, args: Seq<ValueModel>, scope: Seq<FrameModel>, this: Option<ValueModel>, fuel: nat, tape: Seq<ReplyModel>) -> Outcome<ValueModel> {
    vm_call_function(f, args, initial_this(this), fuel, initial_world(scope, this), tape)
}

/// An expression evaluated directly against a context.
pub open spec fn expression_run(e: JsExpression, scope: Seq<FrameModel>, this: Option<ValueModel>, fuel: nat, tape: Seq<ReplyModel>) -> Outcome<ValueModel> {
    tw_eval(e, initial_this(this), fuel, initial_world(scope, this), tape)
}

/// A statement executed directly against a context; its value is the value
/// it ended with, however it ended.
pub open spec fn statement_run(st: JsStatement, scope: Seq<FrameModel>, this: Option<ValueModel>, fuel: nat, tape: Seq<ReplyModel>) -> Outcome<ValueModel> {
    match tw_exec(st, initial_this(this), fuel, initial_world(scope, this), tape) {
        Err(h) => Err(h),
        Ok((w, c)) => Ok((w, c.value())),
    }
}

/// A run's result agrees with its model: when the run completes, the outcome
/// holds its value and printed lines and the context holds the scope and
/// `this` value the run left; when it halts, the context is as it was.
pub open spec fn agrees_run(
    out: Outcome<ValueModel>,
    r: Result<RunOutcome, Halt>,
    before: (Seq<FrameModel>, Option<ValueModel>),
    after: (Seq<FrameModel>, Option<ValueModel>),
) -> bool {
    match out {
        Ok((w, v)) => r matches Ok(o) && o.value@ == v && strings_model(o.printed@) == w.output
            && after == (w.scope, final_this(before.1, w)),
        Err(h) => r matches Err(e) && e@ == h && after == before,
    }
}

impl JsExecutionContext {
    /// A machine that starts from a copy of this context.
    fn start(&self) -> (m: Machine)
        ensures
            m@ == initial_world(self.scope@, opt_value_model(self.this_context)),
    {
        let this_in = match &self.this_context {
            Some(v) => Some(clone_value(v)),
            None => None,
        };
        Machine::new(self.scope.duplicate(), this_in)
    }

    /// Takes over the scope and the `this` value a completed run left.
    fn settle(&mut self, m: Machine, value: JsValue) -> (o: RunOutcome)
        ensures
            o.value@ == value@,
            strings_model(o.printed@) == m@.output,
            final(self).scope@ == m@.scope,
            opt_value_model(final(self).this_context) == final_this(opt_value_model(old(self).this_context), m@),
    {
        let Machine { scope, this_cells, next_reply: _, output } = m;
        proof { lemma_values_model_len(this_cells@); }
        self.scope = scope;
        if self.this_context.is_some() {
            if this_cells.len() > 0 {
                proof { lemma_values_model_index(this_cells@, 0); }
                self.this_context = Some(clone_value(&this_cells[0]));
            } else {
                self.this_context = Some(JsValue::Undefined);
            }
        }
        RunOutcome { value, printed: output }
    }
}

impl JsProgram {
    /// Compiles a list of statements.
    pub fn new(statements: Vec<JsStatement>) -> (p: JsProgram)
        ensures
            p@ == compile_block(statements@, 0),
    {
        JsProgram { bytecode: compile_program(&statements) }
    }

    /// Runs the program against a context, with the given replies and budget of steps.
    pub fn execute(&self, context: &mut JsExecutionContext, tape: &Vec<NumericReply>, fuel: u64) -> (r: Result<RunOutcome, Halt>)
        ensures
            agrees_run(
                program_run(self@, old(context).scope@, opt_value_model(old(context).this_context), fuel as nat, replies_model(tape@)),
                r,
                (old(context).scope@, opt_value_model(old(context).this_context)),
                (final(context).scope@, opt_value_model(final(context).this_context)),
            ),
    {
        let mut m = context.start();
        let this_idx: Option<usize> = if context.this_context.is_some() { Some(0) } else { None };
        let c = m.run_code(&self.bytecode.instructions, this_idx, fuel, tape)?;
        Ok(context.settle(m, c.into_value()))
    }
}

impl JsFunction {
    /// Compiles a function body. The name is not kept.
    pub fn new(parameters: Vec<String>, body: Vec<JsStatement>, _name: String) -> (f: JsFunction)
        ensures
            f@ == (FunctionModel { parameters: strings_model(parameters@), code: compile_block(body@, 0) }),
    {
        JsFunction { parameters, bytecode: compile_program(&body) }
    }

    /// Calls the function with the given arguments against a context: a new
    /// frame below the context's scope binds the parameters.
    pub fn execute(&self, args: &Vec<JsValue>, context: &mut JsExecutionContext, tape: &Vec<NumericReply>, fuel: u64) -> (r: Result<RunOutcome, Halt>)
        ensures
            agrees_run(
                function_run(self@, values_model(args@), old(context).scope@, opt_value_model(old(context).this_context), fuel as nat, replies_model(tape@)),
                r,
                (old(context).scope@, opt_value_model(old(context).this_context)),
                (final(context).scope@, opt_value_model(final(context).this_context)),
            ),
    {
        let mut m = context.start();
        let this_idx: Option<usize> = if context.this_context.is_some() { Some(0) } else { None };
        let v = m.call_function(self, args, this_idx, fuel, tape)?;
        Ok(context.settle(m, v))
    }
}

impl JsExpression {
    /// Evaluates the expression against a context.
    pub fn evaluate(&self, context: &mut JsExecutionContext, tape: &Vec<NumericReply>, fuel: u64) -> (r: Result<RunOutcome, Halt>)
        ensures
            agrees_run(
                expression_run(*self, old(context).scope@, opt_value_model(old(context).this_context), fuel as nat, replies_model(tape@)),
                r,
                (old(context).scope@, opt_value_model(old(context).this_context)),
                (final(context).scope@, opt_value_model(final(context).this_context)),
            ),
    {
        let mut m = context.start();
        let this_idx: Option<usize> = if context.this_context.is_some() { Some(0) } else { None };
        let v = m.eval_expr(self, this_idx, fuel, tape)?;
        Ok(context.settle(m, v))
    }
}

impl JsStatement {
    /// Executes the statement against a context.
    pub fn execute(&self, context: &mut JsExecutionContext, tape: &Vec<NumericReply>, fuel: u64) -> (r: Result<RunOutcome, Halt>)
        ensures
            agrees_run(
                statement_run(*self, old(context).scope@, opt_value_model(old(context).this_context), fuel as nat, replies_model(tape@)),
                r,
                (old(context).scope@, opt_value_model(old(context).this_context)),
                (final(context).scope@, opt_value_model(final(context).this_context)),
            ),
    {
        let mut m = context.start();
        let this_idx: Option<usize> = if context.this_context.is_some() { Some(0) } else { None };
        let c = m.exec_stmt(self, this_idx, fuel, tape)?;
        Ok(context.settle(m, c.into_value()))
    }
}

} // verus!
