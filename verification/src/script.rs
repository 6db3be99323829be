//! Scripts from source text: reading (lexing, parsing, lowering), emitting,
//! compiling, and running against a fresh root scope.
//!
//! Replies are used in the order the requests come: first those that number
//! literals ask while the script is read, then those that the run asks.
use vstd::prelude::*;
use crate::lexer::{lex, SyntaxError};
use crate::grammar::p_script;
use crate::parser::parse_script;
use crate::lower::{lower_stmts, lower_stmt, lower_statement_to_ir, lemma_lower_stmts_push};
use crate::emit::{emits_stmts, emits_stmt, emit_ir_statement_to_runtime, lemma_emits_stmts_push};
use crate::ir::IrStmtModel;
use crate::syntax::{StmtModel, stmt_model, stmts_model, lemma_stmts_model_push};
use crate::ast::JsStatement;
use crate::value::{InstrModel, strings_model};
use crate::compile::compile_block;
use crate::numeric::{NumericReply, ReplyModel, replies_model};
use crate::machine::{Machine, Halt, WorldModel, Outcome, clone_reply};
use crate::scope::JsScope;
use crate::program::{JsProgram, JsExecutionContext, RunOutcome, initial_world, program_run};

verus! {

/// The root scope that a script reads and runs in: one empty frame.
pub open spec fn root_frames() -> Seq<Seq<(Seq<char>, (crate::value::ValueModel, bool))>> {
    seq![Seq::empty()]
}

/// The state in which a script is read.
pub open spec fn reading_world() -> WorldModel {
    initial_world(root_frames(), None)
}

/// What reading a script gives: its lowered statements, or the syntax error
/// that stops it, with the state after reading (which holds how many
/// replies were used); or the halt of a number literal's request.
pub open spec fn script_read(source: Seq<char>, tape: Seq<ReplyModel>) -> Outcome<Result<Seq<IrStmtModel>, SyntaxError>> {
    match lex(source, reading_world(), tape) {
        Err(h) => Err(h),
        Ok((w, Err(e))) => Ok((w, Err(e))),
        Ok((w, Ok(ts))) => match p_script(ts) {
            Err(e) => Ok((w, Err(e))),
            Ok(stmts) => Ok((w, Ok(lower_stmts(stmts)))),
        },
    }
}

/// `code` is the compiled form of an emitted form of the lowered statements `m`.
pub open spec fn compiles_from(m: Seq<IrStmtModel>, code: Seq<InstrModel>) -> bool {
    exists|a: Seq<JsStatement>| emits_stmts(m, a) && code == #[trigger] compile_block(a, 0)
}

/// The replies left after the first `k`.
pub open spec fn replies_after(tape: Seq<ReplyModel>, k: nat) -> Seq<ReplyModel> {
    if k <= tape.len() {
        tape.skip(k as int)
    } else {
        Seq::empty()
    }
}

/// Reads and compiles a script. Gives the program and the number of replies
/// that reading used.
pub fn compile_script(source: &str, tape: &Vec<NumericReply>) -> (r: Result<Result<(JsProgram, usize), SyntaxError>, Halt>)
    ensures
        match script_read(source@, replies_model(tape@)) {
            Err(h) => r matches Err(e) && e@ == h,
            Ok((_, Err(e))) => r matches Ok(Err(x)) && x == e,
            Ok((w, Ok(m))) => r matches Ok(Ok((p, k))) && compiles_from(m, p@) && k as nat == w.next_reply,
        },
{
    let mut m = Machine::new(JsScope::new_root(), None);
    assert(m@ == reading_world());
    let toks = match m.tokenize(source, tape)? {
        Ok(t) => t,
        Err(e) => {
            return Ok(Err(e));
        },
    };
    let script = match parse_script(&toks) {
        Ok(s) => s,
        Err(e) => {
            return Ok(Err(e));
        },
    };
    let stmts = &script.statements;
    let mut emitted: Vec<JsStatement> = Vec::new();
    let mut i: usize = 0;
    assert(stmts_model(stmts@.take(0)) =~= Seq::<StmtModel>::empty());
    while i < stmts.len()
        invariant
            i <= stmts@.len(),
            emits_stmts(lower_stmts(stmts_model(stmts@.take(i as int))), emitted@),
        decreases stmts@.len() - i,
    {
        let x = convert_statement_to_runtime(&stmts[i]);
        proof {
            lemma_stmts_model_push(stmts@.take(i as int), stmts@[i as int]);
            assert(stmts@.take(i + 1) =~= stmts@.take(i as int).push(stmts@[i as int]));
            lemma_lower_stmts_push(stmts_model(stmts@.take(i as int)), stmt_model(stmts@[i as int]));
            lemma_emits_stmts_push(lower_stmts(stmts_model(stmts@.take(i as int))), emitted@, lower_stmt(stmt_model(stmts@[i as int])), x);
        }
        emitted.push(x);
        i += 1;
    }
    assert(stmts@.take(stmts@.len() as int) =~= stmts@);
    let ghost a = emitted@;
    let p = JsProgram::new(emitted);
    assert(p@ == compile_block(a, 0));
    Ok(Ok((p, m.next_reply)))
}

/// A statement of a script in the form the runtime compiles: lowered, then
/// emitted.
pub fn convert_statement_to_runtime(stmt: &crate::syntax::JsStatement) -> (r: JsStatement)
    ensures
        emits_stmt(lower_stmt(stmt_model(*stmt)), r),
{
    let ir = lower_statement_to_ir(stmt);
    emit_ir_statement_to_runtime(&ir)
}

/// The replies after the first `k`, as a list.
fn replies_from(tape: &Vec<NumericReply>, k: usize) -> (r: Vec<NumericReply>)
    ensures
        replies_model(r@) == replies_after(replies_model(tape@), k as nat),
{
    let mut out: Vec<NumericReply> = Vec::new();
    if k > tape.len() {
        assert(replies_model(out@) =~= Seq::<ReplyModel>::empty());
        return out;
    }
    let mut i: usize = k;
    assert(replies_model(out@) =~= replies_model(tape@).subrange(k as int, k as int));
    while i < tape.len()
        invariant
            k <= i <= tape@.len(),
            replies_model(out@) == replies_model(tape@).subrange(k as int, i as int),
        decreases tape@.len() - i,
    {
        let x = clone_reply(&tape[i]);
        let ghost before = out@;
        out.push(x);
        proof {
            assert(replies_model(out@) =~= replies_model(before).push(x@));
            assert(replies_model(tape@).subrange(k as int, i + 1) =~= replies_model(tape@).subrange(k as int, i as int).push(x@));
        }
        i += 1;
    }
    assert(replies_model(tape@).subrange(k as int, tape@.len() as int) =~= replies_model(tape@).skip(k as int));
    out
}

/// Reads, compiles and runs a script against a fresh root scope, with the
/// given replies and budget of steps. The run gets the replies that reading
/// left over.
pub fn js(source: &str, tape: &Vec<NumericReply>, fuel: u64) -> (r: Result<Result<RunOutcome, SyntaxError>, Halt>)
    ensures
        match script_read(source@, replies_model(tape@)) {
            Err(h) => r matches Err(e) && e@ == h,
            Ok((_, Err(e))) => r matches Ok(Err(x)) && x == e,
            Ok((w, Ok(m))) => exists|code: Seq<InstrModel>|
                #[trigger] compiles_from(m, code) && match program_run(code, root_frames(), None, fuel as nat, replies_after(replies_model(tape@), w.next_reply)) {
                    Ok((w2, v)) => r matches Ok(Ok(o)) && o.value@ == v && strings_model(o.printed@) == w2.output,
                    Err(h) => r matches Err(e) && e@ == h,
                },
        },
{
    let (p, k) = match compile_script(source, tape)? {
        Ok(x) => x,
        Err(e) => {
            return Ok(Err(e));
        },
    };
    let rest = replies_from(tape, k);
    let mut context = JsExecutionContext { scope: JsScope::new_root(), this_context: None };
    let out = p.execute(&mut context, &rest, fuel)?;
    Ok(Ok(out))
}

} // verus!
