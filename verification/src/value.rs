//! Runtime values, compiled functions and their mathematical models.
//!
//! Every executable type here has a model made of `Seq`s (its view), and a
//! deep copy that is proved to keep the model.
use vstd::prelude::*;
use crate::number::JsNumber;

verus! {

broadcast use vstd::std_specs::vec::axiom_vec_index_decreases;

/// The two kinds of error object that the runtime creates.
#[derive(Clone, Copy, Debug, PartialEq, Eq, Structural)]
pub enum JsErrorKind {
    Error,
    TypeError,
}

/// `let` bindings can be assigned again, `const` bindings cannot.
#[derive(Clone, Copy, Debug, PartialEq, Eq, Structural)]
pub enum JsDeclarationKind {
    Let,
    Const,
}

/// The binary operators that the compiler recognises in an operator string.
#[derive(Clone, Copy, Debug, PartialEq, Eq, Structural)]
pub enum BinaryOperator {
    Add,
    Subtract,
    Multiply,
    Divide,
    Remainder,
    Equal,
    NotEqual,
    StrictEqual,
    StrictNotEqual,
    LessThan,
    GreaterThan,
    LessThanOrEqual,
    GreaterThanOrEqual,
    Unsupported,
}

/// The unary operators that the compiler recognises in an operator string.
#[derive(Clone, Copy, Debug, PartialEq, Eq, Structural)]
pub enum UnaryOperator {
    Negate,
    Not,
    Unsupported,
}

/// An error object: its kind, message, optional stack and other properties.
#[derive(Debug)]
pub struct JsError {
    pub kind: JsErrorKind,
    pub message: String,
    pub stack: Option<String>,
    pub properties: Vec<(String, JsValue)>,
}

/// A function value: parameter names and the compiled body.
#[derive(Debug)]
pub struct JsFunction {
    pub parameters: Vec<String>,
    pub bytecode: BytecodeProgram,
}

/// A compiled body: a sequence of stack-machine instructions.
#[derive(Debug)]
pub struct BytecodeProgram {
    pub instructions: Vec<Instruction>,
}

/// A JavaScript value. Objects keep their properties in insertion order.
#[derive(Debug)]
pub enum JsValue {
    Number(JsNumber),
    String(String),
    Boolean(bool),
    Null,
    Undefined,
    Object(Vec<(String, JsValue)>),
    Array(Vec<JsValue>),
    Function(JsFunction),
    Error(JsError),
}

/// One instruction of the stack machine. Jump targets are absolute indices.
#[derive(Debug)]
pub enum Instruction {
    PushLiteral(JsValue),
    PushUndefined,
    LoadIdentifier(String),
    LoadThis,
    StoreIdentifier(String),
    Declare { kind: JsDeclarationKind, name: String },
    Dup,
    Pop,
    SetLast,
    BinaryOp(BinaryOperator),
    UnaryOp(UnaryOperator),
    LogicalAnd(usize),
    LogicalOr(usize),
    Call(String, usize),
    MemberAccess(String),
    IndexAccess,
    MethodCall { method: String, arg_count: usize },
    MethodCallNamed { object_name: String, method: String, arg_count: usize },
    AssignThisMember(String),
    AssignNamedMember { object_name: String, member: String },
    AssignComputedMember(String),
    AssignNamedIndex(String),
    AssignComputedIndex,
    JumpIfFalse(usize),
    Jump(usize),
    Throw,
    TryCatchFinally {
        try_program: BytecodeProgram,
        catch_param: Option<String>,
        catch_program: Option<BytecodeProgram>,
        finally_program: Option<BytecodeProgram>,
    },
    Return,
    MakeArray(usize),
    MakeObject(Vec<String>),
}

// ---------------------------------------------------------------------------
// Models
// ---------------------------------------------------------------------------

/// The model of a value.
pub enum ValueModel {
    Number(JsNumber),
    String(Seq<char>),
    Boolean(bool),
    Null,
    Undefined,
    Object(Seq<(Seq<char>, ValueModel)>),
    Array(Seq<ValueModel>),
    Function(FunctionModel),
    Error(ErrorModel),
}

/// The model of a function value.
pub struct FunctionModel {
    pub parameters: Seq<Seq<char>>,
    pub code: Seq<InstrModel>,
}

/// The model of an error object.
pub struct ErrorModel {
    pub kind: JsErrorKind,
    pub message: Seq<char>,
    pub stack: Option<Seq<char>>,
    pub properties: Seq<(Seq<char>, ValueModel)>,
}

/// The model of an instruction.
pub enum InstrModel {
    PushLiteral(ValueModel),
    PushUndefined,
    LoadIdentifier(Seq<char>),
    LoadThis,
    StoreIdentifier(Seq<char>),
    Declare { kind: JsDeclarationKind, name: Seq<char> },
    Dup,
    Pop,
    SetLast,
    BinaryOp(BinaryOperator),
    UnaryOp(UnaryOperator),
    LogicalAnd(nat),
    LogicalOr(nat),
    Call(Seq<char>, nat),
    MemberAccess(Seq<char>),
    IndexAccess,
    MethodCall { method: Seq<char>, arg_count: nat },
    MethodCallNamed { object_name: Seq<char>, method: Seq<char>, arg_count: nat },
    AssignThisMember(Seq<char>),
    AssignNamedMember { object_name: Seq<char>, member: Seq<char> },
    AssignComputedMember(Seq<char>),
    AssignNamedIndex(Seq<char>),
    AssignComputedIndex,
    JumpIfFalse(nat),
    Jump(nat),
    Throw,
    TryCatchFinally {
        try_program: Seq<InstrModel>,
        catch_param: Option<Seq<char>>,
        catch_program: Option<Seq<InstrModel>>,
        finally_program: Option<Seq<InstrModel>>,
    },
    Return,
    MakeArray(nat),
    MakeObject(Seq<Seq<char>>),
}

pub open spec fn strings_model(s: Seq<String>) -> Seq<Seq<char>> {
    s.map_values(|x: String| x@)
}

pub open spec fn opt_string_model(s: Option<String>) -> Option<Seq<char>> {
    match s {
        Some(x) => Some(x@),
        None => None,
    }
}

pub open spec fn value_model(v: JsValue) -> ValueModel
    decreases v, 0nat,
{
    match v {
        JsValue::Number(n) => ValueModel::Number(n),
        JsValue::String(s) => ValueModel::String(s@),
        JsValue::Boolean(b) => ValueModel::Boolean(b),
        JsValue::Null => ValueModel::Null,
        JsValue::Undefined => ValueModel::Undefined,
        JsValue::Object(p) => ValueModel::Object(props_model(p@)),
        JsValue::Array(a) => ValueModel::Array(values_model(a@)),
        JsValue::Function(f) => ValueModel::Function(FunctionModel {
            parameters: strings_model(f.parameters@),
            code: instrs_model(f.bytecode.instructions@),
        }),
        JsValue::Error(e) => ValueModel::Error(ErrorModel {
            kind: e.kind,
            message: e.message@,
            stack: opt_string_model(e.stack),
            properties: props_model(e.properties@),
        }),
    }
}

pub open spec fn values_model(s: Seq<JsValue>) -> Seq<ValueModel>
    decreases s, 1nat,
{
    if s.len() == 0 {
        Seq::empty()
    } else {
        values_model(s.drop_last()).push(value_model(s.last()))
    }
}

pub open spec fn props_model(s: Seq<(String, JsValue)>) -> Seq<(Seq<char>, ValueModel)>
    decreases s, 1nat,
{
    if s.len() == 0 {
        Seq::empty()
    } else {
        props_model(s.drop_last()).push((s.last().0@, value_model(s.last().1)))
    }
}

pub open spec fn opt_program_model(p: Option<BytecodeProgram>) -> Option<Seq<InstrModel>>
    decreases p, 1nat,
{
    match p {
        Some(q) => Some(instrs_model(q.instructions@)),
        None => None,
    }
}

pub open spec fn instr_model(i: Instruction) -> InstrModel
    decreases i, 0nat,
{
    match i {
        Instruction::PushLiteral(v) => InstrModel::PushLiteral(value_model(v)),
        Instruction::PushUndefined => InstrModel::PushUndefined,
        Instruction::LoadIdentifier(s) => InstrModel::LoadIdentifier(s@),
        Instruction::LoadThis => InstrModel::LoadThis,
        Instruction::StoreIdentifier(s) => InstrModel::StoreIdentifier(s@),
        Instruction::Declare { kind, name } => InstrModel::Declare { kind, name: name@ },
        Instruction::Dup => InstrModel::Dup,
        Instruction::Pop => InstrModel::Pop,
        Instruction::SetLast => InstrModel::SetLast,
        Instruction::BinaryOp(op) => InstrModel::BinaryOp(op),
        Instruction::UnaryOp(op) => InstrModel::UnaryOp(op),
        Instruction::LogicalAnd(t) => InstrModel::LogicalAnd(t as nat),
        Instruction::LogicalOr(t) => InstrModel::LogicalOr(t as nat),
        Instruction::Call(n, c) => InstrModel::Call(n@, c as nat),
        Instruction::MemberAccess(m) => InstrModel::MemberAccess(m@),
        Instruction::IndexAccess => InstrModel::IndexAccess,
        Instruction::MethodCall { method, arg_count } => InstrModel::MethodCall {
            method: method@,
            arg_count: arg_count as nat,
        },
        Instruction::MethodCallNamed { object_name, method, arg_count } => InstrModel::MethodCallNamed {
            object_name: object_name@,
            method: method@,
            arg_count: arg_count as nat,
        },
        Instruction::AssignThisMember(m) => InstrModel::AssignThisMember(m@),
        Instruction::AssignNamedMember { object_name, member } => InstrModel::AssignNamedMember {
            object_name: object_name@,
            member: member@,
        },
        Instruction::AssignComputedMember(m) => InstrModel::AssignComputedMember(m@),
        Instruction::AssignNamedIndex(n) => InstrModel::AssignNamedIndex(n@),
        Instruction::AssignComputedIndex => InstrModel::AssignComputedIndex,
        Instruction::JumpIfFalse(t) => InstrModel::JumpIfFalse(t as nat),
        Instruction::Jump(t) => InstrModel::Jump(t as nat),
        Instruction::Throw => InstrModel::Throw,
        Instruction::TryCatchFinally { try_program, catch_param, catch_program, finally_program } =>
            InstrModel::TryCatchFinally {
                try_program: instrs_model(try_program.instructions@),
                catch_param: opt_string_model(catch_param),
                catch_program: opt_program_model(catch_program),
                finally_program: opt_program_model(finally_program),
            },
        Instruction::Return => InstrModel::Return,
        Instruction::MakeArray(n) => InstrModel::MakeArray(n as nat),
        Instruction::MakeObject(keys) => InstrModel::MakeObject(strings_model(keys@)),
    }
}

pub open spec fn instrs_model(s: Seq<Instruction>) -> Seq<InstrModel>
    decreases s, 1nat,
{
    if s.len() == 0 {
        Seq::empty()
    } else {
        instrs_model(s.drop_last()).push(instr_model(s.last()))
    }
}

impl View for JsValue {
    type V = ValueModel;

    open spec fn view(&self) -> ValueModel {
        value_model(*self)
    }
}

impl View for Instruction {
    type V = InstrModel;

    open spec fn view(&self) -> InstrModel {
        instr_model(*self)
    }
}

impl View for BytecodeProgram {
    type V = Seq<InstrModel>;

    open spec fn view(&self) -> Seq<InstrModel> {
        instrs_model(self.instructions@)
    }
}

impl View for JsFunction {
    type V = FunctionModel;

    open spec fn view(&self) -> FunctionModel {
        FunctionModel {
            parameters: strings_model(self.parameters@),
            code: instrs_model(self.bytecode.instructions@),
        }
    }
}

impl View for JsError {
    type V = ErrorModel;

    open spec fn view(&self) -> ErrorModel {
        ErrorModel {
            kind: self.kind,
            message: self.message@,
            stack: opt_string_model(self.stack),
            properties: props_model(self.properties@),
        }
    }
}

// ---------------------------------------------------------------------------
// Facts about the sequence models
// ---------------------------------------------------------------------------

pub proof fn lemma_values_model_push(s: Seq<JsValue>, x: JsValue)
    ensures
        values_model(s.push(x)) == values_model(s).push(value_model(x)),
{
    assert(s.push(x).drop_last() =~= s);
}

pub proof fn lemma_props_model_push(s: Seq<(String, JsValue)>, x: (String, JsValue))
    ensures
        props_model(s.push(x)) == props_model(s).push((x.0@, value_model(x.1))),
{
    assert(s.push(x).drop_last() =~= s);
}

pub proof fn lemma_instrs_model_push(s: Seq<Instruction>, x: Instruction)
    ensures
        instrs_model(s.push(x)) == instrs_model(s).push(instr_model(x)),
{
    assert(s.push(x).drop_last() =~= s);
}

pub proof fn lemma_values_model_len(s: Seq<JsValue>)
    ensures
        values_model(s).len() == s.len(),
    decreases s.len(),
{
    if s.len() > 0 {
        lemma_values_model_len(s.drop_last());
    }
}

pub proof fn lemma_values_model_index(s: Seq<JsValue>, i: int)
    requires
        0 <= i < s.len(),
    ensures
        values_model(s).len() == s.len(),
        values_model(s)[i] == value_model(s[i]),
    decreases s.len(),
{
    lemma_values_model_len(s);
    if i < s.len() - 1 {
        lemma_values_model_index(s.drop_last(), i);
    }
}

pub proof fn lemma_props_model_len(s: Seq<(String, JsValue)>)
    ensures
        props_model(s).len() == s.len(),
    decreases s.len(),
{
    if s.len() > 0 {
        lemma_props_model_len(s.drop_last());
    }
}

pub proof fn lemma_props_model_index(s: Seq<(String, JsValue)>, i: int)
    requires
        0 <= i < s.len(),
    ensures
        props_model(s).len() == s.len(),
        props_model(s)[i] == (s[i].0@, value_model(s[i].1)),
    decreases s.len(),
{
    lemma_props_model_len(s);
    if i < s.len() - 1 {
        lemma_props_model_index(s.drop_last(), i);
    }
}

pub proof fn lemma_instrs_model_len(s: Seq<Instruction>)
    ensures
        instrs_model(s).len() == s.len(),
    decreases s.len(),
{
    if s.len() > 0 {
        lemma_instrs_model_len(s.drop_last());
    }
}

pub proof fn lemma_instrs_model_index(s: Seq<Instruction>, i: int)
    requires
        0 <= i < s.len(),
    ensures
        instrs_model(s).len() == s.len(),
        instrs_model(s)[i] == instr_model(s[i]),
    decreases s.len(),
{
    lemma_instrs_model_len(s);
    if i < s.len() - 1 {
        lemma_instrs_model_index(s.drop_last(), i);
    }
}

// ---------------------------------------------------------------------------
// Deep copies
// ---------------------------------------------------------------------------

pub fn clone_string(s: &String) -> (r: String)
    ensures
        r@ == s@,
{
    s.clone()
}

pub fn clone_strings(s: &Vec<String>) -> (r: Vec<String>)
    ensures
        strings_model(r@) == strings_model(s@),
{
    let mut out: Vec<String> = Vec::new();
    let mut i: usize = 0;
    while i < s.len()
        invariant
            i <= s@.len(),
            out@.len() == i,
            forall|j: int| 0 <= j < i ==> (#[trigger] out@[j])@ == s@[j]@,
        decreases s@.len() - i,
    {
        out.push(s[i].clone());
        i += 1;
    }
    assert(strings_model(out@) =~= strings_model(s@));
    out
}

pub fn clone_opt_string(s: &Option<String>) -> (r: Option<String>)
    ensures
        opt_string_model(r) == opt_string_model(*s),
{
    match s {
        Some(x) => Some(x.clone()),
        None => None,
    }
}

pub fn clone_value(v: &JsValue) -> (r: JsValue)
    ensures
        r@ == v@,
    decreases v,
{
    match v {
        JsValue::Number(n) => JsValue::Number(*n),
        JsValue::String(s) => JsValue::String(s.clone()),
        JsValue::Boolean(b) => JsValue::Boolean(*b),
        JsValue::Null => JsValue::Null,
        JsValue::Undefined => JsValue::Undefined,
        JsValue::Object(p) => {
            proof { assert(decreases_to!(*v => v->Object_0)); }
            JsValue::Object(clone_props(p))
        },
        JsValue::Array(a) => {
            proof { assert(decreases_to!(*v => v->Array_0)); }
            JsValue::Array(clone_values(a))
        },
        JsValue::Function(f) => {
            proof { assert(decreases_to!(*v => v->Function_0)); }
            JsValue::Function(clone_function(f))
        },
        JsValue::Error(e) => {
            proof { assert(decreases_to!(*v => v->Error_0)); }
            JsValue::Error(clone_error(e))
        },
    }
}

pub fn clone_values(a: &Vec<JsValue>) -> (r: Vec<JsValue>)
    ensures
        values_model(r@) == values_model(a@),
    decreases a,
{
    let mut out: Vec<JsValue> = Vec::new();
    let mut i: usize = 0;
    while i < a.len()
        invariant
            i <= a@.len(),
            out@.len() == i,
            values_model(out@) == values_model(a@.subrange(0, i as int)),
        decreases a@.len() - i,
    {
        proof { assert(decreases_to!(*a => a[i as int])); }
        let c = clone_value(&a[i]);
        proof {
            lemma_values_model_push(out@, c);
            assert(a@.subrange(0, i + 1).drop_last() =~= a@.subrange(0, i as int));
        }
        out.push(c);
        i += 1;
    }
    assert(a@.subrange(0, a@.len() as int) =~= a@);
    out
}

pub fn clone_props(a: &Vec<(String, JsValue)>) -> (r: Vec<(String, JsValue)>)
    ensures
        props_model(r@) == props_model(a@),
    decreases a,
{
    let mut out: Vec<(String, JsValue)> = Vec::new();
    let mut i: usize = 0;
    while i < a.len()
        invariant
            i <= a@.len(),
            out@.len() == i,
            props_model(out@) == props_model(a@.subrange(0, i as int)),
        decreases a@.len() - i,
    {
        proof {
            assert(decreases_to!(*a => a[i as int]));
            assert(decreases_to!(a[i as int] => a[i as int].1));
        }
        let k = a[i].0.clone();
        let c = clone_value(&a[i].1);
        proof {
            lemma_props_model_push(out@, (k, c));
            assert(a@.subrange(0, i + 1).drop_last() =~= a@.subrange(0, i as int));
        }
        out.push((k, c));
        i += 1;
    }
    assert(a@.subrange(0, a@.len() as int) =~= a@);
    out
}

pub fn clone_function(f: &JsFunction) -> (r: JsFunction)
    ensures
        r@ == f@,
    decreases f,
{
    proof { assert(decreases_to!(*f => f.bytecode)); }
    JsFunction { parameters: clone_strings(&f.parameters), bytecode: clone_program(&f.bytecode) }
}

pub fn clone_error(e: &JsError) -> (r: JsError)
    ensures
        r@ == e@,
    decreases e,
{
    proof { assert(decreases_to!(*e => e.properties)); }
    JsError {
        kind: e.kind,
        message: e.message.clone(),
        stack: clone_opt_string(&e.stack),
        properties: clone_props(&e.properties),
    }
}

pub fn clone_program(p: &BytecodeProgram) -> (r: BytecodeProgram)
    ensures
        r@ == p@,
    decreases p,
{
    proof { assert(decreases_to!(*p => p.instructions)); }
    BytecodeProgram { instructions: clone_instructions(&p.instructions) }
}

pub fn clone_opt_program(p: &Option<BytecodeProgram>) -> (r: Option<BytecodeProgram>)
    ensures
        opt_program_model(r) == opt_program_model(*p),
    decreases p,
{
    match p {
        Some(q) => {
            proof { assert(decreases_to!(*p => p->Some_0)); }
            Some(clone_program(q))
        },
        None => None,
    }
}

pub fn clone_instructions(a: &Vec<Instruction>) -> (r: Vec<Instruction>)
    ensures
        instrs_model(r@) == instrs_model(a@),
    decreases a,
{
    let mut out: Vec<Instruction> = Vec::new();
    let mut i: usize = 0;
    while i < a.len()
        invariant
            i <= a@.len(),
            out@.len() == i,
            instrs_model(out@) == instrs_model(a@.subrange(0, i as int)),
        decreases a@.len() - i,
    {
        proof { assert(decreases_to!(*a => a[i as int])); }
        let c = clone_instruction(&a[i]);
        proof {
            lemma_instrs_model_push(out@, c);
            assert(a@.subrange(0, i + 1).drop_last() =~= a@.subrange(0, i as int));
        }
        out.push(c);
        i += 1;
    }
    assert(a@.subrange(0, a@.len() as int) =~= a@);
    out
}

pub fn clone_instruction(i: &Instruction) -> (r: Instruction)
    ensures
        r@ == i@,
    decreases i,
{
    match i {
        Instruction::PushLiteral(v) => {
            proof { assert(decreases_to!(*i => i->PushLiteral_0)); }
            Instruction::PushLiteral(clone_value(v))
        },
        Instruction::PushUndefined => Instruction::PushUndefined,
        Instruction::LoadIdentifier(s) => Instruction::LoadIdentifier(s.clone()),
        Instruction::LoadThis => Instruction::LoadThis,
        Instruction::StoreIdentifier(s) => Instruction::StoreIdentifier(s.clone()),
        Instruction::Declare { kind, name } => Instruction::Declare { kind: *kind, name: name.clone() },
        Instruction::Dup => Instruction::Dup,
        Instruction::Pop => Instruction::Pop,
        Instruction::SetLast => Instruction::SetLast,
        Instruction::BinaryOp(op) => Instruction::BinaryOp(*op),
        Instruction::UnaryOp(op) => Instruction::UnaryOp(*op),
        Instruction::LogicalAnd(t) => Instruction::LogicalAnd(*t),
        Instruction::LogicalOr(t) => Instruction::LogicalOr(*t),
        Instruction::Call(n, c) => Instruction::Call(n.clone(), *c),
        Instruction::MemberAccess(m) => Instruction::MemberAccess(m.clone()),
        Instruction::IndexAccess => Instruction::IndexAccess,
        Instruction::MethodCall { method, arg_count } => Instruction::MethodCall {
            method: method.clone(),
            arg_count: *arg_count,
        },
        Instruction::MethodCallNamed { object_name, method, arg_count } => Instruction::MethodCallNamed {
            object_name: object_name.clone(),
            method: method.clone(),
            arg_count: *arg_count,
        },
        Instruction::AssignThisMember(m) => Instruction::AssignThisMember(m.clone()),
        Instruction::AssignNamedMember { object_name, member } => Instruction::AssignNamedMember {
            object_name: object_name.clone(),
            member: member.clone(),
        },
        Instruction::AssignComputedMember(m) => Instruction::AssignComputedMember(m.clone()),
        Instruction::AssignNamedIndex(n) => Instruction::AssignNamedIndex(n.clone()),
        Instruction::AssignComputedIndex => Instruction::AssignComputedIndex,
        Instruction::JumpIfFalse(t) => Instruction::JumpIfFalse(*t),
        Instruction::Jump(t) => Instruction::Jump(*t),
        Instruction::Throw => Instruction::Throw,
        Instruction::TryCatchFinally { try_program, catch_param, catch_program, finally_program } => {
            proof {
                assert(decreases_to!(*i => i->try_program));
                assert(decreases_to!(*i => i->catch_program));
                assert(decreases_to!(*i => i->finally_program));
            }
            Instruction::TryCatchFinally {
                try_program: clone_program(try_program),
                catch_param: clone_opt_string(catch_param),
                catch_program: clone_opt_program(catch_program),
                finally_program: clone_opt_program(finally_program),
            }
        },
        Instruction::Return => Instruction::Return,
        Instruction::MakeArray(n) => Instruction::MakeArray(*n),
        Instruction::MakeObject(keys) => Instruction::MakeObject(clone_strings(keys)),
    }
}

} // verus!
