# js_runtime

A small JavaScript-like scripting language, verified with Verus: a reader
(lexer, parser, lowering, emission), a compiler to stack-machine code, a
machine that runs that code, and a tree-walking evaluator for statements and
expressions run directly.

The library does no floating-point arithmetic itself. Numbers are kept as the
bits of IEEE doubles; whenever a run needs a parse, a format or an arithmetic
result, it halts with a `NumericRequest`, and the embedder runs it again with
the reply added to the list of replies. Each run also takes a budget of steps
and halts when it is used up.

Layout:

- `src/number.rs`, `src/numeric.rs`: numbers and the numeric requests.
- `src/value.rs`, `src/props.rs`, `src/scope.rs`: values, properties, scopes.
- `src/ast.rs`, `src/compile.rs`: the statements the runtime compiles, and the compiler.
- `src/machine.rs`, `src/vm.rs`, `src/walk.rs`: the state of a run, the machine, the evaluator.
- `src/convert.rs`, `src/ops.rs`, `src/builtins.rs`, `src/methods.rs`, `src/json.rs`, `src/jsvalue.rs`: operators, conversions and built-ins.
- `src/program.rs`: programs, functions and execution contexts.
- `src/lexer.rs`, `src/grammar.rs`, `src/parser.rs`, `src/syntax.rs`: reading scripts.
- `src/ir.rs`, `src/lower.rs`, `src/emit.rs`, `src/script.rs`: from the syntax tree to a compiled program.
- `src/flow.rs`: laws of control flow.
- `src/jumps.rs`: every jump of compiled code lands inside that code.
- `src/agree.rs`: straight-line code runs alike compiled and directly.
- `src/roundtrip.rs`: `JSON.parse` gives back what `JSON.stringify` wrote.
- `app/main.rs`: runs an example script, answering requests with the machine's doubles.

Object properties and scope bindings are kept as vectors of (name, value)
pairs with distinct names, in insertion order, rather than in `HashMap`s.
vstd specifies `HashMap` well only for keys whose hashing it knows; with
`String` keys its contracts do not let a proof follow a lookup after an
insert, and the order in which a `HashMap` is walked (which `Object.keys`,
`JSON.stringify` and printing expose) is left open by std. A vector of pairs
has an exact model (`props.rs`, `scope.rs`) and gives each of those an order
that the contracts can state.
