# mrml_rustc

Constant expressions and small functions of a systems language, down to x86-64 machine code,
verified with Verus. Each public function says in its contract what it gives for every input that
it takes, errors included, and the proofs hold the code to it.

## Layout

- `src/text.rs`, `src/token.rs`, `src/literal.rs`, `src/integer.rs`: characters, tokens, literals
  and integer types.
- `src/expression.rs`: expression trees, resolvers and evaluation.
- `src/grammar.rs`, `src/rules.rs`: what a text stands for, rule by rule.
- `src/parser.rs`, `src/parser/`: the parser, which follows the grammar.
- `src/ir.rs`, `src/equivalence.rs`: stack code, and the proof that it computes what evaluation
  gives.
- `src/execution.rs`, `src/widths.rs`: on which stacks programs run, how they can end, and what the
  width of pointers changes in them.
- `src/arms.rs`, `src/limits.rs`, `src/parentheses.rs`: what a `match` stands for, and that neither
  the limit for nodes nor parentheses around a text change a tree, where they leave it room.
- `src/function.rs`: functions as they come from a module.
- `src/codegen.rs`, `src/codegen/`: types of runtime expressions, the bytes of each piece of code,
  and the compiler.
- `src/codegen/twins.rs`, `src/codegen/twin_*.rs`: two runs on one function beside each other, with
  more or less room and with or without checks of overflow.
- `src/laws.rs`, `src/codegen/laws.rs`: what holds of the whole.
- `tests/`: the library in use. `tests/codegen.rs` reads functions from their text.

## How the code generator is specified

`codegen::emission::Emission` is the state of code in the making. For each method `emit_x` of the
emitter a spec function `emitted_x` says what the state becomes, byte for byte. Each method also
says what stays as it is: the code fits, a failure stays, and where nothing failed the stack, the
locals and the width are as they were unless the contract says how they move.
