# midenc

The verified core of a compiler from WebAssembly to Miden Assembly. Every function in `src/` has a
contract that Verus proves; the doc comment of each trusted function names the outside function it
calls and says what is taken for granted.

- `text`, `symbol`, `span`, `sorting`, `types`: texts, interned names, source positions, sorting,
  and the types of values.
- `hir`: types, paths, attributes, operations and how they are printed.
- `wasm`: reading the bodies of functions (`body`), the translation of functions and modules, what
  operators need for it (`readiness`) and what holds of every translation (`nesting`), debug
  information, and the calls to the kernel and the standard library (`miden_abi`).
- `operands`: how the operands of an instruction are brought into place.
- `masm`: the operand stack, the code that is emitted for it, a model of the machine (`machine`)
  with the proof that the code does what it says (`realize`), procedures, components and the order
  in which they are assembled.
- `pass`: pass managers, how they are merged, finalized and run, that no pass is lost on the way
  (`leaves`), and their statistics.
- `session`, `compile`: options, outputs, libraries, and the stages of the compiler.

`app/` is the ordinary code around the library: reading and writing files, the command line, and
the parsers and assemblers of other crates. `tests/` runs the library on concrete values.
