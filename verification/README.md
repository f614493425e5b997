# AliveScript, verified core

The parts of the AliveScript language implementation that decide and compute,
written in Verus with their contracts and proved:

- `bytecode`: the instruction set, the instruction stream and its encoding
  (what is emitted, what `pop` undoes, which streams decode), and the
  listings of a stream.
- `compiler`: the bookkeeping of the bytecode compiler: scopes and locals,
  captured variables across nested functions, the constant pool, the jumps
  left to patch, what a module exports.
- `vm`: the state of the virtual machine: stack, call frames, globals,
  captured variables, loaded modules; calls and returns; one step of every
  instruction. What the library cannot do itself (reading a line, running a
  builtin that shows values, loading a module's contents, decimal
  arithmetic, changing shared objects) is handed to the program driving the
  machine as an `Action`, and the machine takes the outcome back.
- `ops`: the truth of values, and arithmetic and comparisons on integers,
  texts and booleans.
- `builtins`: the functions bound as globals in a new machine, and those of
  them the library runs itself.
- `value`, `obj`: static types (union, matching, type arguments), values,
  modules, structures and objects.
- `parser`: which operation each operator rule of the grammar denotes.
- `err`, `config`: runtime errors and their messages; permission sets and
  the machine's configuration.
- `as_obj`, `ast`, `as_modules`, `data`, `script`: the types, syntax pieces,
  built-in module names, host messages and error lines of the tree-walking
  interpreter.
- `text`, `utils`: decimal rendering, string comparison, table layout, and
  small combinators.

`app/` holds what stays outside the proofs: the exchange of messages with a
terminal, reading lines for the machine, and the display of its stack.
