# vm

A small Java bytecode interpreter whose library is verified with Verus.

- `src/` is the verified library: the value types, the operand stack and
  local variables, the heap with its object and array layout, the class
  model and the bootstrap class loader, the instruction functions, the
  interpreter loop of `JvmThread`, and the virtual machine (`Vm`) with its
  static fields, string objects, native `System.out.println` and method
  dispatch. Every function carries a `requires`/`ensures` contract; the
  laws that span several functions stand as public proof functions
  (`law_*`).
- `tests/` runs the library on concrete programs.
- `app/` is the command-line runner: argument handling, the clock, log
  output and printing what the interpreted program printed.

Class files are given to the class loader as `ClassFile` values; reading
them from disk is left to the runner.
