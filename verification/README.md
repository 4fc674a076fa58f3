# JVankoM

A minimal, single-threaded JVM for Java 6-8 bytecode whose core is verified
with Verus.

## Layout

- `src/` is the verified library. It parses and verifies class files, models
  the constant pool, classes, frames, threads and the heap, and gives each
  supported instruction a contract: what it does to the operand stack, the
  locals, the program counter and the heap, and which error or JVM exception
  it raises. Around the instructions it holds the class hierarchy, virtual
  method resolution, field lookup, exception handling, the class caches, the
  string pool, the method signature ids, the virtual tables and the
  mark-and-sweep collector, whose contract says that exactly the objects
  reachable from the roots survive. The invoke and field instructions are
  steps (`bytecode::resolution`) that decide, from the frame, the caches and
  the loaded classes, what comes next: load a class, initialise one and run
  the instruction again, throw, call a method, or go on. Error messages are
  built in the library too, as are the table of native methods, the ones
  that only compute a value, and the choice of what each runtime opcode runs.
- `app/` is the program around the library: it reads class files from jar
  archives and directories, runs the interpreter loop, carries out what the
  resolving steps ask for (loading and initialising classes), hands native
  calls to the library, and prints results and errors.
- `tests/` runs the library on concrete values.

The program expects `java_libraries/rt.jar`, `java_libraries/jvankomrt.jar`
and the classes under `test_classes/`.

## Maps kept as lists

The string pool and the method signature numbers are keyed by strings, and
the virtual tables by a signature (a struct of two numbers). vstd's
specification of `HashMap` gives no usable contract for such keys, so these
are lists searched in order, each with the invariant that no key occurs
twice; their contracts state them as maps.

