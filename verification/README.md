# zkay front end, verified

The analyses of the zkay compiler for privacy-preserving smart contracts,
written in Verus and proved against their contracts.

- `src/ast.rs`, `src/types.rs`: the syntax tree, type names, privacy labels
  and the type relations (conversion, instance checks, combined types).
- `src/parent_setter.rs`, `src/deep_copy.rs`, `src/visitor.rs`: linking nodes
  to their parents and namespaces, copying and replacing expressions, and the
  visitor framework (class hierarchy, visit-function lookup, traversal orders).
- `src/type_checker.rs`, `src/builtin_calls.rs`, `src/expression_types.rs`,
  `src/statement_types.rs`, `src/type_check_driver.rs`: the type checker, rule
  by rule, and the traversal that checks whole programs.
- `src/circuit_compatibility.rs`, `src/hybrid_function_detector.rs`: which
  functions can run inside a circuit, which expressions are evaluated
  privately, and which functions need a zero-knowledge proof.
- `src/circuit_generator.rs`, `src/proving_scheme.rs`, `src/gm17.rs`,
  `src/groth16.rs`, `src/name_factory.rs`, `src/text.rs`: the decisions of the
  circuit generator, the verification contracts of the GM17 and Groth16
  schemes, and fresh names.
- `src/field.rs`: integer literals read in any base, arithmetic modulo the
  field prime on five 64-bit limbs, and the negation of a point coordinate.
- `app/lib.rs`: runs a circuit generator against the file system.
- `tests/`: tests on concrete programs.

The laws of the library are public proof functions whose names start with
`law_`.
