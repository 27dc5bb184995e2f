//! A verified model of the zkay compiler's front-end analyses: the AST, its
//! visitors, the parent setter, deep copies, the type checker, the
//! circuit-compatibility checker, the hybrid-function detector and the
//! verification-contract generators of the proving schemes.
#![allow(non_snake_case)]

pub mod types;
pub mod ast;
pub mod parent_setter;
pub mod deep_copy;
pub mod type_checker;
pub mod builtin_calls;
pub mod expression_types;
pub mod statement_types;
pub mod circuit_compatibility;
pub mod hybrid_function_detector;
pub mod visitor;
pub mod text;
pub mod circuit_generator;
pub mod field;
pub mod proving_scheme;
pub mod gm17;
pub mod groth16;
pub mod name_factory;
pub mod type_check_driver;
