//! Code generation for a macro assembly language: macros are expanded into a
//! flat sequence of bytes, constants are resolved into push instructions, and
//! the code that deploys a contract is put together from constructor code,
//! a bootstrap sequence, runtime code and encoded constructor arguments.

pub mod abi;
pub mod arguments;
pub mod artifact;
pub mod assembler;
pub mod ast;
pub mod bytecode;
pub mod codegen;
pub mod encoding;
pub mod error;
pub mod expansion;
pub mod invariants;
pub mod theorems;
pub mod token;

pub use crate::abi::Abi;
pub use crate::arguments::ConstructorArg;
pub use crate::artifact::Artifact;
pub use crate::codegen::{Codegen, Export};
pub use crate::error::{CodegenError, CodegenErrorKind};
pub use crate::token::{Token, TokenKind};
