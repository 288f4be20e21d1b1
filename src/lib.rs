//! A register-plus-stack virtual machine for arithmetic bytecode.
//!
//! Numbers are IEEE-754 double-precision values carried as their 64-bit
//! patterns. The engine decides everything about control flow, the stack,
//! labels and errors itself; the floating-point arithmetic it cannot do on
//! bit patterns is handed to its caller as a request and answered by a call
//! to `resume` or `resume_code`.
pub mod codegen;
pub mod labels;
pub mod laws;
pub mod lexer;
pub mod number;
pub mod parser;
pub mod stack;
pub mod text;
pub mod vm;
