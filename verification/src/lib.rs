//! The Apex code generator: lowering of Apex programs into a log of LLVM
//! builder calls, with the decisions behind it and their laws.

use vstd::prelude::*;

pub mod error;
pub mod ast;
pub mod text;
pub mod tables;
pub mod layout;
pub mod captures;
pub mod classes;
pub mod infer;
pub mod state;
pub mod lowering;
pub mod stdlib;
pub mod dispatch;
pub mod matching;
pub mod program;
pub mod externs;
pub mod ir;
pub mod codegen;
pub mod stmts;
pub mod exprs;
pub mod calls;
pub mod builtins;
pub mod stdcalls;
pub mod lambda;
