//! AliveScript: bytecode, static types and compiler bookkeeping of the
//! AliveScript language, with their contracts.
#![allow(unused_imports)]

pub mod as_modules;
pub mod as_obj;
pub mod ast;
pub mod builtins;
pub mod bytecode;
pub mod compiler;
pub mod config;
pub mod data;
pub mod err;
pub mod obj;
pub mod ops;
pub mod parser;
pub mod script;
pub mod text;
pub mod utils;
pub mod value;
pub mod vm;
