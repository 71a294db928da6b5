//! Runtime core of a small dynamically typed scripting language: the value
//! model, the arena-backed heap of composite values, the scope chain, the
//! expression evaluator, the statement executor, and the module registry.

pub mod data;
pub mod expr;
pub mod float;
pub mod global;
pub mod module;
pub mod module_manager;
pub mod node;
pub mod ops;
pub mod path;
pub mod rng;
pub mod stack;
pub mod statement;
pub mod variable;
