//! Execution layer for code nodes of a workflow graph: the result model of a
//! sandboxed run, the sandbox capabilities with their test doubles, and the
//! code node that turns its inputs into a program and its outcome into output.

mod sandbox_error;

pub mod code_node;
pub mod python_sandbox;
pub mod sandbox;

pub use sandbox_error::SandboxError;
