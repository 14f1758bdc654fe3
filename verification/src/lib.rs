//! Shader code generation: data types of WGSL values, a lowered shader
//! syntax tree with its renderer, and rewrite rules that lower tensor
//! expressions into that tree.
pub mod asts;
pub mod bind_groups;
pub mod buffers;
pub mod dt;
pub mod text;
pub mod shader_args;
