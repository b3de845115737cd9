pub mod id;
pub mod term;
pub mod substitution;
pub mod text;
pub mod local_context;
pub mod inductive;
pub mod global_environment;
pub mod reduction;
pub mod names;
pub mod syntax;
pub mod compile_text;
pub mod codegen;
pub mod syscall;
pub mod lowering;
pub mod emission;
pub mod arrays;
pub mod statement;
pub mod scope;
pub mod term_text;
pub mod typechecker;
pub mod ptx;
pub mod compiler;
pub mod utils;
pub mod arithmetic;
pub mod rename;
pub mod rename_defs;
