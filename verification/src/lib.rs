//! Polyglot FFI toolkit: language detection, compiler command lines, C header
//! reading, Rust binding and consumer import generation, export discovery,
//! and the compiler catalogue and package-manager choices of the `eq` tool.

pub mod text;
pub mod c_header;
pub mod detector;
pub mod paths;
pub mod bindings;
pub mod imports;
pub mod exports;
pub mod compiler;
pub mod limits;
pub mod loader;
pub mod scanner;
pub mod toolchain;
