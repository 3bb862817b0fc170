//! The core of an interactive shell for a small scripting language. It decides
//! when the lines typed so far make an entry that is ready to compile, steers
//! the compilation of an entry and lays out the compiled unit, and says what
//! is run and what is printed in every turn. Reading the terminal, parsing,
//! building bytecode and running it are left to whoever drives it.

pub mod accumulator;
pub mod compilation;
pub mod depth;
pub mod log;
pub mod pipeline;
pub mod shell;
pub mod turn;
