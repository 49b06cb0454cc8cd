//! An embeddable interactive line-editing engine: it reads raw keystrokes,
//! re-renders the current input line with the first token colorized from a
//! keyword registry, and dispatches completed lines to registered handlers.

pub mod color;
pub mod error;
pub mod rell;
pub mod terminal;
pub mod text;
