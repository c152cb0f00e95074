//! A small modal text editor core: the text buffer, its word motions and
//! searches, the `:` command line, and the key-driven editor state machine.
pub mod text;
pub mod document;
pub mod command_line;
pub mod editor;
pub mod laws;
