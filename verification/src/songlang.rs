//! The song language: its syntax tree, the parser from text to the tree and
//! the compiler from the tree to a track.

pub mod ast;
pub mod chords;
pub mod compiler;
pub mod loops;
pub mod parser;
pub mod presses;
pub mod soundness;

pub use ast::AsmCommand;
pub use ast::ChordKind;
pub use ast::ChordPress;
pub use ast::LangItem;
pub use ast::OutputLabel;
pub use ast::PressLine;
pub use ast::PressModifier;
pub use ast::SongAttribute;
pub use compiler::compile_song;
pub use compiler::Compiler;
pub use compiler::CompilerError;
pub use compiler::PortList;
pub use compiler::SongAttributes;
pub use parser::parse_song;
