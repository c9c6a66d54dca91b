//! The core of a pedestrian terminal text editor: a gap buffer, navigation over it,
//! a cell grid with a diffing canvas, key decoding, term search, and the small
//! parsers that feed them.

pub mod ansi;
pub mod bind;
pub mod buffer;
pub mod canvas;
pub mod clip;
pub mod color;
pub mod complete;
pub mod config;
pub mod control;
pub mod document;
pub mod ed;
pub mod editor;
pub mod env;
pub mod error;
pub mod etc;
pub mod grid;
pub mod help;
pub mod input;
pub mod key;
pub mod key_laws;
pub mod nav;
pub mod search;
pub mod num;
pub mod op;
pub mod opt;
pub mod question;
pub mod render;
pub mod size;
pub mod sort;
pub mod source;
pub mod strings;
pub mod syntax;
pub mod sys;
pub mod terminal;
pub mod text;
pub mod token;
pub mod user;
pub mod window;
pub mod workspace;
pub mod wrap;
pub mod writer;
