//! The core of a console text editor: the document with its rope, its
//! history and its syntax, the selection, the controller with its keymap, its
//! views and its lists, the file panel, and the state and the framing of the
//! language-server client.  The core decides and computes; reading keys and
//! files, talking to processes and painting are left to its user.

pub mod chars;
pub mod code;
pub mod config;
pub mod controller;
pub mod editing;
pub mod editor;
pub mod flows;
pub mod framing;
pub mod history;
pub mod history_laws;
pub mod keys;
pub mod lists;
pub mod lsp;
pub mod mouse;
pub mod order;
pub mod panel;
pub mod popup;
pub mod process;
pub mod rope;
pub mod screen;
pub mod search;
pub mod selection;
pub mod setup;
pub mod syntax;
pub mod text;
pub mod tree;
pub mod utils;
pub mod view;
pub mod width;
