//! The editing engine of a text editor for the terminal.
//!
//! The document is a sequence of rows of text, held in memory. A view keeps
//! a cursor in it and a window onto it, and scrolls the window as little as
//! it can to keep the cursor inside. Input events resolve to commands, and
//! commands to edits and cursor moves. What is to appear on the screen is
//! queued as commands for the terminal device; whoever owns the device
//! carries them out, and reads and writes the files.
//!
//! Columns are byte offsets into a row's text in UTF-8. An edit that falls
//! inside a character of several bytes treats the part of the row that it
//! cannot cut out as empty.

pub mod buffer;
pub mod editor;
pub mod editorcommand;
pub mod line;
pub mod messagebar;
pub mod statusbar;
pub mod terminal;
pub mod text;
pub mod uicomponent;
pub mod view;
