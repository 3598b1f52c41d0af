//! A small shell engine for a firmware console: a key-event line editor
//! with a bounded history ring, prefix completion over a fixed command
//! registry, and the dispatch of finished lines to named commands; with the
//! decisions of the commands and sub-programs, a model of the VGA text
//! screen, and the geometry of the windowed terminal.

pub mod bounded;
pub mod text;
pub mod screen;
pub mod registry;
pub mod history;
pub mod completion;
pub mod editor;
pub mod shell;
pub mod programs;
pub mod color;
pub mod vga;
pub mod framebuffer;
pub mod desktop;
