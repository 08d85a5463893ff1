//! The engine of a terminal emulator: a streaming UTF-8 decoder, a VT escape
//! sequence parser, a screen model with scrollback, and an input encoder.

pub mod cell;
pub mod colors;
pub mod input;
pub mod line;
pub mod params;
pub mod parser;
pub mod reports;
pub mod sbcodec;
pub mod sblaws;
pub mod screen;
pub mod screen_laws;
pub mod shape_laws;
pub mod screen_model;
pub mod scrollback;
pub mod term;
pub mod utf8;
pub mod utf8_laws;
pub mod vt;
pub mod width;

pub use cell::{Cell, Style};
pub use colors::{ColorScheme, Rgba};
pub use input::{InputData, Key, Modifier, VTInput};
pub use line::Line;
pub use parser::VTParser;
pub use reports::ReportRequests;
pub use sbcodec::{MemSBLine, Piece, PieceIter};
pub use screen::Screen;
pub use screen_model::Cursor;
pub use scrollback::MemScrollback;
pub use term::{Term, TermState};
pub use vt::{
    VTCharset, VTColor, VTDispatch, VTEffect, VTErase, VTMode, VTRendition, VTReport, VTScreen,
    VTScreenChoice, VTTarget, VTVerb,
};
