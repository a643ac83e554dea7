//! Public-transit departure boards: decoding the timetable service's answer
//! into a checked board, and rendering it as plain text, ANSI-colored text or
//! inline-styled HTML through one stylable writer.


pub mod ansi;
pub mod backend;
pub mod color;
pub mod error;
pub mod html;
pub mod local_datetime;
pub mod render;
pub mod route;
pub mod terminal;

