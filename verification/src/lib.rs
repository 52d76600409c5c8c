//! The core of a weather station for the terminal: it turns the reply of a
//! weather provider into a strict report, the report into a block of text
//! with a colour, and the user's lines of input into the next thing to do.
//!
//! Nothing here reads or writes: the program around the library sends the
//! request, prints the block and reads the lines.
//!
//! - [`reading`]: measurements as binary64 bit patterns, and their order
//! - [`decimal`]: numerals of natural numbers of any size
//! - [`figure`]: a reading written with one digit after the point
//! - [`text`]: comparing and trimming lines, reading a yes-or-no answer
//! - [`report`]: one observation of the weather
//! - [`present`]: the text, symbol and colour shown for a report
//! - [`fetch`]: the address of a request, and the judgement of a reply
//! - [`session`]: the conversation with the user, step by step

pub mod decimal;
pub mod fetch;
pub mod figure;
pub mod present;
pub mod reading;
pub mod report;
pub mod session;
pub mod text;
