//! A day-offset date calculator: read command-line words into a request,
//! move a calendar date by a signed number of days and write it as text.

pub mod answer;
pub mod calendar;
pub mod cli;
pub mod digits;
pub mod laws;
pub mod manual;
pub mod render;
pub mod words;
