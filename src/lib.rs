//! Recognition of dates, times and event spans in short English phrases.
//!
//! - `text`, `grammar`, `patterns`, `search`: the phrase grammar, stated as
//!   spec functions over the characters of a text and matched by verified code.
//! - `calendar`: dates, clock times and the day numbering that date
//!   arithmetic is stated over.
//! - `date_parse`, `time_parse`: recognizers that turn text into date and time
//!   expressions, and resolvers that place those against a reference instant.
//! - `event`: an event's start and end, or its days, and its summary.
//! - `property`: reading values back from calendar property lines.
pub mod calendar;
pub mod date_parse;
pub mod event;
pub mod grammar;
pub mod patterns;
pub mod property;
pub mod recognizable;
pub mod search;
pub mod text;
pub mod time_parse;
