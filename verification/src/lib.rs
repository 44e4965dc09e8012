pub mod calendar;
pub mod cli;
pub mod collect;
pub mod graph;
pub mod label;
pub mod parse;
pub mod render;
pub mod sample;
pub mod schema;
pub mod series;
pub mod timefmt;
pub mod strutil;
