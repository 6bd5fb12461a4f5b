//! Verified cores of four classic line-oriented text utilities: an echo, a
//! line printer with numbering, a head, and a word-count tool. Each module
//! holds the counting, aggregation, formatting and argument-grammar logic;
//! reading from files or standard input is left to the surrounding program,
//! which hands lines in as plain strings.
pub mod cat;
pub mod echo;
pub mod head;
pub mod numerals;
pub mod text;
pub mod wc;
pub mod wc_config;
pub mod wc_open;
