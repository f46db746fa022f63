//! A verified model of the ICMC processor: its instruction set, the
//! assembler front end (tokens, lexer and parser), the processor that
//! executes machine words, and what the simulator shows of them.
pub mod text;
pub mod isa;
pub mod layout;
pub mod ram;
pub mod errors;
pub mod video;
pub mod processor;
pub mod execution;
pub mod peripherals;
pub mod number;
pub mod token;
pub mod lexer;
pub mod parser;
pub mod assembler;
pub mod display;
pub mod simulator;
pub mod memory_view;
pub mod screen;
