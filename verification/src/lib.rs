pub mod arm7;
pub mod assembler;
pub mod backend_api;
pub mod bits;
pub mod config;
pub mod display;
pub mod error;
pub mod instructions;
pub mod labels;
pub mod numeral;
pub mod operands;
pub mod pattern;
pub mod program;
pub mod text;
pub mod utils;
