//! A verified assembler core for the MIX machine: the MIXAL expression
//! grammar, field and address parsing, the mnemonic table, W-values, and
//! the two-pass driver that lays out words, resolves symbols, and packs
//! the final sign-and-five-byte machine words.

pub mod alf;
pub mod assemble;
pub mod equ;
pub mod error;
pub mod expression;
pub mod field;
pub mod instruction;
pub mod model;
pub mod number;
pub mod operator;
pub mod statement;
pub mod symbol;
pub mod text;
pub mod unparse;
pub mod value;
pub mod word;
pub mod wval;
