//! Parser for the `[defaultboot]` section of a bootloader-style
//! configuration file.
//!
//! A caller hands the parser a text buffer; on success exactly one
//! [`ast::Section`] comes back, on failure a syntax error with the
//! position at which the input stopped making sense.  The grammar,
//! its whitespace tolerance and the left-to-right folding of auto-boot
//! options are stated as specification functions in [`grammar`], the
//! executable parser in [`parse`] is proved to return exactly what the
//! grammar describes, and [`laws`] proves the general properties of the
//! option fold (last explicit value wins, a bare keyword changes
//! nothing, option order is irrelevant when each keyword appears once).

pub mod ast;
pub mod grammar;
pub mod laws;
pub mod parse;
