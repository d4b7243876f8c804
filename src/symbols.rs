//! The token kinds and the mask of those that the grammar accepts.

use vstd::prelude::*;

verus! {

/// Token kinds, numbered as the host numbers them.
pub const NEWLINE: u16 = 0;

pub const INDENT: u16 = 1;

pub const DEDENT: u16 = 2;

pub const STRING_START: u16 = 3;

pub const STRING_CONTENT: u16 = 4;

pub const STRING_END: u16 = 5;

pub const COMMENT: u16 = 6;

pub const CLOSE_PAREN: u16 = 7;

pub const CLOSE_BRACKET: u16 = 8;

pub const CLOSE_BRACE: u16 = 9;

/// Which token kinds the grammar accepts at the current position.
#[derive(Clone, Copy, Debug, PartialEq, Eq, Structural)]
pub struct ValidSymbols {
    pub newline: bool,
    pub indent: bool,
    pub dedent: bool,
    pub string_start: bool,
    pub string_content: bool,
    pub string_end: bool,
    pub comment: bool,
    pub close_paren: bool,
    pub close_bracket: bool,
    pub close_brace: bool,
}

/// Some closing bracket is acceptable: the cursor is inside brackets.
pub open spec fn within_brackets(v: ValidSymbols) -> bool {
    v.close_paren || v.close_bracket || v.close_brace
}

/// The grammar is recovering from an error: string content and an indent
/// are acceptable together.
pub open spec fn error_recovery(v: ValidSymbols) -> bool {
    v.string_content && v.indent
}

/// The token kinds that the grammar accepts none of.
pub open spec fn no_symbols(v: ValidSymbols) -> bool {
    !v.newline && !v.indent && !v.dedent && !v.string_start && !v.string_content && !v.string_end
        && !v.comment && !v.close_paren && !v.close_bracket && !v.close_brace
}

/// A DEDENT may be reported: the grammar asks for one, or it accepts neither
/// a NEWLINE nor a closing bracket.
pub open spec fn dedent_allowed(v: ValidSymbols) -> bool {
    v.dedent || (!v.newline && !within_brackets(v))
}

} // verus!
