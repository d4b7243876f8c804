//! What the scan of a line's leading whitespace, comments and continuations
//! finds, and the line-structure token it gives.

use vstd::prelude::*;
use crate::lexer::char_at;
use crate::literal::string_start_outcome;
use crate::state::ScannerState;
use crate::symbols::{ValidSymbols, dedent_allowed, error_recovery, DEDENT, INDENT, NEWLINE};

verus! {

/// What scanning the whitespace, comments and line continuations at the
/// start of a line finds.
pub enum LineScan {
    /// A backslash that is not followed by a line break.
    Malformed,
    /// The scan stopped at `pos`, before the first other code point or at
    /// the end of the input.
    Stop { pos: nat, found_end_of_line: bool, width: u8, first_comment: Option<u8> },
}

/// The position of the first line break or 0 at or after `pos`.
pub open spec fn comment_end(text: Seq<i32>, pos: nat) -> nat
    decreases text.len() - pos,
{
    if pos >= text.len() || text[pos as int] == 0 || text[pos as int] == '\n' as i32 {
        pos
    } else {
        comment_end(text, pos + 1)
    }
}

/// One step past `pos`, staying put at the end of the input.
pub open spec fn step(text: Seq<i32>, pos: nat) -> nat {
    if pos < text.len() {
        pos + 1
    } else {
        pos
    }
}

/// A width after `n` more columns. A width is one byte, as the saved state
/// keeps it, so it stops at 255: a deeper line never looks shallower.
pub open spec fn widened(width: u8, n: u8) -> u8 {
    if width + n > 255 {
        255
    } else {
        (width + n) as u8
    }
}

/// Scans from `pos` with what was found so far: a line break resets the
/// width and ends the line; a space counts 1 and a tab 8 (see `widened`); a
/// carriage return or form feed resets the width; a comment runs to the end
/// of its line and records the width it started at, if it is the first; a
/// backslash must be followed by an optional carriage return and a line
/// break; the end of the input ends the line with width 0.
pub open spec fn line_scan(
    text: Seq<i32>,
    pos: nat,
    found: bool,
    width: u8,
    comment: Option<u8>,
) -> LineScan
    decreases text.len() - pos
    via line_scan_decreases

{
    if pos >= text.len() || text[pos as int] == 0 {
        LineScan::Stop { pos, found_end_of_line: true, width: 0, first_comment: comment }
    } else {
        let c = text[pos as int];
        if c == '\n' as i32 {
            line_scan(text, pos + 1, true, 0, comment)
        } else if c == ' ' as i32 {
            line_scan(text, pos + 1, found, widened(width, 1), comment)
        } else if c == '\r' as i32 || c == 12 {
            line_scan(text, pos + 1, found, 0, comment)
        } else if c == '\t' as i32 {
            line_scan(text, pos + 1, found, widened(width, 8), comment)
        } else if c == '#' as i32 {
            let e = comment_end(text, pos + 1);
            let first = if comment is None {
                Some(width)
            } else {
                comment
            };
            line_scan(text, step(text, e), found, 0, first)
        } else if c == '\\' as i32 {
            let p = if char_at(text, pos + 1) == '\r' as i32 {
                step(text, pos + 1)
            } else {
                pos + 1
            };
            if char_at(text, p) == '\n' as i32 {
                line_scan(text, p + 1, found, width, comment)
            } else {
                LineScan::Malformed
            }
        } else {
            LineScan::Stop { pos, found_end_of_line: found, width, first_comment: comment }
        }
    }
}

proof fn lemma_comment_end_bounds(text: Seq<i32>, pos: nat)
    requires
        pos <= text.len(),
    ensures
        pos <= comment_end(text, pos) <= text.len(),
    decreases text.len() - pos,
{
    if !(pos >= text.len() || text[pos as int] == 0 || text[pos as int] == '\n' as i32) {
        lemma_comment_end_bounds(text, pos + 1);
    }
}

#[via_fn]
proof fn line_scan_decreases(
    text: Seq<i32>,
    pos: nat,
    found: bool,
    width: u8,
    comment: Option<u8>,
) {
    if pos < text.len() {
        lemma_comment_end_bounds(text, pos + 1);
    }
}

/// The line-structure token for a line of the given width that ends, with
/// the first comment's width, from state `st`: INDENT past the top width,
/// DEDENT below it once comments of the current block are consumed, else
/// NEWLINE; `None` where none applies.
pub open spec fn line_token(
    st: ScannerState,
    v: ValidSymbols,
    width: u8,
    comment: Option<u8>,
) -> Option<u16> {
    let top = st.indents.last();
    if st.indents.len() > 0 && v.indent && width > top {
        Some(INDENT)
    } else if st.indents.len() > 0 && dedent_allowed(v) && width < top && (match comment {
        None => true,
        Some(w) => w < top,
    }) {
        Some(DEDENT)
    } else if v.newline && !error_recovery(v) {
        Some(NEWLINE)
    } else {
        None
    }
}

/// The state after the line-structure token `symbol` for a line of the
/// given width.
pub open spec fn after_line_token(st: ScannerState, symbol: u16, width: u8) -> ScannerState {
    if symbol == INDENT {
        ScannerState { indents: st.indents.push(width), delimiters: st.delimiters }
    } else if symbol == DEDENT {
        ScannerState { indents: st.indents.drop_last(), delimiters: st.delimiters }
    } else {
        st
    }
}

/// A scan goes on with an open string literal.
pub open spec fn continues_string(st: ScannerState, v: ValidSymbols) -> bool {
    v.string_content && st.delimiters.len() > 0 && !error_recovery(v)
}

/// Where the token starts once the line scan from `pos` stopped at `stop`:
/// the skipped whitespace is left out, so it starts at `stop`, unless
/// nothing was skipped and it starts where it did (`start0`).
pub open spec fn start_after_skip(pos: nat, stop: nat, start0: nat) -> nat {
    if stop == pos {
        start0
    } else {
        stop
    }
}

/// The outcome of a scan that resolves line structure from `pos`: none on a
/// malformed continuation; the line-structure token where one applies,
/// empty and ending at `pos`; else only a string start, and only where no
/// comment was seen.
pub open spec fn line_outcome(
    pre: ScannerState,
    post: ScannerState,
    v: ValidSymbols,
    text: Seq<i32>,
    pos: nat,
    matched: bool,
    symbol: u16,
    start0: nat,
    start: nat,
    end: nat,
) -> bool {
    match line_scan(text, pos, false, 0, None) {
        LineScan::Malformed => !matched,
        LineScan::Stop { pos: stop, found_end_of_line, width, first_comment } => {
            if found_end_of_line && line_token(pre, v, width, first_comment) is Some {
                let sym = line_token(pre, v, width, first_comment)->Some_0;
                &&& matched
                &&& symbol == sym
                &&& start == start_after_skip(pos, stop, start0)
                &&& end == pos
                &&& post == after_line_token(pre, sym, width)
            } else if first_comment is None && v.string_start {
                &&& string_start_outcome(pre, post, text, stop, matched, symbol, end)
                &&& matched ==> start == start_after_skip(pos, stop, start0)
            } else {
                !matched
            }
        },
    }
}

} // verus!
