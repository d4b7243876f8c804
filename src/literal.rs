//! What opening a string literal and scanning inside one find.

use vstd::prelude::*;
use crate::delimiter::{
    Delimiter, end_character_of, has_flag, well_formed, BACK_QUOTE, BYTES, DOUBLE_QUOTE, FORMAT,
    RAW, SINGLE_QUOTE, TRIPLE,
};
use crate::lexer::char_at;
use crate::line::{line_outcome, step};
use crate::state::ScannerState;
use crate::symbols::{ValidSymbols, STRING_CONTENT, STRING_END, STRING_START};

verus! {

/// The flags after one prefix letter: `f`, `r` and `b` (either case) set the
/// format, raw and byte flags; `u` sets none.
pub open spec fn add_prefix(flags: u8, c: i32) -> u8 {
    if c == 'f' as i32 || c == 'F' as i32 {
        flags | FORMAT
    } else if c == 'r' as i32 || c == 'R' as i32 {
        flags | RAW
    } else if c == 'b' as i32 || c == 'B' as i32 {
        flags | BYTES
    } else {
        flags
    }
}

/// A letter that may start a string literal's prefix.
pub open spec fn is_prefix_letter(c: i32) -> bool {
    c == 'f' as i32 || c == 'F' as i32 || c == 'r' as i32 || c == 'R' as i32 || c == 'b' as i32
        || c == 'B' as i32 || c == 'u' as i32 || c == 'U' as i32
}

/// Where the run of prefix letters from `pos` ends, and the flags it sets.
pub open spec fn prefix_scan(text: Seq<i32>, pos: nat, flags: u8) -> (nat, u8)
    decreases text.len() - pos,
{
    if pos < text.len() && is_prefix_letter(text[pos as int]) {
        prefix_scan(text, pos + 1, add_prefix(flags, text[pos as int]))
    } else {
        (pos, flags)
    }
}

/// A code point that can open a string literal.
pub open spec fn is_quote_code(c: i32) -> bool {
    c == '\'' as i32 || c == '"' as i32 || c == '`' as i32
}

/// The delimiter opened by the quote at `q`, after prefix flags `flags`: a
/// single or double quote tripled is a triple-quoted literal.
pub open spec fn opened_flags(text: Seq<i32>, q: nat, flags: u8) -> u8 {
    let c = char_at(text, q);
    if c == '`' as i32 {
        flags | BACK_QUOTE
    } else {
        let f = if c == '\'' as i32 {
            flags | SINGLE_QUOTE
        } else {
            flags | DOUBLE_QUOTE
        };
        if char_at(text, q + 1) == c && char_at(text, q + 2) == c {
            f | TRIPLE
        } else {
            f
        }
    }
}

/// Where the opening quote at `q` ends: after three quotes where a single or
/// double quote is tripled, else after one.
pub open spec fn opened_end(text: Seq<i32>, q: nat) -> nat {
    let c = char_at(text, q);
    if c != '`' as i32 && char_at(text, q + 1) == c && char_at(text, q + 2) == c {
        q + 3
    } else {
        q + 1
    }
}

/// The outcome of an attempt to open a string literal at `pos`: after the
/// prefix letters a quote opens one, pushing its delimiter; anything else
/// is no match.
pub open spec fn string_start_outcome(
    pre: ScannerState,
    post: ScannerState,
    text: Seq<i32>,
    pos: nat,
    matched: bool,
    symbol: u16,
    end: nat,
) -> bool {
    let (q, flags) = prefix_scan(text, pos, 0);
    if is_quote_code(char_at(text, q)) {
        &&& matched
        &&& symbol == STRING_START
        &&& end == opened_end(text, q)
        &&& post == (ScannerState {
            indents: pre.indents,
            delimiters: pre.delimiters.push(Delimiter { flags: opened_flags(text, q, flags) }),
        })
    } else {
        !matched
    }
}

pub proof fn lemma_prefix_keeps_quotes_clear(flags: u8, c: i32)
    requires
        flags & 7 == 0,
        flags & 128 == 0,
    ensures
        add_prefix(flags, c) & 7 == 0,
        add_prefix(flags, c) & 128 == 0,
{
    assert(flags & 7 == 0 && flags & 128 == 0 ==> (flags | 16) & 7 == 0 && (flags | 16) & 128 == 0)
        by (bit_vector);
    assert(flags & 7 == 0 && flags & 128 == 0 ==> (flags | 8) & 7 == 0 && (flags | 8) & 128 == 0)
        by (bit_vector);
    assert(flags & 7 == 0 && flags & 128 == 0 ==> (flags | 64) & 7 == 0 && (flags | 64) & 128 == 0)
        by (bit_vector);
}

pub proof fn lemma_quote_flags(flags: u8)
    requires
        flags & 7 == 0,
        flags & 128 == 0,
    ensures
        end_character_of(flags) == 0,
        well_formed(flags | SINGLE_QUOTE),
        well_formed(flags | DOUBLE_QUOTE),
        well_formed(flags | BACK_QUOTE),
        well_formed(flags | SINGLE_QUOTE | TRIPLE),
        well_formed(flags | DOUBLE_QUOTE | TRIPLE),
        end_character_of(flags | SINGLE_QUOTE) != 0,
        end_character_of(flags | DOUBLE_QUOTE) != 0,
        end_character_of(flags | BACK_QUOTE) != 0,
        end_character_of(flags | SINGLE_QUOTE | TRIPLE) != 0,
        end_character_of(flags | DOUBLE_QUOTE | TRIPLE) != 0,
{
    let f = flags;
    assert((f | 1) & 1 != 0) by (bit_vector);
    assert(((f | 1) | 32) & 1 != 0) by (bit_vector);
    assert((f | 2) & 1 != 0 || (f | 2) & 2 != 0) by (bit_vector);
    assert(((f | 2) | 32) & 1 != 0 || ((f | 2) | 32) & 2 != 0) by (bit_vector);
    assert((f | 4) & 1 != 0 || (f | 4) & 2 != 0 || (f | 4) & 4 != 0) by (bit_vector);
    assert(f & 7 == 0 ==> f & 1 == 0 && f & 2 == 0 && f & 4 == 0) by (bit_vector);
    assert(f & 7 == 0 && f & 128 == 0 ==> (f | 1) & 7 == 1 && (f | 1) & 128 == 0) by (bit_vector);
    assert(f & 7 == 0 && f & 128 == 0 ==> (f | 2) & 7 == 2 && (f | 2) & 128 == 0) by (bit_vector);
    assert(f & 7 == 0 && f & 128 == 0 ==> (f | 4) & 7 == 4 && (f | 4) & 128 == 0) by (bit_vector);
    assert(f & 7 == 0 && f & 128 == 0 ==> ((f | 1) | 32) & 7 == 1 && ((f | 1) | 32) & 128 == 0)
        by (bit_vector);
    assert(f & 7 == 0 && f & 128 == 0 ==> ((f | 2) | 32) & 7 == 2 && ((f | 2) | 32) & 128 == 0)
        by (bit_vector);
}

/// What scanning the inside of an open string literal finds.
pub enum ContentScan {
    /// A token ends at `end`: it is a match only where `matched` holds, and
    /// `closes` says that it closes the literal.
    Token { symbol: u16, end: nat, closes: bool, matched: bool },
    /// A line break inside a single-line literal after some content.
    Unterminated,
    /// The input ran out at `pos` before any token was decided.
    EndOfInput { pos: nat },
}

/// Scans the inside of a literal with flags `flags` from `pos`, `has_content`
/// saying whether content was consumed already. A format literal stops
/// before a brace. A backslash is stepped over in a raw literal, with a
/// quote or backslash after it; in a byte literal `\N`, `\u` and `\U` are
/// content; any other escape ends the content before it. The terminator
/// (tripled in a triple-quoted literal) ends the content before it, or
/// closes the literal where no content came first and `closable` holds (no
/// match where it does not); one or two quotes of a triple-quoted literal
/// are content.
pub open spec fn content_scan(
    text: Seq<i32>,
    flags: u8,
    closable: bool,
    pos: nat,
    has_content: bool,
) -> ContentScan
    decreases text.len() - pos,
{
    let c = char_at(text, pos);
    let end_character = end_character_of(flags);
    if pos >= text.len() || c == 0 {
        ContentScan::EndOfInput { pos }
    } else if (c == '{' as i32 || c == '}' as i32) && has_flag(flags, FORMAT) {
        ContentScan::Token { symbol: STRING_CONTENT, end: pos, closes: false, matched: has_content }
    } else if c == '\\' as i32 {
        if has_flag(flags, RAW) {
            let d = char_at(text, pos + 1);
            let p = if d == end_character || d == '\\' as i32 {
                step(text, pos + 1)
            } else {
                pos + 1
            };
            content_scan(text, flags, closable, p, has_content)
        } else if has_flag(flags, BYTES) {
            let d = char_at(text, pos + 1);
            if d == 'N' as i32 || d == 'u' as i32 || d == 'U' as i32 {
                content_scan(text, flags, closable, step(text, pos + 2), true)
            } else {
                ContentScan::Token {
                    symbol: STRING_CONTENT,
                    end: pos,
                    closes: false,
                    matched: has_content,
                }
            }
        } else {
            ContentScan::Token {
                symbol: STRING_CONTENT,
                end: pos,
                closes: false,
                matched: has_content,
            }
        }
    } else if c == end_character {
        if has_flag(flags, TRIPLE) {
            if char_at(text, pos + 1) == c {
                if char_at(text, pos + 2) == c {
                    if has_content {
                        ContentScan::Token {
                            symbol: STRING_CONTENT,
                            end: pos,
                            closes: false,
                            matched: true,
                        }
                    } else if closable {
                        ContentScan::Token {
                            symbol: STRING_END,
                            end: pos + 3,
                            closes: true,
                            matched: true,
                        }
                    } else {
                        ContentScan::Token {
                            symbol: STRING_END,
                            end: pos,
                            closes: false,
                            matched: false,
                        }
                    }
                } else {
                    ContentScan::Token {
                        symbol: STRING_CONTENT,
                        end: pos + 2,
                        closes: false,
                        matched: true,
                    }
                }
            } else {
                ContentScan::Token {
                    symbol: STRING_CONTENT,
                    end: pos + 1,
                    closes: false,
                    matched: true,
                }
            }
        } else if has_content {
            ContentScan::Token { symbol: STRING_CONTENT, end: pos, closes: false, matched: true }
        } else if closable {
            ContentScan::Token { symbol: STRING_END, end: pos + 1, closes: true, matched: true }
        } else {
            ContentScan::Token { symbol: STRING_END, end: pos, closes: false, matched: false }
        }
    } else if c == '\n' as i32 && has_content && !has_flag(flags, TRIPLE) {
        ContentScan::Unterminated
    } else {
        content_scan(text, flags, closable, pos + 1, true)
    }
}

/// The outcome of a scan that goes on with the innermost open literal from
/// `pos`: the token that the inside of the literal gives, closing it where
/// it says so; no match at an unterminated line; and at the end of the
/// input, line structure from there.
pub open spec fn string_outcome(
    pre: ScannerState,
    post: ScannerState,
    v: ValidSymbols,
    text: Seq<i32>,
    pos: nat,
    matched: bool,
    symbol: u16,
    start0: nat,
    start: nat,
    end: nat,
) -> bool {
    match content_scan(text, pre.delimiters.last().flags, v.string_end, pos, false) {
        ContentScan::Token { symbol: s, end: e, closes, matched: m } => {
            &&& matched == m
            &&& m ==> symbol == s && start == start0 && end == e
            &&& post == (if m && closes {
                ScannerState { indents: pre.indents, delimiters: pre.delimiters.drop_last() }
            } else {
                pre
            })
        },
        ContentScan::Unterminated => !matched,
        ContentScan::EndOfInput { pos: p } => line_outcome(
            pre,
            post,
            v,
            text,
            p,
            matched,
            symbol,
            start0,
            start,
            end,
        ),
    }
}

} // verus!
