//! The scanner: one token per call, and saving and restoring its state.

use vstd::prelude::*;
use crate::codec::{
    serialized, deserialized, saved_delimiter_count, saved_indent_count, BUFFER_SIZE,
    MAX_SAVED_DELIMITERS,
};
use crate::delimiter::{Delimiter, end_character_of};
use crate::lexer::{Lexer, current, remaining};
use crate::line::{
    LineScan, comment_end, line_scan, step, line_outcome, continues_string, start_after_skip,
};
use crate::literal::{
    ContentScan, content_scan, prefix_scan, opened_flags, opened_end, string_outcome,
    lemma_prefix_keeps_quotes_clear, lemma_quote_flags,
};
use crate::state::{ScannerState, initial_state, has_base, indents_ordered, scan_step};
use crate::symbols::{
    ValidSymbols, error_recovery, DEDENT, INDENT, NEWLINE, STRING_CONTENT, STRING_END, STRING_START,
};

verus! {

/// The lexer for an indentation-sensitive language's line structure and
/// string literals.
pub struct Scanner {
    indent_length_stack: Vec<u8>,
    delimiter_stack: Vec<Delimiter>,
}

impl View for Scanner {
    type V = ScannerState;

    closed spec fn view(&self) -> ScannerState {
        ScannerState { indents: self.indent_length_stack@, delimiters: self.delimiter_stack@ }
    }
}

impl Scanner {
    /// A scanner in the initial state.
    pub fn new() -> (s: Scanner)
        ensures
            s@ == initial_state(),
            indents_ordered(s@.indents),
    {
        let s = Scanner { indent_length_stack: vec![0u8], delimiter_stack: Vec::new() };
        assert(s@.indents =~= seq![0u8]);
        assert(s@.delimiters =~= Seq::<Delimiter>::empty());
        s
    }

    /// The indent widths of the open blocks, bottom first.
    pub fn indent_lengths(&self) -> (r: &Vec<u8>)
        ensures
            r@ == self@.indents,
    {
        &self.indent_length_stack
    }

    /// The open string literals, innermost last.
    pub fn delimiters(&self) -> (r: &Vec<Delimiter>)
        ensures
            r@ == self@.delimiters,
    {
        &self.delimiter_stack
    }

    /// Writes the state into `buffer` and returns how many bytes it took.
    /// Delimiters past the 255th, and indent widths that do not fit in
    /// 1024 bytes, are left out.
    pub fn serialize(&self, buffer: &mut [u8]) -> (written: usize)
        requires
            has_base(self@),
            old(buffer)@.len() >= BUFFER_SIZE,
        ensures
            written == serialized(self@).len(),
            final(buffer)@.len() == old(buffer)@.len(),
            final(buffer)@.subrange(0, written as int) == serialized(self@),
            final(buffer)@.subrange(written as int, final(buffer)@.len() as int)
                == old(buffer)@.subrange(written as int, old(buffer)@.len() as int),
    {
        let ghost st = self@;
        let delimiter_count: usize = if self.delimiter_stack.len() < MAX_SAVED_DELIMITERS {
            self.delimiter_stack.len()
        } else {
            MAX_SAVED_DELIMITERS
        };
        buffer[0] = delimiter_count as u8;
        let mut i: usize = 0;
        while i < delimiter_count
            invariant
                delimiter_count == saved_delimiter_count(st),
                st == self@,
                i <= delimiter_count,
                buffer@.len() == old(buffer)@.len(),
                buffer@.len() >= BUFFER_SIZE,
                buffer@[0] == delimiter_count as u8,
                forall|j: int|
                    0 <= j < i ==> buffer@[1 + j] == #[trigger] st.delimiters[j].flags,
                forall|m: int| 1 + i <= m < buffer@.len() ==> buffer@[m] == old(buffer)@[m],
            decreases delimiter_count - i,
        {
            buffer[1 + i] = self.delimiter_stack[i].to_byte();
            i = i + 1;
        }
        let start: usize = 1 + delimiter_count;
        let remaining_space: usize = BUFFER_SIZE - start;
        let indent_count: usize = if self.indent_length_stack.len() - 1 < remaining_space {
            self.indent_length_stack.len() - 1
        } else {
            remaining_space
        };
        let mut j: usize = 0;
        while j < indent_count
            invariant
                delimiter_count == saved_delimiter_count(st),
                indent_count == saved_indent_count(st),
                start == 1 + delimiter_count,
                st == self@,
                has_base(st),
                j <= indent_count,
                buffer@.len() == old(buffer)@.len(),
                buffer@.len() >= BUFFER_SIZE,
                buffer@[0] == delimiter_count as u8,
                forall|m: int|
                    0 <= m < delimiter_count ==> buffer@[1 + m]
                        == #[trigger] st.delimiters[m].flags,
                forall|m: int| 0 <= m < j ==> buffer@[start + m] == #[trigger] st.indents[1 + m],
                forall|m: int| start + j <= m < buffer@.len() ==> buffer@[m] == old(buffer)@[m],
            decreases indent_count - j,
        {
            buffer[start + j] = self.indent_length_stack[1 + j];
            j = j + 1;
        }
        let written = start + indent_count;
        proof {
            let head = seq![delimiter_count as u8];
            let ds = st.delimiters.subrange(0, delimiter_count as int).map_values(
                |d: Delimiter| d.flags,
            );
            let is = st.indents.subrange(1, 1 + indent_count as int);
            assert(serialized(st) == head + ds + is);
            assert forall|m: int| 0 <= m < written implies buffer@[m] == (head + ds + is)[m] by {
                if m == 0 {
                } else if m < start {
                    assert(ds[m - 1] == st.delimiters[m - 1].flags);
                } else {
                    assert(is[m - start] == st.indents[1 + (m - start)]);
                }
            }
            assert(buffer@.subrange(0, written as int) =~= serialized(st));
            assert(buffer@.subrange(written as int, buffer@.len() as int) =~= old(buffer)@.subrange(
                written as int,
                old(buffer)@.len() as int,
            ));
        }
        written
    }

    /// Recognises at most one token at the cursor, consuming the input that
    /// belongs to it and reporting its kind, start and end on the lexer. Returns
    /// whether a token was found; where none is, the state is unchanged.
    /// Inside an open literal the inside of the literal decides; otherwise,
    /// and where the input runs out inside the literal, the line's leading
    /// whitespace decides, and failing that a literal may open. Every kind
    /// reported is one that `valid_symbols` accepts, except a DEDENT where
    /// the grammar accepts neither a NEWLINE nor a closing bracket.
    pub fn scan<L: Lexer>(&mut self, lexer: &mut L, valid_symbols: &ValidSymbols) -> (matched: bool)
        ensures
            scan_step(
                old(self)@,
                final(self)@,
                *valid_symbols,
                matched,
                final(lexer).model().symbol,
            ),
            final(lexer).model().text == old(lexer).model().text,
            has_base(old(self)@) ==> has_base(final(self)@),
            !continues_string(old(self)@, *valid_symbols) ==> line_outcome(
                old(self)@,
                final(self)@,
                *valid_symbols,
                old(lexer).model().text,
                old(lexer).model().pos,
                matched,
                final(lexer).model().symbol,
                old(lexer).model().start,
                final(lexer).model().start,
                final(lexer).model().end,
            ),
            continues_string(old(self)@, *valid_symbols) ==> string_outcome(
                old(self)@,
                final(self)@,
                *valid_symbols,
                old(lexer).model().text,
                old(lexer).model().pos,
                matched,
                final(lexer).model().symbol,
                old(lexer).model().start,
                final(lexer).model().start,
                final(lexer).model().end,
            ),
    {
        let error_recovery_mode = valid_symbols.string_content && valid_symbols.indent;
        let within_brackets = valid_symbols.close_brace || valid_symbols.close_paren
            || valid_symbols.close_bracket;
        let ghost text = lexer.model().text;

        if valid_symbols.string_content && self.delimiter_stack.len() > 0 && !error_recovery_mode {
            let delimiter = self.delimiter_stack[self.delimiter_stack.len() - 1];
            let end_character = delimiter.end_character();
            let mut has_content = false;
            let ghost spos = lexer.model().pos;
            loop
                invariant
                    spos == old(lexer).model().pos,
                    lexer.model().start == old(lexer).model().start,
                    content_scan(text, delimiter.flags, valid_symbols.string_end, spos, false)
                        == content_scan(
                        text,
                        delimiter.flags,
                        valid_symbols.string_end,
                        lexer.model().pos,
                        has_content,
                    ),
                    lexer.model().text == text,
                    text == old(lexer).model().text,
                    self@ == old(self)@,
                    self.delimiter_stack@.len() > 0,
                    delimiter == self.delimiter_stack@.last(),
                    end_character == end_character_of(delimiter.flags),
                    valid_symbols.string_content && !error_recovery(*valid_symbols),
                ensures
                    lexer.model().text == text,
                    lexer.model().start == old(lexer).model().start,
                    self@ == old(self)@,
                    delimiter == self.delimiter_stack@.last(),
                    content_scan(text, delimiter.flags, valid_symbols.string_end, spos, false)
                        == (ContentScan::EndOfInput { pos: lexer.model().pos }),
                decreases remaining(lexer.model()),
            {
                let ghost p = lexer.model().pos;
                let c = lexer.lookahead();
                if c == 0 {
                    assert(content_scan(
                        text,
                        delimiter.flags,
                        valid_symbols.string_end,
                        spos,
                        false,
                    )
                        == (ContentScan::EndOfInput { pos: p }));
                    break;
                }
                if (c == '{' as i32 || c == '}' as i32) && delimiter.is_format() {
                    lexer.mark_end();
                    lexer.set_result_symbol(STRING_CONTENT);
                    return has_content;
                } else if c == '\\' as i32 {
                    if delimiter.is_raw() {
                        // A raw literal keeps the backslash, but a quote or a
                        // backslash right after it does not end the literal.
                        lexer.advance(false);
                        let d = lexer.lookahead();
                        if d == end_character || d == '\\' as i32 {
                            lexer.advance(false);
                        }
                        continue;
                    } else if delimiter.is_bytes() {
                        lexer.mark_end();
                        lexer.advance(false);
                        let d = lexer.lookahead();
                        if d == 'N' as i32 || d == 'u' as i32 || d == 'U' as i32 {
                            // \N{...}, \u and \U are no escapes in a byte literal.
                            lexer.advance(false);
                        } else {
                            lexer.set_result_symbol(STRING_CONTENT);
                            return has_content;
                        }
                    } else {
                        lexer.mark_end();
                        lexer.set_result_symbol(STRING_CONTENT);
                        return has_content;
                    }
                } else if c == end_character {
                    if delimiter.is_triple() {
                        lexer.mark_end();
                        lexer.advance(false);
                        if lexer.lookahead() == end_character {
                            lexer.advance(false);
                            if lexer.lookahead() == end_character {
                                if has_content {
                                    lexer.set_result_symbol(STRING_CONTENT);
                                } else if !valid_symbols.string_end {
                                    return false;
                                } else {
                                    lexer.advance(false);
                                    lexer.mark_end();
                                    self.delimiter_stack.pop();
                                    lexer.set_result_symbol(STRING_END);
                                }
                                return true;
                            } else {
                                lexer.mark_end();
                                lexer.set_result_symbol(STRING_CONTENT);
                                return true;
                            }
                        } else {
                            lexer.mark_end();
                            lexer.set_result_symbol(STRING_CONTENT);
                            return true;
                        }
                    } else {
                        if has_content {
                            lexer.set_result_symbol(STRING_CONTENT);
                        } else if !valid_symbols.string_end {
                            return false;
                        } else {
                            lexer.advance(false);
                            self.delimiter_stack.pop();
                            lexer.set_result_symbol(STRING_END);
                        }
                        lexer.mark_end();
                        return true;
                    }
                } else if c == '\n' as i32 && has_content && !delimiter.is_triple() {
                    return false;
                }
                lexer.advance(false);
                has_content = true;
            }
        }
        lexer.mark_end();

        // Find the end of the line, with its indent width and the indent of
        // its first comment.
        let mut found_end_of_line = false;
        let mut indent_length: u8 = 0;
        let mut first_comment_indent_length: Option<u8> = None;
        let ghost pos0 = lexer.model().pos;
        let ghost top_flags = old(self)@.delimiters.last().flags;
        assert(!continues_string(old(self)@, *valid_symbols) ==> pos0 == old(lexer).model().pos);
        assert(continues_string(old(self)@, *valid_symbols) ==> content_scan(
            text,
            top_flags,
            valid_symbols.string_end,
            old(lexer).model().pos,
            false,
        ) == (ContentScan::EndOfInput { pos: pos0 }));
        loop
            invariant
                lexer.model().text == text,
                text == old(lexer).model().text,
                self@ == old(self)@,
                !continues_string(old(self)@, *valid_symbols) ==> pos0 == old(lexer).model().pos,
                continues_string(old(self)@, *valid_symbols) ==> content_scan(
                    text,
                    top_flags,
                    valid_symbols.string_end,
                    old(lexer).model().pos,
                    false,
                ) == (ContentScan::EndOfInput { pos: pos0 }),
                top_flags == old(self)@.delimiters.last().flags,
                lexer.model().end == pos0,
                pos0 <= lexer.model().pos,
                lexer.model().start == start_after_skip(
                    pos0,
                    lexer.model().pos,
                    old(lexer).model().start,
                ),
                line_scan(text, pos0, false, 0, None) == line_scan(
                    text,
                    lexer.model().pos,
                    found_end_of_line,
                    indent_length,
                    first_comment_indent_length,
                ),
            ensures
                lexer.model().text == text,
                self@ == old(self)@,
                lexer.model().end == pos0,
                pos0 <= lexer.model().pos,
                lexer.model().start == start_after_skip(
                    pos0,
                    lexer.model().pos,
                    old(lexer).model().start,
                ),
                line_scan(text, pos0, false, 0, None) == (LineScan::Stop {
                    pos: lexer.model().pos,
                    found_end_of_line,
                    width: indent_length,
                    first_comment: first_comment_indent_length,
                }),
            decreases remaining(lexer.model()),
        {
            let ghost p = lexer.model().pos;
            let ghost w = indent_length;
            let ghost fc = first_comment_indent_length;
            let c = lexer.lookahead();
            if c == '\n' as i32 {
                found_end_of_line = true;
                indent_length = 0;
                lexer.advance(true);
            } else if c == ' ' as i32 {
                indent_length = indent_length.saturating_add(1);
                lexer.advance(true);
            } else if c == '\r' as i32 || c == 12 {
                indent_length = 0;
                lexer.advance(true);
            } else if c == '\t' as i32 {
                indent_length = indent_length.saturating_add(8);
                lexer.advance(true);
            } else if c == '#' as i32 {
                if first_comment_indent_length.is_none() {
                    first_comment_indent_length = Some(indent_length);
                }
                let ghost before = remaining(lexer.model());
                lexer.advance(true);
                let ghost after_hash = lexer.model().pos;
                loop
                    invariant
                        lexer.model().text == text,
                        text == old(lexer).model().text,
                        remaining(lexer.model()) < before,
                        comment_end(text, lexer.model().pos) == comment_end(text, after_hash),
                        lexer.model().end == pos0,
                        pos0 < lexer.model().pos,
                        lexer.model().start == lexer.model().pos,
                    ensures
                        lexer.model().end == pos0,
                        pos0 < lexer.model().pos,
                        lexer.model().start == lexer.model().pos,
                        lexer.model().text == text,
                        remaining(lexer.model()) < before,
                        comment_end(text, lexer.model().pos) == comment_end(text, after_hash),
                        comment_end(text, lexer.model().pos) == lexer.model().pos,
                    decreases remaining(lexer.model()),
                {
                    let d = lexer.lookahead();
                    if d == 0 || d == '\n' as i32 {
                        break;
                    }
                    lexer.advance(true);
                }
                lexer.advance(true);
                indent_length = 0;
                assert(lexer.model().pos == step(text, comment_end(text, p + 1)));
            } else if c == '\\' as i32 {
                lexer.advance(true);
                if lexer.lookahead() == '\r' as i32 {
                    lexer.advance(true);
                }
                if lexer.lookahead() == '\n' as i32 {
                    lexer.advance(true);
                } else {
                    assert(line_scan(text, p, found_end_of_line, w, fc) == LineScan::Malformed);
                    assert(line_scan(text, pos0, false, 0, None) == LineScan::Malformed);
                    return false;
                }
            } else if c == 0 {
                indent_length = 0;
                found_end_of_line = true;
                break;
            } else {
                break;
            }
        }

        if found_end_of_line {
            if self.indent_length_stack.len() > 0 {
                let current_indent_length = self.indent_length_stack[self.indent_length_stack.len()
                    - 1];
                if valid_symbols.indent && indent_length > current_indent_length {
                    self.indent_length_stack.push(indent_length);
                    lexer.set_result_symbol(INDENT);
                    assert(self@.indents.drop_last() =~= old(self)@.indents);
                    return true;
                }
                // A DEDENT waits until the comments that are indented as the
                // current block have been consumed.
                let comment_allows = match first_comment_indent_length {
                    None => true,
                    Some(w) => w < current_indent_length,
                };
                if (valid_symbols.dedent || !valid_symbols.newline && !within_brackets)
                    && indent_length < current_indent_length && comment_allows {
                    self.indent_length_stack.pop();
                    lexer.set_result_symbol(DEDENT);
                    return true;
                }
            }
            if valid_symbols.newline && !error_recovery_mode {
                lexer.set_result_symbol(NEWLINE);
                return true;
            }
        }

        if first_comment_indent_length.is_none() && valid_symbols.string_start {
            let mut delimiter = Delimiter::new();
            let mut has_flags = false;
            let ghost ps = lexer.model().pos;
            let ghost ts = lexer.model().start;
            assert(0u8 & 7u8 == 0 && 0u8 & 128u8 == 0) by (bit_vector);
            loop
                invariant
                    lexer.model().text == text,
                    text == old(lexer).model().text,
                    self@ == old(self)@,
                    delimiter.flags & 7 == 0,
                    delimiter.flags & 128 == 0,
                    lexer.model().start == ts,
                    prefix_scan(text, ps, 0)
                        == prefix_scan(text, lexer.model().pos, delimiter.flags),
                ensures
                    lexer.model().text == text,
                    self@ == old(self)@,
                    delimiter.flags & 7 == 0,
                    delimiter.flags & 128 == 0,
                    lexer.model().start == ts,
                    prefix_scan(text, ps, 0) == (lexer.model().pos, delimiter.flags),
                decreases remaining(lexer.model()),
            {
                proof {
                    lemma_prefix_keeps_quotes_clear(delimiter.flags, current(lexer.model()));
                }
                let c = lexer.lookahead();
                if c == 'f' as i32 || c == 'F' as i32 {
                    delimiter.set_format();
                } else if c == 'r' as i32 || c == 'R' as i32 {
                    delimiter.set_raw();
                } else if c == 'b' as i32 || c == 'B' as i32 {
                    delimiter.set_bytes();
                } else if c == 'u' as i32 || c == 'U' as i32 {
                } else {
                    break;
                }
                has_flags = true;
                lexer.advance(false);
            }
            let c = lexer.lookahead();
            let ghost q = lexer.model().pos;
            let ghost flags = delimiter.flags;
            proof {
                lemma_quote_flags(flags);
            }
            if c == '`' as i32 {
                delimiter.set_end_character('`');
                lexer.advance(false);
                lexer.mark_end();
            } else if c == '\'' as i32 || c == '"' as i32 {
                let quote = if c == '\'' as i32 { '\'' } else { '"' };
                delimiter.set_end_character(quote);
                lexer.advance(false);
                lexer.mark_end();
                if lexer.lookahead() == c {
                    lexer.advance(false);
                    if lexer.lookahead() == c {
                        lexer.advance(false);
                        lexer.mark_end();
                        delimiter.set_triple();
                    }
                }
            }
            if delimiter.end_character() != 0 {
                assert(delimiter.flags == opened_flags(text, q, flags));
                assert(lexer.model().end == opened_end(text, q));
                self.delimiter_stack.push(delimiter);
                lexer.set_result_symbol(STRING_START);
                assert(self@.delimiters.drop_last() =~= old(self)@.delimiters);
                return true;
            } else if has_flags {
                return false;
            }
        }
        false
    }

    /// Replaces the state by the one that the first `length` bytes of
    /// `buffer` encode; no bytes give the initial state.
    pub fn deserialize(&mut self, buffer: &[u8], length: usize)
        requires
            length <= buffer@.len(),
            length > 0 ==> 1 + buffer@[0] <= length,
        ensures
            final(self)@ == deserialized(buffer@.subrange(0, length as int)),
            has_base(final(self)@),
    {
        self.delimiter_stack.clear();
        self.indent_length_stack.clear();
        self.indent_length_stack.push(0);
        if length == 0 {
            assert(self@.indents =~= seq![0u8]);
            assert(self@.delimiters =~= Seq::<Delimiter>::empty());
            return;
        }
        let ghost b = buffer@.subrange(0, length as int);
        let delimiter_count = buffer[0] as usize;
        let mut i: usize = 0;
        while i < delimiter_count
            invariant
                1 + delimiter_count <= length <= buffer@.len(),
                b == buffer@.subrange(0, length as int),
                delimiter_count == buffer@[0],
                i <= delimiter_count,
                self.indent_length_stack@ == seq![0u8],
                self.delimiter_stack@.len() == i,
                forall|m: int|
                    0 <= m < i ==> #[trigger] self.delimiter_stack@[m] == (Delimiter {
                        flags: buffer@[1 + m],
                    }),
            decreases delimiter_count - i,
        {
            self.delimiter_stack.push(Delimiter::from_byte(buffer[1 + i]));
            i = i + 1;
        }
        let mut j: usize = 1 + delimiter_count;
        while j < length
            invariant
                1 + delimiter_count <= j <= length <= buffer@.len(),
                b == buffer@.subrange(0, length as int),
                delimiter_count == buffer@[0],
                self.delimiter_stack@.len() == delimiter_count,
                forall|m: int|
                    0 <= m < delimiter_count ==> #[trigger] self.delimiter_stack@[m] == (Delimiter {
                        flags: buffer@[1 + m],
                    }),
                self.indent_length_stack@ =~= seq![0u8] + buffer@.subrange(
                    1 + delimiter_count,
                    j as int,
                ),
            decreases length - j,
        {
            self.indent_length_stack.push(buffer[j]);
            j = j + 1;
            assert(self.indent_length_stack@ =~= seq![0u8] + buffer@.subrange(
                1 + delimiter_count,
                j as int,
            ));
        }
        assert(self@.delimiters =~= deserialized(b).delimiters);
        assert(self@.indents =~= deserialized(b).indents);
    }
}

} // verus!
