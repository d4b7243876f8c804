use vstd::prelude::*;

verus! {

/// What a cursor looks like to the scanner: the input text as code points,
/// the current position, where the pending token starts and ends, and the
/// token kind reported for it.
pub struct LexerModel {
    pub text: Seq<i32>,
    pub pos: nat,
    pub start: nat,
    pub end: nat,
    pub symbol: u16,
}

/// The code point at `i`, or 0 past the end of the input.
pub open spec fn char_at(text: Seq<i32>, i: nat) -> i32 {
    if i < text.len() {
        text[i as int]
    } else {
        0
    }
}

/// The position after one step: at the end of the input a step stays put.
pub open spec fn next_pos(m: LexerModel) -> nat {
    if m.pos < m.text.len() {
        m.pos + 1
    } else {
        m.pos
    }
}

/// The code point under the cursor.
pub open spec fn current(m: LexerModel) -> i32 {
    char_at(m.text, m.pos)
}

/// How many steps are left before the end of the input.
pub open spec fn remaining(m: LexerModel) -> nat {
    if m.pos < m.text.len() {
        (m.text.len() - m.pos) as nat
    } else {
        0
    }
}

/// The state after one step; a skipped code point is left out of the token.
pub open spec fn advanced(m: LexerModel, skip: bool) -> LexerModel {
    LexerModel {
        text: m.text,
        pos: next_pos(m),
        start: if skip {
            next_pos(m)
        } else {
            m.start
        },
        end: m.end,
        symbol: m.symbol,
    }
}

/// The state after the token's end is fixed at the current position.
pub open spec fn marked(m: LexerModel) -> LexerModel {
    LexerModel { text: m.text, pos: m.pos, start: m.start, end: m.pos, symbol: m.symbol }
}

/// The state after the token kind is set.
pub open spec fn with_symbol(m: LexerModel, symbol: u16) -> LexerModel {
    LexerModel { text: m.text, pos: m.pos, start: m.start, end: m.end, symbol }
}

/// The cursor that the host hands to the scanner. Code point 0 stands for
/// the end of the input.
pub trait Lexer {
    spec fn model(&self) -> LexerModel;

    /// The code point under the cursor, 0 at the end of the input.
    fn lookahead(&self) -> (c: i32)
        ensures
            c == current(self.model()),
    ;

    /// Consumes one code point; with `skip` it is left out of the token.
    fn advance(&mut self, skip: bool)
        ensures
            final(self).model() == advanced(old(self).model(), skip),
    ;

    /// Fixes the end of the pending token at the current position.
    fn mark_end(&mut self)
        ensures
            final(self).model() == marked(old(self).model()),
    ;

    /// Reports the kind of the token recognised.
    fn set_result_symbol(&mut self, symbol: u16)
        ensures
            final(self).model() == with_symbol(old(self).model(), symbol),
    ;
}

/// A cursor over an input held in memory.
pub struct TSLexer {
    text: Vec<i32>,
    position: usize,
    token_start: usize,
    token_end: usize,
    pub result_symbol: u16,
}

impl TSLexer {
    /// A cursor at the start of `text`, a sequence of code points.
    pub fn new(text: Vec<i32>) -> (l: TSLexer)
        ensures
            l.model() == (LexerModel { text: text@, pos: 0, start: 0, end: 0, symbol: 0 }),
    {
        TSLexer { text, position: 0, token_start: 0, token_end: 0, result_symbol: 0 }
    }

    pub fn position(&self) -> (r: usize)
        ensures
            r == self.model().pos,
    {
        self.position
    }

    pub fn token_start(&self) -> (r: usize)
        ensures
            r == self.model().start,
    {
        self.token_start
    }

    pub fn token_end(&self) -> (r: usize)
        ensures
            r == self.model().end,
    {
        self.token_end
    }
}

impl Lexer for TSLexer {
    closed spec fn model(&self) -> LexerModel {
        LexerModel {
            text: self.text@,
            pos: self.position as nat,
            start: self.token_start as nat,
            end: self.token_end as nat,
            symbol: self.result_symbol,
        }
    }

    fn lookahead(&self) -> (c: i32) {
        if self.position < self.text.len() {
            self.text[self.position]
        } else {
            0
        }
    }

    fn advance(&mut self, skip: bool) {
        if self.position < self.text.len() {
            self.position = self.position + 1;
        }
        if skip {
            self.token_start = self.position;
        }
    }

    fn mark_end(&mut self) {
        self.token_end = self.position;
    }

    fn set_result_symbol(&mut self, symbol: u16) {
        self.result_symbol = symbol;
    }
}

} // verus!
