use vstd::prelude::*;

verus! {

/// Flag bit: the literal ends on a single quote.
pub const SINGLE_QUOTE: u8 = 1;

/// Flag bit: the literal ends on a double quote.
pub const DOUBLE_QUOTE: u8 = 2;

/// Flag bit: the literal ends on a back quote.
pub const BACK_QUOTE: u8 = 4;

/// Flag bit: raw literal (`r` prefix).
pub const RAW: u8 = 8;

/// Flag bit: format literal (`f` prefix).
pub const FORMAT: u8 = 16;

/// Flag bit: triple-quoted literal.
pub const TRIPLE: u8 = 32;

/// Flag bit: byte literal (`b` prefix).
pub const BYTES: u8 = 64;

/// Whether `bit` is set in `flags`.
pub open spec fn has_flag(flags: u8, bit: u8) -> bool {
    flags & bit != 0
}

/// The terminator character that a flag byte names: the first quote flag
/// that is set, or 0 where none is.
pub open spec fn end_character_of(flags: u8) -> i32 {
    if has_flag(flags, SINGLE_QUOTE) {
        '\'' as i32
    } else if has_flag(flags, DOUBLE_QUOTE) {
        '"' as i32
    } else if has_flag(flags, BACK_QUOTE) {
        '`' as i32
    } else {
        0
    }
}

/// The three characters that can close a string literal.
pub open spec fn is_quote(c: char) -> bool {
    c == '\'' || c == '"' || c == '`'
}

/// The flag bit that stands for a quote character.
pub open spec fn quote_flag(c: char) -> u8 {
    if c == '\'' {
        SINGLE_QUOTE
    } else if c == '"' {
        DOUBLE_QUOTE
    } else {
        BACK_QUOTE
    }
}

/// A flag byte as a literal opens it: exactly one quote flag, and the top
/// bit clear. A delimiter that names no quote exists only while it is built.
pub open spec fn well_formed(flags: u8) -> bool {
    &&& flags & 7 == 1 || flags & 7 == 2 || flags & 7 == 4
    &&& flags & 128 == 0
}

/// The bit that a terminator character takes in the byte encoding.
pub open spec fn quote_bit(c: i32) -> u8 {
    if c == '\'' as i32 {
        SINGLE_QUOTE
    } else if c == '"' as i32 {
        DOUBLE_QUOTE
    } else if c == '`' as i32 {
        BACK_QUOTE
    } else {
        0
    }
}

/// The byte encoding of a literal's flavour: its terminator's bit, and one
/// bit each for raw, format, triple-quoted and byte.
pub open spec fn packed(flags: u8) -> u8 {
    quote_bit(end_character_of(flags)) | (if has_flag(flags, RAW) {
        RAW
    } else {
        0
    }) | (if has_flag(flags, FORMAT) {
        FORMAT
    } else {
        0
    }) | (if has_flag(flags, TRIPLE) {
        TRIPLE
    } else {
        0
    }) | (if has_flag(flags, BYTES) {
        BYTES
    } else {
        0
    })
}

/// The byte that stands for a well-formed delimiter is its packed encoding:
/// the flags byte is the wire format.
pub proof fn lemma_packed_byte(flags: u8)
    requires
        well_formed(flags),
    ensures
        flags == packed(flags),
{
    let f = flags;
    assert(f & 7 == 1 ==> f & 1 != 0) by (bit_vector);
    assert(f & 7 == 2 ==> f & 1 == 0 && f & 2 != 0) by (bit_vector);
    assert(f & 7 == 4 ==> f & 1 == 0 && f & 2 == 0 && f & 4 != 0) by (bit_vector);
    assert(quote_bit(end_character_of(f)) == f & 7);
    assert(f & 8 != 0 ==> f & 8 == 8) by (bit_vector);
    assert(f & 16 != 0 ==> f & 16 == 16) by (bit_vector);
    assert(f & 32 != 0 ==> f & 32 == 32) by (bit_vector);
    assert(f & 64 != 0 ==> f & 64 == 64) by (bit_vector);
    assert(f & 128 == 0 ==> f == (f & 7) | (f & 8) | (f & 16) | (f & 32) | (f & 64))
        by (bit_vector);
}

/// The flavour of one open string literal, packed into one byte: its quote
/// character and whether it is raw, format, byte or triple-quoted.
#[derive(Clone, Copy, Debug, PartialEq, Eq, Structural)]
pub struct Delimiter {
    pub flags: u8,
}

impl Delimiter {
    /// A delimiter with no flag set; it names no terminator yet.
    pub fn new() -> (d: Delimiter)
        ensures
            d.flags == 0,
    {
        Delimiter { flags: 0 }
    }

    /// Rebuilds a delimiter from its byte encoding.
    pub fn from_byte(b: u8) -> (d: Delimiter)
        ensures
            d.flags == b,
    {
        Delimiter { flags: b }
    }

    /// The byte encoding of this delimiter.
    pub fn to_byte(&self) -> (b: u8)
        ensures
            b == self.flags,
    {
        self.flags
    }

    pub fn is_format(&self) -> (r: bool)
        ensures
            r == has_flag(self.flags, FORMAT),
    {
        self.flags & FORMAT != 0
    }

    pub fn is_raw(&self) -> (r: bool)
        ensures
            r == has_flag(self.flags, RAW),
    {
        self.flags & RAW != 0
    }

    pub fn is_triple(&self) -> (r: bool)
        ensures
            r == has_flag(self.flags, TRIPLE),
    {
        self.flags & TRIPLE != 0
    }

    pub fn is_bytes(&self) -> (r: bool)
        ensures
            r == has_flag(self.flags, BYTES),
    {
        self.flags & BYTES != 0
    }

    /// The character that closes the literal, as a code point; 0 where no
    /// quote flag is set.
    pub fn end_character(&self) -> (c: i32)
        ensures
            c == end_character_of(self.flags),
    {
        if self.flags & SINGLE_QUOTE != 0 {
            '\'' as i32
        } else if self.flags & DOUBLE_QUOTE != 0 {
            '"' as i32
        } else if self.flags & BACK_QUOTE != 0 {
            '`' as i32
        } else {
            0
        }
    }

    pub fn set_format(&mut self)
        ensures
            final(self).flags == old(self).flags | FORMAT,
    {
        self.flags = self.flags | FORMAT;
    }

    pub fn set_raw(&mut self)
        ensures
            final(self).flags == old(self).flags | RAW,
    {
        self.flags = self.flags | RAW;
    }

    pub fn set_triple(&mut self)
        ensures
            final(self).flags == old(self).flags | TRIPLE,
    {
        self.flags = self.flags | TRIPLE;
    }

    pub fn set_bytes(&mut self)
        ensures
            final(self).flags == old(self).flags | BYTES,
    {
        self.flags = self.flags | BYTES;
    }

    /// Records the quote character that closes the literal.
    pub fn set_end_character(&mut self, character: char)
        requires
            is_quote(character),
        ensures
            final(self).flags == old(self).flags | quote_flag(character),
    {
        match character {
            '\'' => self.flags = self.flags | SINGLE_QUOTE,
            '"' => self.flags = self.flags | DOUBLE_QUOTE,
            _ => self.flags = self.flags | BACK_QUOTE,
        }
    }
}

} // verus!
