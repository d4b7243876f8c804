//! The byte encoding of the scanner's state.

use vstd::prelude::*;
use crate::delimiter::Delimiter;
use crate::state::{ScannerState, initial_state, has_base};

verus! {

/// Size of the buffer that a saved state must fit in.
pub const BUFFER_SIZE: usize = 1024;

/// Most delimiters that a saved state holds: their count takes one byte.
pub const MAX_SAVED_DELIMITERS: usize = 255;

/// How many delimiters a saved state keeps.
pub open spec fn saved_delimiter_count(st: ScannerState) -> nat {
    if st.delimiters.len() <= MAX_SAVED_DELIMITERS {
        st.delimiters.len()
    } else {
        MAX_SAVED_DELIMITERS as nat
    }
}

/// How many indent widths above the bottom one a saved state keeps: as many
/// as fit in the buffer after the count and the delimiters.
pub open spec fn saved_indent_count(st: ScannerState) -> nat {
    let room = BUFFER_SIZE - 1 - saved_delimiter_count(st);
    if st.indents.len() - 1 <= room {
        (st.indents.len() - 1) as nat
    } else {
        room as nat
    }
}

/// The byte encoding of a state: the delimiter count, the delimiters, then
/// the indent widths above the bottom one, truncated to fit the buffer.
pub open spec fn serialized(st: ScannerState) -> Seq<u8> {
    let n = saved_delimiter_count(st);
    let k = saved_indent_count(st);
    seq![n as u8] + st.delimiters.subrange(0, n as int).map_values(|d: Delimiter| d.flags)
        + st.indents.subrange(1, 1 + k as int)
}

/// The state that a byte encoding stands for; no bytes give the initial state.
pub open spec fn deserialized(b: Seq<u8>) -> ScannerState {
    if b.len() == 0 {
        initial_state()
    } else {
        let n = b[0] as int;
        ScannerState {
            indents: seq![0u8] + b.subrange(1 + n, b.len() as int),
            delimiters: b.subrange(1, 1 + n).map_values(|x: u8| Delimiter { flags: x }),
        }
    }
}

/// A state whose encoding loses nothing: at most 255 delimiters, and all
/// indent widths fit in the buffer.
pub open spec fn within_capacity(st: ScannerState) -> bool {
    &&& st.delimiters.len() <= MAX_SAVED_DELIMITERS
    &&& st.delimiters.len() + st.indents.len() <= BUFFER_SIZE
}

/// Restoring a saved state gives back the state that was saved, for every
/// state with its top-level block at the bottom that fits the buffer.
pub proof fn lemma_serialize_round_trip(st: ScannerState)
    requires
        has_base(st),
        within_capacity(st),
    ensures
        deserialized(serialized(st)) == st,
{
    let b = serialized(st);
    let n = st.delimiters.len() as int;
    let k = st.indents.len() - 1;
    assert(saved_delimiter_count(st) == n);
    assert(saved_indent_count(st) == k);
    assert(b.len() == 1 + n + k);
    assert(b[0] == n as u8);
    let r = deserialized(b);
    assert(r.delimiters =~= st.delimiters);
    assert(r.indents =~= st.indents);
}

} // verus!
