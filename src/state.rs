//! The scanner's state as values, what one scan may do to it, and the
//! laws that follow.

use vstd::prelude::*;
use crate::delimiter::{Delimiter, well_formed};
use crate::symbols::{
    ValidSymbols, dedent_allowed, error_recovery, no_symbols, DEDENT, INDENT, NEWLINE,
    STRING_CONTENT, STRING_END, STRING_START,
};

verus! {

/// The scanner's state as values: the indent widths of the open blocks,
/// bottom first, and the open string literals, innermost last.
pub struct ScannerState {
    pub indents: Seq<u8>,
    pub delimiters: Seq<Delimiter>,
}

/// The state of a fresh scanner: the top-level block and no open literal.
pub open spec fn initial_state() -> ScannerState {
    ScannerState { indents: seq![0u8], delimiters: Seq::empty() }
}

/// The indent stack has its top-level block at the bottom.
pub open spec fn has_base(st: ScannerState) -> bool {
    st.indents.len() >= 1 && st.indents[0] == 0
}

/// The indent stack starts at 0 and strictly increases towards the top.
pub open spec fn indents_ordered(s: Seq<u8>) -> bool {
    &&& s.len() >= 1
    &&& s[0] == 0
    &&& forall|i: int, j: int| 0 <= i < j < s.len() ==> s[i] < s[j]
}

/// What one call of `scan` may do to the state, given the mask `v`, whether
/// a token was recognised, and the kind reported. Without a token nothing
/// changes. INDENT pushes a width above the top one; DEDENT pops a width
/// above 0; STRING_START pushes a well-formed delimiter;
/// STRING_END pops the innermost delimiter; NEWLINE and STRING_CONTENT leave
/// the state as it was.
pub open spec fn scan_step(
    pre: ScannerState,
    post: ScannerState,
    v: ValidSymbols,
    matched: bool,
    symbol: u16,
) -> bool {
    if !matched {
        post == pre
    } else if symbol == NEWLINE {
        v.newline && !error_recovery(v) && post == pre
    } else if symbol == INDENT {
        &&& v.indent
        &&& pre.indents.len() >= 1
        &&& post.delimiters == pre.delimiters
        &&& post.indents.len() == pre.indents.len() + 1
        &&& post.indents.drop_last() == pre.indents
        &&& post.indents.last() > pre.indents.last()
    } else if symbol == DEDENT {
        &&& dedent_allowed(v)
        &&& pre.indents.len() >= 1
        &&& pre.indents.last() > 0
        &&& post.delimiters == pre.delimiters
        &&& post.indents == pre.indents.drop_last()
    } else if symbol == STRING_START {
        &&& v.string_start
        &&& post.indents == pre.indents
        &&& post.delimiters.len() == pre.delimiters.len() + 1
        &&& post.delimiters.drop_last() == pre.delimiters
        &&& well_formed(post.delimiters.last().flags)
    } else if symbol == STRING_CONTENT {
        v.string_content && !error_recovery(v) && pre.delimiters.len() > 0 && post == pre
    } else if symbol == STRING_END {
        &&& v.string_content
        &&& v.string_end
        &&& !error_recovery(v)
        &&& pre.delimiters.len() > 0
        &&& post.indents == pre.indents
        &&& post.delimiters == pre.delimiters.drop_last()
    } else {
        false
    }
}

/// Every sequence of scans keeps the indent stack non-empty, with 0 at the
/// bottom and widths strictly increasing towards the top.
pub proof fn lemma_scan_keeps_indents_ordered(
    pre: ScannerState,
    post: ScannerState,
    v: ValidSymbols,
    matched: bool,
    symbol: u16,
)
    requires
        indents_ordered(pre.indents),
        scan_step(pre, post, v, matched, symbol),
    ensures
        indents_ordered(post.indents),
        has_base(post),
{
    if matched && symbol == INDENT {
        assert forall|i: int, j: int| 0 <= i < j < post.indents.len() implies post.indents[i]
            < post.indents[j] by {
            if j == post.indents.len() - 1 {
                assert(post.indents[i] == pre.indents[i]);
                if i < pre.indents.len() - 1 {
                    assert(pre.indents[i] < pre.indents[pre.indents.len() - 1]);
                }
            } else {
                assert(post.indents[i] == pre.indents[i]);
                assert(post.indents[j] == pre.indents[j]);
            }
        }
    } else if matched && symbol == DEDENT {
        assert(pre.indents.len() >= 2);
    }
}

/// With no token kind acceptable, a scan either recognises nothing and
/// changes nothing, or reports a DEDENT that closes one block and leaves the
/// open literals as they were.
pub proof fn lemma_no_symbols_only_dedent(
    pre: ScannerState,
    post: ScannerState,
    v: ValidSymbols,
    matched: bool,
    symbol: u16,
)
    requires
        no_symbols(v),
        scan_step(pre, post, v, matched, symbol),
    ensures
        (!matched && post == pre) || (matched && symbol == DEDENT && post.indents
            == pre.indents.drop_last() && post.delimiters == pre.delimiters),
{
}

/// With no token kind acceptable, a scan from a state whose only open block
/// is the top-level one recognises nothing and changes nothing.
pub proof fn lemma_no_symbols_no_match(
    pre: ScannerState,
    post: ScannerState,
    v: ValidSymbols,
    matched: bool,
    symbol: u16,
)
    requires
        no_symbols(v),
        pre.indents == seq![0u8],
        scan_step(pre, post, v, matched, symbol),
    ensures
        !matched,
        post == pre,
{
}

} // verus!
