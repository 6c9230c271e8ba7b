//! The read-only monitoring projection's row type and display helpers. Any
//! presentation layer (console, CLI, remote endpoint) may bind to these.

use vstd::prelude::*;
use vstd::string::StrSliceExecFns;
use vstd::string::StringExecFns;

verus! {

/// One monitoring row: a group identifier, the packet count toward it, and
/// its bitstring rendered as text.
pub struct RowData {
    pub ipmc_group: String,
    pub packet_count: u64,
    pub bitstring: String,
}

/// Text cut to at most `max` characters, the last three of the cut form
/// being an ellipsis; shorter text is kept whole.
pub open spec fn spec_truncate(s: Seq<char>, max: int) -> Seq<char> {
    if s.len() <= max {
        s
    } else {
        s.subrange(
            0,
            if max >= 3 {
                max - 3
            } else {
                0
            },
        ) + "..."@
    }
}

/// Cut a rendered bitstring down to at most `max_len` characters for a
/// narrow display column, marking the cut with an ellipsis.
pub fn truncate_bitstring(bitstring: &str, max_len: usize) -> (r: String)
    ensures
        r@ == spec_truncate(bitstring@, max_len as int),
{
    let n = bitstring.unicode_len();
    if n <= max_len {
        String::from_str(bitstring)
    } else {
        let keep: usize = if max_len >= 3 {
            max_len - 3
        } else {
            0
        };
        let head = bitstring.substring_char(0, keep);
        let mut s = String::from_str(head);
        s.append("...");
        s
    }
}

} // verus!
