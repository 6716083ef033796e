//! The `@@RZ:` wire marker and how scrollback text is scanned for it.

use vstd::prelude::*;
use vstd::string::*;

verus! {

/// Prefix that marks a protocol envelope on the wire.
pub const SENTINEL: &'static str = "@@RZ:";

/// The characters of [`SENTINEL`].
pub open spec fn sentinel() -> Seq<char> {
    seq!['@', '@', 'R', 'Z', ':']
}

/// `SENTINEL` spells `@@RZ:`.
pub proof fn lemma_sentinel_chars()
    ensures
        SENTINEL@ == sentinel(),
{
    reveal_strlit("@@RZ:");
    assert(SENTINEL@ =~= sentinel());
}

/// `line` holds an occurrence of [`SENTINEL`].
pub open spec fn contains_sentinel(line: Seq<char>) -> bool {
    exists|k: int| 0 <= k && k + 5 <= line.len() && #[trigger] line.subrange(k, k + 5) == sentinel()
}

/// A line holds the marker exactly when `SENTINEL` occurs in it somewhere,
/// whatever else the line holds and however long it is.
pub proof fn lemma_marker_occurrence(line: Seq<char>)
    ensures
        contains_sentinel(line) <==> exists|i: int|
            0 <= i && i + SENTINEL@.len() <= line.len() && #[trigger] line.subrange(
                i,
                i + SENTINEL@.len(),
            ) == SENTINEL@,
{
    lemma_sentinel_chars();
    assert(SENTINEL@.len() == 5);
    if contains_sentinel(line) {
        let k = choose|k: int| 0 <= k && k + 5 <= line.len() && #[trigger] line.subrange(k, k + 5) == sentinel();
        assert(line.subrange(k, k + SENTINEL@.len()) == SENTINEL@);
    }
    if exists|i: int|
        0 <= i && i + SENTINEL@.len() <= line.len() && #[trigger] line.subrange(i, i + SENTINEL@.len())
            == SENTINEL@ {
        let i = choose|i: int|
            0 <= i && i + SENTINEL@.len() <= line.len() && #[trigger] line.subrange(i, i + SENTINEL@.len())
                == SENTINEL@;
        assert(line.subrange(i, i + 5) == sentinel());
    }
}

} // verus!
