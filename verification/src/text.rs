//! Comparing texts, and what it means for a message to mention one.

use vstd::prelude::*;
use vstd::string::*;

verus! {

/// Whether two string slices hold the same text.
pub fn same_text(a: &str, b: &str) -> (r: bool)
    ensures
        r == (a@ == b@),
{
    let left = a.to_owned();
    let right = b.to_owned();
    left == right
}

/// Whether `part` occurs in `text` as a run of consecutive characters.
pub open spec fn mentions(text: Seq<char>, part: Seq<char>) -> bool {
    exists|i: int|
        0 <= i && i + part.len() <= text.len() && #[trigger] text.subrange(i, i + part.len())
            == part
}

/// The texts that a sequence of string slices holds.
pub open spec fn names_in(names: Seq<&str>) -> Seq<Seq<char>> {
    names.map_values(|name: &str| name@)
}

/// A text made of three pieces mentions the middle one.
pub proof fn lemma_mentions_middle(before: Seq<char>, part: Seq<char>, after: Seq<char>)
    ensures
        mentions(before + part + after, part),
{
    let text = before + part + after;
    let i = before.len() as int;
    assert(text.subrange(i, i + part.len()) =~= part);
}

/// A text mentions whatever one of its pieces mentions.
pub proof fn lemma_mentions_within(
    before: Seq<char>,
    piece: Seq<char>,
    after: Seq<char>,
    part: Seq<char>,
)
    requires
        mentions(piece, part),
    ensures
        mentions(before + piece + after, part),
{
    let text = before + piece + after;
    let j = choose|j: int|
        0 <= j && j + part.len() <= piece.len() && #[trigger] piece.subrange(j, j + part.len())
            == part;
    let i = before.len() + j;
    assert(text.subrange(i, i + part.len()) =~= piece.subrange(j, j + part.len()));
}

} // verus!
