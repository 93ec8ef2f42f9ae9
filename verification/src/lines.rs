//! Searching a byte slice for line ends.

use vstd::prelude::*;

verus! {

/// The byte that ends a line.
pub const NEWLINE: u8 = 10;

/// Whether `s` is non-empty and its last byte is a newline.
pub open spec fn ends_with_newline(s: Seq<u8>) -> bool {
    s.len() > 0 && s.last() == NEWLINE
}

/// `p` is the offset of a newline in `s` and no newline stands before it.
pub proof fn lemma_first_newline_is(s: Seq<u8>, p: int)
    requires
        0 <= p < s.len(),
        s[p] == NEWLINE,
        forall|j: int| 0 <= j < p ==> s[j] != NEWLINE,
    ensures
        s.index_of_first(NEWLINE) == Some(p),
{
    s.index_of_first_ensures(NEWLINE);
    assert(s.contains(NEWLINE));
}

/// `p` is the offset of a newline in `s` and no newline stands behind it.
pub proof fn lemma_last_newline_is(s: Seq<u8>, p: int)
    requires
        0 <= p < s.len(),
        s[p] == NEWLINE,
        forall|j: int| p < j < s.len() ==> s[j] != NEWLINE,
    ensures
        s.index_of_last(NEWLINE) == Some(p),
{
    s.index_of_last_ensures(NEWLINE);
    assert(s.contains(NEWLINE));
}

/// No byte of `s` is a newline.
pub proof fn lemma_no_newline(s: Seq<u8>)
    requires
        forall|j: int| 0 <= j < s.len() ==> s[j] != NEWLINE,
    ensures
        s.index_of_first(NEWLINE).is_none(),
        s.index_of_last(NEWLINE).is_none(),
{
    s.index_of_first_ensures(NEWLINE);
    s.index_of_last_ensures(NEWLINE);
}

/// The offset of the first newline in `data`, if it holds one.
pub fn find_first_newline(data: &[u8]) -> (pos: Option<usize>)
    ensures
        data@.index_of_first(NEWLINE) == match pos {
            Some(p) => Some(p as int),
            None => None::<int>,
        },
        pos matches Some(p) ==> p < data@.len() && data@[p as int] == NEWLINE,
{
    let mut i: usize = 0;
    while i < data.len()
        invariant
            i <= data@.len(),
            forall|j: int| 0 <= j < i ==> data@[j] != NEWLINE,
        decreases data@.len() - i,
    {
        if data[i] == NEWLINE {
            proof {
                lemma_first_newline_is(data@, i as int);
            }
            return Some(i);
        }
        i += 1;
    }
    proof {
        lemma_no_newline(data@);
    }
    None
}

/// The offset of the last newline in `data`, if it holds one.
pub fn find_last_newline(data: &[u8]) -> (pos: Option<usize>)
    ensures
        data@.index_of_last(NEWLINE) == match pos {
            Some(p) => Some(p as int),
            None => None::<int>,
        },
        pos matches Some(p) ==> p < data@.len() && data@[p as int] == NEWLINE,
{
    let mut i: usize = data.len();
    while i > 0
        invariant
            i <= data@.len(),
            forall|j: int| i <= j < data@.len() ==> data@[j] != NEWLINE,
        decreases i,
    {
        i -= 1;
        if data[i] == NEWLINE {
            proof {
                lemma_last_newline_is(data@, i as int);
            }
            return Some(i);
        }
    }
    proof {
        lemma_no_newline(data@);
    }
    None
}

} // verus!
