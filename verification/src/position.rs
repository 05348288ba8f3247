//! Positions of keys: the `inode:offset:snapshot` triple and its grammar.

use crate::text::{lemma_number_at, literal_at, match_literal, number_at, scan_number};
use vstd::prelude::*;

verus! {

/// Where a key lies in the order of a B-tree.
#[derive(Clone, Copy, Debug, PartialEq, Eq, Structural)]
pub struct BTreePosition {
    pub inode: u64,
    pub offset: u64,
    pub snapshot: u32,
}

/// The word that stands for the greatest snapshot.
pub open spec fn snapshot_sentinel() -> Seq<char> {
    "U32_MAX"@
}

/// The snapshot field at `start`: a numeral up to the greatest 32-bit
/// value, or else the sentinel, which denotes that value.
pub open spec fn snapshot_at(s: Seq<char>, start: int) -> Option<(u32, int)> {
    match number_at(s, start, u32::MAX as nat) {
        Some((value, end)) => Some((value as u32, end)),
        None => if literal_at(s, start, snapshot_sentinel()) {
            Some((u32::MAX, start + snapshot_sentinel().len()))
        } else {
            None
        },
    }
}

/// Whether the character `c` stands in `s` at `at`.
pub open spec fn char_at(s: Seq<char>, at: int, c: char) -> bool {
    0 <= at < s.len() && s[at] == c
}

/// The position written at `start`: two 64-bit numerals and a snapshot
/// field, with a colon between them. `Ok` holds the position and the index
/// behind it, `Err` the index at which the first field or colon is missing
/// or out of range.
pub open spec fn position_at(s: Seq<char>, start: int) -> Result<(BTreePosition, int), int> {
    match number_at(s, start, u64::MAX as nat) {
        None => Err(start),
        Some((inode, colon1)) => if !char_at(s, colon1, ':') {
            Err(colon1)
        } else {
            match number_at(s, colon1 + 1, u64::MAX as nat) {
                None => Err(colon1 + 1),
                Some((offset, colon2)) => if !char_at(s, colon2, ':') {
                    Err(colon2)
                } else {
                    match snapshot_at(s, colon2 + 1) {
                        None => Err(colon2 + 1),
                        Some((snapshot, end)) => Ok(
                            (
                                BTreePosition {
                                    inode: inode as u64,
                                    offset: offset as u64,
                                    snapshot,
                                },
                                end,
                            ),
                        ),
                    }
                },
            }
        },
    }
}

/// Reads the snapshot field at `start`.
pub fn scan_snapshot(chars: &[char], start: usize) -> (r: Option<(u32, usize)>)
    ensures
        r is Some <==> snapshot_at(chars@, start as int) is Some,
        r matches Some((value, end)) ==> snapshot_at(chars@, start as int) == Some(
            (value, end as int),
        ),
{
    match scan_number(chars, start, 0xffff_ffff) {
        Some((value, end)) => Some((value as u32, end)),
        None => {
            if match_literal(chars, start, "U32_MAX") {
                proof {
                    reveal_strlit("U32_MAX");
                }
                assert(start + 7 <= chars.len());
                Some((u32::MAX, start + 7))
            } else {
                None
            }
        },
    }
}

/// Reads the position written at `start`.
pub fn scan_position(chars: &[char], start: usize) -> (r: Result<(BTreePosition, usize), usize>)
    ensures
        r matches Ok((position, end)) ==> position_at(chars@, start as int) == Ok::<
            (BTreePosition, int),
            int,
        >((position, end as int)),
        r matches Err(at) ==> position_at(chars@, start as int) == Err::<
            (BTreePosition, int),
            int,
        >(at as int),
        r matches Ok((_, end)) ==> start < end <= chars@.len(),
        r matches Err(at) ==> start <= at && (start <= chars@.len() ==> at <= chars@.len()),
{
    if start > chars.len() {
        return Err(start);
    }
    proof {
        lemma_number_at(chars@, start as int, u64::MAX as nat);
    }
    let (inode, colon1) = match scan_number(chars, start, u64::MAX) {
        Some(found) => found,
        None => { return Err(start); },
    };
    if colon1 >= chars.len() || chars[colon1] != ':' {
        return Err(colon1);
    }
    proof {
        lemma_number_at(chars@, colon1 + 1, u64::MAX as nat);
    }
    let (offset, colon2) = match scan_number(chars, colon1 + 1, u64::MAX) {
        Some(found) => found,
        None => { return Err(colon1 + 1); },
    };
    if colon2 >= chars.len() || chars[colon2] != ':' {
        return Err(colon2);
    }
    proof {
        lemma_number_at(chars@, colon2 + 1, u32::MAX as nat);
    }
    match scan_snapshot(chars, colon2 + 1) {
        Some((snapshot, end)) => Ok((BTreePosition { inode, offset, snapshot }, end)),
        None => Err(colon2 + 1),
    }
}

} // verus!
