//! Choice of temporary drive letters from the reserved range S..Z.
use vstd::prelude::*;

verus! {

/// Number of letters in the reserved range S..Z.
pub const RESERVED_COUNT: u32 = 8;

/// The `i`-th reserved letter (0 is `S`).
pub open spec fn reserved_letter(i: int) -> char {
    ((83 + i) as u8) as char
}

/// Whether the `i`-th reserved letter is free in a drive bitmask in which
/// bit `n` stands for the `n`-th letter of the alphabet.
pub open spec fn is_free(mask: u32, i: int) -> bool {
    mask & (1u32 << ((18 + i) as u32)) == 0
}

/// Index of the first free reserved letter at or after `from`.
pub open spec fn first_free_from(mask: u32, from: int) -> Option<int>
    decreases 8 - from,
{
    if from >= 8 || from < 0 {
        None
    } else if is_free(mask, from) {
        Some(from)
    } else {
        first_free_from(mask, from + 1)
    }
}

proof fn lemma_first_free_range(mask: u32, from: int)
    requires
        0 <= from,
    ensures
        first_free_from(mask, from) matches Some(i) ==> from <= i < 8 && is_free(mask, i),
    decreases 8 - from,
{
    if from < 8 && !is_free(mask, from) {
        lemma_first_free_range(mask, from + 1);
    }
}

fn first_free(mask: u32, from: u32) -> (r: Option<u32>)
    requires
        from <= 8,
    ensures
        match r {
            Some(i) => first_free_from(mask, from as int) == Some(i as int) && i < 8,
            None => first_free_from(mask, from as int) is None,
        },
{
    let mut i: u32 = from;
    while i < RESERVED_COUNT
        invariant
            from <= i <= 8,
            first_free_from(mask, from as int) == first_free_from(mask, i as int),
        decreases 8 - i,
    {
        if mask & (1u32 << (18 + i)) == 0 {
            return Some(i);
        }
        i = i + 1;
    }
    None
}

/// The first free letter of S..Z; `None` when all are taken or when the
/// mask is 0 (the host could not report its drives).
pub fn pick_free_letter(mask: u32) -> (r: Option<char>)
    ensures
        mask == 0 ==> r is None,
        mask != 0 ==> match first_free_from(mask, 0) {
            Some(i) => r == Some(reserved_letter(i)),
            None => r is None,
        },
{
    if mask == 0 {
        return None;
    }
    match first_free(mask, 0) {
        Some(i) => Some(((83 + i) as u8) as char),
        None => None,
    }
}

/// The first two free letters of S..Z, in order; `None` when fewer than two
/// are free or when the mask is 0.
pub fn pick_two_letters(mask: u32) -> (r: Option<(char, char)>)
    ensures
        mask == 0 ==> r is None,
        mask != 0 ==> match first_free_from(mask, 0) {
            Some(i) => match first_free_from(mask, i + 1) {
                Some(j) => r == Some((reserved_letter(i), reserved_letter(j))),
                None => r is None,
            },
            None => r is None,
        },
{
    if mask == 0 {
        return None;
    }
    match first_free(mask, 0) {
        Some(i) => match first_free(mask, i + 1) {
            Some(j) => Some((((83 + i) as u8) as char, ((83 + j) as u8) as char)),
            None => None,
        },
        None => None,
    }
}

} // verus!
