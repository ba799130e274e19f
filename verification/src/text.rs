use vstd::prelude::*;

verus! {

/// Column offset of a character inside a line.
pub type ColOffset = usize;

/// The larger of two offsets.
pub open spec fn max_offset(a: int, b: int) -> int {
    if a >= b { a } else { b }
}

/// The smaller of two offsets.
pub open spec fn min_offset(a: int, b: int) -> int {
    if a <= b { a } else { b }
}

/// Intersection of the half-open ranges `[range1.0, range1.1)` and `[range2.0, range2.1)`,
/// or `None` where it is empty.
pub fn intersect_range(range1: (ColOffset, ColOffset), range2: (ColOffset, ColOffset)) -> (res: Option<(ColOffset, ColOffset)>)
    ensures
        ({
            let start = max_offset(range1.0 as int, range2.0 as int);
            let end = min_offset(range1.1 as int, range2.1 as int);
            if end > start {
                res == Some((start as ColOffset, end as ColOffset))
            } else {
                res is None
            }
        }),
{
    let start = if range1.0 >= range2.0 { range1.0 } else { range2.0 };
    let end = if range1.1 <= range2.1 { range1.1 } else { range2.1 };
    if end > start {
        Some((start, end))
    } else {
        None
    }
}

} // verus!
