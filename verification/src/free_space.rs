//! Deterministic first-fit free-space search: scan candidate anchors in
//! row-major order from the grid's origin, incrementing the column fastest,
//! and return the first footprint-sized region that lies inside the grid
//! bound and overlaps no occupied region.

use vstd::prelude::*;

use crate::positioning::Region;

verus! {

/// The candidate region of the requested footprint whose anchor sits
/// `row_off` rows and `col_off` columns past the grid bound's origin.
pub open spec fn candidate_at(
    bound: Region,
    width: u32,
    height: u32,
    row_off: int,
    col_off: int,
) -> Region {
    Region {
        origin_row: (bound.origin_row + row_off) as u32,
        origin_col: (bound.origin_col + col_off) as u32,
        width,
        height,
    }
}

/// A candidate placement is acceptable when it lies fully inside the grid
/// bound and intersects none of the occupied regions.
pub open spec fn placement_ok(bound: Region, occupied: Seq<Region>, cand: Region) -> bool {
    &&& bound.contains_spec(cand)
    &&& forall|j: int| 0 <= j < occupied.len() ==> !cand.intersects_spec(occupied[j])
}

/// The first acceptable placement at or after the anchor offset
/// (`row_off`, `col_off`) in scan order: row-major from the grid's origin,
/// column incrementing fastest.
pub open spec fn first_fit_from(
    bound: Region,
    width: u32,
    height: u32,
    occupied: Seq<Region>,
    row_off: int,
    col_off: int,
) -> Option<Region>
    decreases bound.height - row_off, bound.width - col_off,
{
    if row_off >= bound.height {
        None
    } else if col_off >= bound.width {
        first_fit_from(bound, width, height, occupied, row_off + 1, 0)
    } else if placement_ok(bound, occupied, candidate_at(bound, width, height, row_off, col_off)) {
        Some(candidate_at(bound, width, height, row_off, col_off))
    } else {
        first_fit_from(bound, width, height, occupied, row_off, col_off + 1)
    }
}

/// The placement that the deterministic scan yields, or `None` when no
/// anchor inside the bound admits the footprint.
pub open spec fn first_fit(
    bound: Region,
    width: u32,
    height: u32,
    occupied: Seq<Region>,
) -> Option<Region> {
    first_fit_from(bound, width, height, occupied, 0, 0)
}

/// Whether `cand` overlaps any of the occupied regions.
pub fn intersects_any(cand: &Region, occupied: &Vec<Region>) -> (r: bool)
    ensures
        r == exists|j: int| 0 <= j < occupied@.len() && cand.intersects_spec(occupied@[j]),
{
    let mut i: usize = 0;
    while i < occupied.len()
        invariant
            i <= occupied@.len(),
            forall|j: int| 0 <= j < i ==> !cand.intersects_spec(occupied@[j]),
        decreases occupied@.len() - i,
    {
        if cand.intersects(&occupied[i]) {
            proof {
                assert(cand.intersects_spec(occupied@[i as int]));
            }
            return true;
        }
        i = i + 1;
    }
    false
}

/// First-fit deterministic placement: scans anchors in row-major order
/// (column fastest) from the grid's origin and returns the first candidate
/// region of footprint `width` x `height` that is fully contained in
/// `grid_bound` and intersects none of `occupied`; `None` when the scan
/// exhausts the bound. Identical inputs always yield the identical result.
pub fn find_free_space(
    grid_bound: &Region,
    width: u32,
    height: u32,
    occupied: &Vec<Region>,
) -> (r: Option<Region>)
    requires
        grid_bound.wf(),
    ensures
        r == first_fit(*grid_bound, width, height, occupied@),
{
    let mut row_off: u32 = 0;
    while row_off < grid_bound.height
        invariant
            grid_bound.wf(),
            row_off <= grid_bound.height,
            first_fit(*grid_bound, width, height, occupied@) == first_fit_from(
                *grid_bound,
                width,
                height,
                occupied@,
                row_off as int,
                0,
            ),
        decreases grid_bound.height - row_off,
    {
        let mut col_off: u32 = 0;
        while col_off < grid_bound.width
            invariant
                grid_bound.wf(),
                row_off < grid_bound.height,
                col_off <= grid_bound.width,
                first_fit(*grid_bound, width, height, occupied@) == first_fit_from(
                    *grid_bound,
                    width,
                    height,
                    occupied@,
                    row_off as int,
                    col_off as int,
                ),
            decreases grid_bound.width - col_off,
        {
            let cand = Region {
                origin_row: grid_bound.origin_row + row_off,
                origin_col: grid_bound.origin_col + col_off,
                width,
                height,
            };
            proof {
                assert(cand == candidate_at(
                    *grid_bound,
                    width,
                    height,
                    row_off as int,
                    col_off as int,
                ));
            }
            if grid_bound.contains(&cand) && !intersects_any(&cand, occupied) {
                proof {
                    assert(placement_ok(*grid_bound, occupied@, cand));
                }
                return Some(cand);
            }
            col_off = col_off + 1;
        }
        row_off = row_off + 1;
    }
    None
}

/// On an empty grid, a positive footprint that fits the bound is placed at
/// the grid's origin.
pub proof fn lemma_first_fit_empty_at_origin(bound: Region, width: u32, height: u32)
    requires
        bound.wf(),
        0 < width <= bound.width,
        0 < height <= bound.height,
    ensures
        first_fit(bound, width, height, Seq::<Region>::empty()) == Some(
            Region {
                origin_row: bound.origin_row,
                origin_col: bound.origin_col,
                width,
                height,
            },
        ),
{
    let cand = candidate_at(bound, width, height, 0, 0);
    assert(bound.contains_spec(cand));
    assert(placement_ok(bound, Seq::<Region>::empty(), cand));
}

proof fn lemma_first_fit_from_ok(
    bound: Region,
    width: u32,
    height: u32,
    occupied: Seq<Region>,
    row_off: int,
    col_off: int,
)
    ensures
        match first_fit_from(bound, width, height, occupied, row_off, col_off) {
            Some(r) => placement_ok(bound, occupied, r) && r.width == width && r.height == height,
            None => true,
        },
    decreases bound.height - row_off, bound.width - col_off,
{
    if row_off >= bound.height {
    } else if col_off >= bound.width {
        lemma_first_fit_from_ok(bound, width, height, occupied, row_off + 1, 0);
    } else if placement_ok(bound, occupied, candidate_at(bound, width, height, row_off, col_off)) {
    } else {
        lemma_first_fit_from_ok(bound, width, height, occupied, row_off, col_off + 1);
    }
}

/// A placement that the scan yields is acceptable: it has the requested
/// footprint, lies inside the grid bound, and overlaps no occupied region.
pub proof fn lemma_first_fit_ok(bound: Region, width: u32, height: u32, occupied: Seq<Region>)
    ensures
        match first_fit(bound, width, height, occupied) {
            Some(r) => placement_ok(bound, occupied, r) && r.width == width && r.height == height,
            None => true,
        },
{
    lemma_first_fit_from_ok(bound, width, height, occupied, 0, 0);
}

proof fn lemma_first_fit_all_blocked(
    bound: Region,
    width: u32,
    height: u32,
    occupied: Seq<Region>,
    row_off: int,
    col_off: int,
)
    requires
        forall|ro: int, co: int|
            0 <= ro < bound.height && 0 <= co < bound.width ==> !placement_ok(
                bound,
                occupied,
                #[trigger] candidate_at(bound, width, height, ro, co),
            ),
        0 <= row_off,
        0 <= col_off,
    ensures
        first_fit_from(bound, width, height, occupied, row_off, col_off) is None,
    decreases bound.height - row_off, bound.width - col_off,
{
    if row_off >= bound.height {
    } else if col_off >= bound.width {
        lemma_first_fit_all_blocked(bound, width, height, occupied, row_off + 1, 0);
    } else {
        lemma_first_fit_all_blocked(bound, width, height, occupied, row_off, col_off + 1);
    }
}

/// On a grid whose every cell is covered by a single occupied region, no
/// positive footprint can be placed.
pub proof fn lemma_first_fit_full_grid_none(bound: Region, width: u32, height: u32, cover: Region)
    requires
        bound.wf(),
        width > 0,
        height > 0,
        forall|row: int, col: int| bound.covers(row, col) ==> cover.covers(row, col),
    ensures
        first_fit(bound, width, height, seq![cover]) is None,
{
    assert forall|ro: int, co: int|
        0 <= ro < bound.height && 0 <= co < bound.width implies !placement_ok(
        bound,
        seq![cover],
        #[trigger] candidate_at(bound, width, height, ro, co),
    ) by {
        let cand = candidate_at(bound, width, height, ro, co);
        if bound.contains_spec(cand) {
            let row = bound.origin_row + ro;
            let col = bound.origin_col + co;
            assert(bound.covers(row, col));
            assert(cand.covers(row, col));
            assert(cover.covers(row, col));
            assert(cand.intersects_spec(seq![cover][0]));
        }
    }
    lemma_first_fit_all_blocked(bound, width, height, seq![cover], 0, 0);
}

} // verus!
