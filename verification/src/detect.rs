//! Marker detector: scans a frame buffer for the marker glyph.
//!
//! The marker is recognized at a byte offset when four rules hold: the
//! pixel there is bright in all three color channels, the pixel to its
//! right is not bright in any channel, the thirteen pixels directly below
//! form a solid bright column, and the fourteen pixels one step to the
//! left of that column are all dark. The scan runs in row-major order,
//! pixel by pixel, excludes the last twenty rows, and stops at the first
//! hit. Any out-of-bounds access invalidates a candidate rather than
//! failing.

use vstd::prelude::*;

verus! {

/// A channel at or above this value counts as bright (the marker core).
pub const BRIGHT_MIN: u8 = 210;

/// A channel at or above this value breaks a "dark" requirement.
pub const DARK_MAX: u8 = 90;

/// Rows (including the candidate's own) that the bright column spans.
pub const COLUMN_ROWS: usize = 14;

/// Rows excluded at the bottom of the frame, reserving room for the
/// vertical lookahead.
pub const SCAN_MARGIN_ROWS: usize = 20;

/// A marker position in pixel units: `x` counts pixels from the left,
/// `y` counts rows from the top.
#[derive(Clone, Copy, PartialEq, Eq, Structural, Debug)]
pub struct MarkerPos {
    pub x: usize,
    pub y: usize,
}

/// Bytes in one pixel row of a frame `width` pixels wide.
pub open spec fn row_stride(width: int) -> int {
    4 * width
}

/// The candidate pixel itself is bright in all three color channels.
pub open spec fn core_bright_at(data: Seq<u8>, i: int) -> bool {
    &&& i + 2 < data.len()
    &&& data[i] >= BRIGHT_MIN
    &&& data[i + 1] >= BRIGHT_MIN
    &&& data[i + 2] >= BRIGHT_MIN
}

/// The pixel immediately to the right is dark in every channel, which
/// rejects candidates inside a large bright region.
pub open spec fn right_dark_at(data: Seq<u8>, i: int) -> bool {
    &&& i + 6 < data.len()
    &&& data[i + 4] < DARK_MAX
    &&& data[i + 5] < DARK_MAX
    &&& data[i + 6] < DARK_MAX
}

/// The pixel `j` rows below the candidate is strictly brighter than the
/// threshold in every channel.
pub open spec fn column_bright_at(data: Seq<u8>, width: int, i: int, j: int) -> bool {
    let idx = i + j * row_stride(width);
    &&& idx + 2 < data.len()
    &&& data[idx] > BRIGHT_MIN
    &&& data[idx + 1] > BRIGHT_MIN
    &&& data[idx + 2] > BRIGHT_MIN
}

/// The pixel one step left of the column, `j` rows below the candidate,
/// is dark in every channel.
pub open spec fn left_dark_at(data: Seq<u8>, width: int, i: int, j: int) -> bool {
    let base = i + j * row_stride(width);
    &&& base >= 4
    &&& base - 2 < data.len()
    &&& data[base - 4] < DARK_MAX
    &&& data[base - 3] < DARK_MAX
    &&& data[base - 2] < DARK_MAX
}

/// All four marker rules hold at byte offset `i`.
pub open spec fn marker_at(data: Seq<u8>, width: int, i: int) -> bool {
    &&& core_bright_at(data, i)
    &&& right_dark_at(data, i)
    &&& forall|j: int| 1 <= j < COLUMN_ROWS ==> column_bright_at(data, width, i, j)
    &&& forall|j: int| 0 <= j < COLUMN_ROWS ==> left_dark_at(data, width, i, j)
}

/// One past the last byte offset the scan considers: the buffer length
/// less twenty rows, and zero when the buffer is shorter than that.
pub open spec fn scan_limit(data: Seq<u8>, width: int) -> int {
    if data.len() >= SCAN_MARGIN_ROWS * row_stride(width) {
        data.len() - SCAN_MARGIN_ROWS * row_stride(width)
    } else {
        0
    }
}

/// Distance from `i` to the scan limit, floored at zero; the measure of
/// the scan recursion.
pub open spec fn scan_gap(data: Seq<u8>, width: int, i: int) -> int {
    if scan_limit(data, width) >= i {
        scan_limit(data, width) - i
    } else {
        0
    }
}

/// The first byte offset at or after `i`, stepping four bytes at a time,
/// where the marker rules hold; `None` when the scan range is exhausted.
pub open spec fn first_marker_from(data: Seq<u8>, width: int, i: int) -> Option<int>
    decreases scan_gap(data, width, i),
{
    if i < 0 || i >= scan_limit(data, width) {
        None
    } else if marker_at(data, width, i) {
        Some(i)
    } else {
        first_marker_from(data, width, i + 4)
    }
}

/// Checks the four marker rules at byte offset `i`.
fn marker_check(data: &Vec<u8>, width: usize, i: usize, row: usize) -> (r: bool)
    requires
        1 <= width,
        row == 4 * width,
        i + 20 * row <= data@.len(),
    ensures
        r == marker_at(data@, width as int, i as int),
{
    let n = data.len();
    if !(data[i] >= BRIGHT_MIN && data[i + 1] >= BRIGHT_MIN && data[i + 2] >= BRIGHT_MIN) {
        return false;
    }
    if data[i + 4] >= DARK_MAX || data[i + 5] >= DARK_MAX || data[i + 6] >= DARK_MAX {
        return false;
    }
    let mut j: usize = 1;
    while j < COLUMN_ROWS
        invariant
            1 <= j <= COLUMN_ROWS,
            1 <= width,
            row == 4 * width,
            i + 20 * row <= data@.len(),
            n == data@.len(),
            forall|t: int| 1 <= t < j ==> column_bright_at(data@, width as int, i as int, t),
        decreases COLUMN_ROWS - j,
    {
        proof {
            assert(j * row <= 13 * row) by (nonlinear_arith)
                requires
                    j <= 13,
                    row >= 0,
            ;
        }
        let idx = i + j * row;
        if !(data[idx] > BRIGHT_MIN && data[idx + 1] > BRIGHT_MIN && data[idx + 2] > BRIGHT_MIN) {
            proof {
                assert(!column_bright_at(data@, width as int, i as int, j as int));
            }
            return false;
        }
        j += 1;
    }
    let mut j2: usize = 0;
    while j2 < COLUMN_ROWS
        invariant
            0 <= j2 <= COLUMN_ROWS,
            1 <= width,
            row == 4 * width,
            i + 20 * row <= data@.len(),
            n == data@.len(),
            forall|t: int| 0 <= t < j2 ==> left_dark_at(data@, width as int, i as int, t),
        decreases COLUMN_ROWS - j2,
    {
        proof {
            assert(j2 * row <= 13 * row) by (nonlinear_arith)
                requires
                    j2 <= 13,
                    row >= 0,
            ;
        }
        let base = i + j2 * row;
        if base < 4 {
            proof {
                assert(!left_dark_at(data@, width as int, i as int, j2 as int));
            }
            return false;
        }
        let idx = base - 4;
        if data[idx] >= DARK_MAX || data[idx + 1] >= DARK_MAX || data[idx + 2] >= DARK_MAX {
            proof {
                assert(!left_dark_at(data@, width as int, i as int, j2 as int));
            }
            return false;
        }
        j2 += 1;
    }
    true
}

/// Scans the frame bytes for the marker and returns its pixel coordinate,
/// or `None` when no offset in the scan range satisfies the rules. The
/// result is exactly the first marker in row-major scan order.
pub fn find_position(data: &Vec<u8>, width: usize) -> (r: Option<MarkerPos>)
    requires
        1 <= width,
    ensures
        match (r, first_marker_from(data@, width as int, 0)) {
            (None, None) => true,
            (Some(pos), Some(i)) => {
                &&& pos.x == (i % row_stride(width as int)) / 4
                &&& pos.y == i / row_stride(width as int)
            },
            _ => false,
        },
{
    let n = data.len();
    let lim_bytes = match width.checked_mul(80) {
        Some(v) => v,
        None => {
            // Twenty rows alone exceed any addressable buffer, so the
            // scan range is empty.
            proof {
                assert(scan_limit(data@, width as int) == 0);
            }
            return None;
        },
    };
    let row = width * 4;
    let limit = n.saturating_sub(lim_bytes);
    assert(limit == scan_limit(data@, width as int));
    let mut i: usize = 0;
    while i < limit
        invariant
            1 <= width,
            row == 4 * width,
            lim_bytes == 20 * row,
            n == data@.len(),
            limit == scan_limit(data@, width as int),
            i % 4 == 0,
            first_marker_from(data@, width as int, 0) == first_marker_from(
                data@,
                width as int,
                i as int,
            ),
        decreases scan_gap(data@, width as int, i as int),
    {
        if marker_check(data, width, i, row) {
            let x_byte = i % row;
            let y = i / row;
            return Some(MarkerPos { x: x_byte / 4, y });
        }
        i += 4;
    }
    None
}

/// The detector is deterministic and idempotent: two runs over the same
/// buffer and width agree, whether they find a coordinate or not.
pub proof fn lemma_detector_deterministic(
    data: Seq<u8>,
    width: int,
    r1: Option<MarkerPos>,
    r2: Option<MarkerPos>,
)
    requires
        match (r1, first_marker_from(data, width, 0)) {
            (None, None) => true,
            (Some(pos), Some(i)) => pos.x == (i % row_stride(width)) / 4 && pos.y == i
                / row_stride(width),
            _ => false,
        },
        match (r2, first_marker_from(data, width, 0)) {
            (None, None) => true,
            (Some(pos), Some(i)) => pos.x == (i % row_stride(width)) / 4 && pos.y == i
                / row_stride(width),
            _ => false,
        },
    ensures
        r1 == r2,
{
}

/// When no offset in the scan range satisfies the marker rules, the scan
/// from any starting offset comes up empty.
proof fn lemma_first_marker_none(data: Seq<u8>, width: int, i: int)
    requires
        forall|k: int| 0 <= k < scan_limit(data, width) ==> !marker_at(data, width, k),
    ensures
        first_marker_from(data, width, i) is None,
    decreases scan_gap(data, width, i),
{
    if i < 0 || i >= scan_limit(data, width) {
    } else {
        assert(!marker_at(data, width, i));
        lemma_first_marker_none(data, width, i + 4);
    }
}

/// A uniformly dim buffer — every byte below the bright threshold, as in
/// a black frame — holds no marker: the bright-core rule can never hold.
pub proof fn lemma_uniform_dim_no_marker(data: Seq<u8>, width: int)
    requires
        forall|k: int| 0 <= k < data.len() ==> data[k] < BRIGHT_MIN,
    ensures
        first_marker_from(data, width, 0) is None,
{
    assert forall|k: int| 0 <= k < scan_limit(data, width) implies !marker_at(
        data,
        width,
        k,
    ) by {
        assert(!core_bright_at(data, k));
    }
    lemma_first_marker_none(data, width, 0);
}

/// A uniformly bright buffer — every byte at or above the dark threshold,
/// as in an all-white frame — holds no marker: the right-neighbor rule
/// can never hold.
pub proof fn lemma_uniform_bright_no_marker(data: Seq<u8>, width: int)
    requires
        forall|k: int| 0 <= k < data.len() ==> data[k] >= DARK_MAX,
    ensures
        first_marker_from(data, width, 0) is None,
{
    assert forall|k: int| 0 <= k < scan_limit(data, width) implies !marker_at(
        data,
        width,
        k,
    ) by {
        assert(!right_dark_at(data, k));
    }
    lemma_first_marker_none(data, width, 0);
}

/// A buffer no longer than the twenty-row margin has an empty scan range,
/// so no marker is ever reported in it.
pub proof fn lemma_short_buffer_no_marker(data: Seq<u8>, width: int)
    requires
        data.len() <= SCAN_MARGIN_ROWS * row_stride(width),
    ensures
        first_marker_from(data, width, 0) is None,
{
    assert(scan_limit(data, width) == 0);
}

} // verus!
