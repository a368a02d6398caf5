//! Grid helpers.

pub mod grid_sampler;

use vstd::prelude::*;

use crate::time::{run_before, seconds_in_range, spec_run_before, UtcDateTime};

verus! {

/// Failure of an iterative solver.
#[derive(Debug, Clone, Copy, PartialEq, Eq)]
pub enum Error {
    ConvergenceFailure,
}

/// The 3x3 neighbourhood of cell `index` in a row-major `width` x `height`
/// grid, as `[top_left, top, top_right, left, index, right, bottom_left,
/// bottom, bottom_right]`. A neighbour that would fall off the grid is the
/// selected cell (or the row neighbour) repeated, so every neighbour is a
/// cell of the grid; across the left and right edges the neighbours are
/// the cells that come before and after in row-major order.
pub open spec fn spec_nearest_neighbors(width: int, height: int, index: int) -> Seq<int> {
    let last = width * height - 1;
    let left = if index == 0 {
        index
    } else {
        index - 1
    };
    let right = if index == last {
        index
    } else {
        index + 1
    };
    let top = if index < width {
        index
    } else {
        index - width
    };
    let bottom = if index >= width * height - width {
        index
    } else {
        index + width
    };
    let top_left = if top % width == 0 {
        top
    } else {
        top - 1
    };
    let top_right = if top == last {
        top
    } else {
        top + 1
    };
    let bottom_left = if bottom % width == 0 {
        bottom
    } else {
        bottom - 1
    };
    let bottom_right = if bottom == last {
        bottom
    } else {
        bottom + 1
    };
    seq![top_left, top, top_right, left, index, right, bottom_left, bottom, bottom_right]
}

/// Calculate the indexes of a given index's nearest neighbour cells in a
/// flattened row-major grid. This implementation does NOT wrap, and falls
/// back to the selected index (or its row neighbour) where wrapping would
/// occur.
pub fn nearest_neighbors(width: usize, height: usize, index: usize) -> (neighbors: [usize; 9])
    requires
        width > 0,
        height > 0,
        width * height < usize::MAX,
        index < width * height,
    ensures
        neighbors@.len() == 9,
        forall|k: int| 0 <= k < 9 ==> neighbors@[k] < width * height,
        neighbors@[4] == index,
        forall|k: int|
            0 <= k < 9 ==> neighbors@[k] == #[trigger] spec_nearest_neighbors(
                width as int,
                height as int,
                index as int,
            )[k],
{
    proof {
        assert(width * height >= width) by (nonlinear_arith)
            requires
                height > 0,
                width > 0,
        ;
    }
    let cells = width * height;
    let left = if index == 0 {
        index
    } else {
        index - 1
    };
    let right = if index == (cells - 1) {
        index
    } else {
        index + 1
    };
    let top = if index < width {
        index
    } else {
        index - width
    };
    let bottom = if index >= (cells - width) {
        index
    } else {
        index + width
    };
    proof {
        assert(0int % (width as int) == 0);
    }
    let top_left = if top % width == 0 {
        top
    } else {
        top - 1
    };
    let top_right = if top == (cells - 1) {
        top
    } else {
        top + 1
    };
    let bottom_left = if bottom % width == 0 {
        bottom
    } else {
        bottom - 1
    };
    let bottom_right = if bottom == (cells - 1) {
        bottom
    } else {
        bottom + 1
    };
    [top_left, top, top_right, left, index, right, bottom_left, bottom, bottom_right]
}

/// An interior cell's neighbourhood is the 3x3 block of cells around it.
pub proof fn lemma_interior_neighborhood(width: int, height: int, index: int)
    requires
        width > 0,
        height > 0,
        width <= index < width * height - width,
        index % width != 0,
        index % width != width - 1,
    ensures
        spec_nearest_neighbors(width, height, index) == seq![
            index - width - 1,
            index - width,
            index - width + 1,
            index - 1,
            index,
            index + 1,
            index + width - 1,
            index + width,
            index + width + 1,
        ],
{
    assert((index - width) % width == index % width) by (nonlinear_arith)
        requires
            width > 0,
            index >= width,
    ;
    assert((index + width) % width == index % width) by (nonlinear_arith)
        requires
            width > 0,
            index >= 0,
    ;
    assert(index - width != width * height - 1);
    assert(index + width != width * height - 1) by (nonlinear_arith)
        requires
            index % width != width - 1,
            index < width * height - width,
            width > 0,
            index >= 0,
            height > 0,
    ;
    assert(index != width * height - 1) by (nonlinear_arith)
        requires
            index % width != width - 1,
            width > 0,
            index >= 0,
            height > 0,
    ;
}


/// The most recent six-hourly model run published by `datetime`: six hours
/// earlier, floored to 00, 06, 12 or 18 UTC.
pub fn closest_model_datetime(datetime: UtcDateTime) -> (run: UtcDateTime)
    requires
        datetime.wf(),
        seconds_in_range(datetime.unix_seconds() - 6 * 3600),
    ensures
        run.wf(),
        spec_run_before(datetime, 6, 6, run),
{
    run_before(&datetime, 6, 6)
}

} // verus!
