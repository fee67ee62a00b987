use vstd::prelude::*;
use vstd::string::*;

use crate::text::{decimal, push_decimal};
use crate::world::grid::{food_source_count, obstacle_count};
use crate::world::{Cell, Grid, GridModel};

verus! {

/// The one-line textual summary of a frame: the grid's dimensions and nest,
/// its active food sources and obstacles, and the active sources recorded
/// by the simulation metrics.
pub open spec fn frame_summary_text(g: GridModel, active_food_sources: nat) -> Seq<char> {
    "frame_summary width="@ + decimal(g.width) + " height="@ + decimal(g.height) + " nest=("@
        + decimal(g.nest.x as nat) + ", "@ + decimal(g.nest.y as nat) + ") food_cells="@ + decimal(
        food_source_count(g.cells),
    ) + " obstacles="@ + decimal(obstacle_count(g.cells)) + " active_sources="@ + decimal(
        active_food_sources,
    )
}

/// Renders the frame summary of `grid`; `active_food_sources` is the count
/// recorded in the simulation metrics.
pub fn build_frame_summary(grid: &Grid, active_food_sources: usize) -> (summary: String)
    ensures
        summary@ == frame_summary_text(grid@, active_food_sources as nat),
{
    let cells = grid.cells();
    let mut obstacles: usize = 0;
    let mut food_cells: usize = 0;
    let mut i: usize = 0;
    while i < cells.len()
        invariant
            cells@ == grid@.cells,
            i <= cells@.len(),
            obstacles == obstacle_count(cells@.take(i as int)),
            food_cells == food_source_count(cells@.take(i as int)),
            obstacles <= i,
            food_cells <= i,
        decreases cells@.len() - i,
    {
        proof {
            assert(cells@.take(i + 1).drop_last() =~= cells@.take(i as int));
        }
        match cells[i] {
            Cell::Obstacle => {
                obstacles = obstacles + 1;
            },
            Cell::Food(amount) => {
                if amount > 0 {
                    food_cells = food_cells + 1;
                }
            },
            _ => {},
        }
        i = i + 1;
    }
    proof {
        assert(cells@.take(i as int) =~= cells@);
    }
    let mut summary = String::new();
    summary.append("frame_summary width=");
    push_decimal(&mut summary, grid.width() as u64);
    summary.append(" height=");
    push_decimal(&mut summary, grid.height() as u64);
    summary.append(" nest=(");
    push_decimal(&mut summary, grid.nest().x as u64);
    summary.append(", ");
    push_decimal(&mut summary, grid.nest().y as u64);
    summary.append(") food_cells=");
    push_decimal(&mut summary, food_cells as u64);
    summary.append(" obstacles=");
    push_decimal(&mut summary, obstacles as u64);
    summary.append(" active_sources=");
    push_decimal(&mut summary, active_food_sources as u64);
    proof {
        assert(summary@ =~= frame_summary_text(grid@, active_food_sources as nat));
    }
    summary
}

} // verus!
