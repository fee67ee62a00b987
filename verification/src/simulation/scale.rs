use vstd::prelude::*;

use crate::text::same_text;
use crate::world::{Cell, Grid, GridModel, Position};

verus! {

/// The benchmark sizes: ten thousand, a hundred thousand and a million ants.
#[derive(Clone, Copy, Debug, PartialEq, Eq, Structural)]
pub enum ScaleProfile {
    Ant10k,
    Ant100k,
    Ant1m,
}

impl ScaleProfile {
    pub open spec fn label_text(self) -> Seq<char> {
        match self {
            ScaleProfile::Ant10k => "10k"@,
            ScaleProfile::Ant100k => "100k"@,
            ScaleProfile::Ant1m => "1m"@,
        }
    }

    /// The profile named on the command line, if any.
    pub open spec fn from_label(text: Seq<char>) -> Option<ScaleProfile> {
        if text == "10k"@ {
            Some(ScaleProfile::Ant10k)
        } else if text == "100k"@ {
            Some(ScaleProfile::Ant100k)
        } else if text == "1m"@ {
            Some(ScaleProfile::Ant1m)
        } else {
            None
        }
    }

    /// Position of the profile in increasing size.
    pub open spec fn rank(self) -> nat {
        match self {
            ScaleProfile::Ant10k => 0,
            ScaleProfile::Ant100k => 1,
            ScaleProfile::Ant1m => 2,
        }
    }

    pub open spec fn spec_ant_count(self) -> usize {
        match self {
            ScaleProfile::Ant10k => 10_000,
            ScaleProfile::Ant100k => 100_000,
            ScaleProfile::Ant1m => 1_000_000,
        }
    }

    pub open spec fn spec_default_steps(self) -> usize {
        match self {
            ScaleProfile::Ant10k => 500,
            ScaleProfile::Ant100k => 250,
            ScaleProfile::Ant1m => 120,
        }
    }

    pub open spec fn spec_grid_size(self) -> (usize, usize) {
        match self {
            ScaleProfile::Ant10k => (192, 192),
            ScaleProfile::Ant100k => (384, 384),
            ScaleProfile::Ant1m => (768, 768),
        }
    }

    /// Parses `10k`, `100k` or `1m`; anything else gives `None`.
    pub fn from_cli(value: &str) -> (profile: Option<Self>)
        ensures
            profile == Self::from_label(value@),
    {
        if same_text(value, "10k") {
            Some(Self::Ant10k)
        } else if same_text(value, "100k") {
            Some(Self::Ant100k)
        } else if same_text(value, "1m") {
            Some(Self::Ant1m)
        } else {
            None
        }
    }

    pub fn label(self) -> (label: &'static str)
        ensures
            label@ == self.label_text(),
    {
        match self {
            Self::Ant10k => "10k",
            Self::Ant100k => "100k",
            Self::Ant1m => "1m",
        }
    }

    pub fn ant_count(self) -> (count: usize)
        ensures
            count == self.spec_ant_count(),
    {
        match self {
            Self::Ant10k => 10_000,
            Self::Ant100k => 100_000,
            Self::Ant1m => 1_000_000,
        }
    }

    pub fn default_steps(self) -> (steps: usize)
        ensures
            steps == self.spec_default_steps(),
    {
        match self {
            Self::Ant10k => 500,
            Self::Ant100k => 250,
            Self::Ant1m => 120,
        }
    }

    pub fn grid_size(self) -> (size: (usize, usize))
        ensures
            size == self.spec_grid_size(),
    {
        match self {
            Self::Ant10k => (192, 192),
            Self::Ant100k => (384, 384),
            Self::Ant1m => (768, 768),
        }
    }

    /// Steps a benchmark run makes: the override if one is given, else the
    /// profile's default, and never fewer than one.
    pub fn steps_for(self, override_steps: Option<usize>) -> (steps: usize)
        ensures
            steps == (match override_steps {
                Some(s) => if s == 0 {
                    1
                } else {
                    s
                },
                None => self.spec_default_steps(),
            }),
            steps >= 1,
    {
        let steps = match override_steps {
            Some(s) => s,
            None => self.default_steps(),
        };
        if steps < 1 {
            1
        } else {
            steps
        }
    }
}

/// A profile's label parses back to the profile.
pub proof fn lemma_label_round_trip(profile: ScaleProfile)
    ensures
        ScaleProfile::from_label(profile.label_text()) == Some(profile),
{
    reveal_strlit("10k");
    reveal_strlit("100k");
    reveal_strlit("1m");
    assert("10k"@.len() == 3);
    assert("100k"@.len() == 4);
    assert("1m"@.len() == 2);
}

/// Larger profiles have more ants and larger grids.
pub proof fn lemma_profile_sizes_monotonic(small: ScaleProfile, large: ScaleProfile)
    requires
        small.rank() < large.rank(),
    ensures
        small.spec_ant_count() < large.spec_ant_count(),
        small.spec_grid_size().0 < large.spec_grid_size().0,
        small.spec_grid_size().1 < large.spec_grid_size().1,
{
}

/// The benchmark world: the nest in the middle, a food patch near the
/// north-west and one near the south-east corner (64 units per cell), a
/// vertical obstacle band at a third of the width with a gap every twelve
/// rows and a horizontal band at two thirds of the height with a gap every
/// eleven columns.
pub open spec fn scale_world(width: nat, height: nat) -> GridModel {
    let food_start_x = if width >= width / 12 + 2 { width - (width / 12 + 2) } else { 0 };
    let food_end_x = if width >= 2 { width - 2 } else { 0 };
    let food_start_y = if height >= height / 8 + height / 16 { height - (height / 8 + height / 16) } else { 0 };
    let food_end_y = if height >= height / 8 { height - height / 8 } else { 0 };
    GridModel::fresh(width, height).set_nest(
        Position { x: (width / 2) as usize, y: (height / 2) as usize },
    ).paint(
        |q: Position| 2 <= q.x < 2 + width / 12 && height / 8 <= q.y < height / 8 + height / 16,
        Cell::Food(64),
    ).paint(
        |q: Position| food_start_x <= q.x < food_end_x && food_start_y <= q.y < food_end_y,
        Cell::Food(64),
    ).paint(
        |q: Position| q.x == width / 3 && height / 6 <= q.y < height * 5 / 6 && q.y % 12 != 0,
        Cell::Obstacle,
    ).paint(
        |q: Position| q.y == height * 2 / 3 && width / 5 <= q.x < width * 4 / 5 && q.x % 11 != 0,
        Cell::Obstacle,
    )
}

/// Builds the benchmark world for a `width` x `height` grid.
pub fn seeded_scale_world(width: usize, height: usize) -> (grid: Grid)
    requires
        width > 2,
        height > 2,
        width * height <= usize::MAX,
        width * 4 <= usize::MAX,
        height * 5 <= usize::MAX,
    ensures
        grid@ == scale_world(width as nat, height as nat),
{
    let mut grid = Grid::new(width, height);
    grid.set_nest(width / 2, height / 2);
    grid.paint_rect(2, 2 + width / 12, height / 8, height / 8 + height / 16, Cell::Food(64));

    let food_start_x = width.saturating_sub(width / 12 + 2);
    let food_end_x = width.saturating_sub(2);
    let food_start_y = height.saturating_sub(height / 8 + height / 16);
    let food_end_y = height.saturating_sub(height / 8);
    grid.paint_rect(food_start_x, food_end_x, food_start_y, food_end_y, Cell::Food(64));

    // Obstacle bands force path re-routing to avoid trivially open worlds.
    grid.paint_column_with_gaps(width / 3, height / 6, height * 5 / 6, 12, Cell::Obstacle);
    grid.paint_row_with_gaps(height * 2 / 3, width / 5, width * 4 / 5, 11, Cell::Obstacle);
    grid
}

} // verus!
