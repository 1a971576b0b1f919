//! Tile classification and the tile-to-glyph resolver.
//!
//! A tile is described by two `Cut` values (how a strand crosses its bottom
//! and top half) and the parity of its row and column.  The resolver maps
//! every such description to a concrete draw instruction: one of five base
//! glyphs, a quarter-turn rotation, and an optional horizontal mirror.  The
//! table is hand-tuned visual data, not a derivable formula, so it is kept
//! as an explicit case list and verified exactly as written.

use vstd::prelude::*;

verus! {

/// How a through-line crosses one half (bottom or top) of a tile.
#[derive(Clone, Copy, Debug, PartialEq, Eq, Structural)]
pub enum Cut {
    Open,
    Horizontal,
    Vertical,
    Cross,
}

/// Parity of a tile's row or column index.
#[derive(Clone, Copy, Debug, PartialEq, Eq, Structural)]
pub enum Offset {
    Even,
    Odd,
}

/// A tile's full classification: both cuts plus row and column parity.
#[derive(Clone, Copy, Debug, PartialEq, Eq, Structural)]
pub struct Tile {
    pub bottom_cut: Cut,
    pub top_cut: Cut,
    pub row_offset: Offset,
    pub col_offset: Offset,
}

/// The five base glyphs from which every knot tile is drawn.
#[derive(Clone, Copy, Debug, PartialEq, Eq, Structural)]
pub enum Glyph {
    Corner,
    VerticalLine,
    StraightCross,
    CurvedCross,
    CurvedCrossUnder,
}

/// A quarter-turn rotation applied to a glyph when it is painted.
#[derive(Clone, Copy, Debug, PartialEq, Eq, Structural)]
pub enum Rotation {
    R0,
    R90,
    R180,
    R270,
}

/// What the renderer should paint for one tile: a glyph with its
/// orientation, or an opaque error block for classifications that no valid
/// graph state can produce (degrade visibly rather than crash).
#[derive(Clone, Copy, Debug, PartialEq, Eq, Structural)]
pub enum DrawExpr {
    Sprite { glyph: Glyph, rotation: Rotation, flip_x: bool },
    ErrorBlock,
}

impl Glyph {
    /// Column and row of this glyph's source tile in the sprite atlas.
    pub open spec fn spec_atlas_loc(self) -> (u16, u16) {
        match self {
            Glyph::Corner => (0, 0),
            Glyph::VerticalLine => (7, 1),
            Glyph::StraightCross => (0, 2),
            Glyph::CurvedCross => (6, 8),
            Glyph::CurvedCrossUnder => (8, 0),
        }
    }

    /// Column and row of this glyph's source tile in the sprite atlas.
    pub fn atlas_loc(&self) -> (r: (u16, u16))
        ensures
            r == self.spec_atlas_loc(),
    {
        match self {
            Glyph::Corner => (0, 0),
            Glyph::VerticalLine => (7, 1),
            Glyph::StraightCross => (0, 2),
            Glyph::CurvedCross => (6, 8),
            Glyph::CurvedCrossUnder => (8, 0),
        }
    }
}

/// The authoritative classification table: every combination of the two
/// cuts and the two parities that a consistent connection graph can produce
/// is assigned its glyph, rotation and mirror; everything else (any tuple
/// with a `Cross` cut) falls through to the error block.
pub open spec fn spec_draw_expr(tile: Tile) -> DrawExpr {
    match (tile.bottom_cut, tile.top_cut, tile.row_offset, tile.col_offset) {
        (Cut::Open, Cut::Open, Offset::Even, Offset::Even) => DrawExpr::Sprite {
            glyph: Glyph::StraightCross,
            rotation: Rotation::R0,
            flip_x: false,
        },
        (Cut::Open, Cut::Open, Offset::Even, Offset::Odd) => DrawExpr::Sprite {
            glyph: Glyph::StraightCross,
            rotation: Rotation::R90,
            flip_x: false,
        },
        (Cut::Open, Cut::Open, Offset::Odd, Offset::Odd) => DrawExpr::Sprite {
            glyph: Glyph::StraightCross,
            rotation: Rotation::R180,
            flip_x: false,
        },
        (Cut::Open, Cut::Open, Offset::Odd, Offset::Even) => DrawExpr::Sprite {
            glyph: Glyph::StraightCross,
            rotation: Rotation::R270,
            flip_x: false,
        },
        (Cut::Horizontal, Cut::Vertical, Offset::Odd, Offset::Odd)
        | (Cut::Horizontal, Cut::Vertical, Offset::Even, Offset::Even) => DrawExpr::Sprite {
            glyph: Glyph::Corner,
            rotation: Rotation::R180,
            flip_x: false,
        },
        (Cut::Horizontal, Cut::Vertical, Offset::Odd, Offset::Even)
        | (Cut::Horizontal, Cut::Vertical, Offset::Even, Offset::Odd) => DrawExpr::Sprite {
            glyph: Glyph::Corner,
            rotation: Rotation::R270,
            flip_x: false,
        },
        (Cut::Vertical, Cut::Horizontal, Offset::Odd, Offset::Odd)
        | (Cut::Vertical, Cut::Horizontal, Offset::Even, Offset::Even) => DrawExpr::Sprite {
            glyph: Glyph::Corner,
            rotation: Rotation::R0,
            flip_x: false,
        },
        (Cut::Vertical, Cut::Horizontal, Offset::Odd, Offset::Even)
        | (Cut::Vertical, Cut::Horizontal, Offset::Even, Offset::Odd) => DrawExpr::Sprite {
            glyph: Glyph::Corner,
            rotation: Rotation::R90,
            flip_x: false,
        },
        (Cut::Horizontal, Cut::Horizontal, _, _) => DrawExpr::Sprite {
            glyph: Glyph::VerticalLine,
            rotation: Rotation::R90,
            flip_x: false,
        },
        (Cut::Vertical, Cut::Vertical, _, _) => DrawExpr::Sprite {
            glyph: Glyph::VerticalLine,
            rotation: Rotation::R0,
            flip_x: false,
        },
        (Cut::Vertical, Cut::Open, Offset::Odd, Offset::Odd) => DrawExpr::Sprite {
            glyph: Glyph::CurvedCross,
            rotation: Rotation::R180,
            flip_x: false,
        },
        (Cut::Vertical, Cut::Open, Offset::Even, Offset::Even) => DrawExpr::Sprite {
            glyph: Glyph::CurvedCrossUnder,
            rotation: Rotation::R0,
            flip_x: false,
        },
        (Cut::Vertical, Cut::Open, Offset::Odd, Offset::Even) => DrawExpr::Sprite {
            glyph: Glyph::CurvedCrossUnder,
            rotation: Rotation::R0,
            flip_x: true,
        },
        (Cut::Vertical, Cut::Open, Offset::Even, Offset::Odd) => DrawExpr::Sprite {
            glyph: Glyph::CurvedCross,
            rotation: Rotation::R180,
            flip_x: true,
        },
        (Cut::Open, Cut::Vertical, Offset::Odd, Offset::Odd) => DrawExpr::Sprite {
            glyph: Glyph::CurvedCrossUnder,
            rotation: Rotation::R180,
            flip_x: false,
        },
        (Cut::Open, Cut::Vertical, Offset::Odd, Offset::Even) => DrawExpr::Sprite {
            glyph: Glyph::CurvedCross,
            rotation: Rotation::R0,
            flip_x: true,
        },
        (Cut::Open, Cut::Vertical, Offset::Even, Offset::Even) => DrawExpr::Sprite {
            glyph: Glyph::CurvedCross,
            rotation: Rotation::R0,
            flip_x: false,
        },
        (Cut::Open, Cut::Vertical, Offset::Even, Offset::Odd) => DrawExpr::Sprite {
            glyph: Glyph::CurvedCrossUnder,
            rotation: Rotation::R180,
            flip_x: true,
        },
        (Cut::Horizontal, Cut::Open, Offset::Odd, Offset::Odd) => DrawExpr::Sprite {
            glyph: Glyph::CurvedCross,
            rotation: Rotation::R270,
            flip_x: true,
        },
        (Cut::Horizontal, Cut::Open, Offset::Odd, Offset::Even) => DrawExpr::Sprite {
            glyph: Glyph::CurvedCrossUnder,
            rotation: Rotation::R270,
            flip_x: false,
        },
        (Cut::Horizontal, Cut::Open, Offset::Even, Offset::Even) => DrawExpr::Sprite {
            glyph: Glyph::CurvedCrossUnder,
            rotation: Rotation::R90,
            flip_x: true,
        },
        (Cut::Horizontal, Cut::Open, Offset::Even, Offset::Odd) => DrawExpr::Sprite {
            glyph: Glyph::CurvedCross,
            rotation: Rotation::R90,
            flip_x: false,
        },
        (Cut::Open, Cut::Horizontal, Offset::Odd, Offset::Odd) => DrawExpr::Sprite {
            glyph: Glyph::CurvedCrossUnder,
            rotation: Rotation::R270,
            flip_x: true,
        },
        (Cut::Open, Cut::Horizontal, Offset::Odd, Offset::Even) => DrawExpr::Sprite {
            glyph: Glyph::CurvedCross,
            rotation: Rotation::R270,
            flip_x: false,
        },
        (Cut::Open, Cut::Horizontal, Offset::Even, Offset::Even) => DrawExpr::Sprite {
            glyph: Glyph::CurvedCross,
            rotation: Rotation::R90,
            flip_x: true,
        },
        (Cut::Open, Cut::Horizontal, Offset::Even, Offset::Odd) => DrawExpr::Sprite {
            glyph: Glyph::CurvedCrossUnder,
            rotation: Rotation::R90,
            flip_x: false,
        },
        _ => DrawExpr::ErrorBlock,
    }
}

/// Resolve a tile classification to its draw instruction, entry for entry
/// as the table gives it.
pub fn draw_expr_for_tile(tile: Tile) -> (r: DrawExpr)
    ensures
        r == spec_draw_expr(tile),
{
    match (tile.bottom_cut, tile.top_cut, tile.row_offset, tile.col_offset) {
        (Cut::Open, Cut::Open, Offset::Even, Offset::Even) => DrawExpr::Sprite {
            glyph: Glyph::StraightCross,
            rotation: Rotation::R0,
            flip_x: false,
        },
        (Cut::Open, Cut::Open, Offset::Even, Offset::Odd) => DrawExpr::Sprite {
            glyph: Glyph::StraightCross,
            rotation: Rotation::R90,
            flip_x: false,
        },
        (Cut::Open, Cut::Open, Offset::Odd, Offset::Odd) => DrawExpr::Sprite {
            glyph: Glyph::StraightCross,
            rotation: Rotation::R180,
            flip_x: false,
        },
        (Cut::Open, Cut::Open, Offset::Odd, Offset::Even) => DrawExpr::Sprite {
            glyph: Glyph::StraightCross,
            rotation: Rotation::R270,
            flip_x: false,
        },
        (Cut::Horizontal, Cut::Vertical, Offset::Odd, Offset::Odd)
        | (Cut::Horizontal, Cut::Vertical, Offset::Even, Offset::Even) => DrawExpr::Sprite {
            glyph: Glyph::Corner,
            rotation: Rotation::R180,
            flip_x: false,
        },
        (Cut::Horizontal, Cut::Vertical, Offset::Odd, Offset::Even)
        | (Cut::Horizontal, Cut::Vertical, Offset::Even, Offset::Odd) => DrawExpr::Sprite {
            glyph: Glyph::Corner,
            rotation: Rotation::R270,
            flip_x: false,
        },
        (Cut::Vertical, Cut::Horizontal, Offset::Odd, Offset::Odd)
        | (Cut::Vertical, Cut::Horizontal, Offset::Even, Offset::Even) => DrawExpr::Sprite {
            glyph: Glyph::Corner,
            rotation: Rotation::R0,
            flip_x: false,
        },
        (Cut::Vertical, Cut::Horizontal, Offset::Odd, Offset::Even)
        | (Cut::Vertical, Cut::Horizontal, Offset::Even, Offset::Odd) => DrawExpr::Sprite {
            glyph: Glyph::Corner,
            rotation: Rotation::R90,
            flip_x: false,
        },
        (Cut::Horizontal, Cut::Horizontal, _, _) => DrawExpr::Sprite {
            glyph: Glyph::VerticalLine,
            rotation: Rotation::R90,
            flip_x: false,
        },
        (Cut::Vertical, Cut::Vertical, _, _) => DrawExpr::Sprite {
            glyph: Glyph::VerticalLine,
            rotation: Rotation::R0,
            flip_x: false,
        },
        (Cut::Vertical, Cut::Open, Offset::Odd, Offset::Odd) => DrawExpr::Sprite {
            glyph: Glyph::CurvedCross,
            rotation: Rotation::R180,
            flip_x: false,
        },
        (Cut::Vertical, Cut::Open, Offset::Even, Offset::Even) => DrawExpr::Sprite {
            glyph: Glyph::CurvedCrossUnder,
            rotation: Rotation::R0,
            flip_x: false,
        },
        (Cut::Vertical, Cut::Open, Offset::Odd, Offset::Even) => DrawExpr::Sprite {
            glyph: Glyph::CurvedCrossUnder,
            rotation: Rotation::R0,
            flip_x: true,
        },
        (Cut::Vertical, Cut::Open, Offset::Even, Offset::Odd) => DrawExpr::Sprite {
            glyph: Glyph::CurvedCross,
            rotation: Rotation::R180,
            flip_x: true,
        },
        (Cut::Open, Cut::Vertical, Offset::Odd, Offset::Odd) => DrawExpr::Sprite {
            glyph: Glyph::CurvedCrossUnder,
            rotation: Rotation::R180,
            flip_x: false,
        },
        (Cut::Open, Cut::Vertical, Offset::Odd, Offset::Even) => DrawExpr::Sprite {
            glyph: Glyph::CurvedCross,
            rotation: Rotation::R0,
            flip_x: true,
        },
        (Cut::Open, Cut::Vertical, Offset::Even, Offset::Even) => DrawExpr::Sprite {
            glyph: Glyph::CurvedCross,
            rotation: Rotation::R0,
            flip_x: false,
        },
        (Cut::Open, Cut::Vertical, Offset::Even, Offset::Odd) => DrawExpr::Sprite {
            glyph: Glyph::CurvedCrossUnder,
            rotation: Rotation::R180,
            flip_x: true,
        },
        (Cut::Horizontal, Cut::Open, Offset::Odd, Offset::Odd) => DrawExpr::Sprite {
            glyph: Glyph::CurvedCross,
            rotation: Rotation::R270,
            flip_x: true,
        },
        (Cut::Horizontal, Cut::Open, Offset::Odd, Offset::Even) => DrawExpr::Sprite {
            glyph: Glyph::CurvedCrossUnder,
            rotation: Rotation::R270,
            flip_x: false,
        },
        (Cut::Horizontal, Cut::Open, Offset::Even, Offset::Even) => DrawExpr::Sprite {
            glyph: Glyph::CurvedCrossUnder,
            rotation: Rotation::R90,
            flip_x: true,
        },
        (Cut::Horizontal, Cut::Open, Offset::Even, Offset::Odd) => DrawExpr::Sprite {
            glyph: Glyph::CurvedCross,
            rotation: Rotation::R90,
            flip_x: false,
        },
        (Cut::Open, Cut::Horizontal, Offset::Odd, Offset::Odd) => DrawExpr::Sprite {
            glyph: Glyph::CurvedCrossUnder,
            rotation: Rotation::R270,
            flip_x: true,
        },
        (Cut::Open, Cut::Horizontal, Offset::Odd, Offset::Even) => DrawExpr::Sprite {
            glyph: Glyph::CurvedCross,
            rotation: Rotation::R270,
            flip_x: false,
        },
        (Cut::Open, Cut::Horizontal, Offset::Even, Offset::Even) => DrawExpr::Sprite {
            glyph: Glyph::CurvedCross,
            rotation: Rotation::R90,
            flip_x: true,
        },
        (Cut::Open, Cut::Horizontal, Offset::Even, Offset::Odd) => DrawExpr::Sprite {
            glyph: Glyph::CurvedCrossUnder,
            rotation: Rotation::R90,
            flip_x: false,
        },
        _ => DrawExpr::ErrorBlock,
    }
}

/// Resolver exhaustiveness: a classification reaches the error block
/// exactly when one of its cuts is `Cross` — every one of the 36 states a
/// consistent graph can produce gets a real glyph.
pub proof fn lemma_resolver_exhaustive(tile: Tile)
    ensures
        (spec_draw_expr(tile) is ErrorBlock) <==> (tile.bottom_cut is Cross
            || tile.top_cut is Cross),
{
}

} // verus!
