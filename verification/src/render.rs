//! Rendering a grid into the plain text shown on the display surface:
//! one full-block glyph per live cell, a blank for a dead cell or for a
//! character cell outside the grid's covered region, rows separated by
//! newlines.

use crate::engine::flat_index;
use vstd::prelude::*;
use vstd::string::StringExecFns;

verus! {

/// The glyph emitted for a live cell: a full block.
pub const ALIVE_GLYPH: char = '\u{2588}';

/// The glyph emitted for a dead cell or outside the grid.
pub const DEAD_GLYPH: char = ' ';

/// The glyph shown at character cell `(row, col)` of the display
/// surface: a full block over a live grid cell, a blank over a dead
/// one or outside the grid's covered region.
pub open spec fn glyph_at(g: Seq<bool>, width: int, height: int, row: int, col: int) -> char {
    if row < height && col < width && g[flat_index(row, col, width)] {
        ALIVE_GLYPH
    } else {
        DEAD_GLYPH
    }
}

/// One rendered row of the display surface, `area_width` glyphs wide.
pub open spec fn row_chars(
    g: Seq<bool>,
    width: int,
    height: int,
    area_width: int,
    row: int,
) -> Seq<char> {
    Seq::new(area_width as nat, |col: int| glyph_at(g, width, height, row, col))
}

/// The first `rows` rendered rows, each followed by a newline.
pub open spec fn rows_with_breaks(
    g: Seq<bool>,
    width: int,
    height: int,
    area_width: int,
    rows: int,
) -> Seq<char>
    decreases rows,
{
    if rows <= 0 {
        Seq::empty()
    } else {
        rows_with_breaks(g, width, height, area_width, rows - 1) + row_chars(
            g,
            width,
            height,
            area_width,
            rows - 1,
        ) + seq!['\n']
    }
}

/// The whole rendered display surface: every row of the visible area,
/// with a newline between consecutive rows and none after the last.
pub open spec fn render_spec(
    g: Seq<bool>,
    width: int,
    height: int,
    area_width: int,
    area_height: int,
) -> Seq<char> {
    if area_height <= 0 {
        Seq::empty()
    } else {
        rows_with_breaks(g, width, height, area_width, area_height - 1) + row_chars(
            g,
            width,
            height,
            area_width,
            area_height - 1,
        )
    }
}

/// Renders the grid into the text for an `area_width` by `area_height`
/// display surface.
#[verifier::loop_isolation(false)]
pub fn render_content(
    grid: &[bool],
    width: usize,
    height: usize,
    area_width: usize,
    area_height: usize,
) -> (s: String)
    requires
        width * height <= usize::MAX,
        grid@.len() == width * height,
    ensures
        s@ == render_spec(
            grid@,
            width as int,
            height as int,
            area_width as int,
            area_height as int,
        ),
{
    let ghost g = grid@;
    let ghost w = width as int;
    let ghost h = height as int;
    let ghost aw = area_width as int;
    let ghost ah = area_height as int;
    let mut s = String::new();
    let mut row: usize = 0;
    while row < area_height
        invariant
            row <= area_height,
            row < area_height ==> s@ == rows_with_breaks(g, w, h, aw, row as int),
            row == area_height ==> s@ == render_spec(g, w, h, aw, ah),
        decreases area_height - row,
    {
        let ghost base = s@;
        let mut col: usize = 0;
        while col < area_width
            invariant
                col <= area_width,
                row < area_height,
                s@ == base + row_chars(g, w, h, aw, row as int).subrange(0, col as int),
            decreases area_width - col,
        {
            let alive: bool = if row < height && col < width {
                proof {
                    assert(row * width + col < width * height) by (nonlinear_arith)
                        requires
                            0 <= row < height,
                            0 <= col < width,
                    ;
                }
                grid[crate::engine::pos(row, col, width)]
            } else {
                false
            };
            if alive {
                s.append("\u{2588}");
            } else {
                s.append(" ");
            }
            proof {
                reveal_strlit("\u{2588}");
                reveal_strlit(" ");
                let rc = row_chars(g, w, h, aw, row as int);
                assert(rc[col as int] == glyph_at(g, w, h, row as int, col as int));
                assert(rc.subrange(0, col + 1) =~= rc.subrange(0, col as int) + seq![
                    rc[col as int],
                ]);
            }
            col += 1;
        }
        proof {
            let rc = row_chars(g, w, h, aw, row as int);
            assert(rc.subrange(0, aw) =~= rc);
        }
        if row + 1 < area_height {
            s.append("\n");
            proof {
                reveal_strlit("\n");
                assert(s@ =~= rows_with_breaks(g, w, h, aw, row + 1));
            }
        } else {
            proof {
                assert(s@ =~= render_spec(g, w, h, aw, ah));
            }
        }
        row += 1;
    }
    s
}

} // verus!
