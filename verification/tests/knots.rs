use conbhuide::celtic::{draw_expr_for_tile, Cut, DrawExpr, Glyph, Offset, Rotation, Tile};
use conbhuide::edge::{Connection, ConnectionState, TileMatrix};

fn sprite(glyph: Glyph, rotation: Rotation, flip_x: bool) -> DrawExpr {
    DrawExpr::Sprite { glyph, rotation, flip_x }
}

#[test]
fn resolver_covers_every_cross_free_tuple() {
    let cuts = [Cut::Open, Cut::Horizontal, Cut::Vertical, Cut::Cross];
    let offsets = [Offset::Even, Offset::Odd];
    let mut defined = 0;
    let mut fallback = 0;
    for &bottom_cut in &cuts {
        for &top_cut in &cuts {
            for &row_offset in &offsets {
                for &col_offset in &offsets {
                    let tile = Tile { bottom_cut, top_cut, row_offset, col_offset };
                    let expr = draw_expr_for_tile(tile);
                    let has_cross = bottom_cut == Cut::Cross || top_cut == Cut::Cross;
                    if has_cross {
                        assert_eq!(expr, DrawExpr::ErrorBlock);
                        fallback += 1;
                    } else {
                        assert!(matches!(expr, DrawExpr::Sprite { .. }));
                        defined += 1;
                    }
                }
            }
        }
    }
    assert_eq!(defined, 36);
    assert_eq!(fallback, 28);
}

#[test]
fn resolver_table_spot_checks() {
    let t = |bottom_cut, top_cut, row_offset, col_offset| Tile {
        bottom_cut,
        top_cut,
        row_offset,
        col_offset,
    };
    // both cuts open: straight cross rotated by the parity pair
    assert_eq!(
        draw_expr_for_tile(t(Cut::Open, Cut::Open, Offset::Even, Offset::Odd)),
        sprite(Glyph::StraightCross, Rotation::R90, false)
    );
    assert_eq!(
        draw_expr_for_tile(t(Cut::Open, Cut::Open, Offset::Odd, Offset::Odd)),
        sprite(Glyph::StraightCross, Rotation::R180, false)
    );
    // matched cuts: a line glyph regardless of parity
    assert_eq!(
        draw_expr_for_tile(t(Cut::Horizontal, Cut::Horizontal, Offset::Odd, Offset::Even)),
        sprite(Glyph::VerticalLine, Rotation::R90, false)
    );
    assert_eq!(
        draw_expr_for_tile(t(Cut::Vertical, Cut::Vertical, Offset::Even, Offset::Odd)),
        sprite(Glyph::VerticalLine, Rotation::R0, false)
    );
    // opposed cuts: corners chosen by cut order and parity agreement
    assert_eq!(
        draw_expr_for_tile(t(Cut::Horizontal, Cut::Vertical, Offset::Even, Offset::Even)),
        sprite(Glyph::Corner, Rotation::R180, false)
    );
    assert_eq!(
        draw_expr_for_tile(t(Cut::Vertical, Cut::Horizontal, Offset::Even, Offset::Odd)),
        sprite(Glyph::Corner, Rotation::R90, false)
    );
    // one cut against an open half: curved crossings with mirrors
    assert_eq!(
        draw_expr_for_tile(t(Cut::Vertical, Cut::Open, Offset::Odd, Offset::Even)),
        sprite(Glyph::CurvedCrossUnder, Rotation::R0, true)
    );
    assert_eq!(
        draw_expr_for_tile(t(Cut::Open, Cut::Horizontal, Offset::Even, Offset::Even)),
        sprite(Glyph::CurvedCross, Rotation::R90, true)
    );
}

#[test]
fn atlas_locations() {
    assert_eq!(Glyph::Corner.atlas_loc(), (0, 0));
    assert_eq!(Glyph::VerticalLine.atlas_loc(), (7, 1));
    assert_eq!(Glyph::StraightCross.atlas_loc(), (0, 2));
    assert_eq!(Glyph::CurvedCross.atlas_loc(), (6, 8));
    assert_eq!(Glyph::CurvedCrossUnder.atlas_loc(), (8, 0));
}

#[test]
fn geometry_round_trip() {
    let m = TileMatrix::new(8, 8, 25);
    for y in 0..=8u16 {
        for x in 0..=4u16 {
            let (px, py) = m.loc_for_node(x, y);
            assert_eq!(m.nearest_node_to_click(px, py), (x as i32, y as i32));
        }
    }
}

#[test]
fn node_locations_follow_row_offset() {
    let m = TileMatrix::new(8, 8, 25);
    assert_eq!(m.loc_for_node(0, 0), (0, 0));
    assert_eq!(m.loc_for_node(1, 0), (50, 0));
    assert_eq!(m.loc_for_node(0, 1), (25, 25));
    assert_eq!(m.loc_for_node(1, 1), (75, 25));
    assert_eq!(m.loc_for_tile(3, 2), (75, 50));
    assert_eq!(m.tile_pos_for_click(76, 51), (3, 2));
    assert_eq!(m.spacing(), 2);
}

#[test]
fn nearest_edge_heuristic() {
    let m = TileMatrix::new(8, 8, 25);
    // a little to the right of node (0,0): the horizontal edge to (1,0)
    let c = m.nearest_edge_to_click(10, 0);
    assert_eq!((c.ax, c.ay, c.bx, c.by), (0, 0, 1, 0));
    // straight below node (1,0): the vertical edge down to (1,2)
    let c = m.nearest_edge_to_click(50, 10);
    assert_eq!((c.ax, c.ay, c.bx, c.by), (1, 0, 1, 2));
}

#[test]
fn connection_symmetry() {
    let mut m = TileMatrix::new(8, 8, 25);
    let c = Connection { ax: 0, ay: 0, bx: 0, by: 2 };
    let r = c.reversed();
    assert_eq!(m.toggle(c), ConnectionState::Added);
    assert!(m.contains(c));
    assert!(m.contains(r));
    // a second toggle, through the reversed ordering, restores the graph
    assert_eq!(m.toggle(r), ConnectionState::Removed);
    assert!(!m.contains(c));
    assert!(!m.contains(r));
    assert_eq!(m.edge_count(), 0);
}

#[test]
fn classifier_total_on_ten_by_ten() {
    let mut m = TileMatrix::new(10, 10, 25);
    m.toggle(Connection { ax: 0, ay: 0, bx: 0, by: 2 });
    m.toggle(Connection { ax: 1, ay: 1, bx: 2, by: 1 });
    m.toggle(Connection { ax: 2, ay: 2, bx: 2, by: 4 });
    for y in 0..10u16 {
        for x in 0..10u16 {
            let tile = m.tile_for_pos(x, y);
            assert!(matches!(
                tile.bottom_cut,
                Cut::Open | Cut::Horizontal | Cut::Vertical | Cut::Cross
            ));
            assert!(matches!(
                tile.top_cut,
                Cut::Open | Cut::Horizontal | Cut::Vertical | Cut::Cross
            ));
        }
    }
}

#[test]
fn empty_graph_origin_tile() {
    let m = TileMatrix::new(4, 4, 25);
    let tile = m.tile_for_pos(0, 0);
    assert_eq!(
        tile,
        Tile {
            bottom_cut: Cut::Open,
            top_cut: Cut::Open,
            row_offset: Offset::Even,
            col_offset: Offset::Even,
        }
    );
    assert_eq!(
        draw_expr_for_tile(tile),
        sprite(Glyph::StraightCross, Rotation::R0, false)
    );
}

#[test]
fn vertical_connection_cuts_origin_tile() {
    let mut m = TileMatrix::new(4, 4, 25);
    m.toggle(Connection { ax: 0, ay: 0, bx: 0, by: 2 });
    let tile = m.tile_for_pos(0, 0);
    assert_eq!(tile.bottom_cut, Cut::Vertical);
    assert_eq!(tile.top_cut, Cut::Open);
    assert_eq!(tile.row_offset, Offset::Even);
    assert_eq!(tile.col_offset, Offset::Even);
    assert_eq!(
        draw_expr_for_tile(tile),
        sprite(Glyph::CurvedCrossUnder, Rotation::R0, false)
    );
}

#[test]
fn click_outside_grid_is_a_no_op() {
    // the rendered grid is 100 by 100 pixels
    let mut m = TileMatrix::new(4, 4, 25);
    assert_eq!(m.flip_edge(5000, 5000), None);
    assert_eq!(m.flip_edge(100, 0), None);
    assert_eq!(m.flip_edge(0, 100), None);
    assert_eq!(m.edge_count(), 0);
    // the same click inside the grid does toggle a connection
    assert_eq!(m.flip_edge(10, 0), Some(ConnectionState::Added));
    assert_eq!(m.edge_count(), 1);
    let c = m.edge_at(0);
    assert_eq!((c.ax, c.ay, c.bx, c.by), (0, 0, 1, 0));
    assert_eq!(m.flip_edge(10, 0), Some(ConnectionState::Removed));
    assert_eq!(m.edge_count(), 0);
}
