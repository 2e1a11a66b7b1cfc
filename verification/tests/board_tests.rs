use crab_sweeper::board::ConfigurationError;
use crab_sweeper::board::FlagMarker;
use crab_sweeper::board::GameBoard;

fn layout(width: u16, height: u16, mine_cells: &[usize]) -> GameBoard {
    let size = (width as usize) * (height as usize);
    let mut mines = vec![false; size];
    for &i in mine_cells {
        mines[i] = true;
    }
    GameBoard::from_mine_layout(width, height, 10, &mines).unwrap()
}

#[test]
fn generation_is_deterministic() {
    let a = GameBoard::new(10, 10, 5, 0xC0FFEE).unwrap();
    let b = GameBoard::new(10, 10, 5, 0xC0FFEE).unwrap();
    assert_eq!(a.is_crab, b.is_crab);
    assert_eq!(a.adjacency, b.adjacency);
    assert!(!a.game_over && !a.win);
    for i in 0..100 {
        assert!(!a.is_uncovered[i]);
        assert_eq!(a.flag_marker[i], FlagMarker::Clear);
    }
}

#[test]
fn denominator_one_fills_the_board_with_mines() {
    // Every draw from a one-element range is zero, so every cell is a mine.
    let b = GameBoard::new(4, 3, 1, 99).unwrap();
    assert_eq!(b.num_crabs(), 12);
}

#[test]
fn configuration_errors() {
    assert_eq!(
        GameBoard::new(0, 10, 5, 1).unwrap_err(),
        ConfigurationError::DimensionsOutOfRange
    );
    assert_eq!(
        GameBoard::new(10, 16, 5, 1).unwrap_err(),
        ConfigurationError::DimensionsOutOfRange
    );
    assert_eq!(
        GameBoard::new(10, 10, 0, 1).unwrap_err(),
        ConfigurationError::DenominatorZero
    );
    assert!(GameBoard::new(15, 15, 1, 1).is_ok());
    assert!(GameBoard::new(1, 1, 1, 1).is_ok());
}

#[test]
fn adjacency_counts_are_exact() {
    // One mine in the middle of a 3x3 board: every other cell touches it
    // exactly once, and the mine cell itself touches no mine.
    let b = layout(3, 3, &[4]);
    for i in 0..9 {
        if i == 4 {
            assert_eq!(b.adjacency[i], 0);
        } else {
            assert_eq!(b.adjacency[i], 1);
        }
    }
}

#[test]
fn adjacency_at_corners_and_edges() {
    // A fully mined 3x3 board: a corner has three neighbors, an edge five,
    // the middle eight.
    let b = layout(3, 3, &[0, 1, 2, 3, 4, 5, 6, 7, 8]);
    assert_eq!(b.adjacency[0], 3);
    assert_eq!(b.adjacency[1], 5);
    assert_eq!(b.adjacency[4], 8);
    assert_eq!(b.adjacency[8], 3);
}

#[test]
fn flood_fill_covers_a_whole_empty_board() {
    let mut b = layout(3, 3, &[]);
    b.reveal_tile(4);
    for i in 0..9 {
        assert!(b.is_uncovered[i], "cell {} should be open", i);
    }
    assert!(!b.game_over && !b.win);
}

#[test]
fn flood_fill_stops_at_the_numbered_border() {
    // One mine at the left end of a 1x5 strip: counts are 0,1,0,0,0 beyond
    // the cell next to the mine.  Revealing the far end opens the
    // zero-count region and its border, but not the mine.
    let mut b = layout(5, 1, &[0]);
    assert_eq!(b.adjacency[1], 1);
    b.reveal_tile(4);
    assert!(!b.is_uncovered[0]);
    assert!(b.is_uncovered[1]);
    assert!(b.is_uncovered[2]);
    assert!(b.is_uncovered[3]);
    assert!(b.is_uncovered[4]);
    assert!(!b.game_over);
}

#[test]
fn flood_fill_on_a_numbered_cell_opens_it_alone() {
    let mut b = layout(3, 3, &[0]);
    b.reveal_tile(1);
    assert!(b.is_uncovered[1]);
    assert!(!b.is_uncovered[0]);
    assert!(!b.is_uncovered[2]);
    assert!(!b.is_uncovered[4]);
}

#[test]
fn reveal_out_of_range_is_a_no_op() {
    let mut b = layout(3, 3, &[0]);
    b.reveal_tile(9);
    for i in 0..9 {
        assert!(!b.is_uncovered[i]);
    }
    assert!(!b.game_over);
}

#[test]
fn direct_mine_hit_loses_and_shows_every_mine() {
    let mut b = layout(3, 3, &[0, 8]);
    b.reveal_tile(0);
    assert!(b.game_over);
    assert!(!b.win);
    assert!(b.is_uncovered[0]);
    assert!(b.is_uncovered[8]);
}

#[test]
fn win_on_two_by_two_with_one_mine() {
    // The example board: one mine at cell 0 of a 2x2 grid is won once cells
    // 1, 2 and 3 are open and cell 0 stays covered.
    let mut b = layout(2, 2, &[0]);
    b.reveal_tile(1);
    assert!(!b.is_win());
    b.reveal_tile(2);
    b.reveal_tile(3);
    assert!(b.is_win());
    assert!(b.game_over);
    assert!(b.win);
    assert!(!b.is_uncovered[0]);
}

#[test]
fn marker_cycles_in_three_steps() {
    let mut b = layout(2, 2, &[0]);
    b.cycle_marker(3);
    assert_eq!(b.flag_marker[3], FlagMarker::Flagged);
    b.cycle_marker(3);
    assert_eq!(b.flag_marker[3], FlagMarker::Questioned);
    b.cycle_marker(3);
    assert_eq!(b.flag_marker[3], FlagMarker::Clear);
    // An out-of-range index changes nothing.
    b.cycle_marker(4);
    for i in 0..4 {
        assert_eq!(b.flag_marker[i], FlagMarker::Clear);
    }
}

#[test]
fn counters_scan_the_whole_board() {
    let mut b = layout(3, 2, &[1, 4]);
    assert_eq!(b.num_crabs(), 2);
    assert_eq!(b.num_flags(), 0);
    b.cycle_marker(0);
    b.cycle_marker(5);
    assert_eq!(b.num_flags(), 2);
    b.cycle_marker(5);
    assert_eq!(b.num_flags(), 1);
}

#[test]
fn tile_mapping_matches_the_pixel_rectangle() {
    // A 10x10 board with 32-pixel tiles centered on (475, 250) spans the
    // rectangle from (315, 90) to (635, 410).
    let b = GameBoard::new(10, 10, 5, 7).unwrap();
    assert_eq!(b.px_left, 315);
    assert_eq!(b.px_top, 90);
    assert_eq!(b.mouse_input_to_tile_index(315, 90), Some(0));
    assert_eq!(b.mouse_input_to_tile_index(314, 90), None);
    assert_eq!(b.mouse_input_to_tile_index(347, 90), Some(1));
    assert_eq!(b.mouse_input_to_tile_index(315, 122), Some(10));
    assert_eq!(b.mouse_input_to_tile_index(634, 409), Some(99));
    assert_eq!(b.mouse_input_to_tile_index(635, 409), None);
    assert_eq!(b.mouse_input_to_tile_index(634, 410), None);
}

#[test]
fn offsets_center_the_board() {
    let (x, y) = GameBoard::get_offset(475, 250, 15, 10, 32);
    assert_eq!(x, 475 - 240);
    assert_eq!(y, 250 - 160);
}

#[test]
fn default_board_is_ten_by_ten() {
    let b = GameBoard::default(77);
    assert_eq!(b.width, 10);
    assert_eq!(b.height, 10);
    assert_eq!(b.crab_ratio, 10);
    let again = GameBoard::new(10, 10, 10, 77).unwrap();
    assert_eq!(b.is_crab, again.is_crab);
}

#[test]
fn flood_fill_covers_the_largest_all_clear_board() {
    // The largest board with no mines at all: one reveal floods all 225
    // cells and the work list never revisits a cell.
    let mut b = layout(15, 15, &[]);
    b.reveal_tile(0);
    for i in 0..225 {
        assert!(b.is_uncovered[i]);
    }
    assert!(!b.game_over);
    assert!(b.is_win());
}
