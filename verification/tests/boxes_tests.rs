use dots_and_boxes::Color;
use dots_and_boxes::Model;
use dots_and_boxes::Msg;

/// Every line and box of a fresh board is unclaimed and red moves first.
#[test]
fn new_board_is_unclaimed() {
    let m = Model::new(2, 3);
    assert_eq!(m.width(), 2);
    assert_eq!(m.height(), 3);
    assert_eq!(m.get_turn(), Color::RED);
    for i in 0..=3 {
        for j in 0..2 {
            assert!(!m.get_hline(i, j));
        }
    }
    for i in 0..3 {
        for j in 0..=2 {
            assert!(!m.get_vline(i, j));
        }
    }
    for i in 0..3 {
        for j in 0..2 {
            assert_eq!(m.get_box(i, j), None);
            assert!(!m.is_box_filled(i, j));
        }
    }
}

fn board_snapshot(m: &Model) -> (Vec<bool>, Vec<bool>, Vec<Option<Color>>, Color) {
    let mut hlines = Vec::new();
    let mut vlines = Vec::new();
    let mut boxes = Vec::new();
    for i in 0..=m.height() {
        for j in 0..m.width() {
            hlines.push(m.get_hline(i, j));
        }
    }
    for i in 0..m.height() {
        for j in 0..=m.width() {
            vlines.push(m.get_vline(i, j));
        }
    }
    for i in 0..m.height() {
        for j in 0..m.width() {
            boxes.push(m.get_box(i, j));
        }
    }
    (hlines, vlines, boxes, m.get_turn())
}

/// Re-claiming a claimed line is a no-op: box and turn state are unchanged
/// after the second call, whichever player makes it.
#[test]
fn reclaim_is_a_no_op() {
    let mut m = Model::new(2, 2);
    m.color_hline(0, 0, Color::RED);
    m.color_vline(1, 2, Color::BLUE);
    let before = board_snapshot(&m);
    m.color_hline(0, 0, Color::BLUE);
    assert_eq!(board_snapshot(&m), before);
    m.color_vline(1, 2, Color::RED);
    assert_eq!(board_snapshot(&m), before);
}

/// A claim converts only boxes adjacent to the claimed line.
#[test]
fn claim_converts_only_adjacent_boxes() {
    let mut m = Model::new(2, 2);
    // Complete box (0, 0) while box (0, 1) keeps three sides.
    m.color_hline(0, 0, Color::RED);
    m.color_hline(1, 0, Color::BLUE);
    m.color_vline(0, 0, Color::RED);
    m.color_hline(0, 1, Color::BLUE);
    m.color_hline(1, 1, Color::RED);
    // The fourth side of box (0, 0), shared with box (0, 1).
    m.color_vline(0, 1, Color::BLUE);
    assert_eq!(m.get_box(0, 0), Some(Color::BLUE));
    assert_eq!(m.get_box(0, 1), None);
    assert_eq!(m.get_box(1, 0), None);
    assert_eq!(m.get_box(1, 1), None);
}

/// The turn alternates exactly when a claim converts no box.
#[test]
fn turn_alternates_iff_no_conversion() {
    let mut m = Model::new(1, 1);
    assert_eq!(m.get_turn(), Color::RED);
    m.color_hline(0, 0, Color::RED);
    assert_eq!(m.get_turn(), Color::BLUE);
    m.color_hline(1, 0, Color::BLUE);
    assert_eq!(m.get_turn(), Color::RED);
    m.color_vline(0, 0, Color::RED);
    assert_eq!(m.get_turn(), Color::BLUE);
    // The fourth line converts the box, so the turn stays.
    m.color_vline(0, 1, Color::BLUE);
    assert_eq!(m.get_turn(), Color::BLUE);
}

/// The example game on a 1 x 1 board: top, bottom and left claims alternate
/// the turn; the right claim as blue captures the box for blue and keeps
/// the turn.
#[test]
fn unit_board_capture_game() {
    let mut m = Model::new(1, 1);
    m.color_hline(0, 0, Color::RED);
    m.color_hline(1, 0, Color::BLUE);
    m.color_vline(0, 0, Color::RED);
    assert_eq!(m.get_box(0, 0), None);
    assert_eq!(m.get_turn(), Color::BLUE);
    m.color_vline(0, 1, Color::BLUE);
    assert!(m.get_hline(0, 0));
    assert!(m.get_hline(1, 0));
    assert!(m.get_vline(0, 0));
    assert!(m.get_vline(0, 1));
    assert!(m.is_box_filled(0, 0));
    assert_eq!(m.get_box(0, 0), Some(Color::BLUE));
    assert_eq!(m.get_turn(), Color::BLUE);
}

/// A box's claim marker, once set, never changes under later claims.
#[test]
fn box_marker_is_permanent() {
    let mut m = Model::new(2, 1);
    m.color_hline(0, 0, Color::RED);
    m.color_hline(1, 0, Color::BLUE);
    m.color_vline(0, 0, Color::RED);
    m.color_vline(0, 1, Color::BLUE);
    assert_eq!(m.get_box(0, 0), Some(Color::BLUE));
    // Claim every remaining line, including re-claims of box (0, 0)'s lines.
    m.color_hline(0, 1, Color::RED);
    m.color_hline(1, 1, Color::BLUE);
    m.color_vline(0, 2, Color::RED);
    m.color_vline(0, 1, Color::RED);
    m.color_hline(0, 0, Color::BLUE);
    assert_eq!(m.get_box(0, 0), Some(Color::BLUE));
    assert_eq!(m.get_box(0, 1), Some(Color::RED));
}

/// One line may convert two boxes at once; the claimer takes both and keeps
/// the turn.
#[test]
fn shared_line_converts_two_boxes() {
    let mut m = Model::new(2, 1);
    m.color_hline(0, 0, Color::RED);
    m.color_hline(0, 1, Color::BLUE);
    m.color_hline(1, 0, Color::RED);
    m.color_hline(1, 1, Color::BLUE);
    m.color_vline(0, 0, Color::RED);
    m.color_vline(0, 2, Color::BLUE);
    assert_eq!(m.get_turn(), Color::RED);
    // The shared middle line completes both boxes.
    m.color_vline(0, 1, Color::RED);
    assert_eq!(m.get_box(0, 0), Some(Color::RED));
    assert_eq!(m.get_box(0, 1), Some(Color::RED));
    assert_eq!(m.get_turn(), Color::RED);
}

/// Claims on the outer edges touch only their single adjacent box.
#[test]
fn edge_lines_touch_one_box() {
    let mut m = Model::new(2, 2);
    // Rightmost vertical line and bottom horizontal line.
    m.color_vline(1, 2, Color::RED);
    m.color_hline(2, 1, Color::BLUE);
    assert_eq!(m.get_turn(), Color::RED);
    for i in 0..2 {
        for j in 0..2 {
            assert_eq!(m.get_box(i, j), None);
        }
    }
}

/// `update` dispatches a message to the matching claim operation and always
/// asks for a redraw.
#[test]
fn update_dispatches_messages() {
    let mut m = Model::new(2, 2);
    assert!(m.update(Msg::ColorHline(0, 1, Color::RED)));
    assert!(m.update(Msg::ColorVline(1, 2, Color::BLUE)));
    assert!(m.get_hline(0, 1));
    assert!(m.get_vline(1, 2));
    assert_eq!(m.get_turn(), Color::RED);
}

/// `next` swaps the two colours.
#[test]
fn color_next_swaps() {
    assert_eq!(Color::RED.next(), Color::BLUE);
    assert_eq!(Color::BLUE.next(), Color::RED);
}
