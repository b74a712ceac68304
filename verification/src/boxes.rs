//! The Dots-and-Boxes game-state engine.
//!
//! A board of `width` x `height` boxes. Players alternately claim unit lines
//! between neighbouring dots; completing the fourth line around a box claims
//! that box for the player, who then keeps the turn. Claiming a line that is
//! already claimed is a no-op.

use vstd::prelude::*;
use crate::grid::lemma_row_major_bound;
use crate::grid::lemma_row_major_distinct;
use crate::grid::lemma_row_count_monotone;

verus! {

/// The two players, identified by the colour they paint lines and boxes with.
#[allow(non_camel_case_types)]
#[derive(Clone, Copy, Debug, PartialEq, Eq, Structural)]
pub enum Color {
    RED,
    BLUE,
}

impl Color {
    /// The other player's colour.
    pub open spec fn flip(self) -> Color {
        match self {
            Color::RED => Color::BLUE,
            Color::BLUE => Color::RED,
        }
    }

    /// Returns the other player's colour.
    pub fn next(&self) -> (c: Color)
        ensures
            c == self.flip(),
    {
        match *self {
            Color::RED => Color::BLUE,
            Color::BLUE => Color::RED,
        }
    }
}

/// The mathematical state of a board: dimensions, the three row-major
/// ownership grids, and whose turn it is.
///
/// Horizontal lines form a `(height + 1) x width` grid, vertical lines a
/// `height x (width + 1)` grid, boxes a `height x width` grid.
#[verifier::ext_equal]
pub struct BoardView {
    pub width: int,
    pub height: int,
    pub boxes: Seq<Option<Color>>,
    pub hlines: Seq<bool>,
    pub vlines: Seq<bool>,
    pub turn: Color,
}

impl BoardView {
    pub open spec fn valid_box(self, r: int, c: int) -> bool {
        0 <= r < self.height && 0 <= c < self.width
    }

    pub open spec fn valid_hline(self, r: int, c: int) -> bool {
        0 <= r <= self.height && 0 <= c < self.width
    }

    pub open spec fn valid_vline(self, r: int, c: int) -> bool {
        0 <= r < self.height && 0 <= c <= self.width
    }

    pub open spec fn box_idx(self, r: int, c: int) -> int {
        r * self.width + c
    }

    pub open spec fn hline_idx(self, r: int, c: int) -> int {
        r * self.width + c
    }

    pub open spec fn vline_idx(self, r: int, c: int) -> int {
        r * (self.width + 1) + c
    }

    pub open spec fn box_at(self, r: int, c: int) -> Option<Color> {
        self.boxes[self.box_idx(r, c)]
    }

    pub open spec fn hline_at(self, r: int, c: int) -> bool {
        self.hlines[self.hline_idx(r, c)]
    }

    pub open spec fn vline_at(self, r: int, c: int) -> bool {
        self.vlines[self.vline_idx(r, c)]
    }

    /// Dimensions are positive and the three grids have their full size.
    pub open spec fn wf(self) -> bool {
        &&& 1 <= self.width
        &&& 1 <= self.height
        &&& self.boxes.len() == self.height * self.width
        &&& self.hlines.len() == (self.height + 1) * self.width
        &&& self.vlines.len() == self.height * (self.width + 1)
    }

    /// A box is bounded by its top and bottom horizontal lines and its left
    /// and right vertical lines.
    pub open spec fn box_complete(self, r: int, c: int) -> bool {
        &&& self.hline_at(r, c)
        &&& self.hline_at(r + 1, c)
        &&& self.vline_at(r, c)
        &&& self.vline_at(r, c + 1)
    }

    /// A box is claimed exactly when all four of its bounding lines are.
    pub open spec fn boxes_match_lines(self) -> bool {
        forall|r: int, c: int|
            self.valid_box(r, c) ==> ((#[trigger] self.box_at(r, c)) is Some <==> self.box_complete(
                r,
                c,
            ))
    }

    /// The engine's invariant: established by `Model::new`, preserved by
    /// every claim operation.
    pub open spec fn inv(self) -> bool {
        self.wf() && self.boxes_match_lines()
    }

    /// Claiming horizontal line (r, c) completes the box below it, (r, c),
    /// exactly when that box exists and its three other lines are claimed.
    pub open spec fn hline_completes_below(self, r: int, c: int) -> bool {
        &&& r < self.height
        &&& self.hline_at(r + 1, c)
        &&& self.vline_at(r, c)
        &&& self.vline_at(r, c + 1)
    }

    /// Claiming horizontal line (r, c) completes the box above it, (r - 1, c),
    /// exactly when that box exists and its three other lines are claimed.
    pub open spec fn hline_completes_above(self, r: int, c: int) -> bool {
        &&& 0 < r
        &&& self.hline_at(r - 1, c)
        &&& self.vline_at(r - 1, c)
        &&& self.vline_at(r - 1, c + 1)
    }

    /// How many boxes a claim of horizontal line (r, c) converts.
    pub open spec fn hline_conversions(self, r: int, c: int) -> int {
        (if self.hline_completes_below(r, c) {
            1int
        } else {
            0int
        }) + (if self.hline_completes_above(r, c) {
            1int
        } else {
            0int
        })
    }

    /// Claiming vertical line (r, c) completes the box to its right, (r, c),
    /// exactly when that box exists and its three other lines are claimed.
    pub open spec fn vline_completes_right(self, r: int, c: int) -> bool {
        &&& c < self.width
        &&& self.hline_at(r, c)
        &&& self.hline_at(r + 1, c)
        &&& self.vline_at(r, c + 1)
    }

    /// Claiming vertical line (r, c) completes the box to its left, (r, c - 1),
    /// exactly when that box exists and its three other lines are claimed.
    pub open spec fn vline_completes_left(self, r: int, c: int) -> bool {
        &&& 0 < c
        &&& self.hline_at(r, c - 1)
        &&& self.hline_at(r + 1, c - 1)
        &&& self.vline_at(r, c - 1)
    }

    /// How many boxes a claim of vertical line (r, c) converts.
    pub open spec fn vline_conversions(self, r: int, c: int) -> int {
        (if self.vline_completes_right(r, c) {
            1int
        } else {
            0int
        }) + (if self.vline_completes_left(r, c) {
            1int
        } else {
            0int
        })
    }

    /// The state after a claim of horizontal line (r, c) by player `p`:
    /// a no-op on an already-claimed line; otherwise the line is claimed,
    /// each adjacent box that it completes goes to `p`, and the turn passes
    /// to the other player exactly when no box was converted.
    pub open spec fn claim_hline(self, r: int, c: int, p: Color) -> BoardView {
        if self.hline_at(r, c) {
            self
        } else {
            let with_below = if self.hline_completes_below(r, c) {
                self.boxes.update(self.box_idx(r, c), Some(p))
            } else {
                self.boxes
            };
            let new_boxes = if self.hline_completes_above(r, c) {
                with_below.update(self.box_idx(r - 1, c), Some(p))
            } else {
                with_below
            };
            let new_turn = if self.hline_conversions(r, c) == 0 {
                self.turn.flip()
            } else {
                self.turn
            };
            BoardView {
                hlines: self.hlines.update(self.hline_idx(r, c), true),
                boxes: new_boxes,
                turn: new_turn,
                ..self
            }
        }
    }

    /// The state after a claim of vertical line (r, c) by player `p`;
    /// the mirror image of `claim_hline`.
    pub open spec fn claim_vline(self, r: int, c: int, p: Color) -> BoardView {
        if self.vline_at(r, c) {
            self
        } else {
            let with_right = if self.vline_completes_right(r, c) {
                self.boxes.update(self.box_idx(r, c), Some(p))
            } else {
                self.boxes
            };
            let new_boxes = if self.vline_completes_left(r, c) {
                with_right.update(self.box_idx(r, c - 1), Some(p))
            } else {
                with_right
            };
            let new_turn = if self.vline_conversions(r, c) == 0 {
                self.turn.flip()
            } else {
                self.turn
            };
            BoardView {
                vlines: self.vlines.update(self.vline_idx(r, c), true),
                boxes: new_boxes,
                turn: new_turn,
                ..self
            }
        }
    }

    /// The state after dispatching a message.
    pub open spec fn apply_msg(self, msg: Msg) -> BoardView {
        match msg {
            Msg::ColorHline(i, j, c) => self.claim_hline(i as int, j as int, c),
            Msg::ColorVline(i, j, c) => self.claim_vline(i as int, j as int, c),
        }
    }

    /// The message's coordinates are in range for its kind of line.
    pub open spec fn msg_in_range(self, msg: Msg) -> bool {
        match msg {
            Msg::ColorHline(i, j, _) => i <= self.height && j < self.width,
            Msg::ColorVline(i, j, _) => i < self.height && j <= self.width,
        }
    }
}

/// A line-claim request from the presentation layer: row, column, player.
#[derive(Clone, Copy, Debug)]
pub enum Msg {
    ColorVline(usize, usize, Color),
    ColorHline(usize, usize, Color),
}

/// A board of `width` x `height` boxes. Box corners sit at coordinates
/// [0 .. width] x [0 .. height].
pub struct Model {
    width: usize,
    height: usize,
    boxes: Vec<Option<Color>>,  // `height` x `width`, row-major
    hlines: Vec<bool>,  // `height + 1` x `width`, row-major
    vlines: Vec<bool>,  // `height` x `width + 1`, row-major
    turn: Color,
}

impl View for Model {
    type V = BoardView;

    closed spec fn view(&self) -> BoardView {
        BoardView {
            width: self.width as int,
            height: self.height as int,
            boxes: self.boxes@,
            hlines: self.hlines@,
            vlines: self.vlines@,
            turn: self.turn,
        }
    }
}

impl Model {
    /// A fresh board: every line and box unclaimed, red to move.
    pub fn new(width: usize, height: usize) -> (m: Model)
        requires
            1 <= width,
            1 <= height,
            (height + 1) * width <= usize::MAX,
            height * (width + 1) <= usize::MAX,
        ensures
            m@.inv(),
            m@.width == width,
            m@.height == height,
            m@.turn == Color::RED,
            forall|r: int, c: int| m@.valid_box(r, c) ==> (#[trigger] m@.box_at(r, c)) is None,
            forall|r: int, c: int| m@.valid_hline(r, c) ==> !(#[trigger] m@.hline_at(r, c)),
            forall|r: int, c: int| m@.valid_vline(r, c) ==> !(#[trigger] m@.vline_at(r, c)),
    {
        proof {
            lemma_row_count_monotone(height as int, height + 1, width as int);
            assert((height + 1) <= (height + 1) * width) by (nonlinear_arith)
                requires
                    1 <= width,
                    0 <= height,
            ;
            assert((width + 1) <= height * (width + 1)) by (nonlinear_arith)
                requires
                    1 <= height,
                    0 <= width,
            ;
        }
        let n_boxes: usize = height * width;
        let n_hlines: usize = (height + 1) * width;
        let n_vlines: usize = height * (width + 1);

        let mut boxes: Vec<Option<Color>> = Vec::new();
        let mut k: usize = 0;
        while k < n_boxes
            invariant
                k <= n_boxes,
                boxes@.len() == k,
                forall|t: int| 0 <= t < k ==> (#[trigger] boxes@[t]) is None,
            decreases n_boxes - k,
        {
            boxes.push(None);
            k = k + 1;
        }

        let mut hlines: Vec<bool> = Vec::new();
        let mut k: usize = 0;
        while k < n_hlines
            invariant
                k <= n_hlines,
                hlines@.len() == k,
                forall|t: int| 0 <= t < k ==> !(#[trigger] hlines@[t]),
            decreases n_hlines - k,
        {
            hlines.push(false);
            k = k + 1;
        }

        let mut vlines: Vec<bool> = Vec::new();
        let mut k: usize = 0;
        while k < n_vlines
            invariant
                k <= n_vlines,
                vlines@.len() == k,
                forall|t: int| 0 <= t < k ==> !(#[trigger] vlines@[t]),
            decreases n_vlines - k,
        {
            vlines.push(false);
            k = k + 1;
        }

        let m = Model { width, height, boxes, hlines, vlines, turn: Color::RED };
        proof {
            assert forall|r: int, c: int| m@.valid_box(r, c) implies (#[trigger] m@.box_at(r, c))
                is None by {
                lemma_row_major_bound(m@.height, m@.width, r, c);
            };
            assert forall|r: int, c: int| m@.valid_hline(r, c) implies !(#[trigger] m@.hline_at(
                r,
                c,
            )) by {
                lemma_row_major_bound(m@.height + 1, m@.width, r, c);
            };
            assert forall|r: int, c: int| m@.valid_vline(r, c) implies !(#[trigger] m@.vline_at(
                r,
                c,
            )) by {
                lemma_row_major_bound(m@.height, m@.width + 1, r, c);
            };
        }
        m
    }

    /// The board's width in boxes.
    pub fn width(&self) -> (w: usize)
        ensures
            w == self@.width,
    {
        self.width
    }

    /// The board's height in boxes.
    pub fn height(&self) -> (h: usize)
        ensures
            h == self@.height,
    {
        self.height
    }

    /// Whose turn it is.
    pub fn get_turn(&self) -> (c: Color)
        ensures
            c == self@.turn,
    {
        self.turn
    }

    /// Whether vertical line (i, j) is claimed.
    pub fn get_vline(&self, i: usize, j: usize) -> (b: bool)
        requires
            self@.wf(),
            i < self@.height,
            j <= self@.width,
        ensures
            b == self@.vline_at(i as int, j as int),
    {
        proof {
            lemma_row_major_bound(self@.height, self@.width + 1, i as int, j as int);
            lemma_row_count_monotone(1, self@.height, self@.width + 1);
        }
        let _n: usize = self.vlines.len();
        self.vlines[i * (self.width + 1) + j]
    }

    /// Whether horizontal line (i, j) is claimed.
    pub fn get_hline(&self, i: usize, j: usize) -> (b: bool)
        requires
            self@.wf(),
            i <= self@.height,
            j < self@.width,
        ensures
            b == self@.hline_at(i as int, j as int),
    {
        proof {
            lemma_row_major_bound(self@.height + 1, self@.width, i as int, j as int);
        }
        let _n: usize = self.hlines.len();
        self.hlines[i * self.width + j]
    }

    /// The claim marker of box (i, j), or `None` while it is unclaimed.
    pub fn get_box(&self, i: usize, j: usize) -> (b: Option<Color>)
        requires
            self@.wf(),
            i < self@.height,
            j < self@.width,
        ensures
            b == self@.box_at(i as int, j as int),
    {
        proof {
            lemma_row_major_bound(self@.height, self@.width, i as int, j as int);
        }
        let _n: usize = self.boxes.len();
        self.boxes[i * self.width + j]
    }

    /// Claims horizontal line (i, j) for player `c`: a no-op if the line is
    /// already claimed; otherwise each adjacent box completed by the line
    /// goes to `c`, and the turn passes exactly when no box was converted.
    pub fn color_hline(&mut self, i: usize, j: usize, c: Color)
        requires
            old(self)@.inv(),
            i <= old(self)@.height,
            j < old(self)@.width,
        ensures
            final(self)@ == old(self)@.claim_hline(i as int, j as int, c),
            final(self)@.inv(),
    {
        proof {
            lemma_row_major_bound(self@.height + 1, self@.width, i as int, j as int);
        }
        let _nh: usize = self.hlines.len();
        let idx: usize = i * self.width + j;
        if self.hlines[idx] {
            return ;
        }
        self.hlines[idx] = true;
        let ghost v0 = old(self)@;
        let below: bool = i < self.height && self.is_box_filled(i, j);
        let above: bool = i > 0 && self.is_box_filled(i - 1, j);
        proof {
            if i < self.height {
                lemma_row_major_bound(v0.height + 1, v0.width, i + 1, j as int);
                lemma_row_major_distinct(v0.width, i + 1, j as int, i as int, j as int);
            }
            if i > 0 {
                lemma_row_major_bound(v0.height + 1, v0.width, i - 1, j as int);
                lemma_row_major_distinct(v0.width, i - 1, j as int, i as int, j as int);
            }
            assert(below == v0.hline_completes_below(i as int, j as int));
            assert(above == v0.hline_completes_above(i as int, j as int));
        }
        let mut converted: usize = 0;
        if below {
            proof {
                lemma_row_major_bound(self@.height, self@.width, i as int, j as int);
            }
            let _nb: usize = self.boxes.len();
            self.boxes[i * self.width + j] = Some(c);
            converted = converted + 1;
        }
        if above {
            proof {
                lemma_row_major_bound(self@.height, self@.width, i - 1, j as int);
            }
            let _nb: usize = self.boxes.len();
            self.boxes[(i - 1) * self.width + j] = Some(c);
            converted = converted + 1;
        }
        if converted == 0 {
            self.turn = self.turn.next();
        }
        proof {
            assert(self@ =~= v0.claim_hline(i as int, j as int, c));
            lemma_claim_hline_preserves_inv(v0, i as int, j as int, c);
        }
    }

    /// Claims vertical line (i, j) for player `c`: a no-op if the line is
    /// already claimed; otherwise each adjacent box completed by the line
    /// goes to `c`, and the turn passes exactly when no box was converted.
    pub fn color_vline(&mut self, i: usize, j: usize, c: Color)
        requires
            old(self)@.inv(),
            i < old(self)@.height,
            j <= old(self)@.width,
        ensures
            final(self)@ == old(self)@.claim_vline(i as int, j as int, c),
            final(self)@.inv(),
    {
        proof {
            lemma_row_major_bound(self@.height, self@.width + 1, i as int, j as int);
            lemma_row_count_monotone(1, self@.height, self@.width + 1);
        }
        let _nv: usize = self.vlines.len();
        let idx: usize = i * (self.width + 1) + j;
        if self.vlines[idx] {
            return ;
        }
        self.vlines[idx] = true;
        let ghost v0 = old(self)@;
        let right: bool = j < self.width && self.is_box_filled(i, j);
        let left: bool = j > 0 && self.is_box_filled(i, j - 1);
        proof {
            if j < self.width {
                lemma_row_major_bound(v0.height, v0.width + 1, i as int, j + 1);
                lemma_row_major_distinct(v0.width + 1, i as int, j + 1, i as int, j as int);
            }
            if j > 0 {
                lemma_row_major_bound(v0.height, v0.width + 1, i as int, j - 1);
                lemma_row_major_distinct(v0.width + 1, i as int, j - 1, i as int, j as int);
            }
            assert(right == v0.vline_completes_right(i as int, j as int));
            assert(left == v0.vline_completes_left(i as int, j as int));
        }
        let mut converted: usize = 0;
        if right {
            proof {
                lemma_row_major_bound(self@.height, self@.width, i as int, j as int);
            }
            let _nb: usize = self.boxes.len();
            self.boxes[i * self.width + j] = Some(c);
            converted = converted + 1;
        }
        if left {
            proof {
                lemma_row_major_bound(self@.height, self@.width, i as int, j - 1);
            }
            let _nb: usize = self.boxes.len();
            self.boxes[i * self.width + (j - 1)] = Some(c);
            converted = converted + 1;
        }
        if converted == 0 {
            self.turn = self.turn.next();
        }
        proof {
            assert(self@ =~= v0.claim_vline(i as int, j as int, c));
            lemma_claim_vline_preserves_inv(v0, i as int, j as int, c);
        }
    }

    /// Dispatches a message from the presentation layer; the result says
    /// whether a redraw is due (always: every message mutates or may mutate).
    pub fn update(&mut self, msg: Msg) -> (render: bool)
        requires
            old(self)@.inv(),
            old(self)@.msg_in_range(msg),
        ensures
            final(self)@ == old(self)@.apply_msg(msg),
            final(self)@.inv(),
            render,
    {
        match msg {
            Msg::ColorHline(i, j, c) => {
                self.color_hline(i, j, c);
            },
            Msg::ColorVline(i, j, c) => {
                self.color_vline(i, j, c);
            },
        }
        true
    }

    /// Whether all four lines around box (i, j) are claimed.
    pub fn is_box_filled(&self, i: usize, j: usize) -> (b: bool)
        requires
            self@.wf(),
            i < self@.height,
            j < self@.width,
        ensures
            b == self@.box_complete(i as int, j as int),
    {
        self.get_hline(i, j) && self.get_hline(i + 1, j) && self.get_vline(i, j) && self.get_vline(
            i,
            j + 1,
        )
    }
}

/// Effect of a horizontal claim on the lines: the claimed line is claimed,
/// every other line is untouched.
proof fn lemma_claim_hline_lines(v: BoardView, r: int, c: int, p: Color)
    requires
        v.wf(),
        v.valid_hline(r, c),
    ensures
        v.claim_hline(r, c, p).width == v.width,
        v.claim_hline(r, c, p).height == v.height,
        v.claim_hline(r, c, p).vlines == v.vlines,
        v.claim_hline(r, c, p).hlines.len() == v.hlines.len(),
        v.claim_hline(r, c, p).boxes.len() == v.boxes.len(),
        forall|r2: int, c2: int|
            v.valid_hline(r2, c2) ==> #[trigger] v.claim_hline(r, c, p).hline_at(r2, c2) == (
            v.hline_at(r2, c2) || (r2 == r && c2 == c)),
        forall|r2: int, c2: int|
            v.valid_vline(r2, c2) ==> #[trigger] v.claim_hline(r, c, p).vline_at(r2, c2)
                == v.vline_at(r2, c2),
{
    let w = v.claim_hline(r, c, p);
    lemma_row_major_bound(v.height + 1, v.width, r, c);
    if !v.hline_at(r, c) {
        if v.hline_completes_below(r, c) {
            lemma_row_major_bound(v.height, v.width, r, c);
        }
        if v.hline_completes_above(r, c) {
            lemma_row_major_bound(v.height, v.width, r - 1, c);
        }
    }
    assert forall|r2: int, c2: int| v.valid_hline(r2, c2) implies #[trigger] w.hline_at(r2, c2) == (
    v.hline_at(r2, c2) || (r2 == r && c2 == c)) by {
        lemma_row_major_bound(v.height + 1, v.width, r2, c2);
        if !(r2 == r && c2 == c) {
            lemma_row_major_distinct(v.width, r2, c2, r, c);
        }
    };
}

/// Effect of a horizontal claim on the boxes: each adjacent box that the
/// newly claimed line completes goes to the claiming player, every other
/// box is untouched.
proof fn lemma_claim_hline_boxes(v: BoardView, r: int, c: int, p: Color)
    requires
        v.wf(),
        v.valid_hline(r, c),
    ensures
        forall|r2: int, c2: int|
            v.valid_box(r2, c2) ==> #[trigger] v.claim_hline(r, c, p).box_at(r2, c2) == (if !v.hline_at(r, c)
                && r2 == r && c2 == c && v.hline_completes_below(r, c) {
                Some(p)
            } else if !v.hline_at(r, c) && r2 == r - 1 && c2 == c && v.hline_completes_above(r, c) {
                Some(p)
            } else {
                v.box_at(r2, c2)
            }),
{
    let w = v.claim_hline(r, c, p);
    assert forall|r2: int, c2: int| v.valid_box(r2, c2) implies #[trigger] w.box_at(r2, c2) == (if !v.hline_at(r, c)
        && r2 == r && c2 == c && v.hline_completes_below(r, c) {
        Some(p)
    } else if !v.hline_at(r, c) && r2 == r - 1 && c2 == c && v.hline_completes_above(r, c) {
        Some(p)
    } else {
        v.box_at(r2, c2)
    }) by {
        lemma_row_major_bound(v.height, v.width, r2, c2);
        if !v.hline_at(r, c) {
            if v.hline_completes_below(r, c) {
                lemma_row_major_bound(v.height, v.width, r, c);
                if !(r2 == r && c2 == c) {
                    lemma_row_major_distinct(v.width, r2, c2, r, c);
                }
            }
            if v.hline_completes_above(r, c) {
                lemma_row_major_bound(v.height, v.width, r - 1, c);
                if !(r2 == r - 1 && c2 == c) {
                    lemma_row_major_distinct(v.width, r2, c2, r - 1, c);
                }
            }
        }
    };
}

/// A horizontal claim preserves the engine's invariant.
pub proof fn lemma_claim_hline_preserves_inv(v: BoardView, r: int, c: int, p: Color)
    requires
        v.inv(),
        v.valid_hline(r, c),
    ensures
        v.claim_hline(r, c, p).inv(),
{
    let w = v.claim_hline(r, c, p);
    lemma_claim_hline_lines(v, r, c, p);
    lemma_claim_hline_boxes(v, r, c, p);
    assert forall|r2: int, c2: int| w.valid_box(r2, c2) implies ((#[trigger] w.box_at(r2, c2))
        is Some <==> w.box_complete(r2, c2)) by {
        assert(v.box_at(r2, c2) is Some <==> v.box_complete(r2, c2));
        assert(w.hline_at(r2, c2) == (v.hline_at(r2, c2) || (r2 == r && c2 == c)));
        assert(w.hline_at(r2 + 1, c2) == (v.hline_at(r2 + 1, c2) || (r2 + 1 == r && c2 == c)));
        assert(w.vline_at(r2, c2) == v.vline_at(r2, c2));
        assert(w.vline_at(r2, c2 + 1) == v.vline_at(r2, c2 + 1));
    };
}

/// Effect of a vertical claim on the lines: the claimed line is claimed,
/// every other line is untouched.
proof fn lemma_claim_vline_lines(v: BoardView, r: int, c: int, p: Color)
    requires
        v.wf(),
        v.valid_vline(r, c),
    ensures
        v.claim_vline(r, c, p).width == v.width,
        v.claim_vline(r, c, p).height == v.height,
        v.claim_vline(r, c, p).hlines == v.hlines,
        v.claim_vline(r, c, p).vlines.len() == v.vlines.len(),
        v.claim_vline(r, c, p).boxes.len() == v.boxes.len(),
        forall|r2: int, c2: int|
            v.valid_vline(r2, c2) ==> #[trigger] v.claim_vline(r, c, p).vline_at(r2, c2) == (
            v.vline_at(r2, c2) || (r2 == r && c2 == c)),
        forall|r2: int, c2: int|
            v.valid_hline(r2, c2) ==> #[trigger] v.claim_vline(r, c, p).hline_at(r2, c2)
                == v.hline_at(r2, c2),
{
    let w = v.claim_vline(r, c, p);
    lemma_row_major_bound(v.height, v.width + 1, r, c);
    if !v.vline_at(r, c) {
        if v.vline_completes_right(r, c) {
            lemma_row_major_bound(v.height, v.width, r, c);
        }
        if v.vline_completes_left(r, c) {
            lemma_row_major_bound(v.height, v.width, r, c - 1);
        }
    }
    assert forall|r2: int, c2: int| v.valid_vline(r2, c2) implies #[trigger] w.vline_at(r2, c2) == (
    v.vline_at(r2, c2) || (r2 == r && c2 == c)) by {
        lemma_row_major_bound(v.height, v.width + 1, r2, c2);
        if !(r2 == r && c2 == c) {
            lemma_row_major_distinct(v.width + 1, r2, c2, r, c);
        }
    };
}

/// Effect of a vertical claim on the boxes: each adjacent box that the
/// newly claimed line completes goes to the claiming player, every other
/// box is untouched.
proof fn lemma_claim_vline_boxes(v: BoardView, r: int, c: int, p: Color)
    requires
        v.wf(),
        v.valid_vline(r, c),
    ensures
        forall|r2: int, c2: int|
            v.valid_box(r2, c2) ==> #[trigger] v.claim_vline(r, c, p).box_at(r2, c2) == (if !v.vline_at(r, c)
                && r2 == r && c2 == c && v.vline_completes_right(r, c) {
                Some(p)
            } else if !v.vline_at(r, c) && r2 == r && c2 == c - 1 && v.vline_completes_left(r, c) {
                Some(p)
            } else {
                v.box_at(r2, c2)
            }),
{
    let w = v.claim_vline(r, c, p);
    assert forall|r2: int, c2: int| v.valid_box(r2, c2) implies #[trigger] w.box_at(r2, c2) == (if !v.vline_at(r, c)
        && r2 == r && c2 == c && v.vline_completes_right(r, c) {
        Some(p)
    } else if !v.vline_at(r, c) && r2 == r && c2 == c - 1 && v.vline_completes_left(r, c) {
        Some(p)
    } else {
        v.box_at(r2, c2)
    }) by {
        lemma_row_major_bound(v.height, v.width, r2, c2);
        if !v.vline_at(r, c) {
            if v.vline_completes_right(r, c) {
                lemma_row_major_bound(v.height, v.width, r, c);
                if !(r2 == r && c2 == c) {
                    lemma_row_major_distinct(v.width, r2, c2, r, c);
                }
            }
            if v.vline_completes_left(r, c) {
                lemma_row_major_bound(v.height, v.width, r, c - 1);
                if !(r2 == r && c2 == c - 1) {
                    lemma_row_major_distinct(v.width, r2, c2, r, c - 1);
                }
            }
        }
    };
}

/// A vertical claim preserves the engine's invariant.
pub proof fn lemma_claim_vline_preserves_inv(v: BoardView, r: int, c: int, p: Color)
    requires
        v.inv(),
        v.valid_vline(r, c),
    ensures
        v.claim_vline(r, c, p).inv(),
{
    let w = v.claim_vline(r, c, p);
    lemma_claim_vline_lines(v, r, c, p);
    lemma_claim_vline_boxes(v, r, c, p);
    assert forall|r2: int, c2: int| w.valid_box(r2, c2) implies ((#[trigger] w.box_at(r2, c2))
        is Some <==> w.box_complete(r2, c2)) by {
        assert(v.box_at(r2, c2) is Some <==> v.box_complete(r2, c2));
        assert(w.vline_at(r2, c2) == (v.vline_at(r2, c2) || (r2 == r && c2 == c)));
        assert(w.vline_at(r2, c2 + 1) == (v.vline_at(r2, c2 + 1) || (r2 == r && c2 + 1 == c)));
        assert(w.hline_at(r2, c2) == v.hline_at(r2, c2));
        assert(w.hline_at(r2 + 1, c2) == v.hline_at(r2 + 1, c2));
    };
}

/// Claiming a line twice is the same as claiming it once: the second,
/// identical claim is a no-op, whichever player makes it, and leaves box
/// and turn state unchanged.
pub proof fn lemma_claim_hline_idempotent(v: BoardView, r: int, c: int, p: Color, p2: Color)
    requires
        v.wf(),
        v.valid_hline(r, c),
    ensures
        v.claim_hline(r, c, p).claim_hline(r, c, p2) == v.claim_hline(r, c, p),
{
    lemma_claim_hline_lines(v, r, c, p);
    assert(v.claim_hline(r, c, p).hline_at(r, c));
}

/// Claiming a line twice is the same as claiming it once; the vertical
/// mirror of `lemma_claim_hline_idempotent`.
pub proof fn lemma_claim_vline_idempotent(v: BoardView, r: int, c: int, p: Color, p2: Color)
    requires
        v.wf(),
        v.valid_vline(r, c),
    ensures
        v.claim_vline(r, c, p).claim_vline(r, c, p2) == v.claim_vline(r, c, p),
{
    lemma_claim_vline_lines(v, r, c, p);
    assert(v.claim_vline(r, c, p).vline_at(r, c));
}

/// A single horizontal claim changes at most the two boxes adjacent to the
/// claimed line, and any box it changes goes from unclaimed to claimed by
/// the claiming player.
pub proof fn lemma_claim_hline_converts_adjacent(
    v: BoardView,
    r: int,
    c: int,
    p: Color,
    r2: int,
    c2: int,
)
    requires
        v.inv(),
        v.valid_hline(r, c),
        v.valid_box(r2, c2),
    ensures
        v.claim_hline(r, c, p).box_at(r2, c2) != v.box_at(r2, c2) ==> {
            &&& (r2 == r && c2 == c) || (r2 == r - 1 && c2 == c)
            &&& v.box_at(r2, c2) is None
            &&& v.claim_hline(r, c, p).box_at(r2, c2) == Some(p)
        },
{
    lemma_claim_hline_boxes(v, r, c, p);
    assert(v.box_at(r2, c2) is Some <==> v.box_complete(r2, c2));
}

/// A single vertical claim changes at most the two boxes adjacent to the
/// claimed line, and any box it changes goes from unclaimed to claimed by
/// the claiming player.
pub proof fn lemma_claim_vline_converts_adjacent(
    v: BoardView,
    r: int,
    c: int,
    p: Color,
    r2: int,
    c2: int,
)
    requires
        v.inv(),
        v.valid_vline(r, c),
        v.valid_box(r2, c2),
    ensures
        v.claim_vline(r, c, p).box_at(r2, c2) != v.box_at(r2, c2) ==> {
            &&& (r2 == r && c2 == c) || (r2 == r && c2 == c - 1)
            &&& v.box_at(r2, c2) is None
            &&& v.claim_vline(r, c, p).box_at(r2, c2) == Some(p)
        },
{
    lemma_claim_vline_boxes(v, r, c, p);
    assert(v.box_at(r2, c2) is Some <==> v.box_complete(r2, c2));
}

/// After a claim of an unclaimed horizontal line the turn passes to the
/// other player exactly when the claim converts no box, and stays with the
/// claiming player exactly when some box goes from unclaimed to claimed.
pub proof fn lemma_claim_hline_turn(v: BoardView, r: int, c: int, p: Color)
    requires
        v.inv(),
        v.valid_hline(r, c),
        !v.hline_at(r, c),
    ensures
        v.claim_hline(r, c, p).turn == (if v.hline_conversions(r, c) == 0 {
            v.turn.flip()
        } else {
            v.turn
        }),
        (v.claim_hline(r, c, p).turn != v.turn) <==> v.hline_conversions(r, c) == 0,
        (v.claim_hline(r, c, p).turn == v.turn) <==> (exists|r2: int, c2: int|
            v.valid_box(r2, c2) && (#[trigger] v.claim_hline(r, c, p).box_at(r2, c2)) != v.box_at(
                r2,
                c2,
            )),
{
    assert(v.turn.flip() != v.turn);
    lemma_claim_hline_boxes(v, r, c, p);
    if v.hline_completes_below(r, c) {
        assert(v.box_at(r, c) is Some <==> v.box_complete(r, c));
        assert(v.valid_box(r, c) && v.claim_hline(r, c, p).box_at(r, c) != v.box_at(r, c));
    } else if v.hline_completes_above(r, c) {
        assert(v.box_at(r - 1, c) is Some <==> v.box_complete(r - 1, c));
        assert(v.valid_box(r - 1, c) && v.claim_hline(r, c, p).box_at(r - 1, c) != v.box_at(
            r - 1,
            c,
        ));
    }
}

/// After a claim of an unclaimed vertical line the turn passes to the
/// other player exactly when the claim converts no box, and stays with the
/// claiming player exactly when some box goes from unclaimed to claimed.
pub proof fn lemma_claim_vline_turn(v: BoardView, r: int, c: int, p: Color)
    requires
        v.inv(),
        v.valid_vline(r, c),
        !v.vline_at(r, c),
    ensures
        v.claim_vline(r, c, p).turn == (if v.vline_conversions(r, c) == 0 {
            v.turn.flip()
        } else {
            v.turn
        }),
        (v.claim_vline(r, c, p).turn != v.turn) <==> v.vline_conversions(r, c) == 0,
        (v.claim_vline(r, c, p).turn == v.turn) <==> (exists|r2: int, c2: int|
            v.valid_box(r2, c2) && (#[trigger] v.claim_vline(r, c, p).box_at(r2, c2)) != v.box_at(
                r2,
                c2,
            )),
{
    assert(v.turn.flip() != v.turn);
    lemma_claim_vline_boxes(v, r, c, p);
    if v.vline_completes_right(r, c) {
        assert(v.box_at(r, c) is Some <==> v.box_complete(r, c));
        assert(v.valid_box(r, c) && v.claim_vline(r, c, p).box_at(r, c) != v.box_at(r, c));
    } else if v.vline_completes_left(r, c) {
        assert(v.box_at(r, c - 1) is Some <==> v.box_complete(r, c - 1));
        assert(v.valid_box(r, c - 1) && v.claim_vline(r, c, p).box_at(r, c - 1) != v.box_at(
            r,
            c - 1,
        ));
    }
}

/// A box's claim marker, once set, is never changed by a later horizontal
/// claim.
pub proof fn lemma_claimed_box_permanent_hline(
    v: BoardView,
    r: int,
    c: int,
    p: Color,
    r2: int,
    c2: int,
)
    requires
        v.inv(),
        v.valid_hline(r, c),
        v.valid_box(r2, c2),
        v.box_at(r2, c2) is Some,
    ensures
        v.claim_hline(r, c, p).box_at(r2, c2) == v.box_at(r2, c2),
{
    lemma_claim_hline_boxes(v, r, c, p);
    assert(v.box_complete(r2, c2));
}

/// A box's claim marker, once set, is invariant under every later
/// operation: queries do not mutate, and no dispatched claim changes it.
pub proof fn lemma_claimed_box_permanent(v: BoardView, msg: Msg, r2: int, c2: int)
    requires
        v.inv(),
        v.msg_in_range(msg),
        v.valid_box(r2, c2),
        v.box_at(r2, c2) is Some,
    ensures
        v.apply_msg(msg).box_at(r2, c2) == v.box_at(r2, c2),
{
    match msg {
        Msg::ColorHline(i, j, c) => {
            lemma_claimed_box_permanent_hline(v, i as int, j as int, c, r2, c2);
        },
        Msg::ColorVline(i, j, c) => {
            lemma_claimed_box_permanent_vline(v, i as int, j as int, c, r2, c2);
        },
    }
}

/// A box's claim marker, once set, is never changed by a later vertical
/// claim.
pub proof fn lemma_claimed_box_permanent_vline(
    v: BoardView,
    r: int,
    c: int,
    p: Color,
    r2: int,
    c2: int,
)
    requires
        v.inv(),
        v.valid_vline(r, c),
        v.valid_box(r2, c2),
        v.box_at(r2, c2) is Some,
    ensures
        v.claim_vline(r, c, p).box_at(r2, c2) == v.box_at(r2, c2),
{
    lemma_claim_vline_boxes(v, r, c, p);
    assert(v.box_complete(r2, c2));
}

} // verus!
