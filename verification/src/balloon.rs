//! Balloon geometry: how wide a balloon is, where its pointer attaches, how
//! far it may move left, and which columns of the canvas it covers.

use vstd::prelude::*;

use crate::canvas::{
    grid_cols, grid_get, grid_init, grid_push_row, grid_rows, grid_set, grid_wf,
};
use crate::error::LayoutError;
use crate::placeholder::{Color, PlaceHolder};
use crate::round::{round_up, Round};
use crate::template::{
    blank, breadth, extend_run, lemma_overlay_onto_blank, overlay_of, repeat, run, stamped,
    well_formed, Template,
};

verus! {

/// The distance in columns between the pointers of two neighbouring slots.
pub const PITCH: usize = 9;

/// The column of the pointer of slot 0.
pub const OFFSET: usize = 16;

/// Balloon interiors grow in steps of this many columns.
pub const STEP: usize = 3;

/// The longest text, in characters, whose balloon has all its columns
/// within `usize`: a balloon starts at column 222 at most, and is up to six
/// columns wider than its text.
pub open spec fn text_limit() -> nat {
    (usize::MAX - 228) as nat
}

/// The highest row whose height is within `usize`.
pub open spec fn row_limit() -> nat {
    ((usize::MAX - 3) / 3) as nat
}

/// The width of a balloon for a text of `len` characters: the text rounded
/// up to a multiple of three, two walls, and a column of padding on each side.
pub open spec fn width_of(len: nat) -> nat {
    (round_up(len as int, STEP as int) + 4) as nat
}

/// The column at which the pointer of `slot` meets the panel.
pub open spec fn arrow_of(slot: nat) -> nat {
    (slot * PITCH + OFFSET) as nat
}

/// How many pitches a balloon may move left: one per slot up to its own,
/// and no more than its width holds.
pub open spec fn max_shift_of(len: nat, slot: nat) -> nat {
    if slot + 1 <= width_of(len) / (PITCH as nat) {
        slot + 1
    } else {
        width_of(len) / (PITCH as nat)
    }
}

/// What a `ProtoBalloon` stands for.
pub ghost struct Label {
    pub color: Color,
    pub text: Seq<char>,
    pub slot: nat,
}

impl Label {
    /// The number of characters of the text.
    pub open spec fn inner_width(self) -> nat {
        self.text.len()
    }

    /// The width of the balloon.
    pub open spec fn width(self) -> nat {
        width_of(self.text.len())
    }

    /// The columns between the walls that the text leaves free.
    pub open spec fn padding(self) -> nat {
        (self.width() - self.inner_width() - 2) as nat
    }

    /// The half of the padding left of the text, rounded down.
    pub open spec fn left_padding(self) -> nat {
        self.padding() / 2
    }

    /// The rest of the padding, right of the text.
    pub open spec fn right_padding(self) -> nat {
        (self.padding() - self.left_padding()) as nat
    }

    /// The column at which the pointer meets the panel.
    pub open spec fn arrow(self) -> nat {
        arrow_of(self.slot)
    }

    /// The furthest that the balloon may move left.
    pub open spec fn max_shift(self) -> nat {
        max_shift_of(self.text.len(), self.slot)
    }

    /// The slot is one of the panel's, and the text is short enough for the
    /// machine.
    pub open spec fn valid(self) -> bool {
        self.slot <= Balloon::RANGE && self.text.len() <= text_limit()
    }
}

/// What a `Balloon` stands for: a label at a row and a shift.
pub ghost struct Placement {
    pub label: Label,
    pub row: nat,
    pub shift: nat,
}

impl Placement {
    /// The column of the left wall.
    pub open spec fn x(self) -> int {
        self.label.arrow() - self.shift * PITCH - 1
    }

    /// The number of pointer rows below the balloon.
    pub open spec fn y(self) -> nat {
        self.row * 3
    }

    /// The number of rows of the drawing.
    pub open spec fn height(self) -> nat {
        self.y() + 3
    }

    /// The first column of the balloon.
    pub open spec fn start(self) -> int {
        self.x()
    }

    /// The column right after the right wall.
    pub open spec fn end(self) -> int {
        self.x() + self.label.width()
    }

    /// Whether two balloons would touch: the one that starts further left
    /// ends at or after the start of the other.
    pub open spec fn overlaps(self, other: Placement) -> bool {
        if self.x() < other.x() {
            self.end() >= other.start()
        } else {
            other.end() >= self.start()
        }
    }

    /// The label is valid, the shift is within what the label allows, and
    /// the row is low enough for the machine.
    pub open spec fn valid(self) -> bool {
        &&& self.label.valid()
        &&& self.shift <= self.label.max_shift()
        &&& self.row <= row_limit()
    }

    /// Whether both columns of the pointer lie below the bottom wall, between
    /// the corners.
    pub open spec fn anchored(self) -> bool {
        self.shift * PITCH + 3 <= self.label.width()
    }
}

/// The cell of one character of a text.
pub open spec fn text_cell(c: char, color: Color) -> PlaceHolder {
    PlaceHolder::Text(c, color)
}

/// The cells of a text: each character in the colour of its group.
pub open spec fn text_cells(text: Seq<char>, color: Color) -> Seq<PlaceHolder> {
    Seq::new(text.len(), |i: int| text_cell(text[i], color))
}

/// A bottom wall with the pointer let into it at `arrow`: a left and a right
/// transition. The right one is an edge where the wall has a corner at
/// `arrow`.
pub open spec fn with_pointer(wall: Seq<PlaceHolder>, arrow: int) -> Seq<PlaceHolder> {
    let right = if wall[arrow] == PlaceHolder::SouthWest || wall[arrow] == PlaceHolder::SouthEast {
        PlaceHolder::TransitionRightEdge
    } else {
        PlaceHolder::TransitionRight
    };
    wall.update(arrow, PlaceHolder::TransitionLeft).update(arrow + 1, right)
}

impl Placement {
    /// The top wall, behind the empty space left of the balloon.
    pub open spec fn top_row(self) -> Seq<PlaceHolder> {
        run(PlaceHolder::Empty, self.x() as nat) + seq![PlaceHolder::NorthWest] + run(
            PlaceHolder::North,
            (self.label.width() - 2) as nat,
        ) + seq![PlaceHolder::NorthEast]
    }

    /// The text between its padding and the side walls.
    pub open spec fn text_row(self) -> Seq<PlaceHolder> {
        run(PlaceHolder::Empty, self.x() as nat) + seq![PlaceHolder::West] + run(
            PlaceHolder::Padding,
            self.label.left_padding(),
        ) + text_cells(self.label.text, self.label.color) + run(
            PlaceHolder::Padding,
            self.label.right_padding(),
        ) + seq![PlaceHolder::East]
    }

    /// The bottom wall before the pointer is let into it.
    pub open spec fn bottom_wall(self) -> Seq<PlaceHolder> {
        run(PlaceHolder::Empty, self.x() as nat) + seq![PlaceHolder::SouthWest] + run(
            PlaceHolder::South,
            (self.label.width() - 2) as nat,
        ) + seq![PlaceHolder::SouthEast]
    }

    /// The bottom wall with the pointer.
    pub open spec fn bottom_row(self) -> Seq<PlaceHolder> {
        with_pointer(self.bottom_wall(), self.label.arrow() as int)
    }

    /// One row of the pointer shaft.
    pub open spec fn shaft_row(self) -> Seq<PlaceHolder> {
        run(PlaceHolder::Empty, self.label.arrow()) + seq![
            PlaceHolder::ArrowLeft,
            PlaceHolder::ArrowRight,
        ] + run(PlaceHolder::Empty, (self.end() - self.label.arrow() - 2) as nat)
    }

    /// The balloon drawn on a canvas of its own: the three rows of the
    /// bubble, and below them three rows of pointer shaft for each row that
    /// the balloon is stacked above the first.
    pub open spec fn rendered(self) -> Seq<Seq<PlaceHolder>> {
        seq![self.top_row(), self.text_row(), self.bottom_row()] + Seq::new(
            self.y(),
            |i: int| self.shaft_row(),
        )
    }
}

/// A text, its colour and the slot it points at.
#[derive(Debug, PartialEq, Eq)]
pub struct ProtoBalloon {
    color: Color,
    text: String,
    slot: usize,
}

/// A balloon at its place: the row it is stacked in and how far it was
/// moved left.
#[derive(Debug, PartialEq, Eq)]
pub struct Balloon {
    proto: ProtoBalloon,
    row: usize,
    shift: usize,
}

impl View for ProtoBalloon {
    type V = Label;

    closed spec fn view(&self) -> Label {
        Label { color: self.color, text: self.text@, slot: self.slot as nat }
    }
}

impl View for Balloon {
    type V = Placement;

    closed spec fn view(&self) -> Placement {
        Placement { label: self.proto@, row: self.row as nat, shift: self.shift as nat }
    }
}

/// The number of characters of a text.
pub fn inner_width(text: &str) -> (n: usize)
    ensures
        n == text@.len(),
{
    text.unicode_len()
}

/// The width of the balloon that holds `text`.
pub fn width(text: &str) -> (w: usize)
    requires
        text@.len() + 6 <= usize::MAX,
    ensures
        w == width_of(text@.len()),
{
    let inner: usize = inner_width(text);
    proof {
        lemma_width_bounds(inner as nat);
    }
    inner.up(STEP) + 4
}

/// The furthest that the balloon of `text` at `slot` may move left.
pub fn max_shift(text: &str, slot: usize) -> (s: usize)
    requires
        text@.len() + 6 <= usize::MAX,
    ensures
        s == max_shift_of(text@.len(), slot as nat),
{
    let by_width: usize = width(text) / PITCH;
    if slot < by_width {
        slot + 1
    } else {
        by_width
    }
}

impl ProtoBalloon {
    /// Every label is valid.
    #[verifier::type_invariant]
    spec fn inv(&self) -> bool {
        self@.valid()
    }

    /// The number of characters of the text.
    pub fn inner_width(&self) -> (n: usize)
        ensures
            n == self@.inner_width(),
    {
        inner_width(self.text.as_str())
    }

    /// The width of the balloon.
    pub fn width(&self) -> (w: usize)
        ensures
            w == self@.width(),
            self@.valid(),
    {
        proof {
            use_type_invariant(self);
        }
        width(self.text.as_str())
    }

    /// The columns between the walls that the text leaves free.
    pub fn padding(&self) -> (p: usize)
        ensures
            p == self@.padding(),
    {
        proof {
            lemma_width_bounds(self@.text.len());
        }
        self.width() - self.inner_width() - 2
    }

    /// The half of the padding left of the text, rounded down.
    pub fn left_padding(&self) -> (p: usize)
        ensures
            p == self@.left_padding(),
    {
        self.padding() / 2
    }

    /// The rest of the padding, right of the text.
    pub fn right_padding(&self) -> (p: usize)
        ensures
            p == self@.right_padding(),
    {
        self.padding() - self.left_padding()
    }

    /// The column at which the pointer meets the panel.
    pub fn arrow(&self) -> (a: usize)
        ensures
            a == self@.arrow(),
            self@.valid(),
    {
        proof {
            use_type_invariant(self);
        }
        self.slot * PITCH + OFFSET
    }

    /// The furthest that the balloon may move left.
    pub fn max_shift(&self) -> (s: usize)
        ensures
            s == self@.max_shift(),
            self@.valid(),
    {
        proof {
            use_type_invariant(self);
        }
        max_shift(self.text.as_str(), self.slot)
    }

    /// The text of the label.
    pub fn text(&self) -> (t: &str)
        ensures
            t@ == self@.text,
    {
        self.text.as_str()
    }

    /// The colour of the label's group.
    pub fn color(&self) -> (c: Color)
        ensures
            c == self@.color,
    {
        self.color
    }

    /// The slot that the label points at.
    pub fn slot(&self) -> (s: usize)
        ensures
            s == self@.slot,
    {
        self.slot
    }
}

impl Balloon {
    /// The number of columns of the canvas.
    pub const WIDTH: usize = 240;

    /// The last slot of the panel.
    pub const RANGE: usize = 23;

    /// Every balloon is valid.
    #[verifier::type_invariant]
    spec fn inv(&self) -> bool {
        self@.valid()
    }

    /// The balloon of a label, if the shift is within what the label allows.
    fn from_proto(proto: ProtoBalloon, row: usize, shift: usize) -> (r: Result<
        Balloon,
        LayoutError,
    >)
        requires
            row <= row_limit(),
        ensures
            shift > proto@.max_shift() ==> r == Err::<Balloon, LayoutError>(
                LayoutError::ShiftTooLarge { shift, text: proto.text },
            ),
            shift <= proto@.max_shift() ==> r.is_ok() && r.unwrap()@ == (Placement {
                label: proto@,
                row: row as nat,
                shift: shift as nat,
            }),
    {
        if shift > proto.max_shift() {
            return Err(LayoutError::ShiftTooLarge { shift, text: proto.text });
        }
        Ok(Balloon { proto, row, shift })
    }

    /// Makes the balloon for `text` at `slot`, stacked in `row` and moved
    /// left by `shift` pitches.
    ///
    /// Fails on a slot beyond the panel, and on a shift beyond what the text
    /// and the slot allow; nothing is clamped.
    pub fn new(color: Color, text: String, slot: usize, row: usize, shift: usize) -> (r: Result<
        Balloon,
        LayoutError,
    >)
        requires
            text@.len() <= text_limit(),
            row <= row_limit(),
        ensures
            slot > Balloon::RANGE ==> r == Err::<Balloon, LayoutError>(
                LayoutError::InvalidSlot { slot },
            ),
            slot <= Balloon::RANGE && shift > max_shift_of(text@.len(), slot as nat) ==> r == Err::<
                Balloon,
                LayoutError,
            >(LayoutError::ShiftTooLarge { shift, text }),
            slot <= Balloon::RANGE && shift <= max_shift_of(text@.len(), slot as nat) ==> r.is_ok()
                && r.unwrap()@ == (Placement {
                label: Label { color, text: text@, slot: slot as nat },
                row: row as nat,
                shift: shift as nat,
            }),
    {
        if slot > Self::RANGE {
            return Err(LayoutError::InvalidSlot { slot });
        }
        Self::from_proto(ProtoBalloon { color, text, slot }, row, shift)
    }

    /// The balloon at its rightmost position.
    pub fn _right(color: Color, text: String, slot: usize, row: usize) -> (r: Result<
        Balloon,
        LayoutError,
    >)
        requires
            text@.len() <= text_limit(),
            row <= row_limit(),
        ensures
            slot > Balloon::RANGE ==> r == Err::<Balloon, LayoutError>(
                LayoutError::InvalidSlot { slot },
            ),
            slot <= Balloon::RANGE ==> r.is_ok() && r.unwrap()@ == (Placement {
                label: Label { color, text: text@, slot: slot as nat },
                row: row as nat,
                shift: 0,
            }),
    {
        Self::new(color, text, slot, row, 0)
    }

    /// The balloon at its leftmost position.
    pub fn left(color: Color, text: String, slot: usize, row: usize) -> (r: Result<
        Balloon,
        LayoutError,
    >)
        requires
            text@.len() <= text_limit(),
            row <= row_limit(),
        ensures
            slot > Balloon::RANGE ==> r == Err::<Balloon, LayoutError>(
                LayoutError::InvalidSlot { slot },
            ),
            slot <= Balloon::RANGE ==> r.is_ok() && r.unwrap()@ == (Placement {
                label: Label { color, text: text@, slot: slot as nat },
                row: row as nat,
                shift: max_shift_of(text@.len(), slot as nat),
            }),
    {
        let shift: usize = max_shift(text.as_str(), slot);
        Self::new(color, text, slot, row, shift)
    }

    /// The label of the balloon.
    pub fn proto(&self) -> (p: &ProtoBalloon)
        ensures
            p@ == self@.label,
    {
        &self.proto
    }

    /// The row that the balloon is stacked in.
    pub fn row(&self) -> (r: usize)
        ensures
            r == self@.row,
    {
        self.row
    }

    /// How many pitches the balloon was moved left: never more than its text
    /// and its slot allow.
    pub fn shift(&self) -> (s: usize)
        ensures
            s == self@.shift,
            s <= max_shift_of(self@.label.text.len(), self@.label.slot),
            self@.valid(),
    {
        proof {
            use_type_invariant(self);
        }
        self.shift
    }

    /// The column of the left wall.
    pub fn x(&self) -> (x: usize)
        ensures
            x == self@.x(),
            self@.valid(),
    {
        proof {
            use_type_invariant(self);
            lemma_shift_bounds(self@);
        }
        self.proto.arrow() - self.shift * PITCH - 1
    }

    /// The number of pointer rows below the balloon.
    pub fn y(&self) -> (y: usize)
        ensures
            y == self@.y(),
    {
        proof {
            use_type_invariant(self);
        }
        self.row * 3
    }

    /// The number of rows of the drawing.
    pub fn _height(&self) -> (h: usize)
        ensures
            h == self@.height(),
    {
        proof {
            use_type_invariant(self);
        }
        self.y() + 3
    }

    /// The first column of the balloon.
    pub fn start(&self) -> (s: usize)
        ensures
            s == self@.start(),
    {
        self.x()
    }

    /// The column right after the right wall.
    pub fn end(&self) -> (e: usize)
        ensures
            e == self@.end(),
    {
        proof {
            lemma_width_bounds(self@.label.text.len());
        }
        self.x() + self.proto.width()
    }

    /// Whether this balloon and `other` would touch if drawn in one row.
    pub fn overlaps(&self, other: &Self) -> (r: bool)
        ensures
            r == self@.overlaps(other@),
    {
        let (left, right) = if self.x() < other.x() {
            (self, other)
        } else {
            (other, self)
        };
        left.end() >= right.start()
    }

    /// Whether both columns of the pointer lie below the bottom wall.
    pub fn is_anchored(&self) -> (r: bool)
        ensures
            r == self@.anchored(),
    {
        proof {
            use_type_invariant(self);
            lemma_shift_bounds(self@);
        }
        self.shift * PITCH + 3 <= self.proto.width()
    }

    /// Draws the balloon on a canvas of its own.
    ///
    /// The canvas ends with the balloon's right wall. A balloon whose
    /// pointer would start beyond that wall cannot be drawn.
    pub fn pre_render(&self) -> (template: Template)
        requires
            self@.anchored(),
        ensures
            template.wf(),
            template@ == self@.rendered(),
    {
        let x: usize = self.x();
        let width: usize = self.proto.width();
        let arrow: usize = self.proto.arrow();
        let ghost p = self@;
        proof {
            lemma_width_bounds(p.label.text.len());
            lemma_shift_bounds(p);
        }
        // The grid starts without rows; its first row gives it its columns.
        let mut grid = grid_init(0, Self::WIDTH, PlaceHolder::Empty);

        let mut top = repeat(PlaceHolder::Empty, x);
        top.push(PlaceHolder::NorthWest);
        extend_run(&mut top, PlaceHolder::North, width - 2);
        top.push(PlaceHolder::NorthEast);
        assert(top@ =~= p.top_row());
        grid_push_row(&mut grid, top);

        let mut body = repeat(PlaceHolder::Empty, x);
        body.push(PlaceHolder::West);
        extend_run(&mut body, PlaceHolder::Padding, self.proto.left_padding());
        let ghost before = body@;
        let text = self.proto.text();
        let color = self.proto.color();
        let count: usize = inner_width(text);
        let mut i: usize = 0;
        while i < count
            invariant
                i <= count == text@.len(),
                body@ == before + text_cells(text@, color).take(i as int),
            decreases count - i,
        {
            body.push(PlaceHolder::Text(text.get_char(i), color));
            i = i + 1;
            assert(body@ =~= before + text_cells(text@, color).take(i as int));
        }
        assert(text_cells(text@, color).take(count as int) =~= text_cells(text@, color));
        extend_run(&mut body, PlaceHolder::Padding, self.proto.right_padding());
        body.push(PlaceHolder::East);
        assert(body@ =~= p.text_row());
        grid_push_row(&mut grid, body);

        let mut bottom = repeat(PlaceHolder::Empty, x);
        bottom.push(PlaceHolder::SouthWest);
        extend_run(&mut bottom, PlaceHolder::South, width - 2);
        bottom.push(PlaceHolder::SouthEast);
        assert(bottom@ =~= p.bottom_wall());
        grid_push_row(&mut grid, bottom);

        let right = match grid_get(&grid, 2, arrow) {
            Some(PlaceHolder::SouthWest) => PlaceHolder::TransitionRightEdge,
            Some(PlaceHolder::SouthEast) => PlaceHolder::TransitionRightEdge,
            _ => PlaceHolder::TransitionRight,
        };
        grid_set(&mut grid, 2, arrow, PlaceHolder::TransitionLeft);
        grid_set(&mut grid, 2, arrow + 1, right);
        assert(grid_rows(grid) =~~= seq![p.top_row(), p.text_row(), p.bottom_row()]);

        let shafts: usize = self.y();
        let mut k: usize = 0;
        while k < shafts
            invariant
                k <= shafts == p.y(),
                p == self@,
                p.valid(),
                p.anchored(),
                arrow == p.label.arrow(),
                x + width == p.end(),
                grid_wf(grid),
                grid_cols(grid) == p.end(),
                grid_rows(grid) == seq![p.top_row(), p.text_row(), p.bottom_row()] + Seq::new(
                    k as nat,
                    |i: int| p.shaft_row(),
                ),
            decreases shafts - k,
        {
            let mut shaft = repeat(PlaceHolder::Empty, arrow);
            shaft.push(PlaceHolder::ArrowLeft);
            shaft.push(PlaceHolder::ArrowRight);
            extend_run(&mut shaft, PlaceHolder::Empty, x + width - arrow - 2);
            assert(shaft@ =~= p.shaft_row());
            grid_push_row(&mut grid, shaft);
            k = k + 1;
            assert(grid_rows(grid) =~~= seq![p.top_row(), p.text_row(), p.bottom_row()] + Seq::new(
                k as nat,
                |i: int| p.shaft_row(),
            ));
        }
        Template::new(grid)
    }
}

/// The furthest shift grows with the slot and with the width of the
/// balloon, and never exceeds the slot by more than one.
pub proof fn lemma_max_shift_monotonic(len: nat, slot: nat, longer: nat, later: nat)
    requires
        width_of(len) <= width_of(longer),
        slot <= later,
    ensures
        max_shift_of(len, slot) <= max_shift_of(longer, later),
        max_shift_of(len, slot) <= slot + 1,
{
    let w = width_of(len) as int;
    let v = width_of(longer) as int;
    vstd::arithmetic::div_mod::lemma_div_is_ordered(w, v, 9);
}

/// Whether two balloons touch does not depend on which one is asked.
pub proof fn lemma_overlaps_symmetric(a: Placement, b: Placement)
    ensures
        a.overlaps(b) == b.overlaps(a),
{
}

/// The drawing of a balloon is a matrix of as many columns as the balloon
/// ends at, three rows high and three more for each row below it.
pub proof fn lemma_rendered_shape(p: Placement)
    requires
        p.valid(),
        p.anchored(),
    ensures
        p.rendered().len() == p.height(),
        breadth(p.rendered()) == p.end(),
        well_formed(p.rendered()),
{
    lemma_width_bounds(p.label.text.len());
    lemma_shift_bounds(p);
    let drawing = p.rendered();
    assert(drawing[0] == p.top_row());
    assert forall|r: int| 0 <= r < drawing.len() implies (#[trigger] drawing[r]).len()
        == p.end() by {
        if r == 1 {
            assert(drawing[1] == p.text_row());
        } else if r == 2 {
            assert(drawing[2] == p.bottom_row());
        } else if r >= 3 {
            assert(drawing[r] == p.shaft_row());
        }
    }
}

/// The pointer of a balloon never meets a corner: both its columns lie in
/// the bottom wall, which gives way to a left and a right transition.
pub proof fn lemma_pointer_between_corners(p: Placement)
    requires
        p.valid(),
        p.anchored(),
    ensures
        p.bottom_wall()[p.label.arrow() as int] == PlaceHolder::South,
        p.bottom_wall()[p.label.arrow() as int + 1] == PlaceHolder::South,
        p.bottom_row() == p.bottom_wall().update(
            p.label.arrow() as int,
            PlaceHolder::TransitionLeft,
        ).update(p.label.arrow() as int + 1, PlaceHolder::TransitionRight),
{
    lemma_width_bounds(p.label.text.len());
    lemma_shift_bounds(p);
    let w = p.label.width() as int;
    let s = p.shift as int;
    assert(s * 9 + 3 != w) by {
        assert((s * 9 + 3) % 3 == 0) by (nonlinear_arith);
    }
    let at = p.label.arrow() as int;
    assert(p.x() + 1 <= at);
    assert(at + 1 <= p.x() + w - 2);
}

/// Laying the drawing of a balloon over a blank canvas that is at least as
/// large, or the canvas over the drawing, shows the drawing unchanged in the
/// lower left corner of the canvas.
pub proof fn lemma_balloon_on_blank_canvas(p: Placement, canvas: Seq<Seq<PlaceHolder>>)
    requires
        p.valid(),
        p.anchored(),
        well_formed(canvas),
        blank(canvas),
        canvas.len() >= p.height(),
        breadth(canvas) >= p.end(),
    ensures
        overlay_of(canvas, p.rendered()) == stamped(p.rendered(), canvas.len(), breadth(canvas)),
        overlay_of(p.rendered(), canvas) == stamped(p.rendered(), canvas.len(), breadth(canvas)),
{
    lemma_rendered_shape(p);
    lemma_overlay_onto_blank(canvas, p.rendered());
}

/// A balloon is at least four columns wide, its width is one more than a
/// multiple of three, and it exceeds the text by at most six columns.
pub proof fn lemma_width_bounds(len: nat)
    ensures
        len + 4 <= width_of(len) <= len + 6,
        width_of(len) % 3 == 1,
        round_up(len as int, STEP as int) == width_of(len) - 4,
        0 <= round_up(len as int, STEP as int),
{
    crate::round::lemma_division(len as int, 3);
}

/// A valid balloon never moves left of column 6, and never further than its
/// own width.
pub proof fn lemma_shift_bounds(p: Placement)
    requires
        p.valid(),
    ensures
        p.shift * PITCH <= p.label.slot * PITCH + 9,
        p.shift * PITCH <= p.label.width(),
        6 <= p.x() <= 222,
{
    let w = p.label.width();
    crate::round::lemma_division(w as int, 9);
    assert(p.shift <= w / 9);
    assert(p.shift <= p.label.slot + 1);
}

} // verus!
