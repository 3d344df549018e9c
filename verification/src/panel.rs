//! The panel: its slots, and the placement of a balloon for each label.

use vstd::prelude::*;

use crate::balloon::{
    lemma_shift_bounds, max_shift, max_shift_of, row_limit, text_limit, Balloon, Label, Placement,
    PITCH,
};
use crate::error::LayoutError;
use crate::placeholder::{Color, PlaceHolder};
use crate::slot::{Slot, SlotView};
use crate::template::{overlay_of, printed, Template};
use crate::theme::{
    blank_frame, group_color, panel_art, remember, slot_views, AnyTheme, GenericTheme, Theme,
};

verus! {

/// The number of rows that balloons may be stacked in.
pub const MAX_ROWS: usize = 6;

/// The placement of a label at a row and a shift.
pub open spec fn candidate(label: Label, row: nat, shift: nat) -> Placement {
    Placement { label, row, shift }
}

/// Whether a balloon may stand right of `previous` in one row: the two do
/// not touch, and it ends within the canvas.
pub open spec fn fits_after(previous: Placement, next: Placement) -> bool {
    !previous.overlaps(next) && next.end() <= Balloon::WIDTH
}

/// The largest shift from `from` down to 0 at which the label fits after
/// `previous`, if there is one.
pub open spec fn best_shift(previous: Placement, label: Label, row: nat, from: nat) -> Option<nat>
    decreases from,
{
    if fits_after(previous, candidate(label, row, from)) {
        Some(from)
    } else if from == 0 {
        None
    } else {
        best_shift(previous, label, row, (from - 1) as nat)
    }
}

/// Where the label goes: the first row, from `row` up, that takes it. A row
/// that does not exist yet takes it at its largest shift; a row that holds
/// balloons takes it at the best shift after its last balloon. Nothing if
/// all rows below `MAX_ROWS` refuse.
pub open spec fn place_from(rows: Seq<Seq<Placement>>, label: Label, row: nat) -> Option<Placement>
    decreases MAX_ROWS - row,
{
    if row >= MAX_ROWS {
        None
    } else if row >= rows.len() {
        Some(candidate(label, row, label.max_shift()))
    } else {
        match best_shift(rows[row as int].last(), label, row, label.max_shift()) {
            Some(shift) => Some(candidate(label, row, shift)),
            None => place_from(rows, label, row + 1),
        }
    }
}

/// The rows with one more balloon: at the end of its row, or in a new row
/// if its row does not exist yet.
pub open spec fn put(rows: Seq<Seq<Placement>>, balloon: Placement) -> Seq<Seq<Placement>> {
    if balloon.row >= rows.len() {
        rows.push(seq![balloon])
    } else {
        rows.update(balloon.row as int, rows[balloon.row as int].push(balloon))
    }
}

/// Whether `next` stands right of `previous` as the placement leaves them.
pub open spec fn follows(previous: Placement, next: Placement) -> bool {
    &&& previous.label.slot < next.label.slot
    &&& previous.end() < next.start()
    &&& next.end() <= Balloon::WIDTH
}

/// The state that placing labels by rising slot keeps: no row is empty,
/// every balloon is valid, and along each row the slots rise, each balloon
/// starts after the end of the one before it, and each balloon but the first
/// ends within the canvas.
pub open spec fn orderly(rows: Seq<Seq<Placement>>) -> bool {
    &&& forall|r: int| 0 <= r < rows.len() ==> (#[trigger] rows[r]).len() > 0
    &&& forall|r: int, i: int|
        0 <= r < rows.len() && 0 <= i < rows[r].len() ==> (#[trigger] rows[r][i]).valid()
    &&& forall|r: int, i: int|
        0 <= r < rows.len() && 0 < i < rows[r].len() ==> follows(
            rows[r][i - 1],
            #[trigger] rows[r][i],
        )
}

/// Whether every balloon of the rows belongs to a slot before `slot`.
pub open spec fn below(rows: Seq<Seq<Placement>>, slot: nat) -> bool {
    forall|r: int, i: int|
        0 <= r < rows.len() && 0 <= i < rows[r].len() ==> (#[trigger] rows[r][i]).label.slot < slot
}

/// Where the labels of a panel end up.
pub ghost struct Arrangement {
    /// The balloons placed, row by row.
    pub rows: Seq<Seq<Placement>>,
    /// The canvas with the balloons drawn so far.
    pub canvas: Seq<Seq<PlaceHolder>>,
    /// The labels without a balloon on the canvas, by rising slot.
    pub failures: Seq<LayoutError>,
    /// The groups that the theme has seen.
    pub groups: Seq<Seq<char>>,
}

/// Whether every label is short enough for the machine.
pub open spec fn within_limits(slots: Seq<SlotView>) -> bool {
    forall|i: int|
        0 <= i < slots.len() ==> ((#[trigger] slots[i]) matches SlotView::Occupied { text, .. }
            ==> text.len() <= text_limit())
}

/// The arrangement after the label of one more slot: the theme gives the
/// colour of its group, the label is placed, and its balloon is laid over
/// the canvas. A slot beyond the panel, a label that no row takes, and a
/// balloon whose pointer is detached leave a failure instead.
pub open spec fn arrange_one(before: Arrangement, text: Seq<char>, group: Seq<char>, index: nat)
    -> Arrangement {
    let seen = remember(before.groups, group);
    let label = Label { color: group_color(seen, group), text, slot: index };
    if index > Balloon::RANGE {
        Arrangement {
            failures: before.failures.push(LayoutError::InvalidSlot { slot: index as usize }),
            groups: seen,
            ..before
        }
    } else {
        match place_from(before.rows, label, 0) {
            None => Arrangement {
                failures: before.failures.push(
                    LayoutError::PlacementExhausted { slot: index as usize },
                ),
                groups: seen,
                ..before
            },
            Some(balloon) => if balloon.anchored() {
                Arrangement {
                    rows: put(before.rows, balloon),
                    canvas: overlay_of(before.canvas, balloon.rendered()),
                    groups: seen,
                    ..before
                }
            } else {
                Arrangement {
                    rows: put(before.rows, balloon),
                    failures: before.failures.push(
                        LayoutError::PointerDetached { slot: index as usize },
                    ),
                    groups: seen,
                    ..before
                }
            },
        }
    }
}

/// The arrangement of the labels of the first `upto` slots, by a theme that
/// had seen `groups` before. The slots are taken in their order, starting
/// from no rows and a canvas of one empty cell; a free slot changes nothing.
pub open spec fn arrange(slots: Seq<SlotView>, groups: Seq<Seq<char>>, upto: nat) -> Arrangement
    decreases upto,
{
    if upto == 0 {
        Arrangement {
            rows: Seq::empty(),
            canvas: seq![seq![PlaceHolder::Empty]],
            failures: Seq::empty(),
            groups,
        }
    } else {
        let before = arrange(slots, groups, (upto - 1) as nat);
        match slots[upto - 1] {
            SlotView::Free => before,
            SlotView::Occupied { text, group } => arrange_one(
                before,
                text,
                group,
                (upto - 1) as nat,
            ),
        }
    }
}

/// Whether `text` is the canvas, a line feed, and the border.
pub open spec fn diagram(cells: Seq<Seq<PlaceHolder>>, border: Seq<char>, text: Seq<char>) -> bool {
    exists|canvas: Seq<char>| printed(cells, canvas) && text == canvas + seq!['\n'] + border
}

/// What a row of balloons stands for.
pub open spec fn row_view(stack: Seq<Balloon>) -> Seq<Placement> {
    Seq::new(stack.len(), |i: int| stack[i]@)
}

/// What the rows of balloons stand for.
pub open spec fn rows_view(grid: Seq<Vec<Balloon>>) -> Seq<Seq<Placement>> {
    Seq::new(grid.len(), |r: int| row_view(grid[r]@))
}

/// What a panel is made from: the slots in order, and the choice of a theme.
#[derive(Clone, Debug)]
pub struct Input {
    pub slots: Vec<Slot>,
    pub theme: GenericTheme,
}

/// A panel: its slots in order, and the theme that draws it.
#[derive(Clone, Debug)]
pub struct Panel {
    pub slots: Vec<Slot>,
    pub theme: AnyTheme,
}

/// What `from` returns is said by its own contract: a panel holds more than
/// the contract can equate.
impl vstd::std_specs::convert::FromSpecImpl<Input> for Panel {
    open spec fn obeys_from_spec() -> bool {
        false
    }

    open spec fn from_spec(input: Input) -> Panel {
        arbitrary()
    }
}

impl From<Input> for Panel {
    /// The panel of the slots, with the chosen theme and no border.
    fn from(input: Input) -> (panel: Panel)
        ensures
            panel.slots == input.slots,
            panel.theme.groups() == Seq::<Seq<char>>::empty(),
            panel.theme.frame() == blank_frame(),
            panel.theme is Ascii <==> input.theme is ASCII,
    {
        Panel { slots: input.slots, theme: input.theme.new() }
    }
}

impl Panel {
    /// The panel as text: the canvas with all balloons, and below it the
    /// border with the slots.
    ///
    /// Fails if a label gets no balloon on the canvas, with the failures of
    /// all such labels by rising slot.
    pub fn render(&mut self) -> (r: Result<String, Vec<LayoutError>>)
        requires
            within_limits(slot_views(old(self).slots@)),
        ensures
            final(self).slots == old(self).slots,
            final(self).theme.frame() == old(self).theme.frame(),
            ({
                let slots = slot_views(old(self).slots@);
                let arrangement = arrange(slots, old(self).theme.groups(), slots.len());
                &&& final(self).theme.groups() == arrangement.groups
                &&& arrangement.failures.len() > 0 ==> (r matches Err(failures) && failures@
                    == arrangement.failures)
                &&& arrangement.failures.len() == 0 ==> (r matches Ok(text) && diagram(
                    arrangement.canvas,
                    panel_art(old(self).theme.frame(), slots),
                    text@,
                ))
            }),
    {
        match self.layout() {
            Ok(template) => {
                let mut text = template.render(&self.theme);
                let ghost canvas = text@;
                let border = self.theme.render_panel(&self.slots);
                text.push('\n');
                text.append(border.as_str());
                assert(text@ =~= canvas + seq!['\n'] + border@);
                Ok(text)
            },
            Err(failures) => Err(failures),
        }
    }

    /// Places a balloon for every label, slot by slot, and lays each over
    /// the canvas as it is placed.
    pub fn layout(&mut self) -> (r: Result<Template, Vec<LayoutError>>)
        requires
            within_limits(slot_views(old(self).slots@)),
        ensures
            final(self).slots == old(self).slots,
            final(self).theme.frame() == old(self).theme.frame(),
            ({
                let slots = slot_views(old(self).slots@);
                let arrangement = arrange(slots, old(self).theme.groups(), slots.len());
                &&& final(self).theme.groups() == arrangement.groups
                &&& arrangement.failures.len() > 0 ==> (r matches Err(failures) && failures@
                    == arrangement.failures)
                &&& arrangement.failures.len() == 0 ==> (r matches Ok(template) && template.wf()
                    && template@ == arrangement.canvas)
            }),
    {
        let ghost slots = slot_views(self.slots@);
        let ghost groups = self.theme.groups();
        let mut grid: Vec<Vec<Balloon>> = Vec::new();
        let mut failures: Vec<LayoutError> = Vec::new();
        let mut template = Template::default();
        let mut index: usize = 0;
        assert(rows_view(grid@) =~~= arrange(slots, groups, 0).rows);
        while index < self.slots.len()
            invariant
                self.slots == old(self).slots,
                self.theme.frame() == old(self).theme.frame(),
                slots == slot_views(self.slots@),
                within_limits(slots),
                groups == old(self).theme.groups(),
                index <= self.slots.len(),
                forall|k: int| 0 <= k < grid.len() ==> (#[trigger] grid[k]).len() > 0,
                template.wf(),
                rows_view(grid@) == arrange(slots, groups, index as nat).rows,
                template@ == arrange(slots, groups, index as nat).canvas,
                failures@ == arrange(slots, groups, index as nat).failures,
                self.theme.groups() == arrange(slots, groups, index as nat).groups,
            decreases self.slots.len() - index,
        {
            assert(slots[index as int] == self.slots[index as int]@);
            match &self.slots[index] {
                Slot::Occupied { text, group } => {
                    let color = self.theme.style_group(group.as_str());
                    match Self::place(&mut grid, index, text.clone(), color) {
                        Ok(row) => {
                            let stack = &grid[row];
                            let balloon = &stack[stack.len() - 1];
                            if balloon.is_anchored() {
                                template = template.overlay(balloon.pre_render());
                            } else {
                                failures.push(LayoutError::PointerDetached { slot: index });
                            }
                        },
                        Err(error) => {
                            failures.push(error);
                        },
                    }
                },
                Slot::Free => {},
            }
            index = index + 1;
        }
        if failures.len() == 0 {
            Ok(template)
        } else {
            Err(failures)
        }
    }

    /// Tries to put the label into a row that already holds balloons, right
    /// of the last one: at the largest shift at which it fits.
    ///
    /// Returns whether a balloon was added to the row.
    pub fn shift(index: usize, text: &str, color: Color, row: usize, stack: &mut Vec<Balloon>) -> (placed:
        bool)
        requires
            old(stack).len() > 0,
            text@.len() <= text_limit(),
            row <= row_limit(),
        ensures
            index > Balloon::RANGE ==> !placed && final(stack)@ == old(stack)@,
            index <= Balloon::RANGE ==> ({
                let label = Label { color, text: text@, slot: index as nat };
                match best_shift(old(stack)@.last()@, label, row as nat, label.max_shift()) {
                    Some(shift) => placed && final(stack)@.len() == old(stack)@.len() + 1
                        && final(stack)@.drop_last() == old(stack)@ && final(stack)@.last()@
                        == candidate(label, row as nat, shift),
                    None => !placed && final(stack)@ == old(stack)@,
                }
            }),
    {
        if index > Balloon::RANGE {
            return false;
        }
        let ghost label = Label { color, text: text@, slot: index as nat };
        let ghost previous = stack@.last()@;
        let top: usize = max_shift(text, index);
        let mut shift: usize = top;
        loop
            invariant
                index <= Balloon::RANGE,
                text@.len() <= text_limit(),
                row <= row_limit(),
                label == (Label { color, text: text@, slot: index as nat }),
                top == label.max_shift(),
                shift <= top,
                stack@ == old(stack)@,
                stack@.len() > 0,
                previous == stack@.last()@,
                best_shift(previous, label, row as nat, top as nat) == best_shift(
                    previous,
                    label,
                    row as nat,
                    shift as nat,
                ),
            decreases shift,
        {
            let attempt = Balloon::new(color, text.to_owned(), index, row, shift);
            if let Ok(balloon) = attempt {
                let last: usize = stack.len() - 1;
                if !stack[last].overlaps(&balloon) && balloon.end() <= Balloon::WIDTH {
                    stack.push(balloon);
                    assert(stack@.drop_last() =~= old(stack)@);
                    return true;
                }
            }
            if shift == 0 {
                return false;
            }
            shift = shift - 1;
        }
    }

    /// Places the label in the first row that takes it, and returns that
    /// row.
    ///
    /// Fails, and leaves the rows as they are, on a slot beyond the panel and
    /// when no row takes the label.
    pub fn place(grid: &mut Vec<Vec<Balloon>>, index: usize, text: String, color: Color) -> (r:
        Result<usize, LayoutError>)
        requires
            text@.len() <= text_limit(),
            forall|k: int| 0 <= k < old(grid).len() ==> (#[trigger] old(grid)[k]).len() > 0,
        ensures
            forall|k: int| 0 <= k < final(grid).len() ==> (#[trigger] final(grid)[k]).len() > 0,
            index > Balloon::RANGE ==> r == Err::<usize, LayoutError>(
                LayoutError::InvalidSlot { slot: index },
            ) && rows_view(final(grid)@) == rows_view(old(grid)@),
            index <= Balloon::RANGE ==> ({
                let label = Label { color, text: text@, slot: index as nat };
                match place_from(rows_view(old(grid)@), label, 0) {
                    Some(balloon) => {
                        &&& r matches Ok(row)
                        &&& row < final(grid).len()
                        &&& final(grid)[row as int]@.last()@ == balloon
                        &&& rows_view(final(grid)@) == put(rows_view(old(grid)@), balloon)
                    },
                    None => r == Err::<usize, LayoutError>(
                        LayoutError::PlacementExhausted { slot: index },
                    ) && rows_view(final(grid)@) == rows_view(old(grid)@),
                }
            }),
    {
        if index > Balloon::RANGE {
            return Err(LayoutError::InvalidSlot { slot: index });
        }
        let ghost label = Label { color, text: text@, slot: index as nat };
        let ghost before = rows_view(grid@);
        let mut row: usize = 0;
        while row < MAX_ROWS
            invariant
                index <= Balloon::RANGE,
                text@.len() <= text_limit(),
                label == (Label { color, text: text@, slot: index as nat }),
                row <= MAX_ROWS,
                grid@.len() == old(grid)@.len(),
                before == rows_view(old(grid)@),
                before == rows_view(grid@),
                forall|k: int| 0 <= k < grid.len() ==> (#[trigger] grid[k]).len() > 0,
                place_from(before, label, 0) == place_from(before, label, row as nat),
            decreases MAX_ROWS - row,
        {
            if row >= grid.len() {
                match Balloon::left(color, text, index, row) {
                    Ok(balloon) => {
                        let mut stack: Vec<Balloon> = Vec::new();
                        stack.push(balloon);
                        grid.push(stack);
                        assert(rows_view(grid@) =~~= put(
                            before,
                            candidate(label, row as nat, label.max_shift()),
                        ));
                        return Ok(grid.len() - 1);
                    },
                    Err(error) => {
                        return Err(error);
                    },
                }
            }
            let placed = Self::shift(index, text.as_str(), color, row, &mut grid[row]);
            if placed {
                assert(rows_view(grid@) =~~= put(before, grid[row as int]@.last()@));
                return Ok(row);
            }
            assert(rows_view(grid@) =~~= before);
            row = row + 1;
        }
        Err(LayoutError::PlacementExhausted { slot: index })
    }
}

/// A valid balloon that does not touch a valid balloon of an earlier slot
/// starts after the end of it.
pub proof fn lemma_fit_is_right_of(previous: Placement, next: Placement)
    requires
        previous.valid(),
        next.valid(),
        previous.label.slot < next.label.slot,
        !previous.overlaps(next),
    ensures
        previous.end() < next.start(),
{
    lemma_shift_bounds(previous);
    lemma_shift_bounds(next);
    assert(previous.label.slot * PITCH + 9 <= next.label.slot * PITCH) by (nonlinear_arith)
        requires
            previous.label.slot < next.label.slot,
    ;
}

/// What `best_shift` finds: a shift at which the label fits, above which it
/// fits at no shift up to `from`; and nothing only if it fits at no shift up
/// to `from`.
pub proof fn lemma_best_shift(previous: Placement, label: Label, row: nat, from: nat)
    ensures
        match best_shift(previous, label, row, from) {
            Some(shift) => shift <= from && fits_after(previous, candidate(label, row, shift))
                && forall|other: nat|
                shift < other <= from ==> !fits_after(
                    previous,
                    #[trigger] candidate(label, row, other),
                ),
            None => forall|other: nat|
                other <= from ==> !fits_after(previous, #[trigger] candidate(label, row, other)),
        },
    decreases from,
{
    if !fits_after(previous, candidate(label, row, from)) && from > 0 {
        lemma_best_shift(previous, label, row, (from - 1) as nat);
    }
}

/// Where a label is placed: in a row below `MAX_ROWS`, at a shift within
/// what the label allows; after the last balloon of its row if the row
/// holds balloons, and at the end of the rows if it does not exist yet.
pub proof fn lemma_place_from(rows: Seq<Seq<Placement>>, label: Label, row: nat)
    requires
        row <= rows.len(),
    ensures
        place_from(rows, label, row) matches Some(balloon) ==> {
            &&& balloon.label == label
            &&& row <= balloon.row < MAX_ROWS
            &&& balloon.row <= rows.len()
            &&& balloon.shift <= label.max_shift()
            &&& balloon.row < rows.len() ==> fits_after(rows[balloon.row as int].last(), balloon)
        },
    decreases MAX_ROWS - row,
{
    if row < MAX_ROWS && row < rows.len() {
        lemma_best_shift(rows[row as int].last(), label, row, label.max_shift());
        if best_shift(rows[row as int].last(), label, row, label.max_shift()) is None {
            lemma_place_from(rows, label, row + 1);
        }
    }
}

/// Placing the label of a slot after all the slots placed before keeps the
/// rows orderly.
pub proof fn lemma_place_keeps_order(rows: Seq<Seq<Placement>>, label: Label)
    requires
        orderly(rows),
        below(rows, label.slot),
        label.valid(),
    ensures
        place_from(rows, label, 0) matches Some(balloon) ==> orderly(put(rows, balloon)) && below(
            put(rows, balloon),
            label.slot + 1,
        ),
{
    lemma_place_from(rows, label, 0);
    if place_from(rows, label, 0) is Some {
        let balloon = place_from(rows, label, 0).unwrap();
        let placed = put(rows, balloon);
        assert(balloon.valid());
        if balloon.row < rows.len() {
            let previous = rows[balloon.row as int].last();
            assert(previous == rows[balloon.row as int][rows[balloon.row as int].len() - 1]);
            lemma_fit_is_right_of(previous, balloon);
        }
        assert forall|r: int, i: int| 0 <= r < placed.len() && 0 <= i < placed[r].len() implies (
        #[trigger] placed[r][i]).valid() && placed[r][i].label.slot < label.slot + 1 by {
            if r < rows.len() && i < rows[r].len() {
                assert(placed[r][i] == rows[r][i]);
            }
        }
        assert forall|r: int, i: int| 0 <= r < placed.len() && 0 < i < placed[r].len() implies follows(
            placed[r][i - 1],
            #[trigger] placed[r][i],
        ) by {
            assert(placed[r][i - 1] == rows[r][i - 1]);
            if i < rows[r].len() {
                assert(placed[r][i] == rows[r][i]);
            }
        }
    }
}

/// Along an orderly row, a later balloon starts after the end of any
/// earlier one.
pub proof fn lemma_row_is_sorted(rows: Seq<Seq<Placement>>, r: int, i: int, j: int)
    requires
        orderly(rows),
        0 <= r < rows.len(),
        0 <= i < j < rows[r].len(),
    ensures
        rows[r][i].end() < rows[r][j].start(),
        rows[r][i].end() <= Balloon::WIDTH,
        rows[r][j].end() <= Balloon::WIDTH,
    decreases j - i,
{
    assert(follows(rows[r][j - 1], rows[r][j]));
    if i + 1 < j {
        lemma_row_is_sorted(rows, r, i, j - 1);
    }
}

/// No two balloons of one orderly row touch, and both end within the canvas.
pub proof fn lemma_no_overlap_in_row(rows: Seq<Seq<Placement>>, r: int, i: int, j: int)
    requires
        orderly(rows),
        0 <= r < rows.len(),
        0 <= i < rows[r].len(),
        0 <= j < rows[r].len(),
        i != j,
    ensures
        !rows[r][i].overlaps(rows[r][j]),
        rows[r][i].end() <= Balloon::WIDTH,
        rows[r][j].end() <= Balloon::WIDTH,
{
    if i < j {
        lemma_row_is_sorted(rows, r, i, j);
    } else {
        lemma_row_is_sorted(rows, r, j, i);
    }
}

/// The rows of an arrangement are orderly, and hold no slot from `upto` on.
pub proof fn lemma_arrange_orderly(slots: Seq<SlotView>, groups: Seq<Seq<char>>, upto: nat)
    requires
        within_limits(slots),
        upto <= slots.len(),
    ensures
        orderly(arrange(slots, groups, upto).rows),
        below(arrange(slots, groups, upto).rows, upto),
    decreases upto,
{
    if upto > 0 {
        let index = (upto - 1) as nat;
        let before = arrange(slots, groups, index);
        lemma_arrange_orderly(slots, groups, index);
        match slots[index as int] {
            SlotView::Free => {},
            SlotView::Occupied { text, group } => {
                let seen = remember(before.groups, group);
                let label = Label { color: group_color(seen, group), text, slot: index };
                if index <= Balloon::RANGE {
                    lemma_place_keeps_order(before.rows, label);
                }
            },
        }
    }
}

/// No two balloons that the layout of a panel puts into one row touch, and
/// both end within the canvas.
pub proof fn lemma_layout_keeps_apart(
    slots: Seq<SlotView>,
    groups: Seq<Seq<char>>,
    r: int,
    i: int,
    j: int,
)
    requires
        within_limits(slots),
        0 <= r < arrange(slots, groups, slots.len()).rows.len(),
        0 <= i < arrange(slots, groups, slots.len()).rows[r].len(),
        0 <= j < arrange(slots, groups, slots.len()).rows[r].len(),
        i != j,
    ensures
        ({
            let row = arrange(slots, groups, slots.len()).rows[r];
            &&& !row[i].overlaps(row[j])
            &&& row[i].end() <= Balloon::WIDTH
            &&& row[j].end() <= Balloon::WIDTH
        }),
{
    lemma_arrange_orderly(slots, groups, slots.len());
    lemma_no_overlap_in_row(arrange(slots, groups, slots.len()).rows, r, i, j);
}

/// Every balloon that the layout of a panel places is valid: its shift is
/// within what its text and its slot allow.
pub proof fn lemma_layout_places_valid(slots: Seq<SlotView>, groups: Seq<Seq<char>>, r: int, i: int)
    requires
        within_limits(slots),
        0 <= r < arrange(slots, groups, slots.len()).rows.len(),
        0 <= i < arrange(slots, groups, slots.len()).rows[r].len(),
    ensures
        arrange(slots, groups, slots.len()).rows[r][i].valid(),
        arrange(slots, groups, slots.len()).rows[r][i].shift <= max_shift_of(
            arrange(slots, groups, slots.len()).rows[r][i].label.text.len(),
            arrange(slots, groups, slots.len()).rows[r][i].label.slot,
        ),
{
    lemma_arrange_orderly(slots, groups, slots.len());
}

} // verus!
