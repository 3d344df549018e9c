//! Themes: the glyph of each cell, the colour of each group, and the border
//! of the panel.

use vstd::prelude::*;

use crate::placeholder::{Color, PlaceHolder};
use crate::slot::{Slot, SlotView};
use crate::text::{
    append_lines, appended, chars_of, lines, lines_of, push_two_digits, replace, replaced,
    string_of, two_digits,
};

verus! {

/// Setting a text beside another, line by line.
pub trait AppendMultiline {
    /// The characters of the text.
    spec fn chars(&self) -> Seq<char>;

    /// Each line of this text followed by the line of `other` at the same
    /// place, as far as both have lines, with a line feed between each two.
    fn append_multiline(&self, other: String) -> (r: String)
        ensures
            r@ == appended(self.chars(), other@),
    ;
}

impl AppendMultiline for &str {
    open spec fn chars(&self) -> Seq<char> {
        (*self)@
    }

    fn append_multiline(&self, other: String) -> (r: String) {
        string_of(&append_lines(&chars_of(*self), &chars_of(other.as_str())))
    }
}

impl AppendMultiline for String {
    open spec fn chars(&self) -> Seq<char> {
        self@
    }

    fn append_multiline(&self, other: String) -> (r: String) {
        self.as_str().append_multiline(other)
    }
}

/// The art of a border: what stands left and right of the slots, what stands
/// between two slots, and the pattern of one slot.
#[derive(Clone, Debug)]
pub struct Frame {
    pub left: String,
    pub right: String,
    pub separator: String,
    pub slot: String,
}

/// What the border of a theme is drawn from.
pub ghost struct FrameView {
    pub left: Seq<char>,
    pub right: Seq<char>,
    pub separator: Seq<char>,
    pub slot: Seq<char>,
    /// The number of lines that the first slot is drawn on.
    pub height: nat,
}

impl View for Frame {
    type V = FrameView;

    open spec fn view(&self) -> FrameView {
        FrameView {
            left: self.left@,
            right: self.right@,
            separator: self.separator@,
            slot: self.slot@,
            height: lines_of(self.left@).len(),
        }
    }
}

/// The frame of a theme that draws no border.
pub open spec fn blank_frame() -> FrameView {
    FrameView {
        left: Seq::empty(),
        right: Seq::empty(),
        separator: Seq::empty(),
        slot: Seq::empty(),
        height: lines_of(Seq::empty()).len(),
    }
}

/// The glyph of a cell; of a text cell, its character.
pub open spec fn glyph(cell: PlaceHolder) -> char {
    match cell {
        PlaceHolder::Text(c, _) => c,
        PlaceHolder::Empty | PlaceHolder::Padding => ' ',
        PlaceHolder::North | PlaceHolder::South => '─',
        PlaceHolder::East | PlaceHolder::West => '│',
        PlaceHolder::NorthEast | PlaceHolder::TransitionLeft => '┐',
        PlaceHolder::NorthWest | PlaceHolder::TransitionRight => '┌',
        PlaceHolder::SouthEast => '┘',
        PlaceHolder::SouthWest => '└',
        PlaceHolder::TransitionLeftEdge | PlaceHolder::TransitionRightEdge => '│',
        PlaceHolder::ArrowLeft | PlaceHolder::ArrowRight => '│',
        PlaceHolder::ArrowOverlayNorthLeft | PlaceHolder::ArrowOverlayNorthRight => '┴',
        PlaceHolder::ArrowOverlaySouthLeft | PlaceHolder::ArrowOverlaySouthRight => '┬',
    }
}

/// Whether `text` holds the character `c`, with whatever the terminal needs
/// before and after it to show it in colour.
pub open spec fn painted(c: char, text: Seq<char>) -> bool {
    exists|lead: Seq<char>, trail: Seq<char>| text == lead + seq![c] + trail
}

/// Whether `text` is a rendering of `cell`: its glyph and no more, but for a
/// text cell, which is painted.
pub open spec fn shows(cell: PlaceHolder, text: Seq<char>) -> bool {
    match cell {
        PlaceHolder::Text(c, _) => painted(c, text),
        _ => text == seq![glyph(cell)],
    }
}

/// The colour of the group that was seen at place `index`: eight colours,
/// then grey for all that follow.
pub open spec fn palette(index: nat) -> Color {
    if index == 0 {
        Color { red: 255, green: 0, blue: 0 }
    } else if index == 1 {
        Color { red: 255, green: 128, blue: 0 }
    } else if index == 2 {
        Color { red: 255, green: 255, blue: 0 }
    } else if index == 3 {
        Color { red: 0, green: 255, blue: 0 }
    } else if index == 4 {
        Color { red: 64, green: 128, blue: 255 }
    } else if index == 5 {
        Color { red: 255, green: 0, blue: 255 }
    } else if index == 6 {
        Color { red: 0, green: 255, blue: 255 }
    } else if index == 7 {
        Color { red: 255, green: 255, blue: 255 }
    } else {
        Color { red: 192, green: 192, blue: 192 }
    }
}

/// The place at which `group` first occurs among `groups`, or the number of
/// groups if it does not occur.
pub open spec fn seen_at(groups: Seq<Seq<char>>, group: Seq<char>) -> nat
    decreases groups.len(),
{
    if groups.len() == 0 {
        0
    } else {
        let earlier = seen_at(groups.drop_last(), group);
        if earlier < groups.len() - 1 {
            earlier
        } else if groups.last() == group {
            earlier
        } else {
            groups.len()
        }
    }
}

/// Whether no group occurs twice.
pub open spec fn distinct(groups: Seq<Seq<char>>) -> bool {
    forall|i: int, j: int| 0 <= i < j < groups.len() ==> groups[i] != groups[j]
}

/// The groups seen once `group` has been seen too.
pub open spec fn remember(groups: Seq<Seq<char>>, group: Seq<char>) -> Seq<Seq<char>> {
    if seen_at(groups, group) < groups.len() {
        groups
    } else {
        groups.push(group)
    }
}

/// The colour that a theme gives `group` after it has seen `groups`.
pub open spec fn group_color(groups: Seq<Seq<char>>, group: Seq<char>) -> Color {
    palette(seen_at(groups, group))
}

/// `n` line feeds.
pub open spec fn line_feeds(n: nat) -> Seq<char> {
    Seq::new(n, |i: int| '\n')
}

/// The pattern of a slot with its marks filled in: the walls and corners of
/// an occupied slot or the plain line of a free one, and the number of the
/// slot in two digits.
pub open spec fn filled(pattern: Seq<char>, free: bool, index: nat) -> Seq<char> {
    let side = if free {
        seq![' ']
    } else {
        seq!['│']
    };
    let top_left = if free {
        seq!['─']
    } else {
        seq!['┤']
    };
    let top_right = if free {
        seq!['─']
    } else {
        seq!['├']
    };
    let bottom_left = if free {
        seq!['─']
    } else {
        seq!['┘']
    };
    let bottom_right = if free {
        seq!['─']
    } else {
        seq!['└']
    };
    let a = replaced(pattern, "<left>"@, side);
    let b = replaced(a, "<right>"@, side);
    let c = replaced(b, "<topleft>"@, top_left);
    let d = replaced(c, "<topright>"@, top_right);
    let e = replaced(d, "<bottomleft>"@, bottom_left);
    let f = replaced(e, "<bottomright>"@, bottom_right);
    let g = replaced(f, "<padding>"@, seq![' ']);
    replaced(g, "<slotindex>"@, two_digits(index))
}

/// The art of one slot: the filled pattern, set right of the separator, or
/// for the first slot right of nothing.
pub open spec fn slot_art(frame: FrameView, slot: SlotView, index: nat) -> Seq<char> {
    let base = if index == 0 {
        line_feeds(frame.height)
    } else {
        frame.separator
    };
    appended(base, filled(frame.slot, slot is Free, index))
}

/// The left end of the border with the art of the first `upto` slots set
/// right of it.
pub open spec fn border_upto(frame: FrameView, slots: Seq<SlotView>, upto: nat) -> Seq<char>
    decreases upto,
{
    if upto == 0 {
        frame.left
    } else {
        appended(
            border_upto(frame, slots, (upto - 1) as nat),
            slot_art(frame, slots[upto - 1], (upto - 1) as nat),
        )
    }
}

/// The border of a panel: the left end, the art of each slot, the right end.
pub open spec fn panel_art(frame: FrameView, slots: Seq<SlotView>) -> Seq<char> {
    appended(border_upto(frame, slots, slots.len()), frame.right)
}

/// What the slots of a panel stand for.
pub open spec fn slot_views(slots: Seq<Slot>) -> Seq<SlotView> {
    Seq::new(slots.len(), |i: int| slots[i]@)
}

/// What a theme does for a panel.
pub trait Theme {
    /// The groups that the theme has seen, in the order in which it first saw
    /// them.
    spec fn groups(&self) -> Seq<Seq<char>>;

    /// What the theme draws the border from.
    spec fn frame(&self) -> FrameView;

    /// The text that shows one cell.
    fn render(&self, placeholder: PlaceHolder) -> (text: String)
        ensures
            shows(placeholder, text@),
    ;

    /// The art of one slot of the border.
    fn render_slot(&self, slot: &Slot, index: usize) -> (text: String)
        ensures
            text@ == slot_art(self.frame(), slot@, index as nat),
    ;

    /// The border of a panel.
    fn render_panel(&self, slots: &Vec<Slot>) -> (text: String)
        ensures
            text@ == panel_art(self.frame(), slot_views(slots@)),
    ;

    /// The colour of a group. Each group keeps the colour of the place at
    /// which it was first seen.
    fn style_group(&mut self, group: &str) -> (color: Color)
        ensures
            final(self).groups() == remember(old(self).groups(), group@),
            final(self).frame() == old(self).frame(),
            color == group_color(final(self).groups(), group@),
            distinct(old(self).groups()) ==> distinct(final(self).groups()),
    ;
}

/// The themes to choose from.
#[derive(Clone, Debug)]
pub enum GenericTheme {
    ASCII,
    Rounded,
}

/// The plain theme.
#[derive(Clone, Debug)]
pub struct DefaultTheme {
    groups: Vec<String>,
    frame: Frame,
}

/// The theme with rounded ends. It draws its slots as the plain theme does.
#[derive(Clone, Debug)]
pub struct RoundedTheme {
    delegate: DefaultTheme,
    left: String,
    right: String,
}

/// A theme of either kind.
#[derive(Clone, Debug)]
pub enum AnyTheme {
    Ascii(DefaultTheme),
    Rounded(RoundedTheme),
}

/// `Colorize::color` of the `colored` crate with a `TrueColor`, and the
/// `to_string` of what it returns. Whether and how the crate colours depends
/// on the terminal and on variables of the process: all that is claimed is
/// that the character is there.
#[verifier::external_body]
fn paint(c: char, color: Color) -> (text: String)
    ensures
        painted(c, text@),
{
    colored::Colorize::color(
        c.to_string().as_str(),
        colored::Color::TrueColor { r: color.red, g: color.green, b: color.blue },
    ).to_string()
}

/// The glyph of a cell.
pub fn glyph_of(cell: PlaceHolder) -> (c: char)
    ensures
        c == glyph(cell),
{
    match cell {
        PlaceHolder::Text(c, _) => c,
        PlaceHolder::Empty | PlaceHolder::Padding => ' ',
        PlaceHolder::North | PlaceHolder::South => '─',
        PlaceHolder::East | PlaceHolder::West => '│',
        PlaceHolder::NorthEast | PlaceHolder::TransitionLeft => '┐',
        PlaceHolder::NorthWest | PlaceHolder::TransitionRight => '┌',
        PlaceHolder::SouthEast => '┘',
        PlaceHolder::SouthWest => '└',
        PlaceHolder::TransitionLeftEdge | PlaceHolder::TransitionRightEdge => '│',
        PlaceHolder::ArrowLeft | PlaceHolder::ArrowRight => '│',
        PlaceHolder::ArrowOverlayNorthLeft | PlaceHolder::ArrowOverlayNorthRight => '┴',
        PlaceHolder::ArrowOverlaySouthLeft | PlaceHolder::ArrowOverlaySouthRight => '┬',
    }
}

/// The text that shows one cell: its glyph, and for a text cell the painted
/// character.
pub fn render_cell(placeholder: PlaceHolder) -> (text: String)
    ensures
        shows(placeholder, text@),
{
    match placeholder {
        PlaceHolder::Text(c, color) => paint(c, color),
        _ => {
            let mut text = String::new();
            text.push(glyph_of(placeholder));
            assert(text@ =~= seq![glyph(placeholder)]);
            text
        },
    }
}

/// The colour of the place `index`.
pub fn palette_color(index: usize) -> (color: Color)
    ensures
        color == palette(index as nat),
{
    if index == 0 {
        Color { red: 255, green: 0, blue: 0 }
    } else if index == 1 {
        Color { red: 255, green: 128, blue: 0 }
    } else if index == 2 {
        Color { red: 255, green: 255, blue: 0 }
    } else if index == 3 {
        Color { red: 0, green: 255, blue: 0 }
    } else if index == 4 {
        Color { red: 64, green: 128, blue: 255 }
    } else if index == 5 {
        Color { red: 255, green: 0, blue: 255 }
    } else if index == 6 {
        Color { red: 0, green: 255, blue: 255 }
    } else if index == 7 {
        Color { red: 255, green: 255, blue: 255 }
    } else {
        Color { red: 192, green: 192, blue: 192 }
    }
}

/// A text of one character.
fn one(c: char) -> (text: Vec<char>)
    ensures
        text@ == seq![c],
{
    let mut text: Vec<char> = Vec::new();
    text.push(c);
    assert(text@ =~= seq![c]);
    text
}

/// Fills the marks of a slot into its pattern.
pub fn fill(pattern: &str, free: bool, index: usize) -> (art: Vec<char>)
    ensures
        art@ == filled(pattern@, free, index as nat),
{
    let side = one(if free { ' ' } else { '│' });
    let top_left = one(if free { '─' } else { '┤' });
    let top_right = one(if free { '─' } else { '├' });
    let bottom_left = one(if free { '─' } else { '┘' });
    let bottom_right = one(if free { '─' } else { '└' });
    let mut number: Vec<char> = Vec::new();
    push_two_digits(&mut number, index);
    assert(number@ =~= two_digits(index as nat));
    let art = chars_of(pattern);
    let art = replace(&art, &chars_of("<left>"), &side);
    let art = replace(&art, &chars_of("<right>"), &side);
    let art = replace(&art, &chars_of("<topleft>"), &top_left);
    let art = replace(&art, &chars_of("<topright>"), &top_right);
    let art = replace(&art, &chars_of("<bottomleft>"), &bottom_left);
    let art = replace(&art, &chars_of("<bottomright>"), &bottom_right);
    let art = replace(&art, &chars_of("<padding>"), &one(' '));
    replace(&art, &chars_of("<slotindex>"), &number)
}

/// `n` line feeds.
pub fn feeds(n: usize) -> (text: Vec<char>)
    ensures
        text@ == line_feeds(n as nat),
{
    let mut text: Vec<char> = Vec::new();
    let mut i: usize = 0;
    assert(text@ =~= line_feeds(0));
    while i < n
        invariant
            i <= n,
            text@ == line_feeds(i as nat),
        decreases n - i,
    {
        text.push('\n');
        i = i + 1;
        assert(text@ =~= line_feeds(i as nat));
    }
    text
}

/// The art of one slot of a border.
pub fn draw_slot(frame: &Frame, slot: &Slot, index: usize) -> (text: String)
    ensures
        text@ == slot_art(frame@, slot@, index as nat),
{
    let base = if index != 0 {
        chars_of(frame.separator.as_str())
    } else {
        feeds(lines(&chars_of(frame.left.as_str())).len())
    };
    let free = match slot {
        Slot::Free => true,
        _ => false,
    };
    let art = fill(frame.slot.as_str(), free, index);
    string_of(&append_lines(&base, &art))
}

/// The border of a panel whose slots are drawn from `frame`, and whose ends
/// are `left` and `right`.
pub fn border(frame: &Frame, left: &str, right: &str, slots: &Vec<Slot>) -> (text: String)
    ensures
        text@ == panel_art(
            FrameView { left: left@, right: right@, ..frame@ },
            slot_views(slots@),
        ),
{
    let ghost view = FrameView { left: left@, right: right@, ..frame@ };
    let mut art = chars_of(left);
    let mut i: usize = 0;
    while i < slots.len()
        invariant
            i <= slots.len(),
            view == (FrameView { left: left@, right: right@, ..frame@ }),
            art@ == border_upto(view, slot_views(slots@), i as nat),
        decreases slots.len() - i,
    {
        let slot = draw_slot(frame, &slots[i], i);
        assert(slot_views(slots@)[i as int] == slots[i as int]@);
        art = append_lines(&art, &chars_of(slot.as_str()));
        i = i + 1;
    }
    string_of(&append_lines(&art, &chars_of(right)))
}

/// A group that was seen keeps its place, and with it its colour, whatever
/// group is seen next.
pub proof fn lemma_colour_is_stable(groups: Seq<Seq<char>>, group: Seq<char>, next: Seq<char>)
    requires
        seen_at(groups, group) < groups.len(),
    ensures
        seen_at(remember(groups, next), group) == seen_at(groups, group),
        group_color(remember(groups, next), group) == group_color(groups, group),
{
    assert(groups.push(next).drop_last() =~= groups);
}

/// A run of groups in which `group` first occurs at `at`, or not at all if
/// `at` is their number.
pub proof fn lemma_seen_at(groups: Seq<Seq<char>>, group: Seq<char>, at: int)
    requires
        0 <= at <= groups.len(),
        forall|k: int| 0 <= k < at ==> groups[k] != group,
        at < groups.len() ==> groups[at] == group,
    ensures
        seen_at(groups, group) == at,
    decreases groups.len(),
{
    if groups.len() > 0 {
        let shorter = groups.drop_last();
        if at < groups.len() - 1 {
            lemma_seen_at(shorter, group, at);
        } else {
            lemma_seen_at(shorter, group, groups.len() - 1);
        }
    }
}

impl DefaultTheme {
    /// The names of the groups seen.
    pub closed spec fn names(&self) -> Seq<Seq<char>> {
        Seq::new(self.groups@.len(), |i: int| self.groups@[i]@)
    }

    /// A theme that has seen no group and draws no border.
    pub fn new() -> (theme: Self)
        ensures
            theme.groups() == Seq::<Seq<char>>::empty(),
            theme.frame() == blank_frame(),
    {
        Self::framed(
            Frame {
                left: String::new(),
                right: String::new(),
                separator: String::new(),
                slot: String::new(),
            },
        )
    }

    /// A theme that has seen no group and draws its border from `frame`.
    pub fn framed(frame: Frame) -> (theme: Self)
        ensures
            theme.groups() == Seq::<Seq<char>>::empty(),
            theme.frame() == frame@,
    {
        let theme = DefaultTheme { groups: Vec::new(), frame };
        assert(theme.names() =~= Seq::<Seq<char>>::empty());
        theme
    }
}

impl Default for DefaultTheme {
    /// A theme that has seen no group and draws no border.
    fn default() -> (theme: Self)
        ensures
            theme.groups() == Seq::<Seq<char>>::empty(),
            theme.frame() == blank_frame(),
    {
        Self::new()
    }
}

impl Theme for DefaultTheme {
    closed spec fn groups(&self) -> Seq<Seq<char>> {
        self.names()
    }

    closed spec fn frame(&self) -> FrameView {
        self.frame@
    }

    fn render(&self, placeholder: PlaceHolder) -> (text: String) {
        render_cell(placeholder)
    }

    fn render_slot(&self, slot: &Slot, index: usize) -> (text: String) {
        draw_slot(&self.frame, slot, index)
    }

    fn render_panel(&self, slots: &Vec<Slot>) -> (text: String) {
        border(&self.frame, self.frame.left.as_str(), self.frame.right.as_str(), slots)
    }

    fn style_group(&mut self, group: &str) -> (color: Color) {
        let name = group.to_owned();
        let mut i: usize = 0;
        while i < self.groups.len()
            invariant
                i <= self.groups.len(),
                *self == *old(self),
                name@ == group@,
                forall|k: int| 0 <= k < i ==> self.names()[k] != group@,
            decreases self.groups.len() - i,
        {
            assert(self.names()[i as int] == self.groups@[i as int]@);
            if self.groups[i] == name {
                proof {
                    lemma_seen_at(self.names(), group@, i as int);
                }
                return palette_color(i);
            }
            i = i + 1;
        }
        proof {
            lemma_seen_at(self.names(), group@, i as int);
            lemma_seen_at(self.names().push(group@), group@, i as int);
        }
        let ghost before = self.names();
        self.groups.push(name);
        assert(self.names() =~= before.push(group@));
        palette_color(i)
    }
}

impl RoundedTheme {
    /// A theme that has seen no group and draws no border.
    pub fn new() -> (theme: Self)
        ensures
            theme.groups() == Seq::<Seq<char>>::empty(),
            theme.frame() == blank_frame(),
    {
        RoundedTheme { delegate: DefaultTheme::new(), left: String::new(), right: String::new() }
    }

    /// A theme that has seen no group, draws its slots from `frame`, and
    /// its ends from `left` and `right`.
    pub fn framed(frame: Frame, left: String, right: String) -> (theme: Self)
        ensures
            theme.groups() == Seq::<Seq<char>>::empty(),
            theme.frame() == (FrameView { left: left@, right: right@, ..frame@ }),
    {
        RoundedTheme { delegate: DefaultTheme::framed(frame), left, right }
    }
}

impl Default for RoundedTheme {
    /// A theme that has seen no group and draws no border.
    fn default() -> (theme: Self)
        ensures
            theme.groups() == Seq::<Seq<char>>::empty(),
            theme.frame() == blank_frame(),
    {
        Self::new()
    }
}

impl Theme for RoundedTheme {
    closed spec fn groups(&self) -> Seq<Seq<char>> {
        self.delegate.groups()
    }

    closed spec fn frame(&self) -> FrameView {
        FrameView { left: self.left@, right: self.right@, ..self.delegate.frame() }
    }

    fn render(&self, placeholder: PlaceHolder) -> (text: String) {
        render_cell(placeholder)
    }

    fn render_slot(&self, slot: &Slot, index: usize) -> (text: String) {
        self.delegate.render_slot(slot, index)
    }

    fn render_panel(&self, slots: &Vec<Slot>) -> (text: String) {
        border(&self.delegate.frame, self.left.as_str(), self.right.as_str(), slots)
    }

    fn style_group(&mut self, group: &str) -> (color: Color) {
        self.delegate.style_group(group)
    }
}

impl GenericTheme {
    /// The chosen theme, without a border.
    pub fn new(&self) -> (theme: AnyTheme)
        ensures
            theme.groups() == Seq::<Seq<char>>::empty(),
            theme.frame() == blank_frame(),
            theme is Ascii <==> self is ASCII,
    {
        match self {
            GenericTheme::ASCII => AnyTheme::Ascii(DefaultTheme::new()),
            GenericTheme::Rounded => AnyTheme::Rounded(RoundedTheme::new()),
        }
    }

    /// The chosen theme with its border: `frame` for the plain theme; for
    /// the rounded one the ends of `frame` give way to `rounded_left` and
    /// `rounded_right`.
    pub fn framed(&self, frame: Frame, rounded_left: String, rounded_right: String) -> (theme:
        AnyTheme)
        ensures
            theme.groups() == Seq::<Seq<char>>::empty(),
            theme.frame() == match self {
                GenericTheme::ASCII => frame@,
                GenericTheme::Rounded => FrameView {
                    left: rounded_left@,
                    right: rounded_right@,
                    ..frame@
                },
            },
            theme is Ascii <==> self is ASCII,
    {
        match self {
            GenericTheme::ASCII => AnyTheme::Ascii(DefaultTheme::framed(frame)),
            GenericTheme::Rounded => AnyTheme::Rounded(
                RoundedTheme::framed(frame, rounded_left, rounded_right),
            ),
        }
    }
}

impl Theme for AnyTheme {
    open spec fn groups(&self) -> Seq<Seq<char>> {
        match self {
            AnyTheme::Ascii(theme) => theme.groups(),
            AnyTheme::Rounded(theme) => theme.groups(),
        }
    }

    open spec fn frame(&self) -> FrameView {
        match self {
            AnyTheme::Ascii(theme) => theme.frame(),
            AnyTheme::Rounded(theme) => theme.frame(),
        }
    }

    fn render(&self, placeholder: PlaceHolder) -> (text: String) {
        match self {
            AnyTheme::Ascii(theme) => theme.render(placeholder),
            AnyTheme::Rounded(theme) => theme.render(placeholder),
        }
    }

    fn render_slot(&self, slot: &Slot, index: usize) -> (text: String) {
        match self {
            AnyTheme::Ascii(theme) => theme.render_slot(slot, index),
            AnyTheme::Rounded(theme) => theme.render_slot(slot, index),
        }
    }

    fn render_panel(&self, slots: &Vec<Slot>) -> (text: String) {
        match self {
            AnyTheme::Ascii(theme) => theme.render_panel(slots),
            AnyTheme::Rounded(theme) => theme.render_panel(slots),
        }
    }

    fn style_group(&mut self, group: &str) -> (color: Color) {
        match self {
            AnyTheme::Ascii(theme) => theme.style_group(group),
            AnyTheme::Rounded(theme) => theme.style_group(group),
        }
    }
}

} // verus!
