use patchvision::placeholder::{Color, PlaceHolder};
use patchvision::slot::Slot;
use patchvision::theme::{
    border, draw_slot, feeds, fill, glyph_of, palette_color, render_cell, AnyTheme,
    AppendMultiline, DefaultTheme, Frame, GenericTheme, RoundedTheme, Theme,
};

fn color(red: u8, green: u8, blue: u8) -> Color {
    Color { red, green, blue }
}

fn frame() -> Frame {
    Frame {
        left: "+-\n| \n+-".into(),
        right: "-+\n |\n-+".into(),
        separator: "-\n:\n-".into(),
        slot: "<topleft><padding><topright>\n<left><slotindex><right>\n<bottomleft><padding><bottomright>".into(),
    }
}

fn occupied() -> Slot {
    Slot::Occupied {
        text: "label".into(),
        group: "group".into(),
    }
}

#[test]
fn test_multiline_append() {
    let left = "a\nb\nc";
    let right = "1\n2\n3";
    assert_eq!("a1\nb2\nc3", left.append_multiline(right.into()))
}

#[test]
fn append_multiline_stops_with_the_shorter_text() {
    assert_eq!("a1\nb2", "a\nb\nc".append_multiline("1\n2".into()));
    assert_eq!("a1", "a".to_string().append_multiline("1\n2\n3\n".into()));
    assert_eq!("", "".append_multiline("1\n2".into()));
    assert_eq!("", "a\nb".append_multiline("".into()));
    assert_eq!("x\ny", "\n\n\n".append_multiline("x\ny".into()));
    assert_eq!("ab\ncd", "a\r\nc\r\n".append_multiline("b\nd".into()));
}

#[test]
fn glyphs_of_all_cells() {
    let pairs = [
        (PlaceHolder::Empty, ' '),
        (PlaceHolder::Padding, ' '),
        (PlaceHolder::North, '─'),
        (PlaceHolder::South, '─'),
        (PlaceHolder::East, '│'),
        (PlaceHolder::West, '│'),
        (PlaceHolder::NorthEast, '┐'),
        (PlaceHolder::TransitionLeft, '┐'),
        (PlaceHolder::NorthWest, '┌'),
        (PlaceHolder::TransitionRight, '┌'),
        (PlaceHolder::SouthEast, '┘'),
        (PlaceHolder::SouthWest, '└'),
        (PlaceHolder::TransitionLeftEdge, '│'),
        (PlaceHolder::TransitionRightEdge, '│'),
        (PlaceHolder::ArrowLeft, '│'),
        (PlaceHolder::ArrowRight, '│'),
        (PlaceHolder::ArrowOverlayNorthLeft, '┴'),
        (PlaceHolder::ArrowOverlayNorthRight, '┴'),
        (PlaceHolder::ArrowOverlaySouthLeft, '┬'),
        (PlaceHolder::ArrowOverlaySouthRight, '┬'),
        (PlaceHolder::Text('q', color(1, 2, 3)), 'q'),
    ];
    let plain = DefaultTheme::new();
    let rounded = RoundedTheme::new();
    colored::control::set_override(false);
    for (cell, glyph) in pairs {
        assert_eq!(glyph, glyph_of(cell));
        assert_eq!(glyph.to_string(), render_cell(cell));
        assert_eq!(glyph.to_string(), plain.render(cell));
        assert_eq!(glyph.to_string(), rounded.render(cell));
    }
}

#[test]
fn text_is_painted_in_its_colour() {
    colored::control::set_override(true);
    let shown = render_cell(PlaceHolder::Text('q', color(1, 2, 3)));
    assert!(shown.contains('q'));
    assert_ne!("q", shown);
    assert!(shown.starts_with('\u{1b}'));
    assert_eq!(" ", render_cell(PlaceHolder::Padding));
}

#[test]
fn colours_by_first_seen_order() {
    let expected = [
        color(255, 0, 0),
        color(255, 128, 0),
        color(255, 255, 0),
        color(0, 255, 0),
        color(64, 128, 255),
        color(255, 0, 255),
        color(0, 255, 255),
        color(255, 255, 255),
        color(192, 192, 192),
        color(192, 192, 192),
    ];
    for (index, colour) in expected.iter().enumerate() {
        assert_eq!(*colour, palette_color(index));
    }
    assert_eq!(color(192, 192, 192), palette_color(1000));
    let names = ["a", "b", "c", "d", "e", "f", "g", "h", "i", "j"];
    let mut themes: Vec<AnyTheme> = vec![GenericTheme::ASCII.new(), GenericTheme::Rounded.new()];
    for theme in themes.iter_mut() {
        for (index, name) in names.iter().enumerate() {
            assert_eq!(expected[index], theme.style_group(name));
        }
        for (index, name) in names.iter().enumerate().rev() {
            assert_eq!(expected[index], theme.style_group(name));
        }
        assert_eq!(color(192, 192, 192), theme.style_group("k"));
        assert_eq!(color(255, 0, 0), theme.style_group("a"));
    }
    let mut plain = DefaultTheme::default();
    assert_eq!(color(255, 0, 0), plain.style_group("second"));
    assert_eq!(color(255, 128, 0), plain.style_group("first"));
    assert_eq!(color(255, 0, 0), plain.style_group("second"));
    let mut rounded = RoundedTheme::default();
    assert_eq!(color(255, 0, 0), rounded.style_group(""));
    assert_eq!(color(255, 128, 0), rounded.style_group(" "));
    assert_eq!(color(255, 0, 0), rounded.style_group(""));
}

#[test]
fn marks_of_occupied_and_free_slots() {
    let pattern = "<topleft><padding><topright>|<left><slotindex><right>|<bottomleft><bottomright>";
    let text = |chars: Vec<char>| chars.into_iter().collect::<String>();
    assert_eq!("┤ ├|│07│|┘└", text(fill(pattern, false, 7)));
    assert_eq!("─ ─| 07 |──", text(fill(pattern, true, 7)));
    assert_eq!("┤ ├|│23│|┘└", text(fill(pattern, false, 23)));
    assert_eq!("┤ ├|│123│|┘└", text(fill(pattern, false, 123)));
    assert_eq!("no marks", text(fill("no marks", false, 0)));
    assert_eq!("00<left", text(fill("<slotindex><left", true, 0)));
}

#[test]
fn art_of_one_slot() {
    let frame = frame();
    assert_eq!("┤ ├\n│00│\n┘ └", draw_slot(&frame, &occupied(), 0));
    assert_eq!("-─ ─\n: 01 \n-─ ─", draw_slot(&frame, &Slot::Free, 1));
    assert_eq!("-┤ ├\n:│12│\n-┘ └", draw_slot(&frame, &occupied(), 12));
    let plain = DefaultTheme::framed(self::frame());
    assert_eq!("-┤ ├\n:│12│\n-┘ └", plain.render_slot(&occupied(), 12));
    let rounded = RoundedTheme::framed(self::frame(), "(\n(\n(\n(".into(), ")".into());
    assert_eq!("┤ ├\n│00│\n┘ └", rounded.render_slot(&occupied(), 0));
    let text = |chars: Vec<char>| chars.into_iter().collect::<String>();
    assert_eq!("\n\n\n", text(feeds(3)));
    assert_eq!("", text(feeds(0)));
}

#[test]
fn border_of_a_panel() {
    let slots = vec![occupied(), Slot::Free, occupied()];
    let expected = "+-┤ ├-─ ─-┤ ├-+\n| │00│: 01 :│02│ |\n+-┘ └-─ ─-┘ └-+";
    assert_eq!(expected, border(&frame(), "+-\n| \n+-", "-+\n |\n-+", &slots));
    let plain = GenericTheme::ASCII.framed(frame(), "(\n(\n(".into(), ")\n)\n)".into());
    assert_eq!(expected, plain.render_panel(&slots));
    let rounded = GenericTheme::Rounded.framed(frame(), "(\n(\n(".into(), ")\n)\n)".into());
    assert_eq!(
        "(┤ ├-─ ─-┤ ├)\n(│00│: 01 :│02│)\n(┘ └-─ ─-┘ └)",
        rounded.render_panel(&slots)
    );
    assert_eq!("", GenericTheme::ASCII.new().render_panel(&slots));
    assert_eq!("+--+\n|  |\n+--+", plain.render_panel(&Vec::new()));
}
