use patchvision::balloon::Balloon;
use patchvision::error::LayoutError;
use patchvision::panel::{Input, Panel, MAX_ROWS};
use patchvision::placeholder::{Color, PlaceHolder};
use patchvision::slot::Slot;
use patchvision::template::Template;
use patchvision::theme::{Frame, GenericTheme};

const COLOR: Color = Color {
    red: 1,
    green: 2,
    blue: 3,
};

fn occupied(text: &str, group: &str) -> Slot {
    Slot::Occupied {
        text: text.into(),
        group: group.into(),
    }
}

fn panel(slots: Vec<Slot>) -> Panel {
    Panel::from(Input {
        slots,
        theme: GenericTheme::ASCII,
    })
}

fn cells(template: &Template) -> Vec<Vec<PlaceHolder>> {
    (0..template.grid.rows())
        .map(|row| template.grid.iter_row(row).copied().collect())
        .collect()
}

fn spans(grid: &Vec<Vec<Balloon>>) -> Vec<Vec<(usize, usize, usize, usize)>> {
    grid.iter()
        .map(|row| {
            row.iter()
                .map(|b| (b.proto().slot(), b.shift(), b.start(), b.end()))
                .collect()
        })
        .collect()
}

#[test]
fn an_empty_row_takes_the_label_at_its_largest_shift() {
    let mut grid: Vec<Vec<Balloon>> = Vec::new();
    assert_eq!(Ok(0), Panel::place(&mut grid, 10, "abcdefghijklmn".into(), COLOR));
    assert_eq!(vec![vec![(10, 2, 87, 106)]], spans(&grid));
    assert_eq!(0, grid[0][0].row());
    assert_eq!(COLOR, grid[0][0].proto().color());
    assert_eq!("abcdefghijklmn", grid[0][0].proto().text());
}

#[test]
fn wide_neighbours_go_to_different_rows() {
    let mut grid: Vec<Vec<Balloon>> = Vec::new();
    assert_eq!(Ok(0), Panel::place(&mut grid, 0, "wide text here".into(), COLOR));
    assert_eq!(Ok(1), Panel::place(&mut grid, 1, "another wide text".into(), COLOR));
    assert_eq!(vec![vec![(0, 1, 6, 25)], vec![(1, 2, 6, 28)]], spans(&grid));
    assert_eq!(1, grid[1][0].row());
    for row in &grid {
        for (i, a) in row.iter().enumerate() {
            for (j, b) in row.iter().enumerate() {
                if i != j {
                    assert!(!a.overlaps(b));
                }
            }
        }
    }
    let mut canvas = Template::default();
    for balloon in grid.iter().flatten() {
        canvas = canvas.overlay(balloon.pre_render());
    }
    let drawn = cells(&canvas);
    assert_eq!(6, drawn.len());
    let upper: String = drawn[1]
        .iter()
        .filter_map(|cell| match cell {
            PlaceHolder::Text(c, _) => Some(*c),
            _ => None,
        })
        .collect();
    let lower: String = drawn[4]
        .iter()
        .filter_map(|cell| match cell {
            PlaceHolder::Text(c, _) => Some(*c),
            _ => None,
        })
        .collect();
    assert_eq!("another wide text", upper);
    assert_eq!("wide text here", lower);
}

#[test]
fn a_row_takes_a_label_at_the_largest_shift_that_fits() {
    let mut grid: Vec<Vec<Balloon>> = Vec::new();
    assert_eq!(Ok(0), Panel::place(&mut grid, 0, "abcdefghijkl".into(), COLOR));
    assert_eq!(Ok(0), Panel::place(&mut grid, 1, "Paarden".into(), COLOR));
    assert_eq!(Ok(0), Panel::place(&mut grid, 5, "abcdefgh".into(), COLOR));
    assert_eq!(
        vec![vec![(0, 1, 6, 22), (1, 0, 24, 37), (5, 1, 51, 64)]],
        spans(&grid)
    );
    let row = &grid[0];
    for i in 0..row.len() {
        for j in 0..row.len() {
            if i != j {
                assert!(!row[i].overlaps(&row[j]));
                assert!(row[i].end() <= Balloon::WIDTH);
                assert!(row[j].end() <= Balloon::WIDTH);
            }
        }
    }
}

#[test]
fn shift_adds_to_the_row_or_leaves_it() {
    let mut stack = vec![Balloon::_right(COLOR, "abcdefghijkl".into(), 0, 0).unwrap()];
    assert!(!Panel::shift(1, "Paarden", COLOR, 0, &mut stack));
    assert_eq!(1, stack.len());
    assert!(Panel::shift(2, "Paarden", COLOR, 0, &mut stack));
    assert_eq!(2, stack.len());
    assert_eq!((2, 0, 33, 46), (stack[1].proto().slot(), stack[1].shift(), stack[1].start(), stack[1].end()));
    assert!(!Panel::shift(24, "a", COLOR, 0, &mut stack));
    assert_eq!(2, stack.len());
    let long = "x".repeat(250);
    assert!(!Panel::shift(23, &long, COLOR, 0, &mut stack));
    assert_eq!(2, stack.len());
    assert!(Panel::shift(23, "another wide text", COLOR, 0, &mut stack));
    assert_eq!((23, 2, 204, 226), (stack[2].proto().slot(), stack[2].shift(), stack[2].start(), stack[2].end()));
}

#[test]
fn a_slot_beyond_the_panel_is_not_placed() {
    let mut grid: Vec<Vec<Balloon>> = Vec::new();
    assert_eq!(
        Err(LayoutError::InvalidSlot { slot: 24 }),
        Panel::place(&mut grid, 24, "a".into(), COLOR)
    );
    assert!(grid.is_empty());
    assert_eq!(Ok(0), Panel::place(&mut grid, 23, "a".into(), COLOR));
    assert_eq!(
        Err(LayoutError::InvalidSlot { slot: 24 }),
        Panel::place(&mut grid, 24, "a".into(), COLOR)
    );
    assert_eq!(vec![vec![(23, 0, 222, 229)]], spans(&grid));
}

#[test]
fn no_more_than_six_rows() {
    assert_eq!(6, MAX_ROWS);
    let long = "x".repeat(250);
    let mut grid: Vec<Vec<Balloon>> = Vec::new();
    for slot in 0..6 {
        assert_eq!(Ok(slot), Panel::place(&mut grid, slot, long.clone(), COLOR));
        assert_eq!(slot + 1, grid.len());
    }
    assert_eq!(
        Err(LayoutError::PlacementExhausted { slot: 6 }),
        Panel::place(&mut grid, 6, long.clone(), COLOR)
    );
    assert_eq!(6, grid.len());
    for row in &grid {
        assert_eq!(1, row.len());
    }
    assert_eq!(
        Err(LayoutError::PlacementExhausted { slot: 20 }),
        Panel::place(&mut grid, 20, "a".into(), COLOR)
    );
    assert_eq!(6, grid.len());
    for row in &grid {
        assert_eq!(1, row.len());
    }
}

#[test]
fn layout_draws_every_label() {
    let mut panel = panel(vec![
        occupied("ab", "left"),
        Slot::Free,
        occupied("Paarden", "right"),
    ]);
    let canvas = cells(&panel.layout().unwrap());
    let red = Color {
        red: 255,
        green: 0,
        blue: 0,
    };
    let orange = Color {
        red: 255,
        green: 128,
        blue: 0,
    };
    assert_eq!(3, canvas.len());
    assert_eq!(37, canvas[0].len());
    assert_eq!(PlaceHolder::Text('a', red), canvas[1][17]);
    assert_eq!(PlaceHolder::Text('b', red), canvas[1][18]);
    assert_eq!(PlaceHolder::West, canvas[1][24]);
    assert_eq!(PlaceHolder::Text('P', orange), canvas[1][27]);
    assert_eq!(PlaceHolder::Text('n', orange), canvas[1][33]);
    assert_eq!(PlaceHolder::TransitionLeft, canvas[2][16]);
    assert_eq!(PlaceHolder::TransitionLeft, canvas[2][34]);
    assert_eq!(PlaceHolder::TransitionRight, canvas[2][35]);
    assert_eq!(PlaceHolder::SouthEast, canvas[2][36]);
}

#[test]
fn a_free_slot_adds_nothing_to_the_canvas() {
    let mut free = panel(vec![Slot::Free, Slot::Free, Slot::Free]);
    assert_eq!(vec![vec![PlaceHolder::Empty]], cells(&free.layout().unwrap()));
    let mut none = panel(Vec::new());
    assert_eq!(vec![vec![PlaceHolder::Empty]], cells(&none.layout().unwrap()));
    let mut mixed = panel(vec![Slot::Free, occupied("ab", "g"), Slot::Free]);
    let red = Color {
        red: 255,
        green: 0,
        blue: 0,
    };
    let alone =
        Template::default().overlay(Balloon::left(red, "ab".into(), 1, 0).unwrap().pre_render());
    assert_eq!(cells(&alone), cells(&mixed.layout().unwrap()));
}

#[test]
fn render_gives_canvas_and_border() {
    colored::control::set_override(false);
    let slots = vec![occupied("ab", "g"), Slot::Free];
    let frame = Frame {
        left: "[\n[".into(),
        right: "]\n]".into(),
        separator: "|\n|".into(),
        slot: "<left><slotindex><right>\n<bottomleft><padding><bottomright>".into(),
    };
    let mut panel = Panel {
        slots,
        theme: GenericTheme::ASCII.framed(frame, "(\n(".into(), ")\n)".into()),
    };
    let expected = [
        String::new(),
        format!("{}┌─────┐", " ".repeat(15)),
        format!("{}│ ab  │", " ".repeat(15)),
        format!("{}└┐┌───┘", " ".repeat(15)),
        "[│00│| 01 ]".to_string(),
        "[┘ └|─ ─]".to_string(),
    ]
    .join("\n");
    assert_eq!(Ok(expected), panel.render());
}

#[test]
fn render_without_labels_or_border() {
    let mut panel = panel(vec![Slot::Free]);
    assert_eq!(Ok("\n \n".to_string()), panel.render());
}

#[test]
fn render_reports_all_failures() {
    let long = "x".repeat(250);
    let mut slots: Vec<Slot> = (0..7).map(|_| occupied(&long, "g")).collect();
    slots.push(occupied("abcd", "g"));
    while slots.len() < 24 {
        slots.push(Slot::Free);
    }
    slots.push(occupied("beyond", "g"));
    slots.push(Slot::Free);
    slots.push(occupied("far beyond", "h"));
    let mut panel = panel(slots);
    assert_eq!(
        Err(vec![
            LayoutError::PlacementExhausted { slot: 6 },
            LayoutError::PlacementExhausted { slot: 7 },
            LayoutError::InvalidSlot { slot: 24 },
            LayoutError::InvalidSlot { slot: 26 },
        ]),
        panel.render()
    );
}

#[test]
fn a_balloon_with_a_detached_pointer_is_reported() {
    let mut panel = panel(vec![occupied("abcd", "g"), Slot::Free, occupied("ok", "g")]);
    assert_eq!(
        Err(vec![LayoutError::PointerDetached { slot: 0 }]),
        panel.render()
    );
    let mut grid: Vec<Vec<Balloon>> = Vec::new();
    assert_eq!(Ok(0), Panel::place(&mut grid, 0, "abcd".into(), COLOR));
    assert_eq!(vec![vec![(0, 1, 6, 16)]], spans(&grid));
    assert!(!grid[0][0].is_anchored());
}

#[test]
fn failures_come_by_rising_slot() {
    let long = "x".repeat(250);
    let mut slots = vec![occupied("abcd", "g")];
    for _ in 0..6 {
        slots.push(occupied(&long, "g"));
    }
    slots.push(occupied("abcdef", "h"));
    let mut panel = panel(slots);
    assert_eq!(
        Err(vec![
            LayoutError::PointerDetached { slot: 0 },
            LayoutError::PlacementExhausted { slot: 6 },
            LayoutError::PointerDetached { slot: 7 },
        ]),
        panel.render()
    );
}

#[test]
fn balloons_are_drawn_by_rising_slot() {
    let mut grid: Vec<Vec<Balloon>> = Vec::new();
    let labels = [(0, "wide text here"), (1, "another wide text"), (4, "ab"), (5, "a third wide text")];
    let mut expected = Template::default();
    for (slot, label) in labels {
        let row = Panel::place(&mut grid, slot, label.into(), palette(slot)).unwrap();
        expected = expected.overlay(grid[row].last().unwrap().pre_render());
    }
    assert_eq!(vec![3, 1], grid.iter().map(|row| row.len()).collect::<Vec<usize>>());
    let slots = vec![
        occupied("wide text here", "a"),
        occupied("another wide text", "b"),
        Slot::Free,
        Slot::Free,
        occupied("ab", "c"),
        occupied("a third wide text", "d"),
    ];
    let mut panel = panel(slots);
    assert_eq!(cells(&expected), cells(&panel.layout().unwrap()));
}

fn palette(slot: usize) -> Color {
    match slot {
        0 => Color {
            red: 255,
            green: 0,
            blue: 0,
        },
        1 => Color {
            red: 255,
            green: 128,
            blue: 0,
        },
        4 => Color {
            red: 255,
            green: 255,
            blue: 0,
        },
        _ => Color {
            red: 0,
            green: 255,
            blue: 0,
        },
    }
}

#[test]
fn errors_in_words() {
    assert_eq!(
        "24 is not in a valid slot!",
        LayoutError::InvalidSlot { slot: 24 }.message()
    );
    assert_eq!(
        "Shift 3 is too large for balloon Ferkels",
        LayoutError::ShiftTooLarge {
            shift: 3,
            text: "Ferkels".into()
        }
        .message()
    );
    assert_eq!(
        "No row has room for the balloon of slot 106",
        LayoutError::PlacementExhausted { slot: 106 }.message()
    );
    assert_eq!(
        "The pointer of the balloon of slot 0 starts beyond its wall",
        LayoutError::PointerDetached { slot: 0 }.message()
    );
}
