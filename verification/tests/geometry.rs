use patchvision::balloon::{inner_width, max_shift, width, Balloon};
use patchvision::error::LayoutError;
use patchvision::placeholder::Color;
use patchvision::round::Round;

const COLOR: Color = Color {
    red: 0,
    green: 0,
    blue: 0,
};

#[test]
fn test_round() {
    assert_eq!(15, 13usize.up(3));
    assert_eq!(12, 13usize.down(3));
}

#[test]
fn round_keeps_multiples_and_zero() {
    assert_eq!(12, 12usize.up(3));
    assert_eq!(12, 12usize.down(3));
    assert_eq!(0, 0usize.up(3));
    assert_eq!(0, 0usize.down(3));
    assert_eq!(3, 1usize.up(3));
    assert_eq!(0, 2usize.down(3));
}

#[test]
fn max_shift_of_sample_texts() {
    assert_eq!(0, max_shift("a", 0));
    assert_eq!(0, max_shift("abc", 0));
    assert_eq!(1, max_shift("abcd", 0));
    assert_eq!(0, max_shift("a", 10));
    assert_eq!(1, max_shift("abcd", 10));
    assert_eq!(1, max_shift("abcdefg", 10));
    assert_eq!(1, max_shift("abcdefghijkl", 10));
    assert_eq!(2, max_shift("abcdefghijklm", 10));
    assert_eq!(2, max_shift("abcdefghijklmn", 10));
    assert_eq!(1, max_shift("abcdefghijklmn", 0));
    assert_eq!(2, max_shift("abcdefghijklmn", 1));
}

#[test]
fn dimensions_of_an_empty_balloon() {
    let balloon = Balloon::_right(COLOR, "".into(), 3, 1).unwrap();
    assert_eq!(4, balloon.proto().width());
    assert_eq!(6, balloon._height());
    assert_eq!(42, balloon.start());
    assert_eq!(46, balloon.end());
    assert_eq!(3, balloon.y());
    assert_eq!(1, balloon.proto().left_padding());
    assert_eq!(1, balloon.proto().right_padding());
}

#[test]
fn width_of_sample_texts() {
    assert_eq!(4, width(""));
    assert_eq!(7, width("a"));
    assert_eq!(7, width("abc"));
    assert_eq!(10, width("abcd"));
    assert_eq!(13, width("abcdefg"));
}

#[test]
fn inner_width_counts_characters_not_bytes() {
    assert_eq!(0, inner_width(""));
    assert_eq!(5, inner_width("grün!"));
    assert_eq!(7, width("grü"));
}

#[test]
fn max_shift_grows_with_slot_and_width() {
    let texts = ["", "abcd", "abcdefg", "a text of some length", "x"];
    for text in texts {
        let mut previous = 0;
        for slot in 0..24 {
            let shift = max_shift(text, slot);
            assert!(shift >= previous);
            assert!(shift <= slot + 1);
            previous = shift;
        }
    }
    for slot in 0..24 {
        assert!(max_shift("abc", slot) <= max_shift("abcd", slot));
        assert!(max_shift("abcd", slot) <= max_shift("a much longer text than those", slot));
    }
    assert_eq!(0, max_shift("", 0));
    assert_eq!(0, max_shift("ab", 23));
    assert_eq!(2, max_shift("a much longer text than those", 1));
    assert_eq!(3, max_shift("a much longer text than those", 2));
    assert_eq!(3, max_shift("a much longer text than those", 5));
}

#[test]
fn paarden_at_its_largest_shift() {
    let shift = max_shift("Paarden", 0);
    assert_eq!(1, shift);
    let balloon = Balloon::new(COLOR, "Paarden".into(), 0, 0, shift).unwrap();
    assert_eq!(7, balloon.proto().inner_width());
    assert_eq!(13, balloon.proto().width());
    assert_eq!(4, balloon.proto().padding());
    assert_eq!(2, balloon.proto().left_padding());
    assert_eq!(2, balloon.proto().right_padding());
    assert_eq!(16, balloon.proto().arrow());
    assert_eq!(6, balloon.x());
    assert_eq!(6, balloon.start());
    assert_eq!(19, balloon.end());
    assert_eq!(0, balloon.y());
    assert_eq!(3, balloon._height());
    assert_eq!(1, balloon.shift());
    assert_eq!(0, balloon.row());
}

#[test]
fn odd_padding_goes_to_the_right() {
    let balloon = Balloon::_right(COLOR, "ab".into(), 2, 0).unwrap();
    assert_eq!(7, balloon.proto().width());
    assert_eq!(3, balloon.proto().padding());
    assert_eq!(1, balloon.proto().left_padding());
    assert_eq!(2, balloon.proto().right_padding());
    assert_eq!(34, balloon.proto().arrow());
    assert_eq!(33, balloon.x());
    assert_eq!(40, balloon.end());
}

#[test]
fn a_shift_beyond_the_maximum_is_refused() {
    for slot in 0..24 {
        let most = max_shift("Paarden", slot);
        assert!(Balloon::new(COLOR, "Paarden".into(), slot, 0, most).is_ok());
        assert_eq!(
            Err(LayoutError::ShiftTooLarge {
                shift: most + 1,
                text: "Paarden".into()
            }),
            Balloon::new(COLOR, "Paarden".into(), slot, 0, most + 1).map(|balloon| balloon.shift())
        );
    }
    assert_eq!(
        Err(LayoutError::ShiftTooLarge {
            shift: 3,
            text: "Ferkels".into()
        }),
        Balloon::new(COLOR, "Ferkels".into(), 2, 1, 3).map(|balloon| balloon.shift())
    );
}

#[test]
fn a_slot_beyond_the_panel_is_refused() {
    assert!(Balloon::new(COLOR, "a".into(), 23, 0, 0).is_ok());
    assert_eq!(
        Err(LayoutError::InvalidSlot { slot: 24 }),
        Balloon::new(COLOR, "a".into(), 24, 0, 0).map(|balloon| balloon.shift())
    );
    assert_eq!(
        Err(LayoutError::InvalidSlot { slot: 24 }),
        Balloon::new(COLOR, "a".into(), 24, 0, 9).map(|balloon| balloon.shift())
    );
    assert_eq!(
        Err(LayoutError::InvalidSlot { slot: 100 }),
        Balloon::_right(COLOR, "a".into(), 100, 0).map(|balloon| balloon.shift())
    );
    assert_eq!(
        Err(LayoutError::InvalidSlot { slot: 100 }),
        Balloon::left(COLOR, "a".into(), 100, 0).map(|balloon| balloon.shift())
    );
}

#[test]
fn left_takes_the_largest_shift_and_right_none() {
    let left = Balloon::left(COLOR, "abcdefghijklmn".into(), 10, 2).unwrap();
    assert_eq!(2, left.shift());
    assert_eq!(2, left.row());
    assert_eq!(87, left.x());
    assert_eq!(106, left.end());
    let right = Balloon::_right(COLOR, "abcdefg".into(), 10, 2).unwrap();
    assert_eq!(0, right.shift());
    assert_eq!(105, right.x());
}

#[test]
fn overlaps_is_symmetric_and_a_shared_column_counts() {
    let a = Balloon::_right(COLOR, "abc".into(), 0, 0).unwrap();
    let b = Balloon::_right(COLOR, "abc".into(), 1, 0).unwrap();
    let c = Balloon::_right(COLOR, "abc".into(), 2, 0).unwrap();
    let wide = Balloon::_right(COLOR, "abcdefghijk".into(), 0, 0).unwrap();
    assert_eq!((15, 22), (a.start(), a.end()));
    assert_eq!((24, 31), (b.start(), b.end()));
    assert_eq!((15, 31), (wide.start(), wide.end()));
    let all = [&a, &b, &c, &wide];
    for one in all {
        for other in all {
            assert_eq!(one.overlaps(other), other.overlaps(one));
        }
        assert!(one.overlaps(one));
    }
    assert!(!a.overlaps(&b));
    assert!(!b.overlaps(&c));
    assert!(wide.overlaps(&a));
    assert!(wide.overlaps(&b));
    assert!(!wide.overlaps(&c));
    let touching = Balloon::_right(COLOR, "abcdef".into(), 0, 0).unwrap();
    assert_eq!(25, touching.end());
    assert!(touching.overlaps(&b));
    assert!(b.overlaps(&touching));
}

#[test]
fn anchoring_depends_on_shift_and_width() {
    assert!(Balloon::new(COLOR, "Paarden".into(), 0, 0, 1).unwrap().is_anchored());
    assert!(Balloon::new(COLOR, "abcd".into(), 0, 0, 0).unwrap().is_anchored());
    assert!(!Balloon::new(COLOR, "abcd".into(), 0, 0, 1).unwrap().is_anchored());
    assert!(!Balloon::left(COLOR, "abcdef".into(), 7, 0).unwrap().is_anchored());
}
