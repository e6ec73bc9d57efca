use fixed_width::layout::pad_right;

#[test]
fn pads_short_value_with_spaces() {
    assert_eq!(pad_right("abc", 5), "abc  ");
}

#[test]
fn truncates_long_value() {
    assert_eq!(pad_right("abcdef", 3), "abc");
}

#[test]
fn keeps_value_of_exact_width() {
    assert_eq!(pad_right("abcde", 5), "abcde");
}

#[test]
fn empty_value_becomes_all_spaces() {
    assert_eq!(pad_right("", 4), "    ");
}

#[test]
fn width_zero_gives_empty_string() {
    assert_eq!(pad_right("abc", 0), "");
    assert_eq!(pad_right("", 0), "");
}

#[test]
fn result_always_has_the_width_asked_for() {
    let values = ["", "a", "Smith", "a much longer value than any column", "  spaced  "];
    for value in values {
        for width in 0..40 {
            assert_eq!(pad_right(value, width).chars().count(), width);
        }
    }
}

#[test]
fn padding_is_idempotent() {
    let values = ["", "a", "Smith", "a much longer value than any column", "  spaced  "];
    for value in values {
        for width in 0..40 {
            let once = pad_right(value, width);
            let twice = pad_right(&once, width);
            assert_eq!(twice, once);
        }
    }
}

#[test]
fn long_value_is_cut_to_its_first_characters() {
    let value = "abcdefghijklmnopqrstuvwxyz";
    for width in 0..=value.len() {
        assert_eq!(pad_right(value, width), &value[..width]);
    }
}

#[test]
fn short_value_is_kept_and_followed_by_spaces() {
    let padded = pad_right("IL", 3);
    assert_eq!(padded, "IL ");
    let padded = pad_right("John", 15);
    assert_eq!(&padded[..4], "John");
    assert_eq!(&padded[4..], " ".repeat(11));
}

#[test]
fn widths_count_characters_not_bytes() {
    assert_eq!(pad_right("é", 3), "é  ");
    assert_eq!(pad_right("ééé", 2), "éé");
    assert_eq!(pad_right("Zoë", 3), "Zoë");
    assert_eq!(pad_right("日本語", 5).chars().count(), 5);
}
