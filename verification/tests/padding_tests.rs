use rgb_log::padding::PadLeft;
use rgb_log::padding::make_spaces;
use rgb_log::padding::str_eq;
use rgb_log::padding::to_pad_map_left;

#[test]
fn padding_default_to_pad_map_left() {
    let labels = vec!["INFO".to_string(), "ERROR".to_string()];
    let mut v: Vec<(String, usize)> = to_pad_map_left(&labels).1;
    v.sort_by(|(a, _), (b, _)| a.cmp(b));

    let expected = vec![("ERROR".to_string(), 0), ("INFO".to_string(), 1)];

    assert_eq!(v, expected);
}

#[test]
fn width_is_widest_label() {
    let labels = vec!["a".to_string(), "bbb".to_string()];
    let table = PadLeft::new(labels);
    assert_eq!(table.width, 3);

    let (pad_a, key_a) = table.get_split("a");
    assert_eq!(pad_a, "  ");
    assert_eq!(key_a, "a");
    assert_eq!(pad_a.chars().count() + key_a.chars().count(), table.width);

    let (pad_b, key_b) = table.get_split("bbb");
    assert_eq!(pad_b, "");
    assert_eq!(key_b, "bbb");
    assert_eq!(pad_b.chars().count() + key_b.chars().count(), table.width);
}

#[test]
fn empty_label_set_has_width_zero() {
    let table = PadLeft::new(Vec::new());
    assert_eq!(table.width, 0);
    let (pad, key) = table.get_split("anything");
    assert_eq!(pad, "");
    assert_eq!(key, "anything");
}

#[test]
fn unknown_label_pads_ad_hoc() {
    let table = PadLeft::new(vec!["abc".to_string()]);
    assert_eq!(table.width, 3);

    let (pad, key) = table.get_split("z");
    assert_eq!(pad, "  ");
    assert_eq!(key, "z");

    let (pad_long, key_long) = table.get_split("wxyz");
    assert_eq!(pad_long, "");
    assert_eq!(key_long, "wxyz");

    assert_eq!(table.get("z"), "  z");
}

#[test]
fn width_counts_characters_not_bytes() {
    let table = PadLeft::new(vec!["héllo".to_string(), "ab".to_string()]);
    assert_eq!(table.width, 5);
    let (pad, _) = table.get_split("ab");
    assert_eq!(pad, "   ");
}

#[test]
fn duplicate_labels_collapse() {
    let (width, map) = to_pad_map_left(&vec!["xy".to_string(), "xy".to_string()]);
    assert_eq!(width, 2);
    assert_eq!(map.len(), 1);
    assert_eq!(map[0], ("xy".to_string(), 0));
}

#[test]
fn spaces_and_string_equality() {
    assert_eq!(make_spaces(0), "");
    assert_eq!(make_spaces(4), "    ");
    assert!(str_eq("abc", "abc"));
    assert!(!str_eq("abc", "abd"));
    assert!(!str_eq("abc", "ab"));
}
