use qbot_with_typ::log_prefix::{
    forward_line, log_prefix_width, parent_indent, slot_id_digits, slot_prefix_bytes, PaddedStderr,
};

#[test]
fn digits_follow_the_largest_slot() {
    assert_eq!(slot_id_digits(0), 1);
    assert_eq!(slot_id_digits(1), 1);
    assert_eq!(slot_id_digits(2), 1);
    assert_eq!(slot_id_digits(10), 1);
    assert_eq!(slot_id_digits(11), 2);
    assert_eq!(slot_id_digits(101), 3);
    assert_eq!(slot_id_digits(usize::MAX), usize::MAX.to_string().len());
}

#[test]
fn width_leaves_room_for_a_space() {
    assert_eq!(log_prefix_width(2), 2);
    assert_eq!(log_prefix_width(11), 3);
}

#[test]
fn plain_prefix_is_padded_with_zeros() {
    assert_eq!(slot_prefix_bytes(3, 2, false), b"3 ");
    assert_eq!(slot_prefix_bytes(3, 11, false), b"03 ");
    assert_eq!(slot_prefix_bytes(0, 101, false), b"000 ");
    assert_eq!(slot_prefix_bytes(12345, 2, false), b"12345 ");
}

#[test]
fn coloured_prefix_is_bold_and_cyan() {
    assert_eq!(slot_prefix_bytes(7, 11, true), b"\x1b[36;1m07\x1b[0m ");
}

#[test]
fn prefixes_fill_the_column_and_differ() {
    let mut seen = Vec::new();
    for slot in 0..120 {
        let prefix = slot_prefix_bytes(slot, 120, false);
        assert_eq!(prefix.len(), log_prefix_width(120));
        assert!(!seen.contains(&prefix));
        seen.push(prefix);
    }
    assert_eq!(parent_indent(120).len(), log_prefix_width(120));
}

#[test]
fn forwarded_lines_end() {
    assert_eq!(forward_line(b"0 ", b"hello\n"), b"0 hello\n");
    assert_eq!(forward_line(b"0 ", b"hello"), b"0 hello\n");
    assert_eq!(forward_line(b"", b""), b"\n");
    assert_eq!(forward_line(b"0 ", b"\xff\xfe\n"), b"0 \xff\xfe\n");
}

#[test]
fn every_line_is_indented() {
    let mut writer = PaddedStderr::new("  ".to_string());
    assert_eq!(writer.write(b"a\nb\n"), b"  a\n  b\n");
    assert!(writer.at_line_start);
    assert_eq!(writer.write(b"\n"), b"  \n");
    assert_eq!(writer.write(b""), b"");
}

#[test]
fn indenting_in_pieces_is_indenting_at_once() {
    let input = b"one\ntwo\n\nthree";
    let mut whole = PaddedStderr::new("> ".to_string());
    let expected = whole.write(input);
    for cut in 0..=input.len() {
        let mut writer = PaddedStderr::new("> ".to_string());
        let mut out = writer.write(&input[..cut]);
        out.extend(writer.write(&input[cut..]));
        assert_eq!(out, expected);
        assert_eq!(writer.at_line_start, whole.at_line_start);
    }
}

#[test]
fn empty_indent_changes_nothing() {
    let mut writer = PaddedStderr::new(String::new());
    assert_eq!(writer.write(b"a\nb"), b"a\nb");
    assert!(!writer.at_line_start);
}

#[test]
fn stream_is_forwarded_whole() {
    let forward = |stream: &[u8]| -> Vec<u8> {
        stream.split_inclusive(|b| *b == b'\n').flat_map(|chunk| forward_line(b"07 ", chunk)).collect()
    };
    assert_eq!(forward(b""), b"");
    assert_eq!(forward(b"one\n\n\xfftwo\n"), b"07 one\n07 \n07 \xfftwo\n");
    assert_eq!(forward(b"one\n\xfftwo"), b"07 one\n07 \xfftwo\n");

    // As a writer that pads with the prefix would have it, but for the end of the last line
    let mut writer = PaddedStderr::new("07 ".to_string());
    let mut padded = writer.write(b"one\n\ntwo");
    assert!(!writer.at_line_start);
    padded.push(b'\n');
    assert_eq!(forward(b"one\n\ntwo"), padded);
}
