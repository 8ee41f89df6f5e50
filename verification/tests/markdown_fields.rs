use syntax_tree::markdown::markdown_field_ranges;

fn fields(source: &str, key: bool) -> Vec<String> {
    markdown_field_ranges(source, 0, key)
        .into_iter()
        .map(|range| source[range].to_string())
        .collect()
}

#[test]
fn keys_and_same_line_values_are_separated() {
    let source = "slot:What\nlimit_line: 3\n所有者前缀: human: / agent:\nWhat:\n  下一行保持原色\n";
    assert_eq!(fields(source, true), vec!["slot", "limit_line", "所有者前缀", "What"]);
    assert_eq!(fields(source, false), vec!["What", "3", "human: / agent:", ""]);
}

#[test]
fn ranges_are_offset_by_the_start_byte() {
    let ranges = markdown_field_ranges("a: b\n", 100, true);
    assert_eq!(ranges, vec![100..101]);
    let ranges = markdown_field_ranges("a: b\n", 100, false);
    assert_eq!(ranges, vec![103..104]);
}

#[test]
fn key_is_trimmed_and_value_runs_to_line_end() {
    let source = "  name  :   some value  \n";
    assert_eq!(fields(source, true), vec!["name"]);
    assert_eq!(fields(source, false), vec!["some value"]);
}

#[test]
fn non_fields_are_skipped() {
    // URL-like values, names starting with a digit or holding punctuation,
    // lines without a colon, and empty names contribute nothing.
    let source = "https://example.com\n12:30\nfoo.bar: x\nno colon here\n: empty\n- item: x\n";
    assert!(fields(source, true).is_empty());
    assert!(fields(source, false).is_empty());
}

#[test]
fn underscore_and_dash_names_are_fields() {
    let source = "_private-key: v\n";
    assert_eq!(fields(source, true), vec!["_private-key"]);
    assert_eq!(fields(source, false), vec!["v"]);
}

#[test]
fn empty_text_has_no_fields() {
    assert!(markdown_field_ranges("", 0, true).is_empty());
}

#[test]
fn last_line_without_newline_counts() {
    let source = "a: b\nc: d";
    assert_eq!(fields(source, true), vec!["a", "c"]);
    assert_eq!(fields(source, false), vec!["b", "d"]);
}

#[test]
fn multibyte_offsets_are_bytes() {
    let source = "é: ü\n";
    assert_eq!(markdown_field_ranges(source, 0, true), vec![0..2]);
    assert_eq!(markdown_field_ranges(source, 0, false), vec![4..6]);
}

#[test]
fn each_key_ends_before_its_value_and_fields_keep_text_order() {
    let source = "slot:What\n  name :  value\nplain line\nx: y";
    let keys = markdown_field_ranges(source, 10, true);
    let values = markdown_field_ranges(source, 10, false);
    assert_eq!(keys.len(), values.len());
    for i in 0..keys.len() {
        assert!(10 <= keys[i].start && keys[i].start <= keys[i].end);
        assert!(keys[i].end < values[i].start && values[i].start <= values[i].end);
        assert!(values[i].end <= 10 + source.len());
        if i + 1 < keys.len() {
            assert!(values[i].end <= keys[i + 1].start);
        }
    }
}

#[test]
fn moving_the_start_moves_every_range() {
    let source = "a: b\n  name : v\nx:y";
    for key in [true, false] {
        let at_zero = markdown_field_ranges(source, 0, key);
        let moved: Vec<_> = at_zero.iter().map(|r| r.start + 40..r.end + 40).collect();
        assert_eq!(markdown_field_ranges(source, 40, key), moved);
    }
}

#[test]
fn joined_texts_keep_each_part_ranges() {
    let a = "key: 1\nplain\n";
    let b = "é: ü\nz: 2";
    let joined = format!("{a}{b}");
    for key in [true, false] {
        let mut expected = markdown_field_ranges(a, 5, key);
        expected.extend(markdown_field_ranges(b, 5 + a.len(), key));
        assert_eq!(markdown_field_ranges(&joined, 5, key), expected);
    }
}

#[test]
fn ranges_cover_the_trimmed_names_and_values() {
    let source = "  slot  :  What  \nfoo: \nbar:baz";
    let keys: Vec<&str> = markdown_field_ranges(source, 0, true).into_iter().map(|r| &source[r]).collect();
    let values: Vec<&str> = markdown_field_ranges(source, 0, false).into_iter().map(|r| &source[r]).collect();
    assert_eq!(keys, vec!["slot", "foo", "bar"]);
    assert_eq!(values, vec!["What", "", "baz"]);
}
