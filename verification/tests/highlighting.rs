use arborium::tree_sitter::{Language, Parser, Query};
use syntax_tree::buffer::Buffer;
use syntax_tree::color::{convert_capture_name_to_color, ColorMap, ColorU};
use syntax_tree::highlight::{HighlightQuery, TextBuffer, TextSlice};
use syntax_tree::syntax::CaptureSpan;

fn color_map() -> ColorMap {
    let other = ColorU::new(0, 0, 0, 255);
    ColorMap {
        keyword_color: ColorU::new(10, 11, 12, 255),
        function_color: other,
        string_color: ColorU::new(7, 8, 9, 255),
        type_color: ColorU::new(4, 5, 6, 255),
        number_color: other,
        comment_color: ColorU::new(1, 2, 3, 255),
        property_color: other,
        tag_color: other,
        markdown_key_color: ColorU::new(50, 60, 70, 255),
        markdown_value_color: ColorU::new(80, 90, 100, 255),
    }
}

const FIELD_QUERY: &str = "(paragraph (inline) @comment.markdown_key)\n(paragraph (inline) @type.markdown_value)\n";

fn highlighted_text(query_source: &str, source: &str, color: ColorU) -> Vec<String> {
    let language: Language = arborium::lang_markdown::language().into();
    let mut parser = Parser::new();
    parser.set_language(&language).unwrap();
    let tree = parser.parse(source, None).unwrap();
    let query = Query::new(&language, query_source).unwrap();
    let highlighter = HighlightQuery::new(&query, color_map());
    let buffer = Buffer::from_plain_text(source);
    highlighter
        .get_highlighted_chunks(0..source.chars().count(), &query, &buffer, &tree)
        .iter()
        .filter(|(_, actual)| **actual == color)
        .map(|(range, _)| source.chars().skip(range.start).take(range.end - range.start).collect())
        .collect()
}

#[test]
fn markdown_separates_keys_and_same_line_values() {
    let source = "slot:What\nlimit_line: 3\n所有者前缀: human: / agent:\nWhat:\n  下一行保持原色\n";
    assert_eq!(
        highlighted_text(FIELD_QUERY, source, ColorU::new(50, 60, 70, 255)),
        vec!["slot", "limit_line", "所有者前缀", "What"],
    );
    assert_eq!(
        highlighted_text(FIELD_QUERY, source, ColorU::new(80, 90, 100, 255)),
        vec!["What", "3", "human: / agent:"],
    );
}

#[test]
fn markdown_headings_use_the_title_color() {
    let source = "# Heading\n\nplain text\n";
    let query = arborium::lang_markdown::HIGHLIGHTS_QUERY;
    assert_eq!(
        highlighted_text(query, source, ColorU::new(10, 11, 12, 255)),
        vec!["Heading"],
    );
}

#[test]
fn capture_names_map_to_colors() {
    let map = color_map();
    assert_eq!(convert_capture_name_to_color("comment.markdown_key", &map), Some(map.markdown_key_color));
    assert_eq!(convert_capture_name_to_color("type.markdown_value", &map), Some(map.markdown_value_color));
    assert_eq!(convert_capture_name_to_color("text.title", &map), Some(map.keyword_color));
    assert_eq!(convert_capture_name_to_color("text.literal", &map), Some(map.string_color));
    assert_eq!(convert_capture_name_to_color("text.uri", &map), Some(map.function_color));
    assert_eq!(convert_capture_name_to_color("text.reference", &map), Some(map.property_color));
    assert_eq!(convert_capture_name_to_color("keyword.control", &map), Some(map.keyword_color));
    assert_eq!(convert_capture_name_to_color("function", &map), Some(map.function_color));
    assert_eq!(convert_capture_name_to_color("string.escape", &map), Some(map.string_color));
    assert_eq!(convert_capture_name_to_color("type.builtin", &map), Some(map.type_color));
    assert_eq!(convert_capture_name_to_color("number", &map), Some(map.number_color));
    assert_eq!(convert_capture_name_to_color("comment.doc", &map), Some(map.comment_color));
    assert_eq!(convert_capture_name_to_color("property", &map), Some(map.property_color));
    assert_eq!(convert_capture_name_to_color("tag.attribute", &map), Some(map.tag_color));
    assert_eq!(convert_capture_name_to_color("punctuation.special", &map), Some(map.comment_color));
    assert_eq!(convert_capture_name_to_color("none", &map), None);
    assert_eq!(convert_capture_name_to_color("text", &map), None);
    assert_eq!(convert_capture_name_to_color("", &map), None);
}

#[test]
fn captures_highlight_char_ranges() {
    let source = "ab é cd";
    let buffer = Buffer::from_plain_text(source);
    let names = vec!["keyword".to_string(), "none".to_string()];
    let highlighter = HighlightQuery::from_capture_names(&names, color_map());
    // "cd" starts at byte 6 (é takes two bytes) and at character 5.
    let matches = vec![
        vec![CaptureSpan { index: 0, start_byte: 6, end_byte: 8 }],
        vec![CaptureSpan { index: 1, start_byte: 0, end_byte: 2 }],
        vec![CaptureSpan { index: 7, start_byte: 0, end_byte: 2 }],
        vec![CaptureSpan { index: 0, start_byte: 3, end_byte: 3 }],
    ];
    let map = highlighter.highlight_captures(&names, &matches, &buffer);
    let spans: Vec<_> = map.iter().map(|(range, color)| (range.clone(), *color)).collect();
    assert_eq!(spans, vec![(5..7, ColorU::new(10, 11, 12, 255))]);
}

#[test]
fn later_captures_paint_over_earlier_ones() {
    let source = "abcdef";
    let buffer = Buffer::from_plain_text(source);
    let names = vec!["keyword".to_string(), "string".to_string()];
    let highlighter = HighlightQuery::from_capture_names(&names, color_map());
    let matches = vec![
        vec![CaptureSpan { index: 0, start_byte: 0, end_byte: 6 }],
        vec![CaptureSpan { index: 1, start_byte: 2, end_byte: 4 }],
    ];
    let map = highlighter.highlight_captures(&names, &matches, &buffer);
    let spans: Vec<_> = map.iter().map(|(range, color)| (range.clone(), *color)).collect();
    assert_eq!(
        spans,
        vec![
            (0..2, ColorU::new(10, 11, 12, 255)),
            (2..4, ColorU::new(7, 8, 9, 255)),
            (4..6, ColorU::new(10, 11, 12, 255)),
        ],
    );
}

#[test]
fn buffer_converts_between_bytes_and_chars() {
    let buffer = Buffer::from_plain_text("aé😀b");
    assert_eq!(buffer.len_chars(), 4);
    assert_eq!(buffer.to_byte_offset(0), 0);
    assert_eq!(buffer.to_byte_offset(2), 3);
    assert_eq!(buffer.to_byte_offset(3), 7);
    assert_eq!(buffer.to_byte_offset(9), 8);
    assert_eq!(buffer.to_char_offset(3), 2);
    assert_eq!(buffer.to_char_offset(5), 2);
    assert_eq!(buffer.to_char_offset(7), 3);
    assert_eq!(buffer.to_char_offset(100), 4);
}

#[test]
fn text_buffer_reads_byte_ranges() {
    let buffer = Buffer::from_plain_text("aé😀b");
    assert_eq!(TextBuffer(&buffer).text(1, 7), "é😀");
    assert_eq!(TextBuffer(&buffer).text(7, 1), "");
}

#[test]
fn text_slice_get_is_empty_out_of_bounds() {
    let bytes = b"hello";
    let slice = TextSlice(bytes);
    assert_eq!(slice.get(1..3).as_bytes(), b"el");
    assert_eq!(slice.get(3..9).as_bytes(), b"");
    #[allow(clippy::reversed_empty_ranges)]
    let reversed = 4..2;
    assert_eq!(slice.get(reversed).as_bytes(), b"");
}

#[test]
fn highlights_follow_color_map_changes() {
    let source = "# Heading\n\nplain text\n";
    let query = arborium::lang_markdown::HIGHLIGHTS_QUERY;
    let old_keyword = ColorU::new(10, 11, 12, 255);
    let new_keyword = ColorU::new(30, 31, 32, 255);
    let mut updated = color_map();
    updated.keyword_color = new_keyword;
    let language: Language = arborium::lang_markdown::language().into();
    let mut parser = Parser::new();
    parser.set_language(&language).unwrap();
    let tree = parser.parse(source, None).unwrap();
    let query = Query::new(&language, query).unwrap();
    let buffer = Buffer::from_plain_text(source);
    let texts = |highlighter: &HighlightQuery, color: ColorU| -> Vec<String> {
        highlighter
            .get_highlighted_chunks(0..source.chars().count(), &query, &buffer, &tree)
            .iter()
            .filter(|(_, actual)| **actual == color)
            .map(|(range, _)| source.chars().skip(range.start).take(range.end - range.start).collect())
            .collect()
    };
    let before = HighlightQuery::new(&query, color_map());
    assert_eq!(texts(&before, old_keyword), vec!["Heading"]);
    let after = HighlightQuery::new(&query, updated);
    assert!(texts(&after, old_keyword).is_empty());
    assert_eq!(texts(&after, new_keyword), vec!["Heading"]);
}

#[test]
fn markdown_preserves_headings_code_and_non_fields() {
    let source = "# Heading\n- 中文: 值\n  - human: 内容\n- What:\n  - 下一行保持原色\n\n~~~yaml\ncode: unchanged\n~~~\n\n    indented: unchanged\n\n- https://example.com\n- 12:30\n";
    let query = format!("{}\n{}", arborium::lang_markdown::HIGHLIGHTS_QUERY, FIELD_QUERY);
    assert_eq!(highlighted_text(&query, source, ColorU::new(80, 90, 100, 255)), vec!["值", "内容"]);
    assert_eq!(highlighted_text(&query, source, ColorU::new(10, 11, 12, 255)), vec!["Heading"]);
}

#[test]
fn python_colons_keep_python_highlighting() {
    let source = "message = \"slot:What\"\n";
    let language: Language = arborium::lang_python::language().into();
    let mut parser = Parser::new();
    parser.set_language(&language).unwrap();
    let tree = parser.parse(source, None).unwrap();
    let query = Query::new(&language, arborium::lang_python::HIGHLIGHTS_QUERY).unwrap();
    let highlighter = HighlightQuery::new(&query, color_map());
    let buffer = Buffer::from_plain_text(source);
    let texts = |color: ColorU| -> Vec<String> {
        highlighter
            .get_highlighted_chunks(0..source.chars().count(), &query, &buffer, &tree)
            .iter()
            .filter(|(_, actual)| **actual == color)
            .map(|(range, _)| source.chars().skip(range.start).take(range.end - range.start).collect())
            .collect()
    };
    assert_eq!(texts(ColorU::new(7, 8, 9, 255)), vec!["\"slot:What\""]);
    assert!(texts(ColorU::new(80, 90, 100, 255)).is_empty());
}
