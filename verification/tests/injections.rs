use arborium::tree_sitter::{InputEdit, Language, Parser, Point, Query, Range as SyntaxRange};
use syntax_tree::buffer::Buffer;
use syntax_tree::color::{ColorMap, ColorU};
use syntax_tree::highlight::HighlightQuery;
use syntax_tree::injections::{
    find_language, included_ranges_from, injection_target, match_target, parse_injections, CaptureFact, ChildSpan,
    Injection, InjectionLanguage,
};

fn point(row: usize, column: usize) -> Point {
    Point { row, column }
}

fn range(start_byte: usize, end_byte: usize, start: Point, end: Point) -> SyntaxRange {
    SyntaxRange { start_byte, end_byte, start_point: start, end_point: end }
}

fn markdown() -> Language {
    arborium::lang_markdown::language().into()
}

const SOURCE: &str = "# Title\n\n```markdown\n# inner\n```\n\n```unknown\nquery { a }\n```\n";

#[test]
fn fenced_markdown_is_parsed_as_markdown() {
    let language = markdown();
    let mut parser = Parser::new();
    parser.set_language(&language).unwrap();
    let host = parser.parse(SOURCE, None).unwrap();
    let query = Query::new(&language, arborium::lang_markdown::INJECTIONS_QUERY).unwrap();
    let languages = vec![InjectionLanguage { name: "markdown".to_string(), grammar: markdown() }];
    let injections = parse_injections(&mut parser, SOURCE.as_bytes(), &host, &query, &languages);
    // Only the block in a known language is parsed; the other keeps the host highlighting.
    assert_eq!(injections.len(), 1);
    assert_eq!(injections[0].language, 0);
    let buffer = Buffer::from_plain_text(SOURCE);
    let ranges = injections[0].char_ranges(&buffer);
    let texts: Vec<String> = ranges
        .iter()
        .map(|r| SOURCE.chars().skip(r.start).take(r.end - r.start).collect())
        .collect();
    assert_eq!(texts, vec!["# inner\n"]);
    // The parser sees the whole document again afterwards.
    let again = parser.parse(SOURCE, None).unwrap();
    assert_eq!(again.root_node().end_byte(), SOURCE.len());
}

#[test]
fn block_continuations_are_cut_out() {
    // "  key: 1\n  other: 2\n" with two-space list indentation continuations.
    let content = range(10, 30, point(1, 0), point(3, 0));
    let children = vec![
        ChildSpan { continuation: false, range: range(10, 18, point(1, 0), point(1, 8)) },
        ChildSpan { continuation: true, range: range(19, 21, point(2, 0), point(2, 2)) },
        ChildSpan { continuation: true, range: range(29, 30, point(2, 10), point(3, 0)) },
    ];
    let ranges = included_ranges_from(content, &children);
    assert_eq!(
        ranges,
        vec![range(10, 19, point(1, 0), point(2, 0)), range(21, 29, point(2, 2), point(2, 10))],
    );
}

#[test]
fn content_without_continuations_is_one_range() {
    let content = range(5, 9, point(0, 5), point(0, 9));
    assert_eq!(included_ranges_from(content, &vec![]), vec![content]);
    let empty = range(5, 5, point(0, 5), point(0, 5));
    assert!(included_ranges_from(empty, &vec![]).is_empty());
}

#[test]
fn match_target_prefers_captured_language() {
    let properties = vec![("injection.language".to_string(), Some("html".to_string()))];
    let captures = vec![
        CaptureFact { name: "injection.language".to_string(), text: Some("yaml".to_string()) },
        CaptureFact { name: "injection.content".to_string(), text: None },
    ];
    assert_eq!(match_target(&properties, &captures), (Some("yaml".to_string()), Some(1)));
    let only_property = vec![CaptureFact { name: "injection.content".to_string(), text: None }];
    assert_eq!(match_target(&properties, &only_property), (Some("html".to_string()), Some(0)));
    assert_eq!(match_target(&vec![], &vec![]), (None, None));
}

#[test]
fn languages_are_found_by_name() {
    let languages = vec![
        InjectionLanguage { name: "markdown".to_string(), grammar: markdown() },
        InjectionLanguage { name: "md".to_string(), grammar: markdown() },
    ];
    assert_eq!(find_language(&languages, "md"), Some(1));
    assert_eq!(find_language(&languages, "python"), None);
}

#[test]
fn injection_targets_need_a_known_language_and_content() {
    let languages = vec![
        InjectionLanguage { name: "markdown".to_string(), grammar: markdown() },
        InjectionLanguage { name: "yaml".to_string(), grammar: markdown() },
    ];
    let captures = vec![
        CaptureFact { name: "injection.language".to_string(), text: Some("yaml".to_string()) },
        CaptureFact { name: "other".to_string(), text: None },
        CaptureFact { name: "injection.content".to_string(), text: None },
    ];
    assert_eq!(injection_target(&vec![], &captures, &languages), Some((1, 2)));
    let unknown = vec![
        CaptureFact { name: "injection.language".to_string(), text: Some("cobol".to_string()) },
        CaptureFact { name: "injection.content".to_string(), text: None },
    ];
    assert_eq!(injection_target(&vec![], &unknown, &languages), None);
    let no_content = vec![CaptureFact { name: "injection.language".to_string(), text: Some("yaml".to_string()) }];
    assert_eq!(injection_target(&vec![], &no_content, &languages), None);
}

#[test]
fn deleting_the_lines_of_fenced_code_leaves_no_range() {
    let language = markdown();
    let mut parser = Parser::new();
    parser.set_language(&language).unwrap();
    let host = parser.parse(SOURCE, None).unwrap();
    let query = Query::new(&language, arborium::lang_markdown::INJECTIONS_QUERY).unwrap();
    let languages = vec![InjectionLanguage { name: "markdown".to_string(), grammar: markdown() }];
    let mut injections = parse_injections(&mut parser, SOURCE.as_bytes(), &host, &query, &languages);
    assert_eq!(injections.len(), 1);
    let line = "# inner\n";
    let start = SOURCE.find(line).unwrap();
    let row = SOURCE[..start].matches('\n').count();
    let edit = InputEdit {
        start_byte: start,
        old_end_byte: start + line.len(),
        new_end_byte: start,
        start_position: point(row, 0),
        old_end_position: point(row + 1, 0),
        new_end_position: point(row, 0),
    };
    injections[0].tree.edit(&edit);
    let edited = format!("{}{}", &SOURCE[..start], &SOURCE[start + line.len()..]);
    let buffer = Buffer::from_plain_text(&edited);
    // The embedded code's range collapsed to empty until the reparse, and is left out.
    assert!(injections[0].char_ranges(&buffer).is_empty());
}

const FENCED: &str = "# Title\n\n```python\ndef run():\n    return 1\n```\n\n- item\n  ```yaml\n  key: value\n  other: 2\n  ```\n\n```graphql\nquery { a }\n```\n";

fn fenced_color_map(keyword_color: ColorU) -> ColorMap {
    let other = ColorU::new(0, 0, 0, 255);
    ColorMap {
        keyword_color,
        function_color: other,
        string_color: ColorU::new(7, 8, 9, 255),
        type_color: other,
        number_color: other,
        comment_color: other,
        property_color: ColorU::new(20, 21, 22, 255),
        tag_color: other,
        markdown_key_color: other,
        markdown_value_color: other,
    }
}

/// Highlights `FENCED` as Markdown with its fenced Python and YAML code
/// highlighted in their own languages, after applying `edit` to the parsed
/// injection trees without reparsing.
fn fenced_highlights_after(color_map: ColorMap, edit: impl FnOnce(&mut [Injection])) -> Vec<(String, ColorU)> {
    let host_language = markdown();
    let mut parser = Parser::new();
    parser.set_language(&host_language).unwrap();
    let host = parser.parse(FENCED, None).unwrap();
    let buffer = Buffer::from_plain_text(FENCED);
    let all = 0..FENCED.chars().count();
    let host_query = Query::new(&host_language, arborium::lang_markdown::HIGHLIGHTS_QUERY).unwrap();
    let mut map = HighlightQuery::new(&host_query, color_map).get_highlighted_chunks(all, &host_query, &buffer, &host);

    let languages = vec![
        InjectionLanguage { name: "python".to_string(), grammar: arborium::lang_python::language().into() },
        InjectionLanguage { name: "yaml".to_string(), grammar: arborium::lang_yaml::language().into() },
    ];
    let queries = [arborium::lang_python::HIGHLIGHTS_QUERY, arborium::lang_yaml::HIGHLIGHTS_QUERY];
    let injections_query = Query::new(&host_language, arborium::lang_markdown::INJECTIONS_QUERY).unwrap();
    let mut injections = parse_injections(&mut parser, FENCED.as_bytes(), &host, &injections_query, &languages);
    edit(&mut injections);
    for injection in &injections {
        let query = Query::new(&languages[injection.language].grammar, queries[injection.language]).unwrap();
        let highlighter = HighlightQuery::new(&query, color_map);
        for range in injection.char_ranges(&buffer) {
            map.remove(range.clone());
            for (inner, color) in highlighter.get_highlighted_chunks(range.clone(), &query, &buffer, &injection.tree).iter() {
                let start = inner.start.max(range.start);
                let end = inner.end.min(range.end);
                if start < end {
                    map.insert(start..end, *color);
                }
            }
        }
    }
    map.iter()
        .map(|(range, color)| (FENCED.chars().skip(range.start).take(range.end - range.start).collect(), *color))
        .collect()
}

fn fenced_highlights(color_map: ColorMap) -> Vec<(String, ColorU)> {
    fenced_highlights_after(color_map, |_| {})
}

fn texts_in(highlights: &[(String, ColorU)], color: ColorU) -> Vec<&str> {
    highlights.iter().filter(|(_, actual)| *actual == color).map(|(text, _)| text.as_str()).collect()
}

#[test]
fn fenced_code_uses_its_own_language() {
    let keyword = ColorU::new(10, 11, 12, 255);
    let highlights = fenced_highlights(fenced_color_map(keyword));

    assert_eq!(texts_in(&highlights, keyword), vec!["Title", "def", "return"]);
    // Keys of YAML indented inside a list item parse as YAML despite the list indentation.
    assert_eq!(texts_in(&highlights, ColorU::new(20, 21, 22, 255)), vec!["key", "other"]);
    let strings = texts_in(&highlights, ColorU::new(7, 8, 9, 255));
    assert!(strings.contains(&"value"));
    assert!(!strings.iter().any(|text| text.contains("def") || text.contains("key")));
    // Unsupported languages keep the host's code block highlighting.
    assert!(strings.iter().any(|text| text.contains("query { a }")));
}

#[test]
fn deleting_a_line_of_fenced_code_keeps_highlighting() {
    let keyword = ColorU::new(10, 11, 12, 255);
    let line = "other: 2\n";
    let start = FENCED.find(line).unwrap();
    let row = FENCED[..start].matches('\n').count();
    let column = start - FENCED[..start].rfind('\n').unwrap() - 1;
    let highlights = fenced_highlights_after(fenced_color_map(keyword), move |injections| {
        let edit = InputEdit {
            start_byte: start,
            old_end_byte: start + line.len(),
            new_end_byte: start,
            start_position: point(row, column),
            old_end_position: point(row + 1, 0),
            new_end_position: point(row, column),
        };
        for injection in injections {
            injection.tree.edit(&edit);
        }
    });

    assert_eq!(texts_in(&highlights, keyword), vec!["Title", "def", "return"]);
}

#[test]
fn fenced_code_follows_color_map_changes() {
    let old_keyword = ColorU::new(10, 11, 12, 255);
    let new_keyword = ColorU::new(30, 31, 32, 255);
    let before = fenced_highlights(fenced_color_map(old_keyword));
    assert_eq!(texts_in(&before, old_keyword), vec!["Title", "def", "return"]);
    let highlights = fenced_highlights(fenced_color_map(new_keyword));

    assert!(texts_in(&highlights, old_keyword).is_empty());
    assert_eq!(texts_in(&highlights, new_keyword), vec!["Title", "def", "return"]);
}
