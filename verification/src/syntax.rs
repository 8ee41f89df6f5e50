//! The tree-sitter calls that highlighting makes, and the plain values it
//! takes from them.

use arborium::tree_sitter::{
    IncludedRangesError, Language, Node, Parser, Point, Query, QueryCursor, Range as SyntaxRange,
    Tree,
};
use std::iter;
use streaming_iterator::StreamingIterator;
use vstd::prelude::*;

use crate::highlight::TextSlice;

verus! {

#[verifier::external_type_specification]
#[verifier::external_body]
pub struct ExQuery(Query);

#[verifier::external_type_specification]
#[verifier::external_body]
pub struct ExTree(Tree);

#[verifier::external_type_specification]
#[verifier::external_body]
pub struct ExNode<'tree>(Node<'tree>);

#[verifier::external_type_specification]
#[verifier::external_body]
pub struct ExParser(Parser);

#[verifier::external_type_specification]
#[verifier::external_body]
pub struct ExLanguage(Language);

#[verifier::external_type_specification]
#[verifier::external_body]
pub struct ExIncludedRangesError(IncludedRangesError);

#[verifier::external_type_specification]
pub struct ExPoint(Point);

#[verifier::external_type_specification]
pub struct ExSyntaxRange(SyntaxRange);

/// One capture of a query match: the capture's index into the query's
/// capture names and the byte range of the captured node.
#[derive(Clone, Copy, Debug, PartialEq, Eq, Structural)]
pub struct CaptureSpan {
    pub index: u32,
    pub start_byte: usize,
    pub end_byte: usize,
}

/// The view of a list of names.
pub open spec fn names_view(names: Seq<String>) -> Seq<Seq<char>> {
    names.map_values(|n: String| n@)
}

/// The view of a list of matches.
pub open spec fn matches_view(matches: Seq<Vec<CaptureSpan>>) -> Seq<Seq<CaptureSpan>> {
    matches.map_values(|m: Vec<CaptureSpan>| m@)
}

/// The capture names of a query (`Query::capture_names`), fixed when the
/// query was built.
pub uninterp spec fn capture_names_of(query: Query) -> Seq<Seq<char>>;

/// Calls `Query::capture_names` and copies the names out.
#[verifier::external_body]
pub(crate) fn query_capture_names(query: &Query) -> (names: Vec<String>)
    ensures
        names_view(names@) == capture_names_of(*query),
{
    query.capture_names().iter().map(|name| name.to_string()).collect()
}

/// What the capture iterator of `query` over `tree`, limited to the bytes
/// `byte_start..byte_end` and reading node text from `text`, yields: the
/// captures of each item's match, in order.
pub uninterp spec fn captures_of(
    query: Query,
    tree: Tree,
    text: Seq<u8>,
    byte_start: usize,
    byte_end: usize,
) -> Seq<Seq<CaptureSpan>>;

/// Runs `query` over `tree` with a `QueryCursor` limited to the bytes
/// `byte_start..byte_end` (`QueryCursor::new`, `set_byte_range`,
/// `captures`), and for every item the capture iterator yields copies out
/// the captures of its match, in order. Node text for the query's text
/// predicates is read through [`TextSlice::get`], which answers a node
/// lying past `text` with no bytes instead of panicking.
#[verifier::external_body]
pub(crate) fn query_captures(
    query: &Query,
    tree: &Tree,
    text: &[u8],
    byte_start: usize,
    byte_end: usize,
) -> (matches: Vec<Vec<CaptureSpan>>)
    ensures
        matches_view(matches@) == captures_of(*query, *tree, text@, byte_start, byte_end),
{
    let mut cursor = QueryCursor::new();
    cursor.set_byte_range(byte_start..byte_end);
    let provider = |node: Node| iter::once(TextSlice(text).get(node.byte_range()).as_bytes());
    let mut captures = cursor.captures(query, tree.root_node(), provider);
    let mut matches = Vec::new();
    while let Some((query_match, _)) = captures.next() {
        matches.push(query_match.captures.iter().map(|c| CaptureSpan {
            index: c.index,
            start_byte: c.node.start_byte(),
            end_byte: c.node.end_byte(),
        }).collect());
    }
    matches
}

/// A match of an injections query: its pattern's property settings
/// (`key`, `value`) and its captures (capture index, captured node).
pub struct InjectionMatch<'tree> {
    pub properties: Vec<(String, Option<String>)>,
    pub captures: Vec<(u32, Node<'tree>)>,
}

/// Property settings taken by their characters.
pub open spec fn properties_view(properties: Seq<(String, Option<String>)>) -> Seq<
    (Seq<char>, Option<Seq<char>>),
> {
    properties.map_values(
        |p: (String, Option<String>)|
            (
                p.0@,
                match p.1 {
                    Some(v) => Some(v@),
                    None => None,
                },
            ),
    )
}

/// A match of an injections query, its texts taken by their characters.
pub open spec fn match_view<'tree>(m: InjectionMatch<'tree>) -> (
    Seq<(Seq<char>, Option<Seq<char>>)>,
    Seq<(u32, Node<'tree>)>,
) {
    (properties_view(m.properties@), m.captures@)
}

/// A list of matches of an injections query, by [`match_view`].
pub open spec fn injection_matches_view<'tree>(ms: Seq<InjectionMatch<'tree>>) -> Seq<
    (Seq<(Seq<char>, Option<Seq<char>>)>, Seq<(u32, Node<'tree>)>),
> {
    ms.map_values(|m: InjectionMatch<'tree>| match_view(m))
}

/// The root node of a tree (`Tree::root_node`).
pub uninterp spec fn root_node_of(tree: &Tree) -> Node;

/// What the match iterator of `query` from `root`, reading node text from
/// `text`, yields: each match's property settings and captures, in order.
pub uninterp spec fn matches_of(query: Query, root: Node, text: Seq<u8>) -> Seq<
    (Seq<(Seq<char>, Option<Seq<char>>)>, Seq<(u32, Node)>),
>;

/// Runs `query` over the whole of `host` (`Tree::root_node`,
/// `QueryCursor::matches`) and copies out every match with the property
/// settings of its pattern (`Query::property_settings`). Node text is read
/// through [`TextSlice::get`], as in [`query_captures`].
#[verifier::external_body]
pub(crate) fn query_matches<'tree>(query: &Query, host: &'tree Tree, text: &[u8]) -> (matches: Vec<
    InjectionMatch<'tree>,
>)
    ensures
        injection_matches_view(matches@) == matches_of(
            *query,
            root_node_of(host),
            text@,
        ),
{
    let mut cursor = QueryCursor::new();
    let provider = |node: Node| iter::once(TextSlice(text).get(node.byte_range()).as_bytes());
    let mut found = cursor.matches(query, host.root_node(), provider);
    let mut matches = Vec::new();
    while let Some(m) = found.next() {
        let properties = query.property_settings(m.pattern_index).iter().map(|p| {
            (p.key.to_string(), p.value.as_ref().map(|v| v.to_string()))
        }).collect();
        matches.push(InjectionMatch { properties, captures: m.captures.iter().map(|c| (c.index, c.node)).collect() });
    }
    matches
}

/// The range of a node (`Node::range`).
pub uninterp spec fn range_of(node: Node) -> SyntaxRange;

/// Calls `Node::range`.
#[verifier::external_body]
pub(crate) fn node_range(node: Node) -> (r: SyntaxRange)
    ensures
        r == range_of(node),
{
    node.range()
}

/// The kind of a node (`Node::kind`).
pub uninterp spec fn kind_of(node: Node) -> Seq<char>;

/// Calls `Node::kind` and copies the kind out.
#[verifier::external_body]
pub(crate) fn node_kind(node: Node) -> (kind: String)
    ensures
        kind@ == kind_of(node),
{
    node.kind().to_string()
}

/// The children of a node, in order (`Node::children`).
pub uninterp spec fn children_of(node: Node) -> Seq<Node>;

/// Collects `Node::children` (walked with the node's own `TreeCursor`), in order.
#[verifier::external_body]
pub(crate) fn node_children<'tree>(node: Node<'tree>) -> (children: Vec<Node<'tree>>)
    ensures
        children@ == children_of(node),
{
    let mut walker = node.walk();
    node.children(&mut walker).collect()
}

/// The included ranges a parser parses (`Parser::included_ranges`).
pub uninterp spec fn parser_ranges(parser: Parser) -> Seq<SyntaxRange>;

/// Whether a parser has a language (`Parser::language` is `Some`).
pub uninterp spec fn parser_has_language(parser: Parser) -> bool;

/// The language a parser holds (`Parser::language`), when it has one.
pub uninterp spec fn parser_language(parser: Parser) -> Language;

/// Whether `Parser::set_language` accepts a language: its ABI version is
/// one this tree-sitter supports.
pub uninterp spec fn language_accepted(language: Language) -> bool;

/// Calls `Parser::set_language`; `true` when it returned `Ok`. Its source
/// accepts exactly the languages of a supported ABI version, afterwards the
/// parser holds that language, and it leaves the parser's included ranges as
/// they were (a refused language leaves the parser as it was).
#[verifier::external_body]
pub(crate) fn set_parser_language(parser: &mut Parser, language: &Language) -> (ok: bool)
    ensures
        ok == language_accepted(*language),
        ok ==> parser_has_language(*final(parser)) && parser_language(*final(parser)) == *language,
        !ok ==> parser_has_language(*final(parser)) == parser_has_language(*old(parser))
            && parser_language(*final(parser)) == parser_language(*old(parser)),
        parser_ranges(*final(parser)) == parser_ranges(*old(parser)),
{
    parser.set_language(language).is_ok()
}

/// Ranges that tree-sitter accepts as included ranges: each ends no earlier
/// than it starts and starts no earlier than the previous one ends.
pub open spec fn ranges_ordered(ranges: Seq<SyntaxRange>) -> bool {
    &&& forall|i: int| 0 <= i < ranges.len() ==> #[trigger] ranges[i].start_byte <= ranges[i].end_byte
    &&& forall|i: int|
        0 < i < ranges.len() ==> ranges[i - 1].end_byte <= #[trigger] ranges[i].start_byte
}

/// The range that covers a whole document: what a parser is left with when
/// it is given no included ranges.
pub open spec fn whole_document() -> SyntaxRange {
    SyntaxRange {
        start_byte: 0,
        end_byte: u32::MAX as usize,
        start_point: Point { row: 0, column: 0 },
        end_point: Point { row: u32::MAX as usize, column: u32::MAX as usize },
    }
}

/// The included ranges a parser holds after being given `ranges`: those,
/// or the whole document when there are none.
pub open spec fn effective_ranges(ranges: Seq<SyntaxRange>) -> Seq<SyntaxRange> {
    if ranges.len() == 0 {
        seq![whole_document()]
    } else {
        ranges
    }
}

/// Every offset and point of `ranges` fits in `u32`, as tree-sitter stores them.
pub open spec fn ranges_fit_u32(ranges: Seq<SyntaxRange>) -> bool {
    &&& ranges.len() <= u32::MAX
    &&& forall|i: int|
        0 <= i < ranges.len() ==> {
            &&& #[trigger] ranges[i].start_byte <= u32::MAX
            &&& ranges[i].end_byte <= u32::MAX
            &&& ranges[i].start_point.row <= u32::MAX
            &&& ranges[i].start_point.column <= u32::MAX
            &&& ranges[i].end_point.row <= u32::MAX
            &&& ranges[i].end_point.column <= u32::MAX
        }
}

/// Calls `Parser::set_included_ranges`. Its source (and that of the C function
/// `ts_lexer_set_included_ranges` it reaches) accepts the ranges exactly when
/// they are ordered as [`ranges_ordered`] says, comparing the offsets as `u32`;
/// `requires` keeps the offsets, the points and the count within `u32`. On
/// success the parser holds the ranges, the whole document for none; on
/// refusal it is left as it was. The language is untouched.
#[verifier::external_body]
pub(crate) fn set_parser_included_ranges(parser: &mut Parser, ranges: &Vec<SyntaxRange>) -> (ok: bool)
    requires
        ranges_fit_u32(ranges@),
    ensures
        ok == ranges_ordered(ranges@),
        ok ==> parser_ranges(*final(parser)) == effective_ranges(ranges@),
        !ok ==> parser_ranges(*final(parser)) == parser_ranges(*old(parser)),
        parser_has_language(*final(parser)) == parser_has_language(*old(parser)),
        parser_language(*final(parser)) == parser_language(*old(parser)),
{
    parser.set_included_ranges(ranges.as_slice()).is_ok()
}

/// The included ranges a tree was parsed with (`Tree::included_ranges`).
pub uninterp spec fn tree_ranges(tree: Tree) -> Seq<SyntaxRange>;

/// The tree `Parser::parse` builds, with no old tree, from `text` in
/// `language` over the included ranges `ranges`: a tree taken by what it
/// holds (its nodes, their kinds and byte ranges), which the parse computes
/// from these three alone.
pub uninterp spec fn parsed(language: Language, ranges: Seq<SyntaxRange>, text: Seq<u8>) -> Tree;

/// Calls `Parser::parse` on `text` with no old tree. Its source returns a
/// tree whenever the parser has a language (no timeout, cancellation or
/// progress callback is set, and the grammars here are native): the tree of
/// `text` in that language over the parser's included ranges, which it
/// records; the parser keeps its language and included ranges.
#[verifier::external_body]
pub(crate) fn parse_text(parser: &mut Parser, text: &[u8]) -> (tree: Option<Tree>)
    ensures
        parser_has_language(*old(parser)) ==> tree == Some(
            parsed(parser_language(*old(parser)), parser_ranges(*old(parser)), text@),
        ),
        tree matches Some(t) ==> tree_ranges(t) == parser_ranges(*old(parser)),
        parser_ranges(*final(parser)) == parser_ranges(*old(parser)),
        parser_has_language(*final(parser)) == parser_has_language(*old(parser)),
        parser_language(*final(parser)) == parser_language(*old(parser)),
{
    parser.parse(text, None)
}

/// Calls `Tree::included_ranges`.
#[verifier::external_body]
pub(crate) fn tree_included_ranges(tree: &Tree) -> (ranges: Vec<SyntaxRange>)
    ensures
        ranges@ == tree_ranges(*tree),
{
    tree.included_ranges()
}

} // verus!
