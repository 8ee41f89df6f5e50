//! What a pane listing reports of a pane's selections, and the checks on
//! the selections a request sets.

use vstd::prelude::*;
use crate::control_error::{ControlError, ErrorCode, concat2};
use crate::targets::is_error;

verus! {

/// A 0-indexed LSP range: start line and column, end line and column.
#[derive(Clone, Copy, Debug, PartialEq, Eq, Structural)]
pub struct LspRange {
    pub start_line: usize,
    pub start_column: usize,
    pub end_line: usize,
    pub end_column: usize,
}

/// Where a selection lives in a pane: the terminal view, the Rich Input
/// editor, the code editor, or the focused Code Review diff editor.
#[derive(Clone, Copy, Debug, PartialEq, Eq, Structural)]
pub enum Carrier {
    Terminal,
    Input,
    Editor,
    CodeReview,
}

/// The name a carrier is reported under.
pub open spec fn carrier_name(c: Carrier) -> Seq<char> {
    match c {
        Carrier::Terminal => "terminal"@,
        Carrier::Input => "input"@,
        Carrier::Editor => "editor"@,
        Carrier::CodeReview => "code_review"@,
    }
}

impl Carrier {
    /// The name the carrier is reported under ([`carrier_name`]).
    pub fn name(self) -> (n: &'static str)
        ensures
            n@ == carrier_name(self),
    {
        match self {
            Carrier::Terminal => "terminal",
            Carrier::Input => "input",
            Carrier::Editor => "editor",
            Carrier::CodeReview => "code_review",
        }
    }
}

/// The selected text of the code editor, and its ranges.
#[derive(Debug)]
pub struct EditorSelection {
    pub text: String,
    pub ranges: Vec<LspRange>,
}

/// The selection of the focused Code Review diff editor: its file, the
/// file's remote host if any, the text and its ranges.
#[derive(Debug)]
pub struct CodeReviewSelection {
    pub file_path: String,
    pub remote_host_id: Option<String>,
    pub text: String,
    pub ranges: Vec<LspRange>,
}

/// What each carrier of a pane holds selected, and the editor's file.
#[derive(Debug)]
pub struct SelectionSources {
    pub terminal: Option<String>,
    pub input: Option<String>,
    pub editor: Option<EditorSelection>,
    pub editor_file_path: Option<String>,
    pub code_review: Option<CodeReviewSelection>,
}

/// One selection of a pane as it is reported. Terminal and input
/// selections have no file and no ranges: a terminal has no file lines.
#[derive(Debug)]
pub struct PaneSelection {
    pub carrier: Carrier,
    pub text: String,
    pub file_path: Option<String>,
    pub remote_host_id: Option<String>,
    pub ranges: Vec<LspRange>,
}

/// A reported selection, its texts taken by their characters.
pub struct SelectionView {
    pub carrier: Carrier,
    pub text: Seq<char>,
    pub file_path: Option<Seq<char>>,
    pub remote_host_id: Option<Seq<char>>,
    pub ranges: Seq<LspRange>,
}

/// An optional text taken by its characters.
pub open spec fn opt_chars(s: Option<String>) -> Option<Seq<char>> {
    match s {
        Some(t) => Some(t@),
        None => None,
    }
}

impl View for PaneSelection {
    type V = SelectionView;

    open spec fn view(&self) -> SelectionView {
        SelectionView {
            carrier: self.carrier,
            text: self.text@,
            file_path: opt_chars(self.file_path),
            remote_host_id: opt_chars(self.remote_host_id),
            ranges: self.ranges@,
        }
    }
}

/// The selections a pane reports: one per carrier that holds one, in the
/// order terminal, input, editor, Code Review.
pub open spec fn reported_selections(s: SelectionSources) -> Seq<SelectionView> {
    let terminal = match s.terminal {
        Some(t) => seq![
            SelectionView {
                carrier: Carrier::Terminal,
                text: t@,
                file_path: None,
                remote_host_id: None,
                ranges: Seq::empty(),
            },
        ],
        None => Seq::empty(),
    };
    let input = match s.input {
        Some(t) => seq![
            SelectionView {
                carrier: Carrier::Input,
                text: t@,
                file_path: None,
                remote_host_id: None,
                ranges: Seq::empty(),
            },
        ],
        None => Seq::empty(),
    };
    let editor = match s.editor {
        Some(e) => seq![
            SelectionView {
                carrier: Carrier::Editor,
                text: e.text@,
                file_path: opt_chars(s.editor_file_path),
                remote_host_id: None,
                ranges: e.ranges@,
            },
        ],
        None => Seq::empty(),
    };
    let code_review = match s.code_review {
        Some(c) => seq![
            SelectionView {
                carrier: Carrier::CodeReview,
                text: c.text@,
                file_path: Some(c.file_path@),
                remote_host_id: opt_chars(c.remote_host_id),
                ranges: c.ranges@,
            },
        ],
        None => Seq::empty(),
    };
    terminal + input + editor + code_review
}

/// Where a carrier's selection stands in a pane's report: terminal, input,
/// editor, Code Review.
pub open spec fn report_rank(c: Carrier) -> int {
    match c {
        Carrier::Terminal => 0,
        Carrier::Input => 1,
        Carrier::Editor => 2,
        Carrier::CodeReview => 3,
    }
}

/// One when `o` holds a value, else zero.
pub open spec fn present<T>(o: Option<T>) -> int {
    if o is Some {
        1
    } else {
        0
    }
}

/// Whether the carrier `c` holds a selection in `s`.
pub open spec fn holds_selection(s: SelectionSources, c: Carrier) -> bool {
    match c {
        Carrier::Terminal => s.terminal is Some,
        Carrier::Input => s.input is Some,
        Carrier::Editor => s.editor is Some,
        Carrier::CodeReview => s.code_review is Some,
    }
}

/// A pane reports each carrier that holds a selection exactly once, with
/// that selection's text, and no other: as many selections as carriers hold
/// one, in carrier order. Terminal and input selections come with no file
/// and no ranges; the editor's with its file and ranges; the Code Review
/// editor's with its file, remote host and ranges.
pub proof fn lemma_reported_selections(s: SelectionSources)
    ensures
        ({
            let r = reported_selections(s);
            &&& r.len() == present(s.terminal) + present(s.input) + present(s.editor) + present(
                s.code_review,
            )
            &&& forall|i: int, j: int|
                0 <= i < j < r.len() ==> report_rank(#[trigger] r[i].carrier) < report_rank(
                    #[trigger] r[j].carrier,
                )
            &&& forall|i: int| 0 <= i < r.len() ==> holds_selection(s, #[trigger] r[i].carrier)
            &&& s.terminal matches Some(t) ==> exists|i: int|
                0 <= i < r.len() && #[trigger] r[i] == (SelectionView {
                    carrier: Carrier::Terminal,
                    text: t@,
                    file_path: None,
                    remote_host_id: None,
                    ranges: Seq::empty(),
                })
            &&& s.input matches Some(t) ==> exists|i: int|
                0 <= i < r.len() && #[trigger] r[i] == (SelectionView {
                    carrier: Carrier::Input,
                    text: t@,
                    file_path: None,
                    remote_host_id: None,
                    ranges: Seq::empty(),
                })
            &&& s.editor matches Some(e) ==> exists|i: int|
                0 <= i < r.len() && #[trigger] r[i] == (SelectionView {
                    carrier: Carrier::Editor,
                    text: e.text@,
                    file_path: opt_chars(s.editor_file_path),
                    remote_host_id: None,
                    ranges: e.ranges@,
                })
            &&& s.code_review matches Some(c) ==> exists|i: int|
                0 <= i < r.len() && #[trigger] r[i] == (SelectionView {
                    carrier: Carrier::CodeReview,
                    text: c.text@,
                    file_path: Some(c.file_path@),
                    remote_host_id: opt_chars(c.remote_host_id),
                    ranges: c.ranges@,
                })
        }),
{
    let r = reported_selections(s);
    let a = present(s.terminal);
    let b = present(s.input);
    let c = present(s.editor);
    let d = present(s.code_review);
    assert(r.len() == a + b + c + d);
    assert forall|i: int| 0 <= i < r.len() implies {
        &&& holds_selection(s, #[trigger] r[i].carrier)
        &&& report_rank(r[i].carrier) == (if i < a {
            0int
        } else if i < a + b {
            1int
        } else if i < a + b + c {
            2int
        } else {
            3int
        })
    } by {}
    assert forall|i: int, j: int| 0 <= i < j < r.len() implies report_rank(#[trigger] r[i].carrier)
        < report_rank(#[trigger] r[j].carrier) by {
        assert(holds_selection(s, r[i].carrier));
        assert(holds_selection(s, r[j].carrier));
    }
    if s.terminal is Some {
        assert(r[0].carrier == Carrier::Terminal);
    }
    if s.input is Some {
        assert(r[a].carrier == Carrier::Input);
    }
    if s.editor is Some {
        assert(r[a + b].carrier == Carrier::Editor);
    }
    if s.code_review is Some {
        assert(r[a + b + c].carrier == Carrier::CodeReview);
    }
}

fn dup_text(s: &Option<String>) -> (r: Option<String>)
    ensures
        opt_chars(r) == opt_chars(*s),
{
    match s {
        Some(t) => Some(t.clone()),
        None => None,
    }
}

/// The selections a pane reports ([`reported_selections`]).
pub fn pane_selections(sources: SelectionSources) -> (r: Vec<PaneSelection>)
    ensures
        r@.map_values(|p: PaneSelection| p@) == reported_selections(sources),
{
    let ghost spec_sources = sources;
    let mut r: Vec<PaneSelection> = Vec::new();
    let SelectionSources { terminal, input, editor, editor_file_path, code_review } = sources;
    let ghost mut expected: Seq<SelectionView> = Seq::empty();
    if let Some(text) = terminal {
        let p = PaneSelection {
            carrier: Carrier::Terminal,
            text,
            file_path: None,
            remote_host_id: None,
            ranges: Vec::new(),
        };
        proof {
            expected = expected.push(p@);
        }
        r.push(p);
    }
    if let Some(text) = input {
        let p = PaneSelection {
            carrier: Carrier::Input,
            text,
            file_path: None,
            remote_host_id: None,
            ranges: Vec::new(),
        };
        proof {
            expected = expected.push(p@);
        }
        r.push(p);
    }
    if let Some(e) = editor {
        let p = PaneSelection {
            carrier: Carrier::Editor,
            text: e.text,
            file_path: dup_text(&editor_file_path),
            remote_host_id: None,
            ranges: e.ranges,
        };
        proof {
            expected = expected.push(p@);
        }
        r.push(p);
    }
    if let Some(c) = code_review {
        let p = PaneSelection {
            carrier: Carrier::CodeReview,
            text: c.text,
            file_path: Some(c.file_path),
            remote_host_id: c.remote_host_id,
            ranges: c.ranges,
        };
        proof {
            expected = expected.push(p@);
        }
        r.push(p);
    }
    assert(r@.map_values(|p: PaneSelection| p@) =~= expected);
    assert(expected =~= reported_selections(spec_sources));
    r
}

/// The first of `items` that is present, if any: the first Code Review
/// view whose focused editor answers.
pub fn first_some<T>(items: Vec<Option<T>>) -> (r: Option<T>)
    ensures
        match r {
            Some(x) => exists|k: int|
                0 <= k < items@.len() && items@[k] == Some(x) && forall|j: int| 0 <= j < k ==> #[trigger] items@[j] is None,
            None => forall|j: int| 0 <= j < items@.len() ==> #[trigger] items@[j] is None,
        },
{
    let ghost orig = items@;
    let mut rest = items;
    while rest.len() > 0
        invariant
            orig == items@,
            rest.len() <= orig.len(),
            rest@ == orig.subrange(orig.len() - rest.len(), orig.len() as int),
            forall|j: int| 0 <= j < orig.len() - rest.len() ==> #[trigger] orig[j] is None,
        decreases rest.len(),
    {
        let ghost k = orig.len() - rest.len();
        let item = rest.remove(0);
        assert(item == orig[k]);
        if item.is_some() {
            assert(exists|i: int|
                0 <= i < orig.len() && orig[i] == item && forall|j: int| 0 <= j < i ==> #[trigger] orig[j] is None) by {
                assert(orig[k] == item);
            }
            return item;
        }
        assert(rest@ =~= orig.subrange(orig.len() - rest.len(), orig.len() as int));
    }
    None
}

/// The Code Review cursor or selection a pane reports: Code Review sits
/// outside the pane group, so only the active pane reports one, that of the
/// first Code Review view whose focused editor answers.
pub fn focused_code_review<T>(is_active: bool, answers: Vec<Option<T>>) -> (r: Option<T>)
    ensures
        !is_active ==> r is None,
        is_active ==> match r {
            Some(x) => exists|k: int|
                0 <= k < answers@.len() && answers@[k] == Some(x) && forall|j: int| 0 <= j < k ==> #[trigger] answers@[j] is None,
            None => forall|j: int| 0 <= j < answers@.len() ==> #[trigger] answers@[j] is None,
        },
{
    if is_active {
        first_some(answers)
    } else {
        None
    }
}

/// A tab's colour setting: never set (the directory default applies),
/// cleared, or an explicit colour by name.
#[derive(Debug)]
pub enum SelectedTabColor {
    Unset,
    Cleared,
    Color(String),
}

/// The colour a pane listing reports for its tab: only an explicit colour
/// counts as configured; unset and cleared report none.
pub fn configured_tab_color(color: SelectedTabColor) -> (r: Option<String>)
    ensures
        match color {
            SelectedTabColor::Color(c) => r matches Some(s) && s@ == c@,
            _ => r is None,
        },
{
    match color {
        SelectedTabColor::Color(c) => Some(c),
        _ => None,
    }
}

/// The remote host a pane reports: an editor's file location's host, else
/// that of the terminal session's working directory.
pub fn remote_host(file_remote_host: Option<String>, working_directory_remote_host: Option<String>) -> (r:
    Option<String>)
    ensures
        opt_chars(r) == match file_remote_host {
            Some(h) => Some(h@),
            None => opt_chars(working_directory_remote_host),
        },
{
    match file_remote_host {
        Some(h) => Some(h),
        None => working_directory_remote_host,
    }
}

/// A selection write needs at least one range.
pub fn check_selection_ranges(ranges: &Vec<LspRange>, action: &str) -> (r: Result<(), ControlError>)
    ensures
        r is Ok <==> ranges@.len() > 0,
        r is Err ==> is_error(r, ErrorCode::InvalidParams, action@ + " requires at least one range"@),
{
    if ranges.len() == 0 {
        return Err(ControlError::new(ErrorCode::InvalidParams, concat2(action, " requires at least one range")));
    }
    Ok(())
}

/// The error a selection write with parameters of the wrong shape meets.
pub fn wrong_shape_error(action: &str) -> (e: ControlError)
    ensures
        e.code == ErrorCode::InvalidParams,
        e.message@ == action@ + " received parameters with the wrong shape"@,
        e.details is None,
{
    ControlError::new(ErrorCode::InvalidParams, concat2(action, " received parameters with the wrong shape"))
}

/// The carriers a pane can report a selection in: the Code Review editor
/// only for the active pane, the others always.
pub open spec fn reportable(c: Carrier, is_active: bool) -> bool {
    c != Carrier::CodeReview || is_active
}

/// The carriers a selection write tries, in order, until one takes the
/// ranges: the focused Code Review editor first when the pane is the active
/// one (it is what the caller is looking at), then the code editor. The
/// terminal view and the Rich Input editor have no file lines to address
/// and are never written.
pub open spec fn set_order(is_active: bool) -> Seq<Carrier> {
    if is_active {
        seq![Carrier::CodeReview, Carrier::Editor]
    } else {
        seq![Carrier::Editor]
    }
}

/// The carriers a selection clear empties, in the order a pane reports
/// them: the terminal view, the Rich Input editor, the code editor, and the
/// focused Code Review editor when the pane is the active one.
pub open spec fn clear_order(is_active: bool) -> Seq<Carrier> {
    if is_active {
        seq![Carrier::Terminal, Carrier::Input, Carrier::Editor, Carrier::CodeReview]
    } else {
        seq![Carrier::Terminal, Carrier::Input, Carrier::Editor]
    }
}

/// The carriers a selection write tries ([`set_order`]).
pub fn selection_set_order(is_active: bool) -> (r: Vec<Carrier>)
    ensures
        r@ == set_order(is_active),
{
    let mut r: Vec<Carrier> = Vec::new();
    if is_active {
        r.push(Carrier::CodeReview);
    }
    r.push(Carrier::Editor);
    assert(r@ =~= set_order(is_active));
    r
}

/// The carriers a selection clear empties ([`clear_order`]).
pub fn selection_clear_order(is_active: bool) -> (r: Vec<Carrier>)
    ensures
        r@ == clear_order(is_active),
{
    let mut r: Vec<Carrier> = Vec::new();
    r.push(Carrier::Terminal);
    r.push(Carrier::Input);
    r.push(Carrier::Editor);
    if is_active {
        r.push(Carrier::CodeReview);
    }
    assert(r@ =~= clear_order(is_active));
    r
}

/// What a selection write does next, given what the carriers it tried so
/// far answered: try the next carrier of [`set_order`], or stop, naming the
/// carrier that took the ranges, if one did.
#[derive(Clone, Copy, Debug, PartialEq, Eq, Structural)]
pub enum SetStep {
    Try(Carrier),
    Done(Option<Carrier>),
}

/// The step after `answers`, the answers of the carriers of
/// [`set_order`] tried so far, in order: stop at the first carrier that
/// took the ranges, so at most one carrier is set and none after the Code
/// Review editor took them; else try the next carrier; else stop with none.
pub open spec fn set_step(is_active: bool, answers: Seq<bool>) -> SetStep {
    let order = set_order(is_active);
    if answers.len() > 0 && answers.last() {
        SetStep::Done(Some(order[answers.len() - 1]))
    } else if answers.len() < order.len() {
        SetStep::Try(order[answers.len() as int])
    } else {
        SetStep::Done(None)
    }
}

/// The step a selection write takes after `answers` ([`set_step`]).
pub fn selection_set_step(is_active: bool, answers: &Vec<bool>) -> (r: SetStep)
    requires
        answers@.len() <= set_order(is_active).len(),
    ensures
        r == set_step(is_active, answers@),
{
    let order = selection_set_order(is_active);
    let n = answers.len();
    if n > 0 && answers[n - 1] {
        SetStep::Done(Some(order[n - 1]))
    } else if n < order.len() {
        SetStep::Try(order[n])
    } else {
        SetStep::Done(None)
    }
}

/// Driving a selection write by [`set_step`] tries carriers in the order of
/// [`set_order`] while they decline, and ends with the first that takes the
/// ranges, or with none when all decline: at most one carrier is set.
pub proof fn lemma_set_steps(is_active: bool, accepts: Seq<bool>, k: int)
    requires
        accepts.len() == set_order(is_active).len(),
        0 <= k <= accepts.len(),
        forall|j: int| 0 <= j < k - 1 ==> !accepts[j],
    ensures
        k < accepts.len() && (k == 0 || !accepts[k - 1]) ==> set_step(is_active, accepts.take(k))
            == SetStep::Try(set_order(is_active)[k]),
        k > 0 && accepts[k - 1] ==> set_step(is_active, accepts.take(k)) == SetStep::Done(
            Some(set_order(is_active)[k - 1]),
        ),
        k == accepts.len() && (k == 0 || !accepts[k - 1]) ==> set_step(is_active, accepts.take(k))
            == SetStep::Done(None),
{
    if k > 0 {
        assert(accepts.take(k).last() == accepts[k - 1]);
    }
}

/// A selection write never targets the terminal view or the Rich Input
/// editor, and targets the Code Review editor only for the active pane. A
/// clear empties exactly the carriers a pane can report a selection in, so
/// a read and a clear agree on which carriers they mean.
pub proof fn lemma_selection_carriers(is_active: bool, c: Carrier)
    ensures
        set_order(is_active).contains(c) <==> (c == Carrier::Editor || (c == Carrier::CodeReview
            && is_active)),
        clear_order(is_active).contains(c) <==> reportable(c, is_active),
{
    let s = set_order(is_active);
    let k = clear_order(is_active);
    if c == Carrier::Editor {
        assert(s[s.len() - 1] == c);
    }
    if c == Carrier::CodeReview && is_active {
        assert(s[0] == c);
        assert(k[3] == c);
    }
    if c == Carrier::Terminal {
        assert(k[0] == c);
    }
    if c == Carrier::Input {
        assert(k[1] == c);
    }
    if c == Carrier::Editor {
        assert(k[2] == c);
    }
}

} // verus!
