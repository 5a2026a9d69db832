//! The block-and-inline grammar: leaf recognizers for headings, code
//! blocks, links, images, lists, tasks and footnotes, the inline
//! composition inside a text block, and the block-level composition
//! across the whole document.
//!
//! Each node holds spans into the source buffer. The grammar is stated
//! as specification functions (`spec_heading`, `spec_block`, ...) over
//! the buffer's byte sequence; every executable parser's postcondition
//! pins its result to the corresponding specification function, so the
//! whole parse is a mathematical function of the input bytes.

use vstd::prelude::*;

use crate::text::{
    Span, SpanModel, ScanKind, span_at, scan_end, scan, match2_at, match3_at, has2, has3, find2,
    find3, find2_at, find3_at, trimmed, trim_span, spec_line, parse_line, B_LF, B_CR, B_DOT,
    B_BACKTICK, B_LBRACKET, B_RBRACKET, B_LPAREN, B_BANG, B_DASH, B_SPACE, B_COLON, B_CARET, B_X,
};

verus! {

/// A `#`-prefixed title line; the level is the length of the run of
/// number signs, with no upper bound.
#[derive(Clone, Copy, PartialEq, Eq, Structural, Debug)]
pub struct Heading {
    pub level: usize,
    pub text: Span,
}

pub struct HeadingModel {
    pub level: int,
    pub text: SpanModel,
}

impl Heading {
    pub open spec fn model(self) -> HeadingModel {
        HeadingModel { level: self.level as int, text: self.text.model() }
    }
}

/// A fenced code region: an optional language tag from the opening
/// fence line, and the contents between the fences.
#[derive(Clone, Copy, PartialEq, Eq, Structural, Debug)]
pub struct CodeBlock {
    pub lang: Option<Span>,
    pub contents: Span,
}

pub struct CodeBlockModel {
    pub lang: Option<SpanModel>,
    pub contents: SpanModel,
}

impl CodeBlock {
    pub open spec fn model(self) -> CodeBlockModel {
        CodeBlockModel {
            lang: match self.lang {
                Some(sp) => Some(sp.model()),
                None => None,
            },
            contents: self.contents.model(),
        }
    }
}

/// An inline hyperlink `[text](url)`; both bracket contents are
/// non-empty.
#[derive(Clone, Copy, PartialEq, Eq, Structural, Debug)]
pub struct Link {
    pub text: Span,
    pub url: Span,
}

pub struct LinkModel {
    pub text: SpanModel,
    pub url: SpanModel,
}

impl Link {
    pub open spec fn model(self) -> LinkModel {
        LinkModel { text: self.text.model(), url: self.url.model() }
    }
}

/// An inline image reference `![alt](source)`.
#[derive(Clone, Copy, PartialEq, Eq, Structural, Debug)]
pub struct Image {
    pub alt: Span,
    pub source: Span,
}

pub struct ImageModel {
    pub alt: SpanModel,
    pub source: SpanModel,
}

impl Image {
    pub open spec fn model(self) -> ImageModel {
        ImageModel { alt: self.alt.model(), source: self.source.model() }
    }
}

/// The run of number signs starting at `pos`: the first position at or
/// after `pos` that does not hold one.
pub open spec fn hash_run_end(s: Seq<u8>, pos: int) -> int {
    scan_end(s, pos, s.len() as int, ScanKind::NotHash)
}

/// A heading: one or more number signs, then the rest of the line,
/// trimmed.
pub open spec fn spec_heading(s: Seq<u8>, pos: int) -> Option<(HeadingModel, int)> {
    let h = hash_run_end(s, pos);
    if h == pos {
        None
    } else {
        match spec_line(s, h) {
            None => None,
            Some((c, p)) => Some(
                (HeadingModel { level: h - pos, text: trimmed(s, c.start, c.end()) }, p),
            ),
        }
    }
}

/// A fenced code block: an opening fence, a language-tag line (empty
/// tag means no language), the contents up to the next fence with one
/// trailing line terminator stripped, and the closing fence.
pub open spec fn spec_code_block(s: Seq<u8>, pos: int) -> Option<(CodeBlockModel, int)> {
    if !match3_at(s, pos, s.len() as int, B_BACKTICK, B_BACKTICK, B_BACKTICK) {
        None
    } else {
        match spec_line(s, pos + 3) {
            None => None,
            Some((langline, p)) => {
                let lt = trimmed(s, langline.start, langline.end());
                let lang = if lt.len == 0 {
                    None
                } else {
                    Some(lt)
                };
                match find3(s, p, s.len() as int, B_BACKTICK, B_BACKTICK, B_BACKTICK) {
                    None => None,
                    Some(j) => {
                        let cend = if j - 1 >= p && s[j - 1] == B_LF {
                            if j - 2 >= p && s[j - 2] == B_CR {
                                j - 2
                            } else {
                                j - 1
                            }
                        } else {
                            j
                        };
                        Some((CodeBlockModel { lang: lang, contents: span_at(p, cend) }, j + 3))
                    },
                }
            },
        }
    }
}

/// A link inside `[pos, end)`: bracketed non-empty text, then
/// parenthesised non-empty url, each ended by the first closing
/// delimiter.
pub open spec fn spec_link(s: Seq<u8>, pos: int, end: int) -> Option<(LinkModel, int)> {
    if !(0 <= pos < end && s[pos] == B_LBRACKET) {
        None
    } else {
        let j = scan_end(s, pos + 1, end, ScanKind::RightBracket);
        if j >= end || j == pos + 1 || !(j + 1 < end && s[j + 1] == B_LPAREN) {
            None
        } else {
            let k = scan_end(s, j + 2, end, ScanKind::RightParen);
            if k >= end || k == j + 2 {
                None
            } else {
                Some((LinkModel { text: span_at(pos + 1, j), url: span_at(j + 2, k) }, k + 1))
            }
        }
    }
}

/// An image: `![`, bracketed alt text, then parenthesised source, each
/// ended by the first closing delimiter; both may be empty.
pub open spec fn spec_image(s: Seq<u8>, pos: int) -> Option<(ImageModel, int)> {
    let end = s.len() as int;
    if !match2_at(s, pos, end, B_BANG, B_LBRACKET) {
        None
    } else {
        let j = scan_end(s, pos + 2, end, ScanKind::RightBracket);
        if j >= end || !(j + 1 < end && s[j + 1] == B_LPAREN) {
            None
        } else {
            let k = scan_end(s, j + 2, end, ScanKind::RightParen);
            if k >= end {
                None
            } else {
                Some((ImageModel { alt: span_at(pos + 2, j), source: span_at(j + 2, k) }, k + 1))
            }
        }
    }
}

/// A sequence of list items as one unordered list; at least one item.
#[derive(PartialEq, Eq, Debug)]
pub struct UnorderedList {
    pub items: Vec<Span>,
}

pub struct UnorderedListModel {
    pub items: Seq<SpanModel>,
}

impl UnorderedList {
    pub open spec fn model(self) -> UnorderedListModel {
        UnorderedListModel { items: models_of_spans(self.items@) }
    }
}

/// A sequence of numbered list items as one ordered list; the numbers
/// themselves are discarded.
#[derive(PartialEq, Eq, Debug)]
pub struct OrderedList {
    pub items: Vec<Span>,
}

pub struct OrderedListModel {
    pub items: Seq<SpanModel>,
}

impl OrderedList {
    pub open spec fn model(self) -> OrderedListModel {
        OrderedListModel { items: models_of_spans(self.items@) }
    }
}

/// A single checklist line: `- [ ] ` or `- [x] `, then the rest of the
/// line.
#[derive(Clone, Copy, PartialEq, Eq, Structural, Debug)]
pub struct Task {
    pub text: Span,
    pub completed: bool,
}

pub struct TaskModel {
    pub text: SpanModel,
    pub completed: bool,
}

impl Task {
    pub open spec fn model(self) -> TaskModel {
        TaskModel { text: self.text.model(), completed: self.completed }
    }
}

/// A sequence of checklist lines; at least one task.
#[derive(PartialEq, Eq, Debug)]
pub struct TaskList {
    pub tasks: Vec<Task>,
}

pub struct TaskListModel {
    pub tasks: Seq<TaskModel>,
}

impl TaskList {
    pub open spec fn model(self) -> TaskListModel {
        TaskListModel { tasks: models_of_tasks(self.tasks@) }
    }
}

/// An in-text footnote marker `[^name]`.
#[derive(Clone, Copy, PartialEq, Eq, Structural, Debug)]
pub struct FootnoteRef {
    pub name: Span,
}

pub struct FootnoteRefModel {
    pub name: SpanModel,
}

impl FootnoteRef {
    pub open spec fn model(self) -> FootnoteRefModel {
        FootnoteRefModel { name: self.name.model() }
    }
}

/// A footnote definition: `[^name]: ` and a first line, then
/// continuation lines each opened by exactly two spaces (stored with
/// that prefix stripped).
#[derive(PartialEq, Eq, Debug)]
pub struct Footnote {
    pub name: Span,
    pub text: Vec<Span>,
}

pub struct FootnoteModel {
    pub name: SpanModel,
    pub text: Seq<SpanModel>,
}

impl Footnote {
    pub open spec fn model(self) -> FootnoteModel {
        FootnoteModel { name: self.name.model(), text: models_of_spans(self.text@) }
    }
}

pub open spec fn models_of_spans(v: Seq<Span>) -> Seq<SpanModel> {
    v.map_values(|sp: Span| sp.model())
}

pub proof fn lemma_models_of_spans_push(v: Seq<Span>, x: Span)
    ensures
        models_of_spans(v.push(x)) == models_of_spans(v).push(x.model()),
{
    assert(models_of_spans(v.push(x)) =~= models_of_spans(v).push(x.model()));
}

pub open spec fn models_of_tasks(v: Seq<Task>) -> Seq<TaskModel> {
    v.map_values(|t: Task| t.model())
}

pub proof fn lemma_models_of_tasks_push(v: Seq<Task>, x: Task)
    ensures
        models_of_tasks(v.push(x)) == models_of_tasks(v).push(x.model()),
{
    assert(models_of_tasks(v.push(x)) =~= models_of_tasks(v).push(x.model()));
}

/// Whether a checklist line starts at `pos`: the exact prefix
/// `- [ ] ` or `- [x] `.
pub open spec fn task_prefix_at(s: Seq<u8>, pos: int) -> bool {
    &&& 0 <= pos
    &&& pos + 6 <= s.len()
    &&& s[pos] == B_DASH
    &&& s[pos + 1] == B_SPACE
    &&& s[pos + 2] == B_LBRACKET
    &&& (s[pos + 3] == B_SPACE || s[pos + 3] == B_X)
    &&& s[pos + 4] == B_RBRACKET
    &&& s[pos + 5] == B_SPACE
}

fn task_prefix(input: &Vec<u8>, pos: usize) -> (r: bool)
    requires
        pos <= input@.len(),
    ensures
        r == task_prefix_at(input@, pos as int),
{
    let len = input.len();
    len >= 6 && pos <= len - 6 && input[pos] == B_DASH && input[pos + 1] == B_SPACE && input[pos
        + 2] == B_LBRACKET && (input[pos + 3] == B_SPACE || input[pos + 3] == B_X) && input[pos + 4]
        == B_RBRACKET && input[pos + 5] == B_SPACE
}

/// One unordered list item: `- ` and the rest of the line, trimmed. A
/// line that is a checklist line is left to the task recognizers.
pub open spec fn spec_uitem(s: Seq<u8>, pos: int) -> Option<(SpanModel, int)> {
    if !match2_at(s, pos, s.len() as int, B_DASH, B_SPACE) {
        None
    } else if task_prefix_at(s, pos) {
        None
    } else {
        match spec_line(s, pos + 2) {
            None => None,
            Some((c, p)) => Some((trimmed(s, c.start, c.end()), p)),
        }
    }
}

/// As many unordered list items as stand in a row from `pos`, and the
/// position after the last of them.
pub open spec fn spec_uitems(s: Seq<u8>, pos: int) -> (Seq<SpanModel>, int)
    decreases s.len() - pos,
{
    match spec_uitem(s, pos) {
        None => (Seq::empty(), pos),
        Some((it, p)) => if !(pos < p <= s.len()) {
            (Seq::empty(), pos)
        } else {
            let (rest, e) = spec_uitems(s, p);
            (seq![it] + rest, e)
        },
    }
}

/// An unordered list: one or more `- ` items.
pub open spec fn spec_unordered(s: Seq<u8>, pos: int) -> Option<(UnorderedListModel, int)> {
    let (items, p) = spec_uitems(s, pos);
    if items.len() == 0 {
        None
    } else {
        Some((UnorderedListModel { items: items }, p))
    }
}

/// One ordered list item: digits, `. `, and the rest of the line,
/// trimmed.
pub open spec fn spec_oitem(s: Seq<u8>, pos: int) -> Option<(SpanModel, int)> {
    let d = scan_end(s, pos, s.len() as int, ScanKind::NotDigit);
    if d == pos {
        None
    } else if !match2_at(s, d, s.len() as int, B_DOT, B_SPACE) {
        None
    } else {
        match spec_line(s, d + 2) {
            None => None,
            Some((c, p)) => Some((trimmed(s, c.start, c.end()), p)),
        }
    }
}

/// As many ordered list items as stand in a row from `pos`.
pub open spec fn spec_oitems(s: Seq<u8>, pos: int) -> (Seq<SpanModel>, int)
    decreases s.len() - pos,
{
    match spec_oitem(s, pos) {
        None => (Seq::empty(), pos),
        Some((it, p)) => if !(pos < p <= s.len()) {
            (Seq::empty(), pos)
        } else {
            let (rest, e) = spec_oitems(s, p);
            (seq![it] + rest, e)
        },
    }
}

/// An ordered list: one or more numbered items.
pub open spec fn spec_ordered(s: Seq<u8>, pos: int) -> Option<(OrderedListModel, int)> {
    let (items, p) = spec_oitems(s, pos);
    if items.len() == 0 {
        None
    } else {
        Some((OrderedListModel { items: items }, p))
    }
}

/// A single checklist line; the text is the rest of the line,
/// untrimmed.
pub open spec fn spec_task(s: Seq<u8>, pos: int) -> Option<(TaskModel, int)> {
    if !task_prefix_at(s, pos) {
        None
    } else {
        match spec_line(s, pos + 6) {
            None => None,
            Some((c, p)) => Some((TaskModel { text: c, completed: s[pos + 3] == B_X }, p)),
        }
    }
}

/// As many checklist lines as stand in a row from `pos`.
pub open spec fn spec_tasks(s: Seq<u8>, pos: int) -> (Seq<TaskModel>, int)
    decreases s.len() - pos,
{
    match spec_task(s, pos) {
        None => (Seq::empty(), pos),
        Some((t, p)) => if !(pos < p <= s.len()) {
            (Seq::empty(), pos)
        } else {
            let (rest, e) = spec_tasks(s, p);
            (seq![t] + rest, e)
        },
    }
}

/// A task list: one or more checklist lines.
pub open spec fn spec_task_list(s: Seq<u8>, pos: int) -> Option<(TaskListModel, int)> {
    let (tasks, p) = spec_tasks(s, pos);
    if tasks.len() == 0 {
        None
    } else {
        Some((TaskListModel { tasks: tasks }, p))
    }
}

/// A footnote reference inside `[pos, end)`: `[^`, a name, `]`.
pub open spec fn spec_footnote_ref(s: Seq<u8>, pos: int, end: int) -> Option<(
    FootnoteRefModel,
    int,
)> {
    if !match2_at(s, pos, end, B_LBRACKET, B_CARET) {
        None
    } else {
        let j = scan_end(s, pos + 2, end, ScanKind::RightBracket);
        if j >= end {
            None
        } else {
            Some((FootnoteRefModel { name: span_at(pos + 2, j) }, j + 1))
        }
    }
}

/// The continuation lines of a footnote: each opened by exactly two
/// spaces, stored without them.
pub open spec fn spec_extra_lines(s: Seq<u8>, pos: int) -> (Seq<SpanModel>, int)
    decreases s.len() - pos,
{
    if !match2_at(s, pos, s.len() as int, B_SPACE, B_SPACE) {
        (Seq::empty(), pos)
    } else {
        match spec_line(s, pos + 2) {
            None => (Seq::empty(), pos),
            Some((c, p)) => if !(pos < p <= s.len()) {
                (Seq::empty(), pos)
            } else {
                let (rest, e) = spec_extra_lines(s, p);
                (seq![c] + rest, e)
            },
        }
    }
}

/// A footnote definition: `[^name]: `, a first line (trimmed), then
/// the continuation lines.
pub open spec fn spec_footnote(s: Seq<u8>, pos: int) -> Option<(FootnoteModel, int)> {
    if !match2_at(s, pos, s.len() as int, B_LBRACKET, B_CARET) {
        None
    } else {
        match find2(s, pos + 2, s.len() as int, B_RBRACKET, B_COLON) {
            None => None,
            Some(j) => match spec_line(s, j + 2) {
                None => None,
                Some((c, p)) => {
                    let (extra, e) = spec_extra_lines(s, p);
                    Some(
                        (FootnoteModel {
                            name: span_at(pos + 2, j),
                            text: seq![trimmed(s, c.start, c.end())] + extra,
                        }, e),
                    )
                },
            },
        }
    }
}

fn parse_uitem(input: &Vec<u8>, pos: usize) -> (r: Option<(Span, usize)>)
    requires
        pos <= input@.len(),
    ensures
        match r {
            Some(t) => {
                &&& spec_uitem(input@, pos as int) == Some((t.0.model(), t.1 as int))
                &&& pos < t.1 <= input@.len()
            },
            None => spec_uitem(input@, pos as int) is None,
        },
{
    let len = input.len();
    if !has2(input, pos, len, B_DASH, B_SPACE) {
        return None;
    }
    if task_prefix(input, pos) {
        return None;
    }
    match parse_line(input, pos + 2) {
        None => None,
        Some((c, p)) => Some((trim_span(input, c), p)),
    }
}

fn parse_oitem(input: &Vec<u8>, pos: usize) -> (r: Option<(Span, usize)>)
    requires
        pos <= input@.len(),
    ensures
        match r {
            Some(t) => {
                &&& spec_oitem(input@, pos as int) == Some((t.0.model(), t.1 as int))
                &&& pos < t.1 <= input@.len()
            },
            None => spec_oitem(input@, pos as int) is None,
        },
{
    let len = input.len();
    let d = scan(input, pos, len, ScanKind::NotDigit);
    if d == pos {
        return None;
    }
    if !has2(input, d, len, B_DOT, B_SPACE) {
        return None;
    }
    match parse_line(input, d + 2) {
        None => None,
        Some((c, p)) => Some((trim_span(input, c), p)),
    }
}

fn parse_uitems(input: &Vec<u8>, pos: usize) -> (r: (Vec<Span>, usize))
    requires
        pos <= input@.len(),
    ensures
        models_of_spans(r.0@) == spec_uitems(input@, pos as int).0,
        r.1 as int == spec_uitems(input@, pos as int).1,
        pos <= r.1 <= input@.len(),
        r.0@.len() > 0 ==> pos < r.1,
{
    let mut items: Vec<Span> = Vec::new();
    let mut cur: usize = pos;
    loop
        invariant
            pos <= cur <= input@.len(),
            spec_uitems(input@, pos as int).0 == models_of_spans(items@) + spec_uitems(
                input@,
                cur as int,
            ).0,
            spec_uitems(input@, pos as int).1 == spec_uitems(input@, cur as int).1,
            items@.len() > 0 ==> pos < cur,
        decreases input@.len() - cur,
    {
        match parse_uitem(input, cur) {
            None => {
                proof {
                    assert(models_of_spans(items@) + Seq::<SpanModel>::empty() =~= models_of_spans(
                        items@,
                    ));
                }
                return (items, cur);
            },
            Some((sp, p)) => {
                let ghost prev = items@;
                items.push(sp);
                cur = p;
                proof {
                    lemma_models_of_spans_push(prev, sp);
                    assert(models_of_spans(prev) + (seq![sp.model()] + spec_uitems(
                        input@,
                        p as int,
                    ).0) =~= models_of_spans(items@) + spec_uitems(input@, p as int).0);
                }
            },
        }
    }
}

fn parse_oitems(input: &Vec<u8>, pos: usize) -> (r: (Vec<Span>, usize))
    requires
        pos <= input@.len(),
    ensures
        models_of_spans(r.0@) == spec_oitems(input@, pos as int).0,
        r.1 as int == spec_oitems(input@, pos as int).1,
        pos <= r.1 <= input@.len(),
        r.0@.len() > 0 ==> pos < r.1,
{
    let mut items: Vec<Span> = Vec::new();
    let mut cur: usize = pos;
    loop
        invariant
            pos <= cur <= input@.len(),
            spec_oitems(input@, pos as int).0 == models_of_spans(items@) + spec_oitems(
                input@,
                cur as int,
            ).0,
            spec_oitems(input@, pos as int).1 == spec_oitems(input@, cur as int).1,
            items@.len() > 0 ==> pos < cur,
        decreases input@.len() - cur,
    {
        match parse_oitem(input, cur) {
            None => {
                proof {
                    assert(models_of_spans(items@) + Seq::<SpanModel>::empty() =~= models_of_spans(
                        items@,
                    ));
                }
                return (items, cur);
            },
            Some((sp, p)) => {
                let ghost prev = items@;
                items.push(sp);
                cur = p;
                proof {
                    lemma_models_of_spans_push(prev, sp);
                    assert(models_of_spans(prev) + (seq![sp.model()] + spec_oitems(
                        input@,
                        p as int,
                    ).0) =~= models_of_spans(items@) + spec_oitems(input@, p as int).0);
                }
            },
        }
    }
}

impl UnorderedList {
    /// Parses one or more `- ` list items at `pos`.
    pub fn parse(input: &Vec<u8>, pos: usize) -> (r: Option<(UnorderedList, usize)>)
        requires
            pos <= input@.len(),
        ensures
            match r {
                Some(t) => {
                    &&& spec_unordered(input@, pos as int) == Some((t.0.model(), t.1 as int))
                    &&& pos < t.1 <= input@.len()
                },
                None => spec_unordered(input@, pos as int) is None,
            },
    {
        let (items, p) = parse_uitems(input, pos);
        if items.len() == 0 {
            None
        } else {
            Some((UnorderedList { items: items }, p))
        }
    }

    /// The number of items.
    pub fn len(&self) -> (r: usize)
        ensures
            r == self.model().items.len(),
    {
        self.items.len()
    }
}

impl OrderedList {
    /// Parses one or more numbered list items at `pos`.
    pub fn parse(input: &Vec<u8>, pos: usize) -> (r: Option<(OrderedList, usize)>)
        requires
            pos <= input@.len(),
        ensures
            match r {
                Some(t) => {
                    &&& spec_ordered(input@, pos as int) == Some((t.0.model(), t.1 as int))
                    &&& pos < t.1 <= input@.len()
                },
                None => spec_ordered(input@, pos as int) is None,
            },
    {
        let (items, p) = parse_oitems(input, pos);
        if items.len() == 0 {
            None
        } else {
            Some((OrderedList { items: items }, p))
        }
    }

    /// The number of items.
    pub fn len(&self) -> (r: usize)
        ensures
            r == self.model().items.len(),
    {
        self.items.len()
    }
}

impl Task {
    /// Parses a single checklist line at `pos`, leading `- ` included.
    pub fn parse(input: &Vec<u8>, pos: usize) -> (r: Option<(Task, usize)>)
        requires
            pos <= input@.len(),
        ensures
            match r {
                Some(t) => {
                    &&& spec_task(input@, pos as int) == Some((t.0.model(), t.1 as int))
                    &&& pos < t.1 <= input@.len()
                },
                None => spec_task(input@, pos as int) is None,
            },
    {
        let len = input.len();
        if !task_prefix(input, pos) {
            return None;
        }
        let completed = input[pos + 3] == B_X;
        match parse_line(input, pos + 6) {
            None => None,
            Some((c, p)) => Some((Task { text: c, completed: completed }, p)),
        }
    }
}

impl TaskList {
    /// Parses one or more checklist lines at `pos`.
    pub fn parse(input: &Vec<u8>, pos: usize) -> (r: Option<(TaskList, usize)>)
        requires
            pos <= input@.len(),
        ensures
            match r {
                Some(t) => {
                    &&& spec_task_list(input@, pos as int) == Some((t.0.model(), t.1 as int))
                    &&& pos < t.1 <= input@.len()
                },
                None => spec_task_list(input@, pos as int) is None,
            },
    {
        let mut tasks: Vec<Task> = Vec::new();
        let mut cur: usize = pos;
        loop
            invariant
                pos <= cur <= input@.len(),
                spec_tasks(input@, pos as int).0 == models_of_tasks(tasks@) + spec_tasks(
                    input@,
                    cur as int,
                ).0,
                spec_tasks(input@, pos as int).1 == spec_tasks(input@, cur as int).1,
                tasks@.len() > 0 ==> pos < cur,
            decreases input@.len() - cur,
        {
            match Task::parse(input, cur) {
                None => {
                    proof {
                        assert(models_of_tasks(tasks@) + Seq::<TaskModel>::empty()
                            =~= models_of_tasks(tasks@));
                    }
                    if tasks.len() == 0 {
                        return None;
                    }
                    return Some((TaskList { tasks: tasks }, cur));
                },
                Some((t, p)) => {
                    let ghost prev = tasks@;
                    tasks.push(t);
                    cur = p;
                    proof {
                        lemma_models_of_tasks_push(prev, t);
                        assert(models_of_tasks(prev) + (seq![t.model()] + spec_tasks(
                            input@,
                            p as int,
                        ).0) =~= models_of_tasks(tasks@) + spec_tasks(input@, p as int).0);
                    }
                },
            }
        }
    }

    /// The number of tasks.
    pub fn len(&self) -> (r: usize)
        ensures
            r == self.model().tasks.len(),
    {
        self.tasks.len()
    }
}

impl FootnoteRef {
    /// Parses a footnote reference inside `[pos, end)`.
    pub fn parse_within(input: &Vec<u8>, pos: usize, end: usize) -> (r: Option<(FootnoteRef, usize)>)
        requires
            pos <= end,
            end <= input@.len(),
        ensures
            match r {
                Some(t) => {
                    &&& spec_footnote_ref(input@, pos as int, end as int) == Some(
                        (t.0.model(), t.1 as int),
                    )
                    &&& pos < t.1 <= end
                },
                None => spec_footnote_ref(input@, pos as int, end as int) is None,
            },
    {
        if !has2(input, pos, end, B_LBRACKET, B_CARET) {
            return None;
        }
        let j = scan(input, pos + 2, end, ScanKind::RightBracket);
        if j >= end {
            return None;
        }
        Some((FootnoteRef { name: Span { start: pos + 2, len: j - (pos + 2) } }, j + 1))
    }

    /// Parses a footnote reference against the whole remaining buffer.
    pub fn parse(input: &Vec<u8>, pos: usize) -> (r: Option<(FootnoteRef, usize)>)
        requires
            pos <= input@.len(),
        ensures
            match r {
                Some(t) => {
                    &&& spec_footnote_ref(input@, pos as int, input@.len() as int) == Some(
                        (t.0.model(), t.1 as int),
                    )
                    &&& pos < t.1 <= input@.len()
                },
                None => spec_footnote_ref(input@, pos as int, input@.len() as int) is None,
            },
    {
        let len = input.len();
        FootnoteRef::parse_within(input, pos, len)
    }
}

impl Footnote {
    /// Parses a footnote definition at `pos`.
    pub fn parse(input: &Vec<u8>, pos: usize) -> (r: Option<(Footnote, usize)>)
        requires
            pos <= input@.len(),
        ensures
            match r {
                Some(t) => {
                    &&& spec_footnote(input@, pos as int) == Some((t.0.model(), t.1 as int))
                    &&& pos < t.1 <= input@.len()
                },
                None => spec_footnote(input@, pos as int) is None,
            },
    {
        let len = input.len();
        if !has2(input, pos, len, B_LBRACKET, B_CARET) {
            return None;
        }
        let j = match find2_at(input, pos + 2, len, B_RBRACKET, B_COLON) {
            None => {
                return None;
            },
            Some(j) => j,
        };
        let (first, p) = match parse_line(input, j + 2) {
            None => {
                return None;
            },
            Some((c, p)) => (trim_span(input, c), p),
        };
        let mut text: Vec<Span> = Vec::new();
        text.push(first);
        let ghost firstm = first.model();
        let ghost extras0 = spec_extra_lines(input@, p as int);
        let mut cur: usize = p;
        proof {
            assert(models_of_spans(text@) =~= seq![firstm] + extras0.0.subrange(0, 0));
            assert(extras0.0 =~= extras0.0.subrange(0, 0) + extras0.0);
        }
        loop
            invariant
                p <= cur <= input@.len(),
                len == input@.len(),
                pos + 2 <= j,
                j + 2 <= len,
                spec_footnote(input@, pos as int) == Some(
                    ((FootnoteModel {
                        name: span_at(pos + 2, j as int),
                        text: seq![firstm] + extras0.0,
                    }), extras0.1),
                ),
                pos < p,
                extras0 == spec_extra_lines(input@, p as int),
                models_of_spans(text@) == seq![firstm] + (extras0.0.subrange(
                    0,
                    extras0.0.len() - spec_extra_lines(input@, cur as int).0.len(),
                )),
                extras0.0 == extras0.0.subrange(
                    0,
                    extras0.0.len() - spec_extra_lines(input@, cur as int).0.len(),
                ) + spec_extra_lines(input@, cur as int).0,
                extras0.1 == spec_extra_lines(input@, cur as int).1,
            decreases input@.len() - cur,
        {
            let more = if has2(input, cur, len, B_SPACE, B_SPACE) {
                parse_line(input, cur + 2)
            } else {
                None
            };
            match more {
                None => {
                    proof {
                        assert(spec_extra_lines(input@, cur as int).0 =~= Seq::<
                            SpanModel,
                        >::empty());
                        assert(extras0.0.subrange(0, extras0.0.len() as int) =~= extras0.0);
                        assert(models_of_spans(text@) =~= seq![firstm] + extras0.0);
                    }
                    return Some((Footnote { name: Span { start: pos + 2, len: j - (pos + 2) },
                    text: text }, cur));
                },
                Some((c, p2)) => {
                    let ghost prev = text@;
                    let ghost rest_before = spec_extra_lines(input@, cur as int).0;
                    text.push(c);
                    cur = p2;
                    proof {
                        lemma_models_of_spans_push(prev, c);
                        let rest_after = spec_extra_lines(input@, p2 as int).0;
                        assert(rest_before == seq![c.model()] + rest_after);
                        let done_before = extras0.0.subrange(
                            0,
                            extras0.0.len() - rest_before.len(),
                        );
                        let done_after = extras0.0.subrange(
                            0,
                            extras0.0.len() - rest_after.len(),
                        );
                        assert(done_after =~= done_before.push(c.model()));
                        assert(models_of_spans(text@) =~= seq![firstm] + done_after);
                        assert(extras0.0 =~= done_after + rest_after);
                    }
                },
            }
        }
    }
}

impl Heading {
    /// Parses a heading at `pos`.
    pub fn parse(input: &Vec<u8>, pos: usize) -> (r: Option<(Heading, usize)>)
        requires
            pos <= input@.len(),
        ensures
            match r {
                Some(t) => {
                    &&& spec_heading(input@, pos as int) == Some((t.0.model(), t.1 as int))
                    &&& pos < t.1 <= input@.len()
                },
                None => spec_heading(input@, pos as int) is None,
            },
    {
        let len = input.len();
        let h = scan(input, pos, len, ScanKind::NotHash);
        if h == pos {
            return None;
        }
        match parse_line(input, h) {
            None => None,
            Some((content, p)) => {
                let text = trim_span(input, content);
                Some((Heading { level: h - pos, text: text }, p))
            },
        }
    }
}

impl CodeBlock {
    /// Parses a fenced code block at `pos`.
    pub fn parse(input: &Vec<u8>, pos: usize) -> (r: Option<(CodeBlock, usize)>)
        requires
            pos <= input@.len(),
        ensures
            match r {
                Some(t) => {
                    &&& spec_code_block(input@, pos as int) == Some((t.0.model(), t.1 as int))
                    &&& pos < t.1 <= input@.len()
                },
                None => spec_code_block(input@, pos as int) is None,
            },
    {
        let len = input.len();
        if !has3(input, pos, len, B_BACKTICK, B_BACKTICK, B_BACKTICK) {
            return None;
        }
        match parse_line(input, pos + 3) {
            None => None,
            Some((langline, p)) => {
                let lt = trim_span(input, langline);
                let lang = if lt.len == 0 {
                    None
                } else {
                    Some(lt)
                };
                match find3_at(input, p, len, B_BACKTICK, B_BACKTICK, B_BACKTICK) {
                    None => None,
                    Some(j) => {
                        let cend = if j >= p + 1 && input[j - 1] == B_LF {
                            if j >= p + 2 && input[j - 2] == B_CR {
                                j - 2
                            } else {
                                j - 1
                            }
                        } else {
                            j
                        };
                        Some((CodeBlock { lang: lang, contents: Span { start: p, len: cend - p } },
                        j + 3))
                    },
                }
            },
        }
    }
}

impl Link {
    /// Parses a link inside `[pos, end)`.
    pub fn parse_within(input: &Vec<u8>, pos: usize, end: usize) -> (r: Option<(Link, usize)>)
        requires
            pos <= end,
            end <= input@.len(),
        ensures
            match r {
                Some(t) => {
                    &&& spec_link(input@, pos as int, end as int) == Some((t.0.model(), t.1 as int))
                    &&& pos < t.1 <= end
                },
                None => spec_link(input@, pos as int, end as int) is None,
            },
    {
        if !(pos < end && input[pos] == B_LBRACKET) {
            return None;
        }
        let j = scan(input, pos + 1, end, ScanKind::RightBracket);
        if j >= end || j == pos + 1 || !(j + 1 < end && input[j + 1] == B_LPAREN) {
            return None;
        }
        let k = scan(input, j + 2, end, ScanKind::RightParen);
        if k >= end || k == j + 2 {
            return None;
        }
        Some((Link { text: Span { start: pos + 1, len: j - (pos + 1) }, url: Span {
            start: j + 2,
            len: k - (j + 2),
        } }, k + 1))
    }

    /// Parses a link against the whole remaining buffer.
    pub fn parse(input: &Vec<u8>, pos: usize) -> (r: Option<(Link, usize)>)
        requires
            pos <= input@.len(),
        ensures
            match r {
                Some(t) => {
                    &&& spec_link(input@, pos as int, input@.len() as int) == Some(
                        (t.0.model(), t.1 as int),
                    )
                    &&& pos < t.1 <= input@.len()
                },
                None => spec_link(input@, pos as int, input@.len() as int) is None,
            },
    {
        let len = input.len();
        Link::parse_within(input, pos, len)
    }
}

impl Image {
    /// Parses an image at `pos`.
    pub fn parse(input: &Vec<u8>, pos: usize) -> (r: Option<(Image, usize)>)
        requires
            pos <= input@.len(),
        ensures
            match r {
                Some(t) => {
                    &&& spec_image(input@, pos as int) == Some((t.0.model(), t.1 as int))
                    &&& pos < t.1 <= input@.len()
                },
                None => spec_image(input@, pos as int) is None,
            },
    {
        let len = input.len();
        if !has2(input, pos, len, B_BANG, B_LBRACKET) {
            return None;
        }
        let j = scan(input, pos + 2, len, ScanKind::RightBracket);
        if j >= len || !(j + 1 < len && input[j + 1] == B_LPAREN) {
            return None;
        }
        let k = scan(input, j + 2, len, ScanKind::RightParen);
        if k >= len {
            return None;
        }
        Some((Image { alt: Span { start: pos + 2, len: j - (pos + 2) }, source: Span {
            start: j + 2,
            len: k - (j + 2),
        } }, k + 1))
    }
}

/// A literal run inside a paragraph; it never contains a backtick or
/// an opening bracket.
#[derive(Clone, Copy, PartialEq, Eq, Structural, Debug)]
pub struct Text(pub Span);

pub struct TextModel {
    pub content: SpanModel,
}

impl Text {
    pub open spec fn model(self) -> TextModel {
        TextModel { content: self.0.model() }
    }
}

/// One inline unit of a paragraph.
#[derive(Clone, Copy, PartialEq, Eq, Structural, Debug)]
pub enum TextBlockItem {
    Text(Text),
    FootnoteRef(FootnoteRef),
    Link(Link),
}

pub enum TextBlockItemModel {
    Text(TextModel),
    FootnoteRef(FootnoteRefModel),
    Link(LinkModel),
}

impl TextBlockItem {
    pub open spec fn model(self) -> TextBlockItemModel {
        match self {
            TextBlockItem::Text(t) => TextBlockItemModel::Text(t.model()),
            TextBlockItem::FootnoteRef(f) => TextBlockItemModel::FootnoteRef(f.model()),
            TextBlockItem::Link(l) => TextBlockItemModel::Link(l.model()),
        }
    }
}

/// A paragraph: the run up to a blank-line separator, fully decomposed
/// into inline units.
#[derive(PartialEq, Eq, Debug)]
pub struct TextBlock {
    pub contents: Vec<TextBlockItem>,
}

pub struct TextBlockModel {
    pub contents: Seq<TextBlockItemModel>,
}

impl TextBlock {
    pub open spec fn model(self) -> TextBlockModel {
        TextBlockModel { contents: models_of_inline(self.contents@) }
    }
}

pub open spec fn models_of_inline(v: Seq<TextBlockItem>) -> Seq<TextBlockItemModel> {
    v.map_values(|it: TextBlockItem| it.model())
}

pub proof fn lemma_models_of_inline_push(v: Seq<TextBlockItem>, x: TextBlockItem)
    ensures
        models_of_inline(v.push(x)) == models_of_inline(v).push(x.model()),
{
    assert(models_of_inline(v.push(x)) =~= models_of_inline(v).push(x.model()));
}

/// A blank separator line: exactly one line terminator.
#[derive(Clone, Copy, PartialEq, Eq, Structural, Debug)]
pub struct Newline;

/// A literal text run inside `[pos, end)`: the maximal non-empty run
/// holding neither a backtick nor an opening bracket.
pub open spec fn spec_text(s: Seq<u8>, pos: int, end: int) -> Option<(TextModel, int)> {
    let e = scan_end(s, pos, end, ScanKind::InlineDelim);
    if e == pos {
        None
    } else {
        Some((TextModel { content: span_at(pos, e) }, e))
    }
}

/// One inline unit inside `[pos, end)`: a text run, a footnote
/// reference, or a link, tried in that order.
pub open spec fn spec_inline_item(s: Seq<u8>, pos: int, end: int) -> Option<(
    TextBlockItemModel,
    int,
)> {
    match spec_text(s, pos, end) {
        Some((t, p)) => Some((TextBlockItemModel::Text(t), p)),
        None => match spec_footnote_ref(s, pos, end) {
            Some((f, p)) => Some((TextBlockItemModel::FootnoteRef(f), p)),
            None => match spec_link(s, pos, end) {
                Some((l, p)) => Some((TextBlockItemModel::Link(l), p)),
                None => None,
            },
        },
    }
}

/// As many inline units as stand in a row inside `[pos, end)`.
pub open spec fn spec_inline_items(s: Seq<u8>, pos: int, end: int) -> (Seq<TextBlockItemModel>, int)
    decreases end - pos,
{
    match spec_inline_item(s, pos, end) {
        None => (Seq::empty(), pos),
        Some((it, p)) => if !(pos < p <= end) {
            (Seq::empty(), pos)
        } else {
            let (rest, e) = spec_inline_items(s, p, end);
            (seq![it] + rest, e)
        },
    }
}

/// A paragraph: a non-empty run up to the first blank-line separator
/// (two line feeds), the whole run of line feeds consumed after it, and
/// the run fully decomposed into inline units. A remainder the inline
/// units do not cover makes the paragraph fail.
pub open spec fn spec_text_block(s: Seq<u8>, pos: int) -> Option<(TextBlockModel, int)> {
    match find2(s, pos, s.len() as int, B_LF, B_LF) {
        None => None,
        Some(j) => if j == pos {
            None
        } else {
            let k = scan_end(s, j, s.len() as int, ScanKind::NotLineFeed);
            let (items, e2) = spec_inline_items(s, pos, j);
            if e2 == j && items.len() > 0 {
                Some((TextBlockModel { contents: items }, k))
            } else {
                None
            }
        },
    }
}

/// A blank separator line: a line feed, alone or preceded by a
/// carriage return.
pub open spec fn spec_newline(s: Seq<u8>, pos: int) -> Option<int> {
    if 0 <= pos < s.len() && s[pos] == B_LF {
        Some(pos + 1)
    } else if 0 <= pos && pos + 1 < s.len() && s[pos] == B_CR && s[pos + 1] == B_LF {
        Some(pos + 2)
    } else {
        None
    }
}

impl Text {
    /// Parses a literal text run inside `[pos, end)`.
    pub fn parse(input: &Vec<u8>, pos: usize, end: usize) -> (r: Option<(Text, usize)>)
        requires
            pos <= end,
            end <= input@.len(),
        ensures
            match r {
                Some(t) => {
                    &&& spec_text(input@, pos as int, end as int) == Some((t.0.model(), t.1 as int))
                    &&& pos < t.1 <= end
                },
                None => spec_text(input@, pos as int, end as int) is None,
            },
    {
        let e = scan(input, pos, end, ScanKind::InlineDelim);
        if e == pos {
            None
        } else {
            Some((Text(Span { start: pos, len: e - pos }), e))
        }
    }

    /// Parses a text run inside `[pos, end)` as an inline unit.
    pub fn parse_into_text_block(input: &Vec<u8>, pos: usize, end: usize) -> (r: Option<(
        TextBlockItem,
        usize,
    )>)
        requires
            pos <= end,
            end <= input@.len(),
        ensures
            match r {
                Some(t) => {
                    &&& spec_text(input@, pos as int, end as int) matches Some(g)
                    &&& t.0.model() == TextBlockItemModel::Text(g.0)
                    &&& t.1 as int == g.1
                    &&& pos < t.1 <= end
                },
                None => spec_text(input@, pos as int, end as int) is None,
            },
    {
        match Text::parse(input, pos, end) {
            None => None,
            Some((t, p)) => Some((TextBlockItem::Text(t), p)),
        }
    }
}

impl FootnoteRef {
    /// Parses a footnote reference inside `[pos, end)` as an inline
    /// unit.
    pub fn parse_into_text_block(input: &Vec<u8>, pos: usize, end: usize) -> (r: Option<(
        TextBlockItem,
        usize,
    )>)
        requires
            pos <= end,
            end <= input@.len(),
        ensures
            match r {
                Some(t) => {
                    &&& spec_footnote_ref(input@, pos as int, end as int) matches Some(g)
                    &&& t.0.model() == TextBlockItemModel::FootnoteRef(g.0)
                    &&& t.1 as int == g.1
                    &&& pos < t.1 <= end
                },
                None => spec_footnote_ref(input@, pos as int, end as int) is None,
            },
    {
        match FootnoteRef::parse_within(input, pos, end) {
            None => None,
            Some((f, p)) => Some((TextBlockItem::FootnoteRef(f), p)),
        }
    }
}

impl Link {
    /// Parses a link inside `[pos, end)` as an inline unit.
    pub fn parse_into_text_block(input: &Vec<u8>, pos: usize, end: usize) -> (r: Option<(
        TextBlockItem,
        usize,
    )>)
        requires
            pos <= end,
            end <= input@.len(),
        ensures
            match r {
                Some(t) => {
                    &&& spec_link(input@, pos as int, end as int) matches Some(g)
                    &&& t.0.model() == TextBlockItemModel::Link(g.0)
                    &&& t.1 as int == g.1
                    &&& pos < t.1 <= end
                },
                None => spec_link(input@, pos as int, end as int) is None,
            },
    {
        match Link::parse_within(input, pos, end) {
            None => None,
            Some((l, p)) => Some((TextBlockItem::Link(l), p)),
        }
    }
}

fn parse_inline_item(input: &Vec<u8>, pos: usize, end: usize) -> (r: Option<(TextBlockItem, usize)>)
    requires
        pos <= end,
        end <= input@.len(),
    ensures
        match r {
            Some(t) => {
                &&& spec_inline_item(input@, pos as int, end as int) == Some(
                    (t.0.model(), t.1 as int),
                )
                &&& pos < t.1 <= end
            },
            None => spec_inline_item(input@, pos as int, end as int) is None,
        },
{
    match Text::parse_into_text_block(input, pos, end) {
        Some(t) => Some(t),
        None => match FootnoteRef::parse_into_text_block(input, pos, end) {
            Some(t) => Some(t),
            None => match Link::parse_into_text_block(input, pos, end) {
                Some(t) => Some(t),
                None => None,
            },
        },
    }
}

impl TextBlock {
    /// Parses a paragraph at `pos`.
    pub fn parse(input: &Vec<u8>, pos: usize) -> (r: Option<(TextBlock, usize)>)
        requires
            pos <= input@.len(),
        ensures
            match r {
                Some(t) => {
                    &&& spec_text_block(input@, pos as int) == Some((t.0.model(), t.1 as int))
                    &&& pos < t.1 <= input@.len()
                },
                None => spec_text_block(input@, pos as int) is None,
            },
    {
        let len = input.len();
        let j = match find2_at(input, pos, len, B_LF, B_LF) {
            None => {
                return None;
            },
            Some(j) => j,
        };
        if j == pos {
            return None;
        }
        let k = scan(input, j, len, ScanKind::NotLineFeed);
        let mut items: Vec<TextBlockItem> = Vec::new();
        let mut cur: usize = pos;
        loop
            invariant
                pos <= cur <= j,
                len == input@.len(),
                pos < j,
                j + 2 <= len,
                find2(input@, pos as int, len as int, B_LF, B_LF) == Some(j as int),
                k == scan_end(input@, j as int, len as int, ScanKind::NotLineFeed),
                j <= k <= len,
                spec_inline_items(input@, pos as int, j as int).0 == models_of_inline(items@)
                    + spec_inline_items(input@, cur as int, j as int).0,
                spec_inline_items(input@, pos as int, j as int).1 == spec_inline_items(
                    input@,
                    cur as int,
                    j as int,
                ).1,
                items@.len() > 0 ==> pos < cur,
            decreases j - cur,
        {
            match parse_inline_item(input, cur, j) {
                None => {
                    proof {
                        assert(models_of_inline(items@) + Seq::<TextBlockItemModel>::empty()
                            =~= models_of_inline(items@));
                    }
                    if cur == j && items.len() > 0 {
                        return Some((TextBlock { contents: items }, k));
                    }
                    return None;
                },
                Some((it, p)) => {
                    let ghost prev = items@;
                    items.push(it);
                    cur = p;
                    proof {
                        lemma_models_of_inline_push(prev, it);
                        assert(models_of_inline(prev) + (seq![it.model()] + spec_inline_items(
                            input@,
                            p as int,
                            j as int,
                        ).0) =~= models_of_inline(items@) + spec_inline_items(
                            input@,
                            p as int,
                            j as int,
                        ).0);
                    }
                },
            }
        }
    }

    /// The number of inline units.
    pub fn len(&self) -> (r: usize)
        ensures
            r == self.model().contents.len(),
    {
        self.contents.len()
    }
}

impl Newline {
    /// Parses one blank separator line at `pos`.
    pub fn parse(input: &Vec<u8>, pos: usize) -> (r: Option<(Newline, usize)>)
        requires
            pos <= input@.len(),
        ensures
            match r {
                Some(t) => {
                    &&& spec_newline(input@, pos as int) == Some(t.1 as int)
                    &&& pos < t.1 <= input@.len()
                },
                None => spec_newline(input@, pos as int) is None,
            },
    {
        let len = input.len();
        if pos < len && input[pos] == B_LF {
            Some((Newline, pos + 1))
        } else if len >= 2 && pos <= len - 2 && input[pos] == B_CR && input[pos + 1] == B_LF {
            Some((Newline, pos + 2))
        } else {
            None
        }
    }
}

/// One top-level document unit.
#[derive(PartialEq, Eq, Debug)]
pub enum Block {
    Heading(Heading),
    CodeBlock(CodeBlock),
    Link(Link),
    Image(Image),
    OrderedList(OrderedList),
    UnorderedList(UnorderedList),
    TaskList(TaskList),
    Footnote(Footnote),
    TextBlock(TextBlock),
    Newline(Newline),
}

pub enum BlockModel {
    Heading(HeadingModel),
    CodeBlock(CodeBlockModel),
    Link(LinkModel),
    Image(ImageModel),
    OrderedList(OrderedListModel),
    UnorderedList(UnorderedListModel),
    TaskList(TaskListModel),
    Footnote(FootnoteModel),
    TextBlock(TextBlockModel),
    Newline,
}

impl Block {
    pub open spec fn model(self) -> BlockModel {
        match self {
            Block::Heading(x) => BlockModel::Heading(x.model()),
            Block::CodeBlock(x) => BlockModel::CodeBlock(x.model()),
            Block::Link(x) => BlockModel::Link(x.model()),
            Block::Image(x) => BlockModel::Image(x.model()),
            Block::OrderedList(x) => BlockModel::OrderedList(x.model()),
            Block::UnorderedList(x) => BlockModel::UnorderedList(x.model()),
            Block::TaskList(x) => BlockModel::TaskList(x.model()),
            Block::Footnote(x) => BlockModel::Footnote(x.model()),
            Block::TextBlock(x) => BlockModel::TextBlock(x.model()),
            Block::Newline(_) => BlockModel::Newline,
        }
    }
}

pub open spec fn models_of_blocks(v: Seq<Block>) -> Seq<BlockModel> {
    v.map_values(|b: Block| b.model())
}

pub proof fn lemma_models_of_blocks_push(v: Seq<Block>, x: Block)
    ensures
        models_of_blocks(v.push(x)) == models_of_blocks(v).push(x.model()),
{
    assert(models_of_blocks(v.push(x)) =~= models_of_blocks(v).push(x.model()));
}

/// The blocks of a parsed document, without the consumed spans.
pub open spec fn block_parts(d: Seq<(BlockModel, SpanModel)>) -> Seq<BlockModel> {
    d.map_values(|t: (BlockModel, SpanModel)| t.0)
}

/// The spans a parsed document's blocks consumed, in order.
pub open spec fn span_parts(d: Seq<(BlockModel, SpanModel)>) -> Seq<SpanModel> {
    d.map_values(|t: (BlockModel, SpanModel)| t.1)
}

/// One block at `pos`: the recognizers tried in their fixed priority
/// order, first match wins.
pub open spec fn spec_block(s: Seq<u8>, pos: int) -> Option<(BlockModel, int)> {
    match spec_heading(s, pos) {
        Some((x, p)) => Some((BlockModel::Heading(x), p)),
        None => match spec_code_block(s, pos) {
            Some((x, p)) => Some((BlockModel::CodeBlock(x), p)),
            None => match spec_link(s, pos, s.len() as int) {
                Some((x, p)) => Some((BlockModel::Link(x), p)),
                None => match spec_image(s, pos) {
                    Some((x, p)) => Some((BlockModel::Image(x), p)),
                    None => match spec_ordered(s, pos) {
                        Some((x, p)) => Some((BlockModel::OrderedList(x), p)),
                        None => match spec_unordered(s, pos) {
                            Some((x, p)) => Some((BlockModel::UnorderedList(x), p)),
                            None => match spec_task_list(s, pos) {
                                Some((x, p)) => Some((BlockModel::TaskList(x), p)),
                                None => match spec_footnote(s, pos) {
                                    Some((x, p)) => Some((BlockModel::Footnote(x), p)),
                                    None => match spec_text_block(s, pos) {
                                        Some((x, p)) => Some((BlockModel::TextBlock(x), p)),
                                        None => match spec_newline(s, pos) {
                                            Some(p) => Some((BlockModel::Newline, p)),
                                            None => None,
                                        },
                                    },
                                },
                            },
                        },
                    },
                },
            },
        },
    }
}

/// The whole document from `pos`: one block after another until the
/// end of the input, each paired with the span it consumed. `None`
/// when some position is reached where every recognizer fails.
pub open spec fn spec_doc(s: Seq<u8>, pos: int) -> Option<Seq<(BlockModel, SpanModel)>>
    decreases s.len() - pos,
{
    if pos == s.len() {
        Some(Seq::empty())
    } else {
        match spec_block(s, pos) {
            None => None,
            Some((b, p)) => if !(pos < p <= s.len()) {
                None
            } else {
                match spec_doc(s, p) {
                    None => None,
                    Some(rest) => Some(seq![(b, span_at(pos, p))] + rest),
                }
            },
        }
    }
}

/// The offset at which a failing parse stops: the first position where
/// every recognizer fails.
pub open spec fn spec_doc_fail(s: Seq<u8>, pos: int) -> int
    decreases s.len() - pos,
{
    if pos == s.len() {
        pos
    } else {
        match spec_block(s, pos) {
            None => pos,
            Some((b, p)) => if !(pos < p <= s.len()) {
                pos
            } else {
                spec_doc_fail(s, p)
            },
        }
    }
}

fn parse_block(input: &Vec<u8>, pos: usize) -> (r: Option<(Block, usize)>)
    requires
        pos <= input@.len(),
    ensures
        match r {
            Some(t) => {
                &&& spec_block(input@, pos as int) == Some((t.0.model(), t.1 as int))
                &&& pos < t.1 <= input@.len()
            },
            None => spec_block(input@, pos as int) is None,
        },
{
    match Heading::parse(input, pos) {
        Some((x, p)) => {
            return Some((Block::Heading(x), p));
        },
        None => {},
    }
    match CodeBlock::parse(input, pos) {
        Some((x, p)) => {
            return Some((Block::CodeBlock(x), p));
        },
        None => {},
    }
    match Link::parse(input, pos) {
        Some((x, p)) => {
            return Some((Block::Link(x), p));
        },
        None => {},
    }
    match Image::parse(input, pos) {
        Some((x, p)) => {
            return Some((Block::Image(x), p));
        },
        None => {},
    }
    match OrderedList::parse(input, pos) {
        Some((x, p)) => {
            return Some((Block::OrderedList(x), p));
        },
        None => {},
    }
    match UnorderedList::parse(input, pos) {
        Some((x, p)) => {
            return Some((Block::UnorderedList(x), p));
        },
        None => {},
    }
    match TaskList::parse(input, pos) {
        Some((x, p)) => {
            return Some((Block::TaskList(x), p));
        },
        None => {},
    }
    match Footnote::parse(input, pos) {
        Some((x, p)) => {
            return Some((Block::Footnote(x), p));
        },
        None => {},
    }
    match TextBlock::parse(input, pos) {
        Some((x, p)) => {
            return Some((Block::TextBlock(x), p));
        },
        None => {},
    }
    match Newline::parse(input, pos) {
        Some((x, p)) => {
            return Some((Block::Newline(x), p));
        },
        None => {},
    }
    None
}

impl Block {
    /// Parses a whole document: the ordered sequence of blocks covering
    /// the input exactly, or the byte offset at which every recognizer
    /// failed.
    pub fn parse(input: &Vec<u8>) -> (r: Result<Vec<Block>, usize>)
        ensures
            match r {
                Ok(blocks) => {
                    &&& spec_doc(input@, 0) matches Some(d)
                    &&& models_of_blocks(blocks@) == block_parts(spec_doc(input@, 0)->0)
                },
                Err(off) => {
                    &&& spec_doc(input@, 0) is None
                    &&& off as int == spec_doc_fail(input@, 0)
                },
            },
    {
        let len = input.len();
        let mut blocks: Vec<Block> = Vec::new();
        let ghost mut prefix: Seq<(BlockModel, SpanModel)> = Seq::empty();
        let mut cur: usize = 0;
        loop
            invariant
                cur <= len,
                len == input@.len(),
                models_of_blocks(blocks@) == block_parts(prefix),
                (match spec_doc(input@, cur as int) {
                    Some(rest) => spec_doc(input@, 0) == Some(prefix + rest),
                    None => spec_doc(input@, 0) is None && spec_doc_fail(input@, 0)
                        == spec_doc_fail(input@, cur as int),
                }),
            decreases len - cur,
        {
            if cur == len {
                proof {
                    assert(spec_doc(input@, cur as int) == Some(
                        Seq::<(BlockModel, SpanModel)>::empty(),
                    ));
                    assert(prefix + Seq::<(BlockModel, SpanModel)>::empty() =~= prefix);
                }
                return Ok(blocks);
            }
            match parse_block(input, cur) {
                None => {
                    return Err(cur);
                },
                Some((b, p)) => {
                    let ghost prevb = blocks@;
                    let ghost prevp = prefix;
                    let ghost x = (b.model(), span_at(cur as int, p as int));
                    blocks.push(b);
                    proof {
                        prefix = prefix.push(x);
                        lemma_models_of_blocks_push(prevb, b);
                        assert(block_parts(prefix) =~= block_parts(prevp).push(b.model()));
                        if spec_doc(input@, p as int) is Some {
                            let rest = spec_doc(input@, p as int)->0;
                            assert(spec_doc(input@, cur as int) == Some(seq![x] + rest));
                            assert(prevp + (seq![x] + rest) =~= prefix + rest);
                        }
                    }
                    cur = p;
                },
            }
        }
    }
}

} // verus!
