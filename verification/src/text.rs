//! Byte-level primitives: spans into the source buffer, scanning for a
//! stopping byte, searching for short delimiter patterns, whitespace
//! trimming, and the line primitive shared by every block parser.

use vstd::prelude::*;

verus! {

pub const B_TAB: u8 = 9;
pub const B_LF: u8 = 10;
pub const B_FF: u8 = 12;
pub const B_CR: u8 = 13;
pub const B_SPACE: u8 = 32;
pub const B_BANG: u8 = 33;
pub const B_HASH: u8 = 35;
pub const B_LPAREN: u8 = 40;
pub const B_RPAREN: u8 = 41;
pub const B_DASH: u8 = 45;
pub const B_DOT: u8 = 46;
pub const B_ZERO: u8 = 48;
pub const B_NINE: u8 = 57;
pub const B_COLON: u8 = 58;
pub const B_LBRACKET: u8 = 91;
pub const B_RBRACKET: u8 = 93;
pub const B_CARET: u8 = 94;
pub const B_BACKTICK: u8 = 96;
pub const B_X: u8 = 120;

/// A contiguous region of the source buffer, as offset and length.
/// Nodes hold spans instead of copies of the text.
#[derive(Clone, Copy, PartialEq, Eq, Structural, Debug)]
pub struct Span {
    pub start: usize,
    pub len: usize,
}

/// The mathematical counterpart of `Span`, over unbounded integers.
pub struct SpanModel {
    pub start: int,
    pub len: int,
}

impl SpanModel {
    pub open spec fn end(self) -> int {
        self.start + self.len
    }

    /// The span lies inside the buffer.
    pub open spec fn wf(self, s: Seq<u8>) -> bool {
        0 <= self.start && 0 <= self.len && self.start + self.len <= s.len()
    }

    /// The bytes the span selects.
    pub open spec fn bytes(self, s: Seq<u8>) -> Seq<u8> {
        s.subrange(self.start, self.start + self.len)
    }
}

impl Span {
    pub open spec fn model(self) -> SpanModel {
        SpanModel { start: self.start as int, len: self.len as int }
    }
}

/// The span from `start` (inclusive) to `end` (exclusive).
pub open spec fn span_at(start: int, end: int) -> SpanModel {
    SpanModel { start: start, len: end - start }
}

/// Blank bytes stripped by trimming: space, tab, line feed, form feed,
/// carriage return.
pub open spec fn is_blank(b: u8) -> bool {
    b == B_SPACE || b == B_TAB || b == B_LF || b == B_FF || b == B_CR
}

/// What a scan stops at; one kind per delimiter class the grammar needs.
#[derive(Clone, Copy)]
pub enum ScanKind {
    /// Stops at a line break byte (line feed or carriage return).
    LineBreak,
    /// Stops at the first byte that is not a number sign.
    NotHash,
    /// Stops at the first byte that is not a decimal digit.
    NotDigit,
    /// Stops at the first byte that is not blank.
    NotBlank,
    /// Stops at the first byte that is not a line feed.
    NotLineFeed,
    /// Stops at a backtick or an opening bracket, the inline delimiters.
    InlineDelim,
    /// Stops at a closing bracket.
    RightBracket,
    /// Stops at a closing parenthesis.
    RightParen,
    /// Stops at a colon or a line feed, delimiting a frontmatter key.
    KeyStop,
}

pub open spec fn stops(k: ScanKind, b: u8) -> bool {
    match k {
        ScanKind::LineBreak => b == B_LF || b == B_CR,
        ScanKind::NotHash => b != B_HASH,
        ScanKind::NotDigit => !(B_ZERO <= b && b <= B_NINE),
        ScanKind::NotBlank => !is_blank(b),
        ScanKind::NotLineFeed => b != B_LF,
        ScanKind::InlineDelim => b == B_BACKTICK || b == B_LBRACKET,
        ScanKind::RightBracket => b == B_RBRACKET,
        ScanKind::RightParen => b == B_RPAREN,
        ScanKind::KeyStop => b == B_COLON || b == B_LF,
    }
}

/// The first position in `[from, end)` whose byte stops the scan, or
/// `end` if none does.
pub open spec fn scan_end(s: Seq<u8>, from: int, end: int, k: ScanKind) -> int
    decreases end - from,
{
    if from >= end {
        end
    } else if stops(k, s[from]) {
        from
    } else {
        scan_end(s, from + 1, end, k)
    }
}

pub proof fn lemma_scan_end(s: Seq<u8>, from: int, end: int, k: ScanKind)
    requires
        0 <= from <= end <= s.len(),
    ensures
        from <= scan_end(s, from, end, k) <= end,
        forall|j: int| from <= j < scan_end(s, from, end, k) ==> !stops(k, s[j]),
        scan_end(s, from, end, k) < end ==> stops(k, s[scan_end(s, from, end, k)]),
    decreases end - from,
{
    if from < end && !stops(k, s[from]) {
        lemma_scan_end(s, from + 1, end, k);
    }
}

fn stops_at(b: u8, k: ScanKind) -> (r: bool)
    ensures
        r == stops(k, b),
{
    match k {
        ScanKind::LineBreak => b == B_LF || b == B_CR,
        ScanKind::NotHash => b != B_HASH,
        ScanKind::NotDigit => !(B_ZERO <= b && b <= B_NINE),
        ScanKind::NotBlank => !(b == B_SPACE || b == B_TAB || b == B_LF || b == B_FF || b == B_CR),
        ScanKind::NotLineFeed => b != B_LF,
        ScanKind::InlineDelim => b == B_BACKTICK || b == B_LBRACKET,
        ScanKind::RightBracket => b == B_RBRACKET,
        ScanKind::RightParen => b == B_RPAREN,
        ScanKind::KeyStop => b == B_COLON || b == B_LF,
    }
}

/// Advances from `from` to the first byte in `[from, end)` that stops
/// the scan, or to `end`.
pub fn scan(buf: &Vec<u8>, from: usize, end: usize, k: ScanKind) -> (r: usize)
    requires
        from <= end,
        end <= buf@.len(),
    ensures
        r == scan_end(buf@, from as int, end as int, k),
        from <= r <= end,
{
    let mut i: usize = from;
    loop
        invariant
            from <= i <= end,
            end <= buf@.len(),
            scan_end(buf@, from as int, end as int, k) == scan_end(buf@, i as int, end as int, k),
        decreases end - i,
    {
        if i >= end {
            return i;
        }
        if stops_at(buf[i], k) {
            return i;
        }
        i = i + 1;
    }
}

/// Whether the two given bytes stand at `at`, inside `[0, end)`.
pub open spec fn match2_at(s: Seq<u8>, at: int, end: int, a: u8, b: u8) -> bool {
    &&& at + 2 <= end
    &&& 0 <= at
    &&& s[at] == a
    &&& s[at + 1] == b
}

/// Whether the three given bytes stand at `at`, inside `[0, end)`.
pub open spec fn match3_at(s: Seq<u8>, at: int, end: int, a: u8, b: u8, c: u8) -> bool {
    &&& at + 3 <= end
    &&& 0 <= at
    &&& s[at] == a
    &&& s[at + 1] == b
    &&& s[at + 2] == c
}

pub fn has2(buf: &Vec<u8>, at: usize, end: usize, a: u8, b: u8) -> (r: bool)
    requires
        end <= buf@.len(),
    ensures
        r == match2_at(buf@, at as int, end as int, a, b),
{
    end >= 2 && at <= end - 2 && buf[at] == a && buf[at + 1] == b
}

pub fn has3(buf: &Vec<u8>, at: usize, end: usize, a: u8, b: u8, c: u8) -> (r: bool)
    requires
        end <= buf@.len(),
    ensures
        r == match3_at(buf@, at as int, end as int, a, b, c),
{
    end >= 3 && at <= end - 3 && buf[at] == a && buf[at + 1] == b && buf[at + 2] == c
}

/// The position of the first occurrence of the two-byte pattern `a b`
/// in `[from, end)`, or `None`.
pub open spec fn find2(s: Seq<u8>, from: int, end: int, a: u8, b: u8) -> Option<int>
    decreases end - from,
{
    if from < 0 || from + 2 > end {
        None
    } else if s[from] == a && s[from + 1] == b {
        Some(from)
    } else {
        find2(s, from + 1, end, a, b)
    }
}

pub fn find2_at(buf: &Vec<u8>, from: usize, end: usize, a: u8, b: u8) -> (r: Option<usize>)
    requires
        from <= end,
        end <= buf@.len(),
    ensures
        match r {
            Some(j) => find2(buf@, from as int, end as int, a, b) == Some(j as int) && from <= j
                && j + 2 <= end,
            None => find2(buf@, from as int, end as int, a, b) is None,
        },
{
    let mut i: usize = from;
    loop
        invariant
            from <= i <= end,
            end <= buf@.len(),
            find2(buf@, from as int, end as int, a, b) == find2(buf@, i as int, end as int, a, b),
        decreases end - i,
    {
        if end < 2 || i > end - 2 {
            return None;
        }
        if buf[i] == a && buf[i + 1] == b {
            return Some(i);
        }
        i = i + 1;
    }
}

/// The position of the first occurrence of the three-byte pattern
/// `a b c` in `[from, end)`, or `None`.
pub open spec fn find3(s: Seq<u8>, from: int, end: int, a: u8, b: u8, c: u8) -> Option<int>
    decreases end - from,
{
    if from < 0 || from + 3 > end {
        None
    } else if s[from] == a && s[from + 1] == b && s[from + 2] == c {
        Some(from)
    } else {
        find3(s, from + 1, end, a, b, c)
    }
}

pub fn find3_at(buf: &Vec<u8>, from: usize, end: usize, a: u8, b: u8, c: u8) -> (r: Option<
    usize,
>)
    requires
        from <= end,
        end <= buf@.len(),
    ensures
        match r {
            Some(j) => find3(buf@, from as int, end as int, a, b, c) == Some(j as int) && from <= j
                && j + 3 <= end,
            None => find3(buf@, from as int, end as int, a, b, c) is None,
        },
{
    let mut i: usize = from;
    loop
        invariant
            from <= i <= end,
            end <= buf@.len(),
            find3(buf@, from as int, end as int, a, b, c) == find3(
                buf@,
                i as int,
                end as int,
                a,
                b,
                c,
            ),
        decreases end - i,
    {
        if end < 3 || i > end - 3 {
            return None;
        }
        if buf[i] == a && buf[i + 1] == b && buf[i + 2] == c {
            return Some(i);
        }
        i = i + 1;
    }
}

/// The first position in `[from, end)` that holds a byte that is not
/// blank, or `end`.
pub open spec fn skip_blank(s: Seq<u8>, from: int, end: int) -> int {
    scan_end(s, from, end, ScanKind::NotBlank)
}

/// The position after the last non-blank byte in `[from, end)`, or
/// `from` when all of them are blank.
pub open spec fn rskip_blank(s: Seq<u8>, from: int, end: int) -> int
    decreases end - from,
{
    if end <= from {
        from
    } else if is_blank(s[end - 1]) {
        rskip_blank(s, from, end - 1)
    } else {
        end
    }
}

/// The region `[from, end)` with blank bytes stripped from both sides.
pub open spec fn trimmed(s: Seq<u8>, from: int, end: int) -> SpanModel {
    let a = skip_blank(s, from, end);
    let b = rskip_blank(s, a, end);
    span_at(a, b)
}

pub proof fn lemma_rskip_blank(s: Seq<u8>, from: int, end: int)
    requires
        from <= end,
    ensures
        from <= rskip_blank(s, from, end) <= end,
    decreases end - from,
{
    if end > from && is_blank(s[end - 1]) {
        lemma_rskip_blank(s, from, end - 1);
    }
}

/// Strips blank bytes from both ends of the span.
pub fn trim_span(buf: &Vec<u8>, sp: Span) -> (r: Span)
    requires
        sp.model().wf(buf@),
    ensures
        r.model() == trimmed(buf@, sp.model().start, sp.model().end()),
        r.model().wf(buf@),
{
    let n = buf.len();
    let from = sp.start;
    let end = sp.start + sp.len;
    let a = scan(buf, from, end, ScanKind::NotBlank);
    let mut j: usize = end;
    while j > a && (buf[j - 1] == B_SPACE || buf[j - 1] == B_TAB || buf[j - 1] == B_LF || buf[j - 1]
        == B_FF || buf[j - 1] == B_CR)
        invariant
            sp.model().wf(buf@),
            end == sp.start + sp.len,
            end <= buf@.len(),
            a == skip_blank(buf@, sp.start as int, end as int),
            sp.start <= a <= j <= end,
            rskip_blank(buf@, a as int, end as int) == rskip_blank(buf@, a as int, j as int),
        decreases j,
    {
        j = j - 1;
    }
    proof {
        lemma_rskip_blank(buf@, a as int, j as int);
        assert(rskip_blank(buf@, a as int, j as int) == j || j == a);
    }
    Span { start: a, len: j - a }
}

/// The content of a line and the position past its terminator.
///
/// The content runs from `pos` to the first line-break byte; the
/// terminator must then be a line feed, alone or preceded by a carriage
/// return. Without a terminator before the end of the buffer there is
/// no line.
pub open spec fn spec_line(s: Seq<u8>, pos: int) -> Option<(SpanModel, int)> {
    let e = scan_end(s, pos, s.len() as int, ScanKind::LineBreak);
    if e >= s.len() {
        None
    } else if s[e] == B_LF {
        Some((span_at(pos, e), e + 1))
    } else if e + 1 < s.len() && s[e + 1] == B_LF {
        Some((span_at(pos, e), e + 2))
    } else {
        None
    }
}

/// Splits one line off the buffer at `pos`: the line's content span and
/// the position just past the line terminator.
pub fn parse_line(buf: &Vec<u8>, pos: usize) -> (r: Option<(Span, usize)>)
    requires
        pos <= buf@.len(),
    ensures
        match r {
            Some(t) => {
                &&& spec_line(buf@, pos as int) == Some((t.0.model(), t.1 as int))
                &&& t.0.model().wf(buf@)
                &&& pos < t.1 <= buf@.len()
            },
            None => spec_line(buf@, pos as int) is None,
        },
{
    let len = buf.len();
    let e = scan(buf, pos, len, ScanKind::LineBreak);
    proof {
        lemma_scan_end(buf@, pos as int, len as int, ScanKind::LineBreak);
    }
    if e >= len {
        None
    } else if buf[e] == B_LF {
        Some((Span { start: pos, len: e - pos }, e + 1))
    } else if e + 1 < len && buf[e + 1] == B_LF {
        Some((Span { start: pos, len: e - pos }, e + 2))
    } else {
        None
    }
}

/// Copies the bytes a span selects, for callers that want the text
/// itself rather than the offsets.
pub fn span_bytes(buf: &Vec<u8>, sp: Span) -> (r: Vec<u8>)
    requires
        sp.model().wf(buf@),
    ensures
        r@ == sp.model().bytes(buf@),
{
    let n = buf.len();
    let mut out: Vec<u8> = Vec::new();
    let mut i: usize = 0;
    while i < sp.len
        invariant
            i <= sp.len,
            n == buf@.len(),
            sp.model().wf(buf@),
            out@ == buf@.subrange(sp.start as int, sp.start + i),
        decreases sp.len - i,
    {
        out.push(buf[sp.start + i]);
        i = i + 1;
        proof {
            assert(out@ =~= buf@.subrange(sp.start as int, sp.start + i));
        }
    }
    proof {
        assert(out@ =~= sp.model().bytes(buf@));
    }
    out
}

} // verus!
