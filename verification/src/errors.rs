//! Reporting errors and warnings: what is printed for each, piece by piece
//! with the colours to print it in, the source lines it points at quoted
//! and marked.

use vstd::prelude::*;
use crate::ast::{Diagnostic, Level, Loc, count_newlines, line_end, line_start};
use crate::text::push_bytes;
use vstd::string::StringSliceAdditionalSpecFns;

verus! {

broadcast use vstd::string::group_string_axioms;

/// A detail of a report: a further message, or a place in the source with
/// what to say about it.
pub enum Detail<'a> {
    Message(&'a str),
    Loc(&'a str, &'a Loc),
}

/// Something that collects errors and warnings.
pub trait ErrorSink {
    /// Whether the sink can take another report.
    spec fn has_room(&self) -> bool;

    /// Whether `after` is this sink once it has taken the error `message`
    /// with `details`.
    spec fn took_error(&self, after: &Self, message: Seq<char>, details: Seq<Detail>) -> bool;

    /// Whether `after` is this sink once it has taken the warning `message`
    /// with `details`.
    spec fn took_warning(&self, after: &Self, message: Seq<char>, details: Seq<Detail>) -> bool;

    fn error(&mut self, message: &str, details: &[Detail])
        requires
            old(self).has_room(),
            details_ok(details@),
        ensures
            old(self).took_error(&*final(self), message@, details@);

    fn warning(&mut self, message: &str, details: &[Detail])
        requires
            old(self).has_room(),
            details_ok(details@),
        ensures
            old(self).took_warning(&*final(self), message@, details@);

    fn error_count(&self) -> usize;

    fn warning_count(&self) -> usize;

    /// Reports a parser diagnostic: errors and fatal errors as errors at
    /// the diagnostic's place; notes and warnings are dropped.
    fn parser_diagnostic(&mut self, diagnostic: &Diagnostic)
        requires
            old(self).has_room(),
            (diagnostic.level is Error || diagnostic.level is Fatal) ==> quotable(diagnostic.loc),
        ensures
            if diagnostic.level is Error || diagnostic.level is Fatal {
                old(self).took_error(&*final(self), diagnostic.message@, seq![Detail::Loc("here", &diagnostic.loc)])
            } else {
                &*final(self) == &*old(self)
            },
    {
        match diagnostic.level {
            Level::Note => {},
            Level::Warning => {},
            Level::Error | Level::Fatal => {
                let details = [Detail::Loc("here", &diagnostic.loc)];
                assert(details@ =~= seq![Detail::Loc("here", &diagnostic.loc)]);
                self.error(diagnostic.message.as_str(), &details);
            },
        }
    }
}

/// A terminal colour.
#[derive(Clone, Copy, Debug, PartialEq, Eq, Structural)]
pub enum Color {
    Red,
    Yellow,
    Blue,
}

/// How a piece of text is printed: its colour, if any, and whether it is
/// bold or intense.
#[derive(Clone, Copy, Debug, PartialEq, Eq, Structural)]
pub struct Style {
    pub fg: Option<Color>,
    pub bold: bool,
    pub intense: bool,
}

/// The styles of a report whose main colour is `base`: the main one, for
/// the kind of report and the marked source; the highlight, for the
/// messages; and the low one, for places and line numbers.
pub open spec fn scheme(base: Color) -> (Style, Style, Style) {
    (
        Style { fg: Some(base), bold: true, intense: false },
        Style { fg: None, bold: true, intense: false },
        Style { fg: Some(Color::Blue), bold: true, intense: false },
    )
}

pub fn color_scheme(base: Color) -> (r: (Style, Style, Style))
    ensures
        r == scheme(base),
{
    (
        Style { fg: Some(base), bold: true, intense: false },
        Style { fg: None, bold: true, intense: false },
        Style { fg: Some(Color::Blue), bold: true, intense: false },
    )
}

/// A piece of output: text in a style, or plain.
pub struct Segment {
    pub style: Option<Style>,
    pub text: Vec<u8>,
}

/// Segments as styles and bytes.
pub open spec fn segs_view(s: Seq<Segment>) -> Seq<(Option<Style>, Seq<u8>)> {
    s.map_values(|g: Segment| (g.style, g.text@))
}

/// The decimal digits of `n`, as ASCII bytes.
pub open spec fn dec_bytes(n: nat) -> Seq<u8>
    decreases n,
{
    if n < 10 {
        seq![(48 + n) as u8]
    } else {
        dec_bytes(n / 10).push((48 + n % 10) as u8)
    }
}

/// `k` copies of the byte `c`.
pub open spec fn repeat_byte(c: u8, k: nat) -> Seq<u8>
    decreases k,
{
    if k == 0 { seq![] } else { repeat_byte(c, (k - 1) as nat).push(c) }
}

/// `n` right-aligned in a field seven wide.
pub open spec fn pad7(n: nat) -> Seq<u8> {
    let d = dec_bytes(n);
    (if d.len() < 7 { repeat_byte(32, (7 - d.len()) as nat) } else { seq![] }) + d
}

/// The length of the whitespace character at the end of `b`, or zero:
/// the ASCII ones, and the others of Unicode's `White_Space` as UTF-8.
pub open spec fn ws_suffix_len(b: Seq<u8>) -> nat {
    let n = b.len();
    if n >= 1 && (b[n - 1] == 9 || b[n - 1] == 10 || b[n - 1] == 11 || b[n - 1] == 12 || b[n - 1] == 13
        || b[n - 1] == 32) {
        1
    } else if n >= 2 && b[n - 2] == 0xc2 && (b[n - 1] == 0x85 || b[n - 1] == 0xa0) {
        2
    } else if n >= 3 && ((b[n - 3] == 0xe1 && b[n - 2] == 0x9a && b[n - 1] == 0x80)
        || (b[n - 3] == 0xe2 && b[n - 2] == 0x80 && ((0x80 <= b[n - 1] && b[n - 1] <= 0x8a)
            || b[n - 1] == 0xa8 || b[n - 1] == 0xa9 || b[n - 1] == 0xaf))
        || (b[n - 3] == 0xe2 && b[n - 2] == 0x81 && b[n - 1] == 0x9f)
        || (b[n - 3] == 0xe3 && b[n - 2] == 0x80 && b[n - 1] == 0x80)) {
        3
    } else {
        0
    }
}

/// `b` without the whitespace at its end, as `str::trim_end` does it.
pub open spec fn trim_end(b: Seq<u8>) -> Seq<u8>
    decreases b.len(),
{
    if ws_suffix_len(b) == 0 || ws_suffix_len(b) > b.len() {
        b
    } else {
        trim_end(b.take(b.len() - ws_suffix_len(b)))
    }
}

/// What a report prints for a place `loc` in the source, of which it says
/// `label`, the styles of the report being `err`, `high` and `low`. A place
/// on one line quotes the line with the place in the main style and marks
/// it with carets below; a place over several lines quotes them all between
/// a bar that opens at its start and one that closes at its end.
pub open spec fn place_segs(label: Seq<u8>, loc: Loc, err: Style, high: Style, low: Style) -> Seq<(Option<Style>, Seq<u8>)> {
    let b = loc.file.bytes();
    let bp = loc.begin_pos as int;
    let ep = loc.end_pos as int;
    let bn = 1 + count_newlines(b.take(bp));
    let en = 1 + count_newlines(b.take(ep));
    let lb = line_start(b, bp);
    let le = line_end(b, bp);
    let ls2 = line_start(b, ep);
    let le2 = line_end(b, ep);
    let head = seq![(Some(low), repeat_byte(32, 8) + seq![64u8, 32u8] + vstd::utf8::encode_utf8(loc.file.filename@)
        + seq![58u8] + dec_bytes(bn) + seq![10u8])];
    if bn == en {
        head + seq![
            (Some(low), pad7(bn) + seq![32u8, 124u8, 32u8]),
            (None, seq![32u8] + b.subrange(lb, bp)),
            (Some(err), b.subrange(bp, ep)),
            (None, trim_end(b.subrange(ep, le)) + seq![10u8]),
            (Some(err), repeat_byte(32, (11 + bp - lb) as nat) + repeat_byte(94, (ep - bp) as nat)),
            (Some(high), seq![32u8] + label + seq![10u8]),
        ]
    } else {
        head + seq![(Some(err), repeat_byte(32, 10) + repeat_byte(45, (bp - lb + 1) as nat) + seq![118u8, 10u8])]
            + quote_lines(b, lb, le2, bn, err, low)
            + seq![
                (Some(err), repeat_byte(32, 10) + repeat_byte(45, (ep - ls2) as nat) + seq![94u8]),
                (Some(high), seq![32u8] + label + seq![10u8]),
            ]
    }
}

/// What a report prints for one detail, the styles of the report being
/// `err`, `high` and `low`.
pub open spec fn detail_segs(d: Detail, err: Style, high: Style, low: Style) -> Seq<(Option<Style>, Seq<u8>)> {
    match d {
        Detail::Message(m) => seq![
            (Some(low), seq![10u8] + repeat_byte(32, 8) + seq![45u8, 32u8]),
            (Some(high), m.spec_bytes() + seq![10u8, 10u8]),
        ],
        Detail::Loc(m, loc) => place_segs(m.spec_bytes(), *loc, err, high, low),
    }
}

/// What a report prints for its details, one after the other.
pub open spec fn details_segs(ds: Seq<Detail>, err: Style, high: Style, low: Style) -> Seq<(Option<Style>, Seq<u8>)>
    decreases ds.len(),
{
    if ds.len() == 0 {
        seq![]
    } else {
        details_segs(ds.drop_last(), err, high, low) + detail_segs(ds.last(), err, high, low)
    }
}

/// What a report prints: a blank line first when the report before had
/// details, the kind of report and the message, then the details.
pub open spec fn report_segs(pad: bool, kind: Seq<u8>, color: Color, message: Seq<u8>, ds: Seq<Detail>)
    -> Seq<(Option<Style>, Seq<u8>)> {
    let (err, high, low) = scheme(color);
    (if pad { seq![(None::<Style>, seq![10u8])] } else { seq![] })
        + seq![(Some(err), kind + seq![58u8, 32u8]), (Some(high), message + seq![10u8, 10u8])]
        + details_segs(ds, err, high, low)
}

/// A place the reporter can quote: it lies in its file, its ends fall on
/// character boundaries, and the file's length leaves room to count.
pub open spec fn quotable(loc: Loc) -> bool {
    let b = loc.file.bytes();
    &&& loc.begin_pos <= loc.end_pos <= b.len()
    &&& vstd::utf8::is_char_boundary(b, loc.begin_pos as int)
    &&& vstd::utf8::is_char_boundary(b, loc.end_pos as int)
    &&& b.len() < usize::MAX / 2
}

/// Whether every place among `ds` can be quoted.
pub open spec fn details_ok(ds: Seq<Detail>) -> bool {
    forall|i: int| 0 <= i < ds.len() ==> match #[trigger] ds[i] {
        Detail::Loc(_, loc) => quotable(*loc),
        Detail::Message(_) => true,
    }
}

/// Reports errors and warnings as segments of output, counting them.
pub struct ErrorReporter {
    output: Vec<Segment>,
    need_newline_padding: bool,
    error_count: usize,
    warning_count: usize,
}

impl ErrorReporter {
    /// What has been printed, and whether the next report starts with a
    /// blank line.
    pub closed spec fn printed(&self) -> Seq<(Option<Style>, Seq<u8>)> {
        segs_view(self.output@)
    }

    pub closed spec fn padding(&self) -> bool {
        self.need_newline_padding
    }

    pub closed spec fn errors(&self) -> nat {
        self.error_count as nat
    }

    pub closed spec fn warnings(&self) -> nat {
        self.warning_count as nat
    }

    pub fn new() -> (r: ErrorReporter)
        ensures
            r.printed() == Seq::<(Option<Style>, Seq<u8>)>::empty(),
            !r.padding(),
            r.errors() == 0,
            r.warnings() == 0,
    {
        let r = ErrorReporter { output: Vec::new(), need_newline_padding: false, error_count: 0, warning_count: 0 };
        assert(segs_view(r.output@) =~= Seq::<(Option<Style>, Seq<u8>)>::empty());
        r
    }

    /// Hands over what has been printed since the last call.
    pub fn take_output(&mut self) -> (r: Vec<Segment>)
        ensures
            segs_view(r@) == old(self).printed(),
            final(self).printed() == Seq::<(Option<Style>, Seq<u8>)>::empty(),
            final(self).padding() == old(self).padding(),
            final(self).errors() == old(self).errors(),
            final(self).warnings() == old(self).warnings(),
    {
        let mut out: Vec<Segment> = Vec::new();
        std::mem::swap(&mut out, &mut self.output);
        assert(segs_view(self.output@) =~= Seq::<(Option<Style>, Seq<u8>)>::empty());
        out
    }

    fn push_seg(&mut self, style: Option<Style>, text: Vec<u8>)
        ensures
            final(self).printed() == old(self).printed().push((style, text@)),
            final(self).padding() == old(self).padding(),
            final(self).errors() == old(self).errors(),
            final(self).warnings() == old(self).warnings(),
    {
        let ghost before = self.printed();
        self.output.push(Segment { style, text });
        assert(segs_view(self.output@) =~= before.push((style, text@)));
    }

    /// Prints a report of kind `name` in colour `color`.
    fn emit(&mut self, name: &str, color: Color, message: &str, details: &[Detail])
        requires
            details_ok(details@),
        ensures
            final(self).printed() == old(self).printed()
                + report_segs(old(self).padding(), name.spec_bytes(), color, message.spec_bytes(), details@),
            final(self).padding() == (details@.len() > 0),
            final(self).errors() == old(self).errors(),
            final(self).warnings() == old(self).warnings(),
    {
        let ghost p0 = self.printed();
        let (err, high, low) = color_scheme(color);
        let ghost pad = self.need_newline_padding;
        if self.need_newline_padding {
            let mut t: Vec<u8> = Vec::new();
            t.push(10u8);
            self.push_seg(None, t);
        }
        let mut t: Vec<u8> = Vec::new();
        let nb = name.as_bytes();
        push_bytes(&mut t, nb, 0, nb.len());
        t.push(58u8);
        t.push(32u8);
        assert(t@ =~= name.spec_bytes() + seq![58u8, 32u8]);
        self.push_seg(Some(err), t);
        let mut t: Vec<u8> = Vec::new();
        let mb = message.as_bytes();
        push_bytes(&mut t, mb, 0, mb.len());
        t.push(10u8);
        t.push(10u8);
        assert(t@ =~= message.spec_bytes() + seq![10u8, 10u8]);
        self.push_seg(Some(high), t);
        let ghost p1 = self.printed();
        assert(p1 =~= p0 + (if pad { seq![(None::<Style>, seq![10u8])] } else { seq![] })
            + seq![(Some(err), name.spec_bytes() + seq![58u8, 32u8]), (Some(high), message.spec_bytes() + seq![10u8, 10u8])]);
        let mut i: usize = 0;
        while i < details.len()
            invariant
                i <= details@.len(),
                details_ok(details@),
                self.printed() == p1 + details_segs(details@.take(i as int), err, high, low),
                self.errors() == old(self).errors(),
                self.warnings() == old(self).warnings(),
            decreases details@.len() - i,
        {
            let ghost before = self.printed();
            assert(details@.take(i + 1).drop_last() =~= details@.take(i as int));
            self.emit_detail(&details[i], err, high, low);
            i = i + 1;
            assert(self.printed() =~= p1 + details_segs(details@.take(i as int), err, high, low));
        }
        assert(details@.take(details@.len() as int) =~= details@);
        self.need_newline_padding = details.len() > 0;
    }
}

/// The segments quoting the source lines of `b` from the one at `pos` to
/// the one that ends at `stop`, numbered from `no`.
pub open spec fn quote_lines(b: Seq<u8>, pos: int, stop: int, no: nat, err: Style, low: Style)
    -> Seq<(Option<Style>, Seq<u8>)>
    decreases stop - pos,
{
    let e = line_end(b, pos);
    if pos > stop || e < pos {
        seq![]
    } else {
        let this = seq![
            (Some(low), pad7(no) + seq![32u8, 124u8, 32u8]),
            (Some(err), seq![124u8]),
            (None::<Style>, trim_end(b.subrange(pos, e)) + seq![10u8]),
        ];
        if e >= stop { this } else { this + quote_lines(b, e + 1, stop, no + 1, err, low) }
    }
}

proof fn lemma_line_bounds(b: Seq<u8>, p: int)
    requires
        0 <= p <= b.len(),
    ensures
        0 <= line_start(b, p) <= p,
        p <= line_end(b, p) <= b.len(),
        line_end(b, p) < b.len() ==> b[line_end(b, p)] == 10u8,
    decreases b.len() - p,
{
    lemma_line_start_bounds(b, p);
    if p < b.len() && b[p] != 10u8 {
        lemma_line_bounds(b, p + 1);
    }
}

proof fn lemma_line_start_bounds(b: Seq<u8>, p: int)
    requires
        0 <= p <= b.len(),
    ensures
        0 <= line_start(b, p) <= p,
    decreases p,
{
    if p > 0 && b[p - 1] != 10u8 {
        lemma_line_start_bounds(b, p - 1);
    }
}

/// With no newline between `p` and `q`, both lie on one line.
proof fn lemma_same_line_end(b: Seq<u8>, p: int, q: int)
    requires
        0 <= p <= q <= b.len(),
        forall|i: int| p <= i < q ==> b[i] != 10u8,
    ensures
        line_end(b, p) == line_end(b, q),
    decreases q - p,
{
    if p < q {
        lemma_same_line_end(b, p + 1, q);
    }
}

proof fn lemma_newlines_between(b: Seq<u8>, p: int, q: int)
    requires
        0 <= p <= q <= b.len(),
        count_newlines(b.take(p)) == count_newlines(b.take(q)),
    ensures
        forall|i: int| p <= i < q ==> b[i] != 10u8,
    decreases q - p,
{
    if p < q {
        lemma_count_mono(b, p, q - 1);
        assert(b.take(q).drop_last() =~= b.take(q - 1));
        if b[q - 1] == 10u8 {
            assert(count_newlines(b.take(q)) == count_newlines(b.take(q - 1)) + 1);
        } else {
            lemma_newlines_between(b, p, q - 1);
        }
    }
}

proof fn lemma_count_le(b: Seq<u8>)
    ensures
        count_newlines(b) <= b.len(),
    decreases b.len(),
{
    if b.len() > 0 {
        lemma_count_le(b.drop_last());
    }
}

proof fn lemma_count_mono(b: Seq<u8>, p: int, q: int)
    requires
        0 <= p <= q <= b.len(),
    ensures
        count_newlines(b.take(p)) <= count_newlines(b.take(q)),
    decreases q - p,
{
    if p < q {
        lemma_count_mono(b, p, q - 1);
        assert(b.take(q).drop_last() =~= b.take(q - 1));
    }
}

/// The bytes of `n` in decimal.
fn decimal_bytes(n: usize) -> (r: Vec<u8>)
    ensures
        r@ == dec_bytes(n as nat),
    decreases n,
{
    if n < 10 {
        let mut r: Vec<u8> = Vec::new();
        r.push((48 + n) as u8);
        assert(r@ =~= dec_bytes(n as nat));
        r
    } else {
        let mut r = decimal_bytes(n / 10);
        r.push((48 + n % 10) as u8);
        r
    }
}

/// Appends `k` copies of `c`.
fn push_repeat(t: &mut Vec<u8>, c: u8, k: usize)
    ensures
        final(t)@ == old(t)@ + repeat_byte(c, k as nat),
{
    let mut i: usize = 0;
    while i < k
        invariant
            i <= k,
            t@ == old(t)@ + repeat_byte(c, i as nat),
        decreases k - i,
    {
        t.push(c);
        i = i + 1;
        assert(t@ =~= old(t)@ + repeat_byte(c, i as nat));
    }
}

proof fn lemma_dec_len(n: nat)
    ensures
        1 <= dec_bytes(n).len() <= n + 1,
    decreases n,
{
    if n >= 10 {
        lemma_dec_len(n / 10);
    }
}

/// Appends `n` right-aligned in a field seven wide.
fn push_pad7(t: &mut Vec<u8>, n: usize)
    ensures
        final(t)@ == old(t)@ + pad7(n as nat),
{
    let d = decimal_bytes(n);
    if d.len() < 7 {
        push_repeat(t, 32u8, 7 - d.len());
    }
    push_bytes(t, d.as_slice(), 0, d.len());
    assert(t@ =~= old(t)@ + pad7(n as nat));
}

/// The length of the whitespace character that ends `b` between `s` and
/// `e`, or zero.
fn ws_suffix_at(b: &[u8], s: usize, e: usize) -> (k: usize)
    requires
        s <= e <= b@.len(),
    ensures
        k == ws_suffix_len(b@.subrange(s as int, e as int)),
{
    let n = e - s;
    let ghost x = b@.subrange(s as int, e as int);
    if n >= 1 {
        let c = b[e - 1];
        if c == 9 || c == 10 || c == 11 || c == 12 || c == 13 || c == 32 {
            return 1;
        }
    }
    if n >= 2 && b[e - 2] == 0xc2 && (b[e - 1] == 0x85 || b[e - 1] == 0xa0) {
        return 2;
    }
    if n >= 3 {
        let c1 = b[e - 3];
        let c2 = b[e - 2];
        let c3 = b[e - 1];
        if (c1 == 0xe1 && c2 == 0x9a && c3 == 0x80)
            || (c1 == 0xe2 && c2 == 0x80 && ((0x80 <= c3 && c3 <= 0x8a) || c3 == 0xa8 || c3 == 0xa9 || c3 == 0xaf))
            || (c1 == 0xe2 && c2 == 0x81 && c3 == 0x9f)
            || (c1 == 0xe3 && c2 == 0x80 && c3 == 0x80) {
            return 3;
        }
    }
    0
}

/// The end of the bytes of `b` from `s` to `e` once their trailing
/// whitespace is trimmed.
fn trimmed_end(b: &[u8], s: usize, e: usize) -> (r: usize)
    requires
        s <= e <= b@.len(),
    ensures
        s <= r <= e,
        b@.subrange(s as int, r as int) == trim_end(b@.subrange(s as int, e as int)),
{
    let mut r = e;
    while r > s && ws_suffix_at(b, s, r) > 0
        invariant
            s <= r <= e <= b@.len(),
            trim_end(b@.subrange(s as int, r as int)) == trim_end(b@.subrange(s as int, e as int)),
        decreases r,
    {
        let k = ws_suffix_at(b, s, r);
        assert(b@.subrange(s as int, r as int).take(r - s - k) =~= b@.subrange(s as int, r - k));
        r = r - k;
    }
    proof {
        let x = b@.subrange(s as int, r as int);
        if r > s {
            assert(ws_suffix_len(x) == 0);
        } else {
            assert(x.len() == 0);
        }
    }
    r
}

/// The offset of the newline that ends the line at `pos`, or the end.
fn find_line_end(b: &[u8], pos: usize) -> (r: usize)
    requires
        pos <= b@.len(),
    ensures
        r == line_end(b@, pos as int),
{
    let mut e = pos;
    while e < b.len() && b[e] != 10u8
        invariant
            pos <= e <= b@.len(),
            line_end(b@, e as int) == line_end(b@, pos as int),
        decreases b@.len() - e,
    {
        e = e + 1;
    }
    e
}

impl ErrorReporter {
    /// Prints the segments for one detail.
    fn emit_detail(&mut self, d: &Detail, err: Style, high: Style, low: Style)
        requires
            match *d {
                Detail::Loc(_, loc) => quotable(*loc),
                Detail::Message(_) => true,
            },
        ensures
            final(self).printed() == old(self).printed() + detail_segs(*d, err, high, low),
            final(self).padding() == old(self).padding(),
            final(self).errors() == old(self).errors(),
            final(self).warnings() == old(self).warnings(),
    {
        let ghost p0 = self.printed();
        match d {
            Detail::Message(m) => {
                let mut t: Vec<u8> = Vec::new();
                t.push(10u8);
                push_repeat(&mut t, 32u8, 8);
                t.push(45u8);
                t.push(32u8);
                assert(t@ =~= seq![10u8] + repeat_byte(32, 8) + seq![45u8, 32u8]);
                self.push_seg(Some(low), t);
                let mut t: Vec<u8> = Vec::new();
                let mb = m.as_bytes();
                push_bytes(&mut t, mb, 0, mb.len());
                t.push(10u8);
                t.push(10u8);
                assert(mb@.subrange(0, mb@.len() as int) =~= mb@);
                assert(t@ =~= m.spec_bytes() + seq![10u8, 10u8]);
                self.push_seg(Some(high), t);
                assert(self.printed() =~= p0 + detail_segs(*d, err, high, low));
            },
            Detail::Loc(m, loc) => {
                let b = loc.file.source.as_str().as_bytes();
                let ghost bs = loc.file.bytes();
                assert(b@ == bs);
                let bp = loc.begin_pos;
                let ep = loc.end_pos;
                let begin = loc.file.line_for_pos(bp);
                let end = loc.file.line_for_pos(ep);
                proof {
                    lemma_line_bounds(bs, bp as int);
                    lemma_line_bounds(bs, ep as int);
                    lemma_count_mono(bs, bp as int, ep as int);
                }
                let mut t: Vec<u8> = Vec::new();
                push_repeat(&mut t, 32u8, 8);
                t.push(64u8);
                t.push(32u8);
                let fb = loc.file.filename.as_str().as_bytes();
                push_bytes(&mut t, fb, 0, fb.len());
                t.push(58u8);
                let nb = decimal_bytes(begin.number);
                push_bytes(&mut t, nb.as_slice(), 0, nb.len());
                t.push(10u8);
                assert(fb@.subrange(0, fb@.len() as int) =~= fb@);
                assert(nb@.subrange(0, nb@.len() as int) =~= nb@);
                assert(t@ =~= repeat_byte(32, 8) + seq![64u8, 32u8] + vstd::utf8::encode_utf8(loc.file.filename@)
                    + seq![58u8] + dec_bytes(begin.number as nat) + seq![10u8]);
                self.push_seg(Some(low), t);
                let ghost p1 = self.printed();
                if begin.number == end.number {
                    proof {
                        lemma_newlines_between(bs, bp as int, ep as int);
                        lemma_same_line_end(bs, bp as int, ep as int);
                    }
                    let mut t: Vec<u8> = Vec::new();
                    push_pad7(&mut t, begin.number);
                    t.push(32u8);
                    t.push(124u8);
                    t.push(32u8);
                    assert(t@ =~= pad7(begin.number as nat) + seq![32u8, 124u8, 32u8]);
                    self.push_seg(Some(low), t);
                    let mut t: Vec<u8> = Vec::new();
                    t.push(32u8);
                    push_bytes(&mut t, b, begin.begin_pos, bp);
                    assert(t@ =~= seq![32u8] + bs.subrange(begin.begin_pos as int, bp as int));
                    self.push_seg(None, t);
                    let mut t: Vec<u8> = Vec::new();
                    push_bytes(&mut t, b, bp, ep);
                    assert(t@ =~= bs.subrange(bp as int, ep as int));
                    self.push_seg(Some(err), t);
                    let te = trimmed_end(b, ep, begin.end_pos);
                    let mut t: Vec<u8> = Vec::new();
                    push_bytes(&mut t, b, ep, te);
                    t.push(10u8);
                    assert(t@ =~= trim_end(bs.subrange(ep as int, begin.end_pos as int)) + seq![10u8]);
                    self.push_seg(None, t);
                    let mut t: Vec<u8> = Vec::new();
                    push_repeat(&mut t, 32u8, 11 + bp - begin.begin_pos);
                    push_repeat(&mut t, 94u8, ep - bp);
                    self.push_seg(Some(err), t);
                    let mut t: Vec<u8> = Vec::new();
                    t.push(32u8);
                    let mb = m.as_bytes();
                    push_bytes(&mut t, mb, 0, mb.len());
                    t.push(10u8);
                    assert(mb@.subrange(0, mb@.len() as int) =~= mb@);
                    assert(t@ =~= seq![32u8] + m.spec_bytes() + seq![10u8]);
                    self.push_seg(Some(high), t);
                    assert(self.printed() =~= p0 + detail_segs(*d, err, high, low));
                } else {
                    let mut t: Vec<u8> = Vec::new();
                    push_repeat(&mut t, 32u8, 10);
                    push_repeat(&mut t, 45u8, bp - begin.begin_pos + 1);
                    t.push(118u8);
                    t.push(10u8);
                    assert(t@ =~= repeat_byte(32, 10) + repeat_byte(45, (bp - begin.begin_pos + 1) as nat) + seq![118u8, 10u8]);
                    self.push_seg(Some(err), t);
                    let ghost p2 = self.printed();
                    let stop = end.end_pos;
                    let mut pos = begin.begin_pos;
                    let mut no = begin.number;
                    let ghost all = quote_lines(bs, begin.begin_pos as int, stop as int, begin.number as nat, err, low);
                    let ghost mut acc: Seq<(Option<Style>, Seq<u8>)> = seq![];
                    proof {
                        lemma_count_le(bs.take(bp as int));
                        assert(all == acc + quote_lines(bs, pos as int, stop as int, no as nat, err, low));
                    }
                    loop
                        invariant_except_break
                            pos <= stop,
                            all == acc + quote_lines(bs, pos as int, stop as int, no as nat, err, low),
                        invariant
                            b@ == bs,
                            stop <= bs.len(),
                            bs.len() < usize::MAX / 2,
                            begin.number <= bs.len() + 1,
                            no + begin.begin_pos <= begin.number + pos,
                            begin.begin_pos <= pos,
                            self.printed() == p2 + acc,
                            self.errors() == old(self).errors(),
                            self.warnings() == old(self).warnings(),
                            self.padding() == old(self).padding(),
                        ensures
                            self.printed() == p2 + all,
                        decreases stop - pos,
                    {
                        let e = find_line_end(b, pos);
                        proof {
                            lemma_line_bounds(bs, pos as int);
                        }
                        let ghost this = seq![
                            (Some(low), pad7(no as nat) + seq![32u8, 124u8, 32u8]),
                            (Some(err), seq![124u8]),
                            (None::<Style>, trim_end(bs.subrange(pos as int, e as int)) + seq![10u8]),
                        ];
                        let mut t: Vec<u8> = Vec::new();
                        push_pad7(&mut t, no);
                        t.push(32u8);
                        t.push(124u8);
                        t.push(32u8);
                        assert(t@ =~= pad7(no as nat) + seq![32u8, 124u8, 32u8]);
                        self.push_seg(Some(low), t);
                        let mut t: Vec<u8> = Vec::new();
                        t.push(124u8);
                        assert(t@ =~= seq![124u8]);
                        self.push_seg(Some(err), t);
                        let te = trimmed_end(b, pos, e);
                        let mut t: Vec<u8> = Vec::new();
                        push_bytes(&mut t, b, pos, te);
                        t.push(10u8);
                        assert(t@ =~= trim_end(bs.subrange(pos as int, e as int)) + seq![10u8]);
                        self.push_seg(None, t);
                        proof {
                            acc = acc + this;
                            assert(self.printed() =~= p2 + acc);
                        }
                        if e >= stop {
                            assert(all =~= acc);
                            break;
                        }
                        assert(all =~= acc + quote_lines(bs, e + 1, stop as int, (no + 1) as nat, err, low));
                        pos = e + 1;
                        no = no + 1;
                    }
                    let mut t: Vec<u8> = Vec::new();
                    push_repeat(&mut t, 32u8, 10);
                    push_repeat(&mut t, 45u8, ep - end.begin_pos);
                    t.push(94u8);
                    assert(t@ =~= repeat_byte(32, 10) + repeat_byte(45, (ep - end.begin_pos) as nat) + seq![94u8]);
                    self.push_seg(Some(err), t);
                    let mut t: Vec<u8> = Vec::new();
                    t.push(32u8);
                    let mb = m.as_bytes();
                    push_bytes(&mut t, mb, 0, mb.len());
                    t.push(10u8);
                    assert(mb@.subrange(0, mb@.len() as int) =~= mb@);
                    assert(t@ =~= seq![32u8] + m.spec_bytes() + seq![10u8]);
                    self.push_seg(Some(high), t);
                    assert(self.printed() =~= p0 + detail_segs(*d, err, high, low));
                }
            },
        }
    }
}

impl ErrorSink for ErrorReporter {
    open spec fn has_room(&self) -> bool {
        self.errors() < usize::MAX
    }

    /// The error is printed in red and counted.
    open spec fn took_error(&self, after: &Self, message: Seq<char>, details: Seq<Detail>) -> bool {
        &&& after.printed() == self.printed()
            + report_segs(self.padding(), "error".spec_bytes(), Color::Red, vstd::utf8::encode_utf8(message), details)
        &&& after.padding() == (details.len() > 0)
        &&& after.errors() == self.errors() + 1
        &&& after.warnings() == self.warnings()
    }

    /// The warning is printed in yellow and counted among the errors.
    open spec fn took_warning(&self, after: &Self, message: Seq<char>, details: Seq<Detail>) -> bool {
        &&& after.printed() == self.printed()
            + report_segs(self.padding(), "warning".spec_bytes(), Color::Yellow, vstd::utf8::encode_utf8(message), details)
        &&& after.padding() == (details.len() > 0)
        &&& after.errors() == self.errors() + 1
        &&& after.warnings() == self.warnings()
    }

    /// Prints an error, in red, and counts it.
    fn error(&mut self, message: &str, details: &[Detail])
        ensures
            final(self).printed() == old(self).printed()
                + report_segs(old(self).padding(), "error".spec_bytes(), Color::Red, message.spec_bytes(), details@),
            final(self).padding() == (details@.len() > 0),
            final(self).errors() == old(self).errors() + 1,
            final(self).warnings() == old(self).warnings(),
    {
        self.error_count = self.error_count + 1;
        self.emit("error", Color::Red, message, details);
    }

    /// Prints a warning, in yellow; it is counted among the errors.
    fn warning(&mut self, message: &str, details: &[Detail])
        ensures
            final(self).printed() == old(self).printed()
                + report_segs(old(self).padding(), "warning".spec_bytes(), Color::Yellow, message.spec_bytes(), details@),
            final(self).padding() == (details@.len() > 0),
            final(self).errors() == old(self).errors() + 1,
            final(self).warnings() == old(self).warnings(),
    {
        self.error_count = self.error_count + 1;
        self.emit("warning", Color::Yellow, message, details);
    }

    fn error_count(&self) -> (r: usize)
        ensures
            r == self.errors(),
    {
        self.error_count
    }

    fn warning_count(&self) -> (r: usize)
        ensures
            r == self.warnings(),
    {
        self.warning_count
    }
}


/// An error to report: its message, and the places it points at, each with
/// what is said of it.
pub struct Report {
    pub message: String,
    pub details: Vec<(String, Loc)>,
}

/// A report as its message and its places with what is said of each.
pub type ReportView = (Seq<char>, Seq<(Seq<char>, Loc)>);

impl View for Report {
    type V = ReportView;

    open spec fn view(&self) -> ReportView {
        (self.message@, self.details@.map_values(|d: (String, Loc)| (d.0@, d.1)))
    }
}

/// Reports as what they say.
pub open spec fn reports_view(v: Seq<Report>) -> Seq<ReportView> {
    v.map_values(|r: Report| r@)
}

/// Whether every place of every report of `rs` can be quoted.
pub open spec fn reports_ok(rs: Seq<ReportView>) -> bool {
    forall|i: int, j: int| 0 <= i < rs.len() && 0 <= j < rs[i].1.len() ==> quotable(#[trigger] rs[i].1[j].1)
}

/// What printing the places `ps` of a report prints, one after the other.
pub open spec fn places_segs(ps: Seq<(Seq<char>, Loc)>, err: Style, high: Style, low: Style)
    -> Seq<(Option<Style>, Seq<u8>)>
    decreases ps.len(),
{
    if ps.len() == 0 {
        seq![]
    } else {
        places_segs(ps.drop_last(), err, high, low)
            + place_segs(vstd::utf8::encode_utf8(ps.last().0), ps.last().1, err, high, low)
    }
}

/// What printing the report `r` as an error prints, a blank line first
/// when `pad` holds.
pub open spec fn error_segs(pad: bool, r: ReportView) -> Seq<(Option<Style>, Seq<u8>)> {
    let (err, high, low) = scheme(Color::Red);
    (if pad { seq![(None::<Style>, seq![10u8])] } else { seq![] })
        + seq![(Some(err), "error".spec_bytes() + seq![58u8, 32u8]),
            (Some(high), vstd::utf8::encode_utf8(r.0) + seq![10u8, 10u8])]
        + places_segs(r.1, err, high, low)
}

/// Whether the next report starts with a blank line after the reports
/// `rs` were printed, `pad` telling it before them.
pub open spec fn pad_after(pad: bool, rs: Seq<ReportView>) -> bool {
    if rs.len() == 0 { pad } else { rs.last().1.len() > 0 }
}

/// What printing the reports `rs` as errors, one after the other, prints.
pub open spec fn errors_segs(pad: bool, rs: Seq<ReportView>) -> Seq<(Option<Style>, Seq<u8>)>
    decreases rs.len(),
{
    if rs.len() == 0 {
        seq![]
    } else {
        errors_segs(pad, rs.drop_last()) + error_segs(pad_after(pad, rs.drop_last()), rs.last())
    }
}

proof fn lemma_details_places(ds: Seq<Detail>, ps: Seq<(Seq<char>, Loc)>, err: Style, high: Style, low: Style)
    requires
        ds.len() == ps.len(),
        forall|i: int| 0 <= i < ds.len() ==> (#[trigger] ds[i] matches Detail::Loc(m, l)
            && m.spec_bytes() == vstd::utf8::encode_utf8(ps[i].0) && *l == ps[i].1),
    ensures
        details_segs(ds, err, high, low) == places_segs(ps, err, high, low),
    decreases ds.len(),
{
    if ds.len() > 0 {
        let n = ds.len() - 1;
        assert(ds[n] matches Detail::Loc(m, l) && m.spec_bytes() == vstd::utf8::encode_utf8(ps[n].0) && *l == ps[n].1);
        assert forall|i: int| 0 <= i < ds.drop_last().len() implies (#[trigger] ds.drop_last()[i] matches Detail::Loc(m, l)
            && m.spec_bytes() == vstd::utf8::encode_utf8(ps.drop_last()[i].0) && *l == ps.drop_last()[i].1) by {
            assert(ds.drop_last()[i] == ds[i]);
            assert(ps.drop_last()[i] == ps[i]);
        }
        lemma_details_places(ds.drop_last(), ps.drop_last(), err, high, low);
    }
}

/// Prints each of `reports` as an error, in order, and counts them.
pub fn report_all(reports: &Vec<Report>, sink: &mut ErrorReporter)
    requires
        old(sink).errors() + reports@.len() <= usize::MAX,
        reports_ok(reports_view(reports@)),
    ensures
        final(sink).printed() == old(sink).printed() + errors_segs(old(sink).padding(), reports_view(reports@)),
        final(sink).padding() == pad_after(old(sink).padding(), reports_view(reports@)),
        final(sink).errors() == old(sink).errors() + reports@.len(),
        final(sink).warnings() == old(sink).warnings(),
{
    let ghost rv = reports_view(reports@);
    let mut i: usize = 0;
    while i < reports.len()
        invariant
            i <= reports@.len(),
            rv == reports_view(reports@),
            reports_ok(rv),
            old(sink).errors() + reports@.len() <= usize::MAX,
            sink.printed() == old(sink).printed() + errors_segs(old(sink).padding(), rv.take(i as int)),
            sink.padding() == pad_after(old(sink).padding(), rv.take(i as int)),
            sink.errors() == old(sink).errors() + i,
            sink.warnings() == old(sink).warnings(),
        decreases reports@.len() - i,
    {
        let r = &reports[i];
        let ghost rview = rv[i as int];
        assert(rview == r@);
        let mut ds: Vec<Detail> = Vec::new();
        let mut j: usize = 0;
        while j < r.details.len()
            invariant
                j <= r.details@.len(),
                ds@.len() == j,
                forall|k: int| 0 <= k < j ==> (#[trigger] ds@[k] matches Detail::Loc(m, l)
                    && m@ == r.details@[k].0@ && *l == r.details@[k].1),
            decreases r.details@.len() - j,
        {
            let d = &r.details[j];
            ds.push(Detail::Loc(d.0.as_str(), &d.1));
            j = j + 1;
        }
        proof {
            assert forall|k: int| 0 <= k < ds@.len() implies (#[trigger] ds@[k] matches Detail::Loc(m, l)
                && m.spec_bytes() == vstd::utf8::encode_utf8(rview.1[k].0) && *l == rview.1[k].1) by {
                assert(rview.1[k] == (r.details@[k].0@, r.details@[k].1));
            }
            lemma_details_places(ds@, rview.1, Style { fg: Some(Color::Red), bold: true, intense: false },
                Style { fg: None, bold: true, intense: false }, Style { fg: Some(Color::Blue), bold: true, intense: false });
            assert forall|k: int| 0 <= k < ds@.len() implies match #[trigger] ds@[k] {
                Detail::Loc(_, loc) => quotable(*loc),
                Detail::Message(_) => true,
            } by {
                assert(rview.1[k] == (r.details@[k].0@, r.details@[k].1));
                assert(quotable(rv[i as int].1[k].1));
            }
        }
        let ghost before = sink.printed();
        let ghost pad = sink.padding();
        sink.error(r.message.as_str(), ds.as_slice());
        proof {
            assert(rv.take(i + 1).drop_last() =~= rv.take(i as int));
            assert(rv.take(i + 1).last() == rview);
            assert(sink.printed() =~= old(sink).printed() + errors_segs(old(sink).padding(), rv.take(i + 1)));
        }
        i = i + 1;
    }
    assert(rv.take(reports@.len() as int) =~= rv);
}

} // verus!
