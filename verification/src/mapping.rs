//! Tracing positions of the generated code back to the module's own source.
//!
//! The module text goes through a sequence of steps: edit passes (ordered
//! byte-range edits) and reprints by oxc's code generator (which come with
//! source maps). A position of the final text is traced back step by step:
//! through an edit pass by undoing the edits' shifts (a position inside an
//! edit's text stands for the place the text was moved from, when the edit
//! records it, else for the edit's start), through a reprint by its
//! source map (the last mapping at or before the position on its line).
//! Positions are byte offsets; source maps count lines from 0 and columns
//! in UTF-16 units.

use vstd::prelude::*;

use crate::text::{edit_views, edits_ordered, Edit, EditV};

verus! {

/// A mapping of a source map: a generated position and the source position
/// it stands for, with the index of its name.
#[derive(Clone, Copy)]
pub struct MapToken {
    pub dst_line: u32,
    pub dst_col: u32,
    pub src_line: u32,
    pub src_col: u32,
    pub name: Option<u32>,
}

/// A source map as plain values: its mappings and its names.
pub struct MapData {
    pub tokens: Vec<MapToken>,
    pub names: Vec<String>,
}

/// The UTF-16 units of the character a UTF-8 byte starts: none for a
/// continuation byte, two for the lead byte of a four-byte sequence.
pub open spec fn units(b: u8) -> nat {
    if 0x80 <= b && b < 0xc0 {
        0
    } else if b >= 0xf0 {
        2
    } else {
        1
    }
}

/// The line and column of byte offset `p` of `t`.
pub open spec fn line_col(t: Seq<u8>, p: nat) -> (nat, nat)
    decreases p,
{
    if p == 0 || p > t.len() {
        (0, 0)
    } else {
        let (l, c) = line_col(t, (p - 1) as nat);
        if t[p - 1] == 10 {
            (l + 1, 0)
        } else {
            (l, c + units(t[p - 1]))
        }
    }
}

/// The offsets at which the lines of `t[..p]` start.
pub open spec fn line_starts(t: Seq<u8>, p: nat) -> Seq<nat>
    decreases p,
{
    if p == 0 || p > t.len() {
        seq![0]
    } else {
        let s = line_starts(t, (p - 1) as nat);
        if t[p - 1] == 10 {
            s.push(p)
        } else {
            s
        }
    }
}

/// The offset of column `col` of the line that runs on from `p`, `acc`
/// columns lying before `p`.
pub open spec fn col_offset(t: Seq<u8>, p: nat, col: nat, acc: nat) -> Option<nat>
    decreases t.len() - p,
{
    if acc == col {
        Some(p)
    } else if acc > col || p >= t.len() || t[p as int] == 10 {
        None
    } else {
        col_offset(t, p + 1, col, acc + units(t[p as int]))
    }
}

/// The offset of line `line`, column `col` of `t`, when there is one.
pub open spec fn offset_at(t: Seq<u8>, line: nat, col: nat) -> Option<nat> {
    let s = line_starts(t, t.len());
    if line < s.len() {
        col_offset(t, s[line as int], col, 0)
    } else {
        None
    }
}

/// The offset in the text before the ordered edits `edits[i..]` that
/// offset `p` of the text after them stands for, `delta` being the shift
/// the edits before `i` made: outside the edits the offset shifted back;
/// inside an edit's text, the same place in the text it moved when the edit
/// records where that text came from, else the edit's start.
pub open spec fn back(edits: Seq<EditV>, i: nat, p: int, delta: int) -> int
    decreases edits.len() - i,
{
    if i >= edits.len() {
        p - delta
    } else {
        let e = edits[i as int];
        let s = e.start + delta;
        if p < s {
            p - delta
        } else if p < s + e.text.len() {
            match e.origin {
                Some(o) => o + (p - s),
                None => e.start as int,
            }
        } else {
            back(edits, i + 1, p, delta + e.text.len() - (e.end - e.start))
        }
    }
}

/// The source position of the last of `tokens[..n]` on line `line` at or
/// before column `col`.
pub open spec fn lookup(tokens: Seq<MapToken>, line: nat, col: nat, n: nat) -> Option<(nat, nat)>
    decreases n,
{
    if n == 0 || n > tokens.len() {
        None
    } else {
        let t = tokens[n - 1];
        if t.dst_line == line && t.dst_col <= col {
            Some((t.src_line as nat, t.src_col as nat))
        } else {
            lookup(tokens, line, col, (n - 1) as nat)
        }
    }
}

/// A step the module text took, as plain values: ordered edits, a reprint
/// of the text `before` as `after` with its source map, or a step that
/// cannot be traced (a reprint without a source map, or of a text too long
/// to index).
pub enum StepView {
    Edits(Seq<EditV>),
    Reprint { tokens: Seq<MapToken>, before: Seq<u8>, after: Seq<u8> },
    Opaque,
}

/// The step of a reprint of `before` as `after` with the source map
/// `tokens`; untraceable without a map or when a text is too long to index.
pub open spec fn reprint(tokens: Option<Seq<MapToken>>, before: Seq<u8>, after: Seq<u8>) -> StepView {
    match tokens {
        Some(t) => if before.len() < usize::MAX / 4 && after.len() < usize::MAX / 4 {
            StepView::Reprint { tokens: t, before, after }
        } else {
            StepView::Opaque
        },
        None => StepView::Opaque,
    }
}

/// The offset in the text before the steps `steps[..n]` that offset `p`
/// of the text after them stands for, when it can be traced.
pub open spec fn trace(steps: Seq<StepView>, n: nat, p: nat) -> Option<nat>
    decreases n,
{
    if n == 0 || n > steps.len() {
        Some(p)
    } else {
        match steps[n - 1] {
            StepView::Edits(e) => {
                let q = back(e, 0, p as int, 0);
                if q < 0 || q > usize::MAX {
                    None
                } else {
                    trace(steps, (n - 1) as nat, q as nat)
                }
            },
            StepView::Opaque => None,
            StepView::Reprint { tokens, before, after } => if p > after.len() {
                None
            } else {
                let (l, c) = line_col(after, p);
                match lookup(tokens, l, c, tokens.len()) {
                    Some((l2, c2)) => match offset_at(before, l2, c2) {
                        Some(q) => trace(steps, (n - 1) as nat, q),
                        None => None,
                    },
                    None => None,
                }
            },
        }
    }
}

/// A mapping of the final code traced back to the module's own text
/// `source`: the final text is `last`, reached from `source` by `steps`.
/// `None` when its position cannot be traced or does not fit.
pub open spec fn traced(t: MapToken, last: Seq<u8>, steps: Seq<StepView>, source: Seq<u8>) -> Option<MapToken> {
    match offset_at(last, t.src_line as nat, t.src_col as nat) {
        Some(p) => match trace(steps, steps.len(), p) {
            Some(q) => if q <= source.len() {
                let (l, c) = line_col(source, q);
                if l <= u32::MAX && c <= u32::MAX {
                    Some(MapToken { src_line: l as u32, src_col: c as u32, ..t })
                } else {
                    None
                }
            } else {
                None
            },
            None => None,
        },
        None => None,
    }
}

/// The mappings of `tokens[..n]` traced back to `source`, those that can
/// be.
pub open spec fn compose(
    tokens: Seq<MapToken>,
    last: Seq<u8>,
    steps: Seq<StepView>,
    source: Seq<u8>,
    n: nat,
) -> Seq<MapToken>
    decreases n,
{
    if n == 0 || n > tokens.len() {
        seq![]
    } else {
        let prev = compose(tokens, last, steps, source, (n - 1) as nat);
        match traced(tokens[n - 1], last, steps, source) {
            Some(t) => prev.push(t),
            None => prev,
        }
    }
}

/// The positions of a text: its bytes, the line and column of each offset
/// (`lc[p]`, for `p` up to the length), and the offsets its lines start at.
pub struct TextIndex {
    text: Vec<u8>,
    lc: Vec<(usize, usize)>,
    starts: Vec<usize>,
}

/// Offsets as plain numbers.
pub open spec fn nat_seq(v: Seq<usize>) -> Seq<nat> {
    v.map_values(|x: usize| x as nat)
}

impl TextIndex {
    /// The indexed text.
    pub closed spec fn text(&self) -> Seq<u8> {
        self.text@
    }

    /// Whether the index describes its text.
    pub closed spec fn wf(&self) -> bool {
        let t = self.text@;
        &&& self.lc@.len() == t.len() + 1
        &&& forall|p: int|
            0 <= p <= t.len() ==> (#[trigger] self.lc@[p].0 as nat, self.lc@[p].1 as nat) == line_col(
                t,
                p as nat,
            )
        &&& nat_seq(self.starts@) == line_starts(t, t.len())
    }
}

/// Lines and columns stay within twice the offset.
proof fn lemma_line_col_bound(t: Seq<u8>, p: nat)
    requires
        p <= t.len(),
    ensures
        line_col(t, p).0 <= p,
        line_col(t, p).1 <= 2 * p,
    decreases p,
{
    if p > 0 {
        lemma_line_col_bound(t, (p - 1) as nat);
    }
}

/// Line starts lie within the text.
proof fn lemma_line_starts_bound(t: Seq<u8>, p: nat)
    requires
        p <= t.len(),
    ensures
        forall|k: int| 0 <= k < line_starts(t, p).len() ==> #[trigger] line_starts(t, p)[k] <= p,
        line_starts(t, p).len() <= p + 1,
    decreases p,
{
    if p > 0 {
        lemma_line_starts_bound(t, (p - 1) as nat);
    }
}

/// Index the positions of `text`.
pub fn index_text(text: Vec<u8>) -> (r: TextIndex)
    requires
        text@.len() < usize::MAX / 4,
    ensures
        r.wf(),
        r.text() == text@,
{
    let ghost t = text@;
    let n = text.len();
    let mut lc: Vec<(usize, usize)> = Vec::new();
    let mut starts: Vec<usize> = Vec::new();
    lc.push((0, 0));
    starts.push(0);
    assert(nat_seq(starts@) =~= line_starts(t, 0));
    let mut p: usize = 0;
    while p < n
        invariant
            n == t.len(),
            n < usize::MAX / 4,
            text@ == t,
            p <= n,
            lc@.len() == p + 1,
            forall|q: int|
                0 <= q <= p ==> (#[trigger] lc@[q].0 as nat, lc@[q].1 as nat) == line_col(t, q as nat),
            nat_seq(starts@) == line_starts(t, p as nat),
        decreases n - p,
    {
        proof {
            lemma_line_col_bound(t, p as nat);
        }
        let (l, c) = lc[p];
        assert((l as nat, c as nat) == line_col(t, p as nat));
        let b = text[p];
        let next = if b == 10 {
            (l + 1, 0)
        } else {
            let u: usize = if 0x80 <= b && b < 0xc0 {
                0
            } else if b >= 0xf0 {
                2
            } else {
                1
            };
            (l, c + u)
        };
        let ghost before = nat_seq(starts@);
        if b == 10 {
            starts.push(p + 1);
            assert(nat_seq(starts@) =~= before.push((p + 1) as nat));
        }
        lc.push(next);
        assert((lc@[p + 1].0 as nat, lc@[p + 1].1 as nat) == line_col(t, (p + 1) as nat));
        p = p + 1;
    }
    let r = TextIndex { text, lc, starts };
    assert(r.wf());
    r
}

impl TextIndex {
    /// The length of the text.
    pub fn len(&self) -> (r: usize)
        ensures
            r == self.text().len(),
    {
        self.text.len()
    }

    /// The line and column of offset `p`.
    pub fn line_col_of(&self, p: usize) -> (r: (usize, usize))
        requires
            self.wf(),
            p <= self.text().len(),
        ensures
            (r.0 as nat, r.1 as nat) == line_col(self.text(), p as nat),
    {
        self.lc[p]
    }

    /// The offset of line `line`, column `col` (see [`offset_at`]).
    pub fn offset_of(&self, line: usize, col: usize) -> (r: Option<usize>)
        requires
            self.wf(),
            self.text().len() < usize::MAX / 4,
        ensures
            match r {
                Some(q) => offset_at(self.text(), line as nat, col as nat) == Some(q as nat),
                None => offset_at(self.text(), line as nat, col as nat) is None,
            },
    {
        let ghost t = self.text@;
        proof {
            lemma_line_starts_bound(t, t.len());
        }
        if line >= self.starts.len() {
            return None;
        }
        let start = self.starts[line];
        assert(start as nat == line_starts(t, t.len())[line as int]);
        assert(start <= t.len());
        let mut p: usize = start;
        let mut acc: usize = 0;
        while p <= self.text.len()
            invariant
                t == self.text@,
                t.len() < usize::MAX / 4,
                start <= p <= t.len(),
                acc <= 2 * (p - start),
                offset_at(t, line as nat, col as nat) == col_offset(t, start as nat, col as nat, 0),
                col_offset(t, start as nat, col as nat, 0) == col_offset(t, p as nat, col as nat, acc as nat),
            decreases t.len() + 1 - p,
        {
            if acc == col {
                return Some(p);
            }
            if acc > col || p >= self.text.len() || self.text[p] == 10 {
                return None;
            }
            let b = self.text[p];
            let u: usize = if 0x80 <= b && b < 0xc0 {
                0
            } else if b >= 0xf0 {
                2
            } else {
                1
            };
            acc = acc + u;
            p = p + 1;
        }
        None
    }
}

/// See [`back`] (from the first edit, no shift yet): `None` when the offset
/// it gives does not fit a `usize`.
pub fn back_of(edits: &Vec<Edit>, p: usize) -> (r: Option<usize>)
    requires
        edits_ordered(edit_views(edits@), usize::MAX as int),
    ensures
        match r {
            Some(q) => back(edit_views(edits@), 0, p as int, 0) == q as int,
            None => back(edit_views(edits@), 0, p as int, 0) < 0 || back(edit_views(edits@), 0, p as int, 0)
                > usize::MAX,
        },
{
    let ghost ev = edit_views(edits@);
    let mut i: usize = 0;
    let mut delta: i128 = 0;
    while i < edits.len()
        invariant
            ev == edit_views(edits@),
            edits_ordered(ev, usize::MAX as int),
            i <= ev.len(),
            i == 0 ==> delta == 0,
            i > 0 ==> delta >= -(ev[i - 1].end as int),
            delta <= p,
            back(ev, 0, p as int, 0) == back(ev, i as nat, p as int, delta as int),
        ensures
            back(ev, 0, p as int, 0) == p - delta,
            delta >= -(usize::MAX as int),
        decreases ev.len() - i,
    {
        let e = &edits[i];
        assert(ev[i as int] == e@);
        let start = e.start as i128;
        let s = start + delta;
        let tl = e.text.len() as i128;
        if (p as i128) < s {
            assert(back(ev, i as nat, p as int, delta as int) == p - delta);
            break;
        }
        if (p as i128) < s + tl {
            match e.origin {
                Some(o) => {
                    let q = o as i128 + (p as i128 - s);
                    if q > usize::MAX as i128 {
                        return None;
                    }
                    return Some(q as usize);
                },
                None => {
                    return Some(e.start);
                },
            }
        }
        if i > 0 {
            assert(ev[i - 1].end <= ev[i as int].start);
        }
        delta = delta + tl - (e.end as i128 - start);
        i = i + 1;
    }
    let q = p as i128 - delta;
    if q < 0 || q > usize::MAX as i128 {
        None
    } else {
        Some(q as usize)
    }
}

/// See [`lookup`].
pub fn lookup_of(tokens: &Vec<MapToken>, line: usize, col: usize) -> (r: Option<(u32, u32)>)
    ensures
        match r {
            Some((l, c)) => lookup(tokens@, line as nat, col as nat, tokens@.len()) == Some((l as nat, c as nat)),
            None => lookup(tokens@, line as nat, col as nat, tokens@.len()) is None,
        },
{
    let mut n: usize = tokens.len();
    while n > 0
        invariant
            n <= tokens@.len(),
            lookup(tokens@, line as nat, col as nat, tokens@.len()) == lookup(tokens@, line as nat, col as nat, n as nat),
        decreases n,
    {
        let t = tokens[n - 1];
        if t.dst_line as usize == line && t.dst_col as usize <= col {
            return Some((t.src_line, t.src_col));
        }
        n = n - 1;
    }
    None
}

/// A step the module text took: ordered edits, a reprint with its source
/// map and the positions of the texts before and after, or a step that
/// cannot be traced.
pub enum Step {
    Edits(Vec<Edit>),
    Reprint { tokens: Vec<MapToken>, before: TextIndex, after: TextIndex },
    Opaque,
}

impl View for Step {
    type V = StepView;

    closed spec fn view(&self) -> StepView {
        match self {
            Step::Edits(e) => StepView::Edits(edit_views(e@)),
            Step::Reprint { tokens, before, after } => StepView::Reprint {
                tokens: tokens@,
                before: before.text(),
                after: after.text(),
            },
            Step::Opaque => StepView::Opaque,
        }
    }
}

impl Step {
    /// Whether the step's edits are ordered and its indexes describe their
    /// texts.
    pub closed spec fn wf(&self) -> bool {
        match self {
            Step::Edits(e) => edits_ordered(edit_views(e@), usize::MAX as int),
            Step::Reprint { tokens, before, after } => {
                &&& before.wf()
                &&& after.wf()
                &&& before.text().len() < usize::MAX / 4
                &&& after.text().len() < usize::MAX / 4
            },
            Step::Opaque => true,
        }
    }
}

/// The views of steps.
pub open spec fn steps_view(v: Seq<Step>) -> Seq<StepView> {
    v.map_values(|s: Step| s@)
}

/// Whether every step is well formed.
pub open spec fn steps_wf(v: Seq<Step>) -> bool {
    forall|i: int| 0 <= i < v.len() ==> #[trigger] v[i].wf()
}

/// The edit step for the ordered edits `edits`.
pub fn edit_step(edits: Vec<Edit>) -> (r: Step)
    requires
        edits_ordered(edit_views(edits@), usize::MAX as int),
    ensures
        r@ == StepView::Edits(edit_views(edits@)),
        r.wf(),
{
    Step::Edits(edits)
}

/// The step of a reprint of `before` as `after` with the source map
/// `tokens` (see [`reprint`]).
pub fn reprint_step(tokens: Option<Vec<MapToken>>, before: Vec<u8>, after: Vec<u8>) -> (r: Step)
    ensures
        r.wf(),
        r@ == reprint(
            match tokens {
                Some(t) => Some(t@),
                None => None,
            },
            before@,
            after@,
        ),
{
    match tokens {
        Some(t) => if before.len() < usize::MAX / 4 && after.len() < usize::MAX / 4 {
            let b = index_text(before);
            let a = index_text(after);
            Step::Reprint { tokens: t, before: b, after: a }
        } else {
            Step::Opaque
        },
        None => Step::Opaque,
    }
}

/// See [`trace`].
fn trace_of(steps: &Vec<Step>, p: usize) -> (r: Option<usize>)
    requires
        steps_wf(steps@),
    ensures
        match r {
            Some(q) => trace(steps_view(steps@), steps@.len(), p as nat) == Some(q as nat),
            None => trace(steps_view(steps@), steps@.len(), p as nat) is None,
        },
{
    let ghost sv = steps_view(steps@);
    let mut k: usize = steps.len();
    let mut q: usize = p;
    while k > 0
        invariant
            sv == steps_view(steps@),
            steps_wf(steps@),
            k <= steps@.len(),
            trace(sv, steps@.len(), p as nat) == trace(sv, k as nat, q as nat),
        decreases k,
    {
        let step = &steps[k - 1];
        assert(steps@[k - 1].wf());
        assert(sv[k - 1] == step@);
        match step {
            Step::Edits(e) => match back_of(e, q) {
                Some(b) => {
                    q = b;
                },
                None => {
                    return None;
                },
            },
            Step::Opaque => {
                return None;
            },
            Step::Reprint { tokens, before, after } => {
                if q > after.len() {
                    return None;
                }
                let (l, c) = after.line_col_of(q);
                match lookup_of(tokens, l, c) {
                    Some((l2, c2)) => match before.offset_of(l2 as usize, c2 as usize) {
                        Some(b) => {
                            q = b;
                        },
                        None => {
                            return None;
                        },
                    },
                    None => {
                        return None;
                    },
                }
            },
        }
        k = k - 1;
    }
    Some(q)
}

/// See [`traced`].
fn traced_of(t: MapToken, last: &TextIndex, steps: &Vec<Step>, source: &TextIndex) -> (r: Option<MapToken>)
    requires
        last.wf(),
        source.wf(),
        last.text().len() < usize::MAX / 4,
        steps_wf(steps@),
    ensures
        r == traced(t, last.text(), steps_view(steps@), source.text()),
{
    match last.offset_of(t.src_line as usize, t.src_col as usize) {
        Some(p) => match trace_of(steps, p) {
            Some(q) => if q <= source.len() {
                let (l, c) = source.line_col_of(q);
                if l <= u32::MAX as usize && c <= u32::MAX as usize {
                    Some(MapToken { dst_line: t.dst_line, dst_col: t.dst_col, src_line: l as u32, src_col: c as u32, name: t.name })
                } else {
                    None
                }
            } else {
                None
            },
            None => None,
        },
        None => None,
    }
}

/// The mappings `tokens` of the final text `last` traced back through
/// `steps` to the module's own text `source` (see [`compose`]).
pub fn compose_of(tokens: &Vec<MapToken>, last: &TextIndex, steps: &Vec<Step>, source: &TextIndex) -> (r: Vec<MapToken>)
    requires
        last.wf(),
        source.wf(),
        last.text().len() < usize::MAX / 4,
        steps_wf(steps@),
    ensures
        r@ == compose(tokens@, last.text(), steps_view(steps@), source.text(), tokens@.len()),
{
    let mut out: Vec<MapToken> = Vec::new();
    let mut i: usize = 0;
    while i < tokens.len()
        invariant
            last.wf(),
            source.wf(),
            last.text().len() < usize::MAX / 4,
            steps_wf(steps@),
            i <= tokens@.len(),
            out@ == compose(tokens@, last.text(), steps_view(steps@), source.text(), i as nat),
        decreases tokens@.len() - i,
    {
        match traced_of(tokens[i], last, steps, source) {
            Some(t) => out.push(t),
            None => {},
        }
        i = i + 1;
    }
    out
}

/// The mappings `tokens` of the final text `last` traced back through
/// `steps` to the module's own text `source`; none when a text is too long
/// to index.
pub open spec fn traced_tokens(tokens: Seq<MapToken>, last: Seq<u8>, steps: Seq<StepView>, source: Seq<u8>) -> Seq<
    MapToken,
> {
    if last.len() < usize::MAX / 4 && source.len() < usize::MAX / 4 {
        compose(tokens, last, steps, source, tokens.len())
    } else {
        seq![]
    }
}

/// See [`traced_tokens`].
pub fn trace_tokens(tokens: &Vec<MapToken>, last: Vec<u8>, steps: &Vec<Step>, source: Vec<u8>) -> (r: Vec<MapToken>)
    requires
        steps_wf(steps@),
    ensures
        r@ == traced_tokens(tokens@, last@, steps_view(steps@), source@),
{
    if last.len() < usize::MAX / 4 && source.len() < usize::MAX / 4 {
        let last_ix = index_text(last);
        let source_ix = index_text(source);
        compose_of(tokens, &last_ix, steps, &source_ix)
    } else {
        Vec::new()
    }
}

/// Whether the mappings come in the order of their generated lines.
pub open spec fn lines_ordered(tokens: Seq<MapToken>) -> bool {
    forall|i: int, j: int| 0 <= i <= j < tokens.len() ==> tokens[i].dst_line <= tokens[j].dst_line
}

/// See [`lines_ordered`].
pub fn lines_ordered_of(tokens: &Vec<MapToken>) -> (r: bool)
    ensures
        r == lines_ordered(tokens@),
{
    let mut i: usize = 1;
    while i < tokens.len()
        invariant
            1 <= i,
            forall|a: int, b: int| 0 <= a <= b < i && b < tokens@.len() ==> tokens@[a].dst_line <= tokens@[b].dst_line,
        decreases tokens@.len() - i,
    {
        if tokens[i - 1].dst_line > tokens[i].dst_line {
            return false;
        }
        i = i + 1;
    }
    true
}

} // verus!
