//! Byte-level text editing: the passes describe their rewrites as ordered,
//! non-overlapping replacements of source byte ranges, applied here.

use vstd::prelude::*;

verus! {

/// One replacement: the source bytes `[start, end)` become `text`. When
/// `text` is a copy of the source from `origin` on (a moved statement),
/// `origin` says so; it does not take part in applying the edit.
pub struct Edit {
    pub start: usize,
    pub end: usize,
    pub text: Vec<u8>,
    pub origin: Option<usize>,
}

/// An edit as plain values.
pub struct EditV {
    pub start: nat,
    pub end: nat,
    pub text: Seq<u8>,
    pub origin: Option<nat>,
}

impl View for Edit {
    type V = EditV;

    open spec fn view(&self) -> EditV {
        EditV {
            start: self.start as nat,
            end: self.end as nat,
            text: self.text@,
            origin: match self.origin {
                Some(o) => Some(o as nat),
                None => None,
            },
        }
    }
}

/// The plain values of a list of edits.
pub open spec fn edit_views(edits: Seq<Edit>) -> Seq<EditV> {
    edits.map_values(|e: Edit| e@)
}

/// The edits are in source order, do not overlap, and stay inside a text of
/// length `len`.
pub open spec fn edits_ordered(edits: Seq<EditV>, len: int) -> bool {
    &&& forall|i: int| 0 <= i < edits.len() ==> #[trigger] edits[i].start <= edits[i].end
    &&& forall|i: int| 0 <= i < edits.len() ==> #[trigger] edits[i].end <= len
    &&& forall|i: int, j: int| 0 <= i < j < edits.len() ==> #[trigger] edits[i].end <= #[trigger] edits[j].start
}

/// The text obtained from `src` by copying it from byte `pos` on, with edits
/// `i..` applied.
pub open spec fn splice(src: Seq<u8>, edits: Seq<EditV>, i: int, pos: int) -> Seq<u8>
    decreases edits.len() - i,
{
    if i < 0 || i >= edits.len() {
        src.subrange(pos, src.len() as int)
    } else {
        src.subrange(pos, edits[i].start as int) + edits[i].text + splice(
            src,
            edits,
            i + 1,
            edits[i].end as int,
        )
    }
}

/// `src` with all of `edits` applied.
pub open spec fn apply(src: Seq<u8>, edits: Seq<EditV>) -> Seq<u8> {
    splice(src, edits, 0, 0)
}

/// Append `other` to `out`.
pub fn push_bytes(out: &mut Vec<u8>, other: &[u8])
    ensures
        final(out)@ == old(out)@ + other@,
{
    let ghost old_out = out@;
    let mut i: usize = 0;
    while i < other.len()
        invariant
            i <= other@.len(),
            out@ == old_out + other@.subrange(0, i as int),
        decreases other@.len() - i,
    {
        out.push(other[i]);
        i = i + 1;
        assert(other@.subrange(0, i as int) =~= other@.subrange(0, i - 1 as int).push(other@[i - 1]));
    }
    assert(other@.subrange(0, other@.len() as int) =~= other@);
}

/// Append the UTF-8 bytes of `s` to `out`.
pub fn push_str(out: &mut Vec<u8>, s: &str)
    ensures
        final(out)@ == old(out)@ + vstd::utf8::encode_utf8(s@),
{
    push_bytes(out, s.as_bytes());
}

/// Append `src[from..to]` to `out`.
pub fn push_range(out: &mut Vec<u8>, src: &[u8], from: usize, to: usize)
    requires
        from <= to <= src@.len(),
    ensures
        final(out)@ == old(out)@ + src@.subrange(from as int, to as int),
{
    let ghost old_out = out@;
    let mut i: usize = from;
    while i < to
        invariant
            from <= i <= to <= src@.len(),
            out@ == old_out + src@.subrange(from as int, i as int),
        decreases to - i,
    {
        out.push(src[i]);
        i = i + 1;
        assert(src@.subrange(from as int, i as int) =~= src@.subrange(from as int, i - 1 as int).push(
            src@[i - 1],
        ));
    }
}

/// Apply `edits` to `src`; `None` when the edits are not in source order,
/// overlap, or reach past the end of `src`.
pub fn apply_edits(src: &[u8], edits: &Vec<Edit>) -> (r: Option<Vec<u8>>)
    ensures
        r is Some <==> edits_ordered(edit_views(edits@), src@.len() as int),
        r matches Some(out) ==> out@ == apply(src@, edit_views(edits@)),
{
    let ghost ev = edit_views(edits@);
    let mut out: Vec<u8> = Vec::new();
    let mut pos: usize = 0;
    let mut i: usize = 0;
    while i < edits.len()
        invariant
            ev == edit_views(edits@),
            ev.len() == edits@.len(),
            i <= edits@.len(),
            pos <= src@.len(),
            i > 0 ==> pos == ev[i - 1].end,
            i == 0 ==> pos == 0,
            edits_ordered(ev.subrange(0, i as int), src@.len() as int),
            out@ + splice(src@, ev, i as int, pos as int) == apply(src@, ev),
        decreases edits@.len() - i,
    {
        let e = &edits[i];
        assert(ev[i as int] == e@);
        if e.start < pos || e.end < e.start || e.end > src.len() {
            proof {
                if edits_ordered(ev, src@.len() as int) {
                    if i > 0 {
                        assert(ev[i - 1].end <= ev[i as int].start);
                    }
                    assert(ev[i as int].start <= ev[i as int].end);
                    assert(ev[i as int].end <= src@.len());
                }
            }
            return None;
        }
        push_range(&mut out, src, pos, e.start);
        push_bytes(&mut out, e.text.as_slice());
        proof {
            let s = ev.subrange(0, i as int);
            let s2 = ev.subrange(0, i + 1 as int);
            assert forall|a: int, b: int| 0 <= a < b < s2.len() implies #[trigger] s2[a].end
                <= #[trigger] s2[b].start by {
                if b < i {
                    assert(s2[a] == s[a] && s2[b] == s[b]);
                } else {
                    assert(s2[a] == s[a]);
                    if a < i - 1 {
                        assert(s[a].end <= s[a].end);
                        assert(s[a].start <= s[a].end);
                        assert(s[a].end <= s[i - 1].start);
                        assert(s[i - 1].start <= s[i - 1].end);
                    }
                }
            }
            assert forall|a: int| 0 <= a < s2.len() implies #[trigger] s2[a].start <= s2[a].end by {
                if a < i {
                    assert(s2[a] == s[a]);
                }
            }
            assert forall|a: int| 0 <= a < s2.len() implies #[trigger] s2[a].end <= src@.len() by {
                if a < i {
                    assert(s2[a] == s[a]);
                }
            }
        }
        pos = e.end;
        i = i + 1;
    }
    push_range(&mut out, src, pos, src.len());
    assert(ev.subrange(0, ev.len() as int) =~= ev);
    Some(out)
}

/// Byte-wise equality of two slices.
pub fn bytes_eq(a: &[u8], b: &[u8]) -> (r: bool)
    ensures
        r == (a@ == b@),
{
    if a.len() != b.len() {
        return false;
    }
    let mut i: usize = 0;
    while i < a.len()
        invariant
            a@.len() == b@.len(),
            i <= a@.len(),
            forall|k: int| 0 <= k < i ==> a@[k] == b@[k],
        decreases a@.len() - i,
    {
        if a[i] != b[i] {
            return false;
        }
        i = i + 1;
    }
    assert(a@ =~= b@);
    true
}

/// UTF-8 encoding is injective.
pub proof fn lemma_encode_injective(a: Seq<char>, b: Seq<char>)
    requires
        vstd::utf8::encode_utf8(a) == vstd::utf8::encode_utf8(b),
    ensures
        a == b,
{
    vstd::utf8::encode_utf8_decode_utf8(a);
    vstd::utf8::encode_utf8_decode_utf8(b);
}

/// Equality of two string slices.
pub fn str_eq(a: &str, b: &str) -> (r: bool)
    ensures
        r == (a@ == b@),
{
    let r = bytes_eq(a.as_bytes(), b.as_bytes());
    proof {
        if r {
            lemma_encode_injective(a@, b@);
        }
    }
    r
}

/// Whether `needle` occurs in `hay` starting at byte `at`.
pub open spec fn occurs_at(hay: Seq<u8>, needle: Seq<u8>, at: int) -> bool {
    0 <= at && at + needle.len() <= hay.len() && hay.subrange(at, at + needle.len()) == needle
}

/// Whether `needle` occurs anywhere in `hay`.
pub open spec fn occurs(hay: Seq<u8>, needle: Seq<u8>) -> bool {
    exists|at: int| occurs_at(hay, needle, at)
}

/// Whether `needle` occurs in `hay` at `at`.
pub fn bytes_occur_at(hay: &[u8], needle: &[u8], at: usize) -> (r: bool)
    ensures
        r == occurs_at(hay@, needle@, at as int),
{
    if at > hay.len() || needle.len() > hay.len() - at {
        return false;
    }
    let mut k: usize = 0;
    while k < needle.len()
        invariant
            at + needle@.len() <= hay@.len(),
            hay@.len() <= usize::MAX,
            k <= needle@.len(),
            forall|j: int| 0 <= j < k ==> hay@[at + j] == needle@[j],
        decreases needle@.len() - k,
    {
        if hay[at + k] != needle[k] {
            assert(hay@.subrange(at as int, at + needle@.len())[k as int] != needle@[k as int]);
            return false;
        }
        k = k + 1;
    }
    assert(hay@.subrange(at as int, at + needle@.len()) =~= needle@);
    true
}

/// Substring search: whether `needle` occurs anywhere in `hay`.
pub fn bytes_contain(hay: &[u8], needle: &[u8]) -> (r: bool)
    ensures
        r == occurs(hay@, needle@),
{
    if needle.len() > hay.len() {
        assert forall|at: int| !occurs_at(hay@, needle@, at) by {}
        return false;
    }
    let limit = hay.len() - needle.len();
    let mut at: usize = 0;
    loop
        invariant
            needle@.len() <= hay@.len(),
            limit == hay@.len() - needle@.len(),
            at <= limit,
            forall|j: int| 0 <= j < at ==> !occurs_at(hay@, needle@, j),
        ensures
            forall|j: int| 0 <= j <= limit ==> !occurs_at(hay@, needle@, j),
        decreases limit - at,
    {
        if bytes_occur_at(hay, needle, at) {
            return true;
        }
        if at == limit {
            break;
        }
        at = at + 1;
    }
    assert forall|j: int| !occurs_at(hay@, needle@, j) by {
        if 0 <= j <= limit {
        }
    }
    false
}

/// The first offset at or after `from` at which the nonempty `needle`
/// occurs in `hay`.
pub open spec fn first_occurrence(hay: Seq<u8>, needle: Seq<u8>, from: nat) -> Option<nat>
    decreases hay.len() - from,
{
    if needle.len() == 0 || from + needle.len() > hay.len() {
        None
    } else if occurs_at(hay, needle, from as int) {
        Some(from)
    } else {
        first_occurrence(hay, needle, from + 1)
    }
}

/// What [`first_occurrence`] finds is an occurrence, at or after `from`.
pub proof fn lemma_first_occurrence(hay: Seq<u8>, needle: Seq<u8>, from: nat)
    ensures
        first_occurrence(hay, needle, from) matches Some(i) ==> from <= i && occurs_at(hay, needle, i as int),
    decreases hay.len() - from,
{
    if needle.len() == 0 || from + needle.len() > hay.len() {
    } else if occurs_at(hay, needle, from as int) {
    } else {
        lemma_first_occurrence(hay, needle, from + 1);
    }
}

/// Substring search: the first offset at which `needle` occurs in `hay`.
pub fn find_bytes(hay: &[u8], needle: &[u8]) -> (r: Option<usize>)
    ensures
        match r {
            Some(i) => first_occurrence(hay@, needle@, 0) == Some(i as nat),
            None => first_occurrence(hay@, needle@, 0) is None,
        },
{
    if needle.len() == 0 || needle.len() > hay.len() {
        return None;
    }
    let last = hay.len() - needle.len();
    let mut i: usize = 0;
    while i <= last
        invariant
            needle@.len() > 0,
            hay@.len() <= usize::MAX,
            last == hay@.len() - needle@.len(),
            i <= last + 1,
            first_occurrence(hay@, needle@, 0) == first_occurrence(hay@, needle@, i as nat),
        decreases last + 1 - i,
    {
        if bytes_occur_at(hay, needle, i) {
            return Some(i);
        }
        i = i + 1;
    }
    None
}

/// Decimal digits of `n`.
pub open spec fn decimal(n: nat) -> Seq<u8>
    decreases n,
{
    if n < 10 {
        seq![(48 + n) as u8]
    } else {
        decimal(n / 10) + seq![(48 + n % 10) as u8]
    }
}

/// Append the decimal digits of `n` to `out`.
pub fn push_decimal(out: &mut Vec<u8>, n: usize)
    ensures
        final(out)@ == old(out)@ + decimal(n as nat),
    decreases n,
{
    if n >= 10 {
        push_decimal(out, n / 10);
    }
    out.push((48 + n % 10) as u8);
}

/// Whether a byte needs escaping inside a double-quoted JavaScript string.
pub open spec fn needs_escape(b: u8) -> bool {
    b < 0x20 || b == 0x22 || b == 0x5c || b == 0x7f
}

/// Lowercase hexadecimal digit.
pub open spec fn hex_digit(d: u8) -> u8 {
    if d < 10 {
        (48 + d) as u8
    } else {
        (87 + d) as u8
    }
}

/// Escape sequence for one byte inside a double-quoted JavaScript string.
pub open spec fn escape_byte(b: u8) -> Seq<u8> {
    if b == 0x22 {
        seq![0x5cu8, 0x22u8]
    } else if b == 0x5c {
        seq![0x5cu8, 0x5cu8]
    } else if b == 0x0a {
        seq![0x5cu8, 0x6eu8]
    } else if b == 0x0d {
        seq![0x5cu8, 0x72u8]
    } else if b == 0x09 {
        seq![0x5cu8, 0x74u8]
    } else if needs_escape(b) {
        seq![0x5cu8, 0x75u8, 0x30u8, 0x30u8, hex_digit(b / 16), hex_digit(b % 16)]
    } else {
        seq![b]
    }
}

/// The escaped body of a string literal whose value has the UTF-8 bytes `v`.
pub open spec fn escaped(v: Seq<u8>) -> Seq<u8>
    decreases v.len(),
{
    if v.len() == 0 {
        seq![]
    } else {
        escaped(v.drop_last()) + escape_byte(v.last())
    }
}

/// A double-quoted JavaScript string literal with value bytes `v`.
pub open spec fn js_string(v: Seq<u8>) -> Seq<u8> {
    seq![0x22u8] + escaped(v) + seq![0x22u8]
}

fn hex(d: u8) -> (r: u8)
    requires
        d < 16,
    ensures
        r == hex_digit(d),
{
    if d < 10 {
        48 + d
    } else {
        87 + d
    }
}

/// Append `js_string(v)` to `out`.
pub fn push_js_string(out: &mut Vec<u8>, v: &[u8])
    ensures
        final(out)@ == old(out)@ + js_string(v@),
{
    let ghost old_out = out@;
    out.push(0x22);
    let mut i: usize = 0;
    while i < v.len()
        invariant
            i <= v@.len(),
            out@ == old_out + seq![0x22u8] + escaped(v@.subrange(0, i as int)),
        decreases v@.len() - i,
    {
        let b = v[i];
        let ghost before = out@;
        if b == 0x22 {
            out.push(0x5c);
            out.push(0x22);
        } else if b == 0x5c {
            out.push(0x5c);
            out.push(0x5c);
        } else if b == 0x0a {
            out.push(0x5c);
            out.push(0x6e);
        } else if b == 0x0d {
            out.push(0x5c);
            out.push(0x72);
        } else if b == 0x09 {
            out.push(0x5c);
            out.push(0x74);
        } else if b < 0x20 || b == 0x7f {
            out.push(0x5c);
            out.push(0x75);
            out.push(0x30);
            out.push(0x30);
            out.push(hex(b / 16));
            out.push(hex(b % 16));
        } else {
            out.push(b);
        }
        assert(out@ == before + escape_byte(b));
        assert(v@.subrange(0, i + 1 as int).drop_last() =~= v@.subrange(0, i as int));
        i = i + 1;
    }
    assert(v@.subrange(0, v@.len() as int) =~= v@);
    out.push(0x22);
}

/// The source bytes `[start, end)` of a node with span `span`, or nothing
/// when the span does not lie within `src`.
pub open spec fn slice(src: Seq<u8>, span: Option<(nat, nat)>) -> Seq<u8> {
    match span {
        Some((s, e)) => if s <= e <= src.len() {
            src.subrange(s as int, e as int)
        } else {
            seq![]
        },
        None => seq![],
    }
}

/// Append `slice(src, span)` to `out`.
pub fn push_slice(out: &mut Vec<u8>, src: &[u8], span: Option<(usize, usize)>)
    ensures
        final(out)@ == old(out)@ + slice(
            src@,
            match span {
                Some((s, e)) => Some((s as nat, e as nat)),
                None => None,
            },
        ),
{
    match span {
        Some((s, e)) => {
            if s <= e && e <= src.len() {
                push_range(out, src, s, e);
            } else {
                assert(old(out)@ + seq![] =~= old(out)@);
            }
        },
        None => {
            assert(old(out)@ + seq![] =~= old(out)@);
        },
    }
}

/// `parts` joined with `sep` between consecutive parts.
pub open spec fn join(parts: Seq<Seq<u8>>, sep: Seq<u8>) -> Seq<u8>
    decreases parts.len(),
{
    if parts.len() == 0 {
        seq![]
    } else if parts.len() == 1 {
        parts[0]
    } else {
        join(parts.drop_last(), sep) + sep + parts.last()
    }
}

/// `join(parts, sep)`.
pub fn join_bytes(parts: &Vec<Vec<u8>>, sep: &[u8]) -> (r: Vec<u8>)
    ensures
        r@ == join(parts@.map_values(|p: Vec<u8>| p@), sep@),
{
    let ghost ps = parts@.map_values(|p: Vec<u8>| p@);
    let mut out: Vec<u8> = Vec::new();
    let mut i: usize = 0;
    while i < parts.len()
        invariant
            ps == parts@.map_values(|p: Vec<u8>| p@),
            i <= parts@.len(),
            out@ == join(ps.subrange(0, i as int), sep@),
        decreases parts@.len() - i,
    {
        let ghost before = out@;
        if i > 0 {
            push_bytes(&mut out, sep);
        }
        push_bytes(&mut out, parts[i].as_slice());
        proof {
            let pre = ps.subrange(0, i as int);
            let nxt = ps.subrange(0, i + 1 as int);
            assert(nxt.drop_last() =~= pre);
            assert(nxt.last() == parts@[i as int]@);
            if i == 0 {
                assert(before =~= seq![]);
                assert(out@ =~= nxt[0]);
            }
        }
        i = i + 1;
    }
    assert(ps.subrange(0, parts@.len() as int) =~= ps);
    out
}

/// The UTF-8 encoding of two texts one after the other is their encodings
/// one after the other.
pub proof fn lemma_encode_concat(a: Seq<char>, b: Seq<char>)
    ensures
        vstd::utf8::encode_utf8(a + b) == vstd::utf8::encode_utf8(a) + vstd::utf8::encode_utf8(b),
    decreases a.len(),
{
    if a.len() == 0 {
        assert(a + b =~= b);
        assert(vstd::utf8::encode_utf8(a) =~= Seq::<u8>::empty());
        assert(Seq::<u8>::empty() + vstd::utf8::encode_utf8(b) =~= vstd::utf8::encode_utf8(b));
    } else {
        lemma_encode_concat(a.drop_first(), b);
        assert((a + b).drop_first() =~= a.drop_first() + b);
        assert((a + b)[0] == a[0]);
        assert(vstd::utf8::encode_scalar(a[0] as u32) + (vstd::utf8::encode_utf8(a.drop_first())
            + vstd::utf8::encode_utf8(b)) =~= (vstd::utf8::encode_scalar(a[0] as u32) + vstd::utf8::encode_utf8(
            a.drop_first(),
        )) + vstd::utf8::encode_utf8(b));
    }
}

/// Encoding a character in front of a text adds its bytes in front.
pub proof fn encode_utf8_prefix_char(c: char, p: Seq<char>)
    ensures
        vstd::utf8::encode_utf8(seq![c] + p) == vstd::utf8::encode_scalar(c as u32)
            + vstd::utf8::encode_utf8(p),
        vstd::utf8::encode_utf8(seq![c] + p).len() > vstd::utf8::encode_utf8(p).len(),
{
    let s = seq![c] + p;
    assert(s.drop_first() =~= p);
    assert(s[0] == c);
}

/// `sorted` with `e` placed after every edit that starts at or before it.
pub open spec fn insert_edit(sorted: Seq<EditV>, e: EditV) -> Seq<EditV>
    decreases sorted.len(),
{
    if sorted.len() == 0 {
        seq![e]
    } else if sorted.last().start <= e.start {
        sorted.push(e)
    } else {
        insert_edit(sorted.drop_last(), e).push(sorted.last())
    }
}

/// The edits ordered by their start; edits with equal starts keep their
/// given order.
pub open spec fn sort_edits(edits: Seq<EditV>) -> Seq<EditV>
    decreases edits.len(),
{
    if edits.len() == 0 {
        seq![]
    } else {
        insert_edit(sort_edits(edits.drop_last()), edits.last())
    }
}

/// Whether `s` is ordered by start.
pub open spec fn starts_ordered(s: Seq<EditV>) -> bool {
    forall|i: int, j: int| 0 <= i < j < s.len() ==> #[trigger] s[i].start <= #[trigger] s[j].start
}

/// Inserting `e` into an ordered sequence keeps it ordered and adds `e` to
/// its elements.
proof fn lemma_insert_edit_ordered(s: Seq<EditV>, e: EditV)
    requires
        starts_ordered(s),
    ensures
        starts_ordered(insert_edit(s, e)),
        insert_edit(s, e).to_multiset() == s.to_multiset().insert(e),
        forall|k: int| 0 <= k < insert_edit(s, e).len() ==> insert_edit(s, e)[k] == e || s.contains(
            #[trigger] insert_edit(s, e)[k],
        ),
    decreases s.len(),
{
    broadcast use vstd::seq_lib::group_to_multiset_ensures;

    if s.len() == 0 {
        assert(seq![e] =~= Seq::<EditV>::empty().push(e));
    } else if s.last().start <= e.start {
        let r = s.push(e);
        assert forall|i: int, j: int| 0 <= i < j < r.len() implies #[trigger] r[i].start <= #[trigger] r[j].start by {
            if j == s.len() {
                assert(s[i].start <= s[s.len() - 1].start);
            } else {
                assert(r[i] == s[i] && r[j] == s[j]);
            }
        }
        assert forall|k: int| 0 <= k < r.len() implies r[k] == e || s.contains(#[trigger] r[k]) by {
            if k < s.len() {
                assert(r[k] == s[k]);
            }
        }
    } else {
        let front = s.drop_last();
        let last = s.last();
        assert(starts_ordered(front));
        lemma_insert_edit_ordered(front, e);
        let inner = insert_edit(front, e);
        let r = inner.push(last);
        assert(s =~= front.push(last));
        assert forall|k: int| 0 <= k < inner.len() implies #[trigger] inner[k].start <= last.start by {
            if inner[k] != e {
                assert(front.contains(inner[k]));
                let m = choose|m: int| 0 <= m < front.len() && front[m] == inner[k];
                assert(s[m] == front[m]);
            }
        }
        assert forall|i: int, j: int| 0 <= i < j < r.len() implies #[trigger] r[i].start <= #[trigger] r[j].start by {
            if j == inner.len() {
                assert(r[i] == inner[i]);
            } else {
                assert(r[i] == inner[i] && r[j] == inner[j]);
            }
        }
        assert forall|k: int| 0 <= k < r.len() implies r[k] == e || s.contains(#[trigger] r[k]) by {
            if k < inner.len() {
                assert(r[k] == inner[k]);
                if inner[k] != e {
                    assert(front.contains(inner[k]));
                    let m = choose|m: int| 0 <= m < front.len() && front[m] == inner[k];
                    assert(s[m] == front[m]);
                }
            } else {
                assert(s[s.len() - 1] == last);
            }
        }
        assert(r.to_multiset() =~= inner.to_multiset().insert(last));
        assert(s.to_multiset() =~= front.to_multiset().insert(last));
    }
}

/// Ordering a pass's rewrites keeps every rewrite (as many times as it is
/// given) and puts them in order of their start.
pub proof fn lemma_sort_edits(edits: Seq<EditV>)
    ensures
        sort_edits(edits).to_multiset() == edits.to_multiset(),
        starts_ordered(sort_edits(edits)),
    decreases edits.len(),
{
    broadcast use vstd::seq_lib::group_to_multiset_ensures;

    if edits.len() > 0 {
        lemma_sort_edits(edits.drop_last());
        lemma_insert_edit_ordered(sort_edits(edits.drop_last()), edits.last());
        assert(edits =~= edits.drop_last().push(edits.last()));
    } else {
        assert(edits =~= Seq::<EditV>::empty());
    }
}

/// Inserting at the first position from which every later edit starts after
/// `e` is [`insert_edit`].
proof fn lemma_insert_edit_at(s: Seq<EditV>, e: EditV, j: int)
    requires
        0 <= j <= s.len(),
        forall|k: int| j <= k < s.len() ==> #[trigger] s[k].start > e.start,
        j > 0 ==> s[j - 1].start <= e.start,
    ensures
        insert_edit(s, e) == s.insert(j, e),
    decreases s.len(),
{
    if s.len() == 0 {
        assert(s.insert(j, e) =~= seq![e]);
    } else if j == s.len() {
        assert(s.insert(j, e) =~= s.push(e));
    } else {
        let t = s.drop_last();
        assert forall|k: int| j <= k < t.len() implies #[trigger] t[k].start > e.start by {
            assert(t[k] == s[k]);
        }
        if j > 0 {
            assert(t[j - 1] == s[j - 1]);
        }
        lemma_insert_edit_at(t, e, j);
        assert(s.insert(j, e) =~= t.insert(j, e).push(s.last()));
    }
}

/// A fresh copy of an edit.
pub fn copy_edit(e: &Edit) -> (r: Edit)
    ensures
        r@ == e@,
{
    let mut text: Vec<u8> = Vec::new();
    push_bytes(&mut text, e.text.as_slice());
    assert(text@ =~= e.text@);
    Edit { start: e.start, end: e.end, text, origin: e.origin }
}

/// The edits ordered by start (see [`sort_edits`]).
pub fn sorted_edits(edits: &Vec<Edit>) -> (r: Vec<Edit>)
    ensures
        edit_views(r@) == sort_edits(edit_views(edits@)),
{
    let ghost ev = edit_views(edits@);
    let mut out: Vec<Edit> = Vec::new();
    let mut i: usize = 0;
    while i < edits.len()
        invariant
            ev == edit_views(edits@),
            i <= edits@.len(),
            edit_views(out@) == sort_edits(ev.subrange(0, i as int)),
        decreases edits@.len() - i,
    {
        let e = copy_edit(&edits[i]);
        let mut j: usize = out.len();
        while j > 0 && out[j - 1].start > e.start
            invariant
                j <= out@.len(),
                forall|k: int| j <= k < out@.len() ==> #[trigger] out@[k].start > e.start,
            decreases j,
        {
            j = j - 1;
        }
        let ghost before = edit_views(out@);
        proof {
            assert forall|k: int| j <= k < before.len() implies #[trigger] before[k].start
                > e@.start by {
                assert(before[k] == out@[k]@);
            }
            if j > 0 {
                assert(before[j - 1] == out@[j - 1]@);
            }
            lemma_insert_edit_at(before, e@, j as int);
        }
        out.insert(j, e);
        proof {
            assert(edit_views(out@) =~= before.insert(j as int, e@));
            let pre = ev.subrange(0, i + 1 as int);
            assert(pre.drop_last() =~= ev.subrange(0, i as int));
            assert(pre.last() == edits@[i as int]@);
        }
        i = i + 1;
    }
    assert(ev.subrange(0, edits@.len() as int) =~= ev);
    out
}

/// `src` with `edits` applied in source order; `None` when, so ordered, they
/// overlap or reach past the end of `src`.
pub fn rewrite(src: &[u8], edits: &Vec<Edit>) -> (r: Option<Vec<u8>>)
    ensures
        r is Some <==> edits_ordered(sort_edits(edit_views(edits@)), src@.len() as int),
        r matches Some(out) ==> out@ == apply(src@, sort_edits(edit_views(edits@))),
{
    let sorted = sorted_edits(edits);
    apply_edits(src, &sorted)
}

/// `String::from_utf8`: the text whose UTF-8 encoding is `bytes`, or `None`
/// when `bytes` is not valid UTF-8.
#[verifier::external_body]
pub(crate) fn text_from_utf8(bytes: Vec<u8>) -> (r: Option<String>)
    ensures
        r is Some <==> vstd::utf8::valid_utf8(bytes@),
        r matches Some(s) ==> vstd::utf8::encode_utf8(s@) == bytes@,
{
    String::from_utf8(bytes).ok()
}

/// What Rust's `Debug` formatting writes for the string `s` (quoted, with
/// escapes).
pub uninterp spec fn debug_text(s: Seq<char>) -> Seq<char>;

/// `format!("{s:?}")`: the string `s` quoted and escaped as Rust's `Debug`
/// does.
#[verifier::external_body]
pub(crate) fn debug_quoted(s: &str) -> (r: String)
    ensures
        r@ == debug_text(s@),
{
    format!("{s:?}")
}

} // verus!
