//! Translation between the two position encodings of a document: wire
//! positions count a line's offset in UTF-16 code units, internal positions
//! count it in UTF-8 bytes.

use vstd::prelude::*;
use crate::text::{chars_of, split_nl, lemma_split_nl_nonempty};

verus! {

/// A line and an offset within it, in one of the two encodings.
#[derive(Clone, Copy, Debug, PartialEq, Eq, Structural)]
pub struct TextPosition {
    pub line: u32,
    pub character: u32,
}

/// A pair of positions in one encoding.
#[derive(Clone, Copy, Debug, PartialEq, Eq, Structural)]
pub struct TextRange {
    pub start: TextPosition,
    pub end: TextPosition,
}

/// Bytes that UTF-8 takes for a character.
pub open spec fn utf8_len(c: char) -> nat {
    let v = c as u32;
    if v < 0x80 {
        1
    } else if v < 0x800 {
        2
    } else if v < 0x10000 {
        3
    } else {
        4
    }
}

/// Code units that UTF-16 takes for a character.
pub open spec fn utf16_len(c: char) -> nat {
    if (c as u32) < 0x10000 {
        1
    } else {
        2
    }
}

/// Bytes that UTF-8 takes for a character sequence.
pub open spec fn utf8_width(s: Seq<char>) -> nat
    decreases s.len(),
{
    if s.len() == 0 {
        0
    } else {
        utf8_width(s.drop_last()) + utf8_len(s.last())
    }
}

/// Code units that UTF-16 takes for a character sequence.
pub open spec fn utf16_width(s: Seq<char>) -> nat
    decreases s.len(),
{
    if s.len() == 0 {
        0
    } else {
        utf16_width(s.drop_last()) + utf16_len(s.last())
    }
}

/// The character boundary `k` of `line` can be named by a `u32` offset.
pub open spec fn addressable(line: Seq<char>, k: int) -> bool {
    0 <= k <= line.len() && utf8_width(line.take(k)) <= u32::MAX
}

/// The internal offset of the boundary of `line` whose wire offset is `ch`,
/// if there is such a boundary.
pub open spec fn is_boundary_wire(line: Seq<char>, k: int, ch: int) -> bool {
    addressable(line, k) && utf16_width(line.take(k)) == ch
}

/// The boundary of `line` whose internal offset is `b`.
pub open spec fn is_boundary_internal(line: Seq<char>, k: int, b: int) -> bool {
    addressable(line, k) && utf8_width(line.take(k)) == b
}

/// The internal position for a wire position of `text`, if the wire position
/// names a character boundary of one of its lines.
pub open spec fn wire_to_internal_pos(text: Seq<char>, p: TextPosition) -> Option<TextPosition> {
    let lines = split_nl(text);
    if p.line < lines.len() && exists|k: int| is_boundary_wire(lines[p.line as int], k, p.character as int) {
        let k = choose|k: int| is_boundary_wire(lines[p.line as int], k, p.character as int);
        Some(TextPosition { line: p.line, character: utf8_width(lines[p.line as int].take(k)) as u32 })
    } else {
        None
    }
}

/// The wire position for an internal position of `text`, if the internal
/// position names a character boundary of one of its lines.
pub open spec fn internal_to_wire_pos(text: Seq<char>, p: TextPosition) -> Option<TextPosition> {
    let lines = split_nl(text);
    if p.line < lines.len() && exists|k: int| is_boundary_internal(lines[p.line as int], k, p.character as int) {
        let k = choose|k: int| is_boundary_internal(lines[p.line as int], k, p.character as int);
        Some(TextPosition { line: p.line, character: utf16_width(lines[p.line as int].take(k)) as u32 })
    } else {
        None
    }
}

/// Both ends translated, or nothing when either end does not translate.
pub open spec fn both(s: Option<TextPosition>, e: Option<TextPosition>) -> Option<TextRange> {
    match (s, e) {
        (Some(a), Some(b)) => Some(TextRange { start: a, end: b }),
        _ => None,
    }
}

pub open spec fn wire_to_internal_range(text: Seq<char>, r: TextRange) -> Option<TextRange> {
    both(wire_to_internal_pos(text, r.start), wire_to_internal_pos(text, r.end))
}

pub open spec fn internal_to_wire_range(text: Seq<char>, r: TextRange) -> Option<TextRange> {
    both(internal_to_wire_pos(text, r.start), internal_to_wire_pos(text, r.end))
}

pub proof fn lemma_widths_grow(s: Seq<char>, i: int, j: int)
    requires
        0 <= i < j <= s.len(),
    ensures
        utf8_width(s.take(i)) < utf8_width(s.take(j)),
        utf16_width(s.take(i)) < utf16_width(s.take(j)),
        utf16_width(s.take(j)) <= utf8_width(s.take(j)),
    decreases j,
{
    assert(s.take(j).drop_last() =~= s.take(j - 1));
    if i < j - 1 {
        lemma_widths_grow(s, i, j - 1);
    } else {
        lemma_utf16_le_utf8(s.take(i));
    }
    lemma_utf16_le_utf8(s.take(j));
}

pub proof fn lemma_utf16_le_utf8(s: Seq<char>)
    ensures
        utf16_width(s) <= utf8_width(s),
    decreases s.len(),
{
    if s.len() > 0 {
        lemma_utf16_le_utf8(s.drop_last());
    }
}

proof fn lemma_pos_round_trip(text: Seq<char>, p: TextPosition)
    requires
        wire_to_internal_pos(text, p) is Some,
    ensures
        internal_to_wire_pos(text, wire_to_internal_pos(text, p)->0) == Some(p),
{
    let lines = split_nl(text);
    let l = lines[p.line as int];
    let k = choose|k: int| is_boundary_wire(l, k, p.character as int);
    let q = wire_to_internal_pos(text, p)->0;
    assert(q.character == utf8_width(l.take(k)));
    assert(is_boundary_internal(l, k, q.character as int));
    assert forall|j: int| #[trigger] is_boundary_internal(l, j, q.character as int) implies j == k by {
        if j < k {
            lemma_widths_grow(l, j, k);
        } else if j > k {
            lemma_widths_grow(l, k, j);
        }
    };
    let kk = choose|j: int| is_boundary_internal(l, j, q.character as int);
    assert(kk == k);
}

/// Round trip: a wire range that translates into the internal encoding
/// translates back to itself.
pub proof fn lemma_round_trip(text: Seq<char>, r: TextRange)
    requires
        wire_to_internal_range(text, r) is Some,
    ensures
        internal_to_wire_range(text, wire_to_internal_range(text, r)->0) == Some(r),
{
    lemma_pos_round_trip(text, r.start);
    lemma_pos_round_trip(text, r.end);
}

proof fn lemma_ascii_widths(s: Seq<char>)
    requires
        forall|j: int| 0 <= j < s.len() ==> (#[trigger] s[j] as u32) < 0x80,
    ensures
        utf8_width(s) == s.len(),
        utf16_width(s) == s.len(),
    decreases s.len(),
{
    if s.len() > 0 {
        lemma_ascii_widths(s.drop_last());
        assert((s.last() as u32) < 0x80);
    }
}

/// On a line of ASCII characters, a wire position that lies on the line
/// translates to the same internal position.
pub proof fn lemma_ascii_line_identity(text: Seq<char>, p: TextPosition)
    requires
        p.line < split_nl(text).len(),
        p.character <= split_nl(text)[p.line as int].len(),
        forall|j: int| 0 <= j < split_nl(text)[p.line as int].len() ==> (#[trigger] split_nl(text)[p.line as int][j] as u32) < 0x80,
    ensures
        wire_to_internal_pos(text, p) == Some(p),
{
    let l = split_nl(text)[p.line as int];
    let k = p.character as int;
    lemma_ascii_widths(l.take(k));
    assert(is_boundary_wire(l, k, p.character as int));
    assert forall|j: int| #[trigger] is_boundary_wire(l, j, p.character as int) implies j == k by {
        lemma_ascii_widths(l.take(j));
    };
    let c = choose|j: int| is_boundary_wire(l, j, p.character as int);
    assert(c == k);
}

/// An ASCII-only line: a range on it translates to itself.
pub proof fn lemma_ascii_range_identity(text: Seq<char>, r: TextRange)
    requires
        r.start.line == r.end.line,
        r.start.line < split_nl(text).len(),
        r.start.character <= split_nl(text)[r.start.line as int].len(),
        r.end.character <= split_nl(text)[r.start.line as int].len(),
        forall|j: int| 0 <= j < split_nl(text)[r.start.line as int].len() ==> (#[trigger] split_nl(text)[r.start.line as int][j] as u32) < 0x80,
    ensures
        wire_to_internal_range(text, r) == Some(r),
{
    lemma_ascii_line_identity(text, r.start);
    lemma_ascii_line_identity(text, r.end);
}

/// Monotonicity: on one line, a wire offset before another translates to an
/// internal offset before the other's; the line itself is kept.
pub proof fn lemma_translation_monotonic(text: Seq<char>, p: TextPosition, q: TextPosition)
    requires
        wire_to_internal_pos(text, p) is Some,
        wire_to_internal_pos(text, q) is Some,
        p.line == q.line,
        p.character < q.character,
    ensures
        wire_to_internal_pos(text, p)->0.line == p.line,
        wire_to_internal_pos(text, p)->0.character < wire_to_internal_pos(text, q)->0.character,
{
    let l = split_nl(text)[p.line as int];
    let kp = choose|k: int| is_boundary_wire(l, k, p.character as int);
    let kq = choose|k: int| is_boundary_wire(l, k, q.character as int);
    if kq < kp {
        lemma_widths_grow(l, kq, kp);
    } else if kq > kp {
        lemma_widths_grow(l, kp, kq);
    }
}

/// A document's text, indexed for translating positions: for each line,
/// the UTF-8 and UTF-16 offsets of its character boundaries, as far as
/// they fit in `u32`.
pub struct IndexedText {
    pub tables: Vec<Vec<(u32, u32)>>,
    pub text: Ghost<Seq<char>>,
}

impl IndexedText {
    /// Each line's table holds, in order, the offsets of exactly the
    /// addressable boundaries of that line.
    pub open spec fn wf(&self) -> bool {
        let lines = split_nl(self.text@);
        &&& self.tables.len() == lines.len()
        &&& forall|i: int| 0 <= i < lines.len() ==> Self::table_of(#[trigger] self.tables@[i]@, lines[i])
    }

    pub open spec fn table_of(t: Seq<(u32, u32)>, line: Seq<char>) -> bool {
        &&& t.len() <= line.len() + 1
        &&& forall|k: int| 0 <= k <= line.len() ==> (addressable(line, k) <==> k < t.len())
        &&& forall|k: int| 0 <= k < t.len() ==> {
            &&& #[trigger] t[k].0 == utf8_width(line.take(k))
            &&& t[k].1 == utf16_width(line.take(k))
        }
    }

    fn line_table(line: &Vec<char>) -> (t: Vec<(u32, u32)>)
        ensures
            Self::table_of(t@, line@),
    {
        let mut t: Vec<(u32, u32)> = Vec::new();
        t.push((0, 0));
        assert(line@.take(0) =~= Seq::<char>::empty());
        let mut b: u64 = 0;
        let mut u: u64 = 0;
        let mut k: usize = 0;
        while k < line.len()
            invariant
                k <= line.len(),
                t.len() == k + 1,
                b == utf8_width(line@.take(k as int)),
                u == utf16_width(line@.take(k as int)),
                b <= u32::MAX,
                forall|m: int| 0 <= m <= k ==> addressable(line@, m),
                forall|m: int| 0 <= m < t.len() ==> {
                    &&& #[trigger] t@[m].0 == utf8_width(line@.take(m))
                    &&& t@[m].1 == utf16_width(line@.take(m))
                },
            decreases line.len() - k,
        {
            let c = line[k];
            let v = c as u32;
            let (w8, w16): (u64, u64) = if v < 0x80 {
                (1, 1)
            } else if v < 0x800 {
                (2, 1)
            } else if v < 0x10000 {
                (3, 1)
            } else {
                (4, 2)
            };
            assert(line@.take(k + 1).drop_last() =~= line@.take(k as int));
            proof {
                lemma_utf16_le_utf8(line@.take(k as int));
            }
            if b + w8 > 0xffff_ffff {
                assert forall|m: int| 0 <= m <= line.len() implies (addressable(line@, m) <==> m < t.len()) by {
                    if m > k {
                        if m > k + 1 {
                            lemma_widths_grow(line@, k + 1, m);
                        }
                    }
                };
                return t;
            }
            assert(w8 == utf8_len(c) && w16 == utf16_len(c));
            assert(line@.take(k + 1).last() == c);
            b = b + w8;
            u = u + w16;
            assert(b == utf8_width(line@.take(k + 1)) && u == utf16_width(line@.take(k + 1)));
            let ghost before = t@;
            t.push((b as u32, u as u32));
            assert forall|m: int| 0 <= m < t.len() implies {
                &&& #[trigger] t@[m].0 == utf8_width(line@.take(m))
                &&& t@[m].1 == utf16_width(line@.take(m))
            } by {
                if m < before.len() {
                    assert(t@[m] == before[m]);
                }
            };
            k = k + 1;
        }
        t
    }

    /// Indexes `text`: splits it into lines at `\n` and tabulates each line.
    pub fn new(text: &str) -> (r: IndexedText)
        ensures
            r.wf(),
            r.text@ == text@,
    {
        let chars = chars_of(text);
        let ghost lines = split_nl(chars@);
        let mut tables: Vec<Vec<(u32, u32)>> = Vec::new();
        let mut cur: Vec<char> = Vec::new();
        let mut i: usize = 0;
        while i < chars.len()
            invariant
                i <= chars.len(),
                split_nl(chars@.take(i as int)).len() == tables.len() + 1,
                split_nl(chars@.take(i as int)).last() == cur@,
                forall|j: int| 0 <= j < tables.len() ==>
                    Self::table_of(#[trigger] tables@[j]@, split_nl(chars@.take(i as int))[j]),
            decreases chars.len() - i,
        {
            let c = chars[i];
            proof {
                lemma_split_nl_nonempty(chars@.take(i as int));
            }
            assert(chars@.take(i + 1).drop_last() =~= chars@.take(i as int));
            if c == '\n' {
                let t = Self::line_table(&cur);
                tables.push(t);
                cur = Vec::new();
            } else {
                cur.push(c);
            }
            i = i + 1;
            proof {
                let prev = split_nl(chars@.take(i - 1));
                let now = split_nl(chars@.take(i as int));
                assert forall|j: int| 0 <= j < tables.len() implies
                    Self::table_of(#[trigger] tables@[j]@, now[j]) by {
                    assert(now[j] == prev[j] || j == prev.len() - 1);
                };
            }
        }
        assert(chars@.take(chars.len() as int) =~= chars@);
        let t = Self::line_table(&cur);
        tables.push(t);
        IndexedText { tables, text: Ghost(chars@) }
    }

    /// Looks up a position in one line's table, matching on the wire
    /// offset (`wire` true) or on the internal offset, and gives the other.
    fn translate_pos(&self, p: TextPosition, wire: bool) -> (r: Option<TextPosition>)
        requires
            self.wf(),
        ensures
            wire ==> r == wire_to_internal_pos(self.text@, p),
            !wire ==> r == internal_to_wire_pos(self.text@, p),
    {
        let ghost lines = split_nl(self.text@);
        let line = p.line as usize;
        if line >= self.tables.len() {
            return None;
        }
        let ghost l = lines[line as int];
        let t = &self.tables[line];
        assert(Self::table_of(t@, l));
        let mut k: usize = 0;
        while k < t.len()
            invariant
                k <= t.len(),
                Self::table_of(t@, l),
                lines == split_nl(self.text@),
                0 <= p.line < lines.len(),
                l == lines[p.line as int],
                forall|m: int| 0 <= m < k ==> (if wire {
                    (#[trigger] t@[m]).1 != p.character
                } else {
                    t@[m].0 != p.character
                }),
            decreases t.len() - k,
        {
            let (b, u) = t[k];
            assert(t@[k as int] == (b, u));
            assert(addressable(l, k as int));
            if wire && u == p.character {
                proof {
                    assert forall|j: int| #[trigger] is_boundary_wire(l, j, p.character as int) implies j == k by {
                        if j < k {
                            lemma_widths_grow(l, j, k as int);
                        } else if j > k {
                            lemma_widths_grow(l, k as int, j);
                        }
                    };
                    assert(is_boundary_wire(l, k as int, p.character as int));
                    let kk = choose|j: int| is_boundary_wire(l, j, p.character as int);
                    assert(kk == k);
                    assert(l == lines[p.line as int]);
                }
                return Some(TextPosition { line: p.line, character: b });
            }
            if !wire && b == p.character {
                proof {
                    assert forall|j: int| #[trigger] is_boundary_internal(l, j, p.character as int) implies j == k by {
                        if j < k {
                            lemma_widths_grow(l, j, k as int);
                        } else if j > k {
                            lemma_widths_grow(l, k as int, j);
                        }
                    };
                    assert(is_boundary_internal(l, k as int, p.character as int));
                    let kk = choose|j: int| is_boundary_internal(l, j, p.character as int);
                    assert(kk == k);
                    assert(l == lines[p.line as int]);
                    lemma_utf16_le_utf8(l.take(k as int));
                }
                return Some(TextPosition { line: p.line, character: u });
            }
            k = k + 1;
        }
        proof {
            if wire {
                assert forall|j: int| !is_boundary_wire(l, j, p.character as int) by {
                    if is_boundary_wire(l, j, p.character as int) {
                        assert(t@[j].0 == utf8_width(l.take(j)));
                        assert(t@[j].1 == p.character);
                    }
                };
            } else {
                assert forall|j: int| !is_boundary_internal(l, j, p.character as int) by {
                    if is_boundary_internal(l, j, p.character as int) {
                        assert(t@[j].0 == p.character);
                    }
                };
            }
        }
        None
    }

    /// Translates a wire range into the internal encoding; `None` when an
    /// end lies outside the document or inside a character.
    pub fn wire_to_internal(&self, r: &TextRange) -> (out: Option<TextRange>)
        requires
            self.wf(),
        ensures
            out == wire_to_internal_range(self.text@, *r),
    {
        let s = self.translate_pos(r.start, true);
        let e = self.translate_pos(r.end, true);
        match (s, e) {
            (Some(a), Some(b)) => Some(TextRange { start: a, end: b }),
            _ => None,
        }
    }

    /// Translates an internal range into the wire encoding; `None` when an
    /// end lies outside the document or inside a character.
    pub fn internal_to_wire(&self, r: &TextRange) -> (out: Option<TextRange>)
        requires
            self.wf(),
        ensures
            out == internal_to_wire_range(self.text@, *r),
    {
        let s = self.translate_pos(r.start, false);
        let e = self.translate_pos(r.end, false);
        match (s, e) {
            (Some(a), Some(b)) => Some(TextRange { start: a, end: b }),
            _ => None,
        }
    }
}

} // verus!
