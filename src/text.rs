//! Character-level text utilities: line splitting with the semantics of
//! `str::lines`, reindentation and literal substitution.

use vstd::prelude::*;
use vstd::std_specs::iter::IteratorSpec;

verus! {

/// The characters of a string, in order.
pub(crate) fn chars_of(s: &str) -> (r: Vec<char>)
    ensures
        r@ == s@,
{
    broadcast use {vstd::string::axiom_spec_iter, vstd::string::next_postcondition};
    let mut out: Vec<char> = Vec::new();
    let mut it = s.chars();
    loop
        invariant
            out@ + it.remaining() == s@,
            it.obeys_prophetic_iter_laws(),
            it.decrease() is Some,
        ensures
            out@ == s@,
        decreases it.decrease()->0,
    {
        match it.next() {
            Some(c) => {
                out.push(c);
            },
            None => {
                assert(it.remaining().len() == 0);
                assert(out@ + it.remaining() =~= out@);
                break;
            },
        }
    }
    out
}

/// Relies on `String: FromIterator<&char>`: the string of exactly these characters.
#[verifier::external_body]
pub(crate) fn string_of(v: &Vec<char>) -> (r: String)
    ensures
        r@ == v@,
{
    v.iter().collect()
}

/// The pieces of `s` between newline characters, as `str::split('\n')`
/// yields them: there is always at least one piece.
pub open spec fn split_nl(s: Seq<char>) -> Seq<Seq<char>>
    decreases s.len(),
{
    if s.len() == 0 {
        seq![Seq::<char>::empty()]
    } else {
        let prev = split_nl(s.drop_last());
        if s.last() == '\n' {
            prev.push(Seq::<char>::empty())
        } else {
            prev.update(prev.len() - 1, prev.last().push(s.last()))
        }
    }
}

pub proof fn lemma_split_nl_nonempty(s: Seq<char>)
    ensures
        split_nl(s).len() >= 1,
    decreases s.len(),
{
    if s.len() > 0 {
        lemma_split_nl_nonempty(s.drop_last());
    }
}

/// A line without the carriage return that ends it, if any.
pub open spec fn strip_cr(l: Seq<char>) -> Seq<char> {
    if l.len() > 0 && l.last() == '\r' {
        l.drop_last()
    } else {
        l
    }
}

/// The lines of `s` as `str::lines` yields them: split at `\n`, a final
/// empty piece left out, and a `\r` before each `\n` removed.
pub open spec fn text_lines(s: Seq<char>) -> Seq<Seq<char>> {
    let parts = split_nl(s);
    let ended = parts.drop_last().map_values(|l: Seq<char>| strip_cr(l));
    if parts.last().len() == 0 {
        ended
    } else {
        ended.push(parts.last())
    }
}

/// The character sequences held by a vector of character vectors.
pub open spec fn views(v: Seq<Vec<char>>) -> Seq<Seq<char>> {
    v.map_values(|x: Vec<char>| x@)
}

pub(crate) fn split_newlines(s: &Vec<char>) -> (r: Vec<Vec<char>>)
    ensures
        views(r@) == split_nl(s@),
{
    let mut parts: Vec<Vec<char>> = Vec::new();
    let mut cur: Vec<char> = Vec::new();
    let mut i: usize = 0;
    while i < s.len()
        invariant
            i <= s.len(),
            views(parts@).push(cur@) == split_nl(s@.take(i as int)),
        decreases s.len() - i,
    {
        let c = s[i];
        assert(s@.take(i + 1).drop_last() == s@.take(i as int));
        assert(s@.take(i + 1).last() == c);
        let ghost before = views(parts@);
        if c == '\n' {
            parts.push(cur);
            cur = Vec::new();
            assert(views(parts@) =~= before.push(parts[parts.len() - 1]@));
        } else {
            cur.push(c);
        }
        i = i + 1;
        assert(views(parts@).push(cur@) =~= split_nl(s@.take(i as int)));
    }
    assert(s@.take(s.len() as int) == s@);
    let ghost before = views(parts@);
    parts.push(cur);
    assert(views(parts@) =~= before.push(cur@));
    parts
}

/// `n` space characters.
pub open spec fn spaces(n: nat) -> Seq<char> {
    Seq::new(n, |_i: int| ' ')
}

/// Each line prefixed with `pad` and followed by a newline, concatenated.
pub open spec fn concat_indented(ls: Seq<Seq<char>>, pad: Seq<char>) -> Seq<char>
    decreases ls.len(),
{
    if ls.len() == 0 {
        Seq::<char>::empty()
    } else {
        concat_indented(ls.drop_last(), pad) + pad + ls.last() + seq!['\n']
    }
}

/// `s` without its final character when that is a newline.
pub open spec fn trim_last_nl(s: Seq<char>) -> Seq<char> {
    if s.len() > 0 && s.last() == '\n' {
        s.drop_last()
    } else {
        s
    }
}

/// The text with each of its lines prefixed by `n` spaces, the lines joined
/// by newlines.
pub open spec fn indented(t: Seq<char>, n: nat) -> Seq<char> {
    trim_last_nl(concat_indented(text_lines(t), spaces(n)))
}

fn append_line(out: &mut Vec<char>, n: usize, line: &Vec<char>, strip: bool)
    ensures
        final(out)@ == old(out)@ + spaces(n as nat) + (if strip {
            strip_cr(line@)
        } else {
            line@
        }) + seq!['\n'],
{
    let ghost start = old(out)@;
    let mut k: usize = 0;
    while k < n
        invariant
            k <= n,
            out@ == start + spaces(k as nat),
        decreases n - k,
    {
        out.push(' ');
        k = k + 1;
        assert(out@ =~= start + spaces(k as nat));
    }
    let ghost padded = out@;
    let mut len = line.len();
    if strip && len > 0 && line[len - 1] == '\r' {
        len = len - 1;
    }
    assert(line@.take(len as int) == if strip {
        strip_cr(line@)
    } else {
        line@
    });
    let mut i: usize = 0;
    while i < len
        invariant
            i <= len <= line.len(),
            out@ == padded + line@.take(i as int),
        decreases len - i,
    {
        out.push(line[i]);
        i = i + 1;
        assert(out@ =~= padded + line@.take(i as int));
    }
    out.push('\n');
}

fn indent_chars(text: &str, indent_amount: usize) -> (out: Vec<char>)
    ensures
        out@ == concat_indented(text_lines(text@), spaces(indent_amount as nat)),
{
    let chars = chars_of(text);
    let parts = split_newlines(&chars);
    proof {
        lemma_split_nl_nonempty(chars@);
    }
    let ghost lines = text_lines(chars@);
    let ghost pad = spaces(indent_amount as nat);
    let last = parts.len() - 1;
    let mut out: Vec<char> = Vec::new();
    let mut j: usize = 0;
    while j < last
        invariant
            last == parts.len() - 1,
            j <= last,
            views(parts@) == split_nl(chars@),
            lines == text_lines(chars@),
            pad == spaces(indent_amount as nat),
            out@ == concat_indented(lines.take(j as int), pad),
        decreases last - j,
    {
        assert(parts[j as int]@ == views(parts@)[j as int]);
        append_line(&mut out, indent_amount, &parts[j], true);
        assert(lines[j as int] == strip_cr(parts[j as int]@));
        assert(lines.take(j + 1).drop_last() =~= lines.take(j as int));
        j = j + 1;
    }
    assert(parts[last as int]@ == views(parts@)[last as int]);
    if parts[last].len() > 0 {
        append_line(&mut out, indent_amount, &parts[last], false);
        assert(lines.drop_last() =~= lines.take(last as int));
    } else {
        assert(lines =~= lines.take(last as int));
    }
    out
}

/// Prefixes every line of `text` with `indent_amount` spaces and joins the
/// lines with newlines; the result has no trailing newline of its own.
pub fn indent_text(text: &str, indent_amount: usize) -> (r: String)
    ensures
        r@ == indented(text@, indent_amount as nat),
{
    let mut out = indent_chars(text, indent_amount);
    if out.len() > 0 && out[out.len() - 1] == '\n' {
        out.pop();
    }
    string_of(&out)
}

/// Prefixes every line of `text` with `indent_amount` spaces and ends each
/// with a newline.
pub fn indent_lines(text: &str, indent_amount: usize) -> (r: String)
    ensures
        r@ == concat_indented(text_lines(text@), spaces(indent_amount as nat)),
{
    let out = indent_chars(text, indent_amount);
    string_of(&out)
}

/// Drops one trailing newline from `input`, if it ends with one.
pub fn trim_last_newline(input: &str) -> (r: String)
    ensures
        r@ == trim_last_nl(input@),
{
    let mut out = chars_of(input);
    if out.len() > 0 && out[out.len() - 1] == '\n' {
        out.pop();
    }
    string_of(&out)
}

/// `t` ends with `suffix`.
pub open spec fn ends_with(t: Seq<char>, suffix: Seq<char>) -> bool {
    suffix.len() <= t.len() && t.skip(t.len() - suffix.len()) == suffix
}

/// Drops the last character of `text` when the text ends with `suffix`.
pub fn trim_suffix(text: &str, suffix: &str) -> (r: String)
    ensures
        r@ == if ends_with(text@, suffix@) && text@.len() > 0 {
            text@.drop_last()
        } else {
            text@
        },
{
    let mut t = chars_of(text);
    let sfx = chars_of(suffix);
    if sfx.len() <= t.len() {
        let off = t.len() - sfx.len();
        let mut k: usize = 0;
        while k < sfx.len()
            invariant
                k <= sfx.len(),
                t@ == text@,
                sfx@ == suffix@,
                off + sfx.len() == t.len(),
                forall|m: int| 0 <= m < k ==> t@[off + m] == sfx@[m],
            decreases sfx.len() - k,
        {
            if t[off + k] != sfx[k] {
                assert(t@.skip(off as int)[k as int] != sfx@[k as int]);
                return string_of(&t);
            }
            k = k + 1;
        }
        assert(t@.skip(off as int) =~= sfx@);
        if t.len() > 0 {
            t.pop();
        }
    }
    string_of(&t)
}

/// `s` with every non-overlapping occurrence of `pat`, scanned from the
/// left, replaced by `rep` (what `str::replace` does for a non-empty pattern).
pub open spec fn replaced(s: Seq<char>, pat: Seq<char>, rep: Seq<char>) -> Seq<char>
    decreases s.len(),
{
    if pat.len() == 0 || s.len() < pat.len() {
        s
    } else if s.take(pat.len() as int) == pat {
        rep + replaced(s.skip(pat.len() as int), pat, rep)
    } else {
        seq![s[0]] + replaced(s.skip(1), pat, rep)
    }
}

fn occurs_at(s: &Vec<char>, i: usize, pat: &Vec<char>) -> (r: bool)
    requires
        i <= s.len(),
    ensures
        r == (pat.len() <= s.len() - i && s@.skip(i as int).take(pat.len() as int) == pat@),
{
    if pat.len() > s.len() - i {
        return false;
    }
    let mut k: usize = 0;
    while k < pat.len()
        invariant
            k <= pat.len() <= s.len() - i,
            forall|m: int| 0 <= m < k ==> s@[i + m] == pat@[m],
        decreases pat.len() - k,
    {
        if s[i + k] != pat[k] {
            assert(s@.skip(i as int).take(pat.len() as int)[k as int] != pat@[k as int]);
            return false;
        }
        k = k + 1;
    }
    assert(s@.skip(i as int).take(pat.len() as int) =~= pat@);
    true
}

fn replace_chars(s: &Vec<char>, pat: &Vec<char>, rep: &Vec<char>) -> (r: Vec<char>)
    requires
        pat.len() > 0,
    ensures
        r@ == replaced(s@, pat@, rep@),
{
    let mut out: Vec<char> = Vec::new();
    let mut i: usize = 0;
    assert(s@.skip(0) =~= s@);
    assert(out@ + replaced(s@, pat@, rep@) =~= replaced(s@, pat@, rep@));
    while i < s.len()
        invariant
            i <= s.len(),
            pat.len() > 0,
            out@ + replaced(s@.skip(i as int), pat@, rep@) == replaced(s@, pat@, rep@),
        decreases s.len() - i,
    {
        let ghost rest = s@.skip(i as int);
        if occurs_at(s, i, pat) {
            let mut k: usize = 0;
            let ghost base = out@;
            while k < rep.len()
                invariant
                    k <= rep.len(),
                    out@ == base + rep@.take(k as int),
                decreases rep.len() - k,
            {
                out.push(rep[k]);
                k = k + 1;
                assert(out@ =~= base + rep@.take(k as int));
            }
            assert(rep@.take(rep.len() as int) =~= rep@);
            assert(rest.skip(pat.len() as int) =~= s@.skip(i + pat.len()));
            i = i + pat.len();
        } else {
            if pat.len() <= s.len() - i {
                assert(rest.skip(1) =~= s@.skip(i + 1));
            } else {
                assert(replaced(rest, pat@, rep@) == rest);
                let ghost base = out@;
                let mut k: usize = i;
                while k < s.len()
                    invariant
                        i <= k <= s.len(),
                        out@ == base + s@.subrange(i as int, k as int),
                    decreases s.len() - k,
                {
                    out.push(s[k]);
                    k = k + 1;
                    assert(out@ =~= base + s@.subrange(i as int, k as int));
                }
                assert(s@.subrange(i as int, s.len() as int) =~= rest);
                assert(s@.skip(s.len() as int) =~= Seq::<char>::empty());
                assert(out@ + Seq::<char>::empty() =~= out@);
                return out;
            }
            out.push(s[i]);
            assert(rest[0] == s@[i as int]);
            i = i + 1;
        }
        assert(out@ + replaced(s@.skip(i as int), pat@, rep@) =~= replaced(s@, pat@, rep@));
    }
    assert(s@.skip(i as int) =~= Seq::<char>::empty());
    assert(out@ + Seq::<char>::empty() =~= out@);
    out
}

/// Replaces, as `str::replace` does, every occurrence of the non-empty
/// pattern `pat` in `s` by `rep`.
pub fn replace_all(s: &str, pat: &str, rep: &str) -> (r: String)
    requires
        pat@.len() > 0,
    ensures
        r@ == replaced(s@, pat@, rep@),
{
    let sv = chars_of(s);
    let pv = chars_of(pat);
    let rv = chars_of(rep);
    let out = replace_chars(&sv, &pv, &rv);
    string_of(&out)
}

/// The concatenation of two strings.
pub fn concat_str(a: &str, b: &str) -> (r: String)
    ensures
        r@ == a@ + b@,
{
    let mut out = chars_of(a);
    let tail = chars_of(b);
    let ghost base = out@;
    let mut i: usize = 0;
    while i < tail.len()
        invariant
            i <= tail.len(),
            out@ == base + tail@.take(i as int),
        decreases tail.len() - i,
    {
        out.push(tail[i]);
        i = i + 1;
        assert(out@ =~= base + tail@.take(i as int));
    }
    assert(tail@.take(tail.len() as int) =~= tail@);
    string_of(&out)
}

/// The pieces joined with a newline between each two.
pub open spec fn join_nl(m: Seq<Seq<char>>) -> Seq<char>
    decreases m.len(),
{
    if m.len() <= 1 {
        if m.len() == 1 {
            m[0]
        } else {
            Seq::<char>::empty()
        }
    } else {
        join_nl(m.drop_last()) + seq!['\n'] + m.last()
    }
}

/// Each line with `pad` in front.
pub open spec fn padded(ls: Seq<Seq<char>>, pad: Seq<char>) -> Seq<Seq<char>> {
    ls.map_values(|l: Seq<char>| pad + l)
}

pub open spec fn no_newline(s: Seq<char>) -> bool {
    forall|i: int| 0 <= i < s.len() ==> s[i] != '\n'
}

proof fn lemma_concat_is_join(ls: Seq<Seq<char>>, pad: Seq<char>)
    requires
        ls.len() > 0,
    ensures
        concat_indented(ls, pad) == join_nl(padded(ls, pad)) + seq!['\n'],
    decreases ls.len(),
{
    let m = padded(ls, pad);
    if ls.len() > 1 {
        lemma_concat_is_join(ls.drop_last(), pad);
        assert(m.drop_last() =~= padded(ls.drop_last(), pad));
        assert(m.last() == pad + ls.last());
        assert(join_nl(m) == join_nl(m.drop_last()) + seq!['\n'] + m.last());
        assert(concat_indented(ls, pad) =~= join_nl(m) + seq!['\n']);
    } else {
        assert(ls.drop_last() =~= Seq::<Seq<char>>::empty());
        assert(concat_indented(ls.drop_last(), pad) == Seq::<char>::empty());
        assert(m[0] == pad + ls[0]);
        assert(join_nl(m) == m[0]);
        assert(concat_indented(ls, pad) =~= join_nl(m) + seq!['\n']);
    }
}

proof fn lemma_split_extend(a: Seq<char>, b: Seq<char>)
    requires
        no_newline(b),
    ensures
        split_nl(a + b) == split_nl(a).update(split_nl(a).len() - 1, split_nl(a).last() + b),
        split_nl(a + b).len() == split_nl(a).len(),
    decreases b.len(),
{
    lemma_split_nl_nonempty(a);
    if b.len() == 0 {
        assert(a + b =~= a);
        assert(split_nl(a).update(split_nl(a).len() - 1, split_nl(a).last() + b) =~= split_nl(a));
    } else {
        let b0 = b.drop_last();
        lemma_split_extend(a, b0);
        assert((a + b).drop_last() =~= a + b0);
        assert((a + b).last() == b.last());
        assert(b[b.len() - 1] != '\n');
        lemma_split_nl_nonempty(a + b0);
        let prev = split_nl(a + b0);
        let sa = split_nl(a);
        assert(split_nl(a + b) == prev.update(prev.len() - 1, prev.last().push(b.last())));
        assert(prev.len() == sa.len());
        assert(prev.last() == split_nl(a).last() + b0);
        assert(split_nl(a).last() + b0 + seq![b.last()] =~= split_nl(a).last() + b);
        assert(prev.last().push(b.last()) =~= sa.last() + b);
        let lhs = split_nl(a + b);
        let rhs = sa.update(sa.len() - 1, sa.last() + b);
        assert(lhs.len() == rhs.len());
        assert forall|i: int| 0 <= i < lhs.len() implies lhs[i] == rhs[i] by {
            if i < lhs.len() - 1 {
                assert(prev[i] == sa[i]);
            }
        };
        assert(lhs =~= rhs);
    }
}

proof fn lemma_split_join(m: Seq<Seq<char>>)
    requires
        m.len() > 0,
        forall|i: int| 0 <= i < m.len() ==> no_newline(#[trigger] m[i]),
    ensures
        split_nl(join_nl(m)) == m,
    decreases m.len(),
{
    if m.len() == 1 {
        assert(join_nl(m) == m[0]);
        lemma_split_extend(Seq::<char>::empty(), m[0]);
        assert(Seq::<char>::empty() + m[0] =~= m[0]);
        assert(split_nl(Seq::<char>::empty()) =~= seq![Seq::<char>::empty()]);
        assert(split_nl(m[0]) =~= m);
    } else {
        let init = m.drop_last();
        lemma_split_join(init);
        let x = join_nl(init) + seq!['\n'];
        assert(x.drop_last() =~= join_nl(init));
        assert(split_nl(x) =~= init.push(Seq::<char>::empty()));
        lemma_split_extend(x, m.last());
        assert(join_nl(m) == x + m.last());
        assert(split_nl(join_nl(m)) =~= m);
    }
}

proof fn lemma_pieces_no_newline(s: Seq<char>)
    ensures
        forall|i: int| 0 <= i < split_nl(s).len() ==> no_newline(#[trigger] split_nl(s)[i]),
    decreases s.len(),
{
    lemma_split_nl_nonempty(s);
    if s.len() > 0 {
        lemma_pieces_no_newline(s.drop_last());
        lemma_split_nl_nonempty(s.drop_last());
        let prev = split_nl(s.drop_last());
        if s.last() != '\n' {
            assert forall|i: int| 0 <= i < split_nl(s).len() implies no_newline(#[trigger] split_nl(s)[i]) by {
                if i == prev.len() - 1 {
                    assert(no_newline(prev[i]));
                }
            };
        } else {
            assert forall|i: int| 0 <= i < split_nl(s).len() implies no_newline(#[trigger] split_nl(s)[i]) by {
                if i < prev.len() {
                    assert(no_newline(prev[i]));
                }
            };
        }
    }
}

/// Reindenting text that was just indented, with zero further columns,
/// leaves it as it is. This holds unless an inner line of `t` ends in a
/// carriage return, or the column count is zero and the last line of `t`
/// is empty: `str::lines` would drop that `\r`, or that final empty line.
pub proof fn lemma_reindent_idempotent(t: Seq<char>, n: nat)
    requires
        forall|i: int| 0 <= i < text_lines(t).len() - 1 ==> strip_cr(#[trigger] text_lines(t)[i]) == text_lines(t)[i],
        text_lines(t).len() == 0 || n > 0 || text_lines(t).last().len() > 0,
    ensures
        indented(indented(t, n), 0) == indented(t, n),
{
    let ls = text_lines(t);
    let pad = spaces(n);
    let u = indented(t, n);
    if ls.len() == 0 {
        assert(u =~= Seq::<char>::empty());
        assert(split_nl(u) =~= seq![Seq::<char>::empty()]);
        assert(text_lines(u) =~= Seq::<Seq<char>>::empty());
    } else {
        lemma_concat_is_join(ls, pad);
        let m = padded(ls, pad);
        assert((join_nl(m) + seq!['\n']).drop_last() =~= join_nl(m));
        assert(u == join_nl(m));
        lemma_split_nl_nonempty(t);
        lemma_pieces_no_newline(t);
        let parts = split_nl(t);
        assert forall|i: int| 0 <= i < ls.len() implies no_newline(#[trigger] ls[i]) by {
            assert(no_newline(parts[i]));
            if i < parts.len() - 1 {
                assert(ls[i] == strip_cr(parts[i]));
            }
        };
        assert forall|i: int| 0 <= i < m.len() implies no_newline(#[trigger] m[i]) by {
            assert(no_newline(ls[i]));
            assert(m[i] == pad + ls[i]);
        };
        lemma_split_join(m);
        assert(m.last() == pad + ls.last());
        assert(m.last().len() > 0);
        assert forall|i: int| 0 <= i < m.len() - 1 implies strip_cr(#[trigger] m[i]) == m[i] by {
            assert(strip_cr(ls[i]) == ls[i]);
            assert(m[i] == pad + ls[i]);
            if ls[i].len() == 0 && n > 0 {
                assert(m[i].last() == ' ');
            }
            if ls[i].len() > 0 {
                assert(m[i].last() == ls[i].last());
            }
        };
        assert(text_lines(u) =~= m);
        lemma_concat_is_join(m, spaces(0));
        assert(padded(m, spaces(0)) =~= m) by {
            assert forall|i: int| 0 <= i < m.len() implies #[trigger] padded(m, spaces(0))[i] == m[i] by {
                assert(spaces(0) + m[i] =~= m[i]);
            };
        };
        assert((join_nl(m) + seq!['\n']).drop_last() =~= join_nl(m));
    }
}

} // verus!
