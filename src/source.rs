//! Logger names, and their abbreviation to a display width.
//!
//! A name is a run of segments separated by `.`; the last one is the class
//! segment. To fit a width, the segments before it are cut to their first
//! character from the left, for as long as the name is still too long.

use vstd::prelude::*;
use crate::text::{chars_of, push_all, string_of};

verus! {

/// The segments of `s` between the dots, in order; there is always at least one.
pub open spec fn split_dots(s: Seq<char>) -> Seq<Seq<char>>
    decreases s.len(),
{
    if s.len() == 0 {
        seq![Seq::empty()]
    } else {
        let p = split_dots(s.drop_last());
        if s.last() == '.' {
            p.push(Seq::empty())
        } else {
            p.update(p.len() - 1, p.last().push(s.last()))
        }
    }
}

/// The segments `p` joined with dots between them.
pub open spec fn join_dots(p: Seq<Seq<char>>) -> Seq<char>
    decreases p.len(),
{
    if p.len() == 0 {
        Seq::empty()
    } else if p.len() == 1 {
        p[0]
    } else {
        join_dots(p.drop_last()).push('.') + p.last()
    }
}

/// The total number of characters in the segments `p`.
pub open spec fn total_len(p: Seq<Seq<char>>) -> int
    decreases p.len(),
{
    if p.len() == 0 {
        0
    } else {
        p[0].len() + total_len(p.drop_first())
    }
}

/// A segment cut to its first character.
pub open spec fn initial(seg: Seq<char>) -> Seq<char> {
    if seg.len() == 0 {
        seg
    } else {
        seg.take(1)
    }
}

/// The segments `p`, cut from the left while the name, `remaining` characters
/// long so far, is longer than `target`.
pub open spec fn shorten(p: Seq<Seq<char>>, remaining: int, target: int) -> Seq<Seq<char>>
    decreases p.len(),
{
    if p.len() == 0 {
        p
    } else if remaining > target {
        seq![initial(p[0])] + shorten(
            p.drop_first(),
            remaining - (p[0].len() - initial(p[0]).len()),
            target,
        )
    } else {
        p
    }
}

/// The name `s` abbreviated to the width `target`: unchanged if it fits,
/// else with its leading segments cut; the class segment is always whole.
pub open spec fn compressed(s: Seq<char>, target: int) -> Seq<char> {
    if s.len() <= target {
        s
    } else {
        let parts = split_dots(s);
        join_dots(shorten(parts.drop_last(), s.len() as int, target).push(parts.last()))
    }
}

/// The contents of each segment, in order.
pub open spec fn seg_views(v: Seq<Vec<char>>) -> Seq<Seq<char>> {
    v.map_values(|x: Vec<char>| x@)
}

proof fn lemma_total_concat(a: Seq<Seq<char>>, b: Seq<Seq<char>>)
    ensures
        total_len(a + b) == total_len(a) + total_len(b),
    decreases a.len(),
{
    if a.len() == 0 {
        assert(a + b == b);
    } else {
        assert((a + b).drop_first() == a.drop_first() + b);
        lemma_total_concat(a.drop_first(), b);
    }
}

proof fn lemma_total_push(a: Seq<Seq<char>>, x: Seq<char>)
    ensures
        total_len(a.push(x)) == total_len(a) + x.len(),
{
    assert(a.push(x) == a + seq![x]);
    lemma_total_concat(a, seq![x]);
    lemma_total_single(x);
}

proof fn lemma_total_single(x: Seq<char>)
    ensures
        total_len(seq![x]) == x.len(),
{
    assert(seq![x].drop_first() == Seq::<Seq<char>>::empty());
    assert(total_len(Seq::<Seq<char>>::empty()) == 0);
}

proof fn lemma_total_nonneg(p: Seq<Seq<char>>)
    ensures
        total_len(p) >= 0,
    decreases p.len(),
{
    if p.len() > 0 {
        lemma_total_nonneg(p.drop_first());
    }
}

/// Every name has at least one segment, and its characters are those of
/// its segments and one dot between each two of them.
proof fn lemma_split_len(s: Seq<char>)
    ensures
        split_dots(s).len() >= 1,
        total_len(split_dots(s)) + split_dots(s).len() - 1 == s.len(),
    decreases s.len(),
{
    if s.len() == 0 {
        lemma_total_single(Seq::empty());
    } else {
        let p = split_dots(s.drop_last());
        lemma_split_len(s.drop_last());
        if s.last() == '.' {
            lemma_total_push(p, Seq::empty());
        } else {
            let q = p.update(p.len() - 1, p.last().push(s.last()));
            assert(p == p.drop_last().push(p.last()));
            assert(q == p.drop_last().push(p.last().push(s.last())));
            lemma_total_push(p.drop_last(), p.last());
            lemma_total_push(p.drop_last(), p.last().push(s.last()));
        }
    }
}

/// Joined segments hold their characters and one dot between each two.
proof fn lemma_join_len(p: Seq<Seq<char>>)
    requires
        p.len() >= 1,
    ensures
        join_dots(p).len() == total_len(p) + p.len() - 1,
    decreases p.len(),
{
    if p.len() == 1 {
        assert(p == seq![p[0]]);
        lemma_total_single(p[0]);
    } else {
        lemma_join_len(p.drop_last());
        assert(p == p.drop_last().push(p.last()));
        lemma_total_push(p.drop_last(), p.last());
    }
}

proof fn lemma_shorten_shape(p: Seq<Seq<char>>, remaining: int, target: int)
    ensures
        shorten(p, remaining, target).len() == p.len(),
        total_len(shorten(p, remaining, target)) <= total_len(p),
    decreases p.len(),
{
    if p.len() > 0 && remaining > target {
        let rest = p.drop_first();
        let next = remaining - (p[0].len() - initial(p[0]).len());
        lemma_shorten_shape(rest, next, target);
        let q = seq![initial(p[0])] + shorten(rest, next, target);
        assert(q.drop_first() == shorten(rest, next, target));
    }
}

proof fn lemma_shorten_monotone(p: Seq<Seq<char>>, remaining: int, w1: int, w2: int)
    requires
        w1 <= w2,
    ensures
        total_len(shorten(p, remaining, w1)) <= total_len(shorten(p, remaining, w2)),
    decreases p.len(),
{
    if p.len() > 0 && remaining > w1 {
        let rest = p.drop_first();
        let next = remaining - (p[0].len() - initial(p[0]).len());
        let q1 = seq![initial(p[0])] + shorten(rest, next, w1);
        assert(q1.drop_first() == shorten(rest, next, w1));
        if remaining > w2 {
            let q2 = seq![initial(p[0])] + shorten(rest, next, w2);
            assert(q2.drop_first() == shorten(rest, next, w2));
            lemma_shorten_monotone(rest, next, w1, w2);
        } else {
            lemma_shorten_shape(rest, next, w1);
        }
    }
}

proof fn lemma_ends_with_last_segment(s: Seq<char>)
    ensures
        split_dots(s).len() >= 1,
        s.len() >= split_dots(s).last().len(),
        s.subrange(s.len() - split_dots(s).last().len(), s.len() as int) == split_dots(s).last(),
    decreases s.len(),
{
    lemma_split_len(s);
    if s.len() > 0 {
        let t = s.drop_last();
        lemma_ends_with_last_segment(t);
        lemma_split_len(t);
        if s.last() != '.' {
            let c = split_dots(t).last();
            assert(split_dots(s).last() == c.push(s.last()));
            assert(s.subrange(s.len() - c.len() - 1, s.len() as int) =~= t.subrange(
                t.len() - c.len(),
                t.len() as int,
            ).push(s.last()));
        }
    }
}

proof fn lemma_join_ends_with_last(p: Seq<Seq<char>>)
    requires
        p.len() >= 1,
    ensures
        join_dots(p).len() >= p.last().len(),
        join_dots(p).subrange(join_dots(p).len() - p.last().len(), join_dots(p).len() as int)
            == p.last(),
{
    let j = join_dots(p);
    if p.len() == 1 {
        assert(j.subrange(0, j.len() as int) == j);
    } else {
        let front = join_dots(p.drop_last()).push('.');
        assert(j.subrange(front.len() as int, j.len() as int) =~= p.last());
    }
}

/// Abbreviation keeps the class segment: every abbreviated name ends with
/// the last segment of the original name, whole.
pub proof fn lemma_compress_keeps_class(s: Seq<char>, target: int)
    ensures
        split_dots(s).len() >= 1,
        compressed(s, target).len() >= split_dots(s).last().len(),
        compressed(s, target).subrange(
            compressed(s, target).len() - split_dots(s).last().len(),
            compressed(s, target).len() as int,
        ) == split_dots(s).last(),
{
    lemma_ends_with_last_segment(s);
    if s.len() > target {
        let parts = split_dots(s);
        let q = shorten(parts.drop_last(), s.len() as int, target).push(parts.last());
        lemma_join_ends_with_last(q);
    }
}

/// Abbreviation never lengthens a name.
pub proof fn lemma_compress_never_longer(s: Seq<char>, target: int)
    ensures
        compressed(s, target).len() <= s.len(),
{
    if s.len() > target {
        let parts = split_dots(s);
        let p = parts.drop_last();
        let q = shorten(p, s.len() as int, target);
        lemma_split_len(s);
        lemma_shorten_shape(p, s.len() as int, target);
        assert(parts == p.push(parts.last()));
        lemma_total_push(p, parts.last());
        lemma_total_push(q, parts.last());
        lemma_join_len(q.push(parts.last()));
    }
}

/// A name that fits the width is left as it is.
pub proof fn lemma_compress_fits(s: Seq<char>, target: int)
    requires
        s.len() <= target,
    ensures
        compressed(s, target) == s,
{
}

/// A name without a dot has nothing to cut and is left as it is, whatever
/// the width.
pub proof fn lemma_compress_single_segment(s: Seq<char>, target: int)
    requires
        split_dots(s).len() == 1,
    ensures
        compressed(s, target) == s,
{
    let parts = split_dots(s);
    lemma_split_len(s);
    lemma_ends_with_last_segment(s);
    assert(parts == seq![parts.last()]);
    lemma_total_single(parts.last());
    assert(s.subrange(0, s.len() as int) == s);
    if s.len() > target {
        assert(parts.drop_last() == Seq::<Seq<char>>::empty());
        assert(shorten(parts.drop_last(), s.len() as int, target).push(parts.last()) == seq![
            parts.last(),
        ]);
    }
}

/// A narrower width never gives a longer abbreviation.
pub proof fn lemma_compress_monotone(s: Seq<char>, w1: int, w2: int)
    requires
        w1 < w2,
    ensures
        compressed(s, w1).len() <= compressed(s, w2).len(),
{
    lemma_compress_never_longer(s, w1);
    if s.len() > w2 {
        let parts = split_dots(s);
        let p = parts.drop_last();
        let q1 = shorten(p, s.len() as int, w1);
        let q2 = shorten(p, s.len() as int, w2);
        lemma_split_len(s);
        lemma_shorten_shape(p, s.len() as int, w1);
        lemma_shorten_shape(p, s.len() as int, w2);
        lemma_shorten_monotone(p, s.len() as int, w1, w2);
        lemma_total_push(q1, parts.last());
        lemma_total_push(q2, parts.last());
        lemma_join_len(q1.push(parts.last()));
        lemma_join_len(q2.push(parts.last()));
    }
}

/// The name of a logger: a dotted path whose last segment names a class.
pub struct Source(pub String);

impl From<String> for Source {
    fn from(src: String) -> (r: Self)
        ensures
            r.0 == src,
    {
        Source(src)
    }
}

impl vstd::std_specs::convert::FromSpecImpl<String> for Source {
    open spec fn obeys_from_spec() -> bool {
        true
    }

    open spec fn from_spec(v: String) -> Source {
        Source(v)
    }
}

fn split_segments(s: &Vec<char>) -> (r: Vec<Vec<char>>)
    ensures
        seg_views(r@) == split_dots(s@),
{
    let mut done: Vec<Vec<char>> = Vec::new();
    let mut cur: Vec<char> = Vec::new();
    let mut i: usize = 0;
    assert(s@.take(0) == Seq::<char>::empty());
    assert(seg_views(done@).push(cur@) == split_dots(s@.take(0)));
    while i < s.len()
        invariant
            i <= s@.len(),
            seg_views(done@).push(cur@) == split_dots(s@.take(i as int)),
        decreases s@.len() - i,
    {
        let c = s[i];
        let ghost before = seg_views(done@).push(cur@);
        assert(s@.take(i + 1).drop_last() == s@.take(i as int));
        assert(s@.take(i + 1).last() == c);
        if c == '.' {
            done.push(cur);
            cur = Vec::new();
            assert(seg_views(done@).push(cur@) == before.push(Seq::<char>::empty()));
        } else {
            cur.push(c);
            assert(seg_views(done@).push(cur@) == before.update(
                before.len() - 1,
                before.last().push(c),
            ));
        }
        i = i + 1;
    }
    assert(s@.take(s@.len() as int) == s@);
    done.push(cur);
    assert(seg_views(done@) == split_dots(s@));
    done
}

fn shorten_segments(parts: &Vec<Vec<char>>, len: usize, target: usize) -> (r: Vec<Vec<char>>)
    requires
        parts@.len() >= 1,
        total_len(seg_views(parts@)) + parts@.len() - 1 == len,
    ensures
        r@.len() >= 1,
        seg_views(r@) == shorten(seg_views(parts@).drop_last(), len as int, target as int).push(
            seg_views(parts@).last(),
        ),
{
    let ghost v = seg_views(parts@);
    let m = parts.len() - 1;
    let mut out: Vec<Vec<char>> = Vec::new();
    let mut cut: usize = 0;
    let mut i: usize = 0;
    assert(v.subrange(0, m as int) == v.drop_last());
    assert(v.subrange(0, v.len() as int) == v);
    assert(seg_views(out@) == Seq::<Seq<char>>::empty());
    assert(Seq::<Seq<char>>::empty() + shorten(v.drop_last(), len as int, target as int) == shorten(
        v.drop_last(),
        len as int,
        target as int,
    ));
    while i < m
        invariant
            m + 1 == parts@.len(),
            v == seg_views(parts@),
            i <= m,
            cut + total_len(v.subrange(i as int, v.len() as int)) <= len,
            seg_views(out@) + shorten(v.subrange(i as int, m as int), len - cut, target as int)
                == shorten(v.drop_last(), len as int, target as int),
        decreases m - i,
    {
        let seg = &parts[i];
        let ghost rest = v.subrange(i as int, m as int);
        let ghost tail = v.subrange(i as int, v.len() as int);
        let ghost done = seg_views(out@);
        assert(tail.drop_first() == v.subrange(i + 1, v.len() as int));
        assert(rest.drop_first() == v.subrange(i + 1, m as int));
        assert(tail[0] == seg@ && rest[0] == seg@);
        proof {
            lemma_total_nonneg(v.subrange(i + 1, v.len() as int));
        }
        let mut piece: Vec<char> = Vec::new();
        if len - cut > target {
            if seg.len() > 0 {
                piece.push(seg[0]);
                cut = cut + (seg.len() - 1);
            }
            assert(piece@ == initial(rest[0]));
            assert(done + (seq![initial(rest[0])] + shorten(
                rest.drop_first(),
                len - cut,
                target as int,
            )) =~= done.push(piece@) + shorten(rest.drop_first(), len - cut, target as int));
        } else {
            push_all(&mut piece, seg);
            assert(done + rest =~= done.push(piece@) + rest.drop_first());
        }
        out.push(piece);
        assert(seg_views(out@) == done.push(piece@));
        i = i + 1;
    }
    assert(v.subrange(m as int, m as int) == Seq::<Seq<char>>::empty());
    assert(seg_views(out@) + Seq::<Seq<char>>::empty() == seg_views(out@));
    let ghost done = seg_views(out@);
    let mut last: Vec<char> = Vec::new();
    push_all(&mut last, &parts[m]);
    out.push(last);
    assert(seg_views(out@) == done.push(v.last()));
    out
}

fn join_segments(p: &Vec<Vec<char>>) -> (r: Vec<char>)
    requires
        p@.len() >= 1,
    ensures
        r@ == join_dots(seg_views(p@)),
{
    let ghost v = seg_views(p@);
    let mut out: Vec<char> = Vec::new();
    push_all(&mut out, &p[0]);
    assert(v.take(1).len() == 1);
    let mut i: usize = 1;
    while i < p.len()
        invariant
            1 <= i <= p@.len(),
            v == seg_views(p@),
            out@ == join_dots(v.take(i as int)),
        decreases p@.len() - i,
    {
        assert(v.take(i + 1).drop_last() == v.take(i as int));
        assert(v.take(i + 1).last() == p@[i as int]@);
        out.push('.');
        push_all(&mut out, &p[i]);
        i = i + 1;
    }
    assert(v.take(p@.len() as int) == v);
    out
}

impl Source {
    /// This name abbreviated to at most `target` characters where that can
    /// be done by cutting the segments before the class segment.
    pub fn reduced(&self, target: usize) -> (r: String)
        ensures
            r@ == compressed(self.0@, target as int),
    {
        let s = chars_of(self.0.as_str());
        if s.len() <= target {
            return self.0.clone();
        }
        let parts = split_segments(&s);
        proof {
            lemma_split_len(s@);
        }
        let short = shorten_segments(&parts, s.len(), target);
        let joined = join_segments(&short);
        string_of(&joined)
    }

    /// The text shown for this name in a column: abbreviated to `precision`
    /// when one is given, else the whole name.
    pub fn to_text(&self, precision: Option<usize>) -> (r: String)
        ensures
            r@ == match precision {
                Some(w) => compressed(self.0@, w as int),
                None => self.0@,
            },
    {
        match precision {
            Some(w) => self.reduced(w),
            None => self.0.clone(),
        }
    }
}

} // verus!
