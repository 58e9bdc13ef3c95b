//! Splitting a byte string at a delimiter byte and joining segments back.
//!
//! `split` and `join` are the mathematical model of the persisted
//! command-search-path list: a list is exactly the join of its segments.
use vstd::prelude::*;

verus! {

/// The segments of `s`, split at every occurrence of `d`.
///
/// There is always at least one segment: an empty `s` has one empty segment,
/// as `str::split` yields.
pub open spec fn split(s: Seq<u8>, d: u8) -> Seq<Seq<u8>>
    decreases s.len(),
{
    if s.len() == 0 {
        seq![Seq::<u8>::empty()]
    } else if s.last() == d {
        split(s.drop_last(), d).push(Seq::<u8>::empty())
    } else {
        let r = split(s.drop_last(), d);
        r.update(r.len() - 1, r.last().push(s.last()))
    }
}

/// The segments joined back, with `d` between consecutive segments.
pub open spec fn join(segs: Seq<Seq<u8>>, d: u8) -> Seq<u8>
    decreases segs.len(),
{
    if segs.len() == 0 {
        Seq::<u8>::empty()
    } else if segs.len() == 1 {
        segs[0]
    } else {
        join(segs.drop_last(), d) + seq![d] + segs.last()
    }
}

/// A split is never empty.
pub proof fn lemma_split_len(s: Seq<u8>, d: u8)
    ensures
        split(s, d).len() >= 1,
    decreases s.len(),
{
    if s.len() == 0 {
    } else if s.last() == d {
    } else {
        lemma_split_len(s.drop_last(), d);
    }
}

/// Appending one byte to the split string extends the last segment, or opens
/// a new empty segment when the byte is the delimiter.
pub proof fn lemma_split_push(t: Seq<u8>, c: u8, d: u8)
    ensures
        c == d ==> split(t.push(c), d) == split(t, d).push(Seq::<u8>::empty()),
        c != d ==> split(t.push(c), d) == split(t, d).update(
            split(t, d).len() - 1,
            split(t, d).last().push(c),
        ),
{
    assert(t.push(c).drop_last() =~= t);
    assert(t.push(c).last() == c);
    assert(t.push(c).len() == t.len() + 1);
}

/// Joining after appending one more segment.
pub proof fn lemma_join_push(segs: Seq<Seq<u8>>, x: Seq<u8>, d: u8)
    ensures
        segs.len() == 0 ==> join(segs.push(x), d) == x,
        segs.len() >= 1 ==> join(segs.push(x), d) == join(segs, d) + seq![d] + x,
{
    assert(segs.push(x).drop_last() =~= segs);
    assert(segs.push(x).last() == x);
    if segs.len() == 0 {
        assert(join(segs.push(x), d) == segs.push(x)[0]);
    }
}

/// Extending the last segment by one byte extends the join by that byte.
pub proof fn lemma_join_update_last(r: Seq<Seq<u8>>, c: u8, d: u8)
    requires
        r.len() >= 1,
    ensures
        join(r.update(r.len() - 1, r.last().push(c)), d) == join(r, d).push(c),
{
    let upd = r.update(r.len() - 1, r.last().push(c));
    if r.len() == 1 {
        assert(upd.len() == 1);
        assert(upd[0] == r[0].push(c));
        assert(join(r, d).push(c) =~= r[0].push(c));
    } else {
        assert(upd.drop_last() =~= r.drop_last());
        assert(upd.last() == r.last().push(c));
        assert(join(upd, d) == join(r.drop_last(), d) + seq![d] + r.last().push(c));
        assert(join(r.drop_last(), d) + seq![d] + r.last().push(c) =~= (join(r.drop_last(), d)
            + seq![d] + r.last()).push(c));
    }
}

/// Joining the segments of a string gives the string back.
pub proof fn lemma_join_split(s: Seq<u8>, d: u8)
    ensures
        join(split(s, d), d) == s,
    decreases s.len(),
{
    if s.len() == 0 {
        assert(join(split(s, d), d) == seq![Seq::<u8>::empty()][0]);
        assert(s =~= Seq::<u8>::empty());
    } else if s.last() == d {
        let t = s.drop_last();
        lemma_join_split(t, d);
        lemma_split_len(t, d);
        lemma_join_push(split(t, d), Seq::<u8>::empty(), d);
        assert(join(split(s, d), d) == t + seq![d] + Seq::<u8>::empty());
        assert(t + seq![d] + Seq::<u8>::empty() =~= s);
    } else {
        let t = s.drop_last();
        lemma_join_split(t, d);
        lemma_split_len(t, d);
        lemma_join_update_last(split(t, d), s.last(), d);
        assert(join(split(s, d), d) == t.push(s.last()));
        assert(t.push(s.last()) =~= s);
    }
}

/// A string without the delimiter splits into itself as the one segment.
pub proof fn lemma_split_no_delim(e: Seq<u8>, d: u8)
    requires
        forall|j: int| 0 <= j < e.len() ==> e[j] != d,
    ensures
        split(e, d) == seq![e],
    decreases e.len(),
{
    if e.len() == 0 {
        assert(e =~= Seq::<u8>::empty());
    } else {
        let t = e.drop_last();
        lemma_split_no_delim(t, d);
        lemma_split_len(t, d);
        assert(split(e, d) == seq![t].update(0, t.push(e.last())));
        assert(seq![t].update(0, t.push(e.last())) =~= seq![t.push(e.last())]);
        assert(t.push(e.last()) =~= e);
    }
}

/// Splitting `l ; e` for a delimiter-free `e` appends `e` as one new segment.
pub proof fn lemma_split_append_free(l: Seq<u8>, e: Seq<u8>, d: u8)
    requires
        forall|j: int| 0 <= j < e.len() ==> e[j] != d,
    ensures
        split(l + seq![d] + e, d) == split(l, d).push(e),
    decreases e.len(),
{
    lemma_split_len(l, d);
    if e.len() == 0 {
        assert(l + seq![d] + e =~= l.push(d));
        lemma_split_push(l, d, d);
        assert(e =~= Seq::<u8>::empty());
        assert(split(l, d).push(Seq::<u8>::empty()) =~= split(l, d).push(e));
    } else {
        let t = e.drop_last();
        let c = e.last();
        assert(forall|j: int| 0 <= j < t.len() ==> t[j] != d);
        lemma_split_append_free(l, t, d);
        assert(l + seq![d] + e =~= (l + seq![d] + t).push(c));
        lemma_split_push(l + seq![d] + t, c, d);
        let r = split(l + seq![d] + t, d);
        assert(r == split(l, d).push(t));
        assert(r.len() == split(l, d).len() + 1);
        assert(r.last() == t);
        assert(split(l, d).push(t).update(split(l, d).len() as int, t.push(c)) =~= split(l, d).push(
            t.push(c),
        ));
        assert(t.push(c) =~= e);
    }
}

/// Every segment of a split is free of the delimiter.
pub proof fn lemma_split_segments_free(s: Seq<u8>, d: u8)
    ensures
        forall|i: int, j: int|
            0 <= i < split(s, d).len() && 0 <= j < split(s, d)[i].len() ==> split(s, d)[i][j] != d,
    decreases s.len(),
{
    if s.len() == 0 {
    } else if s.last() == d {
        let t = s.drop_last();
        lemma_split_segments_free(t, d);
        let r = split(t, d);
        let out = split(s, d);
        assert forall|i: int, j: int|
            0 <= i < out.len() && 0 <= j < out[i].len() implies out[i][j] != d by {
            if i < out.len() - 1 {
                assert(out[i] == r[i]);
            } else {
                assert(out[i] == Seq::<u8>::empty());
            }
        }
    } else {
        let t = s.drop_last();
        lemma_split_segments_free(t, d);
        lemma_split_len(t, d);
        let r = split(t, d);
        let out = split(s, d);
        assert forall|i: int, j: int|
            0 <= i < out.len() && 0 <= j < out[i].len() implies out[i][j] != d by {
            if i < out.len() - 1 {
                assert(out[i] == r[i]);
            } else {
                assert(out[i] == r.last().push(s.last()));
                if j < out[i].len() - 1 {
                    assert(out[i][j] == r[r.len() - 1][j]);
                } else {
                    assert(out[i][j] == s.last());
                }
            }
        }
    }
}

/// Splitting a join of delimiter-free segments gives the segments back.
pub proof fn lemma_split_join(segs: Seq<Seq<u8>>, d: u8)
    requires
        segs.len() >= 1,
        forall|i: int, j: int|
            0 <= i < segs.len() && 0 <= j < segs[i].len() ==> segs[i][j] != d,
    ensures
        split(join(segs, d), d) == segs,
    decreases segs.len(),
{
    if segs.len() == 1 {
        lemma_split_no_delim(segs[0], d);
        assert(join(segs, d) == segs[0]);
        assert(seq![segs[0]] =~= segs);
    } else {
        let dl = segs.drop_last();
        assert(forall|i: int, j: int|
            0 <= i < dl.len() && 0 <= j < dl[i].len() ==> dl[i][j] != d);
        lemma_split_join(dl, d);
        assert(forall|j: int| 0 <= j < segs.last().len() ==> segs.last()[j] != d);
        lemma_split_append_free(join(dl, d), segs.last(), d);
        assert(join(segs, d) == join(dl, d) + seq![d] + segs.last());
        assert(dl.push(segs.last()) =~= segs);
    }
}

/// Split the bytes of `s` at every occurrence of `d`.
pub fn split_bytes(s: &[u8], d: u8) -> (r: Vec<Vec<u8>>)
    ensures
        r.deep_view() == split(s@, d),
{
    let mut segs: Vec<Vec<u8>> = Vec::new();
    let mut cur: Vec<u8> = Vec::new();
    let mut i: usize = 0;
    proof {
        assert(s@.take(0) =~= Seq::<u8>::empty());
        assert(segs.deep_view().push(cur@) =~~= split(s@.take(0), d));
    }
    while i < s.len()
        invariant
            i <= s@.len(),
            segs.deep_view().push(cur@) == split(s@.take(i as int), d),
        decreases s@.len() - i,
    {
        let c = s[i];
        proof {
            assert(s@.take(i + 1) =~= s@.take(i as int).push(s@[i as int]));
            lemma_split_push(s@.take(i as int), c, d);
        }
        if c == d {
            let ghost old_segs = segs.deep_view();
            let ghost old_cur = cur@;
            segs.push(cur);
            cur = Vec::new();
            proof {
                assert(segs.deep_view() =~~= old_segs.push(old_cur));
                assert(segs.deep_view().push(cur@) =~~= split(s@.take(i + 1), d));
            }
        } else {
            let ghost old_segs = segs.deep_view();
            let ghost old_cur = cur@;
            cur.push(c);
            proof {
                let r = split(s@.take(i as int), d);
                assert(r == old_segs.push(old_cur));
                assert(r.len() == old_segs.len() + 1);
                assert(r.last() == old_cur);
                assert(old_segs.push(old_cur).update(old_segs.len() as int, old_cur.push(c))
                    =~~= old_segs.push(old_cur.push(c)));
                assert(segs.deep_view().push(cur@) =~~= old_segs.push(old_cur.push(c)));
            }
        }
        i += 1;
    }
    proof {
        assert(s@.take(i as int) =~= s@);
    }
    let ghost final_segs = segs.deep_view();
    let ghost final_cur = cur@;
    segs.push(cur);
    proof {
        assert(segs.deep_view() =~~= final_segs.push(final_cur));
    }
    segs
}

/// Join segments with `d` between consecutive segments.
pub fn join_bytes(segs: &Vec<Vec<u8>>, d: u8) -> (r: Vec<u8>)
    ensures
        r@ == join(segs.deep_view(), d),
{
    let mut out: Vec<u8> = Vec::new();
    let mut i: usize = 0;
    proof {
        assert(segs.deep_view().take(0) =~~= Seq::<Seq<u8>>::empty());
    }
    while i < segs.len()
        invariant
            i <= segs@.len(),
            segs.deep_view().len() == segs@.len(),
            out@ == join(segs.deep_view().take(i as int), d),
        decreases segs@.len() - i,
    {
        if i > 0 {
            out.push(d);
        }
        out.extend_from_slice(segs[i].as_slice());
        proof {
            let dv = segs.deep_view();
            assert(dv[i as int] == segs@[i as int]@) by {
                assert(segs@[i as int].deep_view() =~= segs@[i as int]@);
            }
            assert(dv.take(i + 1) =~~= dv.take(i as int).push(dv[i as int]));
            lemma_join_push(dv.take(i as int), dv[i as int], d);
        }
        i += 1;
    }
    proof {
        assert(segs.deep_view().take(i as int) =~~= segs.deep_view());
    }
    out
}

} // verus!
