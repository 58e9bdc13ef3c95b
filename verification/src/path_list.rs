//! The persisted command-search-path list.
//!
//! The list is a delimiter-joined sequence of path segments; membership is
//! case-insensitive (ASCII). `add` and `remove` are pure: they return the new
//! list and a flag saying whether it differs, so a caller can skip a
//! redundant write of the store.
use vstd::prelude::*;
use vstd::slice::slice_to_vec;
use crate::ascii::eq_ci;
use crate::ascii::eq_ignore_case;
use crate::segments::join;
use crate::segments::join_bytes;
use crate::segments::lemma_join_split;
use crate::segments::lemma_split_append_free;
use crate::segments::lemma_split_len;
use crate::segments::lemma_split_no_delim;
use crate::segments::lemma_split_join;
use crate::segments::lemma_split_push;
use crate::segments::lemma_split_segments_free;
use crate::segments::split;
use crate::segments::split_bytes;

verus! {

/// The delimiter between segments of the persisted list.
pub const DELIMITER: u8 = 59;

/// Membership: some segment of `l` equals `e` up to ASCII case.
pub open spec fn list_contains(l: Seq<u8>, e: Seq<u8>) -> bool {
    exists|i: int| 0 <= i < split(l, DELIMITER).len() && eq_ci(split(l, DELIMITER)[i], e)
}

/// What `add` returns: the list unchanged when `e` is already present,
/// otherwise the list with `e` appended, a delimiter inserted only when the
/// list is non-empty and does not already end with one.
pub open spec fn spec_add(l: Seq<u8>, e: Seq<u8>) -> Seq<u8> {
    if list_contains(l, e) {
        l
    } else if l.len() == 0 {
        e
    } else if l.last() == DELIMITER {
        l + e
    } else {
        l + seq![DELIMITER] + e
    }
}

/// Which segments survive a removal of `e`: the non-empty ones that do not
/// match `e` up to ASCII case.
pub open spec fn keeps(e: Seq<u8>) -> spec_fn(Seq<u8>) -> bool {
    |seg: Seq<u8>| seg.len() > 0 && !eq_ci(seg, e)
}

/// Which segments match `e` up to ASCII case.
pub open spec fn matches_ci(e: Seq<u8>) -> spec_fn(Seq<u8>) -> bool {
    |seg: Seq<u8>| eq_ci(seg, e)
}

/// What `remove` returns: the surviving segments, joined again.
pub open spec fn spec_remove(l: Seq<u8>, e: Seq<u8>) -> Seq<u8> {
    join(split(l, DELIMITER).filter(keeps(e)), DELIMITER)
}

/// Does the list hold `entry`, case-insensitively?
pub fn contains_entry(list: &[u8], entry: &[u8]) -> (r: bool)
    ensures
        r == list_contains(list@, entry@),
{
    let segs = split_bytes(list, DELIMITER);
    let ghost dv = segs.deep_view();
    let mut i: usize = 0;
    while i < segs.len()
        invariant
            i <= segs@.len(),
            dv == segs.deep_view(),
            dv == split(list@, DELIMITER),
            dv.len() == segs@.len(),
            forall|j: int| 0 <= j < i ==> !eq_ci(dv[j], entry@),
        decreases segs@.len() - i,
    {
        proof {
            assert(dv[i as int] == segs@[i as int].deep_view());
            assert(segs@[i as int].deep_view() =~= segs@[i as int]@);
        }
        if eq_ignore_case(segs[i].as_slice(), entry) {
            return true;
        }
        i += 1;
    }
    false
}

/// Byte-for-byte equality of two byte strings.
pub fn bytes_eq(a: &[u8], b: &[u8]) -> (r: bool)
    ensures
        r == (a@ == b@),
{
    if a.len() != b.len() {
        return false;
    }
    let mut i: usize = 0;
    while i < a.len()
        invariant
            a@.len() == b@.len(),
            i <= a@.len(),
            forall|j: int| 0 <= j < i ==> a@[j] == b@[j],
        decreases a@.len() - i,
    {
        if a[i] != b[i] {
            return false;
        }
        i += 1;
    }
    proof {
        assert(a@ =~= b@);
    }
    true
}

/// Register `entry` on the list. The flag reports whether the list changed;
/// it is false exactly when `entry` was already present.
pub fn add(list: &[u8], entry: &[u8]) -> (r: (Vec<u8>, bool))
    ensures
        r.0@ == spec_add(list@, entry@),
        r.1 == !list_contains(list@, entry@),
{
    if contains_entry(list, entry) {
        (slice_to_vec(list), false)
    } else {
        let mut out = slice_to_vec(list);
        if out.len() == 0 {
            let r = slice_to_vec(entry);
            proof {
                assert(list@.len() == 0);
            }
            (r, true)
        } else {
            if out[out.len() - 1] != DELIMITER {
                out.push(DELIMITER);
                proof {
                    assert(out@ =~= list@ + seq![DELIMITER]);
                }
            }
            let ghost before = out@;
            out.extend_from_slice(entry);
            proof {
                if list@.last() == DELIMITER {
                    assert(out@ =~= list@ + entry@);
                } else {
                    assert(before =~= list@ + seq![DELIMITER]);
                    assert(out@ =~= list@ + seq![DELIMITER] + entry@);
                }
            }
            (out, true)
        }
    }
}

/// Drop every case-insensitive match of `entry`, and every empty segment,
/// from the list. The flag reports whether the list changed.
pub fn remove(list: &[u8], entry: &[u8]) -> (r: (Vec<u8>, bool))
    ensures
        r.0@ == spec_remove(list@, entry@),
        r.1 == (spec_remove(list@, entry@) != list@),
{
    let segs = split_bytes(list, DELIMITER);
    let ghost dv = segs.deep_view();
    let ghost p = keeps(entry@);
    let mut kept: Vec<Vec<u8>> = Vec::new();
    let mut i: usize = 0;
    proof {
        assert(dv.take(0) =~= Seq::<Seq<u8>>::empty());
        assert(Seq::<Seq<u8>>::empty().filter(p) =~~= Seq::<Seq<u8>>::empty());
        assert(kept.deep_view() =~~= Seq::<Seq<u8>>::empty());
    }
    while i < segs.len()
        invariant
            i <= segs@.len(),
            dv == segs.deep_view(),
            dv == split(list@, DELIMITER),
            dv.len() == segs@.len(),
            p == keeps(entry@),
            kept.deep_view() == dv.take(i as int).filter(p),
        decreases segs@.len() - i,
    {
        proof {
            assert(dv[i as int] == segs@[i as int].deep_view());
            assert(segs@[i as int].deep_view() =~= segs@[i as int]@);
        }
        let ghost t = dv.take(i as int);
        let ghost x = dv[i as int];
        proof {
            assert(dv.take(i + 1).drop_last() =~= t);
            assert(dv.take(i + 1).last() == x);
            assert(dv.take(i + 1).len() == i + 1);
        }
        proof {
            reveal_with_fuel(Seq::<Seq<u8>>::filter, 2);
        }
        let seg_len = segs[i].len();
        let keep = seg_len > 0 && !eq_ignore_case(segs[i].as_slice(), entry);
        proof {
            assert(keep == p(x));
        }
        if keep {
            let ghost old_kept = kept.deep_view();
            let copy = slice_to_vec(segs[i].as_slice());
            kept.push(copy);
            proof {
                assert(kept.deep_view() =~~= old_kept.push(x));
                assert(dv.take(i + 1).filter(p) == t.filter(p).push(x));
            }
        } else {
            proof {
                assert(dv.take(i + 1).filter(p) == t.filter(p));
            }
        }
        i += 1;
    }
    proof {
        assert(dv.take(i as int) =~= dv);
    }
    let out = join_bytes(&kept, DELIMITER);
    let changed = !bytes_eq(out.as_slice(), list);
    (out, changed)
}

/// After an `add`, the entry is present on the list.
pub proof fn lemma_add_contains(l: Seq<u8>, e: Seq<u8>)
    requires
        forall|j: int| 0 <= j < e.len() ==> e[j] != DELIMITER,
    ensures
        list_contains(spec_add(l, e), e),
{
    let d = DELIMITER;
    assert(eq_ci(e, e));
    if list_contains(l, e) {
    } else if l.len() == 0 {
        lemma_split_no_delim(e, d);
        assert(split(spec_add(l, e), d)[0] == e);
    } else if l.last() == d {
        let t = l.drop_last();
        assert(l + e =~= t + seq![d] + e);
        lemma_split_append_free(t, e, d);
        let ss = split(l + e, d);
        lemma_split_len(t, d);
        assert(ss.last() == e);
        assert(eq_ci(ss[ss.len() - 1], e));
    } else {
        lemma_split_append_free(l, e, d);
        let ss = split(l + seq![d] + e, d);
        lemma_split_len(l, d);
        assert(ss.last() == e);
        assert(eq_ci(ss[ss.len() - 1], e));
    }
}

/// `add` is idempotent: adding the same entry twice gives the same list as
/// adding it once.
pub proof fn lemma_add_idempotent(l: Seq<u8>, e: Seq<u8>)
    requires
        forall|j: int| 0 <= j < e.len() ==> e[j] != DELIMITER,
    ensures
        spec_add(spec_add(l, e), e) == spec_add(l, e),
{
    lemma_add_contains(l, e);
}

/// A filter that keeps every element is the identity.
pub proof fn lemma_filter_all(s: Seq<Seq<u8>>, p: spec_fn(Seq<u8>) -> bool)
    requires
        forall|i: int| 0 <= i < s.len() ==> p(s[i]),
    ensures
        s.filter(p) == s,
    decreases s.len(),
{
    reveal_with_fuel(Seq::<Seq<u8>>::filter, 2);
    if s.len() == 0 {
        assert(s.filter(p) =~~= s);
    } else {
        lemma_filter_all(s.drop_last(), p);
        assert(p(s.last()));
        assert(s.filter(p) == s.drop_last().filter(p).push(s.last()));
        assert(s.drop_last().push(s.last()) =~~= s);
    }
}

/// A filter that keeps no element gives the empty sequence.
pub proof fn lemma_filter_none(s: Seq<Seq<u8>>, p: spec_fn(Seq<u8>) -> bool)
    requires
        forall|i: int| 0 <= i < s.len() ==> !p(s[i]),
    ensures
        s.filter(p) == Seq::<Seq<u8>>::empty(),
    decreases s.len(),
{
    reveal_with_fuel(Seq::<Seq<u8>>::filter, 2);
    if s.len() == 0 {
        assert(s.filter(p) =~~= Seq::<Seq<u8>>::empty());
    } else {
        lemma_filter_none(s.drop_last(), p);
        assert(!p(s.last()));
        assert(s.filter(p) == s.drop_last().filter(p));
    }
}

/// Round trip: removing a freshly added entry restores the original list,
/// provided the list had no empty segments and did not already hold the
/// entry.
pub proof fn lemma_remove_add_round_trip(l: Seq<u8>, e: Seq<u8>)
    requires
        e.len() > 0,
        forall|j: int| 0 <= j < e.len() ==> e[j] != DELIMITER,
        !list_contains(l, e),
        l.len() == 0 || (forall|i: int|
            0 <= i < split(l, DELIMITER).len() ==> split(l, DELIMITER)[i].len() > 0),
    ensures
        spec_remove(spec_add(l, e), e) == l,
{
    let d = DELIMITER;
    let p = keeps(e);
    reveal_with_fuel(Seq::<Seq<u8>>::filter, 3);
    assert(eq_ci(e, e));
    assert(!p(e));
    if l.len() == 0 {
        lemma_split_no_delim(e, d);
        let ss = seq![e];
        assert(ss.drop_last() =~= Seq::<Seq<u8>>::empty());
        assert(ss.filter(p) == Seq::<Seq<u8>>::empty().filter(p));
        assert(Seq::<Seq<u8>>::empty().filter(p) =~~= Seq::<Seq<u8>>::empty());
        assert(spec_remove(spec_add(l, e), e) =~= l);
    } else {
        lemma_split_len(l, d);
        if l.last() == d {
            lemma_split_push(l.drop_last(), d, d);
            assert(l.drop_last().push(d) =~= l);
            assert(split(l, d).last() == Seq::<u8>::empty());
            assert(false);
        }
        lemma_split_append_free(l, e, d);
        let ss = split(l + seq![d] + e, d);
        assert(ss == split(l, d).push(e));
        assert(ss.drop_last() =~= split(l, d));
        assert(ss.last() == e);
        assert(ss.filter(p) == split(l, d).filter(p));
        assert(forall|i: int| 0 <= i < split(l, d).len() ==> p(split(l, d)[i]));
        lemma_filter_all(split(l, d), p);
        lemma_join_split(l, d);
    }
}

/// A successful `add` leaves exactly one case-insensitive occurrence of the
/// entry on the list.
#[verifier::rlimit(60)]
pub proof fn lemma_add_once(l: Seq<u8>, e: Seq<u8>)
    requires
        e.len() > 0,
        forall|j: int| 0 <= j < e.len() ==> e[j] != DELIMITER,
        !list_contains(l, e),
    ensures
        split(spec_add(l, e), DELIMITER).filter(matches_ci(e)).len() == 1,
{
    let d = DELIMITER;
    let q = matches_ci(e);
    reveal_with_fuel(Seq::<Seq<u8>>::filter, 3);
    assert(q(e));
    if l.len() == 0 {
        lemma_split_no_delim(e, d);
        let ss = seq![e];
        assert(ss.drop_last() =~= Seq::<Seq<u8>>::empty());
        assert(ss.filter(q) == Seq::<Seq<u8>>::empty().filter(q).push(e));
        assert(Seq::<Seq<u8>>::empty().filter(q) =~~= Seq::<Seq<u8>>::empty());
    } else if l.last() == d {
        let t = l.drop_last();
        assert(l + e =~= t + seq![d] + e);
        lemma_split_append_free(t, e, d);
        let ss = split(l + e, d);
        lemma_split_len(t, d);
        assert(ss == split(t, d).push(e));
        assert(ss.drop_last() =~= split(t, d));
        assert(ss.last() == e);
        assert(ss.filter(q) == split(t, d).filter(q).push(e));
        lemma_split_push(t, d, d);
        assert(t.push(d) =~= l);
        assert(split(l, d) == split(t, d).push(Seq::<u8>::empty()));
        assert(forall|i: int| 0 <= i < split(t, d).len() ==> split(t, d)[i] == split(l, d)[i]);
        assert(forall|i: int| 0 <= i < split(t, d).len() ==> !q(split(t, d)[i]));
        lemma_filter_none(split(t, d), q);
    } else {
        lemma_split_append_free(l, e, d);
        let ss = split(l + seq![d] + e, d);
        lemma_split_len(l, d);
        assert(ss.drop_last() =~= split(l, d));
        assert(ss.last() == e);
        assert(ss.filter(q) == split(l, d).filter(q).push(e));
        assert(forall|i: int| 0 <= i < split(l, d).len() ==> !q(split(l, d)[i]));
        lemma_filter_none(split(l, d), q);
    }
}

/// Every element kept by a filter occurs in the sequence.
pub proof fn lemma_filter_subset(s: Seq<Seq<u8>>, p: spec_fn(Seq<u8>) -> bool)
    ensures
        forall|i: int| 0 <= i < s.filter(p).len() ==> s.contains(#[trigger] s.filter(p)[i]),
    decreases s.len(),
{
    reveal_with_fuel(Seq::<Seq<u8>>::filter, 2);
    if s.len() == 0 {
    } else {
        let dl = s.drop_last();
        lemma_filter_subset(dl, p);
        let f = s.filter(p);
        assert forall|i: int| 0 <= i < f.len() implies s.contains(f[i]) by {
            if p(s.last()) && i == f.len() - 1 {
                assert(f == dl.filter(p).push(s.last()));
                assert(f[i] == s.last());
                assert(s[s.len() - 1] == s.last());
            } else {
                assert(0 <= i < dl.filter(p).len());
                assert(dl.filter(p)[i] == f[i]);
                assert(dl.contains(f[i]));
                let w = choose|w: int| 0 <= w < dl.len() && dl[w] == f[i];
                assert(s[w] == f[i]);
            }
        }
    }
}

/// After a removal no case-insensitive match of the entry is left; and when
/// anything is left at all, no empty segment is either.
pub proof fn lemma_remove_clears(l: Seq<u8>, e: Seq<u8>)
    requires
        e.len() > 0,
    ensures
        !list_contains(spec_remove(l, e), e),
        spec_remove(l, e).len() > 0 ==> forall|i: int|
            0 <= i < split(spec_remove(l, e), DELIMITER).len() ==> split(
                spec_remove(l, e),
                DELIMITER,
            )[i].len() > 0,
{
    let d = DELIMITER;
    let p = keeps(e);
    let ss = split(l, d);
    let kept = ss.filter(p);
    lemma_split_segments_free(l, d);
    lemma_filter_subset(ss, p);
    if kept.len() == 0 {
        assert(kept =~~= Seq::<Seq<u8>>::empty());
        assert(spec_remove(l, e) == Seq::<u8>::empty());
        let out = split(Seq::<u8>::empty(), d);
        assert(out == seq![Seq::<u8>::empty()]);
        assert forall|i: int| 0 <= i < out.len() implies !eq_ci(out[i], e) by {
            assert(out[i].len() == 0);
        }
    } else {
        assert forall|i: int, j: int|
            0 <= i < kept.len() && 0 <= j < kept[i].len() implies kept[i][j] != d by {
            assert(ss.contains(kept[i]));
            let w = choose|w: int| 0 <= w < ss.len() && ss[w] == kept[i];
            assert(ss[w][j] != d);
        }
        lemma_split_join(kept, d);
        assert(split(spec_remove(l, e), d) == kept);
        assert forall|i: int| 0 <= i < kept.len() implies !eq_ci(kept[i], e) && kept[i].len()
            > 0 by {
            ss.lemma_filter_pred(p, i);
        }
    }
}

} // verus!
