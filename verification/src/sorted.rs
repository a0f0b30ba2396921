//! Sorted sets of strings, ordered as `String` orders them (by code point,
//! which is the order of their UTF-8 bytes).
use vstd::prelude::*;
use vstd::string::*;

use crate::text::{to_chars, views};

verus! {

/// `a` comes before `b`: at the first position where they differ `a` has
/// the smaller character, or `a` is a proper prefix of `b`.
pub open spec fn str_lt(a: Seq<char>, b: Seq<char>) -> bool
    decreases a.len(),
{
    if a.len() == 0 {
        b.len() > 0
    } else if b.len() == 0 {
        false
    } else if a[0] != b[0] {
        (a[0] as u32) < (b[0] as u32)
    } else {
        str_lt(a.drop_first(), b.drop_first())
    }
}

/// Strictly increasing, hence without repetition.
pub open spec fn sorted_distinct(s: Seq<Seq<char>>) -> bool {
    forall|i: int, j: int| 0 <= i < j < s.len() ==> str_lt(#[trigger] s[i], #[trigger] s[j])
}

pub proof fn lemma_str_lt_irreflexive(a: Seq<char>)
    ensures
        !str_lt(a, a),
    decreases a.len(),
{
    if a.len() > 0 {
        lemma_str_lt_irreflexive(a.drop_first());
    }
}

pub proof fn lemma_str_lt_total(a: Seq<char>, b: Seq<char>)
    ensures
        a == b || str_lt(a, b) || str_lt(b, a),
    decreases a.len(),
{
    if a.len() > 0 && b.len() > 0 && a[0] == b[0] {
        lemma_str_lt_total(a.drop_first(), b.drop_first());
        if a.drop_first() == b.drop_first() {
            assert(a =~= seq![a[0]] + a.drop_first());
            assert(b =~= seq![b[0]] + b.drop_first());
        }
    } else if a.len() > 0 && b.len() > 0 {
        let x = a[0] as u32;
        let y = b[0] as u32;
        vstd::utf8::char_u32_cast(a[0], x);
        vstd::utf8::char_u32_cast(b[0], y);
    } else if a.len() == 0 && b.len() == 0 {
        assert(a =~= b);
    }
}

pub proof fn lemma_str_lt_asymmetric(a: Seq<char>, b: Seq<char>)
    requires
        str_lt(a, b),
    ensures
        !str_lt(b, a),
    decreases a.len(),
{
    if a.len() > 0 && b.len() > 0 && a[0] == b[0] {
        lemma_str_lt_asymmetric(a.drop_first(), b.drop_first());
    }
}

pub proof fn lemma_str_lt_transitive(a: Seq<char>, b: Seq<char>, c: Seq<char>)
    requires
        str_lt(a, b),
        str_lt(b, c),
    ensures
        str_lt(a, c),
    decreases a.len(),
{
    if a.len() > 0 && b.len() > 0 && c.len() > 0 && a[0] == b[0] && b[0] == c[0] {
        lemma_str_lt_transitive(a.drop_first(), b.drop_first(), c.drop_first());
    }
}

/// Whether `a` comes before `b`.
pub fn str_less(a: &str, b: &str) -> (r: bool)
    ensures
        r == str_lt(a@, b@),
{
    let va = to_chars(a);
    let vb = to_chars(b);
    assert(a@.skip(0) =~= a@);
    assert(b@.skip(0) =~= b@);
    let mut i: usize = 0;
    while i < va.len() && i < vb.len() && va[i] == vb[i]
        invariant
            va@ == a@,
            vb@ == b@,
            i <= va@.len(),
            i <= vb@.len(),
            str_lt(a@, b@) == str_lt(a@.skip(i as int), b@.skip(i as int)),
        decreases va@.len() - i,
    {
        proof {
            let sa = a@.skip(i as int);
            let sb = b@.skip(i as int);
            assert(sa.drop_first() =~= a@.skip(i + 1));
            assert(sb.drop_first() =~= b@.skip(i + 1));
            assert(sa[0] == va@[i as int]);
            assert(sb[0] == vb@[i as int]);
        }
        i = i + 1;
    }
    proof {
        let sa = a@.skip(i as int);
        let sb = b@.skip(i as int);
        if i < va@.len() {
            assert(sa[0] == va@[i as int]);
        }
        if i < vb@.len() {
            assert(sb[0] == vb@[i as int]);
        }
    }
    if i == va.len() {
        i < vb.len()
    } else if i == vb.len() {
        false
    } else {
        (va[i] as u32) < (vb[i] as u32)
    }
}

/// Inserts `x` into a sorted set, keeping it sorted; nothing changes when
/// `x` is already there.
pub fn insert_sorted(v: &mut Vec<String>, x: String)
    requires
        sorted_distinct(views(old(v)@)),
    ensures
        sorted_distinct(views(final(v)@)),
        forall|s: Seq<char>| #[trigger]
            views(final(v)@).contains(s) <==> (views(old(v)@).contains(s) || s == x@),
{
    let ghost old_v = views(v@);
    let mut k: usize = 0;
    while k < v.len()
        invariant_except_break
            k <= v@.len(),
            old_v == views(v@),
            forall|j: int| 0 <= j < k ==> str_lt(#[trigger] old_v[j], x@),
        ensures
            k <= v@.len(),
            old_v == views(v@),
            forall|j: int| 0 <= j < k ==> str_lt(#[trigger] old_v[j], x@),
            k < v@.len() ==> !str_lt(old_v[k as int], x@),
        decreases v@.len() - k,
    {
        if !str_less(v[k].as_str(), x.as_str()) {
            assert(old_v[k as int] == v@[k as int]@);
            break;
        }
        k = k + 1;
    }
    if k < v.len() && crate::text::str_eq(v[k].as_str(), x.as_str()) {
        assert(old_v[k as int] == x@);
        assert forall|s: Seq<char>| #[trigger]
            views(v@).contains(s) <==> (old_v.contains(s) || s == x@) by {
            if s == x@ {
                assert(old_v[k as int] == s);
            }
        }
        return;
    }
    proof {
        if k < old_v.len() {
            lemma_str_lt_total(old_v[k as int], x@);
            assert(old_v[k as int] == v@[k as int]@);
        }
    }
    assert(k < old_v.len() ==> str_lt(x@, old_v[k as int]));
    let ghost xv = x@;
    v.insert(k, x);
    let ghost nv = views(v@);
    assert(nv =~= old_v.insert(k as int, xv));
    assert forall|i: int, j: int| 0 <= i < j < nv.len() implies str_lt(
        #[trigger] nv[i],
        #[trigger] nv[j],
    ) by {
        if j < k {
            assert(nv[i] == old_v[i] && nv[j] == old_v[j]);
        } else if j == k {
            assert(nv[i] == old_v[i]);
        } else if i == k {
            assert(nv[j] == old_v[j - 1]);
            if j - 1 > k {
                assert(str_lt(old_v[k as int], old_v[j - 1]));
                lemma_str_lt_transitive(xv, old_v[k as int], old_v[j - 1]);
            }
        } else if i < k {
            assert(nv[i] == old_v[i] && nv[j] == old_v[j - 1]);
            assert(str_lt(old_v[i], xv));
            if j - 1 > k {
                assert(str_lt(old_v[k as int], old_v[j - 1]));
                lemma_str_lt_transitive(xv, old_v[k as int], old_v[j - 1]);
            }
            lemma_str_lt_transitive(old_v[i], xv, old_v[j - 1]);
        } else {
            assert(nv[i] == old_v[i - 1] && nv[j] == old_v[j - 1]);
        }
    }
    assert forall|s: Seq<char>| #[trigger] nv.contains(s) <==> (old_v.contains(s) || s == xv) by {
        if nv.contains(s) {
            let i = choose|i: int| 0 <= i < nv.len() && nv[i] == s;
            if i < k {
                assert(old_v[i] == s);
            } else if i > k {
                assert(old_v[i - 1] == s);
            }
        }
        if old_v.contains(s) {
            let i = choose|i: int| 0 <= i < old_v.len() && old_v[i] == s;
            if i < k {
                assert(nv[i] == s);
            } else {
                assert(nv[i + 1] == s);
            }
        }
        if s == xv {
            assert(nv[k as int] == s);
        }
    }
}

/// Adds every string of `items` to a sorted set.
pub fn insert_all_sorted(v: &mut Vec<String>, items: &Vec<String>)
    requires
        sorted_distinct(views(old(v)@)),
    ensures
        sorted_distinct(views(final(v)@)),
        forall|s: Seq<char>| #[trigger]
            views(final(v)@).contains(s) <==> (views(old(v)@).contains(s) || views(items@).contains(
                s,
            )),
{
    let ghost start = views(v@);
    let mut i: usize = 0;
    while i < items.len()
        invariant
            i <= items@.len(),
            sorted_distinct(views(v@)),
            forall|s: Seq<char>| #[trigger]
                views(v@).contains(s) <==> (start.contains(s) || views(items@).subrange(
                    0,
                    i as int,
                ).contains(s)),
        decreases items@.len() - i,
    {
        let ghost before = views(v@);
        insert_sorted(v, items[i].clone());
        assert forall|s: Seq<char>| #[trigger]
            views(v@).contains(s) <==> (start.contains(s) || views(items@).subrange(
                0,
                i + 1,
            ).contains(s)) by {
            let pre = views(items@).subrange(0, i as int);
            let post = views(items@).subrange(0, i + 1);
            assert(post =~= pre.push(items@[i as int]@));
            if post.contains(s) {
                let j = choose|j: int| 0 <= j < post.len() && post[j] == s;
                if j < i {
                    assert(pre[j] == s);
                }
            }
            if pre.contains(s) {
                let j = choose|j: int| 0 <= j < pre.len() && pre[j] == s;
                assert(post[j] == s);
            }
            if s == items@[i as int]@ {
                assert(post[i as int] == s);
            }
        }
        i = i + 1;
    }
    assert(views(items@).subrange(0, items@.len() as int) =~= views(items@));
}

} // verus!
