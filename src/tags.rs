//! Tag sets: the order tags are kept in, adding and removing tags.
use vstd::prelude::*;

use crate::detect::{names_of, union_names};

verus! {

/// Lexicographic order of names, by character.
pub open spec fn name_lt(a: Seq<char>, b: Seq<char>) -> bool
    decreases a.len(),
{
    if b.len() == 0 {
        false
    } else if a.len() == 0 {
        true
    } else if (a[0] as int) < (b[0] as int) {
        true
    } else if a[0] == b[0] {
        name_lt(a.drop_first(), b.drop_first())
    } else {
        false
    }
}

/// Inserts `x` into `s` after every element not greater than `x`.
pub open spec fn insert_sorted(s: Seq<Seq<char>>, x: Seq<char>) -> Seq<Seq<char>>
    decreases s.len(),
{
    if s.len() == 0 {
        seq![x]
    } else if name_lt(x, s.last()) {
        insert_sorted(s.drop_last(), x).push(s.last())
    } else {
        s.push(x)
    }
}

/// `s` sorted by `name_lt`, equal names keeping their relative order.
pub open spec fn sorted_names(s: Seq<Seq<char>>) -> Seq<Seq<char>>
    decreases s.len(),
{
    if s.len() == 0 {
        s
    } else {
        insert_sorted(sorted_names(s.drop_last()), s.last())
    }
}

/// No element of `s` is greater than one after it.
pub open spec fn is_sorted_names(s: Seq<Seq<char>>) -> bool {
    forall|i: int, j: int| 0 <= i < j < s.len() ==> !name_lt(#[trigger] s[j], #[trigger] s[i])
}

/// The tags of a record after adding `new` to `tags`: the new ones that are
/// missing are appended, then the whole is sorted.
pub open spec fn tags_after_add(tags: Seq<Seq<char>>, new: Seq<Seq<char>>) -> Seq<Seq<char>> {
    sorted_names(union_names(tags, new))
}

/// The tags of `tags` that are not among `drop`, in order.
pub open spec fn tags_without(tags: Seq<Seq<char>>, drop: Seq<Seq<char>>) -> Seq<Seq<char>>
    decreases tags.len(),
{
    if tags.len() == 0 {
        tags
    } else {
        let rest = tags_without(tags.drop_last(), drop);
        if drop.contains(tags.last()) {
            rest
        } else {
            rest.push(tags.last())
        }
    }
}

/// Whether `a` comes strictly before `b` in lexicographic order.
pub fn str_lt(a: &str, b: &str) -> (r: bool)
    ensures
        r == name_lt(a@, b@),
{
    let la = a.unicode_len();
    let lb = b.unicode_len();
    let mut k: usize = 0;
    assert(a@.skip(0) =~= a@);
    assert(b@.skip(0) =~= b@);
    while k < la && k < lb
        invariant
            la == a@.len(),
            lb == b@.len(),
            k <= la,
            k <= lb,
            name_lt(a@, b@) == name_lt(a@.skip(k as int), b@.skip(k as int)),
        decreases la - k,
    {
        let ca = a.get_char(k);
        let cb = b.get_char(k);
        assert(a@.skip(k as int)[0] == ca);
        assert(b@.skip(k as int)[0] == cb);
        if (ca as u32) < (cb as u32) {
            return true;
        }
        if ca != cb {
            return false;
        }
        assert(a@.skip(k as int).drop_first() =~= a@.skip(k + 1));
        assert(b@.skip(k as int).drop_first() =~= b@.skip(k + 1));
        k = k + 1;
    }
    k < lb
}

/// Inserts `x` into the sorted vector `v` after every element not greater
/// than it.
fn insert_tag(v: &mut Vec<String>, x: String)
    ensures
        names_of(final(v)@) == insert_sorted(names_of(old(v)@), x@),
{
    let ghost s = names_of(v@);
    let mut k: usize = v.len();
    assert(s.take(k as int) =~= s);
    assert(s.skip(k as int) =~= Seq::<Seq<char>>::empty());
    while k > 0 && str_lt(x.as_str(), v[k - 1].as_str())
        invariant
            k <= v@.len(),
            s == names_of(v@),
            insert_sorted(s, x@) == insert_sorted(s.take(k as int), x@) + s.skip(k as int),
        decreases k,
    {
        assert(s.take(k as int).drop_last() =~= s.take(k - 1));
        assert(s.take(k as int).last() == s[k - 1]);
        assert(s.skip(k - 1) =~= seq![s[k - 1]] + s.skip(k as int));
        assert(insert_sorted(s.take(k - 1), x@).push(s[k - 1]) + s.skip(k as int)
            =~= insert_sorted(s.take(k - 1), x@) + s.skip(k - 1));
        k = k - 1;
    }
    proof {
        if k > 0 {
            assert(s.take(k as int).last() == s[k - 1]);
        }
        assert(insert_sorted(s.take(k as int), x@) =~= s.take(k as int).push(x@));
    }
    let ghost xv = x@;
    v.insert(k, x);
    assert(names_of(v@) =~= s.take(k as int).push(xv) + s.skip(k as int));
}

/// Sorts names with `name_lt`, equal names keeping their relative order.
fn sort_tags(v: Vec<String>) -> (r: Vec<String>)
    ensures
        names_of(r@) == sorted_names(names_of(v@)),
{
    let ghost s = names_of(v@);
    let mut rev: Vec<String> = Vec::new();
    let mut src = v;
    while src.len() > 0
        invariant
            src@.len() + rev@.len() == s.len(),
            forall|j: int| 0 <= j < src@.len() ==> #[trigger] src@[j]@ == s[j],
            forall|j: int| 0 <= j < rev@.len() ==> #[trigger] rev@[j]@ == s[s.len() - 1 - j],
        decreases src@.len(),
    {
        let x = src.pop().unwrap();
        rev.push(x);
    }
    let mut out: Vec<String> = Vec::new();
    assert(s.take(0) =~= Seq::<Seq<char>>::empty());
    while rev.len() > 0
        invariant
            rev@.len() <= s.len(),
            forall|j: int| 0 <= j < rev@.len() ==> #[trigger] rev@[j]@ == s[s.len() - 1 - j],
            names_of(out@) == sorted_names(s.take(s.len() - rev@.len())),
        decreases rev@.len(),
    {
        let x = rev.pop().unwrap();
        let ghost k = s.len() - 1 - rev@.len();
        assert(x@ == s[k]);
        assert(s.take(k + 1).drop_last() =~= s.take(k));
        insert_tag(&mut out, x);
    }
    assert(s.take(s.len() as int) =~= s);
    out
}

/// Appends each of `new` missing from `tags`, then sorts the whole.
pub fn add_sorted_tags(tags: Vec<String>, new: &[String]) -> (r: Vec<String>)
    ensures
        names_of(r@) == tags_after_add(names_of(tags@), names_of(new@)),
        is_sorted_names(names_of(r@)),
{
    let mut t = tags;
    let ghost start = names_of(t@);
    let mut k: usize = 0;
    assert(names_of(new@).skip(0) =~= names_of(new@));
    while k < new.len()
        invariant
            k <= new@.len(),
            union_names(names_of(t@), names_of(new@).skip(k as int)) == union_names(
                start,
                names_of(new@),
            ),
        decreases new@.len() - k,
    {
        let ghost before = names_of(t@);
        let item = &new[k];
        if !crate::detect::contains_name(&t, item.as_str()) {
            t.push(item.clone());
            assert(names_of(t@) =~= before.push(item@));
        } else {
            assert(names_of(t@) =~= before);
        }
        assert(names_of(new@).skip(k as int).drop_first() =~= names_of(new@).skip(k + 1));
        k = k + 1;
    }
    assert(names_of(new@).skip(k as int) =~= Seq::<Seq<char>>::empty());
    let r = sort_tags(t);
    proof {
        lemma_sorted_names_sorted(union_names(start, names_of(new@)));
    }
    r
}

/// The tags of `tags` that are not among `drop`, in order.
pub fn drop_tags(tags: &Vec<String>, drop: &[String]) -> (r: Vec<String>)
    ensures
        names_of(r@) == tags_without(names_of(tags@), names_of(drop@)),
{
    let ghost s = names_of(tags@);
    let dropv = slice_to_vec_names(drop);
    let mut out: Vec<String> = Vec::new();
    let mut k: usize = 0;
    assert(s.take(0) =~= Seq::<Seq<char>>::empty());
    while k < tags.len()
        invariant
            k <= tags@.len(),
            s == names_of(tags@),
            names_of(dropv@) == names_of(drop@),
            names_of(out@) == tags_without(s.take(k as int), names_of(drop@)),
        decreases tags@.len() - k,
    {
        let ghost before = names_of(out@);
        assert(s.take(k + 1).drop_last() =~= s.take(k as int));
        if !crate::detect::contains_name(&dropv, tags[k].as_str()) {
            out.push(tags[k].clone());
            assert(names_of(out@) =~= before.push(s[k as int]));
        } else {
            assert(names_of(out@) =~= before);
        }
        k = k + 1;
    }
    assert(s.take(k as int) =~= s);
    out
}

pub(crate) fn slice_to_vec_names(s: &[String]) -> (r: Vec<String>)
    ensures
        names_of(r@) == names_of(s@),
{
    let mut r: Vec<String> = Vec::new();
    let mut k: usize = 0;
    while k < s.len()
        invariant
            k <= s@.len(),
            r@.len() == k,
            forall|j: int| 0 <= j < k ==> #[trigger] r@[j]@ == s@[j]@,
        decreases s@.len() - k,
    {
        r.push(s[k].clone());
        k = k + 1;
    }
    assert(names_of(r@) =~= names_of(s@));
    r
}

/// `sorted_names` yields a sorted sequence.
pub proof fn lemma_sorted_names_sorted(s: Seq<Seq<char>>)
    ensures
        is_sorted_names(sorted_names(s)),
    decreases s.len(),
{
    if s.len() > 0 {
        lemma_sorted_names_sorted(s.drop_last());
        lemma_insert_sorted_sorted(sorted_names(s.drop_last()), s.last());
    }
}

proof fn lemma_insert_sorted_sorted(s: Seq<Seq<char>>, x: Seq<char>)
    requires
        is_sorted_names(s),
    ensures
        is_sorted_names(insert_sorted(s, x)),
        insert_sorted(s, x).len() == s.len() + 1,
        forall|e: Seq<char>| #[trigger] insert_sorted(s, x).contains(e) ==> e == x || s.contains(e),
    decreases s.len(),
{
    if s.len() > 0 {
        let d = s.drop_last();
        let l = s.last();
        assert(is_sorted_names(d));
        if name_lt(x, l) {
            lemma_insert_sorted_sorted(d, x);
            let r = insert_sorted(d, x);
            assert forall|e: Seq<char>| #[trigger] r.push(l).contains(e) implies e == x || s.contains(e) by {
                if r.contains(e) {
                    if d.contains(e) {
                        let j = choose|j: int| 0 <= j < d.len() && d[j] == e;
                        assert(s[j] == e);
                    }
                } else {
                    let j = choose|j: int| 0 <= j < r.push(l).len() && r.push(l)[j] == e;
                    assert(j == r.len());
                    assert(s[s.len() - 1] == e);
                }
            }
            assert forall|i: int, j: int| 0 <= i < j < r.push(l).len() implies !name_lt(
                #[trigger] r.push(l)[j],
                #[trigger] r.push(l)[i],
            ) by {
                if j == r.len() {
                    let e = r[i];
                    assert(r.contains(e));
                    if e == x {
                        lemma_name_lt_asym(x, l);
                    } else {
                        let k = choose|k: int| 0 <= k < d.len() && d[k] == e;
                        assert(s[k] == e);
                        assert(s[s.len() - 1] == l);
                    }
                } else {
                    assert(r.push(l)[i] == r[i]);
                    assert(r.push(l)[j] == r[j]);
                }
            }
        } else {
            assert forall|e: Seq<char>| #[trigger] s.push(x).contains(e) implies e == x || s.contains(e) by {
                let j = choose|j: int| 0 <= j < s.push(x).len() && s.push(x)[j] == e;
                if j < s.len() {
                    assert(s[j] == e);
                }
            }
            assert forall|i: int, j: int| 0 <= i < j < s.push(x).len() implies !name_lt(
                #[trigger] s.push(x)[j],
                #[trigger] s.push(x)[i],
            ) by {
                if j == s.len() {
                    let e = s[i];
                    assert(!name_lt(l, e) || i == s.len() - 1);
                    lemma_name_lt_total(l, e);
                    if name_lt(x, e) {
                        if name_lt(e, l) {
                            lemma_name_lt_trans(x, e, l);
                        }
                    }
                } else {
                    assert(s.push(x)[i] == s[i]);
                    assert(s.push(x)[j] == s[j]);
                }
            }
        }
    }
}

proof fn lemma_name_lt_asym(a: Seq<char>, b: Seq<char>)
    ensures
        !(name_lt(a, b) && name_lt(b, a)),
    decreases a.len(),
{
    if a.len() > 0 && b.len() > 0 && a[0] == b[0] {
        lemma_name_lt_asym(a.drop_first(), b.drop_first());
    }
}

proof fn lemma_name_lt_total(a: Seq<char>, b: Seq<char>)
    ensures
        name_lt(a, b) || name_lt(b, a) || a == b,
    decreases a.len(),
{
    if a.len() > 0 && b.len() > 0 {
        if a[0] == b[0] {
            lemma_name_lt_total(a.drop_first(), b.drop_first());
            if a.drop_first() == b.drop_first() {
                assert(a =~= seq![a[0]] + a.drop_first());
                assert(b =~= seq![b[0]] + b.drop_first());
            }
        } else {
            assert((a[0] as int) != (b[0] as int));
        }
    } else if a.len() == 0 && b.len() == 0 {
        assert(a =~= b);
    }
}

proof fn lemma_name_lt_trans(a: Seq<char>, b: Seq<char>, c: Seq<char>)
    requires
        name_lt(a, b),
        name_lt(b, c),
    ensures
        name_lt(a, c),
    decreases a.len(),
{
    if a.len() > 0 && b.len() > 0 && c.len() > 0 && a[0] == b[0] && b[0] == c[0] {
        lemma_name_lt_trans(a.drop_first(), b.drop_first(), c.drop_first());
    }
}

/// Adding the same tags twice leaves the same tags as adding them once, and
/// the tags that come out are sorted.
pub proof fn lemma_add_tags_idempotent(tags: Seq<Seq<char>>, new: Seq<Seq<char>>)
    ensures
        tags_after_add(tags_after_add(tags, new), new) == tags_after_add(tags, new),
        is_sorted_names(tags_after_add(tags, new)),
{
    let u = union_names(tags, new);
    let once = sorted_names(u);
    lemma_union_contains(tags, new);
    assert forall|e: Seq<char>| new.contains(e) implies #[trigger] once.contains(e) by {
        lemma_sorted_names_contains(u, e);
    }
    lemma_union_noop(once, new);
    lemma_sorted_names_sorted(u);
    lemma_sorted_names_fixed(once);
}

proof fn lemma_union_contains(acc: Seq<Seq<char>>, extra: Seq<Seq<char>>)
    ensures
        forall|e: Seq<char>| #[trigger] extra.contains(e) ==> union_names(acc, extra).contains(e),
        forall|e: Seq<char>| #[trigger] acc.contains(e) ==> union_names(acc, extra).contains(e),
    decreases extra.len(),
{
    if extra.len() > 0 {
        let first = extra[0];
        let next = if acc.contains(first) { acc } else { acc.push(first) };
        lemma_union_contains(next, extra.drop_first());
        if !acc.contains(first) {
            assert(next[acc.len() as int] == first);
        }
        assert(next.contains(first));
        assert(union_names(acc, extra) == union_names(next, extra.drop_first()));
        assert forall|e: Seq<char>| #[trigger] acc.contains(e) implies next.contains(e) by {
            if !acc.contains(first) {
                let j = choose|j: int| 0 <= j < acc.len() && acc[j] == e;
                assert(next[j] == e);
            }
        }
        assert forall|e: Seq<char>| #[trigger] extra.contains(e) implies union_names(acc, extra).contains(e) by {
            let j = choose|j: int| 0 <= j < extra.len() && extra[j] == e;
            if j > 0 {
                assert(extra.drop_first()[j - 1] == e);
                assert(extra.drop_first().contains(e));
            } else {
                assert(next.contains(e));
            }
        }
    }
}

proof fn lemma_union_noop(acc: Seq<Seq<char>>, extra: Seq<Seq<char>>)
    requires
        forall|e: Seq<char>| extra.contains(e) ==> #[trigger] acc.contains(e),
    ensures
        union_names(acc, extra) == acc,
    decreases extra.len(),
{
    if extra.len() > 0 {
        assert(extra.contains(extra[0]));
        assert forall|e: Seq<char>| extra.drop_first().contains(e) implies #[trigger] acc.contains(e) by {
            let j = choose|j: int| 0 <= j < extra.drop_first().len() && extra.drop_first()[j] == e;
            assert(extra[j + 1] == e);
        }
        lemma_union_noop(acc, extra.drop_first());
    }
}

proof fn lemma_insert_sorted_keeps(s: Seq<Seq<char>>, x: Seq<char>, e: Seq<char>)
    requires
        e == x || s.contains(e),
    ensures
        insert_sorted(s, x).contains(e),
    decreases s.len(),
{
    if s.len() == 0 {
        assert(insert_sorted(s, x)[0] == x);
    } else if name_lt(x, s.last()) {
        let d = s.drop_last();
        let r = insert_sorted(d, x);
        if e == s.last() {
            assert(r.push(s.last())[r.len() as int] == e);
        } else {
            if e != x {
                let j = choose|j: int| 0 <= j < s.len() && s[j] == e;
                assert(d[j] == e);
            }
            lemma_insert_sorted_keeps(d, x, e);
            let j = choose|j: int| 0 <= j < r.len() && r[j] == e;
            assert(r.push(s.last())[j] == e);
        }
    } else {
        if e == x {
            assert(s.push(x)[s.len() as int] == e);
        } else {
            let j = choose|j: int| 0 <= j < s.len() && s[j] == e;
            assert(s.push(x)[j] == e);
        }
    }
}

proof fn lemma_sorted_names_contains(s: Seq<Seq<char>>, e: Seq<char>)
    requires
        s.contains(e),
    ensures
        sorted_names(s).contains(e),
    decreases s.len(),
{
    let d = s.drop_last();
    if e != s.last() {
        let j = choose|j: int| 0 <= j < s.len() && s[j] == e;
        assert(d[j] == e);
        lemma_sorted_names_contains(d, e);
    }
    lemma_insert_sorted_keeps(sorted_names(d), s.last(), e);
}

proof fn lemma_sorted_names_fixed(s: Seq<Seq<char>>)
    requires
        is_sorted_names(s),
    ensures
        sorted_names(s) == s,
    decreases s.len(),
{
    if s.len() > 0 {
        let d = s.drop_last();
        assert(is_sorted_names(d));
        lemma_sorted_names_fixed(d);
        if d.len() > 0 {
            assert(!name_lt(s[s.len() - 1], s[s.len() - 2]));
        }
        assert(d.push(s.last()) =~= s);
    }
}

} // verus!
