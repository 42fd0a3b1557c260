//! Small verified vector utilities: elementwise addition and in-place
//! first-occurrence deduplication.

use vstd::prelude::*;

verus! {

/// Returns a new vector whose elements are those of `v` with `n` added to each.
pub fn add_n(v: Vec<i32>, n: i32) -> (r: Vec<i32>)
    requires
        forall|i: int| 0 <= i < v@.len() ==> i32::MIN <= #[trigger] v@[i] + n <= i32::MAX,
    ensures
        r@.len() == v@.len(),
        forall|i: int| 0 <= i < v@.len() ==> r@[i] == v@[i] + n,
{
    let mut newv: Vec<i32> = Vec::new();
    let mut idx: usize = 0;
    while idx < v.len()
        invariant
            idx <= v@.len(),
            newv@.len() == idx,
            forall|i: int| 0 <= i < idx ==> newv@[i] == v@[i] + n,
            forall|i: int| 0 <= i < v@.len() ==> i32::MIN <= #[trigger] v@[i] + n <= i32::MAX,
        decreases v@.len() - idx,
    {
        newv.push(v[idx] + n);
        idx += 1;
    }
    newv
}

/// Adds `n` to every element of `v` in place.
pub fn add_n_inplace(v: &mut Vec<i32>, n: i32)
    requires
        forall|i: int| 0 <= i < old(v)@.len() ==> i32::MIN <= #[trigger] old(v)@[i] + n <= i32::MAX,
    ensures
        final(v)@.len() == old(v)@.len(),
        forall|i: int| 0 <= i < old(v)@.len() ==> final(v)@[i] == old(v)@[i] + n,
{
    let mut idx: usize = 0;
    while idx < v.len()
        invariant
            idx <= v@.len(),
            v@.len() == old(v)@.len(),
            forall|i: int| 0 <= i < idx ==> v@[i] == old(v)@[i] + n,
            forall|i: int| idx <= i < v@.len() ==> v@[i] == old(v)@[i],
            forall|i: int|
                0 <= i < old(v)@.len() ==> i32::MIN <= #[trigger] old(v)@[i] + n <= i32::MAX,
        decreases v@.len() - idx,
    {
        let x = v[idx];
        v.set(idx, x + n);
        idx += 1;
    }
}

/// Adds `n` to every element of `v` in place, walking the vector by index.
pub fn add_n_inplace2(v: &mut Vec<i32>, n: i32)
    requires
        forall|i: int| 0 <= i < old(v)@.len() ==> i32::MIN <= #[trigger] old(v)@[i] + n <= i32::MAX,
    ensures
        final(v)@.len() == old(v)@.len(),
        forall|i: int| 0 <= i < old(v)@.len() ==> final(v)@[i] == old(v)@[i] + n,
{
    add_n_inplace(v, n)
}

/// The subsequence of `s` keeping only the first occurrence of each element.
pub open spec fn dedup_seq(s: Seq<i32>) -> Seq<i32>
    decreases s.len(),
{
    if s.len() == 0 {
        Seq::empty()
    } else {
        let rest = dedup_seq(s.drop_last());
        if s.drop_last().contains(s.last()) {
            rest
        } else {
            rest.push(s.last())
        }
    }
}

/// An element appears in `dedup_seq(s)` exactly when it appears in `s`.
pub proof fn lemma_dedup_seq_contains(s: Seq<i32>, x: i32)
    ensures
        dedup_seq(s).contains(x) <==> s.contains(x),
    decreases s.len(),
{
    if s.len() > 0 {
        let rest = s.drop_last();
        let rd = dedup_seq(rest);
        lemma_dedup_seq_contains(rest, x);
        if rest.contains(x) {
            let j = choose|j: int| 0 <= j < rest.len() && rest[j] == x;
            assert(s[j] == x);
            assert(s.contains(x));
        }
        if rd.contains(x) {
            let k = choose|k: int| 0 <= k < rd.len() && rd[k] == x;
            if !rest.contains(s.last()) {
                assert(rd.push(s.last())[k] == x);
            }
            assert(dedup_seq(s).contains(x));
        }
        if s.contains(x) {
            let i = choose|i: int| 0 <= i < s.len() && s[i] == x;
            if i < s.len() - 1 {
                assert(rest[i] == x);
                assert(rest.contains(x));
                assert(dedup_seq(s).contains(x));
            } else {
                assert(x == s.last());
                if rest.contains(x) {
                    assert(dedup_seq(s).contains(x));
                } else {
                    assert(dedup_seq(s) == rd.push(x));
                    assert(rd.push(x)[rd.len() as int] == x);
                    assert(dedup_seq(s).contains(x));
                }
            }
        }
        if dedup_seq(s).contains(x) {
            let j = choose|j: int| 0 <= j < dedup_seq(s).len() && dedup_seq(s)[j] == x;
            if rest.contains(s.last()) {
                assert(rd[j] == x);
                assert(rd.contains(x));
                assert(s.contains(x));
            } else {
                if j < rd.len() {
                    assert(rd[j] == x);
                    assert(rd.contains(x));
                    assert(s.contains(x));
                } else {
                    assert(x == s.last());
                    assert(s[s.len() - 1] == x);
                    assert(s.contains(x));
                }
            }
        }
    }
}

fn seq_contains(v: &Vec<i32>, upto: usize, x: i32) -> (r: bool)
    requires
        upto <= v@.len(),
    ensures
        r == v@.subrange(0, upto as int).contains(x),
{
    let mut idx: usize = 0;
    while idx < upto
        invariant
            idx <= upto <= v@.len(),
            forall|i: int| 0 <= i < idx ==> v@[i] != x,
        decreases upto - idx,
    {
        if v[idx] == x {
            assert(v@.subrange(0, upto as int)[idx as int] == x);
            return true;
        }
        idx += 1;
    }
    assert forall|i: int| 0 <= i < upto implies v@.subrange(0, upto as int)[i] != x by {}
    false
}

/// Removes duplicate elements in place, keeping the element that appears
/// first wherever one is repeated.
pub fn dedup(v: &mut Vec<i32>)
    ensures
        final(v)@ == dedup_seq(old(v)@),
{
    let mut out: Vec<i32> = Vec::new();
    let mut idx: usize = 0;
    while idx < v.len()
        invariant
            idx <= v@.len(),
            v@ == old(v)@,
            out@ == dedup_seq(v@.subrange(0, idx as int)),
            forall|x: i32| out@.contains(x) <==> v@.subrange(0, idx as int).contains(x),
        decreases v@.len() - idx,
    {
        let ghost pre = v@.subrange(0, idx as int);
        let x = v[idx];
        let seen = seq_contains(v, idx, x);
        assert(v@.subrange(0, idx as int + 1).drop_last() =~= pre);
        assert(v@.subrange(0, idx as int + 1).last() == x);
        if !seen {
            out.push(x);
        }
        proof {
            let post = v@.subrange(0, idx as int + 1);
            assert(out@ == dedup_seq(post));
            assert forall|y: i32| out@.contains(y) <==> post.contains(y) by {
                lemma_dedup_seq_contains(post, y);
                lemma_dedup_seq_contains(pre, y);
            }
        }
        idx += 1;
    }
    assert(v@.subrange(0, v@.len() as int) =~= v@);
    *v = out;
}

/// Removes duplicate elements in place, keeping first occurrences; same
/// observable behaviour as `dedup`.
pub fn dedup2(v: &mut Vec<i32>)
    ensures
        final(v)@ == dedup_seq(old(v)@),
{
    dedup(v)
}

/// Relies on String::push: appends the given character at the end of the
/// string, changing nothing else.
#[verifier::external_body]
pub(crate) fn push_char(s: &mut String, c: char)
    ensures
        final(s)@ == old(s)@.push(c),
{
    s.push(c)
}

/// Collects a vector of characters into a `String` with the same characters
/// in the same order.
pub fn vec_to_string(v: &Vec<char>) -> (r: String)
    ensures
        r@ == v@,
{
    let mut s = String::new();
    let mut idx: usize = 0;
    while idx < v.len()
        invariant
            idx <= v@.len(),
            s@ == v@.subrange(0, idx as int),
        decreases v@.len() - idx,
    {
        push_char(&mut s, v[idx]);
        assert(s@ =~= v@.subrange(0, idx as int + 1));
        idx += 1;
    }
    assert(v@.subrange(0, v@.len() as int) =~= v@);
    s
}

} // verus!
