//! The orders the read endpoints return their rows in, and a verified
//! insertion sort shared by every listing.
//!
//! Strings are ordered byte-lexicographically through their UTF-8
//! encodings, which is the tie-break the ranking uses for equal counts.

use vstd::prelude::*;
use vstd::multiset::Multiset;
use vstd::seq_lib::to_multiset_build;
use vstd::seq_lib::to_multiset_insert;
use vstd::utf8::encode_utf8;

verus! {

/// Lexicographic "less or equal" on byte sequences.
pub open spec fn lex_le(a: Seq<u8>, b: Seq<u8>) -> bool
    decreases a.len(),
{
    if a.len() == 0 {
        true
    } else if b.len() == 0 {
        false
    } else if a[0] < b[0] {
        true
    } else if a[0] > b[0] {
        false
    } else {
        lex_le(a.drop_first(), b.drop_first())
    }
}

/// Byte-lexicographic order on strings, through their UTF-8 encodings.
pub open spec fn str_le(a: Seq<char>, b: Seq<char>) -> bool {
    lex_le(encode_utf8(a), encode_utf8(b))
}

/// `lex_le` is total.
pub proof fn lemma_lex_le_total(a: Seq<u8>, b: Seq<u8>)
    ensures
        lex_le(a, b) || lex_le(b, a),
    decreases a.len(),
{
    if a.len() > 0 && b.len() > 0 && a[0] == b[0] {
        lemma_lex_le_total(a.drop_first(), b.drop_first());
    }
}

/// `lex_le` is transitive.
pub proof fn lemma_lex_le_trans(a: Seq<u8>, b: Seq<u8>, c: Seq<u8>)
    requires
        lex_le(a, b),
        lex_le(b, c),
    ensures
        lex_le(a, c),
    decreases a.len(),
{
    if a.len() > 0 {
        if a[0] == b[0] && b[0] == c[0] {
            lemma_lex_le_trans(a.drop_first(), b.drop_first(), c.drop_first());
        }
    }
}

/// Decide `str_le` on two strings by comparing their UTF-8 bytes.
pub fn str_le_exec(a: &String, b: &String) -> (r: bool)
    ensures
        r == str_le(a@, b@),
{
    let x = a.as_str().as_bytes();
    let y = b.as_str().as_bytes();
    let mut i: usize = 0;
    proof {
        assert(x@.skip(0) =~= x@);
        assert(y@.skip(0) =~= y@);
    }
    while i < x.len() && i < y.len()
        invariant
            i <= x@.len(),
            i <= y@.len(),
            x@ == encode_utf8(a@),
            y@ == encode_utf8(b@),
            str_le(a@, b@) == lex_le(x@.skip(i as int), y@.skip(i as int)),
        decreases x@.len() - i,
    {
        let xa = *vstd::slice::slice_index_get(x, i);
        let ya = *vstd::slice::slice_index_get(y, i);
        proof {
            assert(x@.skip(i as int)[0] == x@[i as int]);
            assert(y@.skip(i as int)[0] == y@[i as int]);
            assert(x@.skip(i as int).drop_first() =~= x@.skip(i as int + 1));
            assert(y@.skip(i as int).drop_first() =~= y@.skip(i as int + 1));
        }
        if xa < ya {
            return true;
        }
        if xa > ya {
            return false;
        }
        i += 1;
    }
    proof {
        assert(x@.skip(i as int).len() == x@.len() - i);
        assert(y@.skip(i as int).len() == y@.len() - i);
    }
    x.len() <= y.len()
}

/// A total transitive order on a row type: the order its listing returns.
pub trait RowOrder: Sized {
    /// The order, as a specification relation.
    spec fn le_spec(self, other: Self) -> bool;

    /// The order relates every two rows, one way or the other.
    proof fn lemma_total(a: Self, b: Self)
        ensures
            a.le_spec(b) || b.le_spec(a),
    ;

    /// The order is transitive.
    proof fn lemma_trans(a: Self, b: Self, c: Self)
        requires
            a.le_spec(b),
            b.le_spec(c),
        ensures
            a.le_spec(c),
    ;

    /// Decide the order.
    fn le(&self, other: &Self) -> (r: bool)
        ensures
            r == self.le_spec(*other),
    ;
}

/// Each row is ordered no later than its successor.
pub open spec fn sorted_rows<T: RowOrder>(s: Seq<T>) -> bool {
    forall|i: int| 0 <= i < s.len() - 1 ==> #[trigger] s[i].le_spec(s[i + 1])
}

/// In a sorted listing every row is ordered no later than every row after it.
pub proof fn lemma_sorted_rows_pairwise<T: RowOrder>(s: Seq<T>, i: int, j: int)
    requires
        sorted_rows(s),
        0 <= i <= j < s.len(),
    ensures
        s[i].le_spec(s[j]),
    decreases j - i,
{
    if i == j {
        T::lemma_total(s[i], s[i]);
    } else {
        lemma_sorted_rows_pairwise(s, i, j - 1);
        assert(s[j - 1].le_spec(s[j - 1 + 1]));
        T::lemma_trans(s[i], s[j - 1], s[j]);
    }
}

/// Place a row at its position in an already sorted listing.
pub fn insert_sorted<T: RowOrder>(v: &mut Vec<T>, x: T) -> (pos: usize)
    requires
        sorted_rows(old(v)@),
    ensures
        pos <= old(v)@.len(),
        final(v)@ == old(v)@.insert(pos as int, x),
        sorted_rows(final(v)@),
{
    let mut i: usize = 0;
    while i < v.len() && v[i].le(&x)
        invariant
            i <= v@.len(),
            v@ == old(v)@,
            forall|k: int| 0 <= k < i ==> #[trigger] v@[k].le_spec(x),
        decreases v@.len() - i,
    {
        i += 1;
    }
    proof {
        if i < v@.len() {
            T::lemma_total(v@[i as int], x);
        }
        old(v)@.insert_ensures(i as int, x);
    }
    let ghost pre = v@;
    v.insert(i, x);
    proof {
        let s = v@;
        assert forall|k: int| 0 <= k < s.len() - 1 implies #[trigger] s[k].le_spec(s[k + 1]) by {
            if k + 1 < i {
                assert(s[k] == pre[k] && s[k + 1] == pre[k + 1]);
            } else if k + 1 == i {
                assert(s[k] == pre[k] && s[k + 1] == x);
            } else if k == i {
                assert(s[k] == x && s[k + 1] == pre[k]);
            } else {
                assert(s[k] == pre[k - 1] && s[k + 1] == pre[k]);
            }
        }
    }
    i
}

/// Sort rows: the result is ordered and holds exactly the given rows.
pub fn sort_rows<T: RowOrder>(v: Vec<T>) -> (r: Vec<T>)
    ensures
        sorted_rows(r@),
        r@.to_multiset() == v@.to_multiset(),
        r@.len() == v@.len(),
{
    let mut rest = v;
    let mut out: Vec<T> = Vec::new();
    proof {
        broadcast use vstd::seq_lib::group_to_multiset_ensures;

        assert(out@.to_multiset() =~= Multiset::<T>::empty());
    }
    while rest.len() > 0
        invariant
            sorted_rows(out@),
            out@.to_multiset().add(rest@.to_multiset()) == v@.to_multiset(),
            out@.len() + rest@.len() == v@.len(),
        decreases rest@.len(),
    {
        let ghost pre_rest = rest@;
        let x = rest.pop().unwrap();
        let ghost pre_out = out@;
        let pos = insert_sorted(&mut out, x);
        proof {
            assert(pre_rest =~= rest@.push(x));
            to_multiset_build(rest@, x);
            to_multiset_insert(pre_out, pos as int, x);
            assert(out@.to_multiset().add(rest@.to_multiset()) =~= v@.to_multiset());
        }
    }
    proof {
        broadcast use vstd::seq_lib::group_to_multiset_ensures;

        assert(rest@.to_multiset() =~= Multiset::<T>::empty());
        assert(out@.to_multiset() =~= v@.to_multiset());
    }
    out
}

} // verus!
