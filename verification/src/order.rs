//! The display order of the feed.
//!
//! Entries are ordered newest first: by sort key descending, ties broken by
//! rendered text descending. Both comparisons are plain lexicographic
//! comparisons of the characters, with no numeric or locale-aware
//! interpretation, so the order is a total order and the feed it produces is
//! reproducible.

use vstd::prelude::*;
use vstd::relations::total_ordering;

verus! {

/// Lexicographic `<=` on character sequences.
pub open spec fn lex_leq(a: Seq<char>, b: Seq<char>) -> bool
    decreases a.len(),
{
    if a.len() == 0 {
        true
    } else if b.len() == 0 {
        false
    } else if a[0] == b[0] {
        lex_leq(a.drop_first(), b.drop_first())
    } else {
        (a[0] as int) < (b[0] as int)
    }
}

/// Lexicographic `<=` is reflexive.
pub proof fn lemma_lex_refl(a: Seq<char>)
    ensures
        lex_leq(a, a),
    decreases a.len(),
{
    if a.len() > 0 {
        lemma_lex_refl(a.drop_first());
    }
}

/// Any two character sequences are comparable.
pub proof fn lemma_lex_total(a: Seq<char>, b: Seq<char>)
    ensures
        lex_leq(a, b) || lex_leq(b, a),
    decreases a.len(),
{
    if a.len() == 0 || b.len() == 0 {
    } else if a[0] == b[0] {
        lemma_lex_total(a.drop_first(), b.drop_first());
    }
}

/// Sequences below each other are equal.
pub proof fn lemma_lex_antisym(a: Seq<char>, b: Seq<char>)
    requires
        lex_leq(a, b),
        lex_leq(b, a),
    ensures
        a == b,
    decreases a.len(),
{
    if a.len() == 0 {
        assert(b.len() == 0);
        assert(a =~= b);
    } else {
        assert(a[0] == b[0]);
        lemma_lex_antisym(a.drop_first(), b.drop_first());
        assert forall|i: int| 0 <= i < a.len() implies a[i] == b[i] by {
            if i > 0 {
                assert(a[i] == a.drop_first()[i - 1]);
                assert(b[i] == b.drop_first()[i - 1]);
            }
        }
        assert(a =~= b);
    }
}

/// Lexicographic `<=` is transitive.
pub proof fn lemma_lex_trans(a: Seq<char>, b: Seq<char>, c: Seq<char>)
    requires
        lex_leq(a, b),
        lex_leq(b, c),
    ensures
        lex_leq(a, c),
    decreases a.len(),
{
    if a.len() == 0 {
    } else {
        assert(b.len() > 0);
        assert(c.len() > 0);
        if a[0] == b[0] && b[0] == c[0] {
            lemma_lex_trans(a.drop_first(), b.drop_first(), c.drop_first());
        }
    }
}

/// Sharing a prefix, two sequences compare as their remainders do.
proof fn lemma_lex_skip(a: Seq<char>, b: Seq<char>, i: int)
    requires
        0 <= i <= a.len(),
        i <= b.len(),
        forall|j: int| 0 <= j < i ==> a[j] == b[j],
    ensures
        lex_leq(a, b) == lex_leq(a.skip(i), b.skip(i)),
    decreases i,
{
    if i > 0 {
        lemma_lex_skip(a.drop_first(), b.drop_first(), i - 1);
        assert(a.drop_first().skip(i - 1) =~= a.skip(i));
        assert(b.drop_first().skip(i - 1) =~= b.skip(i));
    } else {
        assert(a.skip(0) =~= a);
        assert(b.skip(0) =~= b);
    }
}

/// Lexicographic comparison of two strings, character by character.
pub fn str_leq(a: &str, b: &str) -> (r: bool)
    ensures
        r == lex_leq(a@, b@),
{
    let alen = a.unicode_len();
    let blen = b.unicode_len();
    let mut i: usize = 0;
    while i < alen && i < blen
        invariant
            i <= alen,
            i <= blen,
            alen == a@.len(),
            blen == b@.len(),
            forall|j: int| 0 <= j < i ==> a@[j] == b@[j],
        decreases alen - i,
    {
        let ca = a.get_char(i);
        let cb = b.get_char(i);
        if ca != cb {
            proof {
                lemma_lex_skip(a@, b@, i as int);
                assert(a@.skip(i as int)[0] == a@[i as int]);
                assert(b@.skip(i as int)[0] == b@[i as int]);
            }
            return (ca as u32) < (cb as u32);
        }
        i = i + 1;
    }
    proof {
        lemma_lex_skip(a@, b@, i as int);
    }
    alen <= blen
}

/// The view of an entry: its sort key and its rendered text.
pub type EntryView = (Seq<char>, Seq<char>);

/// `a <= b` on entry views: by sort key, ties broken by rendered text.
pub open spec fn entry_leq(a: EntryView, b: EntryView) -> bool {
    if a.0 == b.0 {
        lex_leq(a.1, b.1)
    } else {
        lex_leq(a.0, b.0)
    }
}

/// The display order: `a` comes no later than `b` when `a` is the greater
/// entry, so greater sort keys — newer instants — come first.
pub open spec fn entry_order(a: EntryView, b: EntryView) -> bool {
    entry_leq(b, a)
}

/// The display order as a function value, for the sorting predicates.
pub open spec fn entry_order_fn() -> spec_fn(EntryView, EntryView) -> bool {
    |a: EntryView, b: EntryView| entry_order(a, b)
}

/// The entry order is reflexive.
pub proof fn lemma_entry_leq_refl(a: EntryView)
    ensures
        entry_leq(a, a),
{
    lemma_lex_refl(a.1);
}

/// Any two entries are comparable.
pub proof fn lemma_entry_leq_total(a: EntryView, b: EntryView)
    ensures
        entry_leq(a, b) || entry_leq(b, a),
{
    if a.0 == b.0 {
        lemma_lex_total(a.1, b.1);
    } else {
        lemma_lex_total(a.0, b.0);
    }
}

/// Entries below each other are equal.
pub proof fn lemma_entry_leq_antisym(a: EntryView, b: EntryView)
    requires
        entry_leq(a, b),
        entry_leq(b, a),
    ensures
        a == b,
{
    if a.0 == b.0 {
        lemma_lex_antisym(a.1, b.1);
    } else {
        lemma_lex_antisym(a.0, b.0);
    }
}

/// The entry order is transitive.
pub proof fn lemma_entry_leq_trans(a: EntryView, b: EntryView, c: EntryView)
    requires
        entry_leq(a, b),
        entry_leq(b, c),
    ensures
        entry_leq(a, c),
{
    if a.0 == b.0 && b.0 == c.0 {
        lemma_lex_trans(a.1, b.1, c.1);
    } else if a.0 == b.0 || b.0 == c.0 {
    } else {
        lemma_lex_trans(a.0, b.0, c.0);
        if a.0 == c.0 {
            lemma_lex_antisym(a.0, b.0);
        }
    }
}

/// The display order is a total order: antisymmetric, transitive and
/// connected. Together with the permutation contract of the sort this makes
/// the feed's order strict and reproducible: for two entries with distinct
/// sort keys the lexicographically greater key comes first, for equal keys
/// the greater rendered text comes first, and any set of entries admits
/// exactly one sorted arrangement.
pub proof fn lemma_entry_order_total_ordering()
    ensures
        total_ordering(entry_order_fn()),
{
    let r = entry_order_fn();
    assert forall|a: EntryView, b: EntryView| #[trigger] r(a, b) && r(b, a) implies a == b by {
        lemma_entry_leq_antisym(a, b);
    }
    assert forall|a: EntryView, b: EntryView, c: EntryView|
        #[trigger] r(a, b) && #[trigger] r(b, c) implies r(a, c) by {
        lemma_entry_leq_trans(c, b, a);
    }
    assert forall|a: EntryView, b: EntryView| #[trigger] r(a, b) || #[trigger] r(b, a) by {
        lemma_entry_leq_total(a, b);
    }
}

} // verus!
