//! Laws of the diff engine: idempotence, old/new symmetry, the
//! added/removed/changed partition over identifiers, and invariance under
//! reordering of the inputs.

use vstd::prelude::*;

use crate::diff::{
    added_records, entry_for, entry_view, entry_views, has_mac, insert_client, mac_of,
    matched_macs, merge_delta, removed_records, sort_clients, sorted_by_mac, spec_diff, swap_view,
    unique_macs, DeltaEntry, DeltaEntryView,
};
use crate::diff::lemma_change_views;
use crate::text::{lemma_lex_lt_asymmetric, lemma_lex_lt_irreflexive, lemma_lex_lt_transitive,
    lemma_lex_lt_trichotomy, lex_lt};
use crate::types::ClientInfo;
use vstd::multiset::Multiset;

verus! {

// ---------------------------------------------------------------------------
// Small unfolding helpers.
// ---------------------------------------------------------------------------

proof fn lemma_removed_cons(e: DeltaEntry, rest: Seq<DeltaEntry>)
    ensures
        removed_records(seq![e] + rest) == (match e {
            DeltaEntry::Removed(c) => seq![c] + removed_records(rest),
            _ => removed_records(rest),
        }),
{
    let d = seq![e] + rest;
    assert(d[0] == e);
    assert(d.drop_first() =~= rest);
}

proof fn lemma_added_cons(e: DeltaEntry, rest: Seq<DeltaEntry>)
    ensures
        added_records(seq![e] + rest) == (match e {
            DeltaEntry::Added(c) => seq![c] + added_records(rest),
            _ => added_records(rest),
        }),
{
    let d = seq![e] + rest;
    assert(d[0] == e);
    assert(d.drop_first() =~= rest);
}

proof fn lemma_matched_cons(e: DeltaEntry, rest: Seq<DeltaEntry>)
    ensures
        matched_macs(seq![e] + rest) == (match e {
            DeltaEntry::Changed(c) => seq![c.mac@] + matched_macs(rest),
            DeltaEntry::Unchanged(c) => seq![mac_of(c)] + matched_macs(rest),
            _ => matched_macs(rest),
        }),
{
    let d = seq![e] + rest;
    assert(d[0] == e);
    assert(d.drop_first() =~= rest);
}

proof fn lemma_map_values_cons<A, B>(x: A, s: Seq<A>, f: spec_fn(A) -> B)
    ensures
        (seq![x] + s).map_values(f) == seq![f(x)] + s.map_values(f),
{
    assert((seq![x] + s).map_values(f) =~= seq![f(x)] + s.map_values(f));
}

// ---------------------------------------------------------------------------
// Idempotence: a snapshot diffed against itself.
// ---------------------------------------------------------------------------

proof fn lemma_merge_self(s: Seq<ClientInfo>)
    ensures
        merge_delta(s, s) == s.map_values(|c: ClientInfo| DeltaEntry::Unchanged(c)),
    decreases s.len(),
{
    let f = |c: ClientInfo| DeltaEntry::Unchanged(c);
    if s.len() == 0 {
        assert(merge_delta(s, s) =~= s.map_values(f));
    } else {
        lemma_merge_self(s.drop_first());
        assert(entry_for(s[0], s[0]) == DeltaEntry::Unchanged(s[0]));
        assert(merge_delta(s, s) == seq![DeltaEntry::Unchanged(s[0])] + merge_delta(
            s.drop_first(),
            s.drop_first(),
        ));
        lemma_map_values_cons(s[0], s.drop_first(), f);
        assert(seq![s[0]] + s.drop_first() =~= s);
        assert(merge_delta(s, s) == s.map_values(f));
    }
}

/// Diffing a snapshot against itself yields no added, no removed, and no
/// changed entries: every entry of the delta is an unchanged one, carrying
/// the records of the snapshot in MAC order.
pub proof fn lemma_diff_idempotent(a: Seq<ClientInfo>)
    ensures
        spec_diff(a, a) == sort_clients(a).map_values(|c: ClientInfo| DeltaEntry::Unchanged(c)),
        removed_records(spec_diff(a, a)) == Seq::<ClientInfo>::empty(),
        added_records(spec_diff(a, a)) == Seq::<ClientInfo>::empty(),
        forall|k: int|
            0 <= k < spec_diff(a, a).len() ==> #[trigger] spec_diff(a, a)[k] matches DeltaEntry::Unchanged(_),
{
    let s = sort_clients(a);
    lemma_merge_self(s);
    lemma_unchanged_extractors(s);
}

proof fn lemma_unchanged_extractors(s: Seq<ClientInfo>)
    ensures
        removed_records(s.map_values(|c: ClientInfo| DeltaEntry::Unchanged(c))) == Seq::<
            ClientInfo,
        >::empty(),
        added_records(s.map_values(|c: ClientInfo| DeltaEntry::Unchanged(c))) == Seq::<
            ClientInfo,
        >::empty(),
    decreases s.len(),
{
    let f = |c: ClientInfo| DeltaEntry::Unchanged(c);
    if s.len() == 0 {
        assert(s.map_values(f) =~= Seq::<DeltaEntry>::empty());
    } else {
        lemma_unchanged_extractors(s.drop_first());
        lemma_map_values_cons(s[0], s.drop_first(), f);
        assert(seq![s[0]] + s.drop_first() =~= s);
        lemma_removed_cons(f(s[0]), s.drop_first().map_values(f));
        lemma_added_cons(f(s[0]), s.drop_first().map_values(f));
    }
}

// ---------------------------------------------------------------------------
// Symmetry: swapping the two snapshots swaps the roles of every entry.
// ---------------------------------------------------------------------------

/// Removed entries of the delta of (a, b) are exactly the added entries of
/// the delta of (b, a), and vice versa; matched entries appear in both with
/// their old and new roles swapped.
pub proof fn lemma_merge_symmetry(a: Seq<ClientInfo>, b: Seq<ClientInfo>)
    ensures
        removed_records(merge_delta(a, b)) == added_records(merge_delta(b, a)),
        added_records(merge_delta(a, b)) == removed_records(merge_delta(b, a)),
        entry_views(merge_delta(b, a)) == entry_views(merge_delta(a, b)).map_values(
            |v: DeltaEntryView| swap_view(v),
        ),
    decreases a.len() + b.len(),
{
    let sw = |v: DeltaEntryView| swap_view(v);
    if a.len() == 0 && b.len() == 0 {
        assert(merge_delta(a, b) =~= Seq::<DeltaEntry>::empty());
        assert(merge_delta(b, a) =~= Seq::<DeltaEntry>::empty());
        assert(entry_views(merge_delta(b, a)) =~= entry_views(merge_delta(a, b)).map_values(sw));
    } else if a.len() == 0 {
        lemma_merge_symmetry(a, b.drop_first());
        let e_ab = DeltaEntry::Added(b[0]);
        let e_ba = DeltaEntry::Removed(b[0]);
        assert(merge_delta(a, b) == seq![e_ab] + merge_delta(a, b.drop_first()));
        assert(merge_delta(b, a) == seq![e_ba] + merge_delta(b.drop_first(), a));
        lemma_sym_step(e_ab, e_ba, merge_delta(a, b.drop_first()), merge_delta(b.drop_first(), a));
    } else if b.len() == 0 {
        lemma_merge_symmetry(a.drop_first(), b);
        let e_ab = DeltaEntry::Removed(a[0]);
        let e_ba = DeltaEntry::Added(a[0]);
        assert(merge_delta(a, b) == seq![e_ab] + merge_delta(a.drop_first(), b));
        assert(merge_delta(b, a) == seq![e_ba] + merge_delta(b, a.drop_first()));
        lemma_sym_step(e_ab, e_ba, merge_delta(a.drop_first(), b), merge_delta(b, a.drop_first()));
    } else if mac_of(a[0]) == mac_of(b[0]) {
        lemma_merge_symmetry(a.drop_first(), b.drop_first());
        let e_ab = entry_for(a[0], b[0]);
        let e_ba = entry_for(b[0], a[0]);
        assert(merge_delta(a, b) == seq![e_ab] + merge_delta(a.drop_first(), b.drop_first()));
        assert(merge_delta(b, a) == seq![e_ba] + merge_delta(b.drop_first(), a.drop_first()));
        lemma_change_views(a[0], b[0]);
        lemma_change_views(b[0], a[0]);
        assert(entry_view(e_ba) == swap_view(entry_view(e_ab)));
        lemma_sym_step(
            e_ab,
            e_ba,
            merge_delta(a.drop_first(), b.drop_first()),
            merge_delta(b.drop_first(), a.drop_first()),
        );
    } else if lex_lt(mac_of(a[0]), mac_of(b[0])) {
        lemma_lex_lt_asymmetric(mac_of(a[0]), mac_of(b[0]));
        lemma_merge_symmetry(a.drop_first(), b);
        let e_ab = DeltaEntry::Removed(a[0]);
        let e_ba = DeltaEntry::Added(a[0]);
        assert(merge_delta(a, b) == seq![e_ab] + merge_delta(a.drop_first(), b));
        assert(merge_delta(b, a) == seq![e_ba] + merge_delta(b, a.drop_first()));
        lemma_sym_step(e_ab, e_ba, merge_delta(a.drop_first(), b), merge_delta(b, a.drop_first()));
    } else {
        lemma_lex_lt_trichotomy(mac_of(a[0]), mac_of(b[0]));
        assert(lex_lt(mac_of(b[0]), mac_of(a[0])));
        lemma_merge_symmetry(a, b.drop_first());
        let e_ab = DeltaEntry::Added(b[0]);
        let e_ba = DeltaEntry::Removed(b[0]);
        assert(merge_delta(a, b) == seq![e_ab] + merge_delta(a, b.drop_first()));
        assert(merge_delta(b, a) == seq![e_ba] + merge_delta(b.drop_first(), a));
        lemma_sym_step(e_ab, e_ba, merge_delta(a, b.drop_first()), merge_delta(b.drop_first(), a));
    }
}

/// One step of the symmetry induction: a pair of head entries that are role
/// swaps of each other, prepended to tails that already correspond.
proof fn lemma_sym_step(e_ab: DeltaEntry, e_ba: DeltaEntry, rest_ab: Seq<DeltaEntry>, rest_ba: Seq<
    DeltaEntry,
>)
    requires
        removed_records(rest_ab) == added_records(rest_ba),
        added_records(rest_ab) == removed_records(rest_ba),
        entry_views(rest_ba) == entry_views(rest_ab).map_values(|v: DeltaEntryView| swap_view(v)),
        entry_view(e_ba) == swap_view(entry_view(e_ab)),
        (match (e_ab, e_ba) {
            (DeltaEntry::Added(x), DeltaEntry::Removed(y)) => x == y,
            (DeltaEntry::Removed(x), DeltaEntry::Added(y)) => x == y,
            (DeltaEntry::Changed(_), DeltaEntry::Changed(_)) => true,
            (DeltaEntry::Unchanged(_), DeltaEntry::Unchanged(_)) => true,
            _ => false,
        }),
    ensures
        removed_records(seq![e_ab] + rest_ab) == added_records(seq![e_ba] + rest_ba),
        added_records(seq![e_ab] + rest_ab) == removed_records(seq![e_ba] + rest_ba),
        entry_views(seq![e_ba] + rest_ba) == entry_views(seq![e_ab] + rest_ab).map_values(
            |v: DeltaEntryView| swap_view(v),
        ),
{
    let sw = |v: DeltaEntryView| swap_view(v);
    let ev = |e: DeltaEntry| entry_view(e);
    lemma_removed_cons(e_ab, rest_ab);
    lemma_added_cons(e_ab, rest_ab);
    lemma_removed_cons(e_ba, rest_ba);
    lemma_added_cons(e_ba, rest_ba);
    lemma_map_values_cons(e_ab, rest_ab, ev);
    lemma_map_values_cons(e_ba, rest_ba, ev);
    lemma_map_values_cons(entry_view(e_ab), entry_views(rest_ab), sw);
    assert(entry_views(seq![e_ba] + rest_ba) =~= entry_views(seq![e_ab] + rest_ab).map_values(sw));
}

/// Symmetry of the whole diff: removed entries of the delta of (a, b) equal
/// the added entries of the delta of (b, a) and vice versa, and every
/// matched entry reappears with its roles swapped.
pub proof fn lemma_diff_symmetry(a: Seq<ClientInfo>, b: Seq<ClientInfo>)
    ensures
        removed_records(spec_diff(a, b)) == added_records(spec_diff(b, a)),
        added_records(spec_diff(a, b)) == removed_records(spec_diff(b, a)),
        entry_views(spec_diff(b, a)) == entry_views(spec_diff(a, b)).map_values(
            |v: DeltaEntryView| swap_view(v),
        ),
{
    lemma_merge_symmetry(sort_clients(a), sort_clients(b));
}

// ---------------------------------------------------------------------------
// Sorting: the sorted sequence is a permutation, ordered by MAC, and — for
// inputs with unique MACs — canonical.
// ---------------------------------------------------------------------------

proof fn lemma_cons_multiset(y: ClientInfo, t: Seq<ClientInfo>)
    ensures
        (seq![y] + t).to_multiset() == t.to_multiset().insert(y),
{
    broadcast use vstd::seq_lib::group_to_multiset_ensures;
    broadcast use vstd::multiset::group_multiset_axioms;

    vstd::seq_lib::lemma_multiset_commutative(seq![y], t);
    assert(seq![y] =~= Seq::<ClientInfo>::empty().push(y));
    assert(Seq::<ClientInfo>::empty().push(y).to_multiset() =~= Seq::<
        ClientInfo,
    >::empty().to_multiset().insert(y));
    assert(Seq::<ClientInfo>::empty().to_multiset() =~= Multiset::<ClientInfo>::empty());
    assert(Multiset::<ClientInfo>::empty().insert(y).add(t.to_multiset()) =~= t.to_multiset().insert(
        y,
    ));
}

/// Inserting into a MAC-sorted sequence keeps it sorted and adds exactly the
/// new record.
proof fn lemma_insert_client_ensures(s: Seq<ClientInfo>, x: ClientInfo)
    requires
        sorted_by_mac(s),
    ensures
        sorted_by_mac(insert_client(s, x)),
        insert_client(s, x).to_multiset() == s.to_multiset().insert(x),
        insert_client(s, x).len() == s.len() + 1,
    decreases s.len(),
{
    broadcast use vstd::seq_lib::group_to_multiset_ensures;
    broadcast use vstd::multiset::group_multiset_axioms;

    let r = insert_client(s, x);
    if s.len() == 0 {
        lemma_cons_multiset(x, s);
        assert(seq![x] + s =~= seq![x]);
        assert(r == seq![x] + s);
    } else if lex_lt(mac_of(s[0]), mac_of(x)) {
        let tail = s.drop_first();
        assert(sorted_by_mac(tail)) by {
            assert(forall|i: int, j: int|
                0 <= i < j < tail.len() ==> tail[i] == s[i + 1] && tail[j] == s[j + 1]);
        }
        lemma_insert_client_ensures(tail, x);
        let rt = insert_client(tail, x);
        assert(r == seq![s[0]] + rt);
        // Every record of the inserted tail sorts at or above the head.
        assert forall|k: int| 1 <= k < r.len() implies !lex_lt(mac_of(r[k]), mac_of(s[0])) by {
            let v = r[k];
            assert(v == rt[k - 1]);
            assert(rt.contains(v));
            assert(rt.to_multiset().count(v) > 0);
            assert(tail.to_multiset().insert(x).count(v) > 0);
            if v == x {
                lemma_lex_lt_asymmetric(mac_of(s[0]), mac_of(x));
            } else {
                assert(tail.to_multiset().count(v) > 0);
                assert(tail.contains(v));
                let l = choose|l: int| 0 <= l < tail.len() && tail[l] == v;
                assert(s[l + 1] == v);
            }
        }
        assert forall|i: int, j: int| 0 <= i < j < r.len() implies !lex_lt(
            mac_of(r[j]),
            mac_of(r[i]),
        ) by {
            if i >= 1 {
                assert(r[i] == rt[i - 1] && r[j] == rt[j - 1]);
            }
        }
        // Multiset: head re-attached, then the two inserts commute.
        lemma_cons_multiset(s[0], rt);
        lemma_cons_multiset(s[0], tail);
        assert(seq![s[0]] + tail =~= s);
        assert(tail.to_multiset().insert(x).insert(s[0]) =~= tail.to_multiset().insert(
            s[0],
        ).insert(x));
    } else {
        assert(r == seq![x] + s);
        lemma_lex_lt_trichotomy(mac_of(s[0]), mac_of(x));
        assert forall|k: int| 1 <= k < r.len() implies !lex_lt(mac_of(r[k]), mac_of(x)) by {
            assert(r[k] == s[k - 1]);
            if k > 1 {
                assert(!lex_lt(mac_of(s[k - 1]), mac_of(s[0])));
            }
            if lex_lt(mac_of(s[k - 1]), mac_of(x)) {
                if mac_of(x) == mac_of(s[0]) {
                    assert(lex_lt(mac_of(s[k - 1]), mac_of(s[0])));
                    lemma_lex_lt_irreflexive(mac_of(s[0]));
                } else {
                    assert(lex_lt(mac_of(x), mac_of(s[0])));
                    lemma_lex_lt_transitive(mac_of(s[k - 1]), mac_of(x), mac_of(s[0]));
                    lemma_lex_lt_irreflexive(mac_of(s[0]));
                }
            }
        }
        assert forall|i: int, j: int| 0 <= i < j < r.len() implies !lex_lt(
            mac_of(r[j]),
            mac_of(r[i]),
        ) by {
            if i >= 1 {
                assert(r[i] == s[i - 1] && r[j] == s[j - 1]);
            }
        }
        lemma_cons_multiset(x, s);
    }
}

/// Sorting by MAC yields a MAC-ordered permutation of the input.
pub proof fn lemma_sort_clients_ensures(s: Seq<ClientInfo>)
    ensures
        sorted_by_mac(sort_clients(s)),
        sort_clients(s).to_multiset() == s.to_multiset(),
        sort_clients(s).len() == s.len(),
    decreases s.len(),
{
    if s.len() == 0 {
        assert(sort_clients(s) =~= s);
    } else {
        let tail = s.drop_first();
        lemma_sort_clients_ensures(tail);
        lemma_insert_client_ensures(sort_clients(tail), s[0]);
        lemma_cons_multiset(s[0], tail);
        assert(seq![s[0]] + tail =~= s);
        assert(sort_clients(s).to_multiset() == sort_clients(tail).to_multiset().insert(s[0]));
        assert((seq![s[0]] + tail).to_multiset() == tail.to_multiset().insert(s[0]));
    }
}

/// A MAC being present among a sequence's records is invariant under
/// permutation.
proof fn lemma_has_mac_permutation(s1: Seq<ClientInfo>, s2: Seq<ClientInfo>, m: Seq<char>)
    requires
        s1.to_multiset() == s2.to_multiset(),
        has_mac(s1, m),
    ensures
        has_mac(s2, m),
{
    broadcast use vstd::seq_lib::group_to_multiset_ensures;

    let i = choose|i: int| 0 <= i < s1.len() && mac_of(s1[i]) == m;
    let v = s1[i];
    assert(s1.contains(v));
    assert(s1.to_multiset().count(v) > 0);
    assert(s2.to_multiset().count(v) > 0);
    assert(s2.contains(v));
    let j = choose|j: int| 0 <= j < s2.len() && s2[j] == v;
    assert(mac_of(s2[j]) == m);
}

/// Having no two records with a shared MAC is invariant under permutation.
pub proof fn lemma_unique_macs_permutation(s1: Seq<ClientInfo>, s2: Seq<ClientInfo>)
    requires
        s1.to_multiset() == s2.to_multiset(),
        unique_macs(s1),
    ensures
        unique_macs(s2),
{
    broadcast use vstd::seq_lib::group_to_multiset_ensures;
    broadcast use vstd::multiset::group_multiset_axioms;

    assert forall|i: int, j: int|
        0 <= i < s2.len() && 0 <= j < s2.len() && i != j implies mac_of(s2[i]) != mac_of(
        s2[j],
    ) by {
        if mac_of(s2[i]) == mac_of(s2[j]) {
            let v = s2[i];
            let w = s2[j];
            if v == w {
                // The same record twice: its count is at least two, so the
                // original sequence repeats it too.
                assert(s2.remove(i).to_multiset() =~= s2.to_multiset().remove(v));
                assert(s2.remove(i).contains(w)) by {
                    if j < i {
                        assert(s2.remove(i)[j] == s2[j]);
                    } else {
                        assert(s2.remove(i)[j - 1] == s2[j]);
                    }
                }
                assert(s2.to_multiset().remove(v).count(w) > 0);
                assert(s1.to_multiset().count(v) >= 2);
                assert(s1.contains(v));
                let i1 = choose|k: int| 0 <= k < s1.len() && s1[k] == v;
                assert(s1.remove(i1).to_multiset() =~= s1.to_multiset().remove(v));
                assert(s1.remove(i1).to_multiset().count(v) > 0);
                assert(s1.remove(i1).contains(v));
                let i2 = choose|k: int| 0 <= k < s1.remove(i1).len() && s1.remove(i1)[k] == v;
                if i2 < i1 {
                    assert(s1[i2] == v);
                    assert(mac_of(s1[i2]) == mac_of(s1[i1]));
                } else {
                    assert(s1.remove(i1)[i2] == s1[i2 + 1]);
                    assert(mac_of(s1[i2 + 1]) == mac_of(s1[i1]));
                }
            } else {
                // Two distinct records sharing a MAC: both occur in the
                // original sequence.
                assert(s2.contains(v));
                assert(s2.to_multiset().count(v) > 0);
                assert(s1.contains(v));
                assert(s2.contains(w));
                assert(s2.to_multiset().count(w) > 0);
                assert(s1.contains(w));
                let k1 = choose|k: int| 0 <= k < s1.len() && s1[k] == v;
                let k2 = choose|k: int| 0 <= k < s1.len() && s1[k] == w;
                assert(k1 != k2);
                assert(mac_of(s1[k1]) == mac_of(s1[k2]));
            }
        }
    }
}

/// Two MAC-sorted sequences with the same records are equal, provided the
/// MACs are unique.
proof fn lemma_sorted_unique_by_mac(x: Seq<ClientInfo>, y: Seq<ClientInfo>)
    requires
        sorted_by_mac(x),
        sorted_by_mac(y),
        unique_macs(x),
        x.to_multiset() == y.to_multiset(),
    ensures
        x == y,
    decreases x.len(),
{
    broadcast use vstd::seq_lib::group_to_multiset_ensures;
    broadcast use vstd::multiset::group_multiset_axioms;

    x.to_multiset_ensures();
    y.to_multiset_ensures();
    if x.len() == 0 {
        assert(y.len() == 0);
        assert(x =~= y);
    } else {
        assert(y.len() == x.len());
        assert(y.contains(y[0]));
        assert(y.to_multiset().count(y[0]) > 0);
        assert(x.to_multiset().count(y[0]) > 0);
        assert(x.contains(y[0]));
        let i = choose|i: int| 0 <= i < x.len() && x[i] == y[0];
        assert(x.contains(x[0]));
        assert(x.to_multiset().count(x[0]) > 0);
        assert(y.to_multiset().count(x[0]) > 0);
        assert(y.contains(x[0]));
        let j = choose|j: int| 0 <= j < y.len() && y[j] == x[0];
        assert(!lex_lt(mac_of(x[i]), mac_of(x[0]))) by {
            if i == 0 {
                lemma_lex_lt_irreflexive(mac_of(x[0]));
            }
        }
        assert(!lex_lt(mac_of(y[j]), mac_of(y[0]))) by {
            if j == 0 {
                lemma_lex_lt_irreflexive(mac_of(y[0]));
            }
        }
        lemma_lex_lt_trichotomy(mac_of(x[0]), mac_of(y[0]));
        assert(mac_of(x[0]) == mac_of(y[0]));
        assert(i == 0);
        assert(x[0] == y[0]);
        assert(x.drop_first() =~= x.remove(0));
        assert(y.drop_first() =~= y.remove(0));
        assert(x.remove(0).to_multiset() =~= x.to_multiset().remove(x[0]));
        assert(y.remove(0).to_multiset() =~= y.to_multiset().remove(y[0]));
        assert(sorted_by_mac(x.drop_first()) && unique_macs(x.drop_first())) by {
            assert(forall|k: int|
                0 <= k < x.drop_first().len() ==> x.drop_first()[k] == x[k + 1]);
        }
        assert(sorted_by_mac(y.drop_first())) by {
            assert(forall|k: int|
                0 <= k < y.drop_first().len() ==> y.drop_first()[k] == y[k + 1]);
        }
        lemma_sorted_unique_by_mac(x.drop_first(), y.drop_first());
        assert forall|k: int| 0 <= k < x.len() implies x[k] == y[k] by {
            if k >= 1 {
                assert(x[k] == x.drop_first()[k - 1]);
                assert(y[k] == y.drop_first()[k - 1]);
            }
        }
        assert(x =~= y);
    }
}

/// The diff is identity-keyed, not position-keyed: reordering either input
/// sequence before diffing yields an identical diff result.
pub proof fn lemma_diff_reorder_invariant(
    a1: Seq<ClientInfo>,
    b1: Seq<ClientInfo>,
    a2: Seq<ClientInfo>,
    b2: Seq<ClientInfo>,
)
    requires
        a2.to_multiset() == a1.to_multiset(),
        b2.to_multiset() == b1.to_multiset(),
        unique_macs(a1),
        unique_macs(b1),
    ensures
        spec_diff(a2, b2) == spec_diff(a1, b1),
{
    lemma_sort_clients_ensures(a1);
    lemma_sort_clients_ensures(a2);
    lemma_sort_clients_ensures(b1);
    lemma_sort_clients_ensures(b2);
    lemma_unique_macs_permutation(a1, sort_clients(a1));
    lemma_unique_macs_permutation(b1, sort_clients(b1));
    lemma_sorted_unique_by_mac(sort_clients(a1), sort_clients(a2));
    lemma_sorted_unique_by_mac(sort_clients(b1), sort_clients(b2));
}

// ---------------------------------------------------------------------------
// Partition: added, removed and matched entries partition the identifiers.
// ---------------------------------------------------------------------------

/// A MAC list contains the given MAC.
pub open spec fn contains_mac(ms: Seq<Seq<char>>, m: Seq<char>) -> bool {
    exists|i: int| 0 <= i < ms.len() && ms[i] == m
}

/// No MAC repeats in the list.
pub open spec fn unique_mac_list(ms: Seq<Seq<char>>) -> bool {
    forall|i: int, j: int| 0 <= i < ms.len() && 0 <= j < ms.len() && i != j ==> ms[i] != ms[j]
}

proof fn lemma_has_mac_cons(x: ClientInfo, t: Seq<ClientInfo>, m: Seq<char>)
    ensures
        has_mac(seq![x] + t, m) == (mac_of(x) == m || has_mac(t, m)),
{
    let s = seq![x] + t;
    assert(s[0] == x);
    if mac_of(x) == m {
        assert(mac_of(s[0]) == m);
    }
    if has_mac(t, m) {
        let i = choose|i: int| 0 <= i < t.len() && mac_of(t[i]) == m;
        assert(s[i + 1] == t[i]);
    }
    if has_mac(s, m) {
        let i = choose|i: int| 0 <= i < s.len() && mac_of(s[i]) == m;
        if i > 0 {
            assert(t[i - 1] == s[i]);
        }
    }
}

proof fn lemma_contains_mac_cons(h: Seq<char>, t: Seq<Seq<char>>, m: Seq<char>)
    ensures
        contains_mac(seq![h] + t, m) == (h == m || contains_mac(t, m)),
{
    let s = seq![h] + t;
    assert(s[0] == h);
    if contains_mac(t, m) {
        let i = choose|i: int| 0 <= i < t.len() && t[i] == m;
        assert(s[i + 1] == t[i]);
    }
    if contains_mac(s, m) {
        let i = choose|i: int| 0 <= i < s.len() && s[i] == m;
        if i > 0 {
            assert(t[i - 1] == s[i]);
        }
    }
}

proof fn lemma_head_mac_split(s: Seq<ClientInfo>, m: Seq<char>)
    requires
        s.len() > 0,
    ensures
        has_mac(s, m) == (mac_of(s[0]) == m || has_mac(s.drop_first(), m)),
{
    assert(seq![s[0]] + s.drop_first() =~= s);
    lemma_has_mac_cons(s[0], s.drop_first(), m);
}

proof fn lemma_unique_macs_cons(x: ClientInfo, t: Seq<ClientInfo>)
    requires
        unique_macs(t),
        !has_mac(t, mac_of(x)),
    ensures
        unique_macs(seq![x] + t),
{
    let s = seq![x] + t;
    assert forall|i: int, j: int|
        0 <= i < s.len() && 0 <= j < s.len() && i != j implies mac_of(s[i]) != mac_of(s[j]) by {
        if i == 0 {
            assert(s[j] == t[j - 1]);
            if mac_of(t[j - 1]) == mac_of(x) {
                assert(has_mac(t, mac_of(x)));
            }
        } else if j == 0 {
            assert(s[i] == t[i - 1]);
            if mac_of(t[i - 1]) == mac_of(x) {
                assert(has_mac(t, mac_of(x)));
            }
        } else {
            assert(s[i] == t[i - 1] && s[j] == t[j - 1]);
        }
    }
}

proof fn lemma_unique_list_cons(h: Seq<char>, t: Seq<Seq<char>>)
    requires
        unique_mac_list(t),
        !contains_mac(t, h),
    ensures
        unique_mac_list(seq![h] + t),
{
    let s = seq![h] + t;
    assert forall|i: int, j: int|
        0 <= i < s.len() && 0 <= j < s.len() && i != j implies s[i] != s[j] by {
        if i == 0 {
            assert(s[j] == t[j - 1]);
            if t[j - 1] == h {
                assert(contains_mac(t, h));
            }
        } else if j == 0 {
            assert(s[i] == t[i - 1]);
            if t[i - 1] == h {
                assert(contains_mac(t, h));
            }
        } else {
            assert(s[i] == t[i - 1] && s[j] == t[j - 1]);
        }
    }
}

proof fn lemma_tail_sorted(s: Seq<ClientInfo>)
    requires
        sorted_by_mac(s),
        s.len() > 0,
    ensures
        sorted_by_mac(s.drop_first()),
{
    assert(forall|k: int| 0 <= k < s.drop_first().len() ==> s.drop_first()[k] == s[k + 1]);
}

proof fn lemma_tail_unique(s: Seq<ClientInfo>)
    requires
        unique_macs(s),
        s.len() > 0,
    ensures
        unique_macs(s.drop_first()),
        !has_mac(s.drop_first(), mac_of(s[0])),
{
    assert(forall|k: int| 0 <= k < s.drop_first().len() ==> s.drop_first()[k] == s[k + 1]);
    if has_mac(s.drop_first(), mac_of(s[0])) {
        let k = choose|k: int|
            0 <= k < s.drop_first().len() && mac_of(s.drop_first()[k]) == mac_of(s[0]);
        assert(mac_of(s[k + 1]) == mac_of(s[0]));
    }
}

/// No record of a MAC-sorted sequence carries a MAC that sorts strictly
/// below the head's.
proof fn lemma_sorted_head_not_in(s: Seq<ClientInfo>, m: Seq<char>)
    requires
        sorted_by_mac(s),
        s.len() > 0,
        lex_lt(m, mac_of(s[0])),
    ensures
        !has_mac(s, m),
{
    if has_mac(s, m) {
        let k = choose|k: int| 0 <= k < s.len() && mac_of(s[k]) == m;
        if k == 0 {
            lemma_lex_lt_irreflexive(m);
        } else {
            assert(!lex_lt(mac_of(s[k]), mac_of(s[0])));
        }
    }
}

/// Partition of the merged delta over identifiers, for MAC-sorted inputs
/// with unique MACs.
proof fn lemma_merge_partition_rec(a: Seq<ClientInfo>, b: Seq<ClientInfo>)
    requires
        sorted_by_mac(a),
        sorted_by_mac(b),
        unique_macs(a),
        unique_macs(b),
    ensures
        forall|m: Seq<char>| #![trigger has_mac(removed_records(merge_delta(a, b)), m)]
            has_mac(removed_records(merge_delta(a, b)), m) == (has_mac(a, m) && !has_mac(b, m)),
        forall|m: Seq<char>| #![trigger has_mac(added_records(merge_delta(a, b)), m)]
            has_mac(added_records(merge_delta(a, b)), m) == (has_mac(b, m) && !has_mac(a, m)),
        forall|m: Seq<char>| #![trigger contains_mac(matched_macs(merge_delta(a, b)), m)]
            contains_mac(matched_macs(merge_delta(a, b)), m) == (has_mac(a, m) && has_mac(b, m)),
        unique_macs(removed_records(merge_delta(a, b))),
        unique_macs(added_records(merge_delta(a, b))),
        unique_mac_list(matched_macs(merge_delta(a, b))),
    decreases a.len() + b.len(),
{
    let d = merge_delta(a, b);
    if a.len() == 0 && b.len() == 0 {
        assert(d =~= Seq::<DeltaEntry>::empty());
        assert forall|m: Seq<char>| !has_mac(removed_records(d), m) && !has_mac(
            added_records(d),
            m,
        ) && !contains_mac(matched_macs(d), m) by {}
    } else if a.len() == 0 {
        lemma_tail_sorted(b);
        lemma_tail_unique(b);
        lemma_merge_partition_rec(a, b.drop_first());
        let rest = merge_delta(a, b.drop_first());
        let e = DeltaEntry::Added(b[0]);
        assert(d == seq![e] + rest);
        lemma_removed_cons(e, rest);
        lemma_added_cons(e, rest);
        lemma_matched_cons(e, rest);
        assert(!has_mac(added_records(rest), mac_of(b[0])));
        assert forall|m: Seq<char>|
            has_mac(removed_records(d), m) == (has_mac(a, m) && !has_mac(b, m)) && has_mac(
            added_records(d),
            m,
        ) == (has_mac(b, m) && !has_mac(a, m)) && contains_mac(matched_macs(d), m) == (has_mac(
            a,
            m,
        ) && has_mac(b, m)) by {
            lemma_head_mac_split(b, m);
            lemma_has_mac_cons(b[0], added_records(rest), m);
            assert(has_mac(removed_records(d), m) == has_mac(removed_records(rest), m));
            assert(contains_mac(matched_macs(d), m) == contains_mac(matched_macs(rest), m));
        }
        lemma_unique_macs_cons(b[0], added_records(rest));
    } else if b.len() == 0 {
        lemma_tail_sorted(a);
        lemma_tail_unique(a);
        lemma_merge_partition_rec(a.drop_first(), b);
        let rest = merge_delta(a.drop_first(), b);
        let e = DeltaEntry::Removed(a[0]);
        assert(d == seq![e] + rest);
        lemma_removed_cons(e, rest);
        lemma_added_cons(e, rest);
        lemma_matched_cons(e, rest);
        assert(!has_mac(removed_records(rest), mac_of(a[0])));
        assert forall|m: Seq<char>|
            has_mac(removed_records(d), m) == (has_mac(a, m) && !has_mac(b, m)) && has_mac(
            added_records(d),
            m,
        ) == (has_mac(b, m) && !has_mac(a, m)) && contains_mac(matched_macs(d), m) == (has_mac(
            a,
            m,
        ) && has_mac(b, m)) by {
            lemma_head_mac_split(a, m);
            lemma_has_mac_cons(a[0], removed_records(rest), m);
            assert(has_mac(added_records(d), m) == has_mac(added_records(rest), m));
            assert(contains_mac(matched_macs(d), m) == contains_mac(matched_macs(rest), m));
        }
        lemma_unique_macs_cons(a[0], removed_records(rest));
    } else if mac_of(a[0]) == mac_of(b[0]) {
        lemma_tail_sorted(a);
        lemma_tail_unique(a);
        lemma_tail_sorted(b);
        lemma_tail_unique(b);
        lemma_merge_partition_rec(a.drop_first(), b.drop_first());
        let rest = merge_delta(a.drop_first(), b.drop_first());
        let e = entry_for(a[0], b[0]);
        assert(d == seq![e] + rest);
        lemma_removed_cons(e, rest);
        lemma_added_cons(e, rest);
        lemma_matched_cons(e, rest);
        assert(removed_records(d) == removed_records(rest));
        assert(added_records(d) == added_records(rest));
        assert(matched_macs(d) == seq![mac_of(b[0])] + matched_macs(rest));
        assert(!contains_mac(matched_macs(rest), mac_of(b[0])));
        assert forall|m: Seq<char>|
            has_mac(removed_records(d), m) == (has_mac(a, m) && !has_mac(b, m)) && has_mac(
            added_records(d),
            m,
        ) == (has_mac(b, m) && !has_mac(a, m)) && contains_mac(matched_macs(d), m) == (has_mac(
            a,
            m,
        ) && has_mac(b, m)) by {
            lemma_head_mac_split(a, m);
            lemma_head_mac_split(b, m);
            lemma_contains_mac_cons(mac_of(b[0]), matched_macs(rest), m);
            if m == mac_of(a[0]) {
                assert(!has_mac(a.drop_first(), m));
                assert(!has_mac(b.drop_first(), m));
                assert(!has_mac(removed_records(rest), m));
                assert(!has_mac(added_records(rest), m));
            }
        }
        lemma_unique_list_cons(mac_of(b[0]), matched_macs(rest));
    } else if lex_lt(mac_of(a[0]), mac_of(b[0])) {
        lemma_tail_sorted(a);
        lemma_tail_unique(a);
        lemma_merge_partition_rec(a.drop_first(), b);
        let rest = merge_delta(a.drop_first(), b);
        let e = DeltaEntry::Removed(a[0]);
        assert(d == seq![e] + rest);
        lemma_removed_cons(e, rest);
        lemma_added_cons(e, rest);
        lemma_matched_cons(e, rest);
        lemma_sorted_head_not_in(b, mac_of(a[0]));
        assert(!has_mac(removed_records(rest), mac_of(a[0])));
        assert forall|m: Seq<char>|
            has_mac(removed_records(d), m) == (has_mac(a, m) && !has_mac(b, m)) && has_mac(
            added_records(d),
            m,
        ) == (has_mac(b, m) && !has_mac(a, m)) && contains_mac(matched_macs(d), m) == (has_mac(
            a,
            m,
        ) && has_mac(b, m)) by {
            lemma_head_mac_split(a, m);
            lemma_has_mac_cons(a[0], removed_records(rest), m);
            assert(has_mac(added_records(d), m) == has_mac(added_records(rest), m));
            assert(contains_mac(matched_macs(d), m) == contains_mac(matched_macs(rest), m));
            if m == mac_of(a[0]) {
                assert(!has_mac(b, m));
                assert(!has_mac(a.drop_first(), m));
            }
        }
        lemma_unique_macs_cons(a[0], removed_records(rest));
    } else {
        lemma_lex_lt_trichotomy(mac_of(a[0]), mac_of(b[0]));
        assert(lex_lt(mac_of(b[0]), mac_of(a[0])));
        lemma_tail_sorted(b);
        lemma_tail_unique(b);
        lemma_merge_partition_rec(a, b.drop_first());
        let rest = merge_delta(a, b.drop_first());
        let e = DeltaEntry::Added(b[0]);
        assert(d == seq![e] + rest);
        lemma_removed_cons(e, rest);
        lemma_added_cons(e, rest);
        lemma_matched_cons(e, rest);
        lemma_sorted_head_not_in(a, mac_of(b[0]));
        assert(!has_mac(added_records(rest), mac_of(b[0])));
        assert forall|m: Seq<char>|
            has_mac(removed_records(d), m) == (has_mac(a, m) && !has_mac(b, m)) && has_mac(
            added_records(d),
            m,
        ) == (has_mac(b, m) && !has_mac(a, m)) && contains_mac(matched_macs(d), m) == (has_mac(
            a,
            m,
        ) && has_mac(b, m)) by {
            lemma_head_mac_split(b, m);
            lemma_has_mac_cons(b[0], added_records(rest), m);
            assert(has_mac(removed_records(d), m) == has_mac(removed_records(rest), m));
            assert(contains_mac(matched_macs(d), m) == contains_mac(matched_macs(rest), m));
            if m == mac_of(b[0]) {
                assert(!has_mac(a, m));
                assert(!has_mac(b.drop_first(), m));
            }
        }
        lemma_unique_macs_cons(b[0], added_records(rest));
    }
}

/// The added/removed/matched partition of the diff is exhaustive and
/// disjoint: a MAC present only in the old list appears among the removed
/// records and nowhere else, one present only in the new list among the
/// added records and nowhere else, and one present in both among the
/// matched (changed-or-unchanged) entries and nowhere else — each exactly
/// once, since no extracted list repeats a MAC.
pub proof fn lemma_diff_partition(a: Seq<ClientInfo>, b: Seq<ClientInfo>)
    requires
        unique_macs(a),
        unique_macs(b),
    ensures
        forall|m: Seq<char>| #![trigger has_mac(removed_records(spec_diff(a, b)), m)]
            has_mac(removed_records(spec_diff(a, b)), m) == (has_mac(a, m) && !has_mac(b, m)),
        forall|m: Seq<char>| #![trigger has_mac(added_records(spec_diff(a, b)), m)]
            has_mac(added_records(spec_diff(a, b)), m) == (has_mac(b, m) && !has_mac(a, m)),
        forall|m: Seq<char>| #![trigger contains_mac(matched_macs(spec_diff(a, b)), m)]
            contains_mac(matched_macs(spec_diff(a, b)), m) == (has_mac(a, m) && has_mac(b, m)),
        unique_macs(removed_records(spec_diff(a, b))),
        unique_macs(added_records(spec_diff(a, b))),
        unique_mac_list(matched_macs(spec_diff(a, b))),
{
    lemma_sort_clients_ensures(a);
    lemma_sort_clients_ensures(b);
    lemma_unique_macs_permutation(a, sort_clients(a));
    lemma_unique_macs_permutation(b, sort_clients(b));
    lemma_merge_partition_rec(sort_clients(a), sort_clients(b));
    assert forall|m: Seq<char>|
        has_mac(sort_clients(a), m) == has_mac(a, m) && has_mac(sort_clients(b), m) == has_mac(
        b,
        m,
    ) by {
        if has_mac(a, m) {
            lemma_has_mac_permutation(a, sort_clients(a), m);
        }
        if has_mac(sort_clients(a), m) {
            lemma_has_mac_permutation(sort_clients(a), a, m);
        }
        if has_mac(b, m) {
            lemma_has_mac_permutation(b, sort_clients(b), m);
        }
        if has_mac(sort_clients(b), m) {
            lemma_has_mac_permutation(sort_clients(b), b, m);
        }
    }
}

} // verus!
