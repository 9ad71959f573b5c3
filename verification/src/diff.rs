//! The diff engine: an identifier-keyed, ordered-merge delta between two
//! snapshots of the LAN client table.
//!
//! Both client lists are first sorted by MAC address (raw string comparison,
//! ascending); the two sorted sequences are then walked with two cursors in
//! the classic merge-join pattern. A record present only in the old list
//! becomes a removed entry, one present only in the new list an added entry,
//! and a record present in both (same MAC) becomes a changed entry carrying
//! per-field old/new values — or an unchanged entry when every field matches.
//! Identity is always keyed by the MAC, never by position.
//!
//! The whole computation is captured by the specification function
//! [`spec_diff`], and the executable entry points return exactly that value.

use vstd::prelude::*;

use crate::text::{lex_lt, str_lt};
use crate::types::{opt_view, ClientInfo, ClientInfoView};

verus! {

/// The diff key of a client record: its MAC address string.
pub open spec fn mac_of(c: ClientInfo) -> Seq<char> {
    c.mac@
}

/// The sequence is ordered by MAC, ascending (ties adjacent).
pub open spec fn sorted_by_mac(s: Seq<ClientInfo>) -> bool {
    forall|i: int, j: int| 0 <= i < j < s.len() ==> !lex_lt(mac_of(s[j]), mac_of(s[i]))
}

/// No two records of the sequence share a MAC address.
pub open spec fn unique_macs(s: Seq<ClientInfo>) -> bool {
    forall|i: int, j: int|
        0 <= i < s.len() && 0 <= j < s.len() && i != j ==> mac_of(s[i]) != mac_of(s[j])
}

/// Some record of the sequence carries the given MAC.
pub open spec fn has_mac(s: Seq<ClientInfo>, m: Seq<char>) -> bool {
    exists|i: int| 0 <= i < s.len() && mac_of(s[i]) == m
}

/// One field of a changed client entry: carried through unannotated when the
/// two snapshots agree on it, or annotated with the old and new value.
#[derive(Debug, PartialEq)]
pub enum FieldChange<T> {
    Unchanged(T),
    Changed(T, T),
}

/// Direction of a link-speed change, exposed because the presentation layer
/// highlights the direction of the change, not merely that one occurred.
#[derive(Clone, Copy, Debug, PartialEq, Eq, Structural)]
pub enum SpeedDirection {
    Increased,
    Decreased,
    Unchanged,
}

/// One changed client: the shared MAC plus every field's old/new annotation,
/// and the three-way ordering outcome of the speed field.
#[derive(Debug, PartialEq)]
pub struct ClientChange {
    pub mac: String,
    pub hostname: FieldChange<String>,
    pub index: FieldChange<usize>,
    pub ipv4: FieldChange<Option<String>>,
    pub ipv6: FieldChange<Option<String>>,
    pub interface: FieldChange<String>,
    pub interfaceid: FieldChange<usize>,
    pub method: FieldChange<usize>,
    pub lease_time: FieldChange<String>,
    pub speed: FieldChange<usize>,
    pub speed_direction: SpeedDirection,
}

/// One entry of the client-list delta, in merged MAC order.
#[derive(Debug, PartialEq)]
pub enum DeltaEntry {
    Added(ClientInfo),
    Removed(ClientInfo),
    Changed(ClientChange),
    Unchanged(ClientInfo),
}

/// The rendering-agnostic delta between two LAN tables: scalar field changes
/// plus the ordered client-list delta.
#[derive(Debug, PartialEq)]
pub struct LanUserTableDiff {
    pub customer: FieldChange<String>,
    pub total_client: FieldChange<usize>,
    pub clients: Vec<DeltaEntry>,
}

// ---------------------------------------------------------------------------
// Specification of the delta construction.
// ---------------------------------------------------------------------------

/// Annotation of a string field.
pub open spec fn string_change(o: String, n: String) -> FieldChange<String> {
    if o@ == n@ {
        FieldChange::Unchanged(n)
    } else {
        FieldChange::Changed(o, n)
    }
}

/// Annotation of a numeric field.
pub open spec fn usize_change(o: usize, n: usize) -> FieldChange<usize> {
    if o == n {
        FieldChange::Unchanged(n)
    } else {
        FieldChange::Changed(o, n)
    }
}

/// Annotation of an optional string field.
pub open spec fn opt_change(o: Option<String>, n: Option<String>) -> FieldChange<Option<String>> {
    if opt_view(o) == opt_view(n) {
        FieldChange::Unchanged(n)
    } else {
        FieldChange::Changed(o, n)
    }
}

/// The three-way ordering outcome for the speed field.
pub open spec fn speed_direction_of(o: int, n: int) -> SpeedDirection {
    if n > o {
        SpeedDirection::Increased
    } else if n < o {
        SpeedDirection::Decreased
    } else {
        SpeedDirection::Unchanged
    }
}

/// The changed entry for two records of the same logical client.
pub open spec fn change_of(o: ClientInfo, n: ClientInfo) -> ClientChange {
    ClientChange {
        mac: n.mac,
        hostname: string_change(o.hostname, n.hostname),
        index: usize_change(o.index, n.index),
        ipv4: opt_change(o.ipv4, n.ipv4),
        ipv6: opt_change(o.ipv6, n.ipv6),
        interface: string_change(o.interface, n.interface),
        interfaceid: usize_change(o.interfaceid, n.interfaceid),
        method: usize_change(o.method, n.method),
        lease_time: string_change(o.lease_time, n.lease_time),
        speed: usize_change(o.speed, n.speed),
        speed_direction: speed_direction_of(o.speed as int, n.speed as int),
    }
}

/// The delta entry for two records with the same MAC: unchanged when every
/// field matches, else a changed entry.
pub open spec fn entry_for(o: ClientInfo, n: ClientInfo) -> DeltaEntry {
    if o@ == n@ {
        DeltaEntry::Unchanged(n)
    } else {
        DeltaEntry::Changed(change_of(o, n))
    }
}

/// The merge-join walk over two MAC-sorted record sequences.
pub open spec fn merge_delta(a: Seq<ClientInfo>, b: Seq<ClientInfo>) -> Seq<DeltaEntry>
    decreases a.len() + b.len(),
{
    if a.len() == 0 && b.len() == 0 {
        Seq::empty()
    } else if a.len() == 0 {
        seq![DeltaEntry::Added(b[0])] + merge_delta(a, b.drop_first())
    } else if b.len() == 0 {
        seq![DeltaEntry::Removed(a[0])] + merge_delta(a.drop_first(), b)
    } else if mac_of(a[0]) == mac_of(b[0]) {
        seq![entry_for(a[0], b[0])] + merge_delta(a.drop_first(), b.drop_first())
    } else if lex_lt(mac_of(a[0]), mac_of(b[0])) {
        seq![DeltaEntry::Removed(a[0])] + merge_delta(a.drop_first(), b)
    } else {
        seq![DeltaEntry::Added(b[0])] + merge_delta(a, b.drop_first())
    }
}

/// Inserting one record into a MAC-sorted sequence, before any record whose
/// MAC does not sort strictly below it.
pub open spec fn insert_client(s: Seq<ClientInfo>, x: ClientInfo) -> Seq<ClientInfo>
    decreases s.len(),
{
    if s.len() == 0 {
        seq![x]
    } else if lex_lt(mac_of(s[0]), mac_of(x)) {
        seq![s[0]] + insert_client(s.drop_first(), x)
    } else {
        seq![x] + s
    }
}

/// Insertion sort of a record sequence by MAC.
pub open spec fn sort_clients(s: Seq<ClientInfo>) -> Seq<ClientInfo>
    decreases s.len(),
{
    if s.len() == 0 {
        Seq::empty()
    } else {
        insert_client(sort_clients(s.drop_first()), s[0])
    }
}

/// The whole client-list delta: sort both inputs by MAC, then merge-join.
pub open spec fn spec_diff(a: Seq<ClientInfo>, b: Seq<ClientInfo>) -> Seq<DeltaEntry> {
    merge_delta(sort_clients(a), sort_clients(b))
}

// ---------------------------------------------------------------------------
// Reading a delta back: extracted records and per-entry images.
// ---------------------------------------------------------------------------

/// The records carried by the removed entries of a delta, in order.
pub open spec fn removed_records(d: Seq<DeltaEntry>) -> Seq<ClientInfo>
    decreases d.len(),
{
    if d.len() == 0 {
        Seq::empty()
    } else {
        match d[0] {
            DeltaEntry::Removed(c) => seq![c] + removed_records(d.drop_first()),
            _ => removed_records(d.drop_first()),
        }
    }
}

/// The records carried by the added entries of a delta, in order.
pub open spec fn added_records(d: Seq<DeltaEntry>) -> Seq<ClientInfo>
    decreases d.len(),
{
    if d.len() == 0 {
        Seq::empty()
    } else {
        match d[0] {
            DeltaEntry::Added(c) => seq![c] + added_records(d.drop_first()),
            _ => added_records(d.drop_first()),
        }
    }
}

/// The MACs of the matched (changed or unchanged) entries of a delta.
pub open spec fn matched_macs(d: Seq<DeltaEntry>) -> Seq<Seq<char>>
    decreases d.len(),
{
    if d.len() == 0 {
        Seq::empty()
    } else {
        match d[0] {
            DeltaEntry::Changed(c) => seq![c.mac@] + matched_macs(d.drop_first()),
            DeltaEntry::Unchanged(c) => seq![mac_of(c)] + matched_macs(d.drop_first()),
            _ => matched_macs(d.drop_first()),
        }
    }
}

/// The image of one delta entry: the records it speaks of, as plain values,
/// with a changed entry reconstructed into its old and new record.
pub enum DeltaEntryView {
    Added(ClientInfoView),
    Removed(ClientInfoView),
    Changed(ClientInfoView, ClientInfoView),
    Unchanged(ClientInfoView),
}

/// Old and new image of an annotated string field.
pub open spec fn fc_string_views(f: FieldChange<String>) -> (Seq<char>, Seq<char>) {
    match f {
        FieldChange::Unchanged(v) => (v@, v@),
        FieldChange::Changed(o, n) => (o@, n@),
    }
}

/// Old and new image of an annotated numeric field.
pub open spec fn fc_usize_views(f: FieldChange<usize>) -> (int, int) {
    match f {
        FieldChange::Unchanged(v) => (v as int, v as int),
        FieldChange::Changed(o, n) => (o as int, n as int),
    }
}

/// Old and new image of an annotated optional string field.
pub open spec fn fc_opt_views(f: FieldChange<Option<String>>) -> (
    Option<Seq<char>>,
    Option<Seq<char>>,
) {
    match f {
        FieldChange::Unchanged(v) => (opt_view(v), opt_view(v)),
        FieldChange::Changed(o, n) => (opt_view(o), opt_view(n)),
    }
}

/// The old and new record image carried by a changed entry.
pub open spec fn change_views(c: ClientChange) -> (ClientInfoView, ClientInfoView) {
    (
        ClientInfoView {
            mac: c.mac@,
            hostname: fc_string_views(c.hostname).0,
            index: fc_usize_views(c.index).0,
            ipv4: fc_opt_views(c.ipv4).0,
            ipv6: fc_opt_views(c.ipv6).0,
            interface: fc_string_views(c.interface).0,
            interfaceid: fc_usize_views(c.interfaceid).0,
            method: fc_usize_views(c.method).0,
            lease_time: fc_string_views(c.lease_time).0,
            speed: fc_usize_views(c.speed).0,
        },
        ClientInfoView {
            mac: c.mac@,
            hostname: fc_string_views(c.hostname).1,
            index: fc_usize_views(c.index).1,
            ipv4: fc_opt_views(c.ipv4).1,
            ipv6: fc_opt_views(c.ipv6).1,
            interface: fc_string_views(c.interface).1,
            interfaceid: fc_usize_views(c.interfaceid).1,
            method: fc_usize_views(c.method).1,
            lease_time: fc_string_views(c.lease_time).1,
            speed: fc_usize_views(c.speed).1,
        },
    )
}

/// The image of one delta entry.
pub open spec fn entry_view(e: DeltaEntry) -> DeltaEntryView {
    match e {
        DeltaEntry::Added(c) => DeltaEntryView::Added(c@),
        DeltaEntry::Removed(c) => DeltaEntryView::Removed(c@),
        DeltaEntry::Unchanged(c) => DeltaEntryView::Unchanged(c@),
        DeltaEntry::Changed(ch) => DeltaEntryView::Changed(change_views(ch).0, change_views(ch).1),
    }
}

/// The images of all entries of a delta, in order.
pub open spec fn entry_views(d: Seq<DeltaEntry>) -> Seq<DeltaEntryView> {
    d.map_values(|e: DeltaEntry| entry_view(e))
}

/// The same entry image with the roles of old and new swapped.
pub open spec fn swap_view(v: DeltaEntryView) -> DeltaEntryView {
    match v {
        DeltaEntryView::Added(x) => DeltaEntryView::Removed(x),
        DeltaEntryView::Removed(x) => DeltaEntryView::Added(x),
        DeltaEntryView::Changed(o, n) => DeltaEntryView::Changed(n, o),
        DeltaEntryView::Unchanged(x) => DeltaEntryView::Unchanged(x),
    }
}

/// A changed entry built from two records of one logical client reconstructs
/// exactly those two records.
pub proof fn lemma_change_views(o: ClientInfo, n: ClientInfo)
    requires
        mac_of(o) == mac_of(n),
    ensures
        change_views(change_of(o, n)).0 == o@,
        change_views(change_of(o, n)).1 == n@,
{
    assert(change_views(change_of(o, n)).0 =~= o@);
    assert(change_views(change_of(o, n)).1 =~= n@);
}

// ---------------------------------------------------------------------------
// Executable delta construction.
// ---------------------------------------------------------------------------

fn make_string_change(o: &String, n: &String) -> (c: FieldChange<String>)
    ensures
        c == string_change(*o, *n),
{
    if *o == *n {
        FieldChange::Unchanged(n.clone())
    } else {
        FieldChange::Changed(o.clone(), n.clone())
    }
}

fn make_usize_change(o: usize, n: usize) -> (c: FieldChange<usize>)
    ensures
        c == usize_change(o, n),
{
    if o == n {
        FieldChange::Unchanged(n)
    } else {
        FieldChange::Changed(o, n)
    }
}

fn make_opt_change(o: &Option<String>, n: &Option<String>) -> (c: FieldChange<Option<String>>)
    ensures
        c == opt_change(*o, *n),
{
    if crate::types::opt_str_eq(o, n) {
        FieldChange::Unchanged(crate::types::clone_opt_string(n))
    } else {
        FieldChange::Changed(crate::types::clone_opt_string(o), crate::types::clone_opt_string(n))
    }
}

/// Builds the changed entry for two records of the same logical client.
///
/// The speed-direction outcome is consistent with numeric comparison of the
/// two speed fields.
pub fn make_change(o: &ClientInfo, n: &ClientInfo) -> (c: ClientChange)
    ensures
        c == change_of(*o, *n),
        n.speed > o.speed ==> c.speed_direction == SpeedDirection::Increased,
        n.speed < o.speed ==> c.speed_direction == SpeedDirection::Decreased,
        n.speed == o.speed ==> c.speed_direction == SpeedDirection::Unchanged
            && c.speed == FieldChange::Unchanged(n.speed),
{
    let speed_direction = if n.speed > o.speed {
        SpeedDirection::Increased
    } else if n.speed < o.speed {
        SpeedDirection::Decreased
    } else {
        SpeedDirection::Unchanged
    };
    ClientChange {
        mac: n.mac.clone(),
        hostname: make_string_change(&o.hostname, &n.hostname),
        index: make_usize_change(o.index, n.index),
        ipv4: make_opt_change(&o.ipv4, &n.ipv4),
        ipv6: make_opt_change(&o.ipv6, &n.ipv6),
        interface: make_string_change(&o.interface, &n.interface),
        interfaceid: make_usize_change(o.interfaceid, n.interfaceid),
        method: make_usize_change(o.method, n.method),
        lease_time: make_string_change(&o.lease_time, &n.lease_time),
        speed: make_usize_change(o.speed, n.speed),
        speed_direction,
    }
}

proof fn lemma_insert_client_at(s: Seq<ClientInfo>, x: ClientInfo, j: int)
    requires
        0 <= j <= s.len(),
        forall|k: int| 0 <= k < j ==> lex_lt(mac_of(s[k]), mac_of(x)),
        j < s.len() ==> !lex_lt(mac_of(s[j]), mac_of(x)),
    ensures
        insert_client(s, x) == s.insert(j, x),
    decreases s.len(),
{
    if j == 0 {
        if s.len() == 0 {
            assert(insert_client(s, x) =~= s.insert(0, x));
        } else {
            assert(insert_client(s, x) =~= s.insert(0, x));
        }
    } else {
        assert(lex_lt(mac_of(s[0]), mac_of(x)));
        lemma_insert_client_at(s.drop_first(), x, j - 1);
        assert(insert_client(s, x) =~= s.insert(j, x));
    }
}

/// Inserts one record into a vector kept sorted by MAC.
fn insert_sorted(out: &mut Vec<ClientInfo>, x: ClientInfo)
    ensures
        final(out)@ == insert_client(old(out)@, x),
{
    let mut j: usize = 0;
    loop
        invariant
            j <= out@.len(),
            out@ == old(out)@,
            forall|k: int| 0 <= k < j ==> lex_lt(mac_of(out@[k]), mac_of(x)),
        ensures
            j <= out@.len(),
            out@ == old(out)@,
            forall|k: int| 0 <= k < j ==> lex_lt(mac_of(out@[k]), mac_of(x)),
            j < out@.len() ==> !lex_lt(mac_of(out@[j as int]), mac_of(x)),
        decreases out@.len() - j,
    {
        if j == out.len() {
            break ;
        }
        if !str_lt(out[j].mac.as_str(), x.mac.as_str()) {
            break ;
        }
        j = j + 1;
    }
    let ghost s = out@;
    let ghost jj = j as int;
    out.insert(j, x);
    proof {
        lemma_insert_client_at(s, x, jj);
    }
}

/// Sorts the client records by MAC address, ascending; the input is not
/// mutated and records keep their values.
pub fn sort_by_mac(v: &Vec<ClientInfo>) -> (r: Vec<ClientInfo>)
    ensures
        r@ == sort_clients(v@),
{
    let mut out: Vec<ClientInfo> = Vec::new();
    let mut i: usize = v.len();
    proof {
        assert(v@.skip(v@.len() as int) =~= Seq::<ClientInfo>::empty());
    }
    while i > 0
        invariant
            i <= v@.len(),
            out@ == sort_clients(v@.skip(i as int)),
        decreases i,
    {
        i = i - 1;
        proof {
            assert(v@.skip(i as int).drop_first() =~= v@.skip(i as int + 1));
            assert(v@.skip(i as int)[0] == v@[i as int]);
        }
        insert_sorted(&mut out, v[i].duplicate());
    }
    proof {
        assert(v@.skip(0) =~= v@);
    }
    out
}

/// Merge-join walk over two MAC-sorted record vectors.
fn merge_deltas(a: &Vec<ClientInfo>, b: &Vec<ClientInfo>) -> (d: Vec<DeltaEntry>)
    ensures
        d@ == merge_delta(a@, b@),
{
    let mut out: Vec<DeltaEntry> = Vec::new();
    let mut i: usize = 0;
    let mut j: usize = 0;
    proof {
        assert(a@.skip(0) =~= a@);
        assert(b@.skip(0) =~= b@);
        assert(Seq::<DeltaEntry>::empty() + merge_delta(a@, b@) =~= merge_delta(a@, b@));
    }
    loop
        invariant
            i <= a@.len(),
            j <= b@.len(),
            merge_delta(a@, b@) == out@ + merge_delta(a@.skip(i as int), b@.skip(j as int)),
        ensures
            i == a@.len(),
            j == b@.len(),
            merge_delta(a@, b@) == out@ + merge_delta(a@.skip(i as int), b@.skip(j as int)),
        decreases a@.len() - i + b@.len() - j,
    {
        let ghost sa = a@.skip(i as int);
        let ghost sb = b@.skip(j as int);
        proof {
            assert(sa.len() == a@.len() - i);
            assert(sb.len() == b@.len() - j);
            if sa.len() > 0 {
                assert(sa[0] == a@[i as int]);
                assert(sa.drop_first() =~= a@.skip(i as int + 1));
            }
            if sb.len() > 0 {
                assert(sb[0] == b@[j as int]);
                assert(sb.drop_first() =~= b@.skip(j as int + 1));
            }
        }
        if i == a.len() && j == b.len() {
            break ;
        }
        let e: DeltaEntry;
        if i == a.len() {
            e = DeltaEntry::Added(b[j].duplicate());
            proof {
                assert(merge_delta(sa, sb) == seq![e] + merge_delta(sa, sb.drop_first()));
            }
            j = j + 1;
        } else if j == b.len() {
            e = DeltaEntry::Removed(a[i].duplicate());
            proof {
                assert(merge_delta(sa, sb) == seq![e] + merge_delta(sa.drop_first(), sb));
            }
            i = i + 1;
        } else if a[i].mac == b[j].mac {
            let o = a[i].duplicate();
            let n = b[j].duplicate();
            if o.same_as(&n) {
                e = DeltaEntry::Unchanged(n);
            } else {
                e = DeltaEntry::Changed(make_change(&o, &n));
            }
            proof {
                assert(e == entry_for(sa[0], sb[0]));
                assert(merge_delta(sa, sb) == seq![e] + merge_delta(
                    sa.drop_first(),
                    sb.drop_first(),
                ));
            }
            i = i + 1;
            j = j + 1;
        } else if str_lt(a[i].mac.as_str(), b[j].mac.as_str()) {
            e = DeltaEntry::Removed(a[i].duplicate());
            proof {
                assert(merge_delta(sa, sb) == seq![e] + merge_delta(sa.drop_first(), sb));
            }
            i = i + 1;
        } else {
            e = DeltaEntry::Added(b[j].duplicate());
            proof {
                assert(merge_delta(sa, sb) == seq![e] + merge_delta(sa, sb.drop_first()));
            }
            j = j + 1;
        }
        let ghost out_before = out@;
        out.push(e);
        proof {
            assert(out@ =~= out_before + seq![e]);
            assert(out_before + seq![e] + merge_delta(a@.skip(i as int), b@.skip(j as int))
                =~= out_before + (seq![e] + merge_delta(a@.skip(i as int), b@.skip(j as int))));
        }
    }
    proof {
        assert(merge_delta(a@.skip(i as int), b@.skip(j as int)) =~= Seq::<DeltaEntry>::empty());
        assert(out@ + Seq::<DeltaEntry>::empty() =~= out@);
    }
    out
}

/// Computes the ordered client-list delta between two snapshots of the
/// client table.
///
/// The result is exactly [`spec_diff`]: both inputs sorted by MAC, then
/// merge-joined into added/removed/changed/unchanged entries.
pub fn diff_client_lists(old_list: &Vec<ClientInfo>, new_list: &Vec<ClientInfo>) -> (d: Vec<
    DeltaEntry,
>)
    ensures
        d@ == spec_diff(old_list@, new_list@),
{
    let sa = sort_by_mac(old_list);
    let sb = sort_by_mac(new_list);
    merge_deltas(&sa, &sb)
}

/// Computes the full table delta: scalar field changes (customer label,
/// total-client count) plus the client-list delta.
pub fn diff_tables(old_table: &crate::types::LanUserTable, new_table: &crate::types::LanUserTable)
    -> (d: LanUserTableDiff)
    ensures
        d.customer == string_change(old_table.customer, new_table.customer),
        d.total_client == usize_change(old_table.total_client, new_table.total_client),
        d.clients@ == spec_diff(old_table.wifi.clientinfo@, new_table.wifi.clientinfo@),
{
    LanUserTableDiff {
        customer: make_string_change(&old_table.customer, &new_table.customer),
        total_client: make_usize_change(old_table.total_client, new_table.total_client),
        clients: diff_client_lists(&old_table.wifi.clientinfo, &new_table.wifi.clientinfo),
    }
}

} // verus!
