use connect_box::diff::{
    diff_client_lists, diff_tables, make_change, sort_by_mac, DeltaEntry, FieldChange,
    LanUserTableDiff, SpeedDirection,
};
use connect_box::types::{ClientInfo, LanUserTable, Wifi};

fn client(mac: &str, speed: usize) -> ClientInfo {
    ClientInfo {
        mac: mac.to_owned(),
        hostname: format!("host-{mac}"),
        index: 0,
        ipv4: Some("192.168.0.2".to_owned()),
        ipv6: None,
        interface: "foo".to_owned(),
        interfaceid: 0,
        method: 0,
        lease_time: "00:00:10:00".to_owned(),
        speed,
    }
}

fn table(customer: &str, clients: Vec<ClientInfo>) -> LanUserTable {
    LanUserTable {
        customer: customer.to_owned(),
        total_client: clients.len(),
        wifi: Wifi { clientinfo: clients },
    }
}

#[test]
fn scenario_one_changed_one_added() {
    // old = [{A, speed 10}], new = [{A, speed 20}, {B, speed 5}]
    let old_list = vec![client("A", 10)];
    let new_list = vec![client("A", 20), client("B", 5)];
    let d = diff_client_lists(&old_list, &new_list);
    assert_eq!(d.len(), 2);
    match &d[0] {
        DeltaEntry::Changed(ch) => {
            assert_eq!(ch.mac, "A");
            assert_eq!(ch.speed, FieldChange::Changed(10, 20));
            assert_eq!(ch.speed_direction, SpeedDirection::Increased);
            assert_eq!(ch.hostname, FieldChange::Unchanged("host-A".to_owned()));
        }
        other => panic!("expected a changed entry for A, got {other:?}"),
    }
    match &d[1] {
        DeltaEntry::Added(c) => {
            assert_eq!(c.mac, "B");
            assert_eq!(c.speed, 5);
        }
        other => panic!("expected an added entry for B, got {other:?}"),
    }
}

#[test]
fn idempotent_diff_is_all_unchanged() {
    let list = vec![client("A", 1), client("C", 2), client("B", 3)];
    let d = diff_client_lists(&list, &list);
    assert_eq!(d.len(), 3);
    for e in &d {
        assert!(matches!(e, DeltaEntry::Unchanged(_)), "unexpected entry {e:?}");
    }
    // Entries come out in MAC order.
    match (&d[0], &d[1], &d[2]) {
        (DeltaEntry::Unchanged(a), DeltaEntry::Unchanged(b), DeltaEntry::Unchanged(c)) => {
            assert_eq!(a.mac, "A");
            assert_eq!(b.mac, "B");
            assert_eq!(c.mac, "C");
        }
        _ => unreachable!(),
    }
}

#[test]
fn reordering_inputs_gives_identical_diff() {
    let old1 = vec![client("A", 1), client("B", 2), client("C", 3)];
    let old2 = vec![client("C", 3), client("A", 1), client("B", 2)];
    let new1 = vec![client("B", 9), client("D", 4)];
    let new2 = vec![client("D", 4), client("B", 9)];
    let d1 = diff_client_lists(&old1, &new1);
    let d2 = diff_client_lists(&old2, &new2);
    assert_eq!(d1, d2);
}

#[test]
fn removed_of_one_direction_equals_added_of_other() {
    let a = vec![client("A", 1), client("B", 2)];
    let b = vec![client("B", 2), client("C", 3)];
    let d_ab = diff_client_lists(&a, &b);
    let d_ba = diff_client_lists(&b, &a);
    let removed_ab: Vec<&ClientInfo> = d_ab
        .iter()
        .filter_map(|e| match e {
            DeltaEntry::Removed(c) => Some(c),
            _ => None,
        })
        .collect();
    let added_ba: Vec<&ClientInfo> = d_ba
        .iter()
        .filter_map(|e| match e {
            DeltaEntry::Added(c) => Some(c),
            _ => None,
        })
        .collect();
    assert_eq!(removed_ab, added_ba);
    assert_eq!(removed_ab.len(), 1);
    assert_eq!(removed_ab[0].mac, "A");
    let added_ab: Vec<&ClientInfo> = d_ab
        .iter()
        .filter_map(|e| match e {
            DeltaEntry::Added(c) => Some(c),
            _ => None,
        })
        .collect();
    let removed_ba: Vec<&ClientInfo> = d_ba
        .iter()
        .filter_map(|e| match e {
            DeltaEntry::Removed(c) => Some(c),
            _ => None,
        })
        .collect();
    assert_eq!(added_ab, removed_ba);
    assert_eq!(added_ab.len(), 1);
    assert_eq!(added_ab[0].mac, "C");
}

#[test]
fn speed_direction_follows_numeric_comparison() {
    let up = make_change(&client("A", 10), &client("A", 20));
    assert_eq!(up.speed_direction, SpeedDirection::Increased);
    assert_eq!(up.speed, FieldChange::Changed(10, 20));

    let down = make_change(&client("A", 20), &client("A", 10));
    assert_eq!(down.speed_direction, SpeedDirection::Decreased);
    assert_eq!(down.speed, FieldChange::Changed(20, 10));

    let flat = make_change(&client("A", 10), &client("A", 10));
    assert_eq!(flat.speed_direction, SpeedDirection::Unchanged);
    assert_eq!(flat.speed, FieldChange::Unchanged(10));
}

#[test]
fn changed_entry_annotates_exactly_the_changed_fields() {
    let mut old_c = client("A", 5);
    let mut new_c = client("A", 5);
    old_c.ipv4 = Some("192.168.0.7".to_owned());
    new_c.ipv4 = None;
    new_c.hostname = "renamed".to_owned();
    let ch = make_change(&old_c, &new_c);
    assert_eq!(
        ch.ipv4,
        FieldChange::Changed(Some("192.168.0.7".to_owned()), None)
    );
    assert_eq!(
        ch.hostname,
        FieldChange::Changed("host-A".to_owned(), "renamed".to_owned())
    );
    assert_eq!(ch.lease_time, FieldChange::Unchanged("00:00:10:00".to_owned()));
    assert_eq!(ch.interface, FieldChange::Unchanged("foo".to_owned()));
    assert_eq!(ch.speed, FieldChange::Unchanged(5));
    assert_eq!(ch.speed_direction, SpeedDirection::Unchanged);
}

#[test]
fn diff_is_keyed_by_identity_not_position() {
    // The same two clients swap positions between polls: nothing changed.
    let old_list = vec![client("A", 1), client("B", 2)];
    let new_list = vec![client("B", 2), client("A", 1)];
    let d = diff_client_lists(&old_list, &new_list);
    assert_eq!(d.len(), 2);
    for e in &d {
        assert!(matches!(e, DeltaEntry::Unchanged(_)), "unexpected entry {e:?}");
    }
}

#[test]
fn empty_lists_diff_to_nothing() {
    let none: Vec<ClientInfo> = Vec::new();
    let d = diff_client_lists(&none, &none);
    assert!(d.is_empty());

    let some = vec![client("A", 1)];
    let d2 = diff_client_lists(&none, &some);
    assert_eq!(d2.len(), 1);
    assert!(matches!(&d2[0], DeltaEntry::Added(c) if c.mac == "A"));
    let d3 = diff_client_lists(&some, &none);
    assert_eq!(d3.len(), 1);
    assert!(matches!(&d3[0], DeltaEntry::Removed(c) if c.mac == "A"));
}

#[test]
fn table_diff_reports_scalar_changes() {
    let t1 = table("Customer", vec![client("A", 1)]);
    let t2 = table("Other", vec![client("A", 1), client("B", 2)]);
    let d: LanUserTableDiff = diff_tables(&t1, &t2);
    assert_eq!(
        d.customer,
        FieldChange::Changed("Customer".to_owned(), "Other".to_owned())
    );
    assert_eq!(d.total_client, FieldChange::Changed(1, 2));
    assert_eq!(d.clients.len(), 2);
    assert!(matches!(&d.clients[0], DeltaEntry::Unchanged(c) if c.mac == "A"));
    assert!(matches!(&d.clients[1], DeltaEntry::Added(c) if c.mac == "B"));

    let d_same = diff_tables(&t1, &t1);
    assert_eq!(d_same.customer, FieldChange::Unchanged("Customer".to_owned()));
    assert_eq!(d_same.total_client, FieldChange::Unchanged(1));
}

#[test]
fn sort_by_mac_orders_by_raw_string_comparison() {
    let list = vec![client("b", 1), client("B", 2), client("A:9", 3), client("A:10", 4)];
    let sorted = sort_by_mac(&list);
    let macs: Vec<&str> = sorted.iter().map(|c| c.mac.as_str()).collect();
    // Raw code-point comparison: digits < upper case < lower case.
    assert_eq!(macs, vec!["A:10", "A:9", "B", "b"]);
}
