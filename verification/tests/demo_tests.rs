use connect_box::demo::DemoRouter;
use connect_box::diff::{diff_client_lists, DeltaEntry};
use connect_box::router::Router;

#[test]
fn demo_router_cycles_through_its_states() {
    let mut r = DemoRouter::new();
    let first = r.devices().expect("demo devices");
    assert_eq!(first.customer, "Customer");
    assert_eq!(first.total_client, 3);
    assert_eq!(first.wifi.clientinfo.len(), 3);
    assert_eq!(first.wifi.clientinfo[0].mac, "AB:CD:EF:01:23:45");
    assert_eq!(first.wifi.clientinfo[0].hostname, "laptop");
    assert_eq!(first.wifi.clientinfo[0].speed, 1);
    assert_eq!(first.wifi.clientinfo[1].hostname, "My Super Phone");
    assert_eq!(first.wifi.clientinfo[2].hostname, "Desktop");

    // Seven more polls exhaust the cycle; the ninth wraps around.
    for _ in 0..7 {
        r.devices().expect("demo devices");
    }
    let wrapped = r.devices().expect("demo devices");
    assert_eq!(wrapped, first);
}

#[test]
fn demo_states_change_between_polls() {
    let mut r = DemoRouter::new();
    let s0 = r.devices().unwrap();
    let s1 = r.devices().unwrap();
    let d = diff_client_lists(&s0.wifi.clientinfo, &s1.wifi.clientinfo);
    // Same three devices, all changed (leases tick, speeds move).
    assert_eq!(d.len(), 3);
    assert!(d.iter().all(|e| matches!(e, DeltaEntry::Changed(_))));
}

#[test]
fn demo_cycle_contains_a_departure_and_an_arrival() {
    let mut r = DemoRouter::new();
    let states: Vec<_> = (0..8).map(|_| r.devices().unwrap()).collect();
    // Between the fourth and fifth state the phone leaves.
    let d = diff_client_lists(&states[3].wifi.clientinfo, &states[4].wifi.clientinfo);
    assert!(d.iter().any(
        |e| matches!(e, DeltaEntry::Removed(c) if c.hostname == "My Super Phone")
    ));
    // Between the sixth and seventh a TV joins.
    let d2 = diff_client_lists(&states[5].wifi.clientinfo, &states[6].wifi.clientinfo);
    assert!(d2.iter().any(
        |e| matches!(e, DeltaEntry::Added(c) if c.hostname == "Connected TV")
    ));
}

#[test]
fn demo_temperature_is_fixed() {
    let mut r = DemoRouter::new();
    let t = r.temperature().expect("demo temperature");
    assert_eq!(t.tunner_temperature, 12);
    assert_eq!(t.temperature, 34);
    assert_eq!(t.oper_state, "foo");
    assert_eq!(t.wan_ipv6_addr.addresses, vec!["2001:2345:6789:abcd::1".to_owned()]);
}

#[test]
fn demo_logout_succeeds() {
    let mut r = DemoRouter::new();
    assert!(r.logout().is_ok());
}
