//! A demonstration router: a fixed cycle of LAN-table snapshots and a fixed
//! temperature reading, so the dashboard can be exercised without a device.

use vstd::prelude::*;

use crate::diff::{mac_of, unique_macs};
use crate::router::{table_matches, Router};
use crate::session::SessionError;
use crate::types::{ClientInfo, CmState, LanUserTable, WanIpv6Addr, Wifi};

verus! {

/// Builds one demo client record; the index, interface name and numeric
/// identifiers are the same for every demo client.
fn mk_client(
    mac: &str,
    hostname: &str,
    ipv4: Option<&str>,
    ipv6: Option<&str>,
    lease_time: &str,
    speed: usize,
) -> (r: ClientInfo)
    ensures
        r.mac@ == mac@,
        r.speed == speed,
{
    ClientInfo {
        mac: mac.to_owned(),
        hostname: hostname.to_owned(),
        index: 0,
        ipv4: match ipv4 {
            Option::Some(v) => Option::Some(v.to_owned()),
            Option::None => Option::None,
        },
        ipv6: match ipv6 {
            Option::Some(v) => Option::Some(v.to_owned()),
            Option::None => Option::None,
        },
        interface: "foo".to_owned(),
        interfaceid: 0,
        method: 0,
        lease_time: lease_time.to_owned(),
        speed,
    }
}

/// Wraps a client list into a table; the reported total is the list length.
fn mk_table(clients: Vec<ClientInfo>) -> (r: LanUserTable)
    ensures
        r.total_client == clients@.len(),
        r.wifi.clientinfo@ == clients@,
{
    let total_client = clients.len();
    LanUserTable { customer: "Customer".to_owned(), total_client, wifi: Wifi { clientinfo: clients } }
}

/// A snapshot source that cycles through a fixed list of states.
pub struct DemoRouter {
    states: Vec<LanUserTable>,
    i: usize,
}

impl DemoRouter {
    #[verifier::type_invariant]
    spec fn wf(&self) -> bool {
        self.states@.len() > 0 && (self.i as int) < self.states@.len()
    }

    /// The cycle of snapshots.
    pub closed spec fn states(&self) -> Seq<LanUserTable> {
        self.states@
    }

    /// The index of the snapshot the next `devices` call returns.
    pub closed spec fn cursor(&self) -> int {
        self.i as int
    }

    /// Builds the demonstration data: eight snapshots of a small household —
    /// leases ticking down, speeds moving, addresses coming and going, one
    /// device leaving and another joining.
    ///
    /// Every snapshot is well formed: the reported total matches the list,
    /// and no MAC repeats within a snapshot.
    pub fn new() -> (r: DemoRouter)
        ensures
            r.cursor() == 0,
            r.states().len() == 8,
            forall|k: int|
                0 <= k < r.states().len() ==> (#[trigger] r.states()[k]).total_client
                    == r.states()[k].wifi.clientinfo@.len() && unique_macs(
                    r.states()[k].wifi.clientinfo@,
                ),
    {
        let mut states: Vec<LanUserTable> = Vec::new();

        let s0 = mk_table(
            vec![
                mk_client("AB:CD:EF:01:23:45", "laptop", Some("192.168.0.1"), None, "00:00:47:57", 1),
                mk_client(
                    "CD:EF:01:23:45:AB",
                    "My Super Phone",
                    Some("192.168.0.42"),
                    Some("2001:2345:6789:abcd:ef01:1010:3564:2"),
                    "00:00:38:18",
                    123,
                ),
                mk_client(
                    "EF:01:23:45:AB:CD",
                    "Desktop",
                    None,
                    Some("2001:2345:6789:abcd:ef01:1010:3564:5"),
                    "00:00:52:45",
                    42,
                ),
            ],
        );
        proof {
            lemma_demo_macs_distinct();
            assert(unique_macs(s0.wifi.clientinfo@));
        }
        states.push(s0);

        let s1 = mk_table(
            vec![
                mk_client("AB:CD:EF:01:23:45", "laptop", Some("192.168.0.1"), None, "00:00:47:54", 1),
                mk_client(
                    "CD:EF:01:23:45:AB",
                    "My Super Phone",
                    Some("192.168.0.42"),
                    Some("2001:2345:6789:abcd:ef01:1010:3564:2"),
                    "00:00:38:15",
                    234,
                ),
                mk_client(
                    "EF:01:23:45:AB:CD",
                    "Desktop",
                    None,
                    Some("2001:2345:6789:abcd:ef01:1010:3564:5"),
                    "00:00:52:42",
                    23,
                ),
            ],
        );
        proof {
            assert(unique_macs(s1.wifi.clientinfo@));
        }
        states.push(s1);

        let s2 = mk_table(
            vec![
                mk_client(
                    "AB:CD:EF:01:23:45",
                    "laptop",
                    Some("192.168.0.1"),
                    Some("2001:2345:6789:abcd:ef01:1010:3564:888"),
                    "00:00:47:51",
                    17,
                ),
                mk_client(
                    "CD:EF:01:23:45:AB",
                    "My Super Phone",
                    None,
                    Some("2001:2345:6789:abcd:ef01:1010:3564:2"),
                    "00:00:38:12",
                    234,
                ),
                mk_client(
                    "EF:01:23:45:AB:CD",
                    "Desktop",
                    None,
                    Some("2001:2345:6789:abcd:ef01:1010:3564:5"),
                    "00:00:52:39",
                    67,
                ),
            ],
        );
        proof {
            assert(unique_macs(s2.wifi.clientinfo@));
        }
        states.push(s2);

        let s3 = mk_table(
            vec![
                mk_client(
                    "AB:CD:EF:01:23:45",
                    "laptop",
                    Some("192.168.0.1"),
                    Some("2001:2345:6789:abcd:ef01:1010:3564:888"),
                    "00:00:47:48",
                    17,
                ),
                mk_client(
                    "CD:EF:01:23:45:AB",
                    "My Super Phone",
                    None,
                    Some("2001:2345:6789:abcd:ef01:1010:3564:2"),
                    "00:00:38:09",
                    234,
                ),
                mk_client(
                    "EF:01:23:45:AB:CD",
                    "Desktop",
                    None,
                    Some("2001:2345:6789:abcd:ef01:1010:3564:5"),
                    "00:00:52:36",
                    67,
                ),
            ],
        );
        proof {
            assert(unique_macs(s3.wifi.clientinfo@));
        }
        states.push(s3);

        let s4 = mk_table(
            vec![
                mk_client(
                    "AB:CD:EF:01:23:45",
                    "laptop",
                    Some("192.168.0.1"),
                    Some("2001:2345:6789:abcd:ef01:1010:3564:888"),
                    "00:00:47:45",
                    17,
                ),
                mk_client(
                    "EF:01:23:45:AB:CD",
                    "Desktop",
                    None,
                    Some("2001:2345:6789:abcd:ef01:1010:3564:5"),
                    "00:00:52:33",
                    128,
                ),
            ],
        );
        proof {
            assert(unique_macs(s4.wifi.clientinfo@));
        }
        states.push(s4);

        let s5 = mk_table(
            vec![
                mk_client(
                    "AB:CD:EF:01:23:45",
                    "laptop",
                    Some("192.168.0.1"),
                    Some("2001:2345:6789:abcd:ef01:1010:3564:888"),
                    "00:00:47:42",
                    17,
                ),
                mk_client(
                    "EF:01:23:45:AB:CD",
                    "Desktop",
                    None,
                    Some("2001:2345:6789:abcd:ef01:1010:3564:5"),
                    "00:00:52:30",
                    128,
                ),
            ],
        );
        proof {
            assert(unique_macs(s5.wifi.clientinfo@));
        }
        states.push(s5);

        let s6 = mk_table(
            vec![
                mk_client(
                    "AB:CD:EF:01:23:45",
                    "laptop",
                    Some("192.168.0.1"),
                    Some("2001:2345:6789:abcd:ef01:1010:3564:888"),
                    "00:00:47:39",
                    17,
                ),
                mk_client(
                    "EF:01:23:45:AB:CD",
                    "Desktop",
                    None,
                    Some("2001:2345:6789:abcd:ef01:1010:3564:5"),
                    "00:00:52:27",
                    128,
                ),
                mk_client(
                    "01:23:45:AB:CD:EF",
                    "Connected TV",
                    Some("192.168.0.123"),
                    None,
                    "00:00:59:59",
                    123,
                ),
            ],
        );
        proof {
            assert(unique_macs(s6.wifi.clientinfo@));
        }
        states.push(s6);

        let s7 = mk_table(
            vec![
                mk_client(
                    "AB:CD:EF:01:23:45",
                    "laptop",
                    Some("192.168.0.1"),
                    Some("2001:2345:6789:abcd:ef01:1010:3564:888"),
                    "00:00:47:36",
                    17,
                ),
                mk_client(
                    "EF:01:23:45:AB:CD",
                    "Desktop",
                    None,
                    Some("2001:2345:6789:abcd:ef01:1010:3564:5"),
                    "00:00:52:24",
                    128,
                ),
                mk_client(
                    "01:23:45:AB:CD:EF",
                    "Connected TV",
                    Some("192.168.0.123"),
                    None,
                    "00:00:59:56",
                    123,
                ),
            ],
        );
        proof {
            assert(unique_macs(s7.wifi.clientinfo@));
        }
        states.push(s7);

        DemoRouter { states, i: 0 }
    }
}

/// The four demo MAC addresses are pairwise distinct.
proof fn lemma_demo_macs_distinct()
    ensures
        "AB:CD:EF:01:23:45"@ != "CD:EF:01:23:45:AB"@,
        "AB:CD:EF:01:23:45"@ != "EF:01:23:45:AB:CD"@,
        "AB:CD:EF:01:23:45"@ != "01:23:45:AB:CD:EF"@,
        "CD:EF:01:23:45:AB"@ != "EF:01:23:45:AB:CD"@,
        "CD:EF:01:23:45:AB"@ != "01:23:45:AB:CD:EF"@,
        "EF:01:23:45:AB:CD"@ != "01:23:45:AB:CD:EF"@,
{
    reveal_strlit("AB:CD:EF:01:23:45");
    reveal_strlit("CD:EF:01:23:45:AB");
    reveal_strlit("EF:01:23:45:AB:CD");
    reveal_strlit("01:23:45:AB:CD:EF");
    assert("AB:CD:EF:01:23:45"@[0] == 'A');
    assert("CD:EF:01:23:45:AB"@[0] == 'C');
    assert("EF:01:23:45:AB:CD"@[0] == 'E');
    assert("01:23:45:AB:CD:EF"@[0] == '0');
}

impl Router for DemoRouter {
    /// `devices` returns the snapshot under the cursor and advances the
    /// cursor cyclically; the states themselves never change.
    open spec fn devices_ens(&self, post: &Self, r: Result<LanUserTable, SessionError>) -> bool {
        &&& post.states() == self.states()
        &&& post.cursor() == (self.cursor() + 1) % (self.states().len() as int)
        &&& match r {
            Result::Ok(t) => table_matches(t, self.states()[self.cursor()]),
            Result::Err(_) => false,
        }
    }

    /// `temperature` returns the one fixed reading and changes nothing.
    open spec fn temperature_ens(&self, post: &Self, r: Result<CmState, SessionError>) -> bool {
        &&& post.states() == self.states()
        &&& post.cursor() == self.cursor()
        &&& match r {
            Result::Ok(t) => t.tunner_temperature == 12 && t.temperature == 34 && t.oper_state@
                == "foo"@ && t.wan_ipv6_addr.addresses@.len() == 1
                && t.wan_ipv6_addr.addresses@[0]@ == "2001:2345:6789:abcd::1"@,
            Result::Err(_) => false,
        }
    }

    /// `logout` succeeds and changes nothing.
    open spec fn logout_ens(&self, post: &Self, r: Result<(), SessionError>) -> bool {
        &&& post.states() == self.states()
        &&& post.cursor() == self.cursor()
        &&& r is Ok
    }

    fn devices(&mut self) -> (r: Result<LanUserTable, SessionError>) {
        proof {
            use_type_invariant(&*self);
        }
        let state = self.states[self.i].duplicate();
        let n = self.states.len();
        proof {
            assert(self.i < n);
        }
        self.i = (self.i + 1) % n;
        Result::Ok(state)
    }

    fn temperature(&mut self) -> (r: Result<CmState, SessionError>) {
        proof {
            use_type_invariant(&*self);
        }
        Result::Ok(
            CmState {
                tunner_temperature: 12,
                temperature: 34,
                oper_state: "foo".to_owned(),
                wan_ipv6_addr: WanIpv6Addr { addresses: vec!["2001:2345:6789:abcd::1".to_owned()] },
            },
        )
    }

    fn logout(&mut self) -> (r: Result<(), SessionError>) {
        Result::Ok(())
    }
}

} // verus!
