//! Snapshot data types: the LAN client table reported by the router and the
//! modem temperature reading.
//!
//! A snapshot is an immutable value; diffs always operate on two independent
//! snapshot values. Two client records are value-equal exactly when every
//! field matches, which [`ClientInfo::same_as`] decides against the record's
//! mathematical image [`ClientInfoView`].

use vstd::prelude::*;

verus! {

/// One router-reported device.
///
/// The MAC address is the unique hardware identifier: stable across polls and
/// the sole key of the diff algorithm.
#[derive(Debug, PartialEq)]
pub struct ClientInfo {
    pub mac: String,
    pub hostname: String,
    pub index: usize,
    pub ipv4: Option<String>,
    pub ipv6: Option<String>,
    pub interface: String,
    pub interfaceid: usize,
    pub method: usize,
    pub lease_time: String,
    pub speed: usize,
}

/// The mathematical image of a client record: every field as a plain value.
#[verifier::ext_equal]
pub struct ClientInfoView {
    pub mac: Seq<char>,
    pub hostname: Seq<char>,
    pub index: int,
    pub ipv4: Option<Seq<char>>,
    pub ipv6: Option<Seq<char>>,
    pub interface: Seq<char>,
    pub interfaceid: int,
    pub method: int,
    pub lease_time: Seq<char>,
    pub speed: int,
}

/// The image of an optional string field.
pub open spec fn opt_view(o: Option<String>) -> Option<Seq<char>> {
    match o {
        Option::None => Option::None,
        Option::Some(s) => Option::Some(s@),
    }
}

impl View for ClientInfo {
    type V = ClientInfoView;

    open spec fn view(&self) -> ClientInfoView {
        ClientInfoView {
            mac: self.mac@,
            hostname: self.hostname@,
            index: self.index as int,
            ipv4: opt_view(self.ipv4),
            ipv6: opt_view(self.ipv6),
            interface: self.interface@,
            interfaceid: self.interfaceid as int,
            method: self.method as int,
            lease_time: self.lease_time@,
            speed: self.speed as int,
        }
    }
}

/// Copies an optional string, preserving its value.
pub fn clone_opt_string(o: &Option<String>) -> (r: Option<String>)
    ensures
        r == *o,
{
    match o {
        Option::None => Option::None,
        Option::Some(s) => Option::Some(s.clone()),
    }
}

/// Decides equality of two optional strings by their images.
pub fn opt_str_eq(a: &Option<String>, b: &Option<String>) -> (r: bool)
    ensures
        r == (opt_view(*a) == opt_view(*b)),
{
    match (a, b) {
        (Option::None, Option::None) => true,
        (Option::Some(x), Option::Some(y)) => *x == *y,
        _ => false,
    }
}

impl ClientInfo {
    /// Copies the record, preserving its value.
    pub fn duplicate(&self) -> (r: ClientInfo)
        ensures
            r == *self,
    {
        ClientInfo {
            mac: self.mac.clone(),
            hostname: self.hostname.clone(),
            index: self.index,
            ipv4: clone_opt_string(&self.ipv4),
            ipv6: clone_opt_string(&self.ipv6),
            interface: self.interface.clone(),
            interfaceid: self.interfaceid,
            method: self.method,
            lease_time: self.lease_time.clone(),
            speed: self.speed,
        }
    }

    /// Value equality: true exactly when every field matches.
    pub fn same_as(&self, other: &ClientInfo) -> (r: bool)
        ensures
            r == (self@ == other@),
    {
        let r = self.mac == other.mac && self.hostname == other.hostname
            && self.index == other.index && opt_str_eq(&self.ipv4, &other.ipv4)
            && opt_str_eq(&self.ipv6, &other.ipv6) && self.interface == other.interface
            && self.interfaceid == other.interfaceid && self.method == other.method
            && self.lease_time == other.lease_time && self.speed == other.speed;
        proof {
            if r {
                assert(self@ =~= other@);
            }
        }
        r
    }
}

/// Copies a vector of client records, preserving every value.
pub fn clone_clients(v: &Vec<ClientInfo>) -> (r: Vec<ClientInfo>)
    ensures
        r@ == v@,
{
    let mut out: Vec<ClientInfo> = Vec::new();
    let mut k: usize = 0;
    while k < v.len()
        invariant
            k <= v@.len(),
            out@ == v@.subrange(0, k as int),
        decreases v@.len() - k,
    {
        out.push(v[k].duplicate());
        k = k + 1;
        proof {
            assert(out@ =~= v@.subrange(0, k as int));
        }
    }
    proof {
        assert(v@.subrange(0, v@.len() as int) =~= v@);
    }
    out
}

/// The LAN client table: an immutable point-in-time snapshot.
///
/// The client records keep the order in which the router reported them;
/// nothing here assumes they are sorted.
#[derive(Debug, PartialEq)]
pub struct LanUserTable {
    pub customer: String,
    pub total_client: usize,
    pub wifi: Wifi,
}

/// The wifi section of the LAN client table.
#[derive(Debug, PartialEq)]
pub struct Wifi {
    pub clientinfo: Vec<ClientInfo>,
}

impl LanUserTable {
    /// Copies the snapshot, preserving every field value.
    pub fn duplicate(&self) -> (r: LanUserTable)
        ensures
            r.customer == self.customer,
            r.total_client == self.total_client,
            r.wifi.clientinfo@ == self.wifi.clientinfo@,
    {
        LanUserTable {
            customer: self.customer.clone(),
            total_client: self.total_client,
            wifi: Wifi { clientinfo: clone_clients(&self.wifi.clientinfo) },
        }
    }
}

/// The modem/temperature reading.
#[derive(Debug, PartialEq)]
pub struct CmState {
    pub tunner_temperature: usize,
    pub temperature: usize,
    pub oper_state: String,
    pub wan_ipv6_addr: WanIpv6Addr,
}

/// The WAN IPv6 address list of a modem reading.
#[derive(Debug, PartialEq)]
pub struct WanIpv6Addr {
    pub addresses: Vec<String>,
}

} // verus!
