use connect_box::render::{
    CellStyle, Tui, HOSTNAME_POS, IPV4_POS, IPV6_POS, LEASE_POS, MAC_POS, SPEED_POS,
};
use connect_box::types::{ClientInfo, LanUserTable, Wifi};

fn client(mac: &str, hostname: &str, ipv4: Option<&str>, speed: usize) -> ClientInfo {
    ClientInfo {
        mac: mac.to_owned(),
        hostname: hostname.to_owned(),
        index: 0,
        ipv4: ipv4.map(|s| s.to_owned()),
        ipv6: None,
        interface: "foo".to_owned(),
        interfaceid: 0,
        method: 0,
        lease_time: "00:00:10:00".to_owned(),
        speed,
    }
}

fn table(clients: Vec<ClientInfo>) -> LanUserTable {
    LanUserTable {
        customer: "Customer".to_owned(),
        total_client: clients.len(),
        wifi: Wifi { clientinfo: clients },
    }
}

#[test]
fn plain_listing_plans_header_and_rows() {
    let mut tui = Tui::new(24, 120, false);
    tui.update(table(vec![client("B", "beta", None, 7), client("A", "alpha", Some("10.0.0.1"), 12345)]));

    // Header first.
    assert_eq!(tui.cells[0].row, 0);
    assert_eq!(tui.cells[0].col, MAC_POS);
    assert_eq!(tui.cells[0].text, "MAC");
    assert_eq!(tui.cells[0].style, CellStyle::Plain);
    assert_eq!(tui.cells[5].col, HOSTNAME_POS);
    assert_eq!(tui.cells[5].text, "Host");

    // Rows in MAC order: A before B, even though B was reported first.
    let row1: Vec<_> = tui.cells.iter().filter(|c| c.row == 1).collect();
    assert_eq!(row1[0].col, MAC_POS);
    assert_eq!(row1[0].text, "A");
    assert_eq!(row1[1].col, IPV4_POS);
    assert_eq!(row1[1].text, "10.0.0.1");
    // The five-digit speed starts exactly at the speed column.
    assert_eq!(row1[2].col, SPEED_POS);
    assert_eq!(row1[2].text, "12345");
    assert_eq!(row1[3].col, LEASE_POS);
    assert_eq!(row1[4].col, HOSTNAME_POS);
    assert_eq!(row1[4].text, "alpha");

    let row2: Vec<_> = tui.cells.iter().filter(|c| c.row == 2).collect();
    assert_eq!(row2[0].text, "B");
    // A one-digit speed is right-aligned within five columns.
    assert_eq!(row2[1].col, SPEED_POS + 4);
    assert_eq!(row2[1].text, "7");

    // The sorted clients are retained for the next update.
    assert_eq!(tui.clients[0].mac, "A");
    assert_eq!(tui.clients[1].mac, "B");
}

#[test]
fn colored_update_renders_the_delta() {
    let mut tui = Tui::new(24, 120, true);
    tui.update(table(vec![client("A", "alpha", None, 10), client("B", "beta", None, 2)]));
    // Second poll: A's speed drops, B leaves, C joins.
    tui.update(table(vec![client("A", "alpha", None, 3), client("C", "gamma", None, 9)]));

    // Colored header.
    assert_eq!(tui.cells[0].style, CellStyle::Header);
    assert_eq!(tui.cells[0].text, "MAC");

    // Row 1: A changed; its speed decreased.
    let row1: Vec<_> = tui.cells.iter().filter(|c| c.row == 1).collect();
    assert_eq!(row1[0].text, "A");
    assert_eq!(row1[0].style, CellStyle::Plain);
    let speed_cell = row1.iter().find(|c| c.text == "3").expect("speed cell");
    assert_eq!(speed_cell.style, CellStyle::Removed);
    assert_eq!(speed_cell.col, SPEED_POS + 4);
    // Unchanged fields are planned plain.
    let host_cell = row1.iter().find(|c| c.col == HOSTNAME_POS).unwrap();
    assert_eq!(host_cell.style, CellStyle::Plain);
    assert_eq!(host_cell.text, "alpha");

    // Row 2: B removed — the whole row in the removed style.
    let row2: Vec<_> = tui.cells.iter().filter(|c| c.row == 2).collect();
    assert_eq!(row2[0].text, "B");
    assert!(row2.iter().all(|c| c.style == CellStyle::Removed));

    // Row 3: C added — the whole row in the added style.
    let row3: Vec<_> = tui.cells.iter().filter(|c| c.row == 3).collect();
    assert_eq!(row3[0].text, "C");
    assert!(row3.iter().all(|c| c.style == CellStyle::Added));
}

#[test]
fn changed_values_are_highlighted() {
    let mut tui = Tui::new(24, 120, true);
    tui.update(table(vec![client("A", "alpha", Some("10.0.0.1"), 5)]));
    let mut renamed = client("A", "omega", None, 5);
    renamed.lease_time = "00:00:09:57".to_owned();
    tui.update(table(vec![renamed]));

    let row1: Vec<_> = tui.cells.iter().filter(|c| c.row == 1).collect();
    // The address disappeared: the old value is shown in the removed style.
    let ip_cell = row1.iter().find(|c| c.col == IPV4_POS).unwrap();
    assert_eq!(ip_cell.text, "10.0.0.1");
    assert_eq!(ip_cell.style, CellStyle::Removed);
    // Hostname and lease changed: highlighted, showing the new value.
    let host_cell = row1.iter().find(|c| c.col == HOSTNAME_POS).unwrap();
    assert_eq!(host_cell.text, "omega");
    assert_eq!(host_cell.style, CellStyle::Highlight);
    let lease_cell = row1.iter().find(|c| c.col == LEASE_POS).unwrap();
    assert_eq!(lease_cell.text, "00:00:09:57");
    assert_eq!(lease_cell.style, CellStyle::Highlight);
    // The unchanged speed stays plain.
    let speed_cell = row1.iter().find(|c| c.text == "5").unwrap();
    assert_eq!(speed_cell.style, CellStyle::Plain);
}

#[test]
fn cells_outside_the_screen_are_clipped() {
    // Two rows fit: the header and one client row.
    let mut tui = Tui::new(2, 40, false);
    tui.update(table(vec![client("A", "alpha", None, 1), client("B", "beta", None, 2)]));
    assert!(tui.cells.iter().all(|c| c.row < 2));
    assert!(tui.cells.iter().all(|c| c.col < 40));
    // Row 1 exists (client A), row 2 (client B) was clipped entirely.
    assert!(tui.cells.iter().any(|c| c.row == 1 && c.text == "A"));
    assert!(!tui.cells.iter().any(|c| c.text == "B"));
    // Columns at and beyond 40 (speed, lease, hostname) are clipped too.
    assert!(!tui.cells.iter().any(|c| c.text == "Speed"));
}

#[test]
fn an_ipv6_address_is_planned_at_its_column() {
    let mut tui = Tui::new(24, 120, false);
    let mut c = client("A", "alpha", None, 1);
    c.ipv6 = Some("2001:db8::1".to_owned());
    tui.update(table(vec![c]));
    let cell = tui.cells.iter().find(|c| c.col == IPV6_POS && c.row == 1).unwrap();
    assert_eq!(cell.text, "2001:db8::1");
}
