//! Terminal cell planning for the live dashboard.
//!
//! The dashboard's decisions — which text goes to which row and column, in
//! which style, and what is clipped because it falls outside the screen —
//! are computed here as a list of [`ScreenCell`]s. Drawing the cells
//! (cursor positioning, color-pair setup, attribute handling) is left to the
//! terminal layer, which consumes the list unchanged.
//!
//! The colored view renders the delta produced by the diff engine; the
//! plain view lists the clients. Both consume the one shared diff result and
//! duplicate none of the merge logic.

use vstd::prelude::*;

use crate::diff::{
    diff_client_lists, sort_clients, spec_diff, ClientChange, DeltaEntry, FieldChange,
    SpeedDirection,
};
use crate::text::{dec_str, usize_to_string};
use crate::types::{opt_view, ClientInfo, LanUserTable};

verus! {

/// Column of the MAC field.
pub const MAC_POS: usize = 0;

/// Column of the IPv4 field.
pub const IPV4_POS: usize = 19;

/// Column of the IPv6 field.
pub const IPV6_POS: usize = 38;

/// Column of the (right-aligned) speed field.
pub const SPEED_POS: usize = 79;

/// Column of the lease-time field.
pub const LEASE_POS: usize = 86;

/// Column of the hostname field.
pub const HOSTNAME_POS: usize = 99;

/// Width the speed field is right-aligned within.
pub const SPEED_WIDTH: usize = 5;

/// How one cell is to be drawn.
#[derive(Clone, Copy, Debug, PartialEq, Eq, Structural)]
pub enum CellStyle {
    /// Ordinary text.
    Plain,
    /// The header bar.
    Header,
    /// An added row or value.
    Added,
    /// A removed row or value.
    Removed,
    /// A changed value.
    Highlight,
}

/// One planned cell: text at a row and column, in a style.
#[derive(Debug, PartialEq)]
pub struct ScreenCell {
    pub row: usize,
    pub col: usize,
    pub style: CellStyle,
    pub text: String,
}

/// The image of a planned cell.
pub struct CellView {
    pub row: int,
    pub col: int,
    pub style: CellStyle,
    pub text: Seq<char>,
}

/// The image of one cell.
pub open spec fn cell_view(c: ScreenCell) -> CellView {
    CellView { row: c.row as int, col: c.col as int, style: c.style, text: c.text@ }
}

/// The images of a cell list.
pub open spec fn cells_view(s: Seq<ScreenCell>) -> Seq<CellView> {
    s.map_values(|c: ScreenCell| cell_view(c))
}

/// One cell, clipped against the screen: nothing is planned for a position
/// off the bottom or off the right edge.
pub open spec fn clipv(
    size_y: int,
    size_x: int,
    y: int,
    x: int,
    st: CellStyle,
    t: Seq<char>,
) -> Seq<CellView> {
    if y < size_y && x < size_x {
        seq![CellView { row: y, col: x, style: st, text: t }]
    } else {
        Seq::empty()
    }
}

/// Style of a value that may have changed: changed values are highlighted.
pub open spec fn diff_style(o: Seq<char>, n: Seq<char>) -> CellStyle {
    if o == n {
        CellStyle::Plain
    } else {
        CellStyle::Highlight
    }
}

/// Style of the speed value, from the diff engine's three-way ordering
/// outcome.
pub open spec fn cmp_style(d: SpeedDirection) -> CellStyle {
    match d {
        SpeedDirection::Increased => CellStyle::Added,
        SpeedDirection::Decreased => CellStyle::Removed,
        SpeedDirection::Unchanged => CellStyle::Plain,
    }
}

/// Cells of an optional value that may have changed: a value present on
/// both sides is shown highlighted when changed; one that disappeared is
/// shown in the removed style; one that appeared in the added style.
pub open spec fn opt_diff_cells(
    size_y: int,
    size_x: int,
    y: int,
    x: int,
    o: Option<Seq<char>>,
    n: Option<Seq<char>>,
) -> Seq<CellView> {
    match (o, n) {
        (Option::Some(ov), Option::Some(nv)) => clipv(size_y, size_x, y, x, diff_style(ov, nv), nv),
        (Option::Some(ov), Option::None) => clipv(size_y, size_x, y, x, CellStyle::Removed, ov),
        (Option::None, Option::Some(nv)) => clipv(size_y, size_x, y, x, CellStyle::Added, nv),
        (Option::None, Option::None) => Seq::empty(),
    }
}

/// The column at which the right-aligned speed text starts.
pub open spec fn speed_col(speed: usize) -> int {
    if dec_str(speed as nat).len() < SPEED_WIDTH {
        SPEED_POS + SPEED_WIDTH - dec_str(speed as nat).len()
    } else {
        SPEED_POS as int
    }
}

/// The six header cells.
pub open spec fn header_cells(size_y: int, size_x: int, st: CellStyle) -> Seq<CellView> {
    clipv(size_y, size_x, 0, MAC_POS as int, st, "MAC"@) + clipv(
        size_y,
        size_x,
        0,
        IPV4_POS as int,
        st,
        "IPv4"@,
    ) + clipv(size_y, size_x, 0, IPV6_POS as int, st, "IPv6"@) + clipv(
        size_y,
        size_x,
        0,
        SPEED_POS as int,
        st,
        "Speed"@,
    ) + clipv(size_y, size_x, 0, LEASE_POS as int, st, "Lease"@) + clipv(
        size_y,
        size_x,
        0,
        HOSTNAME_POS as int,
        st,
        "Host"@,
    )
}

/// One client row, uniformly in one style (plain listing, added row, or
/// removed row). Absent optional fields plan no cell.
#[verifier::opaque]
pub open spec fn client_row_cells(
    size_y: int,
    size_x: int,
    y: int,
    st: CellStyle,
    c: ClientInfo,
) -> Seq<CellView> {
    clipv(size_y, size_x, y, MAC_POS as int, st, c.mac@) + (match c.ipv4 {
        Option::Some(v) => clipv(size_y, size_x, y, IPV4_POS as int, st, v@),
        Option::None => Seq::empty(),
    }) + (match c.ipv6 {
        Option::Some(v) => clipv(size_y, size_x, y, IPV6_POS as int, st, v@),
        Option::None => Seq::empty(),
    }) + clipv(size_y, size_x, y, speed_col(c.speed), st, dec_str(c.speed as nat)) + clipv(
        size_y,
        size_x,
        y,
        LEASE_POS as int,
        st,
        c.lease_time@,
    ) + clipv(size_y, size_x, y, HOSTNAME_POS as int, st, c.hostname@)
}

/// One changed-client row: the MAC plain, each field highlighted exactly
/// when it changed, and the speed styled by the direction of its change.
#[verifier::opaque]
pub open spec fn change_row_cells(size_y: int, size_x: int, y: int, ch: ClientChange) -> Seq<
    CellView,
> {
    let (ov4, nv4) = crate::diff::fc_opt_views(ch.ipv4);
    let (ov6, nv6) = crate::diff::fc_opt_views(ch.ipv6);
    let (ol, nl) = crate::diff::fc_string_views(ch.lease_time);
    let (oh, nh) = crate::diff::fc_string_views(ch.hostname);
    let (_, nspeed) = crate::diff::fc_usize_views(ch.speed);
    clipv(size_y, size_x, y, MAC_POS as int, CellStyle::Plain, ch.mac@) + opt_diff_cells(
        size_y,
        size_x,
        y,
        IPV4_POS as int,
        ov4,
        nv4,
    ) + opt_diff_cells(size_y, size_x, y, IPV6_POS as int, ov6, nv6) + clipv(
        size_y,
        size_x,
        y,
        speed_col(nspeed as usize),
        cmp_style(ch.speed_direction),
        dec_str(nspeed as nat),
    ) + clipv(size_y, size_x, y, LEASE_POS as int, diff_style(ol, nl), nl) + clipv(
        size_y,
        size_x,
        y,
        HOSTNAME_POS as int,
        diff_style(oh, nh),
        nh,
    )
}

/// The row planned for one delta entry.
pub open spec fn entry_row_cells(size_y: int, size_x: int, y: int, e: DeltaEntry) -> Seq<
    CellView,
> {
    match e {
        DeltaEntry::Added(c) => client_row_cells(size_y, size_x, y, CellStyle::Added, c),
        DeltaEntry::Removed(c) => client_row_cells(size_y, size_x, y, CellStyle::Removed, c),
        DeltaEntry::Changed(ch) => change_row_cells(size_y, size_x, y, ch),
        DeltaEntry::Unchanged(c) => client_row_cells(size_y, size_x, y, CellStyle::Plain, c),
    }
}

/// The rows planned for a whole delta, one entry per row, starting at `y`.
pub open spec fn delta_rows_cells(size_y: int, size_x: int, y: int, es: Seq<DeltaEntry>) -> Seq<
    CellView,
>
    decreases es.len(),
{
    if es.len() == 0 {
        Seq::empty()
    } else {
        entry_row_cells(size_y, size_x, y, es[0]) + delta_rows_cells(
            size_y,
            size_x,
            y + 1,
            es.drop_first(),
        )
    }
}

/// The rows of a plain client listing, one client per row, starting at `y`.
pub open spec fn listing_rows_cells(size_y: int, size_x: int, y: int, cs: Seq<ClientInfo>) -> Seq<
    CellView,
>
    decreases cs.len(),
{
    if cs.len() == 0 {
        Seq::empty()
    } else {
        client_row_cells(size_y, size_x, y, CellStyle::Plain, cs[0]) + listing_rows_cells(
            size_y,
            size_x,
            y + 1,
            cs.drop_first(),
        )
    }
}

/// The dashboard planner: screen size, color capability, the previous
/// snapshot's sorted client list, and the planned cells of the last update.
pub struct Tui {
    pub size_y: usize,
    pub size_x: usize,
    pub has_colors: bool,
    pub clients: Vec<ClientInfo>,
    pub cells: Vec<ScreenCell>,
}

impl Tui {
    /// A fresh planner for a screen of the given size.
    pub fn new(size_y: usize, size_x: usize, has_colors: bool) -> (t: Tui)
        ensures
            t.size_y == size_y,
            t.size_x == size_x,
            t.has_colors == has_colors,
            t.clients@ == Seq::<ClientInfo>::empty(),
            t.cells@ == Seq::<ScreenCell>::empty(),
    {
        Tui { size_y, size_x, has_colors, clients: Vec::new(), cells: Vec::new() }
    }

    /// Plans one cell, clipped against the screen.
    fn addstr_at_style(&mut self, y: usize, x: usize, st: CellStyle, text: String)
        ensures
            cells_view(final(self).cells@) == cells_view(old(self).cells@) + clipv(
                old(self).size_y as int,
                old(self).size_x as int,
                y as int,
                x as int,
                st,
                text@,
            ),
            final(self).size_y == old(self).size_y,
            final(self).size_x == old(self).size_x,
            final(self).has_colors == old(self).has_colors,
            final(self).clients == old(self).clients,
    {
        let ghost before = self.cells@;
        if y < self.size_y && x < self.size_x {
            let cell = ScreenCell { row: y, col: x, style: st, text };
            self.cells.push(cell);
            proof {
                assert(self.cells@ =~= before.push(self.cells@[before.len() as int]));
                assert(cells_view(self.cells@) =~= cells_view(before) + clipv(
                    self.size_y as int,
                    self.size_x as int,
                    y as int,
                    x as int,
                    st,
                    text@,
                ));
            }
        } else {
            proof {
                assert(cells_view(self.cells@) =~= cells_view(before) + clipv(
                    self.size_y as int,
                    self.size_x as int,
                    y as int,
                    x as int,
                    st,
                    text@,
                ));
            }
        }
    }

    /// Plans plain text at a position.
    fn addstr_at(&mut self, y: usize, x: usize, text: String)
        ensures
            cells_view(final(self).cells@) == cells_view(old(self).cells@) + clipv(
                old(self).size_y as int,
                old(self).size_x as int,
                y as int,
                x as int,
                CellStyle::Plain,
                text@,
            ),
            final(self).size_y == old(self).size_y,
            final(self).size_x == old(self).size_x,
            final(self).has_colors == old(self).has_colors,
            final(self).clients == old(self).clients,
    {
        self.addstr_at_style(y, x, CellStyle::Plain, text);
    }

    /// Plans a value that may have changed: highlighted exactly when the new
    /// text differs from the old.
    pub fn addstr_at_diff(&mut self, y: usize, x: usize, old_text: &String, new_text: &String)
        ensures
            cells_view(final(self).cells@) == cells_view(old(self).cells@) + clipv(
                old(self).size_y as int,
                old(self).size_x as int,
                y as int,
                x as int,
                diff_style(old_text@, new_text@),
                new_text@,
            ),
            final(self).size_y == old(self).size_y,
            final(self).size_x == old(self).size_x,
            final(self).has_colors == old(self).has_colors,
            final(self).clients == old(self).clients,
    {
        if *new_text == *old_text {
            self.addstr_at_style(y, x, CellStyle::Plain, new_text.clone());
        } else {
            self.addstr_at_style(y, x, CellStyle::Highlight, new_text.clone());
        }
    }

    /// Plans the speed value, styled by the diff engine's three-way ordering
    /// outcome.
    pub fn addstr_at_cmp(&mut self, y: usize, x: usize, text: String, cmp: SpeedDirection)
        ensures
            cells_view(final(self).cells@) == cells_view(old(self).cells@) + clipv(
                old(self).size_y as int,
                old(self).size_x as int,
                y as int,
                x as int,
                cmp_style(cmp),
                text@,
            ),
            final(self).size_y == old(self).size_y,
            final(self).size_x == old(self).size_x,
            final(self).has_colors == old(self).has_colors,
            final(self).clients == old(self).clients,
    {
        match cmp {
            SpeedDirection::Increased => self.addstr_at_style(y, x, CellStyle::Added, text),
            SpeedDirection::Decreased => self.addstr_at_style(y, x, CellStyle::Removed, text),
            SpeedDirection::Unchanged => self.addstr_at_style(y, x, CellStyle::Plain, text),
        }
    }

    /// Plans an optional value that may have changed, appeared, or
    /// disappeared.
    pub fn addstr_at_option_diff(
        &mut self,
        y: usize,
        x: usize,
        old_val: &Option<String>,
        new_val: &Option<String>,
    )
        ensures
            cells_view(final(self).cells@) == cells_view(old(self).cells@) + opt_diff_cells(
                old(self).size_y as int,
                old(self).size_x as int,
                y as int,
                x as int,
                opt_view(*old_val),
                opt_view(*new_val),
            ),
            final(self).size_y == old(self).size_y,
            final(self).size_x == old(self).size_x,
            final(self).has_colors == old(self).has_colors,
            final(self).clients == old(self).clients,
    {
        match (old_val, new_val) {
            (Option::Some(o), Option::Some(n)) => self.addstr_at_diff(y, x, o, n),
            (Option::Some(o), Option::None) => self.addstr_at_style(
                y,
                x,
                CellStyle::Removed,
                o.clone(),
            ),
            (Option::None, Option::Some(n)) => self.addstr_at_style(
                y,
                x,
                CellStyle::Added,
                n.clone(),
            ),
            (Option::None, Option::None) => {
                proof {
                    assert(cells_view(self.cells@) =~= cells_view(self.cells@) + Seq::<
                        CellView,
                    >::empty());
                }
            },
        }
    }

    /// Plans the header row.
    pub fn print_header(&mut self)
        ensures
            cells_view(final(self).cells@) == cells_view(old(self).cells@) + header_cells(
                old(self).size_y as int,
                old(self).size_x as int,
                CellStyle::Plain,
            ),
            final(self).size_y == old(self).size_y,
            final(self).size_x == old(self).size_x,
            final(self).has_colors == old(self).has_colors,
            final(self).clients == old(self).clients,
    {
        self.print_header_style(CellStyle::Plain);
    }

    /// Plans the header row in the header-bar style; the terminal layer
    /// draws the bar itself across the screen width.
    pub fn print_header_colored(&mut self)
        ensures
            cells_view(final(self).cells@) == cells_view(old(self).cells@) + header_cells(
                old(self).size_y as int,
                old(self).size_x as int,
                CellStyle::Header,
            ),
            final(self).size_y == old(self).size_y,
            final(self).size_x == old(self).size_x,
            final(self).has_colors == old(self).has_colors,
            final(self).clients == old(self).clients,
    {
        self.print_header_style(CellStyle::Header);
    }

    fn print_header_style(&mut self, st: CellStyle)
        ensures
            cells_view(final(self).cells@) == cells_view(old(self).cells@) + header_cells(
                old(self).size_y as int,
                old(self).size_x as int,
                st,
            ),
            final(self).size_y == old(self).size_y,
            final(self).size_x == old(self).size_x,
            final(self).has_colors == old(self).has_colors,
            final(self).clients == old(self).clients,
    {
        self.addstr_at_style(0, MAC_POS, st, String::from_str("MAC"));
        self.addstr_at_style(0, IPV4_POS, st, String::from_str("IPv4"));
        self.addstr_at_style(0, IPV6_POS, st, String::from_str("IPv6"));
        self.addstr_at_style(0, SPEED_POS, st, String::from_str("Speed"));
        self.addstr_at_style(0, LEASE_POS, st, String::from_str("Lease"));
        self.addstr_at_style(0, HOSTNAME_POS, st, String::from_str("Host"));
        proof {
            assert(cells_view(self.cells@) =~= cells_view(old(self).cells@) + header_cells(
                old(self).size_y as int,
                old(self).size_x as int,
                st,
            ));
        }
    }

    /// Plans the right-aligned speed text of one row.
    fn print_speed(&mut self, y: usize, speed: usize, cmp: SpeedDirection)
        ensures
            cells_view(final(self).cells@) == cells_view(old(self).cells@) + clipv(
                old(self).size_y as int,
                old(self).size_x as int,
                y as int,
                speed_col(speed),
                cmp_style(cmp),
                dec_str(speed as nat),
            ),
            final(self).size_y == old(self).size_y,
            final(self).size_x == old(self).size_x,
            final(self).has_colors == old(self).has_colors,
            final(self).clients == old(self).clients,
    {
        let text = usize_to_string(speed);
        let digits = text.as_str().unicode_len();
        let x = if digits < SPEED_WIDTH {
            SPEED_POS + (SPEED_WIDTH - digits)
        } else {
            SPEED_POS
        };
        self.addstr_at_cmp(y, x, text, cmp);
    }

    /// Plans one client row in one uniform style.
    #[verifier::rlimit(60)]
    fn print_client_style(&mut self, y: usize, st: CellStyle, c: &ClientInfo)
        ensures
            cells_view(final(self).cells@) == cells_view(old(self).cells@) + client_row_cells(
                old(self).size_y as int,
                old(self).size_x as int,
                y as int,
                st,
                *c,
            ),
            final(self).size_y == old(self).size_y,
            final(self).size_x == old(self).size_x,
            final(self).has_colors == old(self).has_colors,
            final(self).clients == old(self).clients,
    {
        self.addstr_at_style(y, MAC_POS, st, c.mac.clone());
        match &c.ipv4 {
            Option::Some(v) => self.addstr_at_style(y, IPV4_POS, st, v.clone()),
            Option::None => (),
        }
        match &c.ipv6 {
            Option::Some(v) => self.addstr_at_style(y, IPV6_POS, st, v.clone()),
            Option::None => (),
        }
        let text = usize_to_string(c.speed);
        let digits = text.as_str().unicode_len();
        let x = if digits < SPEED_WIDTH {
            SPEED_POS + (SPEED_WIDTH - digits)
        } else {
            SPEED_POS
        };
        self.addstr_at_style(y, x, st, text);
        self.addstr_at_style(y, LEASE_POS, st, c.lease_time.clone());
        self.addstr_at_style(y, HOSTNAME_POS, st, c.hostname.clone());
        proof {
            reveal(client_row_cells);
            assert(cells_view(self.cells@) =~= cells_view(old(self).cells@) + client_row_cells(
                old(self).size_y as int,
                old(self).size_x as int,
                y as int,
                st,
                *c,
            ));
        }
    }

    /// Plans one plain client row.
    pub fn print_client(&mut self, y: usize, c: &ClientInfo)
        ensures
            cells_view(final(self).cells@) == cells_view(old(self).cells@) + client_row_cells(
                old(self).size_y as int,
                old(self).size_x as int,
                y as int,
                CellStyle::Plain,
                *c,
            ),
            final(self).size_y == old(self).size_y,
            final(self).size_x == old(self).size_x,
            final(self).has_colors == old(self).has_colors,
            final(self).clients == old(self).clients,
    {
        self.print_client_style(y, CellStyle::Plain, c);
    }

    /// Plans the row of a client that left: the whole row in the removed
    /// style.
    pub fn print_removed_client(&mut self, y: usize, c: &ClientInfo)
        ensures
            cells_view(final(self).cells@) == cells_view(old(self).cells@) + client_row_cells(
                old(self).size_y as int,
                old(self).size_x as int,
                y as int,
                CellStyle::Removed,
                *c,
            ),
            final(self).size_y == old(self).size_y,
            final(self).size_x == old(self).size_x,
            final(self).has_colors == old(self).has_colors,
            final(self).clients == old(self).clients,
    {
        self.print_client_style(y, CellStyle::Removed, c);
    }

    /// Plans the row of a client that appeared: the whole row in the added
    /// style.
    pub fn print_new_client(&mut self, y: usize, c: &ClientInfo)
        ensures
            cells_view(final(self).cells@) == cells_view(old(self).cells@) + client_row_cells(
                old(self).size_y as int,
                old(self).size_x as int,
                y as int,
                CellStyle::Added,
                *c,
            ),
            final(self).size_y == old(self).size_y,
            final(self).size_x == old(self).size_x,
            final(self).has_colors == old(self).has_colors,
            final(self).clients == old(self).clients,
    {
        self.print_client_style(y, CellStyle::Added, c);
    }

    /// Plans the row of a changed client, from the diff engine's entry:
    /// each field highlighted exactly when it changed, the speed styled by
    /// the direction of its change.
    #[verifier::rlimit(60)]
    pub fn print_client_diff(&mut self, y: usize, ch: &ClientChange)
        ensures
            cells_view(final(self).cells@) == cells_view(old(self).cells@) + change_row_cells(
                old(self).size_y as int,
                old(self).size_x as int,
                y as int,
                *ch,
            ),
            final(self).size_y == old(self).size_y,
            final(self).size_x == old(self).size_x,
            final(self).has_colors == old(self).has_colors,
            final(self).clients == old(self).clients,
    {
        let ghost sy = self.size_y as int;
        let ghost sx = self.size_x as int;
        let ghost v0 = cells_view(self.cells@);
        let ghost p1 = clipv(sy, sx, y as int, MAC_POS as int, CellStyle::Plain, ch.mac@);
        let ghost p2 = opt_diff_cells(
            sy,
            sx,
            y as int,
            IPV4_POS as int,
            crate::diff::fc_opt_views(ch.ipv4).0,
            crate::diff::fc_opt_views(ch.ipv4).1,
        );
        let ghost p3 = opt_diff_cells(
            sy,
            sx,
            y as int,
            IPV6_POS as int,
            crate::diff::fc_opt_views(ch.ipv6).0,
            crate::diff::fc_opt_views(ch.ipv6).1,
        );
        let ghost p4 = clipv(
            sy,
            sx,
            y as int,
            speed_col(crate::diff::fc_usize_views(ch.speed).1 as usize),
            cmp_style(ch.speed_direction),
            dec_str(crate::diff::fc_usize_views(ch.speed).1 as nat),
        );
        let ghost p5 = clipv(
            sy,
            sx,
            y as int,
            LEASE_POS as int,
            diff_style(
                crate::diff::fc_string_views(ch.lease_time).0,
                crate::diff::fc_string_views(ch.lease_time).1,
            ),
            crate::diff::fc_string_views(ch.lease_time).1,
        );
        let ghost p6 = clipv(
            sy,
            sx,
            y as int,
            HOSTNAME_POS as int,
            diff_style(
                crate::diff::fc_string_views(ch.hostname).0,
                crate::diff::fc_string_views(ch.hostname).1,
            ),
            crate::diff::fc_string_views(ch.hostname).1,
        );
        self.addstr_at(y, MAC_POS, ch.mac.clone());
        proof {
            assert(cells_view(self.cells@) == v0 + p1);
        }
        match &ch.ipv4 {
            FieldChange::Unchanged(v) => self.addstr_at_option_diff(y, IPV4_POS, v, v),
            FieldChange::Changed(o, n) => self.addstr_at_option_diff(y, IPV4_POS, o, n),
        }
        proof {
            assert(cells_view(self.cells@) =~= v0 + (p1 + p2));
        }
        match &ch.ipv6 {
            FieldChange::Unchanged(v) => self.addstr_at_option_diff(y, IPV6_POS, v, v),
            FieldChange::Changed(o, n) => self.addstr_at_option_diff(y, IPV6_POS, o, n),
        }
        proof {
            assert(cells_view(self.cells@) =~= v0 + (p1 + p2 + p3));
        }
        let new_speed = match &ch.speed {
            FieldChange::Unchanged(v) => *v,
            FieldChange::Changed(_, n) => *n,
        };
        self.print_speed(y, new_speed, ch.speed_direction);
        proof {
            assert(cells_view(self.cells@) =~= v0 + (p1 + p2 + p3 + p4));
        }
        match &ch.lease_time {
            FieldChange::Unchanged(v) => self.addstr_at_diff(y, LEASE_POS, v, v),
            FieldChange::Changed(o, n) => self.addstr_at_diff(y, LEASE_POS, o, n),
        }
        proof {
            assert(cells_view(self.cells@) =~= v0 + (p1 + p2 + p3 + p4 + p5));
        }
        match &ch.hostname {
            FieldChange::Unchanged(v) => self.addstr_at_diff(y, HOSTNAME_POS, v, v),
            FieldChange::Changed(o, n) => self.addstr_at_diff(y, HOSTNAME_POS, o, n),
        }
        proof {
            assert(cells_view(self.cells@) =~= v0 + (p1 + p2 + p3 + p4 + p5 + p6));
            reveal(change_row_cells);
            assert(change_row_cells(sy, sx, y as int, *ch) == p1 + p2 + p3 + p4 + p5 + p6);
        }
    }

    /// Plans the plain listing: header, then one row per client.
    pub fn print_clients(&mut self, clients: &Vec<ClientInfo>)
        ensures
            cells_view(final(self).cells@) == cells_view(old(self).cells@) + header_cells(
                old(self).size_y as int,
                old(self).size_x as int,
                CellStyle::Plain,
            ) + listing_rows_cells(
                old(self).size_y as int,
                old(self).size_x as int,
                1,
                clients@,
            ),
            final(self).size_y == old(self).size_y,
            final(self).size_x == old(self).size_x,
            final(self).has_colors == old(self).has_colors,
            final(self).clients == old(self).clients,
    {
        self.print_header();
        let ghost base = cells_view(self.cells@);
        let ghost sy = self.size_y as int;
        let ghost sx = self.size_x as int;
        let ghost target = base + listing_rows_cells(sy, sx, 1, clients@);
        let mut k: usize = 0;
        proof {
            assert(clients@.skip(0) =~= clients@);
        }
        while k < clients.len()
            invariant
                k <= clients@.len(),
                self.size_y as int == sy,
                self.size_x as int == sx,
                cells_view(self.cells@) + listing_rows_cells(
                    sy,
                    sx,
                    1 + k as int,
                    clients@.skip(k as int),
                ) == target,
                self.size_y == old(self).size_y,
                self.size_x == old(self).size_x,
                self.has_colors == old(self).has_colors,
                self.clients == old(self).clients,
            decreases clients@.len() - k,
        {
            let ghost rem = clients@.skip(k as int);
            proof {
                assert(rem[0] == clients@[k as int]);
                assert(rem.drop_first() =~= clients@.skip(k as int + 1));
            }
            let ghost before = cells_view(self.cells@);
            self.print_client(1 + k, &clients[k]);
            k = k + 1;
            proof {
                let row = client_row_cells(sy, sx, k as int, CellStyle::Plain, clients@[k - 1]);
                assert(listing_rows_cells(sy, sx, k as int, rem) == row + listing_rows_cells(
                    sy,
                    sx,
                    k as int + 1,
                    rem.drop_first(),
                ));
                assert((before + row) + listing_rows_cells(sy, sx, 1 + k as int, clients@.skip(
                    k as int,
                )) =~= before + (row + listing_rows_cells(sy, sx, 1 + k as int, clients@.skip(
                    k as int,
                ))));
            }
        }
        proof {
            assert(clients@.skip(clients@.len() as int) =~= Seq::<ClientInfo>::empty());
            assert(cells_view(self.cells@) + Seq::<CellView>::empty() =~= cells_view(
                self.cells@,
            ));
        }
    }

    /// Plans the colored view: the header bar, then one row per delta
    /// entry — added, removed, changed, or unchanged — in merged MAC order.
    #[verifier::rlimit(80)]
    pub fn print_clients_diff(&mut self, delta: &Vec<DeltaEntry>)
        ensures
            cells_view(final(self).cells@) == cells_view(old(self).cells@) + header_cells(
                old(self).size_y as int,
                old(self).size_x as int,
                CellStyle::Header,
            ) + delta_rows_cells(old(self).size_y as int, old(self).size_x as int, 1, delta@),
            final(self).size_y == old(self).size_y,
            final(self).size_x == old(self).size_x,
            final(self).has_colors == old(self).has_colors,
            final(self).clients == old(self).clients,
    {
        self.print_header_colored();
        let ghost base = cells_view(self.cells@);
        let ghost sy = self.size_y as int;
        let ghost sx = self.size_x as int;
        let ghost target = base + delta_rows_cells(sy, sx, 1, delta@);
        let mut k: usize = 0;
        proof {
            assert(delta@.skip(0) =~= delta@);
        }
        while k < delta.len()
            invariant
                k <= delta@.len(),
                self.size_y as int == sy,
                self.size_x as int == sx,
                cells_view(self.cells@) + delta_rows_cells(
                    sy,
                    sx,
                    1 + k as int,
                    delta@.skip(k as int),
                ) == target,
                self.size_y == old(self).size_y,
                self.size_x == old(self).size_x,
                self.has_colors == old(self).has_colors,
                self.clients == old(self).clients,
            decreases delta@.len() - k,
        {
            let ghost rem = delta@.skip(k as int);
            proof {
                assert(rem[0] == delta@[k as int]);
                assert(rem.drop_first() =~= delta@.skip(k as int + 1));
            }
            let ghost before = cells_view(self.cells@);
            match &delta[k] {
                DeltaEntry::Added(c) => self.print_new_client(1 + k, c),
                DeltaEntry::Removed(c) => self.print_removed_client(1 + k, c),
                DeltaEntry::Changed(ch) => self.print_client_diff(1 + k, ch),
                DeltaEntry::Unchanged(c) => self.print_client(1 + k, c),
            }
            k = k + 1;
            proof {
                let row = entry_row_cells(sy, sx, k as int, delta@[k - 1]);
                assert(cells_view(self.cells@) == before + row);
                assert(delta_rows_cells(sy, sx, k as int, rem) == row + delta_rows_cells(
                    sy,
                    sx,
                    k as int + 1,
                    rem.drop_first(),
                ));
                assert((before + row) + delta_rows_cells(sy, sx, 1 + k as int, delta@.skip(
                    k as int,
                )) =~= before + (row + delta_rows_cells(sy, sx, 1 + k as int, delta@.skip(
                    k as int,
                ))));
            }
        }
        proof {
            assert(delta@.skip(delta@.len() as int) =~= Seq::<DeltaEntry>::empty());
            assert(cells_view(self.cells@) + Seq::<CellView>::empty() =~= cells_view(
                self.cells@,
            ));
        }
    }

    /// Updates the dashboard with a fresh snapshot.
    ///
    /// The new client list is sorted by MAC; on a color-capable screen the
    /// planned cells render the delta against the previous snapshot, else a
    /// plain listing. The sorted list is retained for the next update, and
    /// the previous plan is discarded.
    pub fn update(&mut self, table: LanUserTable)
        ensures
            final(self).clients@ == sort_clients(table.wifi.clientinfo@),
            final(self).has_colors ==> cells_view(final(self).cells@) == header_cells(
                old(self).size_y as int,
                old(self).size_x as int,
                CellStyle::Header,
            ) + delta_rows_cells(
                old(self).size_y as int,
                old(self).size_x as int,
                1,
                spec_diff(old(self).clients@, table.wifi.clientinfo@),
            ),
            !final(self).has_colors ==> cells_view(final(self).cells@) == header_cells(
                old(self).size_y as int,
                old(self).size_x as int,
                CellStyle::Plain,
            ) + listing_rows_cells(
                old(self).size_y as int,
                old(self).size_x as int,
                1,
                sort_clients(table.wifi.clientinfo@),
            ),
            final(self).size_y == old(self).size_y,
            final(self).size_x == old(self).size_x,
            final(self).has_colors == old(self).has_colors,
    {
        let newclients = crate::diff::sort_by_mac(&table.wifi.clientinfo);
        self.cells = Vec::new();
        proof {
            assert(cells_view(self.cells@) =~= Seq::<CellView>::empty());
        }
        if self.has_colors {
            let delta = diff_client_lists(&self.clients, &table.wifi.clientinfo);
            self.print_clients_diff(&delta);
            proof {
                assert(Seq::<CellView>::empty() + header_cells(
                    self.size_y as int,
                    self.size_x as int,
                    CellStyle::Header,
                ) =~= header_cells(self.size_y as int, self.size_x as int, CellStyle::Header));
            }
        } else {
            self.print_clients(&newclients);
            proof {
                assert(Seq::<CellView>::empty() + header_cells(
                    self.size_y as int,
                    self.size_x as int,
                    CellStyle::Plain,
                ) =~= header_cells(self.size_y as int, self.size_x as int, CellStyle::Plain));
            }
        }
        self.clients = newclients;
    }
}

} // verus!
