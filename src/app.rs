//! The snapshot engine: the current table, its filters and order, the
//! selected connection and the scroll window, and the operations on them.
use std::time::Instant;
use vstd::prelude::*;
use vstd::string::*;

use crate::dns::{needs_lookup, opt_text, recorded, shown_address, DnsCache};
use crate::entry::{views, ConnectionEntry, EntryView};
use crate::event::{intent_for_key, intent_of, AppEvent, KeyPress};
use crate::filter::{should_show, shown, IpAddress, IpVersionFilter, ProtocolFilter, RawSocket, SocketDetail};
use crate::selection::{
    find_next, find_previous, first_match, next_of, position_of, previous_of, reconcile_scroll,
    scroll_for,
};
use crate::sort::{flipped, sort_entries, sorted_by, SortColumn, SortOrder};

verus! {

/// The engine's state.
pub struct App {
    /// Is the application running?
    pub running: bool,
    /// Current connection entries, filtered and in table order
    pub entries: Vec<ConnectionEntry>,
    /// Index of the first visible row
    pub scroll: usize,
    /// true, if table updates are suspended
    pub paused: bool,
    /// The column used to sort table lines
    pub sort_column: SortColumn,
    /// Sort ascending or descending
    pub sort_order: SortOrder,
    /// The visible height of the table
    pub visible_height: usize,
    /// Filter connections by ip version
    pub ip_version_filter: IpVersionFilter,
    /// Filter connections by protocol
    pub protocol_filter: ProtocolFilter,
    /// Resolve names of ip addresses
    pub resolve_address_names: bool,
    /// Show process info
    pub show_process_info: bool,
    /// Cache for DNS name resolutions
    pub dns_cache: DnsCache,
    /// Selected network connection
    pub selected: Option<ConnectionEntry>,
    /// The latest list that held the selected connection; its neighbours
    /// there take over when the selection has left the table
    pub previous_entries: Vec<ConnectionEntry>,
}

/// The view of an optional entry.
pub open spec fn opt_view(o: Option<ConnectionEntry>) -> Option<EntryView> {
    match o {
        Some(e) => Some(e@),
        None => None,
    }
}

/// The selection after one step down (`down`) or up: with no selection, the
/// first entry; else the neighbour of the selected connection in the table,
/// or, when the table no longer holds it, in the latest list that did. Where
/// there is no neighbour, or the table is empty, the selection stays.
pub open spec fn step_target(
    entries: Seq<EntryView>,
    fallback: Seq<EntryView>,
    sel: Option<EntryView>,
    down: bool,
) -> Option<EntryView> {
    if entries.len() == 0 {
        sel
    } else {
        match sel {
            None => Some(entries[0]),
            Some(s) => {
                let list = if first_match(entries, s) >= 0 {
                    entries
                } else {
                    fallback
                };
                let neighbour = if down {
                    next_of(list, s)
                } else {
                    previous_of(list, s)
                };
                match neighbour {
                    Some(n) => Some(n),
                    None => sel,
                }
            },
        }
    }
}

/// The next address family filter: IPv4, IPv6, both, and around again.
pub open spec fn next_ip_filter(f: IpVersionFilter) -> IpVersionFilter {
    match f {
        IpVersionFilter::Ipv4Only => IpVersionFilter::Ipv6Only,
        IpVersionFilter::Ipv6Only => IpVersionFilter::Ipv4AndIpv6,
        IpVersionFilter::Ipv4AndIpv6 => IpVersionFilter::Ipv4Only,
    }
}

/// The next protocol filter: TCP, UDP, both, and around again.
pub open spec fn next_protocol_filter(f: ProtocolFilter) -> ProtocolFilter {
    match f {
        ProtocolFilter::TcpOnly => ProtocolFilter::UdpOnly,
        ProtocolFilter::UdpOnly => ProtocolFilter::TcpAndUdp,
        ProtocolFilter::TcpAndUdp => ProtocolFilter::TcpOnly,
    }
}

/// The name of process `pid` in a table of (pid, name) pairs: the first
/// pair's, or empty when no pair has that id.
pub open spec fn name_for(table: Seq<(u32, String)>, pid: u32) -> Seq<char>
    decreases table.len(),
{
    if table.len() == 0 {
        Seq::empty()
    } else if table[0].0 == pid {
        table[0].1@
    } else {
        name_for(table.drop_first(), pid)
    }
}

/// The owning process of a socket: the first listed, or 0 when none is.
pub open spec fn owner_pid(pids: Seq<u32>) -> u32 {
    if pids.len() > 0 {
        pids[0]
    } else {
        0
    }
}

/// The entry that a raw record becomes, addresses shown through the cache
/// `m` when `resolve` is on.
pub open spec fn entry_of(
    rec: RawSocket,
    table: Seq<(u32, String)>,
    m: Map<Seq<char>, Seq<char>>,
    resolve: bool,
) -> EntryView {
    let pid = owner_pid(rec.associated_pids@);
    match rec.detail {
        SocketDetail::Tcp { local_addr, local_port, remote_addr, remote_port, state } => EntryView {
            proto: seq!['T', 'C', 'P'],
            local_ip: shown_address(m, local_addr.text@, resolve),
            local_port,
            remote_ip: shown_address(m, remote_addr.text@, resolve),
            remote_port,
            state: state@,
            pid,
            process: name_for(table, pid),
        },
        SocketDetail::Udp { local_addr, local_port } => EntryView {
            proto: seq!['U', 'D', 'P'],
            local_ip: shown_address(m, local_addr.text@, resolve),
            local_port,
            remote_ip: Seq::empty(),
            remote_port: 0,
            state: Seq::empty(),
            pid,
            process: name_for(table, pid),
        },
    }
}

/// The entries of the records that pass the filters, in record order.
pub open spec fn built_entries(
    recs: Seq<RawSocket>,
    ipf: IpVersionFilter,
    pf: ProtocolFilter,
    table: Seq<(u32, String)>,
    m: Map<Seq<char>, Seq<char>>,
    resolve: bool,
) -> Seq<EntryView>
    decreases recs.len(),
{
    if recs.len() == 0 {
        Seq::empty()
    } else {
        let before = built_entries(recs.drop_last(), ipf, pf, table, m, resolve);
        if shown(recs.last().detail, ipf, pf) {
            before.push(entry_of(recs.last(), table, m, resolve))
        } else {
            before
        }
    }
}

/// The record's socket uses address `t` (its local one, or a TCP socket's
/// remote one).
pub open spec fn mentions(d: SocketDetail, t: Seq<char>) -> bool {
    match d {
        SocketDetail::Tcp { local_addr, remote_addr, .. } => local_addr.text@ == t
            || remote_addr.text@ == t,
        SocketDetail::Udp { local_addr, .. } => local_addr.text@ == t,
    }
}

/// Some record among the first `n` passes the filters and uses address `t`.
pub open spec fn used_by_shown(
    recs: Seq<RawSocket>,
    n: int,
    ipf: IpVersionFilter,
    pf: ProtocolFilter,
    t: Seq<char>,
) -> bool {
    exists|i: int| 0 <= i < n && shown(#[trigger] recs[i].detail, ipf, pf) && mentions(recs[i].detail, t)
}

/// Some address of the list has text `t`.
pub open spec fn listed(s: Seq<IpAddress>, t: Seq<char>) -> bool {
    exists|k: int| 0 <= k < s.len() && (#[trigger] s[k]).text@ == t
}

/// The name of process `pid` in a table of (pid, name) pairs, or an empty
/// string.
pub fn process_name_of(table: &Vec<(u32, String)>, pid: u32) -> (r: String)
    ensures
        r@ == name_for(table@, pid),
{
    let mut i: usize = 0;
    assert(table@.skip(0) =~= table@);
    while i < table.len()
        invariant
            i <= table@.len(),
            name_for(table@, pid) == name_for(table@.skip(i as int), pid),
        decreases table@.len() - i,
    {
        if table[i].0 == pid {
            return table[i].1.clone();
        }
        assert(table@.skip(i as int).drop_first() =~= table@.skip(i + 1));
        i = i + 1;
    }
    String::new()
}

fn owner_of(pids: &Vec<u32>) -> (r: u32)
    ensures
        r == owner_pid(pids@),
{
    if pids.len() > 0 {
        pids[0]
    } else {
        0
    }
}

impl App {
    /// The engine's own consistency: its name cache is well formed.
    pub open spec fn wf(&self) -> bool {
        self.dns_cache.wf()
    }

    /// The names the cache holds, keyed by literal address.
    pub open spec fn dns_names(&self) -> Map<Seq<char>, Seq<char>> {
        self.dns_cache@
    }

    /// The latest list that held the selected connection.
    pub open spec fn fallback_entries(&self) -> Seq<EntryView> {
        views(self.previous_entries@)
    }

    /// The state of a freshly started engine.
    pub open spec fn is_initial(&self) -> bool {
        &&& self.wf()
        &&& self.running
        &&& self.entries@.len() == 0
        &&& self.scroll == 0
        &&& !self.paused
        &&& self.sort_column == SortColumn::LocalPort
        &&& self.sort_order == SortOrder::Asc
        &&& self.visible_height == 0
        &&& self.ip_version_filter == IpVersionFilter::Ipv4AndIpv6
        &&& self.protocol_filter == ProtocolFilter::TcpAndUdp
        &&& !self.resolve_address_names
        &&& !self.show_process_info
        &&& self.dns_names() == Map::<Seq<char>, Seq<char>>::empty()
        &&& self.selected is None
        &&& self.fallback_entries().len() == 0
    }

    /// Constructs a new engine: running, empty, unfiltered, ordered by local
    /// port ascending.
    pub fn new() -> (r: App)
        ensures
            r.is_initial(),
    {
        App {
            running: true,
            entries: Vec::new(),
            scroll: 0,
            paused: false,
            sort_column: SortColumn::LocalPort,
            sort_order: SortOrder::Asc,
            visible_height: 0,
            ip_version_filter: IpVersionFilter::Ipv4AndIpv6,
            protocol_filter: ProtocolFilter::TcpAndUdp,
            resolve_address_names: false,
            show_process_info: false,
            dns_cache: DnsCache::new(),
            selected: None,
            previous_entries: Vec::new(),
        }
    }

    /// Stops the application.
    pub fn quit(&mut self)
        ensures
            *final(self) == (App { running: false, ..*old(self) }),
    {
        self.running = false;
    }

    /// Suspends table updates, or resumes them.
    pub fn pause(&mut self)
        ensures
            *final(self) == (App { paused: !old(self).paused, ..*old(self) }),
    {
        self.paused = !self.paused;
    }

    /// Cycles the address family filter.
    pub fn toggle_ip_version(&mut self)
        ensures
            *final(self) == (App {
                ip_version_filter: next_ip_filter(old(self).ip_version_filter),
                ..*old(self)
            }),
    {
        self.ip_version_filter =
        match self.ip_version_filter {
            IpVersionFilter::Ipv4Only => IpVersionFilter::Ipv6Only,
            IpVersionFilter::Ipv6Only => IpVersionFilter::Ipv4AndIpv6,
            IpVersionFilter::Ipv4AndIpv6 => IpVersionFilter::Ipv4Only,
        };
    }

    /// Cycles the protocol filter.
    pub fn toggle_proto_version(&mut self)
        ensures
            *final(self) == (App {
                protocol_filter: next_protocol_filter(old(self).protocol_filter),
                ..*old(self)
            }),
    {
        self.protocol_filter =
        match self.protocol_filter {
            ProtocolFilter::TcpOnly => ProtocolFilter::UdpOnly,
            ProtocolFilter::UdpOnly => ProtocolFilter::TcpAndUdp,
            ProtocolFilter::TcpAndUdp => ProtocolFilter::TcpOnly,
        };
    }

    /// Turns name resolution of addresses on or off.
    pub fn toggle_dns_resolution(&mut self)
        ensures
            *final(self) == (App {
                resolve_address_names: !old(self).resolve_address_names,
                ..*old(self)
            }),
    {
        self.resolve_address_names = !self.resolve_address_names;
    }

    /// Shows or hides the process details of the selection.
    pub fn toggle_process_info(&mut self)
        ensures
            *final(self) == (App { show_process_info: !old(self).show_process_info, ..*old(self) }),
    {
        self.show_process_info = !self.show_process_info;
    }

    /// Page-wise scrolling is not offered; the state stays as it is.
    pub fn scroll_up_page(&mut self)
        ensures
            *final(self) == *old(self),
    {
    }

    /// Page-wise scrolling is not offered; the state stays as it is.
    pub fn scroll_down_page(&mut self)
        ensures
            *final(self) == *old(self),
    {
    }

    /// The help screen shows the table; the state stays as it is.
    pub fn show_help(&mut self)
        ensures
            *final(self) == *old(self),
    {
    }

    /// Puts the table in the order of the current column and direction.
    pub fn sort_entries(&mut self)
        ensures
            views(final(self).entries@) == sorted_by(
                views(old(self).entries@),
                old(self).sort_column,
                old(self).sort_order,
            ),
            *final(self) == (App { entries: final(self).entries, ..*old(self) }),
    {
        sort_entries(&mut self.entries, self.sort_column, self.sort_order);
    }

    /// Orders the table by a column: the active column flips its direction,
    /// another column becomes active in ascending order.
    pub fn sort_by_column(&mut self, sort_column: SortColumn)
        ensures
            final(self).sort_column == sort_column,
            final(self).sort_order == if old(self).sort_column == sort_column {
                flipped(old(self).sort_order)
            } else {
                SortOrder::Asc
            },
            views(final(self).entries@) == sorted_by(
                views(old(self).entries@),
                sort_column,
                final(self).sort_order,
            ),
            *final(self) == (App {
                entries: final(self).entries,
                sort_column: final(self).sort_column,
                sort_order: final(self).sort_order,
                ..*old(self)
            }),
    {
        if self.sort_column == sort_column {
            self.sort_order =
            match self.sort_order {
                SortOrder::Asc => SortOrder::Desc,
                SortOrder::Desc => SortOrder::Asc,
            };
        } else {
            self.sort_column = sort_column;
            self.sort_order = SortOrder::Asc;
        }
        self.sort_entries();
    }

    /// The entry just before the selected connection's first occurrence in
    /// the table.
    pub fn find_previous_entry(&self, entry: &ConnectionEntry) -> (r: Option<&ConnectionEntry>)
        ensures
            match r {
                Some(e) => previous_of(views(self.entries@), entry@) == Some(e@),
                None => previous_of(views(self.entries@), entry@) is None,
            },
    {
        find_previous(&self.entries, entry)
    }

    /// The entry just after the selected connection's first occurrence in
    /// the table.
    pub fn find_next_entry(&self, entry: &ConnectionEntry) -> (r: Option<&ConnectionEntry>)
        ensures
            match r {
                Some(e) => next_of(views(self.entries@), entry@) == Some(e@),
                None => next_of(views(self.entries@), entry@) is None,
            },
    {
        find_next(&self.entries, entry)
    }

    /// The table index of the selected connection, if the table holds it.
    pub fn selected_index(&self) -> (r: Option<usize>)
        ensures
            match self.selected {
                None => r is None,
                Some(s) => match r {
                    Some(i) => i as int == first_match(views(self.entries@), s@) && i
                        < self.entries@.len(),
                    None => first_match(views(self.entries@), s@) == -1,
                },
            },
    {
        match &self.selected {
            Some(s) => position_of(&self.entries, s),
            None => None,
        }
    }

    /// Moves the selection one row up.
    pub fn scroll_up_selection(&mut self)
        ensures
            opt_view(final(self).selected) == step_target(
                views(old(self).entries@),
                views(old(self).previous_entries@),
                opt_view(old(self).selected),
                false,
            ),
            *final(self) == (App { selected: final(self).selected, ..*old(self) }),
    {
        self.step_selection(false);
    }

    /// Moves the selection one row down.
    pub fn scroll_down_selection(&mut self)
        ensures
            opt_view(final(self).selected) == step_target(
                views(old(self).entries@),
                views(old(self).previous_entries@),
                opt_view(old(self).selected),
                true,
            ),
            *final(self) == (App { selected: final(self).selected, ..*old(self) }),
    {
        self.step_selection(true);
    }

    fn step_selection(&mut self, down: bool)
        ensures
            opt_view(final(self).selected) == step_target(
                views(old(self).entries@),
                views(old(self).previous_entries@),
                opt_view(old(self).selected),
                down,
            ),
            *final(self) == (App { selected: final(self).selected, ..*old(self) }),
    {
        if self.entries.len() == 0 {
            return;
        }
        let target: Option<ConnectionEntry> = match &self.selected {
            None => Some(self.entries[0].duplicate()),
            Some(s) => {
                let list = if position_of(&self.entries, s).is_some() {
                    &self.entries
                } else {
                    &self.previous_entries
                };
                let neighbour = if down {
                    find_next(list, s)
                } else {
                    find_previous(list, s)
                };
                match neighbour {
                    Some(n) => Some(n.duplicate()),
                    None => None,
                }
            },
        };
        if target.is_some() {
            self.selected = target;
        }
    }

    /// Brings the scroll window of `height` rows to the selection, as
    /// `scroll_for` states, and keeps the height.
    pub fn update_scroll(&mut self, height: usize)
        ensures
            final(self).scroll as int == scroll_for(
                old(self).scroll as int,
                match old(self).selected {
                    Some(s) => if first_match(views(old(self).entries@), s@) >= 0 {
                        Some(first_match(views(old(self).entries@), s@))
                    } else {
                        None
                    },
                    None => None,
                },
                height as int,
                old(self).entries@.len() as int,
            ),
            *final(self) == (App {
                scroll: final(self).scroll,
                visible_height: height,
                ..*old(self)
            }),
    {
        let index = self.selected_index();
        self.scroll = reconcile_scroll(self.scroll, index, height, self.entries.len());
        self.visible_height = height;
    }

    /// The rows of the table that the window shows: from the scroll offset,
    /// at most `visible_height` of them.
    pub fn visible_range(&self) -> (r: (usize, usize))
        ensures
            r.0 == if self.scroll <= self.entries@.len() {
                self.scroll as int
            } else {
                self.entries@.len() as int
            },
            r.1 as int == if r.0 + self.visible_height <= self.entries@.len() {
                r.0 + self.visible_height
            } else {
                self.entries@.len() as int
            },
    {
        let n = self.entries.len();
        let start = if self.scroll <= n {
            self.scroll
        } else {
            n
        };
        let end = if self.visible_height <= n - start {
            start + self.visible_height
        } else {
            n
        };
        (start, end)
    }

    /// Whether a record passes the engine's filters.
    pub fn show_connection(&self, socket_info: &RawSocket) -> (r: bool)
        ensures
            r == shown(socket_info.detail, self.ip_version_filter, self.protocol_filter),
    {
        should_show(socket_info, self.ip_version_filter, self.protocol_filter)
    }

    /// The text shown for an address: its cached name when resolution is on
    /// and the cache holds one, else the literal address.
    pub fn ip_to_string(&self, ip: &IpAddress) -> (r: String)
        requires
            self.wf(),
        ensures
            r@ == shown_address(self.dns_names(), ip.text@, self.resolve_address_names),
    {
        match self.dns_cache.display_address(ip, self.resolve_address_names) {
            Some(s) => s,
            None => ip.text.clone(),
        }
    }

    /// Records the outcome of an outside lookup of address `ip` (its literal
    /// text; `None` when the lookup failed) and returns the name now cached.
    pub fn resolve_dns(&mut self, ip: &IpAddress, lookup: Option<String>) -> (r: String)
        requires
            old(self).wf(),
        ensures
            final(self).wf(),
            final(self).dns_names() == recorded(old(self).dns_names(), ip.text@, opt_text(lookup)),
            r@ == final(self).dns_names()[ip.text@],
            *final(self) == (App { dns_cache: final(self).dns_cache, ..*old(self) }),
    {
        self.dns_cache.record(ip, lookup)
    }

    fn make_entry(&self, rec: &RawSocket, table: &Vec<(u32, String)>, now: Instant) -> (r:
        ConnectionEntry)
        requires
            self.wf(),
        ensures
            r@ == entry_of(*rec, table@, self.dns_names(), self.resolve_address_names),
    {
        let pid = owner_of(&rec.associated_pids);
        let process = process_name_of(table, pid);
        proof {
            reveal_strlit("TCP");
            reveal_strlit("UDP");
        }
        match &rec.detail {
            SocketDetail::Tcp { local_addr, local_port, remote_addr, remote_port, state } => {
                let r = ConnectionEntry {
                    proto: String::from_str("TCP"),
                    local_ip: self.ip_to_string(local_addr),
                    local_port: *local_port,
                    remote_ip: self.ip_to_string(remote_addr),
                    remote_port: *remote_port,
                    state: state.clone(),
                    pid,
                    process,
                    creation_time: now,
                };
                assert(r@.proto =~= seq!['T', 'C', 'P']);
                r
            },
            SocketDetail::Udp { local_addr, local_port } => {
                let r = ConnectionEntry {
                    proto: String::from_str("UDP"),
                    local_ip: self.ip_to_string(local_addr),
                    local_port: *local_port,
                    remote_ip: String::new(),
                    remote_port: 0,
                    state: String::new(),
                    pid,
                    process,
                    creation_time: now,
                };
                assert(r@.proto =~= seq!['U', 'D', 'P']);
                r
            },
        }
    }

    /// Replaces the table by the entries of the records that pass the
    /// filters (none when enumeration failed), put in table order. When the
    /// old table held the selected connection, the old table is kept as the
    /// list whose neighbours take over should the selection leave.
    pub fn update_connection_entries(
        &mut self,
        records: Option<Vec<RawSocket>>,
        process_names: &Vec<(u32, String)>,
        now: Instant,
    )
        requires
            old(self).wf(),
        ensures
            final(self).wf(),
            views(final(self).entries@) == sorted_by(
                built_entries(
                    match records {
                        Some(v) => v@,
                        None => Seq::empty(),
                    },
                    old(self).ip_version_filter,
                    old(self).protocol_filter,
                    process_names@,
                    old(self).dns_names(),
                    old(self).resolve_address_names,
                ),
                old(self).sort_column,
                old(self).sort_order,
            ),
            final(self).previous_entries == match old(self).selected {
                Some(s) => if first_match(views(old(self).entries@), s@) >= 0 {
                    old(self).entries
                } else {
                    old(self).previous_entries
                },
                None => old(self).previous_entries,
            },
            *final(self) == (App {
                entries: final(self).entries,
                previous_entries: final(self).previous_entries,
                ..*old(self)
            }),
    {
        let recs: Vec<RawSocket> = match records {
            Some(v) => v,
            None => Vec::new(),
        };
        let mut fresh: Vec<ConnectionEntry> = Vec::new();
        let mut i: usize = 0;
        while i < recs.len()
            invariant
                self.wf(),
                i <= recs@.len(),
                views(fresh@) == built_entries(
                    recs@.take(i as int),
                    self.ip_version_filter,
                    self.protocol_filter,
                    process_names@,
                    self.dns_names(),
                    self.resolve_address_names,
                ),
            decreases recs@.len() - i,
        {
            proof {
                assert(recs@.take(i + 1).drop_last() =~= recs@.take(i as int));
                assert(recs@.take(i + 1).last() == recs@[i as int]);
            }
            if self.show_connection(&recs[i]) {
                let e = self.make_entry(&recs[i], process_names, now);
                let ghost before = fresh@;
                fresh.push(e);
                assert(views(fresh@) =~= views(before).push(e@));
            }
            i = i + 1;
        }
        assert(recs@.take(recs@.len() as int) =~= recs@);
        sort_entries(&mut fresh, self.sort_column, self.sort_order);
        let keep_old = match &self.selected {
            Some(s) => position_of(&self.entries, s).is_some(),
            None => false,
        };
        let mut old_entries = fresh;
        core::mem::swap(&mut self.entries, &mut old_entries);
        if keep_old {
            self.previous_entries = old_entries;
        }
    }

    /// A refresh: unless updates are paused, replaces the table as
    /// `update_connection_entries` states.
    pub fn tick(
        &mut self,
        records: Option<Vec<RawSocket>>,
        process_names: &Vec<(u32, String)>,
        now: Instant,
    )
        requires
            old(self).wf(),
        ensures
            final(self).wf(),
            old(self).paused ==> *final(self) == *old(self),
            !old(self).paused ==> views(final(self).entries@) == sorted_by(
                built_entries(
                    match records {
                        Some(v) => v@,
                        None => Seq::empty(),
                    },
                    old(self).ip_version_filter,
                    old(self).protocol_filter,
                    process_names@,
                    old(self).dns_names(),
                    old(self).resolve_address_names,
                ),
                old(self).sort_column,
                old(self).sort_order,
            ),
            !old(self).paused ==> final(self).previous_entries == match old(self).selected {
                Some(s) => if first_match(views(old(self).entries@), s@) >= 0 {
                    old(self).entries
                } else {
                    old(self).previous_entries
                },
                None => old(self).previous_entries,
            },
            *final(self) == (App {
                entries: final(self).entries,
                previous_entries: final(self).previous_entries,
                ..*old(self)
            }),
    {
        if !self.paused {
            self.update_connection_entries(records, process_names, now);
        }
    }

    /// Whether the list holds an address of text `ip`.
    fn lists_address(list: &Vec<IpAddress>, ip: &IpAddress) -> (r: bool)
        ensures
            r == exists|k: int| 0 <= k < list@.len() && list@[k].text@ == ip.text@,
    {
        let mut k: usize = 0;
        while k < list.len()
            invariant
                k <= list@.len(),
                forall|j: int| 0 <= j < k ==> list@[j].text@ != ip.text@,
            decreases list@.len() - k,
        {
            if list[k].text == ip.text {
                return true;
            }
            k = k + 1;
        }
        false
    }

    fn note_address(&self, ip: &IpAddress, out: &mut Vec<IpAddress>)
        requires
            self.wf(),
            forall|j: int, k: int|
                0 <= j < k < old(out)@.len() ==> old(out)@[j].text@ != old(out)@[k].text@,
        ensures
            forall|j: int, k: int|
                0 <= j < k < final(out)@.len() ==> final(out)@[j].text@ != final(out)@[k].text@,
            forall|j: int| 0 <= j < old(out)@.len() ==> final(out)@[j] == old(out)@[j],
            final(out)@.len() == old(out)@.len() || (final(out)@.len() == old(out)@.len() + 1
                && final(out)@[old(out)@.len() as int].text@ == ip.text@ && needs_lookup(
                self.dns_names(),
                ip.text@,
                self.resolve_address_names,
            )),
            needs_lookup(self.dns_names(), ip.text@, self.resolve_address_names) ==> exists|
                k: int,
            | 0 <= k < final(out)@.len() && final(out)@[k].text@ == ip.text@,
    {
        if self.dns_cache.display_address(ip, self.resolve_address_names).is_none()
            && !Self::lists_address(out, ip) {
            let ghost before = out@;
            out.push(ip.duplicate());
            assert(out@[before.len() as int].text@ == ip.text@);
        }
    }

    /// The addresses of the records that pass the filters whose names an
    /// outside lookup must supply before the next refresh: with resolution
    /// on, each such address that the cache lacks, once; with it off, none.
    pub fn addresses_to_resolve(&self, records: &Vec<RawSocket>) -> (r: Vec<IpAddress>)
        requires
            self.wf(),
        ensures
            !self.resolve_address_names ==> r@.len() == 0,
            forall|k: int|
                0 <= k < r@.len() ==> needs_lookup(
                    self.dns_names(),
                    #[trigger] r@[k].text@,
                    self.resolve_address_names,
                ) && used_by_shown(
                    records@,
                    records@.len() as int,
                    self.ip_version_filter,
                    self.protocol_filter,
                    r@[k].text@,
                ),
            forall|i: int, t: Seq<char>|
                0 <= i < records@.len() && shown(
                    #[trigger] records@[i].detail,
                    self.ip_version_filter,
                    self.protocol_filter,
                ) && #[trigger] mentions(records@[i].detail, t) && needs_lookup(
                    self.dns_names(),
                    t,
                    self.resolve_address_names,
                ) ==> listed(r@, t),
            forall|j: int, k: int| 0 <= j < k < r@.len() ==> r@[j].text@ != r@[k].text@,
    {
        let mut out: Vec<IpAddress> = Vec::new();
        if !self.resolve_address_names {
            return out;
        }
        let ghost m = self.dns_names();
        let ghost ipf = self.ip_version_filter;
        let ghost pf = self.protocol_filter;
        let mut i: usize = 0;
        while i < records.len()
            invariant
                self.wf(),
                self.resolve_address_names,
                m == self.dns_names(),
                ipf == self.ip_version_filter,
                pf == self.protocol_filter,
                i <= records@.len(),
                forall|k: int|
                    0 <= k < out@.len() ==> needs_lookup(m, #[trigger] out@[k].text@, true)
                        && used_by_shown(records@, i as int, ipf, pf, out@[k].text@),
                forall|i2: int, t: Seq<char>|
                    0 <= i2 < i && shown(#[trigger] records@[i2].detail, ipf, pf)
                        && #[trigger] mentions(records@[i2].detail, t) && needs_lookup(m, t, true)
                        ==> listed(out@, t),
                forall|j: int, k: int| 0 <= j < k < out@.len() ==> out@[j].text@ != out@[k].text@,
            decreases records@.len() - i,
        {
            if self.show_connection(&records[i]) {
                let ghost d = records@[i as int].detail;
                let ghost o0 = out@;
                match &records[i].detail {
                    SocketDetail::Tcp { local_addr, remote_addr, .. } => {
                        self.note_address(local_addr, &mut out);
                        let ghost o1 = out@;
                        self.note_address(remote_addr, &mut out);
                        let ghost o2 = out@;
                        assert(mentions(d, local_addr.text@));
                        assert(mentions(d, remote_addr.text@));
                        assert forall|k: int|
                            0 <= k < out@.len() implies needs_lookup(
                            m,
                            #[trigger] out@[k].text@,
                            true,
                        ) && used_by_shown(records@, i + 1, ipf, pf, out@[k].text@) by {
                            if k < o0.len() {
                                assert(o1[k] == o0[k]);
                                assert(o2[k] == o1[k]);
                                assert(needs_lookup(m, o0[k].text@, true));
                            } else if k < o1.len() {
                                assert(o2[k] == o1[k]);
                                assert(o1[k].text@ == local_addr.text@);
                                assert(mentions(records@[i as int].detail, out@[k].text@));
                            } else {
                                assert(o2[k].text@ == remote_addr.text@);
                                assert(mentions(records@[i as int].detail, out@[k].text@));
                            }
                        }
                        assert forall|i2: int, t: Seq<char>|
                            0 <= i2 < i + 1 && shown(#[trigger] records@[i2].detail, ipf, pf)
                                && #[trigger] mentions(records@[i2].detail, t) && needs_lookup(
                                m,
                                t,
                                true,
                            ) implies listed(out@, t) by {
                            if i2 < i {
                                let k0 = choose|k: int| 0 <= k < o0.len() && o0[k].text@ == t;
                                assert(o1[k0] == o0[k0]);
                                assert(o2[k0] == o1[k0]);
                            } else if t == local_addr.text@ {
                                if exists|k: int| 0 <= k < o0.len() && o0[k].text@ == t {
                                    let k0 = choose|k: int| 0 <= k < o0.len() && o0[k].text@ == t;
                                    assert(o1[k0] == o0[k0]);
                                    assert(o2[k0] == o1[k0]);
                                } else {
                                    assert(o2[o0.len() as int] == o1[o0.len() as int]);
                                }
                            } else {
                                if exists|k: int| 0 <= k < o1.len() && o1[k].text@ == t {
                                    let k0 = choose|k: int| 0 <= k < o1.len() && o1[k].text@ == t;
                                    assert(o2[k0] == o1[k0]);
                                } else {
                                    assert(o2[o1.len() as int].text@ == t);
                                }
                            }
                        }
                    },
                    SocketDetail::Udp { local_addr, .. } => {
                        self.note_address(local_addr, &mut out);
                        let ghost o1 = out@;
                        assert(mentions(d, local_addr.text@));
                        assert forall|k: int|
                            0 <= k < out@.len() implies needs_lookup(
                            m,
                            #[trigger] out@[k].text@,
                            true,
                        ) && used_by_shown(records@, i + 1, ipf, pf, out@[k].text@) by {
                            if k < o0.len() {
                                assert(o1[k] == o0[k]);
                                assert(needs_lookup(m, o0[k].text@, true));
                            } else {
                                assert(o1[k].text@ == local_addr.text@);
                                assert(mentions(records@[i as int].detail, out@[k].text@));
                            }
                        }
                        assert forall|i2: int, t: Seq<char>|
                            0 <= i2 < i + 1 && shown(#[trigger] records@[i2].detail, ipf, pf)
                                && #[trigger] mentions(records@[i2].detail, t) && needs_lookup(
                                m,
                                t,
                                true,
                            ) implies listed(out@, t) by {
                            if i2 < i {
                                let k0 = choose|k: int| 0 <= k < o0.len() && o0[k].text@ == t;
                                assert(o1[k0] == o0[k0]);
                            } else {
                                if exists|k: int| 0 <= k < o0.len() && o0[k].text@ == t {
                                    let k0 = choose|k: int| 0 <= k < o0.len() && o0[k].text@ == t;
                                    assert(o1[k0] == o0[k0]);
                                } else {
                                    assert(o1[o0.len() as int].text@ == t);
                                }
                            }
                        }
                    },
                }
            } else {
                assert forall|k: int|
                    0 <= k < out@.len() implies needs_lookup(
                    m,
                    #[trigger] out@[k].text@,
                    true,
                ) && used_by_shown(records@, i + 1, ipf, pf, out@[k].text@) by {
                    assert(needs_lookup(m, out@[k].text@, true));
                }
            }
            i = i + 1;
        }
        out
    }

    /// Decodes a key into the intent it asks for; `control_only` says that
    /// Control, and no other modifier, was held.
    pub fn handle_key_events(&self, key_event: KeyPress, control_only: bool) -> (r: Option<AppEvent>)
        ensures
            r == intent_of(key_event, control_only),
    {
        intent_for_key(key_event, control_only)
    }
}

impl Default for App {
    fn default() -> (r: App)
        ensures
            r.is_initial(),
    {
        App::new()
    }
}

} // verus!
